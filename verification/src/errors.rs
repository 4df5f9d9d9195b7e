//! The error taxonomy of the agent core.
//!
//! Configuration-time failures (an unknown namespace) and budget exhaustion
//! terminate a run; every other failure is recorded into the history and the
//! run continues.

use vstd::prelude::*;
use vstd::string::*;

verus! {

/// Everything that can go wrong inside the agent core.
#[derive(Clone, Debug, PartialEq, Eq)]
pub enum AgentError {
    /// A task asked for a namespace that the registry does not define.
    /// Fatal to run construction.
    NamespaceNotFound(String),
    /// A caller asked for a storage that no active namespace declared.
    StorageNotFound(String),
    /// An action was dispatched while one of its required variables was
    /// undefined; recorded as the action's error, the run continues.
    MissingRequiredVariable(String),
    /// An action ran out of its declared time budget.
    ActionTimeout,
    /// An action ran and failed; the payload is its message.
    ActionExecutionError(String),
    /// A retrieval query was made but the task configured no retrieval.
    NoRetrievalConfigured,
    /// The step counter reached a positive budget. Fatal to the run.
    BudgetExhausted,
    /// The outbound event channel has no receiver any more.
    EventSinkClosed,
}

impl AgentError {
    /// The message text of this error, as a reader of a run transcript
    /// sees it.
    pub open spec fn spec_message(&self) -> Seq<char> {
        match self {
            AgentError::NamespaceNotFound(name) => "no namespace '"@ + name@ + "' defined"@,
            AgentError::StorageNotFound(name) => "storage "@ + name@ + " not found"@,
            AgentError::MissingRequiredVariable(name) => "required variable '"@ + name@
                + "' not defined"@,
            AgentError::ActionTimeout => "action timed out"@,
            AgentError::ActionExecutionError(msg) => msg@,
            AgentError::NoRetrievalConfigured => "no RAG engine has been configured"@,
            AgentError::BudgetExhausted => "maximum number of steps reached"@,
            AgentError::EventSinkClosed => "events channel closed"@,
        }
    }

    /// Renders the error as text.
    pub fn message(&self) -> (r: String)
        ensures
            r@ == self.spec_message(),
    {
        match self {
            AgentError::NamespaceNotFound(name) => String::from_str("no namespace '").concat(
                name.as_str(),
            ).concat("' defined"),
            AgentError::StorageNotFound(name) => String::from_str("storage ").concat(
                name.as_str(),
            ).concat(" not found"),
            AgentError::MissingRequiredVariable(name) => String::from_str(
                "required variable '",
            ).concat(name.as_str()).concat("' not defined"),
            AgentError::ActionTimeout => String::from_str("action timed out"),
            AgentError::ActionExecutionError(msg) => msg.clone(),
            AgentError::NoRetrievalConfigured => String::from_str(
                "no RAG engine has been configured",
            ),
            AgentError::BudgetExhausted => String::from_str("maximum number of steps reached"),
            AgentError::EventSinkClosed => String::from_str("events channel closed"),
        }
    }
}

} // verus!
