//! The append-only record of past steps and its rendering as a bounded
//! conversation window.

use vstd::prelude::*;
use vstd::string::*;

use crate::invocation::Invocation;

verus! {

/// The immutable outcome of one step of the run.
#[derive(Debug)]
pub enum Execution {
    /// The invocation ran and returned, possibly with a result text.
    Success { invocation: Invocation, result: Option<String> },
    /// The invocation was refused or failed; `error` is the failure's message.
    Failure { invocation: Invocation, error: String },
    /// The model reply could not be parsed into an invocation at all.
    Unparsed { response: String, error: String },
}

/// One chat message of the conversation sent to the model.
#[derive(Debug)]
pub enum Message {
    /// What the model said (an action call, or an unparsable reply).
    Agent(String),
    /// What the system answered (the action's output or failure).
    Feedback(String),
}

/// The text of an attribute list inside a rendered action call: one
/// ` key="value"` piece per attribute, in order.
pub open spec fn spec_render_attrs(s: Seq<(String, String)>) -> Seq<char>
    decreases s.len(),
{
    if s.len() == 0 {
        Seq::<char>::empty()
    } else {
        spec_render_attrs(s.drop_last()) + " "@ + s.last().0@ + "=\""@ + s.last().1@ + "\""@
    }
}

/// The textual form of an invocation, as the model originally wrote it:
/// `<action key="value" ...>payload</action>`.
pub open spec fn spec_render_invocation(inv: Invocation) -> Seq<char> {
    let attrs = match inv.attributes {
        Some(a) => spec_render_attrs(a@),
        None => Seq::<char>::empty(),
    };
    let payload = match inv.payload {
        Some(p) => p@,
        None => Seq::<char>::empty(),
    };
    "<"@ + inv.action@ + attrs + ">"@ + payload + "</"@ + inv.action@ + ">"@
}

/// The model-side text of one recorded step.
pub open spec fn spec_agent_text(e: Execution) -> Seq<char> {
    match e {
        Execution::Success { invocation, .. } => spec_render_invocation(invocation),
        Execution::Failure { invocation, .. } => spec_render_invocation(invocation),
        Execution::Unparsed { response, .. } => response@,
    }
}

/// The system-side answer of one recorded step.
pub open spec fn spec_feedback_text(e: Execution) -> Seq<char> {
    match e {
        Execution::Success { result, .. } => match result {
            Some(r) => r@,
            None => "no output"@,
        },
        Execution::Failure { error, .. } => "ERROR: "@ + error@,
        Execution::Unparsed { error, .. } => "ERROR: "@ + error@,
    }
}

/// `m` is the agent-side rendering of the record `e`.
pub open spec fn is_agent_message(m: Message, e: Execution) -> bool {
    m matches Message::Agent(s) && s@ == spec_agent_text(e)
}

/// `m` is the feedback-side rendering of the record `e`.
pub open spec fn is_feedback_message(m: Message, e: Execution) -> bool {
    m matches Message::Feedback(s) && s@ == spec_feedback_text(e)
}

/// The window of the `max` most recent entries of `s`, oldest first: a window
/// larger than the log keeps the whole log, and a window of zero is empty.
pub open spec fn spec_window(s: Seq<Execution>, max: int) -> Seq<Execution> {
    if s.len() <= max {
        s
    } else {
        s.skip(s.len() - max)
    }
}

/// Renders an invocation as the text form the model uses.
pub fn render_invocation(inv: &Invocation) -> (r: String)
    ensures
        r@ == spec_render_invocation(*inv),
{
    let mut s = String::from_str("<");
    s.append(inv.action.as_str());
    match &inv.attributes {
        Some(attrs) => {
            let mut i: usize = 0;
            while i < attrs.len()
                invariant
                    i <= attrs@.len(),
                    s@ == "<"@ + inv.action@ + spec_render_attrs(attrs@.take(i as int)),
                decreases attrs@.len() - i,
            {
                s.append(" ");
                s.append(attrs[i].0.as_str());
                s.append("=\"");
                s.append(attrs[i].1.as_str());
                s.append("\"");
                proof {
                    assert(attrs@.take(i + 1).drop_last() =~= attrs@.take(i as int));
                    assert(attrs@.take(i + 1).last() == attrs@[i as int]);
                    assert(s@ =~= "<"@ + inv.action@ + spec_render_attrs(attrs@.take(i + 1)));
                }
                i = i + 1;
            }
            proof {
                assert(attrs@.take(attrs@.len() as int) =~= attrs@);
            }
        },
        None => {},
    }
    s.append(">");
    match &inv.payload {
        Some(p) => s.append(p.as_str()),
        None => {},
    }
    s.append("</");
    s.append(inv.action.as_str());
    s.append(">");
    proof {
        assert(s@ =~= spec_render_invocation(*inv));
    }
    s
}

/// The model-side text of one recorded step.
pub fn agent_text(e: &Execution) -> (r: String)
    ensures
        r@ == spec_agent_text(*e),
{
    match e {
        Execution::Success { invocation, .. } => render_invocation(invocation),
        Execution::Failure { invocation, .. } => render_invocation(invocation),
        Execution::Unparsed { response, .. } => response.clone(),
    }
}

/// The system-side answer of one recorded step.
pub fn feedback_text(e: &Execution) -> (r: String)
    ensures
        r@ == spec_feedback_text(*e),
{
    match e {
        Execution::Success { result, .. } => match result {
            Some(r) => r.clone(),
            None => String::from_str("no output"),
        },
        Execution::Failure { error, .. } => String::from_str("ERROR: ").concat(error.as_str()),
        Execution::Unparsed { error, .. } => String::from_str("ERROR: ").concat(error.as_str()),
    }
}

/// The ordered, append-only log of everything the run did so far.
#[derive(Debug)]
pub struct History {
    entries: Vec<Execution>,
}

impl History {
    /// The recorded executions, oldest first.
    pub closed spec fn executions(&self) -> Seq<Execution> {
        self.entries@
    }

    /// An empty log.
    pub fn new() -> (r: History)
        ensures
            r.executions().len() == 0,
    {
        History { entries: Vec::new() }
    }

    /// How many steps were recorded.
    pub fn len(&self) -> (r: usize)
        ensures
            r == self.executions().len(),
    {
        self.entries.len()
    }

    /// Appends exactly one record; nothing else changes.
    pub fn push(&mut self, e: Execution)
        ensures
            final(self).executions() == old(self).executions().push(e),
    {
        self.entries.push(e);
    }

    /// The most recent `max` records, rendered as chat message pairs in
    /// chronological order: for each record one agent message and one
    /// feedback message. The log itself is not touched.
    pub fn to_chat_history(&self, max: usize) -> (r: Vec<Message>)
        ensures
            ({
                let w = spec_window(self.executions(), max as int);
                &&& r@.len() == 2 * w.len()
                &&& forall|i: int|
                    0 <= i < w.len() ==> is_agent_message(r@[2 * i], #[trigger] w[i])
                &&& forall|i: int|
                    0 <= i < w.len() ==> is_feedback_message(r@[2 * i + 1], #[trigger] w[i])
            }),
    {
        let len = self.entries.len();
        let start: usize = if len > max {
            len - max
        } else {
            0
        };
        let ghost w = spec_window(self.executions(), max as int);
        proof {
            assert(w.len() == len - start);
            assert(forall|j: int| 0 <= j < w.len() ==> w[j] == self.executions()[start + j]);
        }
        let mut r: Vec<Message> = Vec::new();
        let mut i: usize = start;
        while i < len
            invariant
                start <= i <= len,
                len == self.executions().len(),
                w == spec_window(self.executions(), max as int),
                w.len() == len - start,
                forall|j: int| 0 <= j < w.len() ==> w[j] == self.executions()[start + j],
                r@.len() == 2 * (i - start),
                forall|j: int| 0 <= j < i - start ==> is_agent_message(r@[2 * j], #[trigger] w[j]),
                forall|j: int|
                    0 <= j < i - start ==> is_feedback_message(r@[2 * j + 1], #[trigger] w[j]),
            decreases len - i,
        {
            let a = agent_text(&self.entries[i]);
            let f = feedback_text(&self.entries[i]);
            let ghost r_prev = r@;
            r.push(Message::Agent(a));
            r.push(Message::Feedback(f));
            proof {
                let k = (i - start) as int;
                assert(w[k] == self.executions()[i as int]);
                assert(r@.len() == 2 * k + 2);
                assert(is_agent_message(r@[2 * k], w[k]));
                assert(is_feedback_message(r@[2 * k + 1], w[k]));
                assert forall|j: int| 0 <= j < k + 1 implies is_agent_message(
                    r@[2 * j],
                    #[trigger] w[j],
                ) by {
                    if j < k {
                        assert(r@[2 * j] == r_prev[2 * j]);
                    }
                }
                assert forall|j: int| 0 <= j < k + 1 implies is_feedback_message(
                    r@[2 * j + 1],
                    #[trigger] w[j],
                ) by {
                    if j < k {
                        assert(r@[2 * j + 1] == r_prev[2 * j + 1]);
                    }
                }
            }
            i = i + 1;
        }
        r
    }
}

} // verus!
