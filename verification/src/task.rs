//! What one run is asked to do: prompt, requested namespaces, extra
//! capabilities, variables, and the optional retrieval configuration.

use vstd::prelude::*;
use vstd::string::*;

use crate::namespaces::Namespace;

verus! {

/// Where a retrieval store finds its source documents and keeps its data.
#[derive(Debug)]
pub struct RagConfig {
    /// Directory the source documents are imported from.
    pub source_path: String,
    /// Directory the store keeps its persistent data in.
    pub data_path: String,
    /// Optional chunking size for imported documents.
    pub chunk_size: Option<usize>,
}

/// A task definition, immutable once the run starts.
#[derive(Debug)]
pub struct Task {
    /// The task text handed to the model as the initial prompt.
    pub prompt: String,
    /// The namespaces the task asks for; `"*"` stands for every default
    /// namespace, and no list at all means exactly the default namespaces.
    pub using: Option<Vec<String>>,
    /// Extra task-specific namespaces, appended after the requested ones.
    pub functions: Vec<Namespace>,
    /// The retrieval configuration, when the task wants retrieval.
    pub rag: Option<RagConfig>,
    /// The task-defined variables actions may require.
    pub variables: Vec<(String, String)>,
}

impl Task {
    /// The initial prompt of the run.
    pub fn to_prompt(&self) -> (r: String)
        ensures
            r@ == self.prompt@,
    {
        self.prompt.clone()
    }
}

} // verus!
