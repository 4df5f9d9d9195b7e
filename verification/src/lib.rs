//! Agent execution core: a verified library for driving an autonomous
//! task-execution loop.
//!
//! The library owns the shared execution context ([`state::State`]), the
//! namespace/action capability registry ([`namespaces`]), the append-only
//! execution history and its bounded chat-window rendering ([`history`]),
//! per-namespace key/value storages ([`storage`]), the step budget
//! ([`metrics::Metrics`]), the optional retrieval hook ([`rag`]), and the
//! per-step invocation dispatcher ([`dispatch`]). Network transport (model
//! backends, HTTP requests, the vector store) is performed by the embedding
//! application, which exchanges plain values with this library.

pub mod dispatch;
pub mod errors;
pub mod events;
pub mod generator;
pub mod namespaces;
pub mod history;
pub mod invocation;
pub mod metrics;
pub mod rag;
pub mod reply;
pub mod state;
pub mod storage;
pub mod task;
