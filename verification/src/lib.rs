//! Incremental rebuild engine for a modular workspace: classification of
//! changed paths to module identifiers, single-hop dependency-closure
//! computation, build orchestration with partial-failure recovery, and a
//! versioned snapshot store.

pub mod classify;
pub mod ids;
pub mod manifest;
pub mod orchestrate;
pub mod resolve;
pub mod store;
