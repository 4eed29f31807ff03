use vstd::prelude::*;

verus! {

/// What can go wrong in the behaviour engine, with a description.
#[derive(Debug)]
pub enum ArbiterCoreError {
    MessagerError(String),
    AgentBuildError(String),
    WorldError(String),
    UniverseError(String),
    DatabaseError(String),
}

} // verus!
