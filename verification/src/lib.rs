//! A small actor runtime.
//!
//! An [`agent::Agent`] is a unit of user state with a lifecycle, a table of
//! typed message handlers and a mailbox. A [`runtime::Runtime`] owns agents,
//! routes messages to them, drains their mailboxes in cooperative steps and
//! feeds the replies of the handlers back in. On a network, an agent is driven
//! by a task of its own, which asks [`agent::Agent::react`] what to do.
//!
//! Every operation is specified over a mathematical model of the agent
//! ([`agent::AgentModel`]) and of the runtime ([`runtime::model::RuntimeModel`]).
//! The module [`laws`] holds what follows from these specifications: that
//! messages are handled in the order of their arrival, that a step is bounded,
//! that stopped and paused agents are left alone, and that the name index
//! stays a one-to-one map onto registered agents.

pub mod agent;
pub mod environment;
pub mod error;
pub mod fixtures;
pub mod handler;
pub mod laws;
pub mod machine;
pub mod messager;
pub mod network;
pub mod runtime;
pub mod text;
pub mod universe;
