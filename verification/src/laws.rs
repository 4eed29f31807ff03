//! What holds of agents and runtimes, proved from the models.

pub mod lifecycle;
pub mod mailbox;
pub mod registry;
pub mod scheduler;
