use vstd::prelude::*;

verus! {

/// Whom a message is meant for.
#[derive(Clone, Debug)]
pub enum To {
    All,
    Agent(String),
}

/// A message on the bus, with its sender and its addressee.
#[derive(Clone, Debug)]
pub struct Message {
    pub from: String,
    pub to: To,
    pub data: String,
}

/// A message as a behaviour hands it out: addressee and data.
#[derive(Clone, Debug)]
pub struct MessageTo {
    pub to: To,
    pub data: String,
}

/// A message as a behaviour receives it: sender and data.
#[derive(Clone, Debug)]
pub struct MessageFrom {
    pub from: String,
    pub data: String,
}

} // verus!
