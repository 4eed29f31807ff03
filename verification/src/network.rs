pub mod memory;

use crate::agent::AgentId;
use crate::handler::Payload;
use vstd::prelude::*;

verus! {

/// An address that a transport can mint for a new endpoint.
///
/// Every address stands for one agent identifier. What `generate` returns is up
/// to the transport; the runtime only relies on `id`.
pub trait Generateable: Sized {
    /// The identifier that this address stands for.
    open spec fn id_spec(&self) -> AgentId {
        arbitrary()
    }

    /// A new address. No two addresses of one process should stand for the
    /// same identifier.
    fn generate() -> Self;

    /// The identifier that this address stands for.
    fn id(&self) -> (id: AgentId)
        ensures
            id == self.id_spec(),
    ;
}

/// The carrier of envelopes between agents, as far as the scheduler sees it.
pub trait Network: Sized {
    /// How endpoints are told apart.
    type Address: Generateable + Copy;

    /// The form in which this network moves messages.
    type Payload: Payload;

    /// The first endpoint of a new network.
    fn new() -> Self;

    /// One more endpoint on the network of this one.
    fn join(&self) -> Self;
}

/// One endpoint on a network together with the address it is reached under.
pub struct Connection<N: Network> {
    pub address: N::Address,
    pub network: N,
}

impl<N: Network> Connection<N> {
    /// Opens a fresh network and binds `address` to it.
    pub fn new(address: N::Address) -> (connection: Self)
        ensures
            connection.address == address,
    {
        let channel = N::new();
        Connection { address, network: channel }
    }

    /// A second endpoint on the same network, under the same address.
    pub fn join(&self) -> (connection: Self)
        ensures
            connection.address == self.address,
    {
        let channel = self.network.join();
        Connection { address: self.address, network: channel }
    }
}

} // verus!
