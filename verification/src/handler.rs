use crate::network::Network;
use std::marker::PhantomData;
use std::sync::Arc;
use vstd::prelude::*;

verus! {

/// A value that agents send to each other.
///
/// All the runtime asks of a message type is its type tag: a number that
/// stands for the type, by which handlers are found. Two message types that
/// meet in one runtime must not share a tag.
///
/// The spec functions of this trait and of the other traits for user code
/// have bodies so that code which is not verified need not define them. An
/// implementation that is verified defines them, since nothing is known of the
/// bodies given here.
pub trait Message: Sized {
    /// The type tag of this message type.
    open spec fn tag() -> u64 {
        arbitrary()
    }

    /// The type tag of this message type.
    fn type_tag() -> (tag: u64)
        ensures
            tag == Self::tag(),
    ;
}

/// The unit value is the message of handlers and callbacks that have nothing
/// to say. Its type tag is 0.
impl Message for () {
    open spec fn tag() -> u64 {
        0
    }

    fn type_tag() -> (tag: u64) {
        0
    }
}

/// What an envelope carries: a message in the form the transport moves.
pub trait Payload: Sized {

}

impl Payload for Vec<u8> {

}

/// A payload that can be made from a message of type `M`.
pub trait Package<M>: Sized {
    /// The payload that carries `message`.
    open spec fn packaged(message: M) -> Self {
        arbitrary()
    }

    /// Makes the payload that carries `message`.
    fn package(message: M) -> (payload: Self)
        ensures
            payload == Self::packaged(message),
    ;
}

/// A payload from which a message of type `M` can be taken again.
pub trait Unpacackage<M> {
    /// The message that the payload carries, if it carries one of type `M`.
    open spec fn unpackaged(&self) -> Option<M> {
        arbitrary()
    }

    /// Takes the message out of the payload, if it carries one of type `M`.
    fn unpackage(&self) -> (message: Option<M>)
        ensures
            message == self.unpackaged(),
    ;
}

/// What a handler returns: a reply, nothing, or the request to stop its agent.
pub enum HandleResult<M> {
    Message(M),
    NoReply,
    Stop,
}

impl<M> HandleResult<M> {
    /// Whether this is the request to stop.
    pub fn is_stop(&self) -> (stop: bool)
        ensures
            stop == (*self is Stop),
    {
        match self {
            HandleResult::Stop => true,
            _ => false,
        }
    }
}

impl<M> From<M> for HandleResult<M> {
    /// A bare reply is a reply.
    fn from(message: M) -> (result: Self) {
        HandleResult::Message(message)
    }
}

impl<M> vstd::std_specs::convert::FromSpecImpl<M> for HandleResult<M> {
    open spec fn obeys_from_spec() -> bool {
        true
    }

    open spec fn from_spec(message: M) -> Self {
        HandleResult::Message(message)
    }
}

impl<M> From<Option<M>> for HandleResult<M> {
    /// An optional reply is a reply where there is one, and nothing otherwise.
    fn from(message: Option<M>) -> (result: Self) {
        match message {
            Option::Some(m) => HandleResult::Message(m),
            Option::None => HandleResult::NoReply,
        }
    }
}

impl<M> vstd::std_specs::convert::FromSpecImpl<Option<M>> for HandleResult<M> {
    open spec fn obeys_from_spec() -> bool {
        true
    }

    open spec fn from_spec(message: Option<M>) -> Self {
        match message {
            Option::Some(m) => HandleResult::Message(m),
            Option::None => HandleResult::NoReply,
        }
    }
}

/// `Arc::clone`: a second handle on the same allocation. The new handle holds
/// the value that the old one holds.
#[verifier::external_body]
fn share<T>(handle: &Arc<T>) -> (shared: Arc<T>)
    ensures
        shared == *handle,
{
    handle.clone()
}

/// What moves through mailboxes and networks: a payload and the type tag of
/// the message in it. The payload sits behind a shared pointer, so that a copy
/// of the envelope costs no copy of the message.
pub struct Envelope<N: Network> {
    pub payload: Arc<N::Payload>,
    pub type_id: u64,
}

impl<N: Network> Clone for Envelope<N> {
    /// The copy shares the payload with this envelope.
    fn clone(&self) -> (copy: Self)
        ensures
            copy == *self,
    {
        Envelope { payload: share(&self.payload), type_id: self.type_id }
    }
}

impl<N: Network> Envelope<N> {
    /// The envelope that carries `message`.
    pub open spec fn packaged<M: Message>(message: M) -> Self where N::Payload: Package<M> {
        Envelope { payload: Arc::new(N::Payload::packaged(message)), type_id: M::tag() }
    }

    /// Wraps the message for the network and stamps it with its type tag.
    pub fn package<M: Message>(message: M) -> (envelope: Self) where N::Payload: Package<M>
        ensures
            envelope == Self::packaged(message),
    {
        Envelope { payload: Arc::new(N::Payload::package(message)), type_id: M::type_tag() }
    }

    /// The message of type `M` that the envelope carries: none where the type
    /// tag is not that of `M`, and none where the payload does not unpack.
    pub open spec fn unpackaged<M: Message>(&self) -> Option<M> where N::Payload: Unpacackage<M> {
        if self.type_id == M::tag() {
            self.payload.unpackaged()
        } else {
            Option::None
        }
    }

    /// Takes the message out of the envelope, if it carries one of type `M`.
    pub fn unpackage<M: Message>(&self) -> (message: Option<M>) where N::Payload: Unpacackage<M>
        ensures
            message == self.unpackaged::<M>(),
    {
        if self.type_id == M::type_tag() {
            self.payload.unpackage()
        } else {
            Option::None
        }
    }
}

/// What the state of an agent does with a message of type `M`.
pub trait Handler<M>: Sized {
    /// What the handler replies with, when it replies.
    type Reply: Message;

    /// The state after the message, and what the handler returns.
    open spec fn handled(self, message: M) -> (Self, HandleResult<Self::Reply>) {
        arbitrary()
    }

    /// Handles one message.
    fn handle(&mut self, message: &M) -> (result: HandleResult<Self::Reply>)
        ensures
            (*final(self), result) == old(self).handled(*message),
    ;
}

/// A handler with the message type forgotten: it takes a payload, whatever
/// message is in it, and returns any reply as an envelope.
pub trait Invoker<L, N: Network>: Send + Sync {
    /// The state after the payload, and the outcome.
    spec fn outcome(&self, agent: L, payload: N::Payload) -> (L, HandleResult<Envelope<N>>);

    /// Runs the handler on the payload.
    fn invoke(&self, agent: &mut L, payload: &N::Payload) -> (result: HandleResult<Envelope<N>>)
        ensures
            (*final(agent), result) == self.outcome(*old(agent), *payload),
    ;
}

/// The invoker for the handler of messages of type `M`.
pub struct TypedHandler<M> {
    marker: PhantomData<M>,
}

/// What the handler of `L` for messages of type `M` makes of a payload.
///
/// A payload that does not unpack to an `M` is dropped: the state stays as it
/// is and there is no reply. Otherwise the handler runs on the message, and a
/// reply is packaged.
pub open spec fn typed_outcome<M, L, N>(agent: L, payload: N::Payload) -> (
    L,
    HandleResult<Envelope<N>>,
) where L: Handler<M>, M: Message, N: Network, N::Payload: Unpacackage<M> + Package<L::Reply> {
    match payload.unpackaged() {
        Option::None => (agent, HandleResult::NoReply),
        Option::Some(message) => {
            let (next, reply) = agent.handled(message);
            (
                next,
                match reply {
                    HandleResult::Message(r) => HandleResult::Message(Envelope::<N>::packaged(r)),
                    HandleResult::NoReply => HandleResult::NoReply,
                    HandleResult::Stop => HandleResult::Stop,
                },
            )
        },
    }
}

impl<M, L, N> Invoker<L, N> for TypedHandler<M> where
    L: Handler<M>,
    M: Message + Send + Sync,
    N: Network,
    N::Payload: Unpacackage<M> + Package<L::Reply>,
 {
    open spec fn outcome(&self, agent: L, payload: N::Payload) -> (L, HandleResult<Envelope<N>>) {
        typed_outcome::<M, L, N>(agent, payload)
    }

    fn invoke(&self, agent: &mut L, payload: &N::Payload) -> (result: HandleResult<Envelope<N>>) {
        match payload.unpackage() {
            Option::None => HandleResult::NoReply,
            Option::Some(message) => {
                match agent.handle(&message) {
                    HandleResult::Message(r) => HandleResult::Message(Envelope::package(r)),
                    HandleResult::NoReply => HandleResult::NoReply,
                    HandleResult::Stop => HandleResult::Stop,
                }
            },
        }
    }
}

/// An entry of an agent's handler table.
#[verifier::reject_recursive_types(L)]
#[verifier::reject_recursive_types(N)]
pub struct MessageHandlerFn<L, N: Network> {
    invoker: Box<dyn Invoker<L, N>>,
}

impl<L, N: Network> MessageHandlerFn<L, N> {
    /// The state after the payload, and the outcome.
    pub closed spec fn outcome(&self, agent: L, payload: N::Payload) -> (
        L,
        HandleResult<Envelope<N>>,
    ) {
        self.invoker.outcome(agent, payload)
    }

    /// Runs the handler on the payload.
    pub fn invoke(&self, agent: &mut L, payload: &N::Payload) -> (result: HandleResult<Envelope<N>>)
        ensures
            (*final(agent), result) == self.outcome(*old(agent), *payload),
    {
        self.invoker.invoke(agent, payload)
    }
}

/// The table entry for the handler of `L` for messages of type `M`.
pub fn create_handler<M, L, N>() -> (handler: MessageHandlerFn<L, N>) where
    L: Handler<M> + 'static,
    M: Message + Send + Sync + 'static,
    N: Network + 'static,
    N::Payload: Unpacackage<M> + Package<L::Reply>,

    ensures
        forall|agent: L, payload: N::Payload|
            (#[trigger] handler.outcome(agent, payload)) == typed_outcome::<M, L, N>(
                agent,
                payload,
            ),
{
    MessageHandlerFn { invoker: Box::new(TypedHandler::<M> { marker: PhantomData }) }
}

} // verus!
