use crate::handler::{
    create_handler, typed_outcome, Envelope, HandleResult, Handler, Message, MessageHandlerFn,
    Package, Unpacackage,
};
use crate::laws::mailbox::{run_frame, run_keeps_wf};
use crate::network::{Connection, Generateable, Network};
use std::collections::HashMap;
use std::collections::VecDeque;
use vstd::prelude::*;
use vstd::std_specs::hash::*;

verus! {

broadcast use vstd::std_specs::hash::group_hash_axioms;

/// Identifies one agent for as long as the process lives.
#[derive(Clone, Copy, Debug, PartialEq, Eq, Hash, Structural)]
pub struct AgentId {
    pub value: u64,
}

impl AgentId {
    /// The identifier with this number.
    pub fn new(value: u64) -> (id: Self)
        ensures
            id.value == value,
    {
        AgentId { value }
    }

    /// The number behind the identifier.
    pub fn value(&self) -> (value: u64)
        ensures
            value == self.value,
    {
        self.value
    }
}

/// Where an agent stands in its lifecycle.
#[derive(Clone, Copy, Debug, PartialEq, Eq, Structural)]
pub enum State {
    Stopped,
    Running,
    Paused,
}

/// The lifecycle state of an agent, under the name the runtime uses.
pub type AgentState = State;

/// What the owner of an agent's task can ask of it.
#[derive(Clone, Copy, Debug, PartialEq, Eq, Structural)]
pub enum ControlSignal {
    Start,
    Stop,
    GetState,
}

/// The callbacks an agent's state receives on lifecycle transitions.
///
/// Each callback is described by a spec function of the state before the call,
/// so that what a transition does to an agent can be stated exactly.
pub trait LifeCycle: Sized {
    /// What `on_start` returns. On a network it is sent out.
    type StartMessage: Message;

    /// What `on_stop` returns. On a network it is sent out.
    type StopMessage: Message;

    /// The state after `on_start`, and the message it returns.
    open spec fn started(self) -> (Self, Self::StartMessage) {
        arbitrary()
    }

    /// The state after `on_pause`.
    open spec fn paused(self) -> Self {
        arbitrary()
    }

    /// The state after `on_resume`.
    open spec fn resumed(self) -> Self {
        arbitrary()
    }

    /// The state after `on_stop`, and the message it returns.
    open spec fn stopped(self) -> (Self, Self::StopMessage) {
        arbitrary()
    }

    /// Runs when the agent goes from stopped to running.
    fn on_start(&mut self) -> (message: Self::StartMessage)
        ensures
            (*final(self), message) == old(self).started(),
    ;

    /// Runs when the agent goes from running to paused.
    fn on_pause(&mut self)
        ensures
            *final(self) == old(self).paused(),
    ;

    /// Runs when the agent goes from paused to running.
    fn on_resume(&mut self)
        ensures
            *final(self) == old(self).resumed(),
    ;

    /// Runs when the agent goes from running or paused to stopped.
    fn on_stop(&mut self) -> (message: Self::StopMessage)
        ensures
            (*final(self), message) == old(self).stopped(),
    ;
}

/// What a handler invocation produced, with any reply already packaged.
pub type HandlerOutcome<N> = HandleResult<Envelope<N>>;

/// The mathematical value of an agent.
#[verifier::reject_recursive_types(L)]
#[verifier::reject_recursive_types(N)]
pub ghost struct AgentModel<L, N: Network> {
    pub address: N::Address,
    /// The endpoint that the agent holds on its network.
    pub network: N,
    pub name: Option<Seq<char>>,
    pub state: State,
    pub inner: L,
    pub mailbox: Seq<Envelope<N>>,
    pub handlers: Map<u64, MessageHandlerFn<L, N>>,
}

impl<L: LifeCycle, N: Network> AgentModel<L, N> {
    /// The identifier of the agent: the one its address stands for.
    pub open spec fn id(self) -> AgentId {
        self.address.id_spec()
    }

    /// A stopped agent holds no mail.
    pub open spec fn wf(self) -> bool {
        self.state == State::Stopped ==> self.mailbox.len() == 0
    }

    /// Whether the agent has a handler for messages with this type tag.
    pub open spec fn accepts(self, type_id: u64) -> bool {
        self.handlers.contains_key(type_id)
    }

    /// Whether the agent is running.
    pub open spec fn is_active(self) -> bool {
        self.state == State::Running
    }

    /// Whether a step has work to do on this agent.
    pub open spec fn needs_drain(self) -> bool {
        self.state == State::Running && self.mailbox.len() > 0
    }

    /// A stopped agent runs, after its `on_start`. Any other agent stays as it is.
    pub open spec fn start(self) -> Self {
        if self.state == State::Stopped {
            AgentModel { state: State::Running, inner: self.inner.started().0, ..self }
        } else {
            self
        }
    }

    /// A running agent pauses, after its `on_pause`. Any other agent stays as it is.
    pub open spec fn pause(self) -> Self {
        if self.state == State::Running {
            AgentModel { state: State::Paused, inner: self.inner.paused(), ..self }
        } else {
            self
        }
    }

    /// An agent that is not stopped stops, after its `on_stop`, and loses its
    /// mail. A stopped agent stays as it is.
    pub open spec fn stop(self) -> Self {
        if self.state == State::Stopped {
            self
        } else {
            AgentModel {
                state: State::Stopped,
                inner: self.inner.stopped().0,
                mailbox: Seq::empty(),
                ..self
            }
        }
    }

    /// The envelope joins the mailbox at the back, unless the agent is stopped:
    /// a stopped agent drops it.
    pub open spec fn enqueue(self, envelope: Envelope<N>) -> Self {
        if self.state == State::Stopped {
            self
        } else {
            AgentModel { mailbox: self.mailbox.push(envelope), ..self }
        }
    }

    /// The oldest envelope leaves the mailbox. If the agent has a handler for
    /// its type, the handler runs on it; otherwise the envelope is discarded.
    pub open spec fn deliver(self) -> (Self, Option<HandlerOutcome<N>>)
        recommends
            self.mailbox.len() > 0,
    {
        let envelope = self.mailbox.first();
        let rest = AgentModel { mailbox: self.mailbox.drop_first(), ..self };
        if self.accepts(envelope.type_id) {
            let (inner, outcome) = self.handlers[envelope.type_id].outcome(
                self.inner,
                *envelope.payload,
            );
            (AgentModel { inner, ..rest }, Some(outcome))
        } else {
            (rest, None)
        }
    }

    /// Delivers envelopes oldest first until the mailbox is empty or a handler
    /// asks to stop. The outcomes come in the order the handlers ran.
    pub open spec fn run(self) -> (Self, Seq<HandlerOutcome<N>>)
        decreases self.mailbox.len(),
    {
        if self.mailbox.len() == 0 {
            (self, Seq::empty())
        } else {
            let (next, outcome) = self.deliver();
            match outcome {
                Some(HandleResult::Stop) => (next, seq![HandleResult::Stop]),
                Some(o) => {
                    let (last, rest) = next.run();
                    (last, seq![o] + rest)
                },
                None => next.run(),
            }
        }
    }

    /// Only a running agent drains.
    pub open spec fn drain(self) -> (Self, Seq<HandlerOutcome<N>>) {
        if self.state == State::Running {
            self.run()
        } else {
            (self, Seq::empty())
        }
    }

    /// A paused agent runs again and works off what arrived while it was paused.
    pub open spec fn resume(self) -> (Self, Seq<HandlerOutcome<N>>) {
        if self.state == State::Paused {
            AgentModel { state: State::Running, inner: self.inner.resumed(), ..self }.run()
        } else {
            (self, Seq::empty())
        }
    }

    /// The agent under another name, or under none.
    pub open spec fn with_name(self, name: Option<Seq<char>>) -> Self {
        AgentModel { name, ..self }
    }

    /// The agent with another user state.
    pub open spec fn with_inner(self, inner: L) -> Self {
        AgentModel { inner, ..self }
    }
}

/// Whether a drain ended because a handler asked its agent to stop.
pub open spec fn ends_with_stop<N: Network>(outcomes: Seq<HandlerOutcome<N>>) -> bool {
    outcomes.len() > 0 && outcomes.last() is Stop
}

/// One agent's part in the drain pass of a step: a running agent with mail
/// drains, and stops if a handler asked for it.
pub open spec fn settle<L: LifeCycle, N: Network>(agent: AgentModel<L, N>) -> (
    AgentModel<L, N>,
    Seq<HandlerOutcome<N>>,
) {
    let (drained, outcomes) = agent.drain();
    if ends_with_stop(outcomes) {
        (drained.stop(), outcomes)
    } else {
        (drained, outcomes)
    }
}

/// What reaches the task that drives one agent on a network.
pub enum Incoming<N: Network> {
    /// The owner of the task asks for something.
    Signal(ControlSignal),
    /// The owner of the task has gone away.
    Closed,
    /// An envelope has arrived from the network.
    Envelope(Envelope<N>),
}

/// What the task has to do after the agent has seen an `Incoming`.
pub struct Reaction<N: Network> {
    /// The state to report to the owner of the task, if it asked for one.
    pub report: Option<State>,
    /// The envelopes to send on the network, in this order.
    pub emit: Vec<Envelope<N>>,
    /// Whether the task ends.
    pub finished: bool,
}

/// The mathematical value of a `Reaction`.
pub ghost struct ReactionModel<N: Network> {
    pub report: Option<State>,
    pub emit: Seq<Envelope<N>>,
    pub finished: bool,
}

impl<N: Network> View for Reaction<N> {
    type V = ReactionModel<N>;

    open spec fn view(&self) -> ReactionModel<N> {
        ReactionModel { report: self.report, emit: self.emit@, finished: self.finished }
    }
}

/// The replies among `outcomes`, in order.
pub open spec fn replies<N: Network>(outcomes: Seq<HandlerOutcome<N>>) -> Seq<Envelope<N>>
    decreases outcomes.len(),
{
    if outcomes.len() == 0 {
        Seq::empty()
    } else {
        match outcomes.last() {
            HandleResult::Message(envelope) => replies(outcomes.drop_last()).push(envelope),
            _ => replies(outcomes.drop_last()),
        }
    }
}

impl<L: LifeCycle, N: Network> AgentModel<L, N> {
    /// What an agent on a network does with what reaches its task.
    ///
    /// A start or stop signal performs the transition; where the transition is
    /// taken, the message of the callback goes out on the network. After a
    /// stop signal, and when the owner has gone away, the task ends. An
    /// envelope is put into the mailbox and the mailbox is drained; the
    /// replies go out on the network. If a handler asks to stop, the agent
    /// stops, its stop message goes out last, and the task ends.
    pub open spec fn react(self, incoming: Incoming<N>) -> (Self, ReactionModel<N>) where
        N::Payload: Package<L::StartMessage> + Package<L::StopMessage>,
     {
        match incoming {
            Incoming::Signal(ControlSignal::Start) => (
                self.start(),
                ReactionModel {
                    report: Some(self.start().state),
                    emit: if self.state == State::Stopped {
                        seq![Envelope::<N>::packaged(self.inner.started().1)]
                    } else {
                        Seq::empty()
                    },
                    finished: false,
                },
            ),
            Incoming::Signal(ControlSignal::Stop) => (
                self.stop(),
                ReactionModel {
                    report: Some(State::Stopped),
                    emit: if self.state == State::Stopped {
                        Seq::empty()
                    } else {
                        seq![Envelope::<N>::packaged(self.inner.stopped().1)]
                    },
                    finished: true,
                },
            ),
            Incoming::Signal(ControlSignal::GetState) => (
                self,
                ReactionModel { report: Some(self.state), emit: Seq::empty(), finished: false },
            ),
            Incoming::Closed => (
                self,
                ReactionModel { report: None, emit: Seq::empty(), finished: true },
            ),
            Incoming::Envelope(envelope) => {
                let (drained, outcomes) = self.enqueue(envelope).drain();
                if ends_with_stop(outcomes) {
                    (
                        drained.stop(),
                        ReactionModel {
                            report: None,
                            emit: replies(outcomes).push(
                                Envelope::<N>::packaged(drained.inner.stopped().1),
                            ),
                            finished: true,
                        },
                    )
                } else {
                    (
                        drained,
                        ReactionModel { report: None, emit: replies(outcomes), finished: false },
                    )
                }
            },
        }
    }
}

/// A unit of user state with a lifecycle, a handler table and a mailbox, at
/// an address on a network.
#[verifier::reject_recursive_types(L)]
#[verifier::reject_recursive_types(N)]
pub struct Agent<L: LifeCycle, N: Network> {
    name: Option<String>,
    state: State,
    inner: L,
    connection: Connection<N>,
    handlers: HashMap<u64, MessageHandlerFn<L, N>>,
    mailbox: VecDeque<Envelope<N>>,
}

impl<L: LifeCycle, N: Network> View for Agent<L, N> {
    type V = AgentModel<L, N>;

    closed spec fn view(&self) -> AgentModel<L, N> {
        AgentModel {
            address: self.connection.address,
            network: self.connection.network,
            name: match self.name {
                Some(n) => Some(n@),
                None => None,
            },
            state: self.state,
            inner: self.inner,
            mailbox: self.mailbox@,
            handlers: self.handlers@,
        }
    }
}

impl<L: LifeCycle, N: Network> Agent<L, N> {
    /// A stopped agent with no handlers and no mail, on a network of its own.
    pub fn new(agent_inner: L) -> (agent: Self)
        ensures
            agent@.name == None::<Seq<char>>,
            agent@.state == State::Stopped,
            agent@.inner == agent_inner,
            agent@.mailbox == Seq::<Envelope<N>>::empty(),
            agent@.handlers == Map::<u64, MessageHandlerFn<L, N>>::empty(),
            agent@.wf(),
    {
        let address = N::Address::generate();
        Agent {
            name: None,
            state: State::Stopped,
            inner: agent_inner,
            connection: Connection::<N>::new(address),
            handlers: HashMap::new(),
            mailbox: VecDeque::new(),
        }
    }

    /// A stopped agent with no handlers and no mail, on an endpoint of `network`.
    pub fn new_join_network(agent_inner: L, network: &N) -> (agent: Self)
        ensures
            agent@.name == None::<Seq<char>>,
            agent@.state == State::Stopped,
            agent@.inner == agent_inner,
            agent@.mailbox == Seq::<Envelope<N>>::empty(),
            agent@.handlers == Map::<u64, MessageHandlerFn<L, N>>::empty(),
            agent@.wf(),
    {
        Agent {
            name: None,
            state: State::Stopped,
            inner: agent_inner,
            connection: Connection { address: N::Address::generate(), network: network.join() },
            handlers: HashMap::new(),
            mailbox: VecDeque::new(),
        }
    }

    /// Gives the agent a name.
    pub fn set_name(&mut self, name: &str)
        ensures
            final(self)@ == old(self)@.with_name(Some(name@)),
            old(self)@.wf() ==> final(self)@.wf(),
    {
        self.name = Some(name.to_owned());
    }

    /// Takes the name from the agent.
    pub fn clear_name(&mut self)
        ensures
            final(self)@ == old(self)@.with_name(None),
            old(self)@.wf() ==> final(self)@.wf(),
    {
        self.name = None;
    }

    /// Registers the handler of `L` for messages of type `M`. A handler that
    /// was registered for the same type before is replaced.
    pub fn with_handler<M>(self) -> (agent: Self) where
        M: Message + Send + Sync + 'static,
        L: Handler<M> + 'static,
        N: 'static,
        N::Payload: Unpacackage<M> + Package<L::Reply>,

        ensures
            agent@.handlers.dom() == self@.handlers.dom().insert(M::tag()),
            forall|type_id: u64|
                type_id != M::tag() && self@.handlers.contains_key(type_id)
                    ==> #[trigger] agent@.handlers[type_id] == self@.handlers[type_id],
            forall|inner: L, payload: N::Payload|
                (#[trigger] agent@.handlers[M::tag()].outcome(inner, payload)) == typed_outcome::<
                    M,
                    L,
                    N,
                >(inner, payload),
            agent@.address == self@.address,
            agent@.network == self@.network,
            agent@.name == self@.name,
            agent@.state == self@.state,
            agent@.inner == self@.inner,
            agent@.mailbox == self@.mailbox,
            self@.wf() ==> agent@.wf(),
    {
        let mut agent = self;
        let handler = create_handler::<M, L, N>();
        agent.handlers.insert(M::type_tag(), handler);
        agent
    }

    /// The address of the agent on its network.
    pub fn address(&self) -> (address: N::Address)
        ensures
            address == self@.address,
    {
        self.connection.address
    }

    /// The identifier of the agent.
    pub fn id(&self) -> (id: AgentId)
        ensures
            id == self@.id(),
    {
        self.connection.address.id()
    }

    /// The name of the agent, if it has one.
    pub fn name(&self) -> (name: Option<&str>)
        ensures
            match name {
                Some(n) => self@.name == Some(n@),
                None => self@.name.is_none(),
            },
    {
        match &self.name {
            Some(n) => Some(n.as_str()),
            None => None,
        }
    }

    /// The endpoint this agent holds.
    pub open spec fn endpoint(&self) -> N {
        self@.network
    }

    /// The endpoint this agent holds, to send on.
    pub fn network(&self) -> (network: &N)
        ensures
            *network == self.endpoint(),
    {
        &self.connection.network
    }

    /// The endpoint this agent holds, to receive on.
    pub fn network_mut(&mut self) -> (network: &mut N)
        ensures
            *network == old(self)@.network,
            final(self)@ == (AgentModel { network: *final(network), ..old(self)@ }),
    {
        &mut self.connection.network
    }

    /// The user state.
    pub fn inner(&self) -> (inner: &L)
        ensures
            *inner == self@.inner,
    {
        &self.inner
    }

    /// The user state, to change it.
    pub fn inner_mut(&mut self) -> (inner: &mut L)
        ensures
            *inner == old(self)@.inner,
            final(self)@ == old(self)@.with_inner(*final(inner)),
            old(self)@.wf() ==> final(self)@.wf(),
    {
        &mut self.inner
    }

    /// Where the agent stands in its lifecycle.
    pub fn state(&self) -> (state: State)
        ensures
            state == self@.state,
    {
        self.state
    }

    /// Whether the agent is running.
    pub fn is_active(&self) -> (active: bool)
        ensures
            active == self@.is_active(),
    {
        self.state == State::Running
    }

    /// Whether this agent has a handler for messages of the given type.
    pub fn accepts(&self, type_id: u64) -> (accepted: bool)
        ensures
            accepted == self@.accepts(type_id),
    {
        self.handlers.contains_key(&type_id)
    }

    /// How many envelopes wait in the mailbox.
    pub fn pending(&self) -> (count: usize)
        ensures
            count == self@.mailbox.len(),
    {
        self.mailbox.len()
    }

    /// Starts the agent if it is stopped. Where the transition is taken,
    /// `on_start` runs and its message is handed back.
    pub fn start(&mut self) -> (message: Option<L::StartMessage>)
        ensures
            final(self)@ == old(self)@.start(),
            old(self)@.wf() ==> final(self)@.wf(),
            message == if old(self)@.state == State::Stopped {
                Some(old(self)@.inner.started().1)
            } else {
                None
            },
    {
        if self.state == State::Stopped {
            let message = self.inner.on_start();
            self.state = State::Running;
            Some(message)
        } else {
            None
        }
    }

    /// Pauses the agent if it is running. The answer is whether the transition
    /// was taken, and so whether `on_pause` ran.
    pub fn pause(&mut self) -> (fired: bool)
        ensures
            final(self)@ == old(self)@.pause(),
            old(self)@.wf() ==> final(self)@.wf(),
            fired == (old(self)@.state == State::Running),
    {
        if self.state == State::Running {
            self.inner.on_pause();
            self.state = State::Paused;
            true
        } else {
            false
        }
    }

    /// Stops the agent unless it is stopped, and clears its mailbox. Where the
    /// transition is taken, `on_stop` runs and its message is handed back.
    pub fn stop(&mut self) -> (message: Option<L::StopMessage>)
        ensures
            final(self)@ == old(self)@.stop(),
            old(self)@.wf() ==> final(self)@.wf(),
            message == if old(self)@.state == State::Stopped {
                None
            } else {
                Some(old(self)@.inner.stopped().1)
            },
    {
        if self.state != State::Stopped {
            let message = self.inner.on_stop();
            self.state = State::Stopped;
            self.mailbox.clear();
            Some(message)
        } else {
            None
        }
    }

    /// Resumes the agent if it is paused: `on_resume` runs, and then the agent
    /// works off what arrived while it was paused. What the handlers return
    /// in that drain is handed back; nothing is done with it here.
    pub fn resume(&mut self) -> (outcomes: Vec<HandlerOutcome<N>>)
        ensures
            (final(self)@, outcomes@) == old(self)@.resume(),
            old(self)@.wf() ==> final(self)@.wf(),
    {
        proof {
            if old(self)@.wf() {
                run_keeps_wf(old(self)@);
            }
        }
        if self.state == State::Paused {
            self.inner.on_resume();
            self.state = State::Running;
            self.drain()
        } else {
            Vec::new()
        }
    }

    /// Puts the envelope into the mailbox. A stopped agent drops it silently.
    pub fn enqueue(&mut self, envelope: Envelope<N>)
        ensures
            final(self)@ == old(self)@.enqueue(envelope),
            old(self)@.wf() ==> final(self)@.wf(),
    {
        if self.state != State::Stopped {
            self.mailbox.push_back(envelope);
        }
    }

    /// Whether the agent is running and has mail.
    pub fn needs_drain(&self) -> (needed: bool)
        ensures
            needed == self@.needs_drain(),
    {
        self.state == State::Running && self.mailbox.len() > 0
    }

    /// Works off the mailbox, oldest envelope first, if the agent is running.
    /// An envelope without a handler is discarded. A handler that asks to stop
    /// ends the drain; what is behind it stays in the mailbox until the agent
    /// is stopped.
    pub fn drain(&mut self) -> (outcomes: Vec<HandlerOutcome<N>>)
        ensures
            (final(self)@, outcomes@) == old(self)@.drain(),
            old(self)@.wf() ==> final(self)@.wf(),
    {
        proof {
            if old(self)@.wf() {
                run_keeps_wf(old(self)@);
            }
        }
        let mut outcomes: Vec<HandlerOutcome<N>> = Vec::new();
        if self.state != State::Running {
            return outcomes;
        }
        loop
            invariant_except_break
                old(self)@.run() == (self@.run().0, outcomes@ + self@.run().1),
            ensures
                (self@, outcomes@) == old(self)@.run(),
            decreases self.mailbox@.len(),
        {
            let ghost before = self@;
            match self.mailbox.pop_front() {
                None => {
                    assert(outcomes@ + Seq::<HandlerOutcome<N>>::empty() == outcomes@);
                    break ;
                },
                Some(envelope) => {
                    assert(self.mailbox@ == before.mailbox.drop_first());
                    match self.handlers.get(&envelope.type_id) {
                        None => {},
                        Some(handler) => {
                            let outcome = handler.invoke(&mut self.inner, &*envelope.payload);
                            let stop = match outcome {
                                HandleResult::Stop => true,
                                _ => false,
                            };
                            let ghost prior = outcomes@;
                            outcomes.push(outcome);
                            if stop {
                                assert(prior + seq![outcome] == outcomes@);
                                break ;
                            }
                            assert(prior + (seq![outcome] + self@.run().1) == outcomes@
                                + self@.run().1);
                        },
                    }
                },
            }
        }
        outcomes
    }

    /// The envelopes of the replies among the outcomes, in order. The copies
    /// share their payloads with the envelopes in the outcomes.
    fn replies_of(outcomes: &Vec<HandlerOutcome<N>>) -> (envelopes: Vec<Envelope<N>>)
        ensures
            envelopes@ == replies(outcomes@),
    {
        let mut envelopes: Vec<Envelope<N>> = Vec::new();
        let mut k: usize = 0;
        assert(outcomes@.take(0) =~= Seq::empty());
        while k < outcomes.len()
            invariant
                k <= outcomes.len(),
                envelopes@ == replies(outcomes@.take(k as int)),
            decreases outcomes.len() - k,
        {
            proof {
                let prefix = outcomes@.take(k as int + 1);
                assert(prefix.drop_last() =~= outcomes@.take(k as int));
                assert(prefix.last() == outcomes@[k as int]);
            }
            match &outcomes[k] {
                HandleResult::Message(envelope) => {
                    envelopes.push(envelope.clone());
                },
                _ => {},
            }
            k += 1;
        }
        assert(outcomes@.take(k as int) =~= outcomes@);
        envelopes
    }

    /// One turn of the task that drives this agent on a network: the agent
    /// takes in what has arrived and says what the task has to do next.
    pub fn react(&mut self, incoming: Incoming<N>) -> (reaction: Reaction<N>) where
        N::Payload: Package<L::StartMessage> + Package<L::StopMessage>,

        ensures
            (final(self)@, reaction@) == old(self)@.react(incoming),
            old(self)@.wf() ==> final(self)@.wf(),
    {
        match incoming {
            Incoming::Signal(ControlSignal::Start) => {
                let mut emit: Vec<Envelope<N>> = Vec::new();
                match self.start() {
                    Some(message) => {
                        emit.push(Envelope::<N>::package(message));
                    },
                    None => {},
                }
                proof {
                    if old(self)@.state == State::Stopped {
                        assert(emit@ =~= seq![
                            Envelope::<N>::packaged(old(self)@.inner.started().1),
                        ]);
                    }
                }
                Reaction { report: Some(self.state), emit, finished: false }
            },
            Incoming::Signal(ControlSignal::Stop) => {
                let mut emit: Vec<Envelope<N>> = Vec::new();
                match self.stop() {
                    Some(message) => {
                        emit.push(Envelope::<N>::package(message));
                    },
                    None => {},
                }
                proof {
                    if old(self)@.state != State::Stopped {
                        assert(emit@ =~= seq![
                            Envelope::<N>::packaged(old(self)@.inner.stopped().1),
                        ]);
                    }
                }
                Reaction { report: Some(State::Stopped), emit, finished: true }
            },
            Incoming::Signal(ControlSignal::GetState) => {
                Reaction { report: Some(self.state), emit: Vec::new(), finished: false }
            },
            Incoming::Closed => { Reaction { report: None, emit: Vec::new(), finished: true } },
            Incoming::Envelope(envelope) => {
                self.enqueue(envelope);
                let outcomes = self.drain();
                let mut emit = Self::replies_of(&outcomes);
                let stop = outcomes.len() > 0 && outcomes[outcomes.len() - 1].is_stop();
                if stop {
                    match self.stop() {
                        Some(message) => {
                            emit.push(Envelope::<N>::package(message));
                        },
                        None => {},
                    }
                    proof {
                        // Only a running agent drains, so the stop was asked of an
                        // agent that was running still.
                        run_frame(old(self)@.enqueue(envelope));
                    }
                }
                Reaction { report: None, emit, finished: stop }
            },
        }
    }
}

} // verus!
