use arbiter_core::agent::{
    Agent, AgentId, ControlSignal, Incoming, LifeCycle, Reaction, State,
};
use arbiter_core::handler::{
    create_handler, Envelope, HandleResult, Handler, Message, Package, Payload, Unpacackage,
};
use arbiter_core::network::{Connection, Generateable, Network};
use std::collections::VecDeque;
use std::any::Any;
use std::sync::atomic::{AtomicU64, Ordering};
use std::sync::Arc;

static NEXT_ADDRESS: AtomicU64 = AtomicU64::new(1);

#[derive(Clone, Copy, Debug, PartialEq, Eq)]
struct Address(u64);

impl Generateable for Address {
    fn generate() -> Self {
        Address(NEXT_ADDRESS.fetch_add(1, Ordering::Relaxed))
    }

    fn id(&self) -> AgentId {
        AgentId::new(self.0)
    }
}

/// A payload that carries any message behind a shared pointer.
#[derive(Clone)]
struct Parcel(Arc<dyn Any + Send + Sync>);

impl Payload for Parcel {}

impl<M: Message + Any + Send + Sync> Package<M> for Parcel {
    fn package(message: M) -> Self {
        Parcel(Arc::new(message))
    }
}

impl<M: Message + Any + Clone> Unpacackage<M> for Parcel {
    fn unpackage(&self) -> Option<M> {
        self.0.downcast_ref::<M>().cloned()
    }
}

struct Local;

impl Network for Local {
    type Address = Address;
    type Payload = Parcel;

    fn new() -> Self {
        Local
    }

    fn join(&self) -> Self {
        Local
    }
}

#[derive(Debug, Clone)]
struct NumberMessage {
    value: i32,
}

#[derive(Debug, Clone)]
struct TextMessage {
    content: String,
}

#[derive(Debug, Clone)]
struct PingMessage;

#[derive(Debug, Clone)]
struct PongMessage;

#[derive(Debug, Clone)]
struct StopMessage;

impl Message for NumberMessage {
    fn type_tag() -> u64 {
        1
    }
}

impl Message for TextMessage {
    fn type_tag() -> u64 {
        2
    }
}

impl Message for PingMessage {
    fn type_tag() -> u64 {
        3
    }
}

impl Message for PongMessage {
    fn type_tag() -> u64 {
        4
    }
}

impl Message for StopMessage {
    fn type_tag() -> u64 {
        5
    }
}

struct Logger {
    name: String,
    message_count: i32,
}

impl LifeCycle for Logger {
    type StartMessage = ();
    type StopMessage = ();

    fn on_start(&mut self) {}

    fn on_pause(&mut self) {}

    fn on_resume(&mut self) {}

    fn on_stop(&mut self) {}
}

impl Handler<TextMessage> for Logger {
    type Reply = ();

    fn handle(&mut self, message: &TextMessage) -> HandleResult<()> {
        self.message_count += 1;
        println!(
            "LogAgent '{}' received: '{}' (count: {})",
            self.name, message.content, self.message_count
        );
        HandleResult::Message(())
    }
}

impl Handler<NumberMessage> for Logger {
    type Reply = ();

    fn handle(&mut self, message: &NumberMessage) -> HandleResult<()> {
        self.message_count += 1;
        println!(
            "LoggerAgent '{}' received: '{}' (count: {})",
            self.name, message.value, self.message_count
        );
        HandleResult::Message(())
    }
}

struct Ping {
    max_count: usize,
    count: usize,
}

impl LifeCycle for Ping {
    type StartMessage = PingMessage;
    type StopMessage = StopMessage;

    fn on_start(&mut self) -> PingMessage {
        println!("Ping on_start");
        PingMessage
    }

    fn on_pause(&mut self) {}

    fn on_resume(&mut self) {}

    fn on_stop(&mut self) -> StopMessage {
        StopMessage
    }
}

impl Handler<PongMessage> for Ping {
    type Reply = PingMessage;

    fn handle(&mut self, _message: &PongMessage) -> HandleResult<PingMessage> {
        println!("Ping received PongMessage, count: {}", self.count);
        if self.count == self.max_count {
            HandleResult::Stop
        } else {
            self.count += 1;
            HandleResult::Message(PingMessage)
        }
    }
}

struct Pong;

impl LifeCycle for Pong {
    type StartMessage = ();
    type StopMessage = ();

    fn on_start(&mut self) {}

    fn on_pause(&mut self) {}

    fn on_resume(&mut self) {}

    fn on_stop(&mut self) {}
}

impl Handler<PingMessage> for Pong {
    type Reply = PongMessage;

    fn handle(&mut self, _message: &PingMessage) -> HandleResult<PongMessage> {
        println!("Pong received PingMessage");
        HandleResult::Message(PongMessage)
    }
}

fn logger() -> Agent<Logger, Local> {
    Agent::new(Logger { name: "TestLogger".to_string(), message_count: 0 })
}

fn signal(agent: &mut Agent<Logger, Local>, signal: ControlSignal) -> Reaction<Local> {
    agent.react(Incoming::Signal(signal))
}

#[test]
fn agent_test_agent_lifecycle() {
    let mut agent = logger();
    assert_eq!(agent.state(), State::Stopped);

    let started = signal(&mut agent, ControlSignal::Start);
    assert_eq!(started.report, Some(State::Running));
    assert!(!started.finished);
    assert_eq!(signal(&mut agent, ControlSignal::GetState).report, Some(State::Running));

    let stopped = signal(&mut agent, ControlSignal::Stop);
    assert_eq!(stopped.report, Some(State::Stopped));
    assert!(stopped.finished);
    assert_eq!(agent.state(), State::Stopped);
}

#[test]
fn test_single_agent_handler() {
    let mut agent = logger().with_handler::<TextMessage>();

    signal(&mut agent, ControlSignal::Start);
    assert_eq!(signal(&mut agent, ControlSignal::GetState).report, Some(State::Running));

    // Send a message to the agent
    let reaction = agent
        .react(Incoming::Envelope(Envelope::package(TextMessage { content: "Hello".to_string() })));
    assert!(!reaction.finished);
    assert_eq!(reaction.report, None);
    // The handler's unit reply goes out on the network.
    assert_eq!(reaction.emit.len(), 1);
    assert_eq!(reaction.emit[0].type_id, 0);

    signal(&mut agent, ControlSignal::Stop);
    assert_eq!(agent.state(), State::Stopped);
    assert_eq!(agent.inner().message_count, 1);
}

#[test]
fn test_multiple_agent_handlers() {
    let mut agent = logger();
    agent = agent.with_handler::<TextMessage>().with_handler::<NumberMessage>();

    assert_eq!(agent.state(), State::Stopped);

    signal(&mut agent, ControlSignal::Start);
    agent.react(Incoming::Envelope(Envelope::package(TextMessage { content: "Hello".to_string() })));
    agent.react(Incoming::Envelope(Envelope::package(NumberMessage { value: 3 })));

    signal(&mut agent, ControlSignal::Stop);
    assert_eq!(agent.state(), State::Stopped);
    assert_eq!(agent.inner().message_count, 2);
}

#[test]
fn test_multi_agent() {
    let network = Local::new();

    let mut ping = Agent::<Ping, Local>::new_join_network(Ping { max_count: 10, count: 0 }, &network)
        .with_handler::<PongMessage>();
    ping.set_name("ping");

    let mut pong = Agent::<Pong, Local>::new_join_network(Pong, &network).with_handler::<PingMessage>();
    pong.set_name("pong");
    pong.address();

    // A bus that hands every envelope to every endpoint, the sender's too.
    let mut bus: VecDeque<Envelope<Local>> = VecDeque::new();
    bus.extend(ping.react(Incoming::Signal(ControlSignal::Start)).emit);
    bus.extend(pong.react(Incoming::Signal(ControlSignal::Start)).emit);

    let mut rounds = 0;
    let mut ping_done = false;
    while let Some(envelope) = bus.pop_front() {
        rounds += 1;
        assert!(rounds < 1000, "the exchange does not end");
        if !ping_done {
            let reaction = ping.react(Incoming::Envelope(envelope.clone()));
            ping_done = reaction.finished;
            bus.extend(reaction.emit);
        }
        bus.extend(pong.react(Incoming::Envelope(envelope)).emit);
    }

    assert!(ping_done);
    assert_eq!(ping.state(), State::Stopped);
    assert_eq!(ping.inner().count, 10);
}

#[test]
fn a_new_agent_is_stopped_and_empty() {
    let agent = logger();
    assert_eq!(agent.state(), State::Stopped);
    assert!(!agent.is_active());
    assert!(!agent.needs_drain());
    assert_eq!(agent.pending(), 0);
    assert_eq!(agent.name(), None);
    assert!(!agent.accepts(1));
    assert!(!agent.accepts(2));
    assert_eq!(agent.id(), agent.address().id());
    assert_eq!(agent.inner().message_count, 0);
}

#[test]
fn names_can_be_set_and_cleared() {
    let mut agent = logger();
    agent.set_name("first");
    assert_eq!(agent.name(), Some("first"));
    agent.set_name("second");
    assert_eq!(agent.name(), Some("second"));
    agent.clear_name();
    assert_eq!(agent.name(), None);
}

#[test]
fn handlers_decide_what_an_agent_accepts() {
    let agent = logger().with_handler::<TextMessage>();
    assert!(agent.accepts(2));
    assert!(!agent.accepts(1));
    let agent = agent.with_handler::<NumberMessage>().with_handler::<TextMessage>();
    assert!(agent.accepts(1));
    assert!(agent.accepts(2));
    assert!(!agent.accepts(0));
}

#[test]
fn the_user_state_can_be_read_and_changed() {
    let mut agent = logger();
    agent.inner_mut().message_count = 41;
    *agent.inner_mut() = Logger { name: "other".to_string(), message_count: 42 };
    assert_eq!(agent.inner().message_count, 42);
    assert_eq!(agent.inner().name, "other");
    assert_eq!(agent.state(), State::Stopped);
}

#[test]
fn agents_on_one_network_have_addresses_of_their_own() {
    let network = Local::new();
    let a = Agent::<Pong, Local>::new_join_network(Pong, &network);
    let b = Agent::<Pong, Local>::new_join_network(Pong, &network);
    assert_ne!(a.address(), b.address());
    assert_ne!(a.id(), b.id());
    let _endpoint: &Local = a.network();
    assert_eq!(b.state(), State::Stopped);
}

#[test]
fn a_connection_keeps_its_address_when_joined() {
    let address = Address::generate();
    let connection = Connection::<Local>::new(address);
    assert_eq!(connection.address, address);
    let second = connection.join();
    assert_eq!(second.address, address);
    assert_eq!(address.id(), AgentId::new(address.0));
}

#[test]
fn enqueue_follows_the_state() {
    let mut agent = logger().with_handler::<NumberMessage>();
    agent.enqueue(Envelope::package(NumberMessage { value: 1 }));
    assert_eq!(agent.pending(), 0);

    assert_eq!(agent.start(), Some(()));
    assert_eq!(agent.start(), None);
    agent.enqueue(Envelope::package(NumberMessage { value: 1 }));
    assert_eq!(agent.pending(), 1);
    assert!(agent.needs_drain());

    assert!(agent.pause());
    assert!(!agent.pause());
    agent.enqueue(Envelope::package(NumberMessage { value: 2 }));
    assert_eq!(agent.pending(), 2);
    assert!(!agent.needs_drain());
    assert!(agent.drain().is_empty());
    assert_eq!(agent.pending(), 2);

    assert_eq!(agent.stop(), Some(()));
    assert_eq!(agent.stop(), None);
    assert_eq!(agent.pending(), 0);
    assert_eq!(agent.inner().message_count, 0);
}

#[test]
fn drain_gives_one_outcome_for_each_handled_envelope() {
    let mut agent = logger().with_handler::<NumberMessage>();
    agent.start();
    agent.enqueue(Envelope::package(NumberMessage { value: 1 }));
    agent.enqueue(Envelope::package(TextMessage { content: "unheard".to_string() }));
    agent.enqueue(Envelope::package(NumberMessage { value: 2 }));
    let outcomes = agent.drain();
    assert_eq!(outcomes.len(), 2);
    for outcome in &outcomes {
        match outcome {
            HandleResult::Message(envelope) => assert_eq!(envelope.type_id, 0),
            _ => panic!("the logger always replies"),
        }
    }
    assert_eq!(agent.pending(), 0);
    assert_eq!(agent.inner().message_count, 2);
    assert!(agent.drain().is_empty());
}

#[test]
fn resume_works_off_the_backlog() {
    let mut agent = logger().with_handler::<NumberMessage>();
    agent.start();
    agent.pause();
    agent.enqueue(Envelope::package(NumberMessage { value: 1 }));
    agent.enqueue(Envelope::package(NumberMessage { value: 2 }));
    assert_eq!(agent.inner().message_count, 0);
    let outcomes = agent.resume();
    assert_eq!(outcomes.len(), 2);
    assert_eq!(agent.state(), State::Running);
    assert_eq!(agent.inner().message_count, 2);
    assert!(agent.resume().is_empty());
}

#[test]
fn a_stop_from_a_handler_ends_the_drain_at_once() {
    let mut ping = Agent::<Ping, Local>::new(Ping { max_count: 1, count: 0 })
        .with_handler::<PongMessage>();
    ping.start();
    for _ in 0..4 {
        ping.enqueue(Envelope::package(PongMessage));
    }
    let outcomes = ping.drain();
    assert_eq!(outcomes.len(), 2);
    assert!(matches!(outcomes[0], HandleResult::Message(_)));
    assert!(outcomes[1].is_stop());
    // What was behind the stop waits for the agent to be stopped.
    assert_eq!(ping.pending(), 2);
    assert_eq!(ping.state(), State::Running);
    assert_eq!(ping.stop().map(|_| ()), Some(()));
    assert_eq!(ping.pending(), 0);
}

#[test]
fn a_task_ends_when_its_owner_goes_away() {
    let mut agent = logger();
    signal(&mut agent, ControlSignal::Start);
    let reaction = agent.react(Incoming::Closed);
    assert!(reaction.finished);
    assert_eq!(reaction.report, None);
    assert!(reaction.emit.is_empty());
    assert_eq!(agent.state(), State::Running);
}

#[test]
fn lifecycle_messages_go_out_when_the_transition_is_taken() {
    let mut ping = Agent::<Ping, Local>::new(Ping { max_count: 0, count: 0 })
        .with_handler::<PongMessage>();

    let started = ping.react(Incoming::Signal(ControlSignal::Start));
    assert_eq!(started.emit.len(), 1);
    assert_eq!(started.emit[0].type_id, 3);
    assert!(started.emit[0].unpackage::<PingMessage>().is_some());
    assert!(started.emit[0].unpackage::<PongMessage>().is_none());

    // A second start is ignored: nothing goes out.
    let again = ping.react(Incoming::Signal(ControlSignal::Start));
    assert_eq!(again.report, Some(State::Running));
    assert!(again.emit.is_empty());

    // The handler asks to stop at once: the stop message goes out last.
    let reaction = ping.react(Incoming::Envelope(Envelope::package(PongMessage)));
    assert!(reaction.finished);
    assert_eq!(reaction.emit.len(), 1);
    assert_eq!(reaction.emit[0].type_id, 5);
    assert_eq!(ping.state(), State::Stopped);

    // Stopped already: the signal is answered, nothing goes out.
    let stopped = ping.react(Incoming::Signal(ControlSignal::Stop));
    assert_eq!(stopped.report, Some(State::Stopped));
    assert!(stopped.emit.is_empty());
    assert!(stopped.finished);
}

#[test]
fn an_envelope_for_a_stopped_agent_is_dropped() {
    let mut agent = logger().with_handler::<NumberMessage>();
    let reaction = agent.react(Incoming::Envelope(Envelope::package(NumberMessage { value: 1 })));
    assert!(reaction.emit.is_empty());
    assert!(!reaction.finished);
    assert_eq!(agent.pending(), 0);
    assert_eq!(agent.inner().message_count, 0);
}

#[test]
fn a_created_handler_unpacks_handles_and_packs() {
    let handler = create_handler::<PingMessage, Pong, Local>();
    let mut pong = Pong;
    let ping = Parcel::package(PingMessage);
    match handler.invoke(&mut pong, &ping) {
        HandleResult::Message(envelope) => {
            assert_eq!(envelope.type_id, 4);
            assert!(envelope.unpackage::<PongMessage>().is_some());
        }
        _ => panic!("pong answers every ping"),
    }
    // A payload of another type is a delivery fault: dropped, no reply.
    let text = Parcel::package(TextMessage { content: "?".to_string() });
    assert!(matches!(handler.invoke(&mut pong, &text), HandleResult::NoReply));
}

#[test]
fn replies_convert_into_handle_results() {
    assert!(matches!(HandleResult::from(7), HandleResult::Message(7)));
    assert!(matches!(HandleResult::from(Some(7)), HandleResult::Message(7)));
    assert!(matches!(HandleResult::<i32>::from(None), HandleResult::NoReply));
    assert!(HandleResult::<i32>::Stop.is_stop());
    assert!(!HandleResult::Message(1).is_stop());
    assert!(!HandleResult::<i32>::NoReply.is_stop());
}
