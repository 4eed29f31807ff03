use arbiter_core::agent::{Agent, AgentId, LifeCycle, State};
use arbiter_core::handler::{
    Envelope, HandleResult, Handler, Message, Package, Payload, Unpacackage,
};
use arbiter_core::network::{Generateable, Network};
use arbiter_core::runtime::{Runtime, RuntimeError};
use std::any::Any;
use std::sync::atomic::{AtomicU64, Ordering};
use std::sync::Arc;

static NEXT_ADDRESS: AtomicU64 = AtomicU64::new(1);

#[derive(Clone, Copy, Debug, PartialEq, Eq)]
struct Address(u64);

impl Generateable for Address {
    fn generate() -> Self {
        Address(NEXT_ADDRESS.fetch_add(1, Ordering::Relaxed))
    }

    fn id(&self) -> AgentId {
        AgentId::new(self.0)
    }
}

/// A payload that carries any message behind a shared pointer.
#[derive(Clone)]
struct Parcel(Arc<dyn Any + Send + Sync>);

impl Payload for Parcel {}

impl<M: Message + Any + Send + Sync> Package<M> for Parcel {
    fn package(message: M) -> Self {
        Parcel(Arc::new(message))
    }
}

impl<M: Message + Any + Clone> Unpacackage<M> for Parcel {
    fn unpackage(&self) -> Option<M> {
        self.0.downcast_ref::<M>().cloned()
    }
}

struct Local;

impl Network for Local {
    type Address = Address;
    type Payload = Parcel;

    fn new() -> Self {
        Local
    }

    fn join(&self) -> Self {
        Local
    }
}

#[derive(Debug, Clone)]
struct Add(i32);

#[derive(Debug, Clone)]
struct Text(String);

#[derive(Debug, Clone)]
struct Request(i32);

#[derive(Debug, Clone)]
struct Response(i32);

#[derive(Debug, Clone)]
struct Ping(u32);

#[derive(Debug, Clone)]
struct Quit;

impl Message for Add {
    fn type_tag() -> u64 {
        10
    }
}

impl Message for Text {
    fn type_tag() -> u64 {
        11
    }
}

impl Message for Request {
    fn type_tag() -> u64 {
        12
    }
}

impl Message for Response {
    fn type_tag() -> u64 {
        13
    }
}

impl Message for Ping {
    fn type_tag() -> u64 {
        14
    }
}

impl Message for Quit {
    fn type_tag() -> u64 {
        15
    }
}

/// How often each lifecycle callback has run.
#[derive(Debug, Default, Clone, Copy, PartialEq, Eq)]
struct Calls {
    start: u32,
    pause: u32,
    resume: u32,
    stop: u32,
}

#[derive(Debug)]
enum Kind {
    Counter { total: i32 },
    Logger { seen: Vec<String> },
    Producer,
    Consumer { total: i32 },
    Echo { handled: u32 },
}

#[derive(Debug)]
struct Unit {
    kind: Kind,
    calls: Calls,
}

impl LifeCycle for Unit {
    type StartMessage = ();
    type StopMessage = ();

    fn on_start(&mut self) {
        self.calls.start += 1;
    }

    fn on_pause(&mut self) {
        self.calls.pause += 1;
    }

    fn on_resume(&mut self) {
        self.calls.resume += 1;
    }

    fn on_stop(&mut self) {
        self.calls.stop += 1;
    }
}

impl Handler<Add> for Unit {
    type Reply = ();

    fn handle(&mut self, message: &Add) -> HandleResult<()> {
        if let Kind::Counter { total } = &mut self.kind {
            *total += message.0;
        }
        HandleResult::NoReply
    }
}

impl Handler<Text> for Unit {
    type Reply = ();

    fn handle(&mut self, message: &Text) -> HandleResult<()> {
        if let Kind::Logger { seen } = &mut self.kind {
            seen.push(message.0.clone());
        }
        HandleResult::NoReply
    }
}

impl Handler<Request> for Unit {
    type Reply = Response;

    fn handle(&mut self, message: &Request) -> HandleResult<Response> {
        HandleResult::Message(Response(message.0 * 2))
    }
}

impl Handler<Response> for Unit {
    type Reply = ();

    fn handle(&mut self, message: &Response) -> HandleResult<()> {
        if let Kind::Consumer { total } = &mut self.kind {
            *total += message.0;
        }
        HandleResult::NoReply
    }
}

impl Handler<Ping> for Unit {
    type Reply = Ping;

    /// Answers every ping with the next one, for ever.
    fn handle(&mut self, message: &Ping) -> HandleResult<Ping> {
        if let Kind::Echo { handled } = &mut self.kind {
            *handled += 1;
        }
        HandleResult::Message(Ping(message.0 + 1))
    }
}

impl Handler<Quit> for Unit {
    type Reply = ();

    fn handle(&mut self, _message: &Quit) -> HandleResult<()> {
        HandleResult::Stop
    }
}

fn unit(kind: Kind) -> Agent<Unit, Local> {
    Agent::new(Unit { kind, calls: Calls::default() })
}

fn counter() -> Agent<Unit, Local> {
    unit(Kind::Counter { total: 0 }).with_handler::<Add>()
}

fn logger() -> Agent<Unit, Local> {
    unit(Kind::Logger { seen: Vec::new() }).with_handler::<Text>()
}

fn total(runtime: &Runtime<Unit, Local>, id: AgentId) -> i32 {
    match runtime.agent(id).unwrap().inner().kind {
        Kind::Counter { total } => total,
        Kind::Consumer { total } => total,
        _ => panic!("this agent keeps no total"),
    }
}

fn pending(runtime: &Runtime<Unit, Local>, id: AgentId) -> usize {
    runtime.agent(id).unwrap().pending()
}

fn calls(runtime: &Runtime<Unit, Local>, id: AgentId) -> Calls {
    runtime.agent(id).unwrap().inner().calls
}

#[test]
fn counter_accumulates_on_running_and_ignores_on_stopped() {
    let mut runtime = Runtime::new();
    let id = runtime.register_agent(counter());

    runtime.send_to_agent_by_id(id, Add(5)).unwrap();
    runtime.step();
    assert_eq!(total(&runtime, id), 0);
    assert_eq!(runtime.agent_state_by_id(id), Some(State::Stopped));

    runtime.start_agent_by_id(id).unwrap();
    runtime.send_to_agent_by_id(id, Add(5)).unwrap();
    runtime.step();
    assert_eq!(total(&runtime, id), 5);

    runtime.stop_agent_by_id(id).unwrap();
    runtime.send_to_agent_by_id(id, Add(100)).unwrap();
    runtime.start_agent_by_id(id).unwrap();
    runtime.step();
    assert_eq!(total(&runtime, id), 5);
}

#[test]
fn pause_defers_and_resume_drains() {
    let mut runtime = Runtime::new();
    let id = runtime.register_agent(counter());

    runtime.start_agent_by_id(id).unwrap();
    runtime.send_to_agent_by_id(id, Add(1)).unwrap();
    runtime.step();
    assert_eq!(total(&runtime, id), 1);

    runtime.pause_agent_by_id(id).unwrap();
    runtime.send_to_agent_by_id(id, Add(10)).unwrap();
    runtime.send_to_agent_by_id(id, Add(2)).unwrap();
    runtime.step();
    assert_eq!(total(&runtime, id), 1);
    assert_eq!(pending(&runtime, id), 2);
    assert!(!runtime.has_pending_work());

    runtime.resume_agent_by_id(id).unwrap();
    assert_eq!(total(&runtime, id), 13);
    assert_eq!(pending(&runtime, id), 0);

    // Each message was handled once: further steps add nothing.
    runtime.step();
    runtime.step();
    assert_eq!(total(&runtime, id), 13);
}

#[test]
fn producer_feeds_consumer_one_step_later() {
    let mut runtime = Runtime::new();
    let producer = runtime.register_agent(unit(Kind::Producer).with_handler::<Request>());
    let consumer =
        runtime.register_agent(unit(Kind::Consumer { total: 0 }).with_handler::<Response>());
    runtime.start_agent_by_id(producer).unwrap();
    runtime.start_agent_by_id(consumer).unwrap();

    runtime.send_to_agent_by_id(producer, Request(5)).unwrap();

    runtime.step();
    assert_eq!(pending(&runtime, consumer), 1);
    assert_eq!(total(&runtime, consumer), 0);

    runtime.step();
    assert_eq!(total(&runtime, consumer), 10);
    assert!(!runtime.has_pending_work());
}

#[test]
fn consumer_registered_first_still_waits_for_the_next_step() {
    let mut runtime = Runtime::new();
    let consumer =
        runtime.register_agent(unit(Kind::Consumer { total: 0 }).with_handler::<Response>());
    let producer = runtime.register_agent(unit(Kind::Producer).with_handler::<Request>());
    runtime.start_all_agents();

    runtime.send_to_agent_by_id(producer, Request(21)).unwrap();
    runtime.step();
    assert_eq!(total(&runtime, consumer), 0);
    assert_eq!(pending(&runtime, consumer), 1);
    runtime.step();
    assert_eq!(total(&runtime, consumer), 42);
}

#[test]
fn broadcast_reaches_only_agents_with_a_handler() {
    let mut runtime = Runtime::new();
    let c1 = runtime.spawn_agent(counter());
    let c2 = runtime.spawn_agent(counter());
    let c3 = runtime.spawn_agent(counter());
    let log = runtime.spawn_agent(logger());

    runtime.broadcast_message(Add(1));
    assert_eq!(pending(&runtime, c1), 1);
    assert_eq!(pending(&runtime, c2), 1);
    assert_eq!(pending(&runtime, c3), 1);
    assert_eq!(pending(&runtime, log), 0);
    assert_eq!(runtime.agents_needing_processing(), 3);

    runtime.step();
    assert_eq!(total(&runtime, c1), 1);
    assert_eq!(total(&runtime, c2), 1);
    assert_eq!(total(&runtime, c3), 1);
    match &runtime.agent(log).unwrap().inner().kind {
        Kind::Logger { seen } => assert!(seen.is_empty()),
        _ => unreachable!(),
    }
}

#[test]
fn broadcast_shares_one_payload_among_the_recipients() {
    let envelope = Envelope::<Local>::package(Add(7));
    let copy = envelope.clone();
    assert_eq!(copy.type_id, 10);
    assert!(Arc::ptr_eq(&envelope.payload, &copy.payload));
    assert_eq!(Arc::strong_count(&envelope.payload), 2);
    assert_eq!(copy.unpackage::<Add>().unwrap().0, 7);
}

#[test]
fn a_stopped_agent_with_a_handler_drops_a_broadcast() {
    let mut runtime = Runtime::new();
    let id = runtime.register_agent(counter());
    runtime.broadcast_message(Add(3));
    assert_eq!(pending(&runtime, id), 0);
    runtime.start_agent_by_id(id).unwrap();
    runtime.step();
    assert_eq!(total(&runtime, id), 0);
}

#[test]
fn a_second_agent_under_a_taken_name_is_refused() {
    let mut runtime = Runtime::new();
    let a1 = counter();
    let a2 = counter();
    let first = a1.id();

    assert_eq!(runtime.register_named_agent("x", a1).unwrap(), first);
    match runtime.register_named_agent("x", a2) {
        Err(RuntimeError::DuplicateName(name)) => assert_eq!(name, "x"),
        other => panic!("expected a refusal, got {:?}", other.map(|id| id.value())),
    }
    assert_eq!(runtime.agent_count(), 1);
    assert_eq!(runtime.agent_id_by_name("x"), Some(first));
    assert_eq!(runtime.agent_names().len(), 1);
}

#[test]
fn spawning_under_a_taken_name_is_refused_too() {
    let mut runtime = Runtime::new();
    let first = runtime.spawn_named_agent("x", counter()).unwrap();
    assert!(matches!(
        runtime.spawn_named_agent("x", counter()),
        Err(RuntimeError::DuplicateName(_))
    ));
    assert_eq!(runtime.agent_count(), 1);
    assert_eq!(runtime.agent_state_by_name("x"), Some(State::Running));
    assert_eq!(runtime.agent_id_by_name("x"), Some(first));
}

#[test]
fn stop_clears_the_mailbox() {
    let mut runtime = Runtime::new();
    let id = runtime.register_agent(counter());

    runtime.start_agent_by_id(id).unwrap();
    runtime.send_to_agent_by_id(id, Add(1)).unwrap();
    assert_eq!(pending(&runtime, id), 1);
    runtime.stop_agent_by_id(id).unwrap();
    assert_eq!(pending(&runtime, id), 0);

    runtime.start_agent_by_id(id).unwrap();
    runtime.step();
    assert_eq!(total(&runtime, id), 0);
}

#[test]
fn identifiers_of_registered_agents_differ() {
    let mut runtime = Runtime::new();
    let mut ids = Vec::new();
    for _ in 0..20 {
        ids.push(runtime.register_agent(counter()));
    }
    for i in 0..ids.len() {
        for j in 0..i {
            assert_ne!(ids[i], ids[j]);
        }
    }
    assert_eq!(runtime.agent_ids(), ids);
}

#[test]
fn an_agent_that_comes_back_takes_its_old_place_by_identifier() {
    let mut runtime = Runtime::new();
    let id = runtime.register_named_agent("worker", counter()).unwrap();
    let other = runtime.register_agent(counter());

    let mut agent = runtime.remove_agent_by_id(id).unwrap();
    assert_eq!(runtime.agent_count(), 1);
    assert_eq!(runtime.agent_id_by_name("worker"), None);

    agent.set_name("worker");
    assert_eq!(runtime.reinsert_agent(agent), id);
    assert_eq!(runtime.agent_count(), 2);
    assert_eq!(runtime.agent_id_by_name("worker"), Some(id));
    assert_eq!(runtime.agent_ids(), vec![other, id]);
}

#[test]
fn names_lead_to_registered_agents_only() {
    let mut runtime = Runtime::new();
    let a = runtime.register_named_agent("a", counter()).unwrap();
    let b = runtime.register_named_agent("b", counter()).unwrap();
    assert_ne!(runtime.agent_id_by_name("a"), runtime.agent_id_by_name("b"));

    let removed = runtime.remove_agent_by_name("a").unwrap();
    assert_eq!(removed.id(), a);
    assert_eq!(runtime.agent_id_by_name("a"), None);
    assert!(runtime.agent(a).is_none());
    assert_eq!(runtime.agent_id_by_name("b"), Some(b));

    runtime.remove_agent_by_id(b).unwrap();
    assert_eq!(runtime.agent_id_by_name("b"), None);
    assert!(runtime.agent_names().is_empty());

    // The name is free again.
    let again = runtime.register_named_agent("a", counter()).unwrap();
    assert_eq!(runtime.agent_id_by_name("a"), Some(again));
}

#[test]
fn unknown_identifiers_and_names_are_reported() {
    let mut runtime: Runtime<Unit, Local> = Runtime::new();
    let nobody = AgentId::new(u64::MAX);

    assert!(matches!(
        runtime.start_agent_by_id(nobody),
        Err(RuntimeError::UnknownId(id)) if id == nobody
    ));
    assert!(matches!(runtime.pause_agent_by_id(nobody), Err(RuntimeError::UnknownId(_))));
    assert!(matches!(runtime.resume_agent_by_id(nobody), Err(RuntimeError::UnknownId(_))));
    assert!(matches!(runtime.stop_agent_by_id(nobody), Err(RuntimeError::UnknownId(_))));
    assert!(matches!(runtime.remove_agent_by_id(nobody), Err(RuntimeError::UnknownId(_))));
    assert!(matches!(
        runtime.send_to_agent_by_id(nobody, Add(1)),
        Err(RuntimeError::UnknownId(_))
    ));

    assert!(matches!(
        runtime.start_agent_by_name("ghost"),
        Err(RuntimeError::UnknownName(name)) if name == "ghost"
    ));
    assert!(matches!(runtime.pause_agent_by_name("ghost"), Err(RuntimeError::UnknownName(_))));
    assert!(matches!(runtime.resume_agent_by_name("ghost"), Err(RuntimeError::UnknownName(_))));
    assert!(matches!(runtime.stop_agent_by_name("ghost"), Err(RuntimeError::UnknownName(_))));
    assert!(matches!(runtime.remove_agent_by_name("ghost"), Err(RuntimeError::UnknownName(_))));
    assert!(matches!(
        runtime.send_to_agent_by_name("ghost", Add(1)),
        Err(RuntimeError::UnknownName(_))
    ));
    assert_eq!(runtime.agent_state_by_id(nobody), None);
    assert_eq!(runtime.agent_state_by_name("ghost"), None);
    assert_eq!(runtime.agent_count(), 0);
}

#[test]
fn lifecycle_calls_by_name_reach_the_named_agent() {
    let mut runtime = Runtime::new();
    let id = runtime.register_named_agent("c", counter()).unwrap();
    let other = runtime.register_agent(counter());

    runtime.start_agent_by_name("c").unwrap();
    assert_eq!(runtime.agent_state_by_name("c"), Some(State::Running));
    assert_eq!(runtime.agent_state_by_id(other), Some(State::Stopped));

    runtime.send_to_agent_by_name("c", Add(4)).unwrap();
    runtime.pause_agent_by_name("c").unwrap();
    assert_eq!(runtime.agent_state_by_id(id), Some(State::Paused));
    runtime.resume_agent_by_name("c").unwrap();
    assert_eq!(total(&runtime, id), 4);
    runtime.stop_agent_by_name("c").unwrap();
    assert_eq!(runtime.agent_state_by_id(id), Some(State::Stopped));
}

#[test]
fn messages_are_handled_in_the_order_of_their_arrival() {
    let mut runtime = Runtime::new();
    let id = runtime.spawn_agent(logger());
    for word in ["one", "two", "three", "four"] {
        runtime.send_to_agent_by_id(id, Text(word.to_string())).unwrap();
    }
    runtime.broadcast_message(Text("five".to_string()));
    runtime.step();
    match &runtime.agent(id).unwrap().inner().kind {
        Kind::Logger { seen } => assert_eq!(seen, &["one", "two", "three", "four", "five"]),
        _ => unreachable!(),
    }
}

#[test]
fn a_step_returns_even_when_replies_feed_themselves() {
    let mut runtime = Runtime::new();
    let id = runtime.spawn_agent(unit(Kind::Echo { handled: 0 }).with_handler::<Ping>());
    runtime.send_to_agent_by_id(id, Ping(0)).unwrap();
    runtime.send_to_agent_by_id(id, Ping(100)).unwrap();

    for round in 1..=5u32 {
        let waiting = pending(&runtime, id);
        assert_eq!(waiting, 2);
        runtime.step();
        // One handler call for each envelope that waited, and no more.
        match runtime.agent(id).unwrap().inner().kind {
            Kind::Echo { handled } => assert_eq!(handled, 2 * round),
            _ => unreachable!(),
        }
        assert!(runtime.has_pending_work());
    }
}

#[test]
fn a_reply_reaches_every_agent_that_accepts_it_and_no_other() {
    let mut runtime = Runtime::new();
    let producer = runtime.spawn_agent(unit(Kind::Producer).with_handler::<Request>());
    let running =
        runtime.spawn_agent(unit(Kind::Consumer { total: 0 }).with_handler::<Response>());
    let paused = runtime.spawn_agent(unit(Kind::Consumer { total: 0 }).with_handler::<Response>());
    let stopped =
        runtime.register_agent(unit(Kind::Consumer { total: 0 }).with_handler::<Response>());
    let deaf = runtime.spawn_agent(counter());
    runtime.pause_agent_by_id(paused).unwrap();

    runtime.send_to_agent_by_id(producer, Request(1)).unwrap();
    runtime.send_to_agent_by_id(producer, Request(2)).unwrap();
    runtime.step();

    assert_eq!(pending(&runtime, producer), 0);
    assert_eq!(pending(&runtime, running), 2);
    assert_eq!(pending(&runtime, paused), 2);
    assert_eq!(pending(&runtime, stopped), 0);
    assert_eq!(pending(&runtime, deaf), 0);

    runtime.step();
    assert_eq!(total(&runtime, running), 6);
    assert_eq!(total(&runtime, paused), 0);
    runtime.resume_agent_by_id(paused).unwrap();
    assert_eq!(total(&runtime, paused), 6);
}

#[test]
fn an_agent_can_reply_to_itself() {
    let mut runtime = Runtime::new();
    let id = runtime.spawn_agent(unit(Kind::Echo { handled: 0 }).with_handler::<Ping>());
    runtime.send_to_agent_by_id(id, Ping(0)).unwrap();
    runtime.step();
    assert_eq!(pending(&runtime, id), 1);
}

#[test]
fn callbacks_run_on_the_transitions_of_the_state_machine_only() {
    let mut runtime = Runtime::new();
    let id = runtime.register_agent(counter());
    let none = Calls::default();
    assert_eq!(calls(&runtime, id), none);

    // Stopped: pause, resume and stop are ignored.
    runtime.pause_agent_by_id(id).unwrap();
    runtime.resume_agent_by_id(id).unwrap();
    runtime.stop_agent_by_id(id).unwrap();
    assert_eq!(runtime.agent_state_by_id(id), Some(State::Stopped));
    assert_eq!(calls(&runtime, id), none);

    runtime.start_agent_by_id(id).unwrap();
    assert_eq!(calls(&runtime, id), Calls { start: 1, ..none });

    // Running: start and resume are ignored.
    runtime.start_agent_by_id(id).unwrap();
    runtime.resume_agent_by_id(id).unwrap();
    assert_eq!(runtime.agent_state_by_id(id), Some(State::Running));
    assert_eq!(calls(&runtime, id), Calls { start: 1, ..none });

    runtime.pause_agent_by_id(id).unwrap();
    assert_eq!(calls(&runtime, id), Calls { start: 1, pause: 1, ..none });

    // Paused: start and pause are ignored.
    runtime.start_agent_by_id(id).unwrap();
    runtime.pause_agent_by_id(id).unwrap();
    assert_eq!(runtime.agent_state_by_id(id), Some(State::Paused));
    assert_eq!(calls(&runtime, id), Calls { start: 1, pause: 1, ..none });

    runtime.resume_agent_by_id(id).unwrap();
    assert_eq!(calls(&runtime, id), Calls { start: 1, pause: 1, resume: 1, stop: 0 });

    runtime.stop_agent_by_id(id).unwrap();
    assert_eq!(calls(&runtime, id), Calls { start: 1, pause: 1, resume: 1, stop: 1 });

    runtime.pause_agent_by_id(id).unwrap();
    runtime.start_agent_by_id(id).unwrap();
    runtime.pause_agent_by_id(id).unwrap();
    runtime.stop_agent_by_id(id).unwrap();
    assert_eq!(calls(&runtime, id), Calls { start: 2, pause: 2, resume: 1, stop: 2 });
}

#[test]
fn bulk_operations_count_the_transitions_taken() {
    let mut runtime = Runtime::new();
    let a = runtime.register_agent(counter());
    let b = runtime.spawn_agent(counter());
    let c = runtime.spawn_agent(counter());
    runtime.pause_agent_by_id(c).unwrap();

    // a stopped, b running, c paused
    assert_eq!(runtime.start_all_agents(), 1);
    assert_eq!(runtime.agent_state_by_id(c), Some(State::Paused));
    assert_eq!(runtime.pause_all_agents(), 2);
    assert_eq!(runtime.resume_all_agents(), 3);
    runtime.stop_agent_by_id(a).unwrap();
    assert_eq!(runtime.stop_all_agents(), 2);
    assert_eq!(runtime.stop_all_agents(), 0);
    assert_eq!(calls(&runtime, b), Calls { start: 1, pause: 1, resume: 1, stop: 1 });
    assert_eq!(calls(&runtime, c), Calls { start: 1, pause: 1, resume: 1, stop: 1 });

    let stats = runtime.statistics();
    assert_eq!(stats.total_agents, 3);
    assert_eq!(stats.running_agents, 0);
    assert_eq!(stats.paused_agents, 0);
    assert_eq!(stats.stopped_agents, 3);
    assert_eq!(stats.agents_with_pending_messages, 0);
}

#[test]
fn resuming_handles_the_backlog_and_routes_nothing() {
    let mut runtime = Runtime::new();
    let producer = runtime.spawn_agent(unit(Kind::Producer).with_handler::<Request>());
    let consumer =
        runtime.spawn_agent(unit(Kind::Consumer { total: 0 }).with_handler::<Response>());
    runtime.pause_all_agents();
    runtime.send_to_agent_by_id(producer, Request(4)).unwrap();

    assert_eq!(runtime.resume_all_agents(), 2);
    assert_eq!(pending(&runtime, producer), 0);
    // The reply of the resume drain is not routed.
    assert_eq!(pending(&runtime, consumer), 0);
    assert!(!runtime.has_pending_work());
    runtime.step();
    assert_eq!(total(&runtime, consumer), 0);
}

#[test]
fn resuming_handles_each_message_of_the_backlog_once() {
    let mut runtime = Runtime::new();
    // An agent that accepts its own replies.
    let id = runtime.spawn_agent(unit(Kind::Echo { handled: 0 }).with_handler::<Ping>());
    let other = runtime.spawn_agent(unit(Kind::Echo { handled: 0 }).with_handler::<Ping>());
    runtime.pause_agent_by_id(id).unwrap();
    for n in 0..3 {
        runtime.send_to_agent_by_id(id, Ping(n)).unwrap();
    }
    let handled = |runtime: &Runtime<Unit, Local>, id| match runtime.agent(id).unwrap().inner().kind
    {
        Kind::Echo { handled } => handled,
        _ => unreachable!(),
    };
    assert_eq!(handled(&runtime, id), 0);

    runtime.resume_agent_by_id(id).unwrap();
    assert_eq!(runtime.agent_state_by_id(id), Some(State::Running));
    assert_eq!(handled(&runtime, id), 3);
    assert_eq!(pending(&runtime, id), 0);
    assert_eq!(pending(&runtime, other), 0);

    // A following step handles none of them a second time.
    runtime.step();
    assert_eq!(handled(&runtime, id), 3);
    assert_eq!(handled(&runtime, other), 0);
}

#[test]
fn a_stop_asked_during_a_resume_only_ends_the_drain() {
    let mut runtime = Runtime::new();
    let id = runtime.spawn_agent(counter().with_handler::<Quit>());
    runtime.pause_agent_by_id(id).unwrap();
    runtime.send_to_agent_by_id(id, Add(1)).unwrap();
    runtime.send_to_agent_by_id(id, Quit).unwrap();
    runtime.send_to_agent_by_id(id, Add(10)).unwrap();

    runtime.resume_agent_by_id(id).unwrap();
    assert_eq!(runtime.agent_state_by_id(id), Some(State::Running));
    assert_eq!(total(&runtime, id), 1);
    assert_eq!(pending(&runtime, id), 1);
    assert_eq!(calls(&runtime, id).stop, 0);

    // What was behind the stop is work for the next step.
    runtime.step();
    assert_eq!(total(&runtime, id), 11);
    assert_eq!(pending(&runtime, id), 0);
}

#[test]
fn refusals_say_what_was_wrong() {
    assert_eq!(
        RuntimeError::UnknownId(AgentId::new(0)).message(),
        "Agent with ID 0 not found"
    );
    assert_eq!(
        RuntimeError::UnknownId(AgentId::new(1907)).message(),
        "Agent with ID 1907 not found"
    );
    assert_eq!(
        RuntimeError::UnknownId(AgentId::new(u64::MAX)).message(),
        "Agent with ID 18446744073709551615 not found"
    );
    assert_eq!(
        RuntimeError::UnknownName("ghost".to_string()).message(),
        "Agent 'ghost' not found"
    );
    assert_eq!(
        RuntimeError::DuplicateName("x".to_string()).message(),
        "Agent name 'x' already exists"
    );
    let mut runtime: Runtime<Unit, Local> = Runtime::new();
    runtime.register_named_agent("x", counter()).unwrap();
    let refused = runtime.register_named_agent("x", counter()).unwrap_err();
    assert_eq!(refused.message(), "Agent name 'x' already exists");
    let refused = runtime.start_agent_by_name("y").unwrap_err();
    assert_eq!(refused.message(), "Agent 'y' not found");
}

#[test]
fn a_handler_that_asks_to_stop_stops_its_agent() {
    let mut runtime = Runtime::new();
    let id = runtime.spawn_agent(counter().with_handler::<Quit>());
    runtime.send_to_agent_by_id(id, Add(1)).unwrap();
    runtime.send_to_agent_by_id(id, Quit).unwrap();
    runtime.send_to_agent_by_id(id, Add(100)).unwrap();

    runtime.step();
    assert_eq!(runtime.agent_state_by_id(id), Some(State::Stopped));
    assert_eq!(total(&runtime, id), 1);
    assert_eq!(pending(&runtime, id), 0);
    assert_eq!(calls(&runtime, id).stop, 1);

    runtime.start_agent_by_id(id).unwrap();
    runtime.step();
    assert_eq!(total(&runtime, id), 1);
}

#[test]
fn a_message_without_a_handler_is_taken_and_discarded() {
    let mut runtime = Runtime::new();
    let id = runtime.spawn_agent(counter());
    runtime.send_to_agent_by_id(id, Text("nobody listens".to_string())).unwrap();
    runtime.send_to_agent_by_id(id, Add(2)).unwrap();
    assert_eq!(pending(&runtime, id), 2);
    assert_eq!(runtime.process_all_pending_messages(), 1);
    assert_eq!(pending(&runtime, id), 0);
    assert_eq!(total(&runtime, id), 2);
}

#[test]
fn a_payload_that_does_not_unpack_is_dropped() {
    let mut agent = counter();
    agent.start();
    // An envelope that claims to hold an `Add` and holds a `Text`.
    let forged = Envelope::<Local> {
        payload: Arc::new(Parcel::package(Text("not a number".to_string()))),
        type_id: 10,
    };
    assert!(forged.unpackage::<Add>().is_none());
    agent.enqueue(forged);
    agent.enqueue(Envelope::package(Add(9)));
    let outcomes = agent.drain();
    assert_eq!(outcomes.len(), 2);
    assert!(matches!(outcomes[0], HandleResult::NoReply));
    match agent.inner().kind {
        Kind::Counter { total } => assert_eq!(total, 9),
        _ => unreachable!(),
    }
}

#[test]
fn processing_all_pending_messages_runs_the_whole_chain() {
    let mut runtime = Runtime::new();
    let producer = runtime.spawn_agent(unit(Kind::Producer).with_handler::<Request>());
    let consumer =
        runtime.spawn_agent(unit(Kind::Consumer { total: 0 }).with_handler::<Response>());
    for v in 1..=3 {
        runtime.send_to_agent_by_id(producer, Request(v)).unwrap();
    }
    // Three requests, then three responses.
    assert_eq!(runtime.process_all_pending_messages(), 6);
    assert_eq!(total(&runtime, consumer), 12);
    assert!(!runtime.has_pending_work());
    assert_eq!(runtime.process_all_pending_messages(), 0);
}

#[test]
fn registering_an_identifier_again_replaces_the_agent() {
    let mut runtime = Runtime::new();
    let id = runtime.register_named_agent("old", counter()).unwrap();
    let mut twin = runtime.remove_agent_by_id(id).unwrap();
    runtime.register_named_agent("old", counter().with_handler::<Quit>()).unwrap();
    let newcomer = runtime.agent_id_by_name("old").unwrap();
    assert_ne!(newcomer, id);

    twin.start();
    assert_eq!(runtime.register_agent(twin), id);
    let count = runtime.agent_count();
    // The same agent once more: it is held once.
    let again = runtime.remove_agent_by_id(id).unwrap();
    assert_eq!(runtime.register_agent(again), id);
    assert_eq!(runtime.agent_count(), count);
    assert_eq!(runtime.agent_state_by_id(id), Some(State::Running));
}

#[test]
fn removing_all_agents_empties_the_name_index() {
    let mut runtime = Runtime::new();
    let a = runtime.register_named_agent("a", counter()).unwrap();
    let b = runtime.register_agent(counter());
    let removed = runtime.remove_all_agents();
    assert_eq!(removed.len(), 2);
    assert_eq!(removed[0].0, a);
    assert_eq!(removed[0].1.id(), a);
    assert_eq!(removed[1].0, b);
    assert_eq!(runtime.agent_count(), 0);
    assert_eq!(runtime.agent_id_by_name("a"), None);
    assert!(runtime.agent_ids().is_empty());
}

#[test]
fn agents_are_listed_by_state_in_registration_order() {
    let mut runtime = Runtime::new();
    let a = runtime.spawn_agent(counter());
    let b = runtime.register_agent(counter());
    let c = runtime.spawn_agent(counter());
    let d = runtime.spawn_agent(counter());
    runtime.pause_agent_by_id(d).unwrap();
    assert_eq!(runtime.agents_by_state(State::Running), vec![a, c]);
    assert_eq!(runtime.agents_by_state(State::Stopped), vec![b]);
    assert_eq!(runtime.agents_by_state(State::Paused), vec![d]);
}
