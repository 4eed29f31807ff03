use crate::agent::LifeCycle;
use crate::handler::{HandleResult, Handler, Message, Package, Payload, Unpacackage};
use vstd::prelude::*;

verus! {

/// A message that carries a number. Its type tag is 1.
#[derive(Clone, Copy, Debug)]
pub struct NumberMessage {
    pub value: i32,
}

/// A message that carries a text. Its type tag is 2.
#[derive(Debug)]
pub struct TextMessage {
    pub content: String,
}

impl Message for NumberMessage {
    open spec fn tag() -> u64 {
        1
    }

    fn type_tag() -> (tag: u64) {
        1
    }
}

impl Message for TextMessage {
    open spec fn tag() -> u64 {
        2
    }

    fn type_tag() -> (tag: u64) {
        2
    }
}

/// A request for a number to be multiplied. Its type tag is 3.
#[derive(Clone, Copy, Debug)]
pub struct RequestData {
    pub value: i32,
}

/// The answer to a request. Its type tag is 4.
#[derive(Clone, Copy, Debug)]
pub struct ResponseData {
    pub result: i32,
}

/// Its type tag is 5.
#[derive(Clone, Copy, Debug)]
pub struct PingMessage;

/// Its type tag is 6.
#[derive(Clone, Copy, Debug)]
pub struct PongMessage;

/// What a `Ping` says when it stops. Its type tag is 7.
#[derive(Clone, Copy, Debug)]
pub struct StopMessage;

impl Message for RequestData {
    open spec fn tag() -> u64 {
        3
    }

    fn type_tag() -> (tag: u64) {
        3
    }
}

impl Message for ResponseData {
    open spec fn tag() -> u64 {
        4
    }

    fn type_tag() -> (tag: u64) {
        4
    }
}

impl Message for PingMessage {
    open spec fn tag() -> u64 {
        5
    }

    fn type_tag() -> (tag: u64) {
        5
    }
}

impl Message for PongMessage {
    open spec fn tag() -> u64 {
        6
    }

    fn type_tag() -> (tag: u64) {
        6
    }
}

impl Message for StopMessage {
    open spec fn tag() -> u64 {
        7
    }

    fn type_tag() -> (tag: u64) {
        7
    }
}

/// A payload that carries one of the messages of this module as it is.
#[derive(Debug)]
pub enum Note {
    Unit,
    Number(NumberMessage),
    Text(TextMessage),
    Request(RequestData),
    Response(ResponseData),
    Ping,
    Pong,
    Stop,
}

impl Payload for Note {

}

impl Package<()> for Note {
    open spec fn packaged(message: ()) -> Self {
        Note::Unit
    }

    fn package(message: ()) -> (payload: Self) {
        Note::Unit
    }
}

impl Package<NumberMessage> for Note {
    open spec fn packaged(message: NumberMessage) -> Self {
        Note::Number(message)
    }

    fn package(message: NumberMessage) -> (payload: Self) {
        Note::Number(message)
    }
}

impl Package<TextMessage> for Note {
    open spec fn packaged(message: TextMessage) -> Self {
        Note::Text(message)
    }

    fn package(message: TextMessage) -> (payload: Self) {
        Note::Text(message)
    }
}

impl Unpacackage<NumberMessage> for Note {
    open spec fn unpackaged(&self) -> Option<NumberMessage> {
        match self {
            Note::Number(message) => Some(*message),
            _ => None,
        }
    }

    fn unpackage(&self) -> (message: Option<NumberMessage>) {
        match self {
            Note::Number(message) => Some(*message),
            _ => None,
        }
    }
}

impl Unpacackage<TextMessage> for Note {
    open spec fn unpackaged(&self) -> Option<TextMessage> {
        match self {
            Note::Text(message) => Some(*message),
            _ => None,
        }
    }

    fn unpackage(&self) -> (message: Option<TextMessage>) {
        match self {
            Note::Text(message) => Some(TextMessage { content: message.content.clone() }),
            _ => None,
        }
    }
}

/// Adds up the numbers it is sent. The sum wraps around.
pub struct Counter {
    pub total: i32,
}

/// Counts the messages it is sent. The count wraps around.
pub struct Logger {
    pub name: String,
    pub message_count: i32,
}

impl LifeCycle for Counter {
    type StartMessage = ();

    type StopMessage = ();

    open spec fn started(self) -> (Self, ()) {
        (self, ())
    }

    open spec fn paused(self) -> Self {
        self
    }

    open spec fn resumed(self) -> Self {
        self
    }

    open spec fn stopped(self) -> (Self, ()) {
        (self, ())
    }

    fn on_start(&mut self) -> (message: ()) {
    }

    fn on_pause(&mut self) {
    }

    fn on_resume(&mut self) {
    }

    fn on_stop(&mut self) -> (message: ()) {
    }
}

impl LifeCycle for Logger {
    type StartMessage = ();

    type StopMessage = ();

    open spec fn started(self) -> (Self, ()) {
        (self, ())
    }

    open spec fn paused(self) -> Self {
        self
    }

    open spec fn resumed(self) -> Self {
        self
    }

    open spec fn stopped(self) -> (Self, ()) {
        (self, ())
    }

    fn on_start(&mut self) -> (message: ()) {
    }

    fn on_pause(&mut self) {
    }

    fn on_resume(&mut self) {
    }

    fn on_stop(&mut self) -> (message: ()) {
    }
}

impl Handler<NumberMessage> for Counter {
    type Reply = ();

    open spec fn handled(self, message: NumberMessage) -> (Self, HandleResult<()>) {
        (Counter { total: self.total.wrapping_add(message.value) }, HandleResult::Message(()))
    }

    fn handle(&mut self, message: &NumberMessage) -> (result: HandleResult<()>) {
        self.total = self.total.wrapping_add(message.value);
        HandleResult::Message(())
    }
}

impl Handler<TextMessage> for Logger {
    type Reply = ();

    open spec fn handled(self, message: TextMessage) -> (Self, HandleResult<()>) {
        (
            Logger { name: self.name, message_count: self.message_count.wrapping_add(1) },
            HandleResult::Message(()),
        )
    }

    fn handle(&mut self, message: &TextMessage) -> (result: HandleResult<()>) {
        self.message_count = self.message_count.wrapping_add(1);
        HandleResult::Message(())
    }
}

impl Handler<NumberMessage> for Logger {
    type Reply = ();

    open spec fn handled(self, message: NumberMessage) -> (Self, HandleResult<()>) {
        (
            Logger { name: self.name, message_count: self.message_count.wrapping_add(1) },
            HandleResult::Message(()),
        )
    }

    fn handle(&mut self, message: &NumberMessage) -> (result: HandleResult<()>) {
        self.message_count = self.message_count.wrapping_add(1);
        HandleResult::Message(())
    }
}

impl Package<RequestData> for Note {
    open spec fn packaged(message: RequestData) -> Self {
        Note::Request(message)
    }

    fn package(message: RequestData) -> (payload: Self) {
        Note::Request(message)
    }
}

impl Package<ResponseData> for Note {
    open spec fn packaged(message: ResponseData) -> Self {
        Note::Response(message)
    }

    fn package(message: ResponseData) -> (payload: Self) {
        Note::Response(message)
    }
}

impl Package<PingMessage> for Note {
    open spec fn packaged(message: PingMessage) -> Self {
        Note::Ping
    }

    fn package(message: PingMessage) -> (payload: Self) {
        Note::Ping
    }
}

impl Package<PongMessage> for Note {
    open spec fn packaged(message: PongMessage) -> Self {
        Note::Pong
    }

    fn package(message: PongMessage) -> (payload: Self) {
        Note::Pong
    }
}

impl Package<StopMessage> for Note {
    open spec fn packaged(message: StopMessage) -> Self {
        Note::Stop
    }

    fn package(message: StopMessage) -> (payload: Self) {
        Note::Stop
    }
}

impl Unpacackage<RequestData> for Note {
    open spec fn unpackaged(&self) -> Option<RequestData> {
        match self {
            Note::Request(message) => Some(*message),
            _ => None,
        }
    }

    fn unpackage(&self) -> (message: Option<RequestData>) {
        match self {
            Note::Request(message) => Some(*message),
            _ => None,
        }
    }
}

impl Unpacackage<ResponseData> for Note {
    open spec fn unpackaged(&self) -> Option<ResponseData> {
        match self {
            Note::Response(message) => Some(*message),
            _ => None,
        }
    }

    fn unpackage(&self) -> (message: Option<ResponseData>) {
        match self {
            Note::Response(message) => Some(*message),
            _ => None,
        }
    }
}

impl Unpacackage<PingMessage> for Note {
    open spec fn unpackaged(&self) -> Option<PingMessage> {
        match self {
            Note::Ping => Some(PingMessage),
            _ => None,
        }
    }

    fn unpackage(&self) -> (message: Option<PingMessage>) {
        match self {
            Note::Ping => Some(PingMessage),
            _ => None,
        }
    }
}

impl Unpacackage<PongMessage> for Note {
    open spec fn unpackaged(&self) -> Option<PongMessage> {
        match self {
            Note::Pong => Some(PongMessage),
            _ => None,
        }
    }

    fn unpackage(&self) -> (message: Option<PongMessage>) {
        match self {
            Note::Pong => Some(PongMessage),
            _ => None,
        }
    }
}

/// Answers every request with the value multiplied. The product wraps around.
pub struct Producer {
    pub multiplier: i32,
}

/// Adds up the results it is sent, and counts them. Both wrap around.
pub struct Consumer {
    pub total: i32,
    pub responses_received: usize,
}

/// Answers every pong with a ping, `max_count` times, and then asks to stop.
pub struct Ping {
    pub max_count: usize,
    pub count: usize,
}

/// Answers every ping with a pong.
pub struct Pong;

impl LifeCycle for Producer {
    type StartMessage = ();

    type StopMessage = ();

    open spec fn started(self) -> (Self, ()) {
        (self, ())
    }

    open spec fn paused(self) -> Self {
        self
    }

    open spec fn resumed(self) -> Self {
        self
    }

    open spec fn stopped(self) -> (Self, ()) {
        (self, ())
    }

    fn on_start(&mut self) -> (message: ()) {
    }

    fn on_pause(&mut self) {
    }

    fn on_resume(&mut self) {
    }

    fn on_stop(&mut self) -> (message: ()) {
    }
}

impl LifeCycle for Consumer {
    type StartMessage = ();

    type StopMessage = ();

    open spec fn started(self) -> (Self, ()) {
        (self, ())
    }

    open spec fn paused(self) -> Self {
        self
    }

    open spec fn resumed(self) -> Self {
        self
    }

    open spec fn stopped(self) -> (Self, ()) {
        (self, ())
    }

    fn on_start(&mut self) -> (message: ()) {
    }

    fn on_pause(&mut self) {
    }

    fn on_resume(&mut self) {
    }

    fn on_stop(&mut self) -> (message: ()) {
    }
}

/// A `Ping` opens the exchange with a ping when it starts, and says so when
/// it stops.
impl LifeCycle for Ping {
    type StartMessage = PingMessage;

    type StopMessage = StopMessage;

    open spec fn started(self) -> (Self, PingMessage) {
        (self, PingMessage)
    }

    open spec fn paused(self) -> Self {
        self
    }

    open spec fn resumed(self) -> Self {
        self
    }

    open spec fn stopped(self) -> (Self, StopMessage) {
        (self, StopMessage)
    }

    fn on_start(&mut self) -> (message: PingMessage) {
        PingMessage
    }

    fn on_pause(&mut self) {
    }

    fn on_resume(&mut self) {
    }

    fn on_stop(&mut self) -> (message: StopMessage) {
        StopMessage
    }
}

impl LifeCycle for Pong {
    type StartMessage = ();

    type StopMessage = ();

    open spec fn started(self) -> (Self, ()) {
        (self, ())
    }

    open spec fn paused(self) -> Self {
        self
    }

    open spec fn resumed(self) -> Self {
        self
    }

    open spec fn stopped(self) -> (Self, ()) {
        (self, ())
    }

    fn on_start(&mut self) -> (message: ()) {
    }

    fn on_pause(&mut self) {
    }

    fn on_resume(&mut self) {
    }

    fn on_stop(&mut self) -> (message: ()) {
    }
}

impl Handler<RequestData> for Producer {
    type Reply = ResponseData;

    open spec fn handled(self, message: RequestData) -> (Self, HandleResult<ResponseData>) {
        (
            self,
            HandleResult::Message(
                ResponseData { result: message.value.wrapping_mul(self.multiplier) },
            ),
        )
    }

    fn handle(&mut self, message: &RequestData) -> (result: HandleResult<ResponseData>) {
        HandleResult::Message(ResponseData { result: message.value.wrapping_mul(self.multiplier) })
    }
}

impl Handler<ResponseData> for Consumer {
    type Reply = ();

    open spec fn handled(self, message: ResponseData) -> (Self, HandleResult<()>) {
        (
            Consumer {
                total: self.total.wrapping_add(message.result),
                responses_received: self.responses_received.wrapping_add(1),
            },
            HandleResult::Message(()),
        )
    }

    fn handle(&mut self, message: &ResponseData) -> (result: HandleResult<()>) {
        self.total = self.total.wrapping_add(message.result);
        self.responses_received = self.responses_received.wrapping_add(1);
        HandleResult::Message(())
    }
}

impl Handler<PongMessage> for Ping {
    type Reply = PingMessage;

    open spec fn handled(self, message: PongMessage) -> (Self, HandleResult<PingMessage>) {
        if self.count == self.max_count {
            (self, HandleResult::Stop)
        } else {
            (
                Ping { max_count: self.max_count, count: self.count.wrapping_add(1) },
                HandleResult::Message(PingMessage),
            )
        }
    }

    fn handle(&mut self, message: &PongMessage) -> (result: HandleResult<PingMessage>) {
        if self.count == self.max_count {
            HandleResult::Stop
        } else {
            self.count = self.count.wrapping_add(1);
            HandleResult::Message(PingMessage)
        }
    }
}

impl Handler<PingMessage> for Pong {
    type Reply = PongMessage;

    open spec fn handled(self, message: PingMessage) -> (Self, HandleResult<PongMessage>) {
        (self, HandleResult::Message(PongMessage))
    }

    fn handle(&mut self, message: &PingMessage) -> (result: HandleResult<PongMessage>) {
        HandleResult::Message(PongMessage)
    }
}

/// Producers and consumers as the agents of one runtime: the kinds of agent
/// are the variants of the one type of user state.
pub enum Worker {
    Producer(Producer),
    Consumer(Consumer),
}

impl LifeCycle for Worker {
    type StartMessage = ();

    type StopMessage = ();

    open spec fn started(self) -> (Self, ()) {
        (self, ())
    }

    open spec fn paused(self) -> Self {
        self
    }

    open spec fn resumed(self) -> Self {
        self
    }

    open spec fn stopped(self) -> (Self, ()) {
        (self, ())
    }

    fn on_start(&mut self) -> (message: ()) {
    }

    fn on_pause(&mut self) {
    }

    fn on_resume(&mut self) {
    }

    fn on_stop(&mut self) -> (message: ()) {
    }
}

/// A producer answers a request; a consumer lets it pass.
impl Handler<RequestData> for Worker {
    type Reply = ResponseData;

    open spec fn handled(self, message: RequestData) -> (Self, HandleResult<ResponseData>) {
        match self {
            Worker::Producer(producer) => (
                Worker::Producer(producer.handled(message).0),
                producer.handled(message).1,
            ),
            Worker::Consumer(_) => (self, HandleResult::NoReply),
        }
    }

    fn handle(&mut self, message: &RequestData) -> (result: HandleResult<ResponseData>) {
        match self {
            Worker::Producer(producer) => producer.handle(message),
            Worker::Consumer(_) => HandleResult::NoReply,
        }
    }
}

/// A consumer takes a response in; a producer lets it pass.
impl Handler<ResponseData> for Worker {
    type Reply = ();

    open spec fn handled(self, message: ResponseData) -> (Self, HandleResult<()>) {
        match self {
            Worker::Producer(_) => (self, HandleResult::NoReply),
            Worker::Consumer(consumer) => (
                Worker::Consumer(consumer.handled(message).0),
                consumer.handled(message).1,
            ),
        }
    }

    fn handle(&mut self, message: &ResponseData) -> (result: HandleResult<()>) {
        match self {
            Worker::Producer(_) => HandleResult::NoReply,
            Worker::Consumer(consumer) => consumer.handle(message),
        }
    }
}

} // verus!
