//! The decisions of a hub server: the handshake, where an incoming message
//! goes, how the arguments and client streams of an invocation are
//! extracted, and the table of hub methods.

use vstd::prelude::*;
use vstd::string::*;
use core::marker::PhantomData;
use crate::framing::{frame, spec_frame};
use crate::hub::{ArgumentsField, ExtractionError};
use crate::protocol::{
    handshake_response_json, spec_handshake_response_json, strings_view, MessageType,
};
use crate::registry::Registry;
use crate::connection::{InflightInvocations, UploadSinks};
use crate::client::Frame;

verus! {

/// A handshake request: the protocol and its version.
#[derive(Debug, Clone)]
pub struct HandshakeRequest {
    /// The name of the protocol, such as `json`.
    pub protocol: String,
    /// The protocol version.
    pub version: u32,
}

impl HandshakeRequest {
    /// A request for `protocol`, version 1.
    pub fn new(protocol: String) -> (r: Self)
        ensures
            r.protocol == protocol,
            r.version == 1,
    {
        HandshakeRequest { protocol, version: 1 }
    }

    /// Whether the request asks for the JSON protocol.
    pub fn is_json(&self) -> (r: bool)
        ensures
            r == (self.protocol@ == "json"@),
    {
        let json = String::from_str("json");
        self.protocol == json
    }
}

/// The error a handshake answers, if any: none for the JSON protocol, an
/// unsupported-protocol error for any other, the parse error for a request
/// that could not be read.
pub open spec fn spec_handshake_error(request: Result<HandshakeRequest, String>) -> Option<
    Seq<char>,
> {
    match request {
        Ok(req) => if req.protocol@ == "json"@ {
            None
        } else {
            Some("Unsupported protocol"@)
        },
        Err(e) => Some(e@),
    }
}

/// The framed answer to a handshake request, or to a request that could
/// not be read (`Err` with the reason).
pub fn handshake_response(request: Result<HandshakeRequest, String>) -> (r: String)
    ensures
        r@ == spec_frame(spec_handshake_response_json(spec_handshake_error(request))),
{
    let json = match &request {
        Ok(req) => {
            if req.is_json() {
                handshake_response_json(None)
            } else {
                handshake_response_json(Some("Unsupported protocol"))
            }
        },
        Err(e) => handshake_response_json(Some(e.as_str())),
    };
    match json {
        Ok(value) => frame(value),
        Err(_) => String::new(),
    }
}

/// Where a message that reached the server goes.
#[derive(Debug, Clone)]
pub enum ServerRoute {
    /// Call the hub method of this name.
    Invoke(String),
    /// Cancel a running invocation.
    Cancel,
    /// Hand an item to an upload stream.
    StreamItem,
    /// Close an upload stream.
    CloseUpload,
    /// Answer with a ping.
    Ping,
    /// Nothing: a close, which only a server sends.
    Close,
    /// Nothing: a message of unknown type.
    Unknown,
}

/// Where a message with these routing fields goes; an invocation without a
/// target calls the method with the empty name.
pub fn route_server_message(message_type: MessageType, target: Option<String>) -> (r: ServerRoute)
    ensures
        match message_type {
            MessageType::Invocation | MessageType::StreamInvocation => r matches ServerRoute::Invoke(
                t,
            ) && t@ == match target {
                Some(x) => x@,
                None => Seq::<char>::empty(),
            },
            MessageType::CancelInvocation => r is Cancel,
            MessageType::StreamItem => r is StreamItem,
            MessageType::Completion => r is CloseUpload,
            MessageType::Ping => r is Ping,
            MessageType::Close => r is Close,
            MessageType::Other => r is Unknown,
        },
{
    match message_type {
        MessageType::Invocation | MessageType::StreamInvocation => {
            let t = match target {
                Some(t) => t,
                None => String::new(),
            };
            ServerRoute::Invoke(t)
        },
        MessageType::CancelInvocation => ServerRoute::Cancel,
        MessageType::StreamItem => ServerRoute::StreamItem,
        MessageType::Completion => ServerRoute::CloseUpload,
        MessageType::Ping => ServerRoute::Ping,
        MessageType::Close => ServerRoute::Close,
        MessageType::Other => ServerRoute::Unknown,
    }
}

/// What handling a routed message comes to, once the connection's
/// registries have been updated.
#[derive(Debug)]
pub enum ServerEffect<H> {
    /// Call the hub method of this name.
    Invoke(String),
    /// Stop the running invocation with this handle, if it was running.
    Abort(Option<H>),
    /// Hand the item to the sink of its upload stream.
    UploadItem,
    /// The upload stream was closed.
    UploadClosed,
    /// Answer with a ping.
    Pong,
    /// Nothing.
    Nothing,
}

/// Applies a routed message to the registries of its connection: a
/// cancellation forgets the running invocation `invocation_id` and hands
/// its handle out, a completion closes the upload stream `invocation_id`;
/// every other message leaves both registries as they are.
pub fn apply_route<H, K>(
    route: ServerRoute,
    invocation_id: &str,
    inflight: &mut InflightInvocations<H>,
    sinks: &mut UploadSinks<K>,
) -> (r: ServerEffect<H>)
    ensures
        match route {
            ServerRoute::Invoke(t) => r matches ServerEffect::Invoke(x) && x == t,
            ServerRoute::Cancel => r matches ServerEffect::Abort(h) && h == (if old(
                inflight,
            )@.contains_key(invocation_id@) {
                Some(old(inflight)@[invocation_id@])
            } else {
                None
            }),
            ServerRoute::StreamItem => r is UploadItem,
            ServerRoute::CloseUpload => r is UploadClosed,
            ServerRoute::Ping => r is Pong,
            ServerRoute::Close => r is Nothing,
            ServerRoute::Unknown => r is Nothing,
        },
        final(inflight)@ == (if route is Cancel {
            old(inflight)@.remove(invocation_id@)
        } else {
            old(inflight)@
        }),
        final(sinks)@ == (if route is CloseUpload {
            old(sinks)@.remove(invocation_id@)
        } else {
            old(sinks)@
        }),
{
    match route {
        ServerRoute::Invoke(t) => ServerEffect::Invoke(t),
        ServerRoute::Cancel => ServerEffect::Abort(inflight.cancel(invocation_id)),
        ServerRoute::StreamItem => ServerEffect::UploadItem,
        ServerRoute::CloseUpload => {
            sinks.remove(invocation_id);
            ServerEffect::UploadClosed
        },
        ServerRoute::Ping => ServerEffect::Pong,
        ServerRoute::Close => ServerEffect::Nothing,
        ServerRoute::Unknown => ServerEffect::Nothing,
    }
}

/// The arguments of a hub method, deserialized as one value.
#[derive(Debug)]
pub struct Args<T>(pub T);

/// What the arguments of a method are deserialized from.
#[derive(Debug, Clone)]
pub enum ArgsSource<V> {
    /// The only argument.
    Single(V),
    /// All the arguments, as one array.
    All(Vec<V>),
}

/// What `Args` is deserialized from: a single argument on its own, several
/// as one array; no argument, or no argument array, is an error.
pub fn select_args<V>(field: ArgumentsField<V>) -> (r: Result<ArgsSource<V>, ExtractionError>)
    ensures
        match field {
            ArgumentsField::Array(values) => if values@.len() == 1 {
                r matches Ok(ArgsSource::Single(v)) && v == values@[0]
            } else if values@.len() > 1 {
                r matches Ok(ArgsSource::All(vs)) && vs@ == values@
            } else {
                r matches Err(ExtractionError::MissingArgs)
            },
            _ => r matches Err(ExtractionError::MissingArgs),
        },
{
    match field {
        ArgumentsField::Array(values) => {
            if values.len() == 1 {
                let mut values = values;
                let single = values.pop().unwrap();
                Ok(ArgsSource::Single(single))
            } else if values.len() > 1 {
                Ok(ArgsSource::All(values))
            } else {
                Err(ExtractionError::MissingArgs)
            }
        },
        _ => Err(ExtractionError::MissingArgs),
    }
}

/// The arguments, once deserialized; a `null` is a missing argument.
pub fn args_from_value<T>(value: Option<T>) -> (r: Result<Args<T>, ExtractionError>)
    ensures
        match value {
            Some(v) => r matches Ok(Args(a)) && a == v,
            None => r matches Err(ExtractionError::MissingArgs),
        },
{
    match value {
        Some(v) => Ok(Args(v)),
        None => Err(ExtractionError::MissingArgs),
    }
}

/// The state of extracting one invocation: how many client streams have
/// been taken.
#[derive(Debug, Clone, Copy, Default)]
pub struct PipelineState {
    /// The index of the next stream id to take.
    pub next_stream_id_index: usize,
}

/// One extraction of a stream id at `index` from the ids `ids`: the id, if
/// there is one, and the index afterwards.
pub open spec fn spec_take_stream_id(index: nat, ids: Seq<Seq<char>>) -> (Option<Seq<char>>, nat) {
    if index < ids.len() {
        (Some(ids[index as int]), index + 1)
    } else {
        (None, index)
    }
}

/// What `n` successive extractions from index `index` yield.
pub open spec fn spec_take_stream_ids(index: nat, ids: Seq<Seq<char>>, n: nat) -> Seq<
    Option<Seq<char>>,
>
    decreases n,
{
    if n == 0 {
        Seq::<Option<Seq<char>>>::empty()
    } else {
        let (first, next) = spec_take_stream_id(index, ids);
        seq![first] + spec_take_stream_ids(next, ids, (n - 1) as nat)
    }
}

/// Successive extractions of client streams from an invocation take its
/// stream ids in order, one each, and fail once all are taken.
pub proof fn law_stream_ids_in_order(ids: Seq<Seq<char>>, n: nat, start: nat)
    requires
        start <= ids.len(),
    ensures
        spec_take_stream_ids(start, ids, n) == Seq::new(
            n,
            |i: int|
                if start + i < ids.len() {
                    Some(ids[start + i])
                } else {
                    None::<Seq<char>>
                },
        ),
    decreases n,
{
    if n > 0 {
        let next = spec_take_stream_id(start, ids).1;
        law_stream_ids_in_order(ids, (n - 1) as nat, next);
        assert(spec_take_stream_ids(start, ids, n) =~= Seq::new(
            n,
            |i: int|
                if start + i < ids.len() {
                    Some(ids[start + i])
                } else {
                    None::<Seq<char>>
                },
        ));
    } else {
        assert(spec_take_stream_ids(start, ids, n) =~= Seq::new(
            n,
            |i: int|
                if start + i < ids.len() {
                    Some(ids[start + i])
                } else {
                    None::<Seq<char>>
                },
        ));
    }
}

impl PipelineState {
    /// No stream taken yet.
    pub fn new() -> (r: Self)
        ensures
            r.next_stream_id_index == 0,
    {
        PipelineState { next_stream_id_index: 0 }
    }

    /// The id of the next client stream of an invocation with the stream
    /// ids `stream_ids`; an error when the invocation has no stream ids, or
    /// no more of them.
    pub fn take_stream_id(&mut self, stream_ids: Option<&Vec<String>>) -> (r: Result<
        String,
        ExtractionError,
    >)
        ensures
            match stream_ids {
                None => r matches Err(ExtractionError::MissingStreamIds)
                    && final(self).next_stream_id_index == old(self).next_stream_id_index,
                Some(ids) => if old(self).next_stream_id_index < ids@.len() {
                    r matches Ok(id) && id@ == ids@[old(self).next_stream_id_index as int]@
                        && final(self).next_stream_id_index == old(self).next_stream_id_index + 1
                } else {
                    r matches Err(ExtractionError::NotEnoughStreamIds)
                        && final(self).next_stream_id_index == old(self).next_stream_id_index
                },
            },
            stream_ids matches Some(ids) ==> (
                match r {
                    Ok(id) => Some(id@),
                    Err(_) => None,
                },
                final(self).next_stream_id_index as nat,
            ) == spec_take_stream_id(
                old(self).next_stream_id_index as nat,
                strings_view(ids@),
            ),
    {
        match stream_ids {
            None => Err(ExtractionError::MissingStreamIds),
            Some(ids) => {
                let index = self.next_stream_id_index;
                if index < ids.len() {
                    let id = ids[index].clone();
                    self.next_stream_id_index = index + 1;
                    Ok(id)
                } else {
                    Err(ExtractionError::NotEnoughStreamIds)
                }
            },
        }
    }
}

/// Takes the next client stream of an invocation and opens it: the sink is
/// registered under the stream id taken; on an error nothing is registered
/// and no id is taken.
pub fn take_upload<K>(
    state: &mut PipelineState,
    stream_ids: Option<&Vec<String>>,
    sinks: &mut UploadSinks<K>,
    sink: K,
) -> (r: Result<String, ExtractionError>)
    ensures
        match stream_ids {
            None => r matches Err(ExtractionError::MissingStreamIds),
            Some(ids) => if old(state).next_stream_id_index < ids@.len() {
                r matches Ok(id) && id@ == ids@[old(state).next_stream_id_index as int]@
            } else {
                r matches Err(ExtractionError::NotEnoughStreamIds)
            },
        },
        match r {
            Ok(id) => final(sinks)@ == old(sinks)@.insert(id@, sink)
                && final(state).next_stream_id_index == old(state).next_stream_id_index + 1,
            Err(_) => final(sinks)@ == old(sinks)@
                && final(state).next_stream_id_index == old(state).next_stream_id_index,
        },
{
    let taken = state.take_stream_id(stream_ids);
    match taken {
        Ok(id) => {
            sinks.insert(id.clone(), sink);
            Ok(id)
        },
        Err(e) => Err(e),
    }
}

/// The payload of an invocation.
#[derive(Debug)]
pub enum Payload {
    /// A JSON text message.
    Text(String),
    /// A binary message.
    Binary(Vec<u8>),
}

/// An invocation that reached a hub, with the connection's state `St`.
pub struct HubInvocation<St> {
    /// The message.
    pub payload: Payload,
    /// The state of the connection.
    pub hub_state: St,
    /// The state of the extraction of arguments and streams.
    pub pipeline_state: PipelineState,
}

impl<St> HubInvocation<St> {
    /// An invocation of the text message `payload`.
    pub fn text(payload: String, hub_state: St) -> (r: Self)
        ensures
            r.payload matches Payload::Text(p) && p == payload,
            r.hub_state == hub_state,
            r.pipeline_state.next_stream_id_index == 0,
    {
        HubInvocation { payload: Payload::Text(payload), hub_state, pipeline_state: PipelineState::new() }
    }

    /// The text of a text invocation.
    pub fn unwrap_text(&self) -> (r: String)
        requires
            self.payload is Text,
        ensures
            r@ == self.payload->Text_0@,
    {
        match &self.payload {
            Payload::Text(v) => v.clone(),
            Payload::Binary(_) => String::new(),
        }
    }
}

/// A hub method's handler with its arguments' type `T`, and whether its
/// invocations can be cancelled.
#[derive(Debug)]
pub struct IntoCallable<H, T> {
    handler: H,
    cancellable: bool,
    _marker: PhantomData<T>,
}

impl<H, T> IntoCallable<H, T> {
    /// The handler.
    pub closed spec fn spec_handler(&self) -> H {
        self.handler
    }

    /// Whether invocations can be cancelled.
    pub closed spec fn spec_cancellable(&self) -> bool {
        self.cancellable
    }

    /// Wraps `handler`.
    pub fn new(handler: H, cancellable: bool) -> (r: Self)
        ensures
            r.spec_handler() == handler,
            r.spec_cancellable() == cancellable,
    {
        IntoCallable { handler, cancellable, _marker: PhantomData }
    }

    /// The handler.
    pub fn handler(&self) -> (r: &H)
        ensures
            *r == self.spec_handler(),
    {
        &self.handler
    }

    /// Whether invocations can be cancelled.
    pub fn is_cancellable(&self) -> (r: bool)
        ensures
            r == self.spec_cancellable(),
    {
        self.cancellable
    }
}

/// Collects the methods of a hub.
pub struct HubBuilder<H, T> {
    methods: Registry<IntoCallable<H, T>>,
}

/// The methods of a hub, by name.
pub struct Hub<H, T> {
    methods: Registry<IntoCallable<H, T>>,
}

impl<H, T> View for HubBuilder<H, T> {
    type V = Map<Seq<char>, IntoCallable<H, T>>;

    closed spec fn view(&self) -> Map<Seq<char>, IntoCallable<H, T>> {
        self.methods@
    }
}

impl<H, T> View for Hub<H, T> {
    type V = Map<Seq<char>, IntoCallable<H, T>>;

    closed spec fn view(&self) -> Map<Seq<char>, IntoCallable<H, T>> {
        self.methods@
    }
}

impl<H, T> HubBuilder<H, T> {
    /// No methods yet.
    pub fn new() -> (r: Self)
        ensures
            r@ == Map::<Seq<char>, IntoCallable<H, T>>::empty(),
    {
        HubBuilder { methods: Registry::new() }
    }

    /// Adds the method `name`, whose invocations cannot be cancelled.
    pub fn method(self, name: &str, handler: H) -> (r: Self)
        ensures
            r@.dom() == self@.dom().insert(name@),
            r@[name@].spec_handler() == handler,
            !r@[name@].spec_cancellable(),
            forall|k: Seq<char>| k != name@ && #[trigger] self@.contains_key(k) ==> r@[k] == self@[k],
    {
        let callable: IntoCallable<H, T> = IntoCallable::new(handler, false);
        let mut builder = self;
        let _ = builder.methods.insert(name.to_owned(), callable);
        builder
    }

    /// Adds the streaming method `name`, whose invocations can be
    /// cancelled.
    pub fn streaming_method(self, name: &str, handler: H) -> (r: Self)
        ensures
            r@.dom() == self@.dom().insert(name@),
            r@[name@].spec_handler() == handler,
            r@[name@].spec_cancellable(),
            forall|k: Seq<char>| k != name@ && #[trigger] self@.contains_key(k) ==> r@[k] == self@[k],
    {
        let callable: IntoCallable<H, T> = IntoCallable::new(handler, true);
        let mut builder = self;
        let _ = builder.methods.insert(name.to_owned(), callable);
        builder
    }

    /// The hub with the collected methods.
    pub fn build(self) -> (r: Hub<H, T>)
        ensures
            r@ == self@,
    {
        Hub { methods: self.methods }
    }
}

impl<H, T> Hub<H, T> {
    /// The methods of the hub.
    pub fn methods(&self) -> (r: &Registry<IntoCallable<H, T>>)
        ensures
            r@ == self@,
    {
        &self.methods
    }

    /// The method `target`, if the hub has one.
    pub fn callable(&self, target: &str) -> (r: Option<&IntoCallable<H, T>>)
        ensures
            match r {
                Some(c) => self@.contains_key(target@) && *c == self@[target@],
                None => !self@.contains_key(target@),
            },
    {
        self.methods.get(target)
    }
}

/// What happens to the loop serving one client connection.
#[derive(Debug)]
pub enum ServerEvent {
    /// The next frame from the client, or `None` when the socket ended.
    Received(Option<Frame>),
    /// Receiving from the client failed.
    ReceiveError,
    /// The next response queued for the client, or `None` when the queue
    /// ended.
    Outgoing(Option<String>),
}

/// What the connection loop does about an event.
#[derive(Debug)]
pub enum ServerAction {
    /// Answer this handshake request.
    Handshake(String),
    /// Hand this message to the hub.
    Invoke(String),
    /// Send this response to the client.
    Send(String),
    /// Answer a ping with a pong carrying this payload.
    Pong(Vec<u8>),
    /// Leave the loop.
    Stop,
    /// Nothing.
    Nothing,
}

/// The state of the loop serving one client connection: whether the
/// handshake has been made.
#[derive(Debug, Clone, Copy)]
pub struct ServerLoop {
    /// Whether the client's handshake request has been answered.
    pub handshake_done: bool,
}

impl ServerLoop {
    /// A connection that has not made its handshake.
    pub fn new() -> (r: Self)
        ensures
            !r.handshake_done,
    {
        ServerLoop { handshake_done: false }
    }

    /// The action for `event`. Before the handshake the first frame must be
    /// a text, the handshake request; anything else ends the connection.
    /// Afterwards a text goes to the hub, a ping is answered with a pong,
    /// queued responses are sent, the end of the socket stops the loop and
    /// everything else (other frames, receive errors, the end of the queue)
    /// is ignored.
    pub fn step(&mut self, event: ServerEvent) -> (r: ServerAction)
        ensures
            !old(self).handshake_done ==> match event {
                ServerEvent::Received(Some(Frame::Text(t))) => r matches ServerAction::Handshake(x)
                    && x == t && final(self).handshake_done,
                ServerEvent::Outgoing(_) => r is Nothing && !final(self).handshake_done,
                _ => r is Stop && !final(self).handshake_done,
            },
            old(self).handshake_done ==> final(self).handshake_done && match event {
                ServerEvent::Received(Some(Frame::Text(t))) => r matches ServerAction::Invoke(x) && x
                    == t,
                ServerEvent::Received(Some(Frame::Ping(p))) => r matches ServerAction::Pong(q) && q
                    == p,
                ServerEvent::Received(Some(_)) => r is Nothing,
                ServerEvent::Received(None) => r is Stop,
                ServerEvent::ReceiveError => r is Nothing,
                ServerEvent::Outgoing(Some(t)) => r matches ServerAction::Send(x) && x == t,
                ServerEvent::Outgoing(None) => r is Nothing,
            },
    {
        if !self.handshake_done {
            match event {
                ServerEvent::Received(Some(Frame::Text(t))) => {
                    self.handshake_done = true;
                    ServerAction::Handshake(t)
                },
                ServerEvent::Outgoing(_) => ServerAction::Nothing,
                _ => ServerAction::Stop,
            }
        } else {
            match event {
                ServerEvent::Received(Some(Frame::Text(t))) => ServerAction::Invoke(t),
                ServerEvent::Received(Some(Frame::Ping(p))) => ServerAction::Pong(p),
                ServerEvent::Received(Some(_)) => ServerAction::Nothing,
                ServerEvent::Received(None) => ServerAction::Stop,
                ServerEvent::ReceiveError => ServerAction::Nothing,
                ServerEvent::Outgoing(Some(t)) => ServerAction::Send(t),
                ServerEvent::Outgoing(None) => ServerAction::Nothing,
            }
        }
    }
}

} // verus!
