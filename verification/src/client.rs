//! The decisions of a client: where an incoming message goes, what an
//! awaited completion means for the caller, and how the transport reacts to
//! WebSocket frames.

use vstd::prelude::*;
use crate::connection::Invocations;
use crate::hub::HubError;
use crate::messages::ClientMessage;
use crate::protocol::{Completion, MessageType, SerializationError};

verus! {

/// Errors of client operations.
#[derive(Debug)]
pub enum ClientError {
    /// A message could not be serialized or deserialized.
    Malformed { direction: &'static str, source: SerializationError },
    /// An invocation of the client-side hub failed.
    Hub { source: HubError },
    /// The peer violated the protocol.
    ProtocolError { message: String },
    /// The response can no longer be received.
    NoResponse { message: String },
    /// The server answered with an error.
    Result { message: String },
    /// The transport is gone.
    TransportInavailable { message: String },
    /// The handshake failed.
    Handshake { message: String },
}

impl ClientError {
    /// The peer violated the protocol.
    pub fn protocol_violation(message: String) -> (r: ClientError)
        ensures
            r == (ClientError::ProtocolError { message }),
    {
        ClientError::ProtocolError { message }
    }

    /// The response can no longer be received.
    pub fn no_response(message: String) -> (r: ClientError)
        ensures
            r == (ClientError::NoResponse { message }),
    {
        ClientError::NoResponse { message }
    }

    /// A request could not be serialized.
    pub fn malformed_request(source: SerializationError) -> (r: ClientError)
        ensures
            r matches ClientError::Malformed { direction, source: s } && direction@ == "request"@
                && s == source,
    {
        ClientError::Malformed { direction: "request", source }
    }

    /// A response could not be deserialized; the error's direction reads
    /// `request`, the same as for a malformed request.
    pub fn malformed_response(source: SerializationError) -> (r: ClientError)
        ensures
            r matches ClientError::Malformed { direction, source: s } && direction@ == "request"@
                && s == source,
    {
        ClientError::Malformed { direction: "request", source }
    }

    /// The server answered with an error.
    pub fn result(message: String) -> (r: ClientError)
        ensures
            r == (ClientError::Result { message }),
    {
        ClientError::Result { message }
    }

    /// The transport is gone.
    pub fn transport(message: String) -> (r: ClientError)
        ensures
            r == (ClientError::TransportInavailable { message }),
    {
        ClientError::TransportInavailable { message }
    }

    /// The handshake failed.
    pub fn handshake(message: String) -> (r: ClientError)
        ensures
            r == (ClientError::Handshake { message }),
    {
        ClientError::Handshake { message }
    }
}

/// What the transport is asked to do after a message was handled.
#[derive(Debug, Clone, Copy, PartialEq, Eq, Structural)]
pub enum Command {
    /// Go on.
    Continue,
    /// Close the connection.
    Close,
}

/// What the WebSocket loop does after an incoming frame.
#[derive(Debug, Clone, Copy, PartialEq, Eq, Structural)]
pub enum Event {
    /// Stop the loop.
    Close,
    /// Go on.
    Continue,
}

impl Event {
    /// The loop event for a command of the client.
    pub fn from_command(command: Command) -> (r: Event)
        ensures
            r == (match command {
                Command::Continue => Event::Continue,
                Command::Close => Event::Close,
            }),
    {
        match command {
            Command::Continue => Event::Continue,
            Command::Close => Event::Close,
        }
    }
}

/// The routing fields of an incoming message.
#[derive(Debug, Clone)]
pub struct RoutingData {
    /// The `invocationId` field, if present.
    pub invocation_id: Option<String>,
    /// The `type` field.
    pub message_type: MessageType,
}

/// Where an incoming message goes.
#[derive(Debug, Clone)]
pub enum Route {
    /// To the client-side hub.
    Invocation,
    /// To the invocation `id`, which it completes.
    Completion(String),
    /// To the streaming invocation `id`, as its next item.
    StreamItem(String),
    /// Nowhere: a keep-alive.
    Ping,
    /// Nowhere: the server closes the connection.
    Close,
    /// Nowhere: a message type a client does not handle.
    Unsupported(MessageType),
}

/// Where a message with these routing fields goes; a completion or a
/// stream item without an invocation id violates the protocol.
pub fn route_message(routing: RoutingData) -> (r: Result<Route, ClientError>)
    ensures
        match routing.message_type {
            MessageType::Invocation => r matches Ok(Route::Invocation),
            MessageType::Completion => match routing.invocation_id {
                Some(id) => r matches Ok(Route::Completion(i)) && i == id,
                None => r matches Err(ClientError::ProtocolError { message }) && message@
                    == "received completion without invocation id"@,
            },
            MessageType::StreamItem => match routing.invocation_id {
                Some(id) => r matches Ok(Route::StreamItem(i)) && i == id,
                None => r matches Err(ClientError::ProtocolError { message }) && message@
                    == "received stream item without stream id"@,
            },
            MessageType::Ping => r matches Ok(Route::Ping),
            MessageType::Close => r matches Ok(Route::Close),
            other => r matches Ok(Route::Unsupported(t)) && t == other,
        },
{
    match routing.message_type {
        MessageType::Invocation => Ok(Route::Invocation),
        MessageType::Completion => match routing.invocation_id {
            Some(id) => Ok(Route::Completion(id)),
            None => Err(
                ClientError::protocol_violation(
                    String::from_str("received completion without invocation id"),
                ),
            ),
        },
        MessageType::StreamItem => match routing.invocation_id {
            Some(id) => Ok(Route::StreamItem(id)),
            None => Err(
                ClientError::protocol_violation(
                    String::from_str("received stream item without stream id"),
                ),
            ),
        },
        MessageType::Ping => Ok(Route::Ping),
        MessageType::Close => Ok(Route::Close),
        other => Ok(Route::Unsupported(other)),
    }
}

/// The command after a routed message: only a close closes.
pub fn command_for(route: &Route) -> (r: Command)
    ensures
        r == (if route is Close {
            Command::Close
        } else {
            Command::Continue
        }),
{
    match route {
        Route::Close => Command::Close,
        _ => Command::Continue,
    }
}

/// Takes the channel of the invocation a completion is for out of the
/// awaited invocations; an unknown id yields none.
pub fn receive_completion<S>(invocations: &mut Invocations<S>, invocation_id: &str) -> (r: Option<S>)
    ensures
        match r {
            Some(s) => old(invocations)@.contains_key(invocation_id@) && s == old(
                invocations,
            )@[invocation_id@],
            None => !old(invocations)@.contains_key(invocation_id@),
        },
        final(invocations)@ == old(invocations)@.remove(invocation_id@),
{
    invocations.remove_invocation(invocation_id)
}

/// The channel a stream item for `invocation_id` goes to; the invocation
/// stays awaited.
pub fn receive_stream_item<'a, S>(invocations: &'a Invocations<S>, invocation_id: &str) -> (r:
    Option<&'a S>)
    ensures
        match r {
            Some(s) => invocations@.contains_key(invocation_id@) && *s == invocations@[invocation_id@],
            None => !invocations@.contains_key(invocation_id@),
        },
{
    invocations.get(invocation_id)
}

/// After a stream item was handed to the channel of the invocation
/// `invocation_id`: a delivered item leaves the awaited invocations as they
/// are; an item whose receiver is gone ends the awaiting of that
/// invocation.
pub fn stream_item_sent<S>(invocations: &mut Invocations<S>, invocation_id: &str, delivered: bool)
    ensures
        delivered ==> final(invocations)@ == old(invocations)@,
        !delivered ==> final(invocations)@ == old(invocations)@.remove(invocation_id@),
{
    if !delivered {
        invocations.remove_stream_invocation(invocation_id);
    }
}

/// What an awaited completion means for the caller: its result if it has
/// one, otherwise the server's error if it has one, otherwise no result.
pub fn completion_outcome<T>(completion: Completion<T>) -> (r: Result<Option<T>, ClientError>)
    ensures
        match completion.result {
            Some(v) => r == Ok::<Option<T>, ClientError>(Some(v)),
            None => match completion.error {
                Some(e) => r == Err::<Option<T>, ClientError>(ClientError::Result { message: e }),
                None => r == Ok::<Option<T>, ClientError>(None),
            },
        },
{
    if completion.is_result() {
        Ok(Some(completion.unwrap_result()))
    } else if completion.is_error() {
        Err(ClientError::result(completion.unwrap_error()))
    } else {
        Ok(None)
    }
}

/// The result of an invocation that must return a value: an empty
/// completion is an error.
pub fn require_result<T>(outcome: Option<T>) -> (r: Result<T, ClientError>)
    ensures
        match outcome {
            Some(v) => r == Ok::<T, ClientError>(v),
            None => r matches Err(ClientError::Result { message }) && message@
                == "expected some result, received empty"@,
        },
{
    match outcome {
        Some(v) => Ok(v),
        None => Err(ClientError::result(String::from_str("expected some result, received empty"))),
    }
}

/// What a stream of responses does with a message delivered to it.
#[derive(Debug, Clone, Copy, PartialEq, Eq, Structural)]
pub enum StreamReaction {
    /// Yield the item it carries.
    Item,
    /// End the stream.
    End,
}

/// A stream of responses yields the item of a stream item and ends at the
/// completion; no other message is ever delivered to it.
pub fn stream_reaction(message_type: MessageType) -> (r: StreamReaction)
    requires
        message_type == MessageType::StreamItem || message_type == MessageType::Completion,
    ensures
        r == (if message_type == MessageType::StreamItem {
            StreamReaction::Item
        } else {
            StreamReaction::End
        }),
{
    match message_type {
        MessageType::StreamItem => StreamReaction::Item,
        _ => StreamReaction::End,
    }
}

/// Errors of the client's handshake.
#[derive(Debug, Clone, PartialEq, Eq)]
pub enum HandshakeError {
    /// The server refused the handshake, or answered with something else
    /// than text.
    Protocol(String),
    /// The connection ended before the answer.
    StreamEnded,
}

/// The server's answer to the handshake, as received.
#[derive(Debug, Clone)]
pub enum HandshakeReply {
    /// A text frame, with the `error` field of the response it holds.
    Text { error: Option<String> },
    /// Any other frame.
    NotText,
    /// No frame: the connection ended.
    Ended,
}

/// Whether the handshake succeeded: a text answer without error.
pub fn handshake_outcome(reply: HandshakeReply) -> (r: Result<(), HandshakeError>)
    ensures
        match reply {
            HandshakeReply::Text { error: None } => r is Ok,
            HandshakeReply::Text { error: Some(e) } => r == Err::<(), HandshakeError>(
                HandshakeError::Protocol(e),
            ),
            HandshakeReply::NotText => r matches Err(HandshakeError::Protocol(m)) && m@
                == "incomprehensible handshake response"@,
            HandshakeReply::Ended => r == Err::<(), HandshakeError>(HandshakeError::StreamEnded),
        },
{
    match reply {
        HandshakeReply::Text { error: Some(error) } => Err(HandshakeError::Protocol(error)),
        HandshakeReply::Text { error: None } => Ok(()),
        HandshakeReply::NotText => Err(
            HandshakeError::Protocol(String::from_str("incomprehensible handshake response")),
        ),
        HandshakeReply::Ended => Err(HandshakeError::StreamEnded),
    }
}

/// A WebSocket frame, as far as the transport looks into it.
#[derive(Debug, Clone)]
pub enum Frame {
    /// A text frame.
    Text(String),
    /// A binary frame.
    Binary(Vec<u8>),
    /// A ping with its payload.
    Ping(Vec<u8>),
    /// A pong.
    Pong,
    /// A close frame.
    Close,
    /// A raw frame.
    Raw,
}

/// Errors when receiving from the WebSocket.
#[derive(Debug, Clone, Copy, PartialEq, Eq, Structural)]
pub enum ReceiveError {
    /// The connection ended.
    StreamEnded,
    /// A binary frame arrived; only the text protocol is spoken.
    UnsupportedBinaryProtocol,
}

/// What the transport does with a received frame.
#[derive(Debug, Clone)]
pub enum Reaction {
    /// Hand the text on.
    Deliver(String),
    /// Answer with a pong carrying this payload.
    Pong(Vec<u8>),
    /// Nothing to hand on.
    Nothing,
    /// Fail.
    Fail(ReceiveError),
}

/// The WebSocket transport's own state.
#[derive(Debug)]
pub struct TransportState {
    /// Whether the server asked to close the connection.
    pub close_requested: bool,
}

impl TransportState {
    /// A fresh connection.
    pub fn new() -> (r: Self)
        ensures
            !r.close_requested,
    {
        TransportState { close_requested: false }
    }

    /// The reaction to a received frame, or to the end of the frames
    /// (`None`); a close frame marks the connection as closing.
    pub fn receive(&mut self, frame: Option<Frame>) -> (r: Reaction)
        ensures
            match frame {
                None => r matches Reaction::Fail(ReceiveError::StreamEnded),
                Some(Frame::Text(t)) => r matches Reaction::Deliver(d) && d == t,
                Some(Frame::Binary(_)) => r matches Reaction::Fail(
                    ReceiveError::UnsupportedBinaryProtocol,
                ),
                Some(Frame::Ping(p)) => r matches Reaction::Pong(q) && q == p,
                Some(_) => r is Nothing,
            },
            final(self).close_requested == (old(self).close_requested || frame matches Some(
                Frame::Close,
            )),
    {
        match frame {
            None => Reaction::Fail(ReceiveError::StreamEnded),
            Some(Frame::Text(text)) => Reaction::Deliver(text),
            Some(Frame::Binary(_)) => Reaction::Fail(ReceiveError::UnsupportedBinaryProtocol),
            Some(Frame::Ping(data)) => Reaction::Pong(data),
            Some(Frame::Close) => {
                self.close_requested = true;
                Reaction::Nothing
            },
            Some(Frame::Pong) => Reaction::Nothing,
            Some(Frame::Raw) => Reaction::Nothing,
        }
    }
}

/// How often the connection loop pings the server, in milliseconds.
pub const PING_INTERVAL_MS: u64 = 30000;

/// How long the connection loop waits for a sign of life from the server
/// before it gives up, in milliseconds.
pub const LIFE_SIGN_TIMEOUT_MS: u64 = 60000;

/// What happens to the connection loop of a client.
#[derive(Debug)]
pub enum HubEvent {
    /// The ping interval has elapsed.
    Tick,
    /// The next message the client queued, or `None` when the queue ended.
    Outgoing(Option<ClientMessage>),
    /// The next frame from the server, or `None` when the socket ended.
    Incoming(Option<Frame>),
    /// Receiving from the socket failed.
    IncomingError,
}

/// What the connection loop does about an event.
#[derive(Debug)]
pub enum HubAction {
    /// Send a ping to the server.
    SendPing,
    /// Send this message to the server.
    Send(ClientMessage),
    /// Answer a ping with a pong carrying this payload.
    Pong(Vec<u8>),
    /// Hand this message to the client.
    Deliver(ClientMessage),
    /// Leave the loop.
    Stop,
    /// Nothing.
    Nothing,
}

/// The state of a client's connection loop: when the server last showed a
/// sign of life.
#[derive(Debug, Clone, Copy)]
pub struct HubLoop {
    /// The time of the last frame (or receive error) from the server, in
    /// milliseconds.
    pub last_life_sign_ms: u64,
}

impl HubLoop {
    /// A loop started at `now_ms`, which counts as a sign of life.
    pub fn new(now_ms: u64) -> (r: Self)
        ensures
            r.last_life_sign_ms == now_ms,
    {
        HubLoop { last_life_sign_ms: now_ms }
    }

    /// The action for `event`, which happens at `now_ms`: a tick sends a
    /// ping, a queued message is sent, the end of the queue or of the
    /// socket stops the loop; anything received from the server is a sign
    /// of life, and its frame is handed to the client (text and binary),
    /// answered (ping), ends the loop (close) or is ignored.
    pub fn step(&mut self, event: HubEvent, now_ms: u64) -> (r: HubAction)
        ensures
            match event {
                HubEvent::Tick => r is SendPing && final(self).last_life_sign_ms == old(self).last_life_sign_ms,
                HubEvent::Outgoing(None) => r is Stop && final(self).last_life_sign_ms == old(self).last_life_sign_ms,
                HubEvent::Outgoing(Some(m)) => r matches HubAction::Send(x) && x == m && final(self).last_life_sign_ms
                    == old(self).last_life_sign_ms,
                HubEvent::Incoming(None) => r is Stop && final(self).last_life_sign_ms == old(self).last_life_sign_ms,
                HubEvent::Incoming(Some(f)) => final(self).last_life_sign_ms == now_ms && match f {
                    Frame::Text(t) => r matches HubAction::Deliver(m) && m == ClientMessage::Json(t),
                    Frame::Binary(b) => r matches HubAction::Deliver(m) && m == ClientMessage::Binary(
                        b,
                    ),
                    Frame::Ping(p) => r matches HubAction::Pong(q) && q == p,
                    Frame::Pong => r is Nothing,
                    Frame::Close => r is Stop,
                    Frame::Raw => r is Nothing,
                },
                HubEvent::IncomingError => r is Nothing && final(self).last_life_sign_ms == now_ms,
            },
    {
        match event {
            HubEvent::Tick => HubAction::SendPing,
            HubEvent::Outgoing(None) => HubAction::Stop,
            HubEvent::Outgoing(Some(m)) => HubAction::Send(m),
            HubEvent::Incoming(None) => HubAction::Stop,
            HubEvent::Incoming(Some(frame)) => {
                self.last_life_sign_ms = now_ms;
                match frame {
                    Frame::Text(t) => HubAction::Deliver(ClientMessage::Json(t)),
                    Frame::Binary(b) => HubAction::Deliver(ClientMessage::Binary(b)),
                    Frame::Ping(p) => HubAction::Pong(p),
                    Frame::Pong => HubAction::Nothing,
                    Frame::Close => HubAction::Stop,
                    Frame::Raw => HubAction::Nothing,
                }
            },
            HubEvent::IncomingError => {
                self.last_life_sign_ms = now_ms;
                HubAction::Nothing
            },
        }
    }

    /// Whether the server has been silent for longer than the timeout at
    /// `now_ms`; the loop then stops.
    pub fn expired(&self, now_ms: u64) -> (r: bool)
        ensures
            r == (now_ms - self.last_life_sign_ms > LIFE_SIGN_TIMEOUT_MS),
    {
        now_ms > self.last_life_sign_ms && now_ms - self.last_life_sign_ms > LIFE_SIGN_TIMEOUT_MS
    }
}

/// The handle through which invocations are made on a running event loop.
#[derive(Debug)]
pub struct EventLoopHandle {

}

impl EventLoopHandle {
    /// A handle.
    pub fn new() -> (r: EventLoopHandle) {
        EventLoopHandle {  }
    }
}

} // verus!
