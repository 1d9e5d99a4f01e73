use signalrs::client::{
    command_for, completion_outcome, handshake_outcome, receive_completion, receive_stream_item,
    require_result, route_message, stream_item_sent, stream_reaction, ClientError, Command, Event,
    Frame, HandshakeError, HandshakeReply, HubAction, HubEvent, HubLoop, Reaction, ReceiveError,
    Route, RoutingData, StreamReaction, TransportState, LIFE_SIGN_TIMEOUT_MS, PING_INTERVAL_MS,
};
use signalrs::connection::{ClientStreamMap, InflightInvocations, Invocations, UploadSinks};
use signalrs::hub::{get_arguments, ArgumentsField, ArgumentsLeft, ExtractionError, Hub, HubError};
use signalrs::invocation::{args_as_option, InvocationArgs, InvocationBuilder};
use signalrs::messages::ClientMessage;
use signalrs::protocol::{Completion, MessageType};

const RS: &str = "\u{001E}";

fn routing(t: MessageType, id: Option<&str>) -> RoutingData {
    RoutingData { invocation_id: id.map(|s| s.to_string()), message_type: t }
}

#[test]
fn client_routes() {
    assert!(matches!(route_message(routing(MessageType::Invocation, None)), Ok(Route::Invocation)));
    match route_message(routing(MessageType::Completion, Some("1"))) {
        Ok(Route::Completion(id)) => assert_eq!(id, "1"),
        _ => panic!(),
    }
    match route_message(routing(MessageType::Completion, None)) {
        Err(ClientError::ProtocolError { message }) => {
            assert_eq!(message, "received completion without invocation id")
        }
        _ => panic!(),
    }
    match route_message(routing(MessageType::StreamItem, None)) {
        Err(ClientError::ProtocolError { message }) => {
            assert_eq!(message, "received stream item without stream id")
        }
        _ => panic!(),
    }
    let close = route_message(routing(MessageType::Close, None)).unwrap();
    assert_eq!(command_for(&close), Command::Close);
    assert_eq!(Event::from_command(command_for(&close)), Event::Close);
    let ping = route_message(routing(MessageType::Ping, None)).unwrap();
    assert_eq!(command_for(&ping), Command::Continue);
    assert!(matches!(
        route_message(routing(MessageType::CancelInvocation, None)),
        Ok(Route::Unsupported(MessageType::CancelInvocation))
    ));
}

#[test]
fn awaited_invocations() {
    let mut invocations: Invocations<u32> = Invocations::new();
    invocations.insert_invocation("a".to_string(), 1);
    invocations.insert_stream_invocation("b".to_string(), 2);
    assert_eq!(invocations.len(), 2);
    assert_eq!(receive_stream_item(&invocations, "b"), Some(&2));
    assert_eq!(receive_completion(&mut invocations, "a"), Some(1));
    assert_eq!(receive_completion(&mut invocations, "a"), None);
    invocations.remove_stream_invocation("b");
    assert_eq!(invocations.len(), 0);
    assert_eq!(receive_stream_item(&invocations, "b"), None);
}

#[test]
fn server_registries() {
    let mut inflight: InflightInvocations<&str> = InflightInvocations::new();
    inflight.insert("1".to_string(), "task");
    inflight.insert_token("2".to_string(), "token");
    assert_eq!(inflight.get("2"), Some(&"token"));
    assert_eq!(inflight.cancel("1"), Some("task"));
    assert_eq!(inflight.cancel("1"), None);
    inflight.remove("2");
    assert_eq!(inflight.get("2"), None);

    let mut sinks: UploadSinks<u8> = UploadSinks::new();
    sinks.insert("s".to_string(), 7);
    sinks.insert("s".to_string(), 8);
    assert_eq!(sinks.get_sink("s"), Some(&8));
    sinks.remove("s");
    assert_eq!(sinks.get_sink("s"), None);

    let mut streams: ClientStreamMap<u8> = ClientStreamMap::new();
    streams.insert("x".to_string(), 1);
}

#[test]
fn completion_outcomes() {
    assert!(matches!(completion_outcome(Completion::with_result("1".to_string(), 3)), Ok(Some(3))));
    match completion_outcome::<i32>(Completion::error("1".to_string(), "boom".to_string())) {
        Err(ClientError::Result { message }) => assert_eq!(message, "boom"),
        _ => panic!(),
    }
    assert!(matches!(completion_outcome::<i32>(Completion::ok("1".to_string())), Ok(None)));
    let both = Completion::new("1".to_string(), Some(4), Some("ignored".to_string()));
    assert!(matches!(completion_outcome(both), Ok(Some(4))));
    assert!(matches!(require_result(Some(1)), Ok(1)));
    match require_result::<i32>(None) {
        Err(ClientError::Result { message }) => {
            assert_eq!(message, "expected some result, received empty")
        }
        _ => panic!(),
    }
    assert_eq!(stream_reaction(MessageType::StreamItem), StreamReaction::Item);
    assert_eq!(stream_reaction(MessageType::Completion), StreamReaction::End);
}

#[test]
fn handshake_outcomes() {
    assert!(handshake_outcome(HandshakeReply::Text { error: None }).is_ok());
    assert_eq!(
        handshake_outcome(HandshakeReply::Text { error: Some("no".to_string()) }),
        Err(HandshakeError::Protocol("no".to_string()))
    );
    assert_eq!(
        handshake_outcome(HandshakeReply::NotText),
        Err(HandshakeError::Protocol("incomprehensible handshake response".to_string()))
    );
    assert_eq!(handshake_outcome(HandshakeReply::Ended), Err(HandshakeError::StreamEnded));
}

#[test]
fn transport_reactions() {
    let mut state = TransportState::new();
    assert!(matches!(state.receive(Some(Frame::Text("t".to_string()))), Reaction::Deliver(t) if t == "t"));
    assert!(matches!(state.receive(Some(Frame::Ping(vec![1]))), Reaction::Pong(p) if p == vec![1]));
    assert!(matches!(
        state.receive(Some(Frame::Binary(vec![]))),
        Reaction::Fail(ReceiveError::UnsupportedBinaryProtocol)
    ));
    assert!(matches!(state.receive(Some(Frame::Pong)), Reaction::Nothing));
    assert!(!state.close_requested);
    assert!(matches!(state.receive(Some(Frame::Close)), Reaction::Nothing));
    assert!(state.close_requested);
    assert!(matches!(state.receive(None), Reaction::Fail(ReceiveError::StreamEnded)));
}

#[test]
fn arguments_are_extracted_in_order() {
    let mut args = get_arguments(ArgumentsField::Array(vec![1, 2, 3])).ok().unwrap();
    assert_eq!(args.take().ok(), Some(1));
    assert_eq!(args.take().ok(), Some(2));
    assert_eq!(args.next(), Some(3));
    assert!(matches!(args.take(), Err(ExtractionError::MissingArgs)));
    assert!(matches!(get_arguments::<i32>(ArgumentsField::Missing), Err(ExtractionError::NotAnArray)));
    assert!(matches!(get_arguments::<i32>(ArgumentsField::NotArray), Err(ExtractionError::NotAnArray)));
    let mut empty: ArgumentsLeft<i32> = ArgumentsLeft::from_values(vec![]);
    assert_eq!(empty.next(), None);
}

#[test]
fn client_hub_lookup() {
    let hub = Hub::new().method("Send".to_string(), 1).method("Other".to_string(), 2);
    assert!(hub.has_method("Send"));
    assert_eq!(*hub.find(MessageType::Invocation, Some("Send".to_string())).ok().unwrap(), 1);
    match hub.find(MessageType::Invocation, Some("Nope".to_string())) {
        Err(HubError::Unprocessable { message }) => assert_eq!(message, "target Nope not found"),
        _ => panic!(),
    }
    match hub.find(MessageType::Invocation, None) {
        Err(HubError::Unprocessable { message }) => {
            assert_eq!(message, "Target of invocation missing in request")
        }
        _ => panic!(),
    }
    match hub.find(MessageType::Ping, Some("Send".to_string())) {
        Err(HubError::Unsupported { message }) => {
            assert_eq!(message, "Ping not supported by client-side hub")
        }
        _ => panic!(),
    }
}

#[test]
fn invocation_messages() {
    let builder: InvocationBuilder<Vec<u8>> = InvocationBuilder::new("calculate".to_string());
    let builder = builder
        .arg(InvocationArgs::Argument(Ok("\"Johnny\"".to_string())))
        .ok()
        .unwrap()
        .arg(InvocationArgs::Argument(Ok("1".to_string())))
        .ok()
        .unwrap()
        .arg(InvocationArgs::Stream("5f0e8a1c-0000-4000-8000-000000000001".to_string(), vec![1, 2]))
        .ok()
        .unwrap();
    let sent = builder.send_message().ok().unwrap();
    let text = sent.unwrap_text().trim_end_matches(RS).to_string();
    let value: serde_json::Value = serde_json::from_str(&text).unwrap();
    assert_eq!(value["type"], 1);
    assert_eq!(value["target"], "calculate");
    assert_eq!(value["arguments"][0], "Johnny");
    assert_eq!(value["arguments"][1], 1);
    assert!(value.get("invocationId").is_none());
    let stream_id = value["streamIds"][0].as_str().unwrap().to_string();
    assert_eq!(stream_id, "5f0e8a1c-0000-4000-8000-000000000001");

    let invoked = builder.invoke_message("42").ok().unwrap();
    let value: serde_json::Value =
        serde_json::from_str(invoked.unwrap_text().trim_end_matches(RS)).unwrap();
    assert_eq!(value["invocationId"], "42");

    let streamed = builder.stream_message("43").ok().unwrap();
    let value: serde_json::Value =
        serde_json::from_str(streamed.unwrap_text().trim_end_matches(RS)).unwrap();
    assert_eq!(value["type"], 4);

    let streams = builder.into_streams();
    assert_eq!(streams.len(), 1);
    assert_eq!(streams[0].0, stream_id);
    assert_eq!(streams[0].1, vec![1, 2]);

    assert_eq!(args_as_option(Vec::new()), None);
    assert_eq!(args_as_option(vec!["1".to_string()]), Some(vec!["1".to_string()]));
}

#[test]
fn empty_invocation_has_no_arguments_field() {
    let builder: InvocationBuilder<()> = InvocationBuilder::new("NoEcho".to_string());
    let sent = builder.send_message().ok().unwrap();
    assert_eq!(sent.unwrap_text(), format!("{{\"type\":1,\"target\":\"NoEcho\"}}{RS}"));
}

#[test]
fn unserializable_argument_is_a_malformed_request() {
    let builder: InvocationBuilder<()> = InvocationBuilder::new("echo".to_string());
    let error = serde_json::from_str::<serde_json::Value>("{").unwrap_err();
    let source = signalrs::protocol::SerializationError::Json { source: error };
    match builder.arg(InvocationArgs::Argument(Err(source))) {
        Err(ClientError::Malformed { direction, .. }) => assert_eq!(direction, "request"),
        _ => panic!("expected a malformed request"),
    }
}

#[test]
fn dropped_stream_receiver_ends_the_invocation() {
    let mut invocations: Invocations<u8> = Invocations::new();
    invocations.insert_stream_invocation("a".to_string(), 1);
    invocations.insert_stream_invocation("b".to_string(), 2);
    stream_item_sent(&mut invocations, "a", true);
    assert_eq!(invocations.len(), 2);
    stream_item_sent(&mut invocations, "a", false);
    assert_eq!(invocations.len(), 1);
    assert!(invocations.get("a").is_none());
    assert_eq!(invocations.get("b"), Some(&2));
}

#[test]
fn connection_loop_decisions() {
    let mut hub = HubLoop::new(1_000);
    assert!(matches!(hub.step(HubEvent::Tick, 31_000), HubAction::SendPing));
    assert_eq!(hub.last_life_sign_ms, 1_000);
    match hub.step(HubEvent::Outgoing(Some(ClientMessage::Json("m".to_string()))), 31_500) {
        HubAction::Send(m) => assert_eq!(m.unwrap_text(), "m"),
        _ => panic!("expected a send"),
    }
    assert!(matches!(hub.step(HubEvent::Outgoing(None), 31_600), HubAction::Stop));
    match hub.step(HubEvent::Incoming(Some(Frame::Text("t".to_string()))), 40_000) {
        HubAction::Deliver(m) => assert_eq!(m.unwrap_text(), "t"),
        _ => panic!("expected a delivery"),
    }
    assert_eq!(hub.last_life_sign_ms, 40_000);
    match hub.step(HubEvent::Incoming(Some(Frame::Ping(vec![7]))), 41_000) {
        HubAction::Pong(p) => assert_eq!(p, vec![7]),
        _ => panic!("expected a pong"),
    }
    assert!(matches!(hub.step(HubEvent::Incoming(Some(Frame::Pong)), 42_000), HubAction::Nothing));
    assert!(matches!(hub.step(HubEvent::IncomingError, 43_000), HubAction::Nothing));
    assert_eq!(hub.last_life_sign_ms, 43_000);
    assert!(!hub.expired(43_000 + LIFE_SIGN_TIMEOUT_MS));
    assert!(hub.expired(43_001 + LIFE_SIGN_TIMEOUT_MS));
    assert!(matches!(hub.step(HubEvent::Incoming(Some(Frame::Close)), 44_000), HubAction::Stop));
    assert!(matches!(hub.step(HubEvent::Incoming(None), 45_000), HubAction::Stop));
    assert_eq!(hub.last_life_sign_ms, 44_000);
    assert_eq!(PING_INTERVAL_MS, 30_000);
}
