use signalrs::client::Frame;
use signalrs::hub::{ArgumentsField, ExtractionError};
use signalrs::protocol::MessageType;
use signalrs::server::{
    args_from_value, handshake_response, route_server_message, select_args, Args, ArgsSource,
    HandshakeRequest, HubBuilder, HubInvocation, Payload, PipelineState, ServerRoute, take_upload, apply_route, ServerEffect, ServerAction, ServerEvent, ServerLoop,
};

const RS: &str = "\u{001E}";

pub async fn identity(Args(a): Args<i32>) -> i32 {
    a
}

#[test]
fn test() {
    let hub = HubBuilder::<_, Args<i32>>::new()
        .method("identity", identity)
        .method("identity2", identity)
        .build();

    assert!(hub.methods().len() == 2);
}

#[test]
fn builder_marks_streaming_methods_cancellable() {
    let hub = HubBuilder::<_, ()>::new()
        .method("plain", 1)
        .streaming_method("stream", 2)
        .method("plain", 3)
        .build();
    assert_eq!(hub.methods().len(), 2);
    let plain = hub.callable("plain").unwrap();
    assert_eq!(*plain.handler(), 3);
    assert!(!plain.is_cancellable());
    assert!(hub.callable("stream").unwrap().is_cancellable());
    assert!(hub.callable("missing").is_none());
}

#[test]
fn handshake_accepts_only_json() {
    assert_eq!(handshake_response(Ok(HandshakeRequest::new("json".to_string()))), format!("{{}}{RS}"));
    let refused = handshake_response(Ok(HandshakeRequest::new("messagepack".to_string())));
    assert_eq!(refused, format!("{{\"error\":\"Unsupported protocol\"}}{RS}"));
    let unreadable = handshake_response(Err("expected value at line 1 column 1".to_string()));
    assert_eq!(unreadable, format!("{{\"error\":\"expected value at line 1 column 1\"}}{RS}"));
    assert!(HandshakeRequest::new("json".to_string()).is_json());
}

#[test]
fn server_routes() {
    match route_server_message(MessageType::Invocation, Some("add".to_string())) {
        ServerRoute::Invoke(t) => assert_eq!(t, "add"),
        _ => panic!(),
    }
    match route_server_message(MessageType::StreamInvocation, None) {
        ServerRoute::Invoke(t) => assert_eq!(t, ""),
        _ => panic!(),
    }
    assert!(matches!(route_server_message(MessageType::CancelInvocation, None), ServerRoute::Cancel));
    assert!(matches!(route_server_message(MessageType::StreamItem, None), ServerRoute::StreamItem));
    assert!(matches!(route_server_message(MessageType::Completion, None), ServerRoute::CloseUpload));
    assert!(matches!(route_server_message(MessageType::Ping, None), ServerRoute::Ping));
    assert!(matches!(route_server_message(MessageType::Close, None), ServerRoute::Close));
    assert!(matches!(route_server_message(MessageType::Other, None), ServerRoute::Unknown));
}

#[test]
fn args_selection() {
    match select_args(ArgumentsField::Array(vec![5])) {
        Ok(ArgsSource::Single(v)) => assert_eq!(v, 5),
        _ => panic!(),
    }
    match select_args(ArgumentsField::Array(vec![1, 2])) {
        Ok(ArgsSource::All(v)) => assert_eq!(v, vec![1, 2]),
        _ => panic!(),
    }
    assert!(matches!(select_args::<i32>(ArgumentsField::Array(vec![])), Err(ExtractionError::MissingArgs)));
    assert!(matches!(select_args::<i32>(ArgumentsField::Missing), Err(ExtractionError::MissingArgs)));
    assert!(matches!(select_args::<i32>(ArgumentsField::NotArray), Err(ExtractionError::MissingArgs)));
    assert!(matches!(args_from_value(Some(3)), Ok(Args(3))));
    assert!(matches!(args_from_value::<i32>(None), Err(ExtractionError::MissingArgs)));
}

#[test]
fn stream_ids_are_taken_in_order() {
    let ids = vec!["a".to_string(), "b".to_string()];
    let mut state = PipelineState::new();
    assert_eq!(state.take_stream_id(Some(&ids)).unwrap(), "a");
    assert_eq!(state.take_stream_id(Some(&ids)).unwrap(), "b");
    assert!(matches!(state.take_stream_id(Some(&ids)), Err(ExtractionError::NotEnoughStreamIds)));
    assert_eq!(state.next_stream_id_index, 2);
    assert!(matches!(state.take_stream_id(None), Err(ExtractionError::MissingStreamIds)));
}

#[test]
fn invocation_text() {
    let invocation = HubInvocation::text("{\"type\":6}".to_string(), ());
    assert!(matches!(invocation.payload, Payload::Text(_)));
    assert_eq!(invocation.unwrap_text(), "{\"type\":6}");
    assert_eq!(invocation.pipeline_state.next_stream_id_index, 0);
}

#[test]
fn upload_sinks_are_registered_under_the_taken_id() {
    let ids = vec!["s1".to_string(), "s2".to_string()];
    let mut state = PipelineState::new();
    let mut sinks: signalrs::connection::UploadSinks<u8> = signalrs::connection::UploadSinks::new();
    assert_eq!(take_upload(&mut state, Some(&ids), &mut sinks, 1).ok(), Some("s1".to_string()));
    assert_eq!(take_upload(&mut state, Some(&ids), &mut sinks, 2).ok(), Some("s2".to_string()));
    assert_eq!(sinks.get_sink("s1"), Some(&1));
    assert_eq!(sinks.get_sink("s2"), Some(&2));
    assert!(matches!(
        take_upload(&mut state, Some(&ids), &mut sinks, 3),
        Err(ExtractionError::NotEnoughStreamIds)
    ));
    assert_eq!(state.next_stream_id_index, 2);
    let mut fresh = PipelineState::new();
    let mut empty: signalrs::connection::UploadSinks<u8> = signalrs::connection::UploadSinks::new();
    assert!(matches!(
        take_upload(&mut fresh, None, &mut empty, 4),
        Err(ExtractionError::MissingStreamIds)
    ));
    assert!(empty.get_sink("s1").is_none());
    assert_eq!(fresh.next_stream_id_index, 0);
}

#[test]
fn routes_act_on_the_registries() {
    let mut inflight: signalrs::connection::InflightInvocations<u8> =
        signalrs::connection::InflightInvocations::new();
    let mut sinks: signalrs::connection::UploadSinks<u8> = signalrs::connection::UploadSinks::new();
    inflight.insert("i1".to_string(), 7);
    sinks.insert("s1".to_string(), 9);

    match apply_route(ServerRoute::Invoke("add".to_string()), "", &mut inflight, &mut sinks) {
        ServerEffect::Invoke(t) => assert_eq!(t, "add"),
        _ => panic!("expected an invocation"),
    }
    assert!(matches!(apply_route(ServerRoute::Cancel, "i1", &mut inflight, &mut sinks), ServerEffect::Abort(Some(7))));
    assert!(inflight.get("i1").is_none());
    assert!(matches!(apply_route(ServerRoute::Cancel, "i1", &mut inflight, &mut sinks), ServerEffect::Abort(None)));
    assert!(matches!(apply_route(ServerRoute::StreamItem, "s1", &mut inflight, &mut sinks), ServerEffect::UploadItem));
    assert_eq!(sinks.get_sink("s1"), Some(&9));
    assert!(matches!(apply_route(ServerRoute::CloseUpload, "s1", &mut inflight, &mut sinks), ServerEffect::UploadClosed));
    assert!(sinks.get_sink("s1").is_none());
    assert!(matches!(apply_route(ServerRoute::Ping, "", &mut inflight, &mut sinks), ServerEffect::Pong));
    assert!(matches!(apply_route(ServerRoute::Close, "", &mut inflight, &mut sinks), ServerEffect::Nothing));
    assert!(matches!(apply_route(ServerRoute::Unknown, "", &mut inflight, &mut sinks), ServerEffect::Nothing));
}

#[test]
fn connection_loop_of_the_server() {
    let mut refused = ServerLoop::new();
    assert!(matches!(refused.step(ServerEvent::Received(Some(Frame::Ping(vec![1])))), ServerAction::Stop));
    assert!(!refused.handshake_done);
    assert!(matches!(ServerLoop::new().step(ServerEvent::ReceiveError), ServerAction::Stop));
    assert!(matches!(ServerLoop::new().step(ServerEvent::Received(None)), ServerAction::Stop));

    let mut state = ServerLoop::new();
    match state.step(ServerEvent::Received(Some(Frame::Text("{\"protocol\":\"json\",\"version\":1}".to_string())))) {
        ServerAction::Handshake(t) => assert!(t.contains("json")),
        _ => panic!("expected the handshake"),
    }
    assert!(state.handshake_done);
    match state.step(ServerEvent::Received(Some(Frame::Text("m".to_string())))) {
        ServerAction::Invoke(t) => assert_eq!(t, "m"),
        _ => panic!("expected an invocation"),
    }
    match state.step(ServerEvent::Received(Some(Frame::Ping(vec![3])))) {
        ServerAction::Pong(p) => assert_eq!(p, vec![3]),
        _ => panic!("expected a pong"),
    }
    match state.step(ServerEvent::Outgoing(Some("r".to_string()))) {
        ServerAction::Send(t) => assert_eq!(t, "r"),
        _ => panic!("expected a send"),
    }
    assert!(matches!(state.step(ServerEvent::Outgoing(None)), ServerAction::Nothing));
    assert!(matches!(state.step(ServerEvent::ReceiveError), ServerAction::Nothing));
    assert!(matches!(state.step(ServerEvent::Received(Some(Frame::Close))), ServerAction::Nothing));
    assert!(matches!(state.step(ServerEvent::Received(None)), ServerAction::Stop));
}
