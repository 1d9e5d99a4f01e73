use serde::de::DeserializeOwned;
use serde_json::Value;
use signalrs::framing::{frame, strip_record_separator};
use signalrs::hub::ArgumentsField;
use signalrs::protocol::{invocation_json, stream_invocation_json, MessageType};
use signalrs::responses::{completion_message, fallible_messages, single_response, stream_item_message};
use signalrs::server::{
    args_from_value, route_server_message, select_args, Args, ArgsSource, HubBuilder, ServerRoute,
};

const RS: &str = "\u{001E}";

fn parse(text: &str) -> Value {
    assert!(text.ends_with(RS));
    serde_json::from_str(strip_record_separator(text)).unwrap()
}

/// The method an invocation message calls.
fn target_of(text: &str) -> String {
    let message = parse(text);
    let kind = MessageType::from_code(message["type"].as_u64().unwrap());
    let target = message.get("target").and_then(|t| t.as_str()).map(|t| t.to_string());
    match route_server_message(kind, target) {
        ServerRoute::Invoke(target) => target,
        _ => panic!("not an invocation"),
    }
}

/// The arguments of an invocation message, read as one value.
fn args_of<T: DeserializeOwned>(text: &str) -> Args<T> {
    let message = parse(text);
    let field = match message.get("arguments") {
        None => ArgumentsField::Missing,
        Some(Value::Array(values)) => ArgumentsField::Array(values.clone()),
        Some(_) => ArgumentsField::NotArray,
    };
    let value: Option<T> = match select_args(field).unwrap() {
        ArgsSource::Single(single) => serde_json::from_value(single).unwrap(),
        ArgsSource::All(all) => serde_json::from_value(Value::Array(all)).unwrap(),
    };
    args_from_value(value).unwrap()
}

fn invocation(id: &str, target: &str, arguments: Vec<&str>) -> String {
    let arguments: Vec<String> = arguments.into_iter().map(|a| a.to_string()).collect();
    frame(invocation_json(Some(id), target, Some(&arguments), &Vec::new()).unwrap())
}

fn stream_invocation(id: &str, target: &str, arguments: Vec<&str>) -> String {
    let arguments: Vec<String> = arguments.into_iter().map(|a| a.to_string()).collect();
    frame(stream_invocation_json(id, target, &arguments, &Vec::new()).unwrap())
}

/// The messages an infallible stream is answered with.
fn forward_infallible(id: &str, items: Vec<usize>) -> Vec<String> {
    let mut out: Vec<String> = items
        .into_iter()
        .map(|item| stream_item_message(id, &item.to_string()).unwrap())
        .collect();
    out.push(completion_message(id, None, None).unwrap());
    out
}

fn add(Args((a, b)): Args<(i32, i32)>) -> i32 {
    a + b
}

#[test]
fn test_add() {
    let hub = HubBuilder::<fn(Args<(i32, i32)>) -> i32, Args<(i32, i32)>>::new()
        .method("add", add)
        .build();
    let invocation = invocation("123", "add", vec!["1", "2"]);

    let method = hub.callable(&target_of(&invocation)).unwrap();
    let result = (method.handler())(args_of(&invocation));
    let response = single_response("123", &Ok(serde_json::to_string(&result).unwrap())).unwrap();

    assert_eq!(parse(&response), parse(&format!("{{\"type\":3,\"invocationId\":\"123\",\"result\":3}}{RS}")));
}

const EXPECTED_MESSAGE: &str = "It didn't work!";

fn single_result_failure(Args((_, _)): Args<(i32, i32)>) -> Result<(), String> {
    Err(EXPECTED_MESSAGE.to_owned())
}

#[test]
fn test_single_result_failure() {
    let hub = HubBuilder::<fn(Args<(i32, i32)>) -> Result<(), String>, Args<(i32, i32)>>::new()
        .method("single_result_failure", single_result_failure)
        .build();
    let invocation = invocation("123", "single_result_failure", vec!["1", "2"]);

    let method = hub.callable(&target_of(&invocation)).unwrap();
    let outcome = (method.handler())(args_of(&invocation))
        .map(|value| serde_json::to_string(&value).unwrap());
    let response = single_response("123", &outcome).unwrap();

    assert_eq!(
        parse(&response),
        parse(&format!("{{\"type\":3,\"invocationId\":\"123\",\"error\":\"It didn't work!\"}}{RS}"))
    );
}

fn batched(Args(count): Args<usize>) -> Vec<usize> {
    std::iter::successors(Some(0usize), |p| Some(p + 1)).take(count).collect::<Vec<usize>>()
}

#[test]
fn test_batched() {
    let hub = HubBuilder::<fn(Args<usize>) -> Vec<usize>, Args<usize>>::new()
        .method("batched", batched)
        .build();
    let invocation = invocation("123", "batched", vec!["5"]);

    let method = hub.callable(&target_of(&invocation)).unwrap();
    let result = (method.handler())(args_of(&invocation));
    let response = single_response("123", &Ok(serde_json::to_string(&result).unwrap())).unwrap();

    assert_eq!(
        parse(&response),
        parse(&format!("{{\"type\":3,\"invocationId\":\"123\",\"result\":[0,1,2,3,4]}}{RS}"))
    );
}

fn stream(Args(count): Args<usize>) -> Vec<usize> {
    (0..count).collect()
}

#[test]
fn test_stream() {
    let hub = HubBuilder::<fn(Args<usize>) -> Vec<usize>, Args<usize>>::new()
        .method("stream", stream)
        .build();
    let invocation = stream_invocation("123", "stream", vec!["3"]);

    let method = hub.callable(&target_of(&invocation)).unwrap();
    let rx = forward_infallible("123", (method.handler())(args_of(&invocation)));

    assert_eq!(rx.len(), 4);
    assert_eq!(parse(&rx[0]), parse(&format!("{{\"type\":2,\"invocationId\":\"123\",\"item\":0}}{RS}")));
    assert_eq!(parse(&rx[1]), parse(&format!("{{\"type\":2,\"invocationId\":\"123\",\"item\":1}}{RS}")));
    assert_eq!(parse(&rx[2]), parse(&format!("{{\"type\":2,\"invocationId\":\"123\",\"item\":2}}{RS}")));
    assert_eq!(parse(&rx[3]), parse(&format!("{{\"type\":3,\"invocationId\":\"123\"}}{RS}")));
}

fn stream_failure(Args(count): Args<usize>) -> Vec<Result<usize, String>> {
    let mut results: Vec<Result<usize, String>> = (0..count).map(Ok).collect();
    results.push(Err("Ran out of data!".to_string()));
    results
}

#[test]
fn test_stream_failure() {
    let hub = HubBuilder::<fn(Args<usize>) -> Vec<Result<usize, String>>, Args<usize>>::new()
        .method("stream_failure", stream_failure)
        .build();
    let invocation = stream_invocation("123", "stream_failure", vec!["3"]);

    let method = hub.callable(&target_of(&invocation)).unwrap();
    let results: Vec<Result<String, String>> = (method.handler())(args_of(&invocation))
        .into_iter()
        .map(|r| r.map(|item| serde_json::to_string(&item).unwrap()))
        .collect();
    let rx = fallible_messages("123", &results);

    assert_eq!(rx.len(), 4);
    assert_eq!(parse(&rx[0]), parse(&format!("{{\"type\":2,\"invocationId\":\"123\",\"item\":0}}{RS}")));
    assert_eq!(parse(&rx[1]), parse(&format!("{{\"type\":2,\"invocationId\":\"123\",\"item\":1}}{RS}")));
    assert_eq!(parse(&rx[2]), parse(&format!("{{\"type\":2,\"invocationId\":\"123\",\"item\":2}}{RS}")));
    assert_eq!(
        parse(&rx[3]),
        parse(&format!("{{\"type\":3,\"invocationId\":\"123\",\"error\":\"Ran out of data!\"}}{RS}"))
    );
}
