use signalrs::messages::{ClientMessage, MessageEncoding};
use signalrs::responses::{completion_message, single_response, stream_item_message};
use signalrs::streams::{AppendCompletion, ChainIf, ChainStep, Polled, TakeWhileInclusive};

const RS: &str = "\u{001E}";

fn parse(text: &str) -> serde_json::Value {
    serde_json::from_str(text.trim_end_matches(RS)).unwrap()
}

/// Drives `TakeWhileInclusive` over `items` the way a stream driver does.
fn take_while_inclusive(items: Vec<i32>, pred: fn(&i32) -> bool) -> Vec<i32> {
    let mut adaptor = TakeWhileInclusive::new(items.into_iter(), pred);
    let mut out = Vec::new();
    loop {
        let next = adaptor.stream_mut().next();
        let (polled, satisfied) = match next {
            Some(x) => {
                let s = (adaptor.predicate())(&x);
                (Polled::Item(x), s)
            }
            None => (Polled::End, false),
        };
        match adaptor.on_poll(polled, satisfied) {
            Polled::Item(x) => out.push(x),
            Polled::End => break,
            Polled::Pending => unreachable!(),
        }
    }
    out
}

#[test]
fn take_while_inclusive_keeps_the_first_failing_item() {
    assert_eq!(take_while_inclusive(vec![1, 2, 3, 10, 4], |x| *x < 3), vec![1, 2, 3]);
    assert_eq!(take_while_inclusive(vec![1, 2], |x| *x < 3), vec![1, 2]);
    assert_eq!(take_while_inclusive(vec![5, 1], |x| *x < 3), vec![5]);
    assert_eq!(take_while_inclusive(vec![], |x| *x < 3), Vec::<i32>::new());
}

#[test]
fn take_while_inclusive_passes_pending_on() {
    let mut adaptor = TakeWhileInclusive::new((), ());
    assert_eq!(adaptor.on_poll::<i32>(Polled::Pending, true), Polled::Pending);
    assert_eq!(adaptor.on_poll(Polled::Item(1), false), Polled::Item(1));
    assert_eq!(adaptor.on_poll(Polled::Item(2), true), Polled::End);
}

fn chain_if(first: Vec<i32>, second: Vec<i32>, cond: fn(&i32) -> bool) -> Vec<i32> {
    let mut adaptor = ChainIf::new(first.into_iter(), cond, second.into_iter());
    let mut out = Vec::new();
    loop {
        let next = adaptor.stream_mut().next();
        let (polled, satisfied) = match next {
            Some(x) => {
                let s = (adaptor.condition())(&x);
                (Polled::Item(x), s)
            }
            None => (Polled::End, false),
        };
        match adaptor.on_first_poll(polled, satisfied) {
            ChainStep::Yield(x) => out.push(x),
            ChainStep::PollNext => match adaptor.next_stream_mut().next() {
                Some(x) => out.push(x),
                None => break,
            },
            ChainStep::End => break,
            ChainStep::Pending => unreachable!(),
        }
    }
    out
}

#[test]
fn chain_if_chains_after_a_satisfying_last_item() {
    assert_eq!(chain_if(vec![1, 2], vec![9, 8], |x| *x == 2), vec![1, 2, 9, 8]);
    assert_eq!(chain_if(vec![2, 1], vec![9], |x| *x == 2), vec![2, 1]);
    assert_eq!(chain_if(vec![], vec![9], |_| true), Vec::<i32>::new());
}

#[test]
fn append_completion_closes_the_upload_stream() {
    let mut adaptor = AppendCompletion::new((), "s1".to_string(), MessageEncoding::Json);
    let first = adaptor.on_poll(Polled::Item(Ok(ClientMessage::Json("m1".to_string()))));
    match first {
        Polled::Item(m) => assert_eq!(m.unwrap_text(), "m1"),
        _ => panic!("expected the first message"),
    }
    match adaptor.on_poll(Polled::Pending) {
        Polled::Pending => {}
        _ => panic!("expected pending"),
    }
    match adaptor.on_poll(Polled::End) {
        Polled::Item(m) => {
            assert!(m.unwrap_text().ends_with(RS));
            assert_eq!(parse(m.unwrap_text()), parse(r#"{"type":3,"invocationId":"s1"}"#));
        }
        _ => panic!("expected the completion"),
    }
    assert!(matches!(adaptor.on_poll(Polled::End), Polled::End));
}

#[test]
fn append_completion_reports_the_first_error() {
    let mut adaptor = AppendCompletion::new((), "s2".to_string(), MessageEncoding::Json);
    match adaptor.on_poll(Polled::Item(Err("bad item".to_string()))) {
        Polled::Item(m) => assert_eq!(
            parse(m.unwrap_text()),
            parse(r#"{"type":3,"invocationId":"s2","error":"bad item"}"#)
        ),
        _ => panic!("expected the error completion"),
    }
    assert!(matches!(
        adaptor.on_poll(Polled::Item(Ok(ClientMessage::Json("late".to_string())))),
        Polled::End
    ));
}

#[test]
fn fixed_completions() {
    let adaptor = AppendCompletion::new((), "id".to_string(), MessageEncoding::Json);
    assert_eq!(
        parse(adaptor.get_ok_completion().unwrap_text()),
        parse(r#"{"type":3,"invocationId":"id"}"#)
    );
    assert_eq!(
        parse(adaptor.get_error_completion("e".to_string()).unwrap_text()),
        parse(r#"{"type":3,"invocationId":"id","error":"e"}"#)
    );
    assert_eq!(
        parse(adaptor.get_infallible_completion().unwrap_text()),
        parse(r#"{"type":3,"invocationId":"id","error":"error in a stream"}"#)
    );
}

/// The messages a fallible hub stream is forwarded as, computed with the
/// adaptors in the order the hub composes them.
fn forward_fallible(id: &str, results: Vec<Result<usize, String>>) -> Vec<String> {
    let mut taken = TakeWhileInclusive::new(results.into_iter(), ());
    let mut items: Vec<Result<usize, String>> = Vec::new();
    loop {
        let next = taken.stream_mut().next();
        let (polled, ok) = match next {
            Some(r) => {
                let ok = r.is_ok();
                (Polled::Item(r), ok)
            }
            None => (Polled::End, false),
        };
        match taken.on_poll(polled, ok) {
            Polled::Item(r) => items.push(r),
            _ => break,
        }
    }
    let mut chain = ChainIf::new(items.into_iter(), (), vec![Err::<usize, Option<String>>(None)].into_iter());
    let mut out = Vec::new();
    loop {
        let next = chain.stream_mut().next();
        let (polled, ok) = match next {
            Some(r) => {
                let ok = r.is_ok();
                (Polled::Item(r.map_err(Some)), ok)
            }
            None => (Polled::End, false),
        };
        let element = match chain.on_first_poll(polled, ok) {
            ChainStep::Yield(e) => e,
            ChainStep::PollNext => match chain.next_stream_mut().next() {
                Some(e) => e,
                None => break,
            },
            _ => break,
        };
        let text = match element {
            Ok(item) => stream_item_message(id, &item.to_string()).unwrap(),
            Err(error) => completion_message(id, None, error.as_deref()).unwrap(),
        };
        out.push(text);
    }
    out
}

#[test]
fn stream_scenario() {
    let messages = forward_fallible("123", vec![Ok(0), Ok(1), Ok(2)]);
    assert_eq!(messages.len(), 4);
    assert_eq!(parse(&messages[0]), parse(r#"{"type":2,"invocationId":"123","item":0}"#));
    assert_eq!(parse(&messages[2]), parse(r#"{"type":2,"invocationId":"123","item":2}"#));
    assert_eq!(parse(&messages[3]), parse(r#"{"type":3,"invocationId":"123"}"#));
}

#[test]
fn stream_failure_scenario() {
    let messages = forward_fallible(
        "123",
        vec![Ok(0), Ok(1), Ok(2), Err("Ran out of data!".to_string()), Ok(3)],
    );
    assert_eq!(messages.len(), 4);
    assert_eq!(parse(&messages[1]), parse(r#"{"type":2,"invocationId":"123","item":1}"#));
    assert_eq!(
        parse(&messages[3]),
        parse(r#"{"type":3,"invocationId":"123","error":"Ran out of data!"}"#)
    );
}

#[test]
fn empty_fallible_stream_sends_nothing() {
    assert!(forward_fallible("123", vec![]).is_empty());
    assert!(signalrs::responses::fallible_messages("123", &vec![]).is_empty());
}

#[test]
fn fallible_messages_agree_with_the_adaptors() {
    let cases: Vec<Vec<Result<usize, String>>> = vec![
        vec![Ok(0), Ok(1)],
        vec![Ok(0), Err("e".to_string()), Ok(2)],
        vec![Err("first".to_string())],
    ];
    for results in cases {
        let texts: Vec<Result<String, String>> =
            results.iter().map(|r| r.as_ref().map(|i| i.to_string()).map_err(|e| e.clone())).collect();
        assert_eq!(signalrs::responses::fallible_messages("9", &texts), forward_fallible("9", results));
    }
}

#[test]
fn single_results() {
    let add = single_response("123", &Ok("3".to_string())).unwrap();
    assert!(add.ends_with(RS));
    assert_eq!(parse(&add), parse(r#"{"type":3,"invocationId":"123","result":3}"#));
    let batched = single_response("123", &Ok("[0,1,2,3,4]".to_string())).unwrap();
    assert_eq!(parse(&batched), parse(r#"{"type":3,"invocationId":"123","result":[0,1,2,3,4]}"#));
    let failure = single_response("123", &Err("It didn't work!".to_string())).unwrap();
    assert_eq!(
        parse(&failure),
        parse(r#"{"type":3,"invocationId":"123","error":"It didn't work!"}"#)
    );
}
