//! The messages a hub sends back for what its methods return.
//!
//! A single value is answered with one `Completion`; a stream with one
//! `StreamItem` per item and a closing `Completion`.

use vstd::prelude::*;
use crate::framing::{frame, spec_frame};
use crate::protocol::{
    completion_json, opt_view, spec_completion_json, spec_is_clean, spec_is_encoded_message,
    spec_stream_item_json, stream_item_json, strings_view, SerializationError,
};
use crate::streams::{spec_chain_if, spec_take_while_inclusive};

verus! {

/// A response message of a hub: a completion or a stream item.
#[derive(Debug)]
pub enum SignalRResponse<R> {
    /// The end of an invocation.
    Completion(crate::protocol::Completion<R>),
    /// One item of a streamed result.
    StreamItem(crate::protocol::StreamItem<R>),
}

/// The constructor of streamed hub results: `infallible` streams end with a
/// plain completion, `fallible` ones at their first error.
#[derive(Debug)]
pub struct HubStream;

/// A hub result that is still to be awaited.
#[derive(Debug)]
pub struct HubFutureWrapper<T>(pub T);

/// Marks results that can fail.
pub trait Try {

}

/// The framed `StreamItem` message carrying `item` for `invocation_id`.
pub open spec fn spec_item_message(invocation_id: Seq<char>, item: Seq<char>) -> Seq<char> {
    spec_frame(spec_stream_item_json(invocation_id, item))
}

/// The framed `Completion` message for `invocation_id`.
pub open spec fn spec_completion_frame(
    invocation_id: Seq<char>,
    result: Option<Seq<char>>,
    error: Option<Seq<char>>,
) -> Seq<char> {
    spec_frame(spec_completion_json(invocation_id, result, error))
}

/// The framed `StreamItem` message carrying the serialized `item`.
pub fn stream_item_message(invocation_id: &str, item: &str) -> (r: Result<String, SerializationError>)
    ensures
        r is Ok,
        r matches Ok(t) ==> t@ == spec_item_message(invocation_id@, item@),
        r matches Ok(t) ==> spec_is_clean(item@) ==> spec_is_encoded_message(
            spec_stream_item_json(invocation_id@, item@),
        ),
{
    let json = stream_item_json(invocation_id, item)?;
    Ok(frame(json))
}

/// The framed `Completion` message with an optional serialized result and
/// an optional error.
pub fn completion_message(invocation_id: &str, result: Option<&str>, error: Option<&str>) -> (r:
    Result<String, SerializationError>)
    ensures
        r is Ok,
        r matches Ok(t) ==> t@ == spec_completion_frame(
            invocation_id@,
            opt_view(result),
            opt_view(error),
        ),
        r matches Ok(t) ==> (match result {
            Some(v) => spec_is_clean(v@),
            None => true,
        }) ==> spec_is_encoded_message(
            spec_completion_json(invocation_id@, opt_view(result), opt_view(error)),
        ),
{
    let json = completion_json(invocation_id, result, error)?;
    Ok(frame(json))
}

/// The answer to an invocation whose method returned a single value: the
/// completion carries the serialized value, or the error text when the
/// method returned an error.
pub fn single_response(invocation_id: &str, outcome: &Result<String, String>) -> (r: Result<
    String,
    SerializationError,
>)
    ensures
        r is Ok,
        r matches Ok(t) ==> t@ == match outcome {
            Ok(v) => spec_completion_frame(invocation_id@, Some(v@), None),
            Err(e) => spec_completion_frame(invocation_id@, None, Some(e@)),
        },
{
    match outcome {
        Ok(v) => completion_message(invocation_id, Some(v.as_str()), None),
        Err(e) => completion_message(invocation_id, None, Some(e.as_str())),
    }
}

/// The verdicts `is_ok` on each result.
pub open spec fn spec_ok_verdicts(results: Seq<Result<Seq<char>, Seq<char>>>) -> Seq<bool> {
    Seq::new(results.len(), |i: int| results[i] is Ok)
}

/// The message for one result of a fallible stream, after the stream was
/// cut at its first error: a stream item for an item, an error completion
/// for the error.
pub open spec fn spec_fallible_message(invocation_id: Seq<char>, r: Result<Seq<char>, Seq<char>>) -> Seq<char> {
    match r {
        Ok(item) => spec_item_message(invocation_id, item),
        Err(e) => spec_completion_frame(invocation_id, None, Some(e)),
    }
}

/// The messages a fallible stream is forwarded as, step by step as the
/// adaptors compute them: the results up to and including the first error,
/// each as a message, followed by a plain completion exactly when the last
/// of them was an item.
pub open spec fn spec_fallible_pipeline(
    invocation_id: Seq<char>,
    results: Seq<Result<Seq<char>, Seq<char>>>,
) -> Seq<Seq<char>> {
    let taken = spec_take_while_inclusive(results, spec_ok_verdicts(results));
    let closing: Result<Seq<char>, Seq<char>> = Err(Seq::<char>::empty());
    let chained = spec_chain_if(taken, spec_ok_verdicts(taken), seq![closing]);
    Seq::new(
        chained.len(),
        |i: int|
            if i < taken.len() {
                spec_fallible_message(invocation_id, chained[i])
            } else {
                spec_completion_frame(invocation_id, None, None)
            },
    )
}

/// The messages of a fallible stream: a stream item for each item before
/// the first error, then an error completion carrying that error, or a
/// plain completion when there is no error.
pub open spec fn spec_fallible_messages(
    invocation_id: Seq<char>,
    results: Seq<Result<Seq<char>, Seq<char>>>,
) -> Seq<Seq<char>>
    decreases results.len(),
{
    if results.len() == 0 {
        seq![spec_completion_frame(invocation_id, None, None)]
    } else {
        match results[0] {
            Ok(item) => seq![spec_item_message(invocation_id, item)] + spec_fallible_messages(
                invocation_id,
                results.drop_first(),
            ),
            Err(e) => seq![spec_completion_frame(invocation_id, None, Some(e))],
        }
    }
}

proof fn lemma_taken_shape(results: Seq<Result<Seq<char>, Seq<char>>>)
    ensures
        ({
            let taken = spec_take_while_inclusive(results, spec_ok_verdicts(results));
            &&& taken.len() <= results.len()
            &&& forall|i: int| 0 <= i < taken.len() ==> taken[i] == results[i]
            &&& forall|i: int| 0 <= i < taken.len() - 1 ==> (#[trigger] taken[i]) is Ok
            &&& (taken.len() < results.len() ==> taken.len() > 0 && taken.last() is Err)
            &&& (taken.len() == results.len() && results.len() > 0 && taken.last() is Err
                ==> taken.last() == results.last())
            &&& (taken.len() == results.len() ==> forall|i: int|
                0 <= i < results.len() - 1 ==> (#[trigger] results[i]) is Ok)
        }),
    decreases results.len(),
{
    let v = spec_ok_verdicts(results);
    if results.len() > 0 {
        let rest = results.drop_first();
        assert(v.drop_first() =~= spec_ok_verdicts(rest));
        lemma_taken_shape(rest);
        let taken = spec_take_while_inclusive(results, v);
        if results[0] is Ok {
            let t2 = spec_take_while_inclusive(rest, spec_ok_verdicts(rest));
            assert(taken == seq![results[0]] + t2);
            assert forall|i: int| 0 <= i < taken.len() implies taken[i] == results[i] by {
                if i > 0 {
                    assert(taken[i] == t2[i - 1]);
                    assert(rest[i - 1] == results[i]);
                }
            }
            assert forall|i: int| 0 <= i < taken.len() - 1 implies (#[trigger] taken[i]) is Ok by {
                if i > 0 {
                    assert(taken[i] == t2[i - 1]);
                }
            }
            if taken.len() == results.len() {
                assert forall|i: int| 0 <= i < results.len() - 1 implies (
                #[trigger] results[i]) is Ok by {
                    if i > 0 {
                        assert(results[i] == rest[i - 1]);
                    }
                }
            }
        } else {
            assert(taken =~= seq![results[0]]);
        }
    }
}

proof fn lemma_fallible_messages_shape(
    invocation_id: Seq<char>,
    results: Seq<Result<Seq<char>, Seq<char>>>,
)
    ensures
        ({
            let m = spec_fallible_messages(invocation_id, results);
            let taken = spec_take_while_inclusive(results, spec_ok_verdicts(results));
            &&& forall|i: int|
                0 <= i < taken.len() ==> #[trigger] m[i] == spec_fallible_message(
                    invocation_id,
                    taken[i],
                )
            &&& (taken.len() > 0 && taken.last() is Err ==> m.len() == taken.len())
            &&& (!(taken.len() > 0 && taken.last() is Err) ==> m.len() == taken.len() + 1
                && m.last() == spec_completion_frame(invocation_id, None, None))
        }),
    decreases results.len(),
{
    let v = spec_ok_verdicts(results);
    if results.len() > 0 {
        let rest = results.drop_first();
        assert(v.drop_first() =~= spec_ok_verdicts(rest));
        lemma_fallible_messages_shape(invocation_id, rest);
        let taken = spec_take_while_inclusive(results, v);
        let m = spec_fallible_messages(invocation_id, results);
        if results[0] is Ok {
            let t2 = spec_take_while_inclusive(rest, spec_ok_verdicts(rest));
            let m2 = spec_fallible_messages(invocation_id, rest);
            assert(taken == seq![results[0]] + t2);
            assert(m == seq![spec_item_message(invocation_id, results[0]->Ok_0)] + m2);
            assert forall|i: int| 0 <= i < taken.len() implies #[trigger] m[i]
                == spec_fallible_message(invocation_id, taken[i]) by {
                if i > 0 {
                    assert(taken[i] == t2[i - 1]);
                    assert(m[i] == m2[i - 1]);
                }
            }
            if t2.len() > 0 {
                assert(taken.last() == t2.last());
            }
        }
    } else {
        let taken = spec_take_while_inclusive(results, v);
        assert(taken.len() == 0);
    }
}

/// Forwarding a fallible stream sends a stream item for each item before
/// the first error and then exactly one completion: the error completion at
/// the first error, or a plain completion when the stream ends without one.
/// The stream must yield at least one result: an empty fallible stream is
/// forwarded as no message at all.
pub proof fn law_fallible_stream(invocation_id: Seq<char>, results: Seq<Result<Seq<char>, Seq<char>>>)
    requires
        results.len() > 0,
    ensures
        spec_fallible_pipeline(invocation_id, results) == spec_fallible_messages(
            invocation_id,
            results,
        ),
{
    lemma_taken_shape(results);
    lemma_fallible_messages_shape(invocation_id, results);
    let taken = spec_take_while_inclusive(results, spec_ok_verdicts(results));
    let vt = spec_ok_verdicts(taken);
    let closing: Result<Seq<char>, Seq<char>> = Err(Seq::<char>::empty());
    let chained = spec_chain_if(taken, vt, seq![closing]);
    let m = spec_fallible_messages(invocation_id, results);
    assert(taken.len() > 0) by {
        if results[0] is Ok {
            assert(taken == seq![results[0]] + spec_take_while_inclusive(
                results.drop_first(),
                spec_ok_verdicts(results).drop_first(),
            ));
        }
    }
    assert(vt[taken.len() - 1] == taken.last() is Ok);
    assert(spec_fallible_pipeline(invocation_id, results) =~= m);
}

/// Forwarding an empty fallible stream sends nothing.
pub proof fn law_fallible_stream_empty(invocation_id: Seq<char>)
    ensures
        spec_fallible_pipeline(invocation_id, Seq::<Result<Seq<char>, Seq<char>>>::empty()).len()
            == 0,
{
}

/// The results of a fallible stream, as mathematical values.
pub open spec fn spec_results_view(results: Seq<Result<String, String>>) -> Seq<Result<Seq<char>, Seq<char>>> {
    Seq::new(
        results.len(),
        |i: int|
            match results[i] {
                Ok(item) => Ok(item@),
                Err(e) => Err(e@),
            },
    )
}

/// The messages of a fallible stream whose first `i` results are items:
/// those items' messages, then the messages of the rest.
proof fn lemma_fallible_messages_prefix(
    invocation_id: Seq<char>,
    results: Seq<Result<Seq<char>, Seq<char>>>,
    i: int,
)
    requires
        0 <= i <= results.len(),
        forall|k: int| 0 <= k < i ==> (#[trigger] results[k]) is Ok,
    ensures
        spec_fallible_messages(invocation_id, results) == Seq::new(
            i as nat,
            |k: int| spec_item_message(invocation_id, results[k]->Ok_0),
        ) + spec_fallible_messages(invocation_id, results.subrange(i, results.len() as int)),
    decreases i,
{
    if i == 0 {
        assert(results.subrange(0, results.len() as int) =~= results);
        assert(Seq::new(0, |k: int| spec_item_message(invocation_id, results[k]->Ok_0)) + spec_fallible_messages(invocation_id, results) =~= spec_fallible_messages(invocation_id, results));
    } else {
        let rest = results.drop_first();
        assert forall|k: int| 0 <= k < i - 1 implies (#[trigger] rest[k]) is Ok by {
            assert(rest[k] == results[k + 1]);
        }
        lemma_fallible_messages_prefix(invocation_id, rest, i - 1);
        assert(rest.subrange(i - 1, rest.len() as int) =~= results.subrange(i, results.len() as int));
        assert(results[0] is Ok);
        assert(spec_fallible_messages(invocation_id, results) == seq![spec_item_message(invocation_id, results[0]->Ok_0)] + spec_fallible_messages(invocation_id, rest));
        assert(Seq::new(i as nat, |k: int| spec_item_message(invocation_id, results[k]->Ok_0)) =~= seq![spec_item_message(invocation_id, results[0]->Ok_0)] + Seq::new((i - 1) as nat, |k: int| spec_item_message(invocation_id, rest[k]->Ok_0)));
    }
}

/// The messages a fallible stream with these results is forwarded as: a
/// stream item for each item before the first error, then the error
/// completion at the first error, or a plain completion when the stream
/// ends without one; an empty stream is forwarded as nothing.
pub fn fallible_messages(invocation_id: &str, results: &Vec<Result<String, String>>) -> (r: Vec<String>)
    ensures
        strings_view(r@) == spec_fallible_pipeline(invocation_id@, spec_results_view(results@)),
{
    let ghost rs = spec_results_view(results@);
    let mut out: Vec<String> = Vec::new();
    let mut i: usize = 0;
    while i < results.len()
        invariant
            i <= results.len(),
            rs == spec_results_view(results@),
            forall|k: int| 0 <= k < i ==> (#[trigger] rs[k]) is Ok,
            out@.len() == i,
            strings_view(out@) == Seq::new(i as nat, |k: int| spec_item_message(invocation_id@, rs[k]->Ok_0)),
        decreases results.len() - i,
    {
        match &results[i] {
            Ok(item) => {
                let ghost before = out@;
                assert(rs[i as int] is Ok && rs[i as int]->Ok_0 == item@);
                match stream_item_message(invocation_id, item.as_str()) {
                    Ok(t) => out.push(t),
                    Err(_) => {},
                }
                assert(out@.len() == i + 1);
                assert forall|k: int| 0 <= k < i + 1 implies #[trigger] strings_view(out@)[k]
                    == spec_item_message(invocation_id@, rs[k]->Ok_0) by {
                    if k < i {
                        assert(out@[k] == before[k]);
                        assert(strings_view(before)[k] == spec_item_message(invocation_id@, rs[k]->Ok_0));
                    }
                }
                assert(strings_view(out@) =~= Seq::new((i + 1) as nat, |k: int| spec_item_message(invocation_id@, rs[k]->Ok_0)));
            },
            Err(e) => {
                match completion_message(invocation_id, None, Some(e.as_str())) {
                    Ok(t) => out.push(t),
                    Err(_) => {},
                }
                proof {
                    lemma_fallible_messages_prefix(invocation_id@, rs, i as int);
                    let tail = rs.subrange(i as int, rs.len() as int);
                    assert(tail[0] == rs[i as int]);
                    assert(spec_fallible_messages(invocation_id@, tail) == seq![spec_completion_frame(invocation_id@, None, Some(e@))]);
                    assert(strings_view(out@) =~= spec_fallible_messages(invocation_id@, rs));
                    law_fallible_stream(invocation_id@, rs);
                }
                return out;
            },
        }
        i = i + 1;
    }
    if results.len() > 0 {
        match completion_message(invocation_id, None, None) {
            Ok(t) => out.push(t),
            Err(_) => {},
        }
        proof {
            lemma_fallible_messages_prefix(invocation_id@, rs, rs.len() as int);
            assert(rs.subrange(rs.len() as int, rs.len() as int) =~= Seq::<Result<Seq<char>, Seq<char>>>::empty());
            assert(strings_view(out@) =~= spec_fallible_messages(invocation_id@, rs));
            law_fallible_stream(invocation_id@, rs);
        }
    } else {
        proof {
            law_fallible_stream_empty(invocation_id@);
            assert(rs =~= Seq::<Result<Seq<char>, Seq<char>>>::empty());
            assert(strings_view(out@) =~= Seq::<Seq<char>>::empty());
        }
    }
    out
}

} // verus!
