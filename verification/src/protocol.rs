//! The JSON text of SignalR hub-protocol messages.
//!
//! Strings are written as JSON string literals by `serde_json`; payloads
//! (invocation arguments, results and stream items) arrive already
//! serialized and are embedded as they are.

use vstd::prelude::*;
use crate::framing::{law_split_recovers_framed_messages, rs, spec_concat_frames, spec_is_blank, spec_is_whitespace, spec_split_messages};

verus! {

/// `serde_json::Error`, carried through as the source of serialization
/// errors.
#[verifier::external_type_specification]
#[verifier::external_body]
pub struct ExJsonError(serde_json::Error);

/// The lower-case hexadecimal digit of `n` (below 16).
pub open spec fn hex_digit(n: int) -> char {
    seq!['0', '1', '2', '3', '4', '5', '6', '7', '8', '9', 'a', 'b', 'c', 'd', 'e', 'f'][n]
}

/// How one character is written inside a JSON string literal: `"` and `\`
/// behind a backslash; backspace, tab, line feed, form feed and carriage
/// return as `\b`, `\t`, `\n`, `\f`, `\r`; every other character below
/// `U+0020` as `\u00` and two lower-case hex digits; anything else as it
/// is.
pub open spec fn spec_escape_char(c: char) -> Seq<char> {
    if c == '"' {
        seq!['\\', '"']
    } else if c == '\\' {
        seq!['\\', '\\']
    } else if c == '\u{8}' {
        seq!['\\', 'b']
    } else if c == '\t' {
        seq!['\\', 't']
    } else if c == '\n' {
        seq!['\\', 'n']
    } else if c == '\u{c}' {
        seq!['\\', 'f']
    } else if c == '\r' {
        seq!['\\', 'r']
    } else if (c as u32) < 0x20 {
        seq!['\\', 'u', '0', '0', hex_digit(((c as u32) / 16) as int), hex_digit(((c as u32) % 16) as int)]
    } else {
        seq![c]
    }
}

/// The characters of `s`, each written as inside a JSON string literal.
pub open spec fn spec_escape(s: Seq<char>) -> Seq<char>
    decreases s.len(),
{
    if s.len() == 0 {
        Seq::<char>::empty()
    } else {
        spec_escape(s.drop_last()) + spec_escape_char(s.last())
    }
}

/// The JSON string literal of the text `s`: its escaped characters between
/// double quotes.
#[verifier::opaque]
pub open spec fn json_string_literal(s: Seq<char>) -> Seq<char> {
    seq!['"'] + spec_escape(s) + seq!['"']
}

/// An escaped character holds no control character.
proof fn lemma_escape_char_clean(c: char)
    ensures
        spec_is_clean(spec_escape_char(c)),
        spec_escape_char(c).len() >= 1,
{
    let e = spec_escape_char(c);
    assert forall|i: int| 0 <= i < e.len() implies (#[trigger] e[i]) as u32 >= 0x20 by {
        if !(c == '"' || c == '\\' || c == '\u{8}' || c == '\t' || c == '\n' || c == '\u{c}'
            || c == '\r') && (c as u32) < 0x20 {
            let hi = (c as u32) / 16;
            let lo = (c as u32) % 16;
            assert(0 <= hi < 16 && 0 <= lo < 16);
            let digits = seq!['0', '1', '2', '3', '4', '5', '6', '7', '8', '9', 'a', 'b', 'c', 'd', 'e', 'f'];
            assert forall|k: int| 0 <= k < 16 implies (#[trigger] digits[k]) as u32 >= 0x20 by {}
        }
    }
}

/// Escaped text holds no control character.
proof fn lemma_escape_clean(s: Seq<char>)
    ensures
        spec_is_clean(spec_escape(s)),
    decreases s.len(),
{
    if s.len() > 0 {
        lemma_escape_clean(s.drop_last());
        lemma_escape_char_clean(s.last());
        lemma_clean_concat(spec_escape(s.drop_last()), spec_escape_char(s.last()));
    }
}

/// A JSON string literal is quoted at both ends and holds no control
/// character (so no record separator).
pub proof fn lemma_json_string_literal_shape(s: Seq<char>)
    ensures
        json_string_literal(s).len() >= 2,
        json_string_literal(s)[0] == '"',
        json_string_literal(s).last() == '"',
        spec_is_clean(json_string_literal(s)),
{
    reveal(json_string_literal);
    lemma_escape_clean(s);
    let q = seq!['"'];
    assert(spec_is_clean(q));
    lemma_clean_concat(q, spec_escape(s));
    lemma_clean_concat(q + spec_escape(s), q);
}

/// Errors while turning a value into a message.
#[derive(Debug)]
pub enum SerializationError {
    /// The JSON serializer reported an error.
    Json { source: serde_json::Error },
}

/// A text without control characters (all code points at least `U+0020`);
/// in particular it holds no record separator.
pub open spec fn spec_is_clean(s: Seq<char>) -> bool {
    forall|i: int| 0 <= i < s.len() ==> (#[trigger] s[i]) as u32 >= 0x20
}

/// Writes `s` as a JSON string literal with `serde_json::to_string`.
///
/// The contract claims that the call succeeds on every string slice (the
/// serializer writes into a `Vec<u8>`, which never fails) and that the
/// result is `json_string_literal(s)`: `serialize_str` writes the text
/// between double quotes, escaping by the table `ESCAPE` as
/// `spec_escape_char` states.
#[verifier::external_body]
fn json_quote(s: &str) -> (r: Result<String, serde_json::Error>)
    ensures
        r is Ok,
        r matches Ok(q) ==> q@ == json_string_literal(s@),
{
    serde_json::to_string(s)
}

/// The view of an optional string slice.
pub open spec fn opt_view(o: Option<&str>) -> Option<Seq<char>> {
    match o {
        Some(s) => Some(s@),
        None => None,
    }
}

/// `,"name":value` when a value is present, nothing otherwise.
pub open spec fn spec_opt_field(name: Seq<char>, value: Option<Seq<char>>) -> Seq<char> {
    match value {
        Some(v) => name + v,
        None => Seq::<char>::empty(),
    }
}

/// The JSON string literal of an optional text.
pub open spec fn spec_opt_quoted(value: Option<Seq<char>>) -> Option<Seq<char>> {
    match value {
        Some(v) => Some(json_string_literal(v)),
        None => None,
    }
}

/// A `Completion` message (type 3) for `invocation_id`, with an optional
/// serialized result and an optional error text.
pub open spec fn spec_completion_json(
    invocation_id: Seq<char>,
    result: Option<Seq<char>>,
    error: Option<Seq<char>>,
) -> Seq<char> {
    "{\"type\":3,\"invocationId\":"@ + json_string_literal(invocation_id) + spec_opt_field(
        ",\"result\":"@,
        result,
    ) + spec_opt_field(",\"error\":"@, spec_opt_quoted(error)) + "}"@
}

/// A `StreamItem` message (type 2) carrying the serialized `item`.
pub open spec fn spec_stream_item_json(invocation_id: Seq<char>, item: Seq<char>) -> Seq<char> {
    "{\"type\":2,\"invocationId\":"@ + json_string_literal(invocation_id) + ",\"item\":"@ + item
        + "}"@
}

/// A `Ping` message (type 6).
pub open spec fn spec_ping_json() -> Seq<char> {
    "{\"type\":6}"@
}

/// The handshake response: `{}` on success, `{"error":..}` otherwise.
pub open spec fn spec_handshake_response_json(error: Option<Seq<char>>) -> Seq<char> {
    match error {
        None => "{}"@,
        Some(e) => "{\"error\":"@ + json_string_literal(e) + "}"@,
    }
}

/// The handshake request for `protocol`, version 1.
pub open spec fn spec_handshake_request_json(protocol: Seq<char>) -> Seq<char> {
    "{\"protocol\":"@ + json_string_literal(protocol) + ",\"version\":1}"@
}

/// The elements separated by commas.
pub open spec fn spec_join(items: Seq<Seq<char>>) -> Seq<char>
    decreases items.len(),
{
    if items.len() == 0 {
        Seq::<char>::empty()
    } else if items.len() == 1 {
        items[0]
    } else {
        spec_join(items.drop_last()) + ","@ + items.last()
    }
}

/// A JSON array of already serialized elements.
pub open spec fn spec_json_array(items: Seq<Seq<char>>) -> Seq<char> {
    "["@ + spec_join(items) + "]"@
}

/// The JSON string literals of `items`.
pub open spec fn spec_quoted_all(items: Seq<Seq<char>>) -> Seq<Seq<char>> {
    Seq::new(items.len(), |i: int| json_string_literal(items[i]))
}

/// An `Invocation` message (type 1): the optional id, the target, the
/// optional argument list and, when there are any, the stream ids.
pub open spec fn spec_invocation_json(
    invocation_id: Option<Seq<char>>,
    target: Seq<char>,
    arguments: Option<Seq<Seq<char>>>,
    stream_ids: Seq<Seq<char>>,
) -> Seq<char> {
    "{\"type\":1"@ + spec_opt_field(",\"invocationId\":"@, spec_opt_quoted(invocation_id))
        + ",\"target\":"@ + json_string_literal(target) + spec_opt_field(
        ",\"arguments\":"@,
        match arguments {
            Some(a) => Some(spec_json_array(a)),
            None => None,
        },
    ) + spec_opt_field(
        ",\"streamIds\":"@,
        if stream_ids.len() == 0 {
            None
        } else {
            Some(spec_json_array(spec_quoted_all(stream_ids)))
        },
    ) + "}"@
}

/// A `StreamInvocation` message (type 4).
pub open spec fn spec_stream_invocation_json(
    invocation_id: Seq<char>,
    target: Seq<char>,
    arguments: Seq<Seq<char>>,
    stream_ids: Seq<Seq<char>>,
) -> Seq<char> {
    "{\"type\":4,\"invocationId\":"@ + json_string_literal(invocation_id) + ",\"target\":"@
        + json_string_literal(target) + ",\"arguments\":"@ + spec_json_array(arguments)
        + spec_opt_field(
        ",\"streamIds\":"@,
        if stream_ids.len() == 0 {
            None
        } else {
            Some(spec_json_array(spec_quoted_all(stream_ids)))
        },
    ) + "}"@
}

/// Joining clean texts gives a clean text.
pub proof fn lemma_clean_concat(a: Seq<char>, b: Seq<char>)
    requires
        spec_is_clean(a),
        spec_is_clean(b),
    ensures
        spec_is_clean(a + b),
{
    assert forall|i: int| 0 <= i < (a + b).len() implies ((a + b)[i]) as u32 >= 0x20 by {
        if i < a.len() {
            assert((a + b)[i] == a[i]);
        } else {
            assert((a + b)[i] == b[i - a.len()]);
        }
    }
}

/// Writes `s` as a JSON string literal.
pub fn quote(s: &str) -> (r: Result<String, SerializationError>)
    ensures
        r is Ok,
        r matches Ok(q) ==> q@ == json_string_literal(s@),
        r matches Ok(q) ==> spec_is_clean(q@) && q@.len() >= 2 && q@[0] == '"',
{
    match json_quote(s) {
        Ok(q) => {
            proof {
                lemma_json_string_literal_shape(s@);
            }
            Ok(q)
        },
        Err(source) => Err(SerializationError::Json { source }),
    }
}

/// The JSON text of a `Completion` message.
pub fn completion_json(invocation_id: &str, result: Option<&str>, error: Option<&str>) -> (r:
    Result<String, SerializationError>)
    ensures
        r is Ok,
        r matches Ok(t) ==> t@ == spec_completion_json(
            invocation_id@,
            opt_view(result),
            opt_view(error),
        ),
        r matches Ok(t) ==> t@.len() > 0 && t@[0] == '{',
        r matches Ok(t) ==> (match result {
            Some(v) => spec_is_clean(v@),
            None => true,
        }) ==> spec_is_clean(t@),
{
    let id = quote(invocation_id)?;
    let mut t = String::new();
    t.append("{\"type\":3,\"invocationId\":");
    t.append(id.as_str());
    let ghost after_id = t@;
    match result {
        Some(v) => {
            t.append(",\"result\":");
            t.append(v);
            assert(t@ =~= after_id + spec_opt_field(",\"result\":"@, opt_view(result)));
        },
        None => {
            assert(t@ =~= after_id + spec_opt_field(",\"result\":"@, opt_view(result)));
        },
    }
    let ghost after_result = t@;
    match error {
        Some(e) => {
            let qe = quote(e)?;
            t.append(",\"error\":");
            t.append(qe.as_str());
            assert(t@ =~= after_result + spec_opt_field(
                ",\"error\":"@,
                spec_opt_quoted(opt_view(error)),
            ));
        },
        None => {
            assert(t@ =~= after_result + spec_opt_field(
                ",\"error\":"@,
                spec_opt_quoted(opt_view(error)),
            ));
        },
    }
    t.append("}");
    proof {
        reveal_strlit("{\"type\":3,\"invocationId\":");
        reveal_strlit(",\"result\":");
        reveal_strlit(",\"error\":");
        reveal_strlit("}");
        let l0 = "{\"type\":3,\"invocationId\":"@;
        assert(spec_is_clean(l0));
        assert(spec_is_clean(",\"result\":"@));
        assert(spec_is_clean(",\"error\":"@));
        assert(spec_is_clean("}"@));
        assert(t@[0] == l0[0]);
        let clean_result = match result {
            Some(v) => spec_is_clean(v@),
            None => true,
        };
        if clean_result {
            lemma_clean_concat(l0, id@);
            let r = spec_opt_field(",\"result\":"@, opt_view(result));
            if result is Some {
                lemma_clean_concat(",\"result\":"@, result->0@);
            }
            assert(spec_is_clean(r));
            lemma_clean_concat(l0 + id@, r);
            let e = spec_opt_field(",\"error\":"@, spec_opt_quoted(opt_view(error)));
            if error is Some {
                let qe = json_string_literal(error->0@);
                assert(spec_is_clean(qe));
                lemma_clean_concat(",\"error\":"@, qe);
            }
            assert(spec_is_clean(e));
            lemma_clean_concat(l0 + id@ + r, e);
            lemma_clean_concat(l0 + id@ + r + e, "}"@);
            assert(t@ =~= l0 + id@ + r + e + "}"@);
        }
    }
    Ok(t)
}

/// The JSON text of a `StreamItem` message carrying the serialized `item`.
pub fn stream_item_json(invocation_id: &str, item: &str) -> (r: Result<String, SerializationError>)
    ensures
        r is Ok,
        r matches Ok(t) ==> t@ == spec_stream_item_json(invocation_id@, item@),
        r matches Ok(t) ==> t@.len() > 0 && t@[0] == '{',
        r matches Ok(t) ==> spec_is_clean(item@) ==> spec_is_clean(t@),
{
    let id = quote(invocation_id)?;
    let mut t = String::new();
    t.append("{\"type\":2,\"invocationId\":");
    t.append(id.as_str());
    t.append(",\"item\":");
    t.append(item);
    t.append("}");
    proof {
        reveal_strlit("{\"type\":2,\"invocationId\":");
        reveal_strlit(",\"item\":");
        reveal_strlit("}");
        let l0 = "{\"type\":2,\"invocationId\":"@;
        let l1 = ",\"item\":"@;
        assert(spec_is_clean(l0));
        assert(spec_is_clean(l1));
        assert(spec_is_clean("}"@));
        assert(t@ =~= l0 + id@ + l1 + item@ + "}"@);
        assert(t@[0] == l0[0]);
        if spec_is_clean(item@) {
            lemma_clean_concat(l0, id@);
            lemma_clean_concat(l0 + id@, l1);
            lemma_clean_concat(l0 + id@ + l1, item@);
            lemma_clean_concat(l0 + id@ + l1 + item@, "}"@);
        }
    }
    Ok(t)
}

/// The JSON text of a `Ping` message.
pub fn ping_json() -> (r: String)
    ensures
        r@ == spec_ping_json(),
        r@.len() > 0 && r@[0] == '{',
        spec_is_clean(r@),
{
    let mut t = String::new();
    t.append("{\"type\":6}");
    proof {
        reveal_strlit("{\"type\":6}");
        assert(t@ =~= "{\"type\":6}"@);
    }
    t
}

/// The JSON text of a handshake response.
pub fn handshake_response_json(error: Option<&str>) -> (r: Result<String, SerializationError>)
    ensures
        r is Ok,
        r matches Ok(t) ==> t@ == spec_handshake_response_json(opt_view(error)),
        r matches Ok(t) ==> t@.len() > 0 && t@[0] == '{' && spec_is_clean(t@),
{
    let mut t = String::new();
    match error {
        None => {
            t.append("{}");
            proof {
                reveal_strlit("{}");
                assert(t@ =~= "{}"@);
            }
        },
        Some(e) => {
            let qe = quote(e)?;
            t.append("{\"error\":");
            t.append(qe.as_str());
            t.append("}");
            proof {
                reveal_strlit("{\"error\":");
                reveal_strlit("}");
                let l0 = "{\"error\":"@;
                assert(spec_is_clean(l0));
                assert(spec_is_clean("}"@));
                assert(t@ =~= l0 + qe@ + "}"@);
                assert(t@[0] == l0[0]);
                lemma_clean_concat(l0, qe@);
                lemma_clean_concat(l0 + qe@, "}"@);
            }
        },
    }
    Ok(t)
}

/// The JSON text of a handshake request for `protocol`, version 1.
pub fn handshake_request_json(protocol: &str) -> (r: Result<String, SerializationError>)
    ensures
        r is Ok,
        r matches Ok(t) ==> t@ == spec_handshake_request_json(protocol@),
{
    let qp = quote(protocol)?;
    let mut t = String::new();
    t.append("{\"protocol\":");
    t.append(qp.as_str());
    t.append(",\"version\":1}");
    Ok(t)
}

/// The views of a vector of strings.
pub open spec fn strings_view(v: Seq<String>) -> Seq<Seq<char>> {
    Seq::new(v.len(), |i: int| v[i]@)
}

/// A JSON array of already serialized elements.
pub fn json_array(items: &Vec<String>) -> (r: String)
    ensures
        r@ == spec_json_array(strings_view(items@)),
{
    let mut t = String::new();
    t.append("[");
    let ghost views = strings_view(items@);
    let mut i: usize = 0;
    while i < items.len()
        invariant
            i <= items.len(),
            views == strings_view(items@),
            t@ == "["@ + spec_join(views.take(i as int)),
        decreases items.len() - i,
    {
        let ghost before = t@;
        assert(views.take(i + 1).drop_last() =~= views.take(i as int));
        assert(views.take(i + 1).last() == items@[i as int]@);
        if i > 0 {
            t.append(",");
        } else {
            assert(views.take(0) =~= Seq::<Seq<char>>::empty());
        }
        t.append(items[i].as_str());
        proof {
            if i > 0 {
                assert(t@ =~= "["@ + spec_join(views.take(i + 1)));
            } else {
                assert(spec_join(views.take(1)) == views.take(1)[0]);
                assert(t@ =~= "["@ + spec_join(views.take(i + 1)));
            }
        }
        i = i + 1;
    }
    assert(views.take(i as int) =~= views);
    t.append("]");
    t
}

/// The JSON string literals of `items`, in order.
pub fn quote_all(items: &Vec<String>) -> (r: Result<Vec<String>, SerializationError>)
    ensures
        r is Ok,
        r matches Ok(q) ==> strings_view(q@) == spec_quoted_all(strings_view(items@)),
{
    let mut out: Vec<String> = Vec::new();
    let mut i: usize = 0;
    while i < items.len()
        invariant
            i <= items.len(),
            out@.len() == i,
            forall|k: int|
                0 <= k < i ==> #[trigger] out@[k]@ == json_string_literal(items@[k]@),
        decreases items.len() - i,
    {
        let q = quote(items[i].as_str())?;
        out.push(q);
        i = i + 1;
    }
    assert(strings_view(out@) =~= spec_quoted_all(strings_view(items@)));
    Ok(out)
}

/// `,"streamIds":[..]` when there are stream ids, nothing otherwise.
fn stream_ids_field(stream_ids: &Vec<String>) -> (r: Result<String, SerializationError>)
    ensures
        r is Ok,
        r matches Ok(t) ==> t@ == spec_opt_field(
            ",\"streamIds\":"@,
            if stream_ids@.len() == 0 {
                None
            } else {
                Some(spec_json_array(spec_quoted_all(strings_view(stream_ids@))))
            },
        ),
{
    let mut t = String::new();
    if stream_ids.len() > 0 {
        let quoted = quote_all(stream_ids)?;
        let arr = json_array(&quoted);
        t.append(",\"streamIds\":");
        t.append(arr.as_str());
    }
    Ok(t)
}

/// The JSON text of an `Invocation` message.
pub fn invocation_json(
    invocation_id: Option<&str>,
    target: &str,
    arguments: Option<&Vec<String>>,
    stream_ids: &Vec<String>,
) -> (r: Result<String, SerializationError>)
    ensures
        r is Ok,
        r matches Ok(t) ==> t@ == spec_invocation_json(
            opt_view(invocation_id),
            target@,
            match arguments {
                Some(a) => Some(strings_view(a@)),
                None => None,
            },
            strings_view(stream_ids@),
        ),
{
    let mut t = String::new();
    t.append("{\"type\":1");
    let ghost s0 = t@;
    match invocation_id {
        Some(id) => {
            let qid = quote(id)?;
            t.append(",\"invocationId\":");
            t.append(qid.as_str());
        },
        None => {},
    }
    assert(t@ =~= s0 + spec_opt_field(",\"invocationId\":"@, spec_opt_quoted(opt_view(invocation_id))));
    let qt = quote(target)?;
    t.append(",\"target\":");
    t.append(qt.as_str());
    let ghost s1 = t@;
    let ghost args_view = match arguments {
        Some(a) => Some(strings_view(a@)),
        None => None::<Seq<Seq<char>>>,
    };
    match arguments {
        Some(a) => {
            let arr = json_array(a);
            t.append(",\"arguments\":");
            t.append(arr.as_str());
        },
        None => {},
    }
    assert(t@ =~= s1 + spec_opt_field(
        ",\"arguments\":"@,
        match args_view {
            Some(a) => Some(spec_json_array(a)),
            None => None,
        },
    ));
    let ids = stream_ids_field(stream_ids)?;
    t.append(ids.as_str());
    t.append("}");
    Ok(t)
}

/// The JSON text of a `StreamInvocation` message.
pub fn stream_invocation_json(
    invocation_id: &str,
    target: &str,
    arguments: &Vec<String>,
    stream_ids: &Vec<String>,
) -> (r: Result<String, SerializationError>)
    ensures
        r is Ok,
        r matches Ok(t) ==> t@ == spec_stream_invocation_json(
            invocation_id@,
            target@,
            strings_view(arguments@),
            strings_view(stream_ids@),
        ),
{
    let qid = quote(invocation_id)?;
    let qt = quote(target)?;
    let arr = json_array(arguments);
    let ids = stream_ids_field(stream_ids)?;
    let mut t = String::new();
    t.append("{\"type\":4,\"invocationId\":");
    t.append(qid.as_str());
    t.append(",\"target\":");
    t.append(qt.as_str());
    t.append(",\"arguments\":");
    t.append(arr.as_str());
    t.append(ids.as_str());
    t.append("}");
    Ok(t)
}


/// The kinds of hub-protocol messages, by their `type` field.
#[derive(Clone, Copy, Debug, PartialEq, Eq, Structural)]
pub enum MessageType {
    /// 1: a call of a hub method.
    Invocation,
    /// 2: one item of a stream.
    StreamItem,
    /// 3: the end of an invocation, with its result or error.
    Completion,
    /// 4: a call of a streaming hub method.
    StreamInvocation,
    /// 5: the cancellation of a streaming invocation.
    CancelInvocation,
    /// 6: a keep-alive.
    Ping,
    /// 7: the end of the connection.
    Close,
    /// Any other code.
    Other,
}

impl MessageType {
    /// The message type of a `type` code.
    pub open spec fn spec_from_u8(code: u8) -> MessageType {
        if code == 1 {
            MessageType::Invocation
        } else if code == 2 {
            MessageType::StreamItem
        } else if code == 3 {
            MessageType::Completion
        } else if code == 4 {
            MessageType::StreamInvocation
        } else if code == 5 {
            MessageType::CancelInvocation
        } else if code == 6 {
            MessageType::Ping
        } else if code == 7 {
            MessageType::Close
        } else {
            MessageType::Other
        }
    }

    /// The code of a message type; `Other` has none.
    pub open spec fn spec_code(self) -> Option<u8> {
        match self {
            MessageType::Invocation => Some(1u8),
            MessageType::StreamItem => Some(2u8),
            MessageType::Completion => Some(3u8),
            MessageType::StreamInvocation => Some(4u8),
            MessageType::CancelInvocation => Some(5u8),
            MessageType::Ping => Some(6u8),
            MessageType::Close => Some(7u8),
            MessageType::Other => None,
        }
    }

    /// The message type of a `type` code.
    pub fn from_u8(code: u8) -> (r: MessageType)
        ensures
            r == Self::spec_from_u8(code),
    {
        match code {
            1 => MessageType::Invocation,
            2 => MessageType::StreamItem,
            3 => MessageType::Completion,
            4 => MessageType::StreamInvocation,
            5 => MessageType::CancelInvocation,
            6 => MessageType::Ping,
            7 => MessageType::Close,
            _ => MessageType::Other,
        }
    }

    /// The message type of a `type` field read as an unsigned number; only
    /// its lowest byte counts, as in a cast to `u8`.
    pub fn from_code(code: u64) -> (r: MessageType)
        ensures
            r == Self::spec_from_u8((code % 256) as u8),
    {
        Self::from_u8((code % 256) as u8)
    }

    /// The code of a message type; `Other` has none.
    pub fn code(&self) -> (r: Option<u8>)
        ensures
            r == self.spec_code(),
    {
        match self {
            MessageType::Invocation => Some(1),
            MessageType::StreamItem => Some(2),
            MessageType::Completion => Some(3),
            MessageType::StreamInvocation => Some(4),
            MessageType::CancelInvocation => Some(5),
            MessageType::Ping => Some(6),
            MessageType::Close => Some(7),
            MessageType::Other => None,
        }
    }

    /// The name of a message type, as it appears in diagnostics.
    pub open spec fn spec_name(self) -> Seq<char> {
        match self {
            MessageType::Invocation => "Invocation"@,
            MessageType::StreamItem => "StreamItem"@,
            MessageType::Completion => "Completion"@,
            MessageType::StreamInvocation => "StreamInvocation"@,
            MessageType::CancelInvocation => "CancelInvocation"@,
            MessageType::Ping => "Ping"@,
            MessageType::Close => "Close"@,
            MessageType::Other => "Other"@,
        }
    }

    /// The name of a message type, as it appears in diagnostics.
    pub fn name(&self) -> (r: &'static str)
        ensures
            r@ == self.spec_name(),
    {
        match self {
            MessageType::Invocation => "Invocation",
            MessageType::StreamItem => "StreamItem",
            MessageType::Completion => "Completion",
            MessageType::StreamInvocation => "StreamInvocation",
            MessageType::CancelInvocation => "CancelInvocation",
            MessageType::Ping => "Ping",
            MessageType::Close => "Close",
            MessageType::Other => "Other",
        }
    }
}

/// The `streamIds` member a message carries for the upload streams `ids`:
/// the JSON array of their quoted ids, or nothing when there are none.
pub open spec fn spec_stream_ids_member(ids: Seq<Seq<char>>) -> Seq<char> {
    if ids.len() == 0 {
        Seq::<char>::empty()
    } else {
        ",\"streamIds\":"@ + spec_json_array(spec_quoted_all(ids))
    }
}

/// The stream ids of an `Invocation` depend on nothing else: whatever its
/// id, target and arguments (none included), its text is the text without
/// stream ids, with the `streamIds` member of `ids` put before the closing
/// brace.
pub proof fn law_invocation_stream_ids(
    invocation_id: Option<Seq<char>>,
    target: Seq<char>,
    arguments: Option<Seq<Seq<char>>>,
    ids: Seq<Seq<char>>,
)
    ensures
        spec_invocation_json(invocation_id, target, arguments, ids) == spec_invocation_json(
            invocation_id,
            target,
            arguments,
            Seq::<Seq<char>>::empty(),
        ).drop_last() + spec_stream_ids_member(ids) + "}"@,
{
    reveal_strlit("}");
    let args = spec_opt_field(
        ",\"arguments\":"@,
        match arguments {
            Some(a) => Some(spec_json_array(a)),
            None => None,
        },
    );
    let head = "{\"type\":1"@ + spec_opt_field(",\"invocationId\":"@, spec_opt_quoted(invocation_id))
        + ",\"target\":"@ + json_string_literal(target) + args;
    let none: Seq<Seq<char>> = Seq::empty();
    assert(spec_opt_field(
        ",\"streamIds\":"@,
        if ids.len() == 0 {
            None
        } else {
            Some(spec_json_array(spec_quoted_all(ids)))
        },
    ) == spec_stream_ids_member(ids));
    assert(spec_invocation_json(invocation_id, target, arguments, none) == head
        + Seq::<char>::empty() + "}"@);
    assert((head + Seq::<char>::empty() + "}"@).drop_last() =~= head);
    assert(spec_invocation_json(invocation_id, target, arguments, ids) == head
        + spec_stream_ids_member(ids) + "}"@);
}

/// The stream ids of a `StreamInvocation` depend on nothing else: its text
/// is the text without stream ids, with the `streamIds` member of `ids` put
/// before the closing brace.
pub proof fn law_stream_invocation_stream_ids(
    invocation_id: Seq<char>,
    target: Seq<char>,
    arguments: Seq<Seq<char>>,
    ids: Seq<Seq<char>>,
)
    ensures
        spec_stream_invocation_json(invocation_id, target, arguments, ids)
            == spec_stream_invocation_json(
            invocation_id,
            target,
            arguments,
            Seq::<Seq<char>>::empty(),
        ).drop_last() + spec_stream_ids_member(ids) + "}"@,
{
    reveal_strlit("}");
    let head = "{\"type\":4,\"invocationId\":"@ + json_string_literal(invocation_id)
        + ",\"target\":"@ + json_string_literal(target) + ",\"arguments\":"@ + spec_json_array(
        arguments,
    );
    let none: Seq<Seq<char>> = Seq::empty();
    assert(spec_opt_field(
        ",\"streamIds\":"@,
        if ids.len() == 0 {
            None
        } else {
            Some(spec_json_array(spec_quoted_all(ids)))
        },
    ) == spec_stream_ids_member(ids));
    assert(spec_stream_invocation_json(invocation_id, target, arguments, none) == head
        + Seq::<char>::empty() + "}"@);
    assert((head + Seq::<char>::empty() + "}"@).drop_last() =~= head);
    assert(spec_stream_invocation_json(invocation_id, target, arguments, ids) == head
        + spec_stream_ids_member(ids) + "}"@);
}

/// A `StreamInvocation` is an `Invocation` with an id and an argument list
/// whose type is 4 instead of 1: past the type, the two texts agree, stream
/// ids included.
pub proof fn law_stream_invocation_is_typed_invocation(
    invocation_id: Seq<char>,
    target: Seq<char>,
    arguments: Seq<Seq<char>>,
    ids: Seq<Seq<char>>,
)
    ensures
        spec_stream_invocation_json(invocation_id, target, arguments, ids).take(9)
            == "{\"type\":4"@,
        spec_invocation_json(Some(invocation_id), target, Some(arguments), ids).take(9)
            == "{\"type\":1"@,
        spec_stream_invocation_json(invocation_id, target, arguments, ids).skip(9)
            == spec_invocation_json(Some(invocation_id), target, Some(arguments), ids).skip(9),
{
    reveal_strlit("{\"type\":4");
    reveal_strlit("{\"type\":1");
    reveal_strlit("{\"type\":4,\"invocationId\":");
    reveal_strlit(",\"invocationId\":");
    let rest = json_string_literal(invocation_id) + ",\"target\":"@ + json_string_literal(target)
        + ",\"arguments\":"@ + spec_json_array(arguments) + spec_opt_field(
        ",\"streamIds\":"@,
        if ids.len() == 0 {
            None
        } else {
            Some(spec_json_array(spec_quoted_all(ids)))
        },
    ) + "}"@;
    let s = spec_stream_invocation_json(invocation_id, target, arguments, ids);
    let i = spec_invocation_json(Some(invocation_id), target, Some(arguments), ids);
    assert(s =~= "{\"type\":4"@ + (",\"invocationId\":"@ + rest));
    assert(i =~= "{\"type\":1"@ + (",\"invocationId\":"@ + rest));
    assert(s.take(9) =~= "{\"type\":4"@);
    assert(i.take(9) =~= "{\"type\":1"@);
    assert(s.skip(9) =~= ",\"invocationId\":"@ + rest);
    assert(i.skip(9) =~= ",\"invocationId\":"@ + rest);
}

/// The message types of the hub protocol, by name, in the order of their
/// codes 1 to 7.
pub open spec fn spec_protocol_type_names() -> Seq<Seq<char>> {
    seq![
        "Invocation"@,
        "StreamItem"@,
        "Completion"@,
        "StreamInvocation"@,
        "CancelInvocation"@,
        "Ping"@,
        "Close"@,
    ]
}

/// The `type` codes are those of the hub protocol: the codes 1 to 7 read as
/// Invocation, StreamItem, Completion, StreamInvocation, CancelInvocation,
/// Ping and Close, in that order, and every other code as a type of its
/// own; each of these types is written with its code.
pub proof fn law_message_type_codes(code: u8)
    ensures
        1 <= code <= 7 ==> MessageType::spec_from_u8(code).spec_name()
            == spec_protocol_type_names()[code - 1],
        1 <= code <= 7 ==> MessageType::spec_from_u8(code).spec_code() == Some(code),
        !(1 <= code <= 7) ==> MessageType::spec_from_u8(code) == MessageType::Other,
        code == 2 <==> MessageType::spec_from_u8(code) == MessageType::StreamItem,
        code == 5 <==> MessageType::spec_from_u8(code) == MessageType::CancelInvocation,
        code == 1 <==> MessageType::spec_from_u8(code) == MessageType::Invocation,
        code == 3 <==> MessageType::spec_from_u8(code) == MessageType::Completion,
        code == 4 <==> MessageType::spec_from_u8(code) == MessageType::StreamInvocation,
        code == 6 <==> MessageType::spec_from_u8(code) == MessageType::Ping,
        code == 7 <==> MessageType::spec_from_u8(code) == MessageType::Close,
{
}

/// Reading back the code of a message type gives the same message type.
pub proof fn law_message_type_code_round_trip(t: MessageType)
    requires
        t != MessageType::Other,
    ensures
        t.spec_code() is Some,
        MessageType::spec_from_u8(t.spec_code()->0) == t,
{
}

/// A `Completion` message: the end of an invocation, with its result or its
/// error.
#[derive(Debug, Clone)]
pub struct Completion<R> {
    /// The invocation that completed.
    pub invocation_id: String,
    /// The result, when the invocation produced one.
    pub result: Option<R>,
    /// The error, when the invocation failed.
    pub error: Option<String>,
}

impl<R> Completion<R> {
    /// A completion with the given parts.
    pub fn new(invocation_id: String, result: Option<R>, error: Option<String>) -> (r: Self)
        ensures
            r.invocation_id == invocation_id,
            r.result == result,
            r.error == error,
    {
        Completion { invocation_id, result, error }
    }

    /// A completion without result or error.
    pub fn ok(invocation_id: String) -> (r: Self)
        ensures
            r.invocation_id == invocation_id,
            r.result is None,
            r.error is None,
    {
        Completion { invocation_id, result: None, error: None }
    }

    /// A completion that carries `error`.
    pub fn error(invocation_id: String, error: String) -> (r: Self)
        ensures
            r.invocation_id == invocation_id,
            r.result is None,
            r.error == Some(error),
    {
        Completion { invocation_id, result: None, error: Some(error) }
    }

    /// A completion that carries `result`.
    pub fn with_result(invocation_id: String, result: R) -> (r: Self)
        ensures
            r.invocation_id == invocation_id,
            r.result == Some(result),
            r.error is None,
    {
        Completion { invocation_id, result: Some(result), error: None }
    }

    /// Whether the completion carries a result.
    pub fn is_result(&self) -> (r: bool)
        ensures
            r == self.result is Some,
    {
        self.result.is_some()
    }

    /// Whether the completion carries an error.
    pub fn is_error(&self) -> (r: bool)
        ensures
            r == self.error is Some,
    {
        self.error.is_some()
    }

    /// The result of a completion that carries one.
    pub fn unwrap_result(self) -> (r: R)
        requires
            self.result is Some,
        ensures
            r == self.result->0,
    {
        self.result.unwrap()
    }

    /// The error of a completion that carries one.
    pub fn unwrap_error(self) -> (r: String)
        requires
            self.error is Some,
        ensures
            r == self.error->0,
    {
        self.error.unwrap()
    }
}

/// A `StreamItem` message: one item of a stream.
#[derive(Debug, Clone)]
pub struct StreamItem<R> {
    /// The invocation or upload stream the item belongs to.
    pub invocation_id: String,
    /// The item.
    pub item: R,
}

impl<R> StreamItem<R> {
    /// The item `item` of the stream `invocation_id`.
    pub fn new(invocation_id: String, item: R) -> (r: Self)
        ensures
            r.invocation_id == invocation_id,
            r.item == item,
    {
        StreamItem { invocation_id, item }
    }
}

/// A message text this library writes: clean, and opening with `{`.
pub open spec fn spec_is_encoded_message(m: Seq<char>) -> bool {
    &&& spec_is_clean(m)
    &&& m.len() > 0
    &&& m[0] == '{'
}

/// Messages written by this library, framed one after the other, are
/// split back into exactly those messages, in order.
pub proof fn law_encoded_messages_split_back(ms: Seq<Seq<char>>)
    requires
        forall|i: int| 0 <= i < ms.len() ==> spec_is_encoded_message(#[trigger] ms[i]),
    ensures
        spec_split_messages(spec_concat_frames(ms)) == ms,
{
    assert forall|i: int| 0 <= i < ms.len() implies !(#[trigger] ms[i]).contains(rs()) by {
        assert(spec_is_encoded_message(ms[i]));
        if ms[i].contains(rs()) {
            let k = choose|k: int| 0 <= k < ms[i].len() && ms[i][k] == rs();
            assert((ms[i][k]) as u32 >= 0x20);
        }
    }
    assert forall|i: int| 0 <= i < ms.len() implies !spec_is_blank(#[trigger] ms[i]) by {
        assert(spec_is_encoded_message(ms[i]));
        assert(!spec_is_whitespace(ms[i][0]));
    }
    law_split_recovers_framed_messages(ms);
}

} // verus!
