//! Record-separator framing of SignalR text messages.
//!
//! Every JSON message of the SignalR hub protocol is terminated by the
//! ASCII record separator `U+001E`; several messages may arrive in one
//! transport frame.

use vstd::prelude::*;
use vstd::string::*;
use vstd::std_specs::iter::IteratorSpec;

verus! {

broadcast use vstd::string::group_string_axioms;

/// The character that terminates every text message.
pub open spec fn rs() -> char {
    '\u{1E}'
}

/// The record separator as an executable constant.
pub const RECORD_SEPARATOR_CHAR: char = '\u{1E}';

/// `s` with every trailing record separator removed.
pub open spec fn spec_strip_record_separator(s: Seq<char>) -> Seq<char>
    decreases s.len(),
{
    if s.len() > 0 && s.last() == rs() {
        spec_strip_record_separator(s.drop_last())
    } else {
        s
    }
}

/// `s` followed by one record separator.
pub open spec fn spec_frame(s: Seq<char>) -> Seq<char> {
    s.push(rs())
}

/// Removes every record separator at the end of `input`.
pub fn strip_record_separator(input: &str) -> (r: &str)
    ensures
        r@ == spec_strip_record_separator(input@),
{
    let len = input.unicode_len();
    let mut end: usize = len;
    assert(input@.subrange(0, len as int) =~= input@);
    while end > 0 && input.get_char(end - 1) == RECORD_SEPARATOR_CHAR
        invariant
            len == input@.len(),
            end <= len,
            spec_strip_record_separator(input@) == spec_strip_record_separator(
                input@.subrange(0, end as int),
            ),
        decreases end,
    {
        assert(input@.subrange(0, end as int).drop_last() =~= input@.subrange(0, end - 1));
        end = end - 1;
    }
    input.substring_char(0, end)
}

/// Terminates a serialized message with the record separator.
pub fn frame(json: String) -> (r: String)
    ensures
        r@ == spec_frame(json@),
{
    let mut r = json;
    r.append("\u{1E}");
    proof {
        reveal_strlit("\u{1E}");
    }
    r
}


/// Unicode `White_Space`, the property that `char::is_whitespace` tests.
pub open spec fn spec_is_whitespace(c: char) -> bool {
    let u = c as u32;
    ||| 0x09 <= u <= 0x0D
    ||| u == 0x20
    ||| u == 0x85
    ||| u == 0xA0
    ||| u == 0x1680
    ||| 0x2000 <= u <= 0x200A
    ||| u == 0x2028
    ||| u == 0x2029
    ||| u == 0x202F
    ||| u == 0x205F
    ||| u == 0x3000
}

/// Whether `c` is white space in the sense of Unicode's `White_Space`
/// property (the same set as `char::is_whitespace`).
pub fn is_whitespace(c: char) -> (r: bool)
    ensures
        r == spec_is_whitespace(c),
{
    let u: u32 = c as u32;
    (0x09 <= u && u <= 0x0D) || u == 0x20 || u == 0x85 || u == 0xA0 || u == 0x1680 || (0x2000
        <= u && u <= 0x200A) || u == 0x2028 || u == 0x2029 || u == 0x202F || u == 0x205F || u
        == 0x3000
}

/// Whether `s` holds nothing but white space (`s.trim().is_empty()`).
pub open spec fn spec_is_blank(s: Seq<char>) -> bool {
    forall|i: int| 0 <= i < s.len() ==> spec_is_whitespace(#[trigger] s[i])
}

/// The pieces of `s` between record separators, as `str::split` yields
/// them: `n` separators give `n + 1` pieces, empty ones included.
pub open spec fn spec_pieces(s: Seq<char>) -> Seq<Seq<char>>
    decreases s.len(),
{
    if s.len() == 0 {
        seq![Seq::<char>::empty()]
    } else {
        let p = spec_pieces(s.drop_last());
        if s.last() == rs() {
            p.push(Seq::<char>::empty())
        } else {
            p.update(p.len() - 1, p.last().push(s.last()))
        }
    }
}

/// The pieces that are not blank, in order.
pub open spec fn spec_non_blank(ps: Seq<Seq<char>>) -> Seq<Seq<char>>
    decreases ps.len(),
{
    if ps.len() == 0 {
        Seq::<Seq<char>>::empty()
    } else {
        let r = spec_non_blank(ps.drop_last());
        if spec_is_blank(ps.last()) {
            r
        } else {
            r.push(ps.last())
        }
    }
}

/// The messages carried by one transport frame: its non-blank pieces
/// between record separators.
pub open spec fn spec_split_messages(s: Seq<char>) -> Seq<Seq<char>> {
    spec_non_blank(spec_pieces(s))
}

/// `spec_pieces` never yields an empty sequence.
pub proof fn lemma_pieces_len(s: Seq<char>)
    ensures
        spec_pieces(s).len() >= 1,
    decreases s.len(),
{
    if s.len() > 0 {
        lemma_pieces_len(s.drop_last());
    }
}

/// Whether `s` holds only white space.
pub fn is_blank(s: &str) -> (r: bool)
    ensures
        r == spec_is_blank(s@),
{
    let ghost full = s@;
    for c in it: s.chars()
        invariant
            it.seq() == full,
            full == s@,
            forall|j: int| 0 <= j < it.index() ==> spec_is_whitespace(#[trigger] full[j]),
    {
        assert(c == full[it.index() as int]);
        if !is_whitespace(c) {
            assert(0 <= it.index() < full.len());
            assert(!spec_is_whitespace(full[it.index() as int]));
            return false;
        }
    }
    true
}

/// Splits a transport frame into the messages it carries: the pieces
/// between record separators that are not blank.
pub fn split_messages(text: &str) -> (r: Vec<String>)
    ensures
        r@.len() == spec_split_messages(text@).len(),
        forall|k: int| 0 <= k < r@.len() ==> #[trigger] r@[k]@ == spec_split_messages(text@)[k],
{
    let ghost full = text@;
    let n = text.unicode_len();
    let mut it = text.chars();
    let mut i: usize = 0;
    let mut start: usize = 0;
    let ghost mut done: Seq<Seq<char>> = Seq::empty();
    let mut out: Vec<String> = Vec::new();
    assert(full.take(0) =~= Seq::<char>::empty());
    assert(full.subrange(0, 0) =~= Seq::<char>::empty());
    assert(spec_pieces(full.take(0)) =~= done.push(full.subrange(0, 0)));
    loop
        invariant
            it.remaining() == full.skip(i as int),
            full == text@,
            n == full.len(),
            start <= i <= full.len(),
            spec_pieces(full.take(i as int)) == done.push(full.subrange(start as int, i as int)),
            out@.len() == spec_non_blank(done).len(),
            forall|k: int| 0 <= k < out@.len() ==> #[trigger] out@[k]@ == spec_non_blank(done)[k],
        ensures
            i == full.len(),
            full == text@,
            start <= i,
            spec_pieces(full.take(i as int)) == done.push(full.subrange(start as int, i as int)),
            out@.len() == spec_non_blank(done).len(),
            forall|k: int| 0 <= k < out@.len() ==> #[trigger] out@[k]@ == spec_non_blank(done)[k],
        decreases full.len() - i,
    {
        match it.next() {
            Some(c) => {
                assert(i < n);
                assert(c == full[i as int]);
                assert(full.skip(i as int).drop_first() =~= full.skip(i + 1));
                let ghost prefix = full.take(i + 1);
                assert(prefix.drop_last() =~= full.take(i as int));
                assert(prefix.last() == c);
                if c == RECORD_SEPARATOR_CHAR {
                    let piece = text.substring_char(start, i);
                    let ghost old_done = done;
                    proof {
                        done = done.push(full.subrange(start as int, i as int));
                    }
                    assert(done.drop_last() =~= old_done);
                    if !is_blank(piece) {
                        out.push(piece.to_owned());
                    }
                    start = i + 1;
                    assert(full.subrange(start as int, i + 1) =~= Seq::<char>::empty());
                    assert(spec_pieces(prefix) =~= done.push(full.subrange(start as int, i + 1)));
                } else {
                    proof {
                        let p = spec_pieces(full.take(i as int));
                        assert(p.last() == full.subrange(start as int, i as int));
                        assert(full.subrange(start as int, i as int).push(c) =~= full.subrange(
                            start as int,
                            i + 1,
                        ));
                        assert(spec_pieces(prefix) =~= done.push(
                            full.subrange(start as int, i + 1),
                        ));
                    }
                }
                i = i + 1;
            },
            None => {
                assert(full.skip(i as int).len() == 0);
                break;
            },
        }
    }
    assert(i == full.len());
    assert(full.take(i as int) =~= full);
    let piece = text.substring_char(start, i);
    let ghost old_done = done;
    proof {
        done = done.push(full.subrange(start as int, i as int));
    }
    assert(done.drop_last() =~= old_done);
    if !is_blank(piece) {
        out.push(piece.to_owned());
    }
    assert(spec_pieces(full) == done);
    out
}


/// The frame that carries the messages `ms`, each terminated by a record
/// separator.
pub open spec fn spec_concat_frames(ms: Seq<Seq<char>>) -> Seq<char>
    decreases ms.len(),
{
    if ms.len() == 0 {
        Seq::<char>::empty()
    } else {
        spec_concat_frames(ms.drop_last()) + spec_frame(ms.last())
    }
}

/// A text without record separators is a single piece.
proof fn lemma_pieces_plain(m: Seq<char>)
    requires
        !m.contains(rs()),
    ensures
        spec_pieces(m) == seq![m],
    decreases m.len(),
{
    if m.len() > 0 {
        assert(!m.drop_last().contains(rs())) by {
            if m.drop_last().contains(rs()) {
                let k = choose|k: int| 0 <= k < m.drop_last().len() && m.drop_last()[k] == rs();
                assert(m[k] == rs());
            }
        }
        lemma_pieces_plain(m.drop_last());
        assert(m[m.len() - 1] != rs());
        assert(m.drop_last().push(m.last()) =~= m);
        assert(spec_pieces(m) =~= seq![m]);
    } else {
        assert(m =~= Seq::<char>::empty());
    }
}

/// Splitting `a + b`, where `a` is empty or ends with a separator, splits
/// `a` and `b` apart.
proof fn lemma_pieces_append(a: Seq<char>, b: Seq<char>)
    requires
        a.len() == 0 || a.last() == rs(),
    ensures
        spec_pieces(a + b) == spec_pieces(a).drop_last() + spec_pieces(b),
    decreases b.len(),
{
    lemma_pieces_len(a);
    lemma_pieces_len(b);
    if b.len() == 0 {
        assert(a + b =~= a);
        if a.len() == 0 {
            assert(spec_pieces(a).drop_last() + spec_pieces(b) =~= seq![Seq::<char>::empty()]);
        } else {
            assert(a.drop_last().push(a.last()) =~= a);
            let p = spec_pieces(a.drop_last());
            assert(spec_pieces(a) == p.push(Seq::<char>::empty()));
            assert(spec_pieces(a).drop_last() + spec_pieces(b) =~= spec_pieces(a));
        }
    } else {
        let b0 = b.drop_last();
        lemma_pieces_append(a, b0);
        lemma_pieces_len(b0);
        assert((a + b).drop_last() =~= a + b0);
        assert((a + b).last() == b.last());
        let pa = spec_pieces(a).drop_last();
        let pb0 = spec_pieces(b0);
        if b.last() == rs() {
            assert(spec_pieces(a + b) =~= pa + pb0.push(Seq::<char>::empty()));
        } else {
            assert(spec_pieces(a + b) =~= pa + pb0.update(pb0.len() - 1, pb0.last().push(b.last())));
        }
    }
}

/// The frame of `ms` splits into `ms` followed by one empty piece.
proof fn lemma_pieces_concat_frames(ms: Seq<Seq<char>>)
    requires
        forall|i: int| 0 <= i < ms.len() ==> !(#[trigger] ms[i]).contains(rs()),
    ensures
        spec_pieces(spec_concat_frames(ms)) == ms.push(Seq::<char>::empty()),
        spec_concat_frames(ms).len() == 0 || spec_concat_frames(ms).last() == rs(),
    decreases ms.len(),
{
    if ms.len() == 0 {
        assert(spec_pieces(Seq::<char>::empty()) =~= seq![Seq::<char>::empty()]);
        assert(ms.push(Seq::<char>::empty()) =~= seq![Seq::<char>::empty()]);
    } else {
        let rest = ms.drop_last();
        let m = ms.last();
        assert(!m.contains(rs()));
        lemma_pieces_concat_frames(rest);
        let a = spec_concat_frames(rest);
        lemma_pieces_append(a, spec_frame(m));
        lemma_pieces_plain(m);
        assert(spec_frame(m).drop_last() =~= m);
        assert(spec_pieces(spec_frame(m)) =~= seq![m, Seq::<char>::empty()]);
        assert(spec_pieces(a).drop_last() =~= rest);
        assert(ms.push(Seq::<char>::empty()) =~= rest + seq![m, Seq::<char>::empty()]);
    }
}

/// Keeping the non-blank pieces of pieces that are all non-blank keeps all.
proof fn lemma_non_blank_all(ms: Seq<Seq<char>>)
    requires
        forall|i: int| 0 <= i < ms.len() ==> !spec_is_blank(#[trigger] ms[i]),
    ensures
        spec_non_blank(ms) == ms,
    decreases ms.len(),
{
    if ms.len() > 0 {
        lemma_non_blank_all(ms.drop_last());
        assert(!spec_is_blank(ms[ms.len() - 1]));
        assert(ms.drop_last().push(ms.last()) =~= ms);
    }
}

/// Splitting a frame that carries the messages `ms`, none of which is blank
/// or holds a record separator, gives back exactly `ms`, in order.
pub proof fn law_split_recovers_framed_messages(ms: Seq<Seq<char>>)
    requires
        forall|i: int| 0 <= i < ms.len() ==> !(#[trigger] ms[i]).contains(rs()),
        forall|i: int| 0 <= i < ms.len() ==> !spec_is_blank(#[trigger] ms[i]),
    ensures
        spec_split_messages(spec_concat_frames(ms)) == ms,
{
    lemma_pieces_concat_frames(ms);
    lemma_non_blank_all(ms);
    let e = Seq::<char>::empty();
    assert(spec_is_blank(e));
    assert(ms.push(e).drop_last() =~= ms);
}

/// Stripping the separators of a framed message gives back the message,
/// when the message does not itself end with a separator.
pub proof fn law_strip_undoes_frame(m: Seq<char>)
    requires
        m.len() == 0 || m.last() != rs(),
    ensures
        spec_strip_record_separator(spec_frame(m)) == m,
{
    assert(spec_strip_record_separator(m) == m);
    assert(spec_frame(m).drop_last() =~= m);
}

} // verus!
