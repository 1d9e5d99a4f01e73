//! The decisions of the stream adaptors: what each poll of an adaptor
//! yields, given what its inner stream yielded.
//!
//! The adaptors hold their inner streams and predicates; whoever drives
//! them polls the inner stream, evaluates the predicate on a fresh item and
//! hands both results to the adaptor's step function.

use vstd::prelude::*;
use crate::framing::spec_frame;
use crate::messages::{ClientMessage, MessageEncoding, MessageView};
use crate::protocol::{completion_json, spec_completion_json};

verus! {

/// What one poll of a stream produced.
#[derive(Debug, Clone, PartialEq, Eq)]
pub enum Polled<T> {
    /// The next item.
    Item(T),
    /// The stream is exhausted.
    End,
    /// Nothing is ready yet.
    Pending,
}

// ============= TakeWhileInclusive

/// Yields the items of a stream up to and including the first one that
/// fails the predicate, then ends.
#[derive(Debug)]
pub struct TakeWhileInclusive<S, P> {
    stream: S,
    predicate: P,
    finish_next_poll: bool,
}

/// One step of `TakeWhileInclusive`: what it yields for what the inner
/// stream yielded (and whether a fresh item satisfied the predicate), and
/// whether the next item ends it.
pub open spec fn spec_take_while_step<T>(finishing: bool, polled: Polled<T>, satisfied: bool) -> (
    Polled<T>,
    bool,
) {
    match polled {
        Polled::Item(x) => (
            if finishing {
                Polled::End
            } else {
                Polled::Item(x)
            },
            finishing || !satisfied,
        ),
        Polled::End => (Polled::End, finishing),
        Polled::Pending => (Polled::Pending, finishing),
    }
}

impl<S, P> TakeWhileInclusive<S, P> {
    /// Whether the adaptor ends at the next item of its inner stream.
    pub closed spec fn finishing(&self) -> bool {
        self.finish_next_poll
    }

    /// The inner stream.
    pub closed spec fn inner(&self) -> S {
        self.stream
    }

    /// The predicate.
    pub closed spec fn test(&self) -> P {
        self.predicate
    }

    /// The inner stream, to be polled.
    pub fn stream_mut(&mut self) -> (r: &mut S)
        ensures
            *r == old(self).inner(),
            final(self).inner() == *final(r),
            final(self).test() == old(self).test(),
            final(self).finishing() == old(self).finishing(),
    {
        &mut self.stream
    }

    /// The predicate, to be applied to a fresh item.
    pub fn predicate(&self) -> (r: &P)
        ensures
            *r == self.test(),
    {
        &self.predicate
    }

    /// The predicate, for predicates that change as they are applied.
    pub fn predicate_mut(&mut self) -> (r: &mut P)
        ensures
            *r == old(self).test(),
            final(self).test() == *final(r),
            final(self).inner() == old(self).inner(),
            final(self).finishing() == old(self).finishing(),
    {
        &mut self.predicate
    }

    /// Wraps `stream`, testing its items with `predicate`.
    pub fn new(stream: S, predicate: P) -> (r: Self)
        ensures
            r.inner() == stream,
            r.test() == predicate,
            !r.finishing(),
    {
        TakeWhileInclusive { stream, predicate, finish_next_poll: false }
    }

    /// What the adaptor yields when its inner stream yielded `polled`;
    /// `satisfied` is the predicate's verdict on the item, if there is one.
    pub fn on_poll<T>(&mut self, polled: Polled<T>, satisfied: bool) -> (r: Polled<T>)
        ensures
            (r, final(self).finishing()) == spec_take_while_step(
                old(self).finishing(),
                polled,
                satisfied,
            ),
            polled is Pending ==> r is Pending && final(self).finishing() == old(self).finishing(),
            final(self).inner() == old(self).inner(),
            final(self).test() == old(self).test(),
    {
        match polled {
            Polled::Item(item) => {
                let was_terminated = self.finish_next_poll;
                if !satisfied {
                    self.finish_next_poll = true;
                }
                if was_terminated {
                    Polled::End
                } else {
                    Polled::Item(item)
                }
            },
            Polled::End => Polled::End,
            Polled::Pending => Polled::Pending,
        }
    }
}

/// The items up to and including the first one whose verdict is `false`.
pub open spec fn spec_take_while_inclusive<T>(items: Seq<T>, verdicts: Seq<bool>) -> Seq<T>
    decreases items.len(),
{
    if items.len() == 0 {
        Seq::<T>::empty()
    } else if !verdicts[0] {
        seq![items[0]]
    } else {
        seq![items[0]] + spec_take_while_inclusive(items.drop_first(), verdicts.drop_first())
    }
}

/// What `TakeWhileInclusive` yields when its inner stream yields `items`,
/// one per poll, with the predicate's verdicts `verdicts`.
pub open spec fn spec_take_while_run<T>(finishing: bool, items: Seq<T>, verdicts: Seq<bool>) -> Seq<
    Polled<T>,
>
    decreases items.len(),
{
    if items.len() == 0 {
        Seq::<Polled<T>>::empty()
    } else {
        let (out, next) = spec_take_while_step(finishing, Polled::Item(items[0]), verdicts[0]);
        seq![out] + spec_take_while_run(next, items.drop_first(), verdicts.drop_first())
    }
}

/// `n` ends.
pub open spec fn spec_ends<T>(n: nat) -> Seq<Polled<T>> {
    Seq::new(n, |i: int| Polled::<T>::End)
}

/// The items, each as yielded.
pub open spec fn spec_yielded<T>(items: Seq<T>) -> Seq<Polled<T>> {
    Seq::new(items.len(), |i: int| Polled::Item(items[i]))
}

proof fn lemma_take_while_run_finishing<T>(items: Seq<T>, verdicts: Seq<bool>)
    requires
        verdicts.len() == items.len(),
    ensures
        spec_take_while_run(true, items, verdicts) == spec_ends::<T>(items.len()),
    decreases items.len(),
{
    if items.len() > 0 {
        lemma_take_while_run_finishing(items.drop_first(), verdicts.drop_first());
        assert(spec_take_while_run(true, items, verdicts) =~= spec_ends::<T>(items.len()));
    } else {
        assert(spec_take_while_run(true, items, verdicts) =~= spec_ends::<T>(items.len()));
    }
}

/// Fed the items of a stream with the predicate's verdicts on them,
/// `TakeWhileInclusive` yields exactly the items up to and including the
/// first one that fails the predicate, and ends at every later poll.
pub proof fn law_take_while_inclusive<T>(items: Seq<T>, verdicts: Seq<bool>)
    requires
        verdicts.len() == items.len(),
    ensures
        spec_take_while_run(false, items, verdicts) == spec_yielded(
            spec_take_while_inclusive(items, verdicts),
        ) + spec_ends::<T>(
            (items.len() - spec_take_while_inclusive(items, verdicts).len()) as nat,
        ),
        spec_take_while_inclusive(items, verdicts).len() <= items.len(),
    decreases items.len(),
{
    if items.len() == 0 {
        assert(spec_take_while_run(false, items, verdicts) =~= spec_yielded(
            spec_take_while_inclusive(items, verdicts),
        ) + spec_ends::<T>(0));
    } else {
        let rest = items.drop_first();
        let vrest = verdicts.drop_first();
        let taken = spec_take_while_inclusive(items, verdicts);
        if !verdicts[0] {
            lemma_take_while_run_finishing(rest, vrest);
            assert(spec_take_while_run(false, items, verdicts) =~= spec_yielded(taken)
                + spec_ends::<T>((items.len() - taken.len()) as nat));
        } else {
            law_take_while_inclusive(rest, vrest);
            let t2 = spec_take_while_inclusive(rest, vrest);
            assert(taken == seq![items[0]] + t2);
            assert(spec_take_while_run(false, items, verdicts) =~= spec_yielded(taken)
                + spec_ends::<T>((items.len() - taken.len()) as nat));
        }
    }
}


/// What `TakeWhileInclusive` yields for the polls `polls` of its inner
/// stream (items, ends and pendings), with the predicate's verdicts.
pub open spec fn spec_take_while_polls<T>(finishing: bool, polls: Seq<Polled<T>>, verdicts: Seq<
    bool,
>) -> Seq<Polled<T>>
    decreases polls.len(),
{
    if polls.len() == 0 {
        Seq::<Polled<T>>::empty()
    } else {
        let (out, next) = spec_take_while_step(finishing, polls[0], verdicts[0]);
        seq![out] + spec_take_while_polls(next, polls.drop_first(), verdicts.drop_first())
    }
}

proof fn lemma_take_while_polls_len<T>(finishing: bool, polls: Seq<Polled<T>>, verdicts: Seq<bool>)
    ensures
        spec_take_while_polls(finishing, polls, verdicts).len() == polls.len(),
    decreases polls.len(),
{
    if polls.len() > 0 {
        let (out, next) = spec_take_while_step(finishing, polls[0], verdicts[0]);
        lemma_take_while_polls_len(next, polls.drop_first(), verdicts.drop_first());
    }
}

/// A pending poll is passed on and changes nothing: whatever the state and
/// the verdict, `TakeWhileInclusive` answers it with a pending poll and
/// still ends (or not) at the next item.
pub proof fn law_take_while_pending<T>(finishing: bool, satisfied: bool)
    ensures
        spec_take_while_step(finishing, Polled::<T>::Pending, satisfied) == (
            Polled::<T>::Pending,
            finishing,
        ),
{
}

/// A pending poll interleaved anywhere in a run changes nothing else: the
/// adaptor yields a pending poll at that place and otherwise exactly what
/// it yields without it.
pub proof fn law_take_while_pending_anywhere<T>(
    finishing: bool,
    polls: Seq<Polled<T>>,
    verdicts: Seq<bool>,
    k: int,
    satisfied: bool,
)
    requires
        verdicts.len() == polls.len(),
        0 <= k <= polls.len(),
    ensures
        spec_take_while_polls(
            finishing,
            polls.insert(k, Polled::Pending),
            verdicts.insert(k, satisfied),
        ) == spec_take_while_polls(finishing, polls, verdicts).insert(k, Polled::Pending),
    decreases k,
{
    let lhs = spec_take_while_polls(
        finishing,
        polls.insert(k, Polled::Pending),
        verdicts.insert(k, satisfied),
    );
    let rhs = spec_take_while_polls(finishing, polls, verdicts);
    if k == 0 {
        assert(polls.insert(0, Polled::Pending).drop_first() =~= polls);
        assert(verdicts.insert(0, satisfied).drop_first() =~= verdicts);
        assert(lhs =~= rhs.insert(0, Polled::Pending));
    } else {
        let (out, next) = spec_take_while_step(finishing, polls[0], verdicts[0]);
        assert(polls.insert(k, Polled::Pending).drop_first() =~= polls.drop_first().insert(
            k - 1,
            Polled::Pending,
        ));
        assert(verdicts.insert(k, satisfied).drop_first() =~= verdicts.drop_first().insert(
            k - 1,
            satisfied,
        ));
        assert(polls.insert(k, Polled::Pending)[0] == polls[0]);
        assert(verdicts.insert(k, satisfied)[0] == verdicts[0]);
        law_take_while_pending_anywhere(
            next,
            polls.drop_first(),
            verdicts.drop_first(),
            k - 1,
            satisfied,
        );
        lemma_take_while_polls_len(next, polls.drop_first(), verdicts.drop_first());
        let tail = spec_take_while_polls(next, polls.drop_first(), verdicts.drop_first());
        assert(rhs == seq![out] + tail);
        assert(lhs == seq![out] + tail.insert(k - 1, Polled::Pending));
        assert(lhs =~= rhs.insert(k, Polled::Pending));
    }
}

/// Fed only items, `TakeWhileInclusive` runs as on a stream of items.
pub proof fn law_take_while_polls_of_items<T>(finishing: bool, items: Seq<T>, verdicts: Seq<bool>)
    requires
        verdicts.len() == items.len(),
    ensures
        spec_take_while_polls(finishing, spec_yielded(items), verdicts) == spec_take_while_run(
            finishing,
            items,
            verdicts,
        ),
    decreases items.len(),
{
    if items.len() > 0 {
        let (out, next) = spec_take_while_step(finishing, Polled::Item(items[0]), verdicts[0]);
        assert(spec_yielded(items).drop_first() =~= spec_yielded(items.drop_first()));
        law_take_while_polls_of_items(next, items.drop_first(), verdicts.drop_first());
    }
}

// ============= ChainIf

/// Yields the items of a first stream and, if the last of them satisfied
/// the condition, then the items of a second stream.
#[derive(Debug)]
pub struct ChainIf<P, S1, S2> {
    condition: P,
    stream: S1,
    next_stream: S2,
    last_satisfied: bool,
}

/// What `ChainIf` does after its first stream was polled.
#[derive(Debug, Clone, PartialEq, Eq)]
pub enum ChainStep<T> {
    /// Yield this item of the first stream.
    Yield(T),
    /// The first stream is exhausted: yield what the second stream yields.
    PollNext,
    /// The chained stream is exhausted.
    End,
    /// Nothing is ready yet.
    Pending,
}

/// One step of `ChainIf` on what its first stream yielded, and whether the
/// last item satisfied the condition afterwards.
pub open spec fn spec_chain_step<T>(last_satisfied: bool, polled: Polled<T>, satisfied: bool) -> (
    ChainStep<T>,
    bool,
) {
    match polled {
        Polled::Item(x) => (ChainStep::Yield(x), satisfied),
        Polled::End => (
            if last_satisfied {
                ChainStep::PollNext
            } else {
                ChainStep::End
            },
            last_satisfied,
        ),
        Polled::Pending => (ChainStep::Pending, last_satisfied),
    }
}

impl<P, S1, S2> ChainIf<P, S1, S2> {
    /// Whether the last item of the first stream satisfied the condition.
    pub closed spec fn satisfied(&self) -> bool {
        self.last_satisfied
    }

    /// The first stream.
    pub closed spec fn first(&self) -> S1 {
        self.stream
    }

    /// The second stream.
    pub closed spec fn second(&self) -> S2 {
        self.next_stream
    }

    /// The condition.
    pub closed spec fn test(&self) -> P {
        self.condition
    }

    /// Chains `next` after `this`, on the condition `condition` on the last
    /// item of `this`.
    pub fn new(this: S1, condition: P, next: S2) -> (r: Self)
        ensures
            r.first() == this,
            r.test() == condition,
            r.second() == next,
            !r.satisfied(),
    {
        ChainIf { last_satisfied: false, stream: this, next_stream: next, condition }
    }

    /// The first stream, to be polled.
    pub fn stream_mut(&mut self) -> (r: &mut S1)
        ensures
            *r == old(self).first(),
            final(self).first() == *final(r),
            final(self).second() == old(self).second(),
            final(self).test() == old(self).test(),
            final(self).satisfied() == old(self).satisfied(),
    {
        &mut self.stream
    }

    /// The second stream, to be polled.
    pub fn next_stream_mut(&mut self) -> (r: &mut S2)
        ensures
            *r == old(self).second(),
            final(self).second() == *final(r),
            final(self).first() == old(self).first(),
            final(self).test() == old(self).test(),
            final(self).satisfied() == old(self).satisfied(),
    {
        &mut self.next_stream
    }

    /// The condition, to be applied to a fresh item.
    pub fn condition(&self) -> (r: &P)
        ensures
            *r == self.test(),
    {
        &self.condition
    }

    /// What the adaptor does when its first stream yielded `polled`;
    /// `satisfied` is the condition's verdict on the item, if there is one.
    pub fn on_first_poll<T>(&mut self, polled: Polled<T>, satisfied: bool) -> (r: ChainStep<T>)
        ensures
            (r, final(self).satisfied()) == spec_chain_step(
                old(self).satisfied(),
                polled,
                satisfied,
            ),
            polled is Pending ==> r is Pending && final(self).satisfied() == old(self).satisfied(),
            final(self).first() == old(self).first(),
            final(self).second() == old(self).second(),
            final(self).test() == old(self).test(),
    {
        match polled {
            Polled::Item(i) => {
                self.last_satisfied = satisfied;
                ChainStep::Yield(i)
            },
            Polled::End => {
                if self.last_satisfied {
                    ChainStep::PollNext
                } else {
                    ChainStep::End
                }
            },
            Polled::Pending => ChainStep::Pending,
        }
    }
}

/// The items of `first` and, when `first` is not empty and the verdict on
/// its last item is `true`, the items of `second`.
pub open spec fn spec_chain_if<T>(first: Seq<T>, verdicts: Seq<bool>, second: Seq<T>) -> Seq<T> {
    if first.len() > 0 && verdicts[first.len() - 1] {
        first + second
    } else {
        first
    }
}

/// The steps `ChainIf` takes while its first stream yields `items`, and
/// whether the last item satisfied the condition afterwards.
pub open spec fn spec_chain_run<T>(last_satisfied: bool, items: Seq<T>, verdicts: Seq<bool>) -> (
    Seq<ChainStep<T>>,
    bool,
)
    decreases items.len(),
{
    if items.len() == 0 {
        (Seq::<ChainStep<T>>::empty(), last_satisfied)
    } else {
        let (step, next) = spec_chain_step(last_satisfied, Polled::Item(items[0]), verdicts[0]);
        let (rest, fin) = spec_chain_run(next, items.drop_first(), verdicts.drop_first());
        (seq![step] + rest, fin)
    }
}

proof fn lemma_chain_run<T>(last: bool, items: Seq<T>, verdicts: Seq<bool>)
    requires
        verdicts.len() == items.len(),
    ensures
        spec_chain_run(last, items, verdicts).0 == Seq::new(
            items.len(),
            |i: int| ChainStep::Yield(items[i]),
        ),
        spec_chain_run(last, items, verdicts).1 == (if items.len() > 0 {
            verdicts[items.len() - 1]
        } else {
            last
        }),
    decreases items.len(),
{
    if items.len() > 0 {
        lemma_chain_run(verdicts[0], items.drop_first(), verdicts.drop_first());
        assert(spec_chain_run(last, items, verdicts).0 =~= Seq::new(
            items.len(),
            |i: int| ChainStep::Yield(items[i]),
        ));
    } else {
        assert(spec_chain_run(last, items, verdicts).0 =~= Seq::new(
            items.len(),
            |i: int| ChainStep::Yield(items[i]),
        ));
    }
}

/// Fed the items of its first stream, `ChainIf` yields each of them; when
/// the first stream ends it goes on with the second stream exactly when the
/// first stream was not empty and its last item satisfied the condition.
pub proof fn law_chain_if<T>(items: Seq<T>, verdicts: Seq<bool>)
    requires
        verdicts.len() == items.len(),
    ensures
        spec_chain_run(false, items, verdicts).0 == Seq::new(
            items.len(),
            |i: int| ChainStep::Yield(items[i]),
        ),
        spec_chain_step(spec_chain_run(false, items, verdicts).1, Polled::<T>::End, false).0
            == (if items.len() > 0 && verdicts[items.len() - 1] {
            ChainStep::<T>::PollNext
        } else {
            ChainStep::<T>::End
        }),
{
    lemma_chain_run(false, items, verdicts);
}


/// The steps `ChainIf` takes for the polls `polls` of its first stream
/// (items, ends and pendings), with the condition's verdicts.
pub open spec fn spec_chain_polls<T>(last_satisfied: bool, polls: Seq<Polled<T>>, verdicts: Seq<
    bool,
>) -> Seq<ChainStep<T>>
    decreases polls.len(),
{
    if polls.len() == 0 {
        Seq::<ChainStep<T>>::empty()
    } else {
        let (step, next) = spec_chain_step(last_satisfied, polls[0], verdicts[0]);
        seq![step] + spec_chain_polls(next, polls.drop_first(), verdicts.drop_first())
    }
}

proof fn lemma_chain_polls_len<T>(last: bool, polls: Seq<Polled<T>>, verdicts: Seq<bool>)
    ensures
        spec_chain_polls(last, polls, verdicts).len() == polls.len(),
    decreases polls.len(),
{
    if polls.len() > 0 {
        let (step, next) = spec_chain_step(last, polls[0], verdicts[0]);
        lemma_chain_polls_len(next, polls.drop_first(), verdicts.drop_first());
    }
}

/// A pending poll of the first stream is passed on and changes nothing:
/// whatever the state and the verdict, `ChainIf` answers it with a pending
/// step and keeps what it knows of the last item.
pub proof fn law_chain_if_pending<T>(last_satisfied: bool, satisfied: bool)
    ensures
        spec_chain_step(last_satisfied, Polled::<T>::Pending, satisfied) == (
            ChainStep::<T>::Pending,
            last_satisfied,
        ),
{
}

/// A pending poll interleaved anywhere in a run changes nothing else:
/// `ChainIf` takes a pending step at that place and otherwise exactly the
/// steps it takes without it.
pub proof fn law_chain_if_pending_anywhere<T>(
    last_satisfied: bool,
    polls: Seq<Polled<T>>,
    verdicts: Seq<bool>,
    k: int,
    satisfied: bool,
)
    requires
        verdicts.len() == polls.len(),
        0 <= k <= polls.len(),
    ensures
        spec_chain_polls(
            last_satisfied,
            polls.insert(k, Polled::Pending),
            verdicts.insert(k, satisfied),
        ) == spec_chain_polls(last_satisfied, polls, verdicts).insert(k, ChainStep::Pending),
    decreases k,
{
    let lhs = spec_chain_polls(
        last_satisfied,
        polls.insert(k, Polled::Pending),
        verdicts.insert(k, satisfied),
    );
    let rhs = spec_chain_polls(last_satisfied, polls, verdicts);
    if k == 0 {
        assert(polls.insert(0, Polled::Pending).drop_first() =~= polls);
        assert(verdicts.insert(0, satisfied).drop_first() =~= verdicts);
        assert(lhs =~= rhs.insert(0, ChainStep::Pending));
    } else {
        let (step, next) = spec_chain_step(last_satisfied, polls[0], verdicts[0]);
        assert(polls.insert(k, Polled::Pending).drop_first() =~= polls.drop_first().insert(
            k - 1,
            Polled::Pending,
        ));
        assert(verdicts.insert(k, satisfied).drop_first() =~= verdicts.drop_first().insert(
            k - 1,
            satisfied,
        ));
        assert(polls.insert(k, Polled::Pending)[0] == polls[0]);
        assert(verdicts.insert(k, satisfied)[0] == verdicts[0]);
        law_chain_if_pending_anywhere(
            next,
            polls.drop_first(),
            verdicts.drop_first(),
            k - 1,
            satisfied,
        );
        lemma_chain_polls_len(next, polls.drop_first(), verdicts.drop_first());
        let tail = spec_chain_polls(next, polls.drop_first(), verdicts.drop_first());
        assert(rhs == seq![step] + tail);
        assert(lhs == seq![step] + tail.insert(k - 1, ChainStep::Pending));
        assert(lhs =~= rhs.insert(k, ChainStep::Pending));
    }
}

/// Fed the items of its first stream and then its end, `ChainIf` yields
/// each item and then goes on with the second stream exactly when there
/// were items and the last one satisfied the condition.
pub proof fn law_chain_if_polls<T>(items: Seq<T>, verdicts: Seq<bool>, end_verdict: bool)
    requires
        verdicts.len() == items.len(),
    ensures
        spec_chain_polls(false, spec_yielded(items).push(Polled::End), verdicts.push(end_verdict))
            == Seq::new(items.len(), |i: int| ChainStep::Yield(items[i])).push(
            if items.len() > 0 && verdicts[items.len() - 1] {
                ChainStep::<T>::PollNext
            } else {
                ChainStep::<T>::End
            },
        ),
{
    lemma_chain_polls_items(false, items, verdicts, end_verdict);
}

proof fn lemma_chain_polls_items<T>(last: bool, items: Seq<T>, verdicts: Seq<bool>, end_verdict: bool)
    requires
        verdicts.len() == items.len(),
    ensures
        spec_chain_polls(last, spec_yielded(items).push(Polled::End), verdicts.push(end_verdict))
            == Seq::new(items.len(), |i: int| ChainStep::Yield(items[i])).push(
            if (if items.len() > 0 {
                verdicts[items.len() - 1]
            } else {
                last
            }) {
                ChainStep::<T>::PollNext
            } else {
                ChainStep::<T>::End
            },
        ),
    decreases items.len(),
{
    let polls = spec_yielded(items).push(Polled::End);
    let vs = verdicts.push(end_verdict);
    if items.len() == 0 {
        assert(polls =~= seq![Polled::<T>::End]);
        assert(polls.drop_first().len() == 0);
        assert(polls[0] == Polled::<T>::End);
        assert(spec_chain_polls(last, polls.drop_first(), vs.drop_first()) == Seq::<ChainStep<T>>::empty());
        assert(spec_chain_polls(last, polls, vs) =~= Seq::new(
            items.len(),
            |i: int| ChainStep::Yield(items[i]),
        ).push(
            if last {
                ChainStep::<T>::PollNext
            } else {
                ChainStep::<T>::End
            },
        ));
    } else {
        assert(polls[0] == Polled::Item(items[0]));
        assert(polls.drop_first() =~= spec_yielded(items.drop_first()).push(Polled::End));
        assert(vs.drop_first() =~= verdicts.drop_first().push(end_verdict));
        assert(vs[0] == verdicts[0]);
        lemma_chain_polls_items(verdicts[0], items.drop_first(), verdicts.drop_first(), end_verdict);
        assert(spec_chain_polls(last, polls, vs) == seq![ChainStep::Yield(items[0])]
            + spec_chain_polls(verdicts[0], polls.drop_first(), vs.drop_first()));
        let rest = items.drop_first();
        if items.len() > 1 {
            assert(verdicts.drop_first()[rest.len() - 1] == verdicts[items.len() - 1]);
        }
        assert(Seq::new(items.len(), |i: int| ChainStep::Yield(items[i])) =~= seq![
            ChainStep::Yield(items[0]),
        ] + Seq::new(rest.len(), |i: int| ChainStep::Yield(rest[i])));
        let e = if verdicts[items.len() - 1] {
            ChainStep::<T>::PollNext
        } else {
            ChainStep::<T>::End
        };
        let ih_cond = if rest.len() > 0 {
            verdicts.drop_first()[rest.len() - 1]
        } else {
            verdicts[0]
        };
        assert(ih_cond == verdicts[items.len() - 1]);
        let ys = Seq::new(rest.len(), |i: int| ChainStep::Yield(rest[i]));
        assert(spec_chain_polls(verdicts[0], polls.drop_first(), vs.drop_first()) == ys.push(e));
        assert(seq![ChainStep::Yield(items[0])] + ys.push(e) =~= (seq![ChainStep::Yield(items[0])]
            + ys).push(e));
        assert(spec_chain_polls(last, polls, vs) =~= Seq::new(
            items.len(),
            |i: int| ChainStep::Yield(items[i]),
        ).push(
            if verdicts[items.len() - 1] {
                ChainStep::<T>::PollNext
            } else {
                ChainStep::<T>::End
            },
        ));
    }
}

// ============= AppendCompletion

/// The framed `Completion` that closes the upload stream `stream_id`, with
/// an error text or none.
pub open spec fn spec_completion_message(stream_id: Seq<char>, error: Option<Seq<char>>) -> Seq<
    char,
> {
    spec_frame(spec_completion_json(stream_id, None, error))
}

/// Passes on the messages of an upload stream and closes it with a
/// `Completion`: an error completion at the first serialization error, a
/// plain one when the stream ends.
#[derive(Debug)]
pub struct AppendCompletion<S> {
    stream_id: String,
    encoding: MessageEncoding,
    inner: S,
    finished: bool,
}

/// What an upload stream yields, seen as values: a serialized message, or
/// the text of a serialization error.
pub open spec fn spec_upload_view(p: Polled<Result<ClientMessage, String>>) -> Polled<
    Result<MessageView, Seq<char>>,
> {
    match p {
        Polled::Item(Ok(m)) => Polled::Item(Ok(m@)),
        Polled::Item(Err(e)) => Polled::Item(Err(e@)),
        Polled::End => Polled::End,
        Polled::Pending => Polled::Pending,
    }
}

/// A polled message, seen as a value.
pub open spec fn spec_message_view(p: Polled<ClientMessage>) -> Polled<MessageView> {
    match p {
        Polled::Item(m) => Polled::Item(m@),
        Polled::End => Polled::End,
        Polled::Pending => Polled::Pending,
    }
}

/// One step of `AppendCompletion` for the upload stream `stream_id`, and
/// whether it has finished afterwards.
pub open spec fn spec_append_step(
    stream_id: Seq<char>,
    finished: bool,
    polled: Polled<Result<MessageView, Seq<char>>>,
) -> (Polled<MessageView>, bool) {
    if finished {
        (Polled::End, true)
    } else {
        match polled {
            Polled::Item(Ok(m)) => (Polled::Item(m), false),
            Polled::Item(Err(e)) => (
                Polled::Item(MessageView::Text(spec_completion_message(stream_id, Some(e)))),
                true,
            ),
            Polled::End => (
                Polled::Item(MessageView::Text(spec_completion_message(stream_id, None))),
                true,
            ),
            Polled::Pending => (Polled::Pending, false),
        }
    }
}

impl<S> AppendCompletion<S> {
    /// The id of the upload stream.
    pub closed spec fn id(&self) -> Seq<char> {
        self.stream_id@
    }

    /// Whether the closing completion has been yielded.
    pub closed spec fn is_finished(&self) -> bool {
        self.finished
    }

    /// The inner stream.
    pub closed spec fn source(&self) -> S {
        self.inner
    }

    /// Wraps the upload stream `inner` of id `stream_id`.
    pub fn new(inner: S, stream_id: String, encoding: MessageEncoding) -> (r: Self)
        ensures
            r.id() == stream_id@,
            r.source() == inner,
            !r.is_finished(),
    {
        AppendCompletion { stream_id, encoding, inner, finished: false }
    }

    /// Whether the closing completion has been yielded.
    pub fn finished(&self) -> (r: bool)
        ensures
            r == self.is_finished(),
    {
        self.finished
    }

    /// The inner stream, to be polled.
    pub fn inner_mut(&mut self) -> (r: &mut S)
        ensures
            *r == old(self).source(),
            final(self).source() == *final(r),
            final(self).id() == old(self).id(),
            final(self).is_finished() == old(self).is_finished(),
    {
        &mut self.inner
    }

    /// The completion that closes the stream without error.
    pub fn get_ok_completion(&self) -> (r: ClientMessage)
        ensures
            r@ == MessageView::Text(spec_completion_message(self.id(), None)),
    {
        match completion_json(self.stream_id.as_str(), None, None) {
            Ok(json) => self.encoding.framed(json),
            Err(_) => self.get_infallible_completion(),
        }
    }

    /// The completion that closes the stream with `error`.
    pub fn get_error_completion(&self, error: String) -> (r: ClientMessage)
        ensures
            r@ == MessageView::Text(spec_completion_message(self.id(), Some(error@))),
    {
        match completion_json(self.stream_id.as_str(), None, Some(error.as_str())) {
            Ok(json) => self.encoding.framed(json),
            Err(_) => self.get_infallible_completion(),
        }
    }

    /// The completion that closes the stream with a generic error.
    pub fn get_infallible_completion(&self) -> (r: ClientMessage)
        ensures
            r@ == MessageView::Text(
                spec_completion_message(self.id(), Some("error in a stream"@)),
            ),
    {
        let json = completion_json(self.stream_id.as_str(), None, Some("error in a stream"));
        match json {
            Ok(json) => self.encoding.framed(json),
            Err(_) => ClientMessage::Json(String::new()),
        }
    }

    /// What the adaptor yields when its inner stream yielded `polled`: a
    /// message, or the text of a serialization error.
    pub fn on_poll(&mut self, polled: Polled<Result<ClientMessage, String>>) -> (r: Polled<
        ClientMessage,
    >)
        ensures
            (spec_message_view(r), final(self).is_finished()) == spec_append_step(
                old(self).id(),
                old(self).is_finished(),
                spec_upload_view(polled),
            ),
            final(self).id() == old(self).id(),
            final(self).source() == old(self).source(),
    {
        if self.finished {
            return Polled::End;
        }
        match polled {
            Polled::Item(Ok(message)) => Polled::Item(message),
            Polled::Item(Err(error)) => {
                let serialized = self.get_error_completion(error);
                self.finished = true;
                Polled::Item(serialized)
            },
            Polled::End => {
                let completion = self.get_ok_completion();
                self.finished = true;
                Polled::Item(completion)
            },
            Polled::Pending => Polled::Pending,
        }
    }
}

/// The messages of an upload stream whose serialization results are
/// `items`: the messages before the first error, then the completion that
/// closes the stream, with that error if there was one.
pub open spec fn spec_upload_messages(stream_id: Seq<char>, items: Seq<Result<MessageView, Seq<char>>>) -> Seq<
    MessageView,
>
    decreases items.len(),
{
    if items.len() == 0 {
        seq![MessageView::Text(spec_completion_message(stream_id, None))]
    } else {
        match items[0] {
            Ok(m) => seq![m] + spec_upload_messages(stream_id, items.drop_first()),
            Err(e) => seq![MessageView::Text(spec_completion_message(stream_id, Some(e)))],
        }
    }
}

/// What `AppendCompletion` yields for the events `events`, one per poll.
pub open spec fn spec_append_run(
    stream_id: Seq<char>,
    finished: bool,
    events: Seq<Polled<Result<MessageView, Seq<char>>>>,
) -> Seq<Polled<MessageView>>
    decreases events.len(),
{
    if events.len() == 0 {
        Seq::<Polled<MessageView>>::empty()
    } else {
        let (out, next) = spec_append_step(stream_id, finished, events[0]);
        seq![out] + spec_append_run(stream_id, next, events.drop_first())
    }
}

/// The events of a stream that yields `items` and then ends.
pub open spec fn spec_items_then_end<T>(items: Seq<T>) -> Seq<Polled<T>> {
    spec_yielded(items).push(Polled::End)
}

proof fn lemma_append_run_finished(stream_id: Seq<char>, events: Seq<Polled<Result<MessageView, Seq<char>>>>)
    ensures
        spec_append_run(stream_id, true, events) == spec_ends::<MessageView>(events.len()),
    decreases events.len(),
{
    if events.len() > 0 {
        lemma_append_run_finished(stream_id, events.drop_first());
    }
    assert(spec_append_run(stream_id, true, events) =~= spec_ends::<MessageView>(events.len()));
}

/// An upload stream wrapped in `AppendCompletion` yields the messages
/// before its first serialization error and then exactly one completion
/// (carrying that error, if there was one), and ends at every later poll.
pub proof fn law_append_completion(stream_id: Seq<char>, items: Seq<Result<MessageView, Seq<char>>>)
    ensures
        spec_append_run(stream_id, false, spec_items_then_end(items)) == spec_yielded(
            spec_upload_messages(stream_id, items),
        ) + spec_ends::<MessageView>(
            (items.len() + 1 - spec_upload_messages(stream_id, items).len()) as nat,
        ),
        spec_upload_messages(stream_id, items).len() <= items.len() + 1,
    decreases items.len(),
{
    let events = spec_items_then_end(items);
    let expected = spec_upload_messages(stream_id, items);
    if items.len() == 0 {
        assert(events =~= seq![Polled::End]);
        assert(events.drop_first().len() == 0);
        assert(spec_append_run(stream_id, true, events.drop_first()) =~= Seq::<
            Polled<MessageView>,
        >::empty());
        assert(spec_append_step(stream_id, false, events[0]).0 == Polled::Item(expected[0]));
        assert(spec_yielded(expected) =~= seq![Polled::Item(expected[0])]);
        assert(spec_append_run(stream_id, false, events) =~= spec_yielded(expected)
            + spec_ends::<MessageView>(0));
    } else {
        let rest = items.drop_first();
        assert(events.drop_first() =~= spec_items_then_end(rest));
        assert(events[0] == Polled::Item(items[0]));
        match items[0] {
            Ok(m) => {
                law_append_completion(stream_id, rest);
                assert(spec_append_run(stream_id, false, events) =~= spec_yielded(expected)
                    + spec_ends::<MessageView>((items.len() + 1 - expected.len()) as nat));
            },
            Err(e) => {
                lemma_append_run_finished(stream_id, events.drop_first());
                assert(spec_append_run(stream_id, false, events) =~= spec_yielded(expected)
                    + spec_ends::<MessageView>((items.len() + 1 - expected.len()) as nat));
            },
        }
    }
}

} // verus!
