//! Loops that alternate outside work and decisions, as state machines.
//!
//! A state holds the request that is to be carried out next. The reply to it
//! leads to the next state.

use vstd::prelude::*;

verus! {

/// A deterministic machine, driven by the replies to its requests.
pub trait Machine: Sized {
    type Reply;

    /// `reply` answers the request that is pending in this state.
    spec fn accepts(self, reply: Self::Reply) -> bool;

    /// The state after `reply`.
    spec fn next(self, reply: Self::Reply) -> Self;
}

/// The state that `replies` lead to from `start`.
pub open spec fn run<M: Machine>(start: M, replies: Seq<M::Reply>) -> M
    decreases replies.len(),
{
    if replies.len() == 0 {
        start
    } else {
        run(start, replies.drop_last()).next(replies.last())
    }
}

/// Each of `replies` answers the request that is pending when it comes.
pub open spec fn admits<M: Machine>(start: M, replies: Seq<M::Reply>) -> bool
    decreases replies.len(),
{
    replies.len() == 0 || {
        &&& admits(start, replies.drop_last())
        &&& run(start, replies.drop_last()).accepts(replies.last())
    }
}

/// `inv` survives every accepted reply.
pub open spec fn inductive<M: Machine>(inv: spec_fn(M) -> bool) -> bool {
    forall|m: M, reply: M::Reply|
        inv(m) && m.accepts(reply) ==> inv(#[trigger] m.next(reply))
}

/// What holds at the start and survives every reply holds after every run.
pub proof fn invariant_holds<M: Machine>(
    start: M,
    replies: Seq<M::Reply>,
    inv: spec_fn(M) -> bool,
)
    requires
        inv(start),
        inductive(inv),
        admits(start, replies),
    ensures
        inv(run(start, replies)),
    decreases replies.len(),
{
    if replies.len() > 0 {
        invariant_holds(start, replies.drop_last(), inv);
    }
}

/// A run can be cut at any point into a run and its continuation.
pub proof fn run_concat<M: Machine>(start: M, first: Seq<M::Reply>, second: Seq<M::Reply>)
    ensures
        run(start, first + second) == run(run(start, first), second),
        admits(start, first + second) <==> {
            &&& admits(start, first)
            &&& admits(run(start, first), second)
        },
    decreases second.len(),
{
    if second.len() == 0 {
        assert(first + second =~= first);
    } else {
        run_concat(start, first, second.drop_last());
        assert((first + second).drop_last() =~= first + second.drop_last());
    }
}

/// A state that satisfies `pred` occurs on the way from `start`, both ends
/// counted.
pub open spec fn reaches<M: Machine>(
    start: M,
    replies: Seq<M::Reply>,
    pred: spec_fn(M) -> bool,
) -> bool
    decreases replies.len(),
{
    ||| pred(run(start, replies))
    ||| replies.len() > 0 && reaches(start, replies.drop_last(), pred)
}

/// The number of states on the way from `start`, both ends counted, that
/// satisfy `pred`.
pub open spec fn visits<M: Machine>(
    start: M,
    replies: Seq<M::Reply>,
    pred: spec_fn(M) -> bool,
) -> nat
    decreases replies.len(),
{
    let here: nat = if pred(run(start, replies)) {
        1
    } else {
        0
    };
    if replies.len() == 0 {
        here
    } else {
        visits(start, replies.drop_last(), pred) + here
    }
}

/// What the states on the way from `start`, both ends counted, ask for, in
/// order, as far as `pick` selects it.
pub open spec fn issued<M: Machine, T>(
    start: M,
    replies: Seq<M::Reply>,
    pick: spec_fn(M) -> Option<T>,
) -> Seq<T>
    decreases replies.len(),
{
    let before = if replies.len() == 0 {
        seq![]
    } else {
        issued(start, replies.drop_last(), pick)
    };
    match pick(run(start, replies)) {
        Some(asked) => before.push(asked),
        None => before,
    }
}

/// Some reply on the way from `start` is an answer of which `pred` holds, in the
/// state that it answers.
pub open spec fn answered<M: Machine>(
    start: M,
    replies: Seq<M::Reply>,
    pred: spec_fn(M, M::Reply) -> bool,
) -> bool
    decreases replies.len(),
{
    replies.len() > 0 && {
        ||| pred(run(start, replies.drop_last()), replies.last())
        ||| answered(start, replies.drop_last(), pred)
    }
}

/// What the latest of the answers on the way from `start` says that `pick`
/// selects, if there is one.
pub open spec fn latest<M: Machine, T>(
    start: M,
    replies: Seq<M::Reply>,
    pick: spec_fn(M, M::Reply) -> Option<T>,
) -> Option<T>
    decreases replies.len(),
{
    if replies.len() == 0 {
        None
    } else {
        match pick(run(start, replies.drop_last()), replies.last()) {
            Some(told) => Some(told),
            None => latest(start, replies.drop_last(), pick),
        }
    }
}

/// What `told` says, or else `initially`.
pub open spec fn told_or<T>(told: Option<T>, initially: T) -> T {
    match told {
        Some(value) => value,
        None => initially,
    }
}

/// Where `pred` holds `done` does not yet, but from the next state on it does
/// for good.
pub open spec fn settles<M: Machine>(
    inv: spec_fn(M) -> bool,
    pred: spec_fn(M) -> bool,
    done: spec_fn(M) -> bool,
) -> bool {
    &&& forall|m: M| #[trigger] inv(m) && pred(m) ==> !done(m)
    &&& forall|m: M, reply: M::Reply|
        inv(m) && m.accepts(reply) && (pred(m) || done(m)) ==> done(#[trigger] m.next(reply))
}

/// What is settled once it has happened happens at most once in every run.
pub proof fn happens_at_most_once<M: Machine>(
    start: M,
    replies: Seq<M::Reply>,
    inv: spec_fn(M) -> bool,
    pred: spec_fn(M) -> bool,
    done: spec_fn(M) -> bool,
)
    requires
        inv(start),
        inductive(inv),
        settles(inv, pred, done),
        admits(start, replies),
    ensures
        visits(start, replies, pred) <= 1,
{
    lemma_settled(start, replies, inv, pred, done);
}

proof fn lemma_settled<M: Machine>(
    start: M,
    replies: Seq<M::Reply>,
    inv: spec_fn(M) -> bool,
    pred: spec_fn(M) -> bool,
    done: spec_fn(M) -> bool,
)
    requires
        inv(start),
        inductive(inv),
        settles(inv, pred, done),
        admits(start, replies),
    ensures
        visits(start, replies, pred) <= 1,
        visits(start, replies, pred) == 1 ==> pred(run(start, replies)) || done(
            run(start, replies),
        ),
    decreases replies.len(),
{
    invariant_holds(start, replies, inv);
    if replies.len() > 0 {
        lemma_settled(start, replies.drop_last(), inv, pred, done);
        invariant_holds(start, replies.drop_last(), inv);
    }
}

} // verus!
