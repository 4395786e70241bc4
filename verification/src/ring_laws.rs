//! What holds of every ring, whatever its history.
use crate::ring::{fed_count, feed_of, purged_count, pushed_count, pushed_onto, rest_of};
use vstd::prelude::*;

verus! {

/// A step of a ring.
pub enum RingStep<T> {
    /// `push`
    Push(Seq<T>),
    /// `mix_mono_into`
    Mix { backlog: int, frames: int },
    /// `clear`
    Clear,
}

/// Counts are not negative.
pub open spec fn is_step<T>(step: RingStep<T>) -> bool {
    match step {
        RingStep::Mix { backlog, frames } => backlog >= 0 && frames >= 0,
        _ => true,
    }
}

/// Steps that a new ring of `cap` slots went through.
pub open spec fn is_history<T>(cap: int, steps: Seq<RingStep<T>>) -> bool {
    cap >= 0 && forall|i: int| 0 <= i < steps.len() ==> is_step(#[trigger] steps[i])
}

/// What a new ring holds after its steps.
pub open spec fn held_after<T>(cap: int, steps: Seq<RingStep<T>>) -> Seq<T>
    decreases steps.len(),
{
    if steps.len() == 0 {
        Seq::empty()
    } else {
        let held = held_after(cap, steps.drop_last());
        match steps.last() {
            RingStep::Push(block) => pushed_onto(cap, held, block),
            RingStep::Mix { backlog, frames } => rest_of(held, backlog, frames),
            RingStep::Clear => Seq::empty(),
        }
    }
}

/// Every sample that was taken in, in the order of the pushes.
pub open spec fn taken_in<T>(cap: int, steps: Seq<RingStep<T>>) -> Seq<T>
    decreases steps.len(),
{
    if steps.len() == 0 {
        Seq::empty()
    } else {
        let before = taken_in(cap, steps.drop_last());
        match steps.last() {
            RingStep::Push(block) => before + block.take(
                pushed_count(
                    cap,
                    held_after(cap, steps.drop_last()).len() as int,
                    block.len() as int,
                ),
            ),
            _ => before,
        }
    }
}

/// How many samples have left, by a feed, a purge or a clearing.
pub open spec fn gone<T>(cap: int, steps: Seq<RingStep<T>>) -> int
    decreases steps.len(),
{
    if steps.len() == 0 {
        0
    } else {
        let held = held_after(cap, steps.drop_last()).len() as int;
        gone(cap, steps.drop_last()) + match steps.last() {
            RingStep::Push(_) => 0,
            RingStep::Mix { backlog, frames } => purged_count(held, backlog) + fed_count(
                held,
                backlog,
                frames,
            ),
            RingStep::Clear => held,
        }
    }
}

/// What the step at place `i` feeds, where it is a mix.
pub open spec fn fed_at<T>(cap: int, steps: Seq<RingStep<T>>, i: int) -> Seq<T> {
    match steps[i] {
        RingStep::Mix { backlog, frames } => feed_of(
            held_after(cap, steps.take(i)),
            backlog,
            frames,
        ),
        _ => Seq::empty(),
    }
}

/// Where the feed of the mix at place `i` starts among the samples taken in.
pub open spec fn feed_start<T>(cap: int, steps: Seq<RingStep<T>>, i: int) -> int {
    gone(cap, steps.take(i)) + match steps[i] {
        RingStep::Mix { backlog, .. } => purged_count(
            held_after(cap, steps.take(i)).len() as int,
            backlog,
        ),
        _ => 0,
    }
}

/// Everything that was fed, in order.
pub open spec fn fed_in_all<T>(cap: int, steps: Seq<RingStep<T>>) -> Seq<T>
    decreases steps.len(),
{
    if steps.len() == 0 {
        Seq::empty()
    } else {
        fed_in_all(cap, steps.drop_last()) + fed_at(cap, steps, steps.len() - 1)
    }
}

/// At any time a ring holds exactly the newest samples taken in, in order, and
/// no more than fit.
pub proof fn law_a_ring_holds_the_newest<T>(cap: int, steps: Seq<RingStep<T>>)
    requires
        is_history(cap, steps),
    ensures
        0 <= gone(cap, steps) <= taken_in(cap, steps).len(),
        held_after(cap, steps) == taken_in(cap, steps).skip(gone(cap, steps)),
        held_after(cap, steps).len() <= cap,
    decreases steps.len(),
{
    if steps.len() > 0 {
        let before = steps.drop_last();
        assert forall|i: int| 0 <= i < before.len() implies is_step(#[trigger] before[i]) by {
            assert(before[i] == steps[i]);
        }
        law_a_ring_holds_the_newest(cap, before);
        assert(is_step(steps[steps.len() - 1]));
        assert(held_after(cap, steps) =~= taken_in(cap, steps).skip(gone(cap, steps)));
    }
}

proof fn lemma_time_goes_on<T>(cap: int, steps: Seq<RingStep<T>>, i: int)
    requires
        is_history(cap, steps),
        0 <= i <= steps.len(),
    ensures
        is_history(cap, steps.take(i)),
        gone(cap, steps.take(i)) <= gone(cap, steps),
        taken_in(cap, steps.take(i)).is_prefix_of(taken_in(cap, steps)),
    decreases steps.len() - i,
{
    assert forall|k: int| 0 <= k < i implies is_step(#[trigger] steps.take(i)[k]) by {
        assert(steps.take(i)[k] == steps[k]);
    }
    if i < steps.len() {
        lemma_time_goes_on(cap, steps, i + 1);
        let next = steps.take(i + 1);
        assert(next.drop_last() == steps.take(i));
        assert(next.last() == steps[i] && is_step(steps[i]));
    } else {
        assert(steps.take(i) == steps);
    }
}

/// First in, first out, over any history: what a mix feeds is a run of the
/// samples taken in, and the next mix feeds from behind it. So no sample is fed
/// twice, and none before one that was taken in earlier.
pub proof fn law_first_in_first_out<T>(cap: int, steps: Seq<RingStep<T>>, i: int, j: int)
    requires
        is_history(cap, steps),
        0 <= i < j < steps.len(),
        steps[i] is Mix,
        steps[j] is Mix,
    ensures
        fed_at(cap, steps, i) == taken_in(cap, steps).subrange(
            feed_start(cap, steps, i),
            feed_start(cap, steps, i) + fed_at(cap, steps, i).len(),
        ),
        fed_at(cap, steps, j) == taken_in(cap, steps).subrange(
            feed_start(cap, steps, j),
            feed_start(cap, steps, j) + fed_at(cap, steps, j).len(),
        ),
        0 <= feed_start(cap, steps, i),
        feed_start(cap, steps, i) + fed_at(cap, steps, i).len() <= feed_start(cap, steps, j),
        feed_start(cap, steps, j) + fed_at(cap, steps, j).len() <= taken_in(cap, steps).len(),
{
    lemma_feed_is_a_run(cap, steps, i);
    lemma_feed_is_a_run(cap, steps, j);
    lemma_time_goes_on(cap, steps, j);
    lemma_time_goes_on(cap, steps.take(j), i + 1);
    assert(steps.take(j).take(i + 1) == steps.take(i + 1));
    law_a_ring_holds_the_newest(cap, steps.take(j));
}

proof fn lemma_feed_is_a_run<T>(cap: int, steps: Seq<RingStep<T>>, i: int)
    requires
        is_history(cap, steps),
        0 <= i < steps.len(),
        steps[i] is Mix,
    ensures
        0 <= feed_start(cap, steps, i),
        feed_start(cap, steps, i) + fed_at(cap, steps, i).len() == gone(cap, steps.take(i + 1)),
        gone(cap, steps.take(i + 1)) <= taken_in(cap, steps).len(),
        fed_at(cap, steps, i) == taken_in(cap, steps).subrange(
            feed_start(cap, steps, i),
            feed_start(cap, steps, i) + fed_at(cap, steps, i).len(),
        ),
{
    let next = steps.take(i + 1);
    assert(next.drop_last() == steps.take(i));
    assert(next.last() == steps[i] && is_step(steps[i]));
    lemma_time_goes_on(cap, steps, i);
    lemma_time_goes_on(cap, steps, i + 1);
    law_a_ring_holds_the_newest(cap, steps.take(i));
    law_a_ring_holds_the_newest(cap, next);
    let all = taken_in(cap, steps);
    let known = taken_in(cap, steps.take(i));
    let start = feed_start(cap, steps, i);
    let fed = fed_at(cap, steps, i);
    assert forall|k: int| 0 <= k < fed.len() implies fed[k] == all.subrange(
        start,
        start + fed.len(),
    )[k] by {
        assert(known[start + k] == all[start + k]);
    }
    assert(fed =~= all.subrange(start, start + fed.len()));
}

/// Nothing is cleared, and no mix has a budget under the capacity.
pub open spec fn keeps_everything<T>(cap: int, steps: Seq<RingStep<T>>) -> bool {
    forall|i: int|
        0 <= i < steps.len() ==> match #[trigger] steps[i] {
            RingStep::Push(_) => true,
            RingStep::Mix { backlog, .. } => backlog >= cap,
            RingStep::Clear => false,
        }
}

/// Where nothing is cleared and the budgets are no less than the capacity,
/// nothing that was taken in is lost: it was fed, or it is held.
pub proof fn law_nothing_is_lost<T>(cap: int, steps: Seq<RingStep<T>>)
    requires
        is_history(cap, steps),
        keeps_everything(cap, steps),
    ensures
        fed_in_all(cap, steps) + held_after(cap, steps) == taken_in(cap, steps),
    decreases steps.len(),
{
    if steps.len() > 0 {
        let before = steps.drop_last();
        assert forall|i: int| 0 <= i < before.len() implies is_step(#[trigger] before[i]) by {
            assert(before[i] == steps[i]);
        }
        assert forall|i: int| 0 <= i < before.len() implies match #[trigger] before[i] {
            RingStep::Push(_) => true,
            RingStep::Mix { backlog, .. } => backlog >= cap,
            RingStep::Clear => false,
        } by {
            assert(before[i] == steps[i]);
        }
        law_nothing_is_lost(cap, before);
        law_a_ring_holds_the_newest(cap, before);
        assert(steps.take(steps.len() - 1) == before);
        let last = steps[steps.len() - 1];
        assert(is_step(last));
        match last {
            RingStep::Push(block) => {
                assert(fed_in_all(cap, steps) == fed_in_all(cap, before));
            },
            RingStep::Mix { backlog, frames } => {
                assert(feed_of(held_after(cap, before), backlog, frames) + rest_of(
                    held_after(cap, before),
                    backlog,
                    frames,
                ) =~= held_after(cap, before));
            },
            RingStep::Clear => {},
        }
        assert(fed_in_all(cap, steps) + held_after(cap, steps) =~= taken_in(cap, steps));
    }
}

} // verus!
