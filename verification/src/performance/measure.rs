//! Numbers drawn from samples: scores, extremes, percentiles and windows.

use std::collections::VecDeque;
use vstd::prelude::*;
use vstd::relations::{sorted_by, total_ordering};
use vstd::seq_lib::lemma_sorted_unique;

use crate::performance::config::BASIS_POINTS_MAX;

verus! {

/// How close a latency stays to its target, in basis points.
pub open spec fn score(actual_ms: u64, target_ms: u64) -> int {
    if actual_ms <= target_ms {
        10_000
    } else {
        let scaled = target_ms * 10_000;
        (if scaled <= u64::MAX {
            scaled
        } else {
            u64::MAX as int
        }) / (actual_ms as int)
    }
}

pub fn latency_score(actual_ms: u64, target_ms: u64) -> (result: u16)
    ensures
        result == score(actual_ms, target_ms),
        result <= BASIS_POINTS_MAX,
{
    if actual_ms <= target_ms {
        return BASIS_POINTS_MAX;
    }
    let product: u128 = (target_ms as u128) * 10_000;
    let scaled: u128 = if product <= u64::MAX as u128 {
        product
    } else {
        u64::MAX as u128
    };
    let result: u128 = scaled / (actual_ms as u128);
    assert(result <= 10_000) by (nonlinear_arith)
        requires
            result == scaled / (actual_ms as u128),
            scaled <= (target_ms as u128) * 10_000,
            actual_ms > target_ms,
    ;
    result as u16
}

/// The larger of a number and what was largest before.
pub open spec fn larger_of(best: Option<u64>, value: Option<u64>) -> Option<u64> {
    match (best, value) {
        (Some(left), Some(right)) => Some(
            if left >= right {
                left
            } else {
                right
            },
        ),
        (None, value) => value,
        (best, None) => best,
    }
}

pub fn larger(best: Option<u64>, value: Option<u64>) -> (result: Option<u64>)
    ensures
        result == larger_of(best, value),
{
    match (best, value) {
        (Some(left), Some(right)) => {
            if left >= right {
                Some(left)
            } else {
                Some(right)
            }
        },
        (None, value) => value,
        (best, None) => best,
    }
}

/// The smaller of a number and what was smallest before.
pub open spec fn smaller_of(best: Option<u16>, value: Option<u16>) -> Option<u16> {
    match (best, value) {
        (Some(left), Some(right)) => Some(
            if left <= right {
                left
            } else {
                right
            },
        ),
        (None, value) => value,
        (best, None) => best,
    }
}

pub fn smaller(best: Option<u16>, value: Option<u16>) -> (result: Option<u16>)
    ensures
        result == smaller_of(best, value),
{
    match (best, value) {
        (Some(left), Some(right)) => {
            if left <= right {
                Some(left)
            } else {
                Some(right)
            }
        },
        (None, value) => value,
        (best, None) => best,
    }
}

/// The largest number that the items give; none when no item gives one.
pub open spec fn largest<T>(items: Seq<T>, value: spec_fn(T) -> Option<u64>) -> Option<u64>
    decreases items.len(),
{
    if items.len() == 0 {
        None
    } else {
        larger_of(largest(items.drop_last(), value), value(items.last()))
    }
}

/// The smallest number that the items give; none when no item gives one.
pub open spec fn smallest<T>(items: Seq<T>, value: spec_fn(T) -> Option<u16>) -> Option<u16>
    decreases items.len(),
{
    if items.len() == 0 {
        None
    } else {
        smaller_of(smallest(items.drop_last(), value), value(items.last()))
    }
}

/// The numbers that the items give, in order.
pub open spec fn gathered<T>(items: Seq<T>, value: spec_fn(T) -> Option<u64>) -> Seq<u64>
    decreases items.len(),
{
    if items.len() == 0 {
        Seq::empty()
    } else {
        let before = gathered(items.drop_last(), value);
        match value(items.last()) {
            Some(number) => before.push(number),
            None => before,
        }
    }
}

/// The largest number is one that an item gives, and no item gives a larger.
pub proof fn lemma_largest<T>(items: Seq<T>, value: spec_fn(T) -> Option<u64>)
    ensures
        match largest(items, value) {
            Some(best) => (exists|i: int|
                0 <= i < items.len() && value(#[trigger] items[i]) == Some(best)) && (forall|
                i: int,
            |
                0 <= i < items.len() ==> (value(#[trigger] items[i]) matches Some(number) ==> number
                    <= best)),
            None => forall|i: int| 0 <= i < items.len() ==> value(#[trigger] items[i]) is None,
        },
    decreases items.len(),
{
    if items.len() > 0 {
        let before = items.drop_last();
        lemma_largest(before, value);
        assert forall|i: int| 0 <= i < before.len() implies before[i] == items[i] by {}
        assert(items.last() == items[items.len() - 1]);
        if let Some(best) = largest(before, value) {
            let w = choose|i: int| 0 <= i < before.len() && value(#[trigger] before[i]) == Some(best);
            assert(value(items[w]) == Some(best));
        }
        assert forall|i: int| 0 <= i < items.len() implies (value(#[trigger] items[i]) matches Some(
            number,
        ) ==> largest(items, value) matches Some(best) && number <= best) by {
            if i < before.len() {
                assert(before[i] == items[i]);
            }
        }
    }
}

/// The order of numbers.
pub open spec fn at_most() -> spec_fn(u64, u64) -> bool {
    |left: u64, right: u64| left <= right
}

/// The position of the 95th percentile among that many numbers in order.
pub open spec fn percentile_position(count: nat) -> int {
    let scaled = count * 95;
    let bounded = if scaled <= usize::MAX {
        scaled as int
    } else {
        usize::MAX as int
    };
    (bounded + 99) / 100 - 1
}

/// The 95th percentile of some numbers: the one at that position when they
/// stand in order.
pub open spec fn percentile(values: Seq<u64>) -> Option<u64> {
    if values.len() == 0 {
        None
    } else {
        Some(values.sort_by(at_most())[percentile_position(values.len())])
    }
}

fn insert_sorted(sorted: &mut Vec<u64>, value: u64)
    requires
        sorted_by(old(sorted)@, at_most()),
    ensures
        sorted_by(final(sorted)@, at_most()),
        final(sorted)@.to_multiset() == old(sorted)@.to_multiset().insert(value),
        final(sorted)@.len() == old(sorted)@.len() + 1,
{
    let mut position: usize = 0;
    while position < sorted.len() && sorted[position] < value
        invariant
            position <= sorted.len(),
            forall|i: int| 0 <= i < position ==> sorted@[i] < value,
        decreases sorted.len() - position,
    {
        position += 1;
    }
    let ghost before = sorted@;
    sorted.insert(position, value);
    proof {
        broadcast use vstd::seq_lib::group_to_multiset_ensures;

        let p = position as int;
        let after = sorted@;
        assert(after =~= before.insert(p, value));
        assert(after.remove(p) =~= before);
        assert(after[p] == value);
        assert(after.to_multiset().contains(value)) by {
            assert(after.contains(after[p]));
        }
        assert(after.to_multiset() =~= before.to_multiset().insert(value));
        let leq = at_most();
        assert forall|i: int, j: int| 0 <= i < j < after.len() implies #[trigger] leq(
            after[i],
            after[j],
        ) by {
            if j < p {
                assert(leq(before[i], before[j]));
            } else if j == p {
            } else if i < p {
                if j - 1 > i {
                    assert(leq(before[i], before[j - 1]));
                }
            } else if i == p {
                if j - 1 > p {
                    assert(leq(before[p], before[j - 1]));
                }
            } else {
                assert(leq(before[i - 1], before[j - 1]));
            }
        }
    }
}

/// The 95th percentile of some numbers, which are put in order for it.
pub fn percentile_95(values: &mut Vec<u64>) -> (result: Option<u64>)
    ensures
        result == percentile(old(values)@),
        sorted_by(final(values)@, at_most()),
        final(values)@.to_multiset() == old(values)@.to_multiset(),
{
    if values.len() == 0 {
        return None;
    }
    let mut sorted: Vec<u64> = Vec::with_capacity(values.len());
    let mut index: usize = 0;
    proof {
        broadcast use vstd::seq_lib::group_to_multiset_ensures;

        assert(values@.take(0) =~= sorted@);
    }
    while index < values.len()
        invariant
            index <= values.len(),
            sorted@.len() == index,
            sorted_by(sorted@, at_most()),
            sorted@.to_multiset() == values@.take(index as int).to_multiset(),
            values@ == old(values)@,
        decreases values.len() - index,
    {
        insert_sorted(&mut sorted, values[index]);
        proof {
            broadcast use vstd::seq_lib::group_to_multiset_ensures;

            assert(values@.take(index + 1) =~= values@.take(index as int).push(
                values@[index as int],
            ));
        }
        index += 1;
    }
    proof {
        assert(values@.take(values@.len() as int) =~= values@);
        let leq = at_most();
        assert(total_ordering(leq));
        values@.lemma_sort_by_ensures(leq);
        lemma_sorted_unique(sorted@, values@.sort_by(leq), leq);
    }
    let count: u128 = sorted.len() as u128;
    let scaled: u128 = count * 95;
    let bounded: u128 = if scaled <= usize::MAX as u128 {
        scaled
    } else {
        usize::MAX as u128
    };
    let position: u128 = (bounded + 99) / 100 - 1;
    assert(position < count);
    let result: u64 = sorted[position as usize];
    *values = sorted;
    Some(result)
}

/// How many of some numbers are at most a bound.
pub open spec fn count_upto(values: Seq<u64>, bound: u64) -> nat
    decreases values.len(),
{
    if values.len() == 0 {
        0
    } else {
        count_upto(values.drop_last(), bound) + if values.last() <= bound {
            1nat
        } else {
            0
        }
    }
}

proof fn lemma_count_of_multiset(values: Seq<u64>, bound: u64)
    ensures
        values.to_multiset().filter(|value: u64| value <= bound).len() == count_upto(values, bound),
    decreases values.len(),
{
    broadcast use vstd::seq_lib::group_to_multiset_ensures;

    let few = |value: u64| value <= bound;
    if values.len() == 0 {
        assert(values.to_multiset().filter(few) =~= vstd::multiset::Multiset::empty());
    } else {
        let before = values.drop_last();
        let last = values.last();
        lemma_count_of_multiset(before, bound);
        assert(before.push(last) =~= values);
        assert(values.to_multiset() =~= before.to_multiset().insert(last));
        if few(last) {
            assert(values.to_multiset().filter(few) =~= before.to_multiset().filter(few).insert(
                last,
            ));
        } else {
            assert(values.to_multiset().filter(few) =~= before.to_multiset().filter(few));
        }
    }
}

proof fn lemma_count_in_order(values: Seq<u64>, bound: u64, position: int)
    requires
        0 <= position <= values.len(),
    ensures
        (forall|i: int| 0 <= i < position ==> values[i] <= bound) ==> count_upto(values, bound)
            >= position,
        (forall|i: int| position <= i < values.len() ==> values[i] > bound) ==> count_upto(
            values,
            bound,
        ) <= position,
    decreases values.len(),
{
    if values.len() > 0 {
        let before = values.drop_last();
        let rest = if position == values.len() {
            position - 1
        } else {
            position
        };
        lemma_count_in_order(before, bound, rest);
        if forall|i: int| 0 <= i < position ==> values[i] <= bound {
            assert forall|i: int| 0 <= i < rest implies before[i] <= bound by {
                assert(values[i] <= bound);
            }
        }
        if forall|i: int| position <= i < values.len() ==> values[i] > bound {
            assert forall|i: int| rest <= i < before.len() implies before[i] > bound by {
                assert(values[i] > bound);
            }
            if position < values.len() {
                assert(values[values.len() - 1] > bound);
            }
        }
    }
}

/// The 95th percentile is the least of the numbers that has 95 in a hundred
/// of them at or below it.
pub proof fn law_percentile_is_least(values: Seq<u64>)
    requires
        0 < values.len() <= usize::MAX / 95,
    ensures
        percentile(values) matches Some(found) && values.contains(found) && 100 * count_upto(
            values,
            found,
        ) >= 95 * values.len() && forall|other: u64|
            values.contains(other) && other < found ==> 100 * #[trigger] count_upto(values, other)
                < 95 * values.len(),
{
    broadcast use vstd::seq_lib::group_to_multiset_ensures;

    let leq = at_most();
    let sorted = values.sort_by(leq);
    assert(total_ordering(leq));
    values.lemma_sort_by_ensures(leq);
    assert(values.to_multiset().len() == values.len());
    assert(sorted.to_multiset().len() == sorted.len());
    let position = percentile_position(values.len());
    let found = sorted[position];
    assert(sorted.contains(found));
    assert(sorted.to_multiset().contains(found));
    assert(values.contains(found));
    assert forall|bound: u64| #[trigger]
        count_upto(values, bound) == count_upto(sorted, bound) by {
        lemma_count_of_multiset(values, bound);
        lemma_count_of_multiset(sorted, bound);
    }
    assert forall|i: int| 0 <= i < position + 1 implies sorted[i] <= found by {
        if i < position {
            assert(leq(sorted[i], sorted[position]));
        }
    }
    lemma_count_in_order(sorted, found, position + 1);
    assert(count_upto(values, found) >= position + 1);
    assert forall|other: u64| values.contains(other) && other < found implies 100
        * #[trigger] count_upto(values, other) < 95 * values.len() by {
        assert forall|i: int| position <= i < sorted.len() implies sorted[i] > other by {
            if i > position {
                assert(leq(sorted[position], sorted[i]));
            }
        }
        lemma_count_in_order(sorted, other, position);
        assert(count_upto(values, other) == count_upto(sorted, other));
    }
}

/// Something observed at an instant.
pub trait Timestamped {
    spec fn at(&self) -> u64;

    fn timestamp(&self) -> (at: u64)
        ensures
            at == self.at(),
    ;
}

/// The oldest instant of a window that ends at another.
pub open spec fn window_start(latest: u64, window_ms: u64) -> u64 {
    if latest >= window_ms {
        (latest - window_ms) as u64
    } else {
        0
    }
}

/// An item falls out of a queue: too many follow it, or it is too old.
pub open spec fn falls_out<T: Timestamped>(
    queue: Seq<T>,
    index: int,
    maximum: usize,
    oldest: u64,
) -> bool {
    queue.len() - index > maximum || queue[index].at() < oldest
}

/// `kept` is what is left of a queue when items leave it at the front until
/// one may stay.
pub open spec fn is_trimmed<T: Timestamped>(
    kept: Seq<T>,
    queue: Seq<T>,
    maximum: usize,
    window_ms: u64,
) -> bool {
    if queue.len() == 0 {
        kept == queue
    } else {
        let oldest = window_start(queue.last().at(), window_ms);
        let dropped = queue.len() - kept.len();
        &&& 0 <= dropped
        &&& kept == queue.skip(dropped)
        &&& forall|i: int| 0 <= i < dropped ==> #[trigger] falls_out(queue, i, maximum, oldest)
        &&& dropped < queue.len() ==> !falls_out(queue, dropped, maximum, oldest)
    }
}

/// Trimming has one result.
pub proof fn lemma_trimmed_unique<T: Timestamped>(
    left: Seq<T>,
    right: Seq<T>,
    queue: Seq<T>,
    maximum: usize,
    window_ms: u64,
)
    requires
        is_trimmed(left, queue, maximum, window_ms),
        is_trimmed(right, queue, maximum, window_ms),
    ensures
        left == right,
{
    if queue.len() > 0 {
        let oldest = window_start(queue.last().at(), window_ms);
        let a = queue.len() - left.len();
        let b = queue.len() - right.len();
        if a < b {
            assert(falls_out(queue, a, maximum, oldest));
        } else if b < a {
            assert(falls_out(queue, b, maximum, oldest));
        }
    }
}

/// What is left of a queue when it is trimmed.
pub open spec fn trimmed<T: Timestamped>(queue: Seq<T>, maximum: usize, window_ms: u64) -> Seq<T> {
    choose|kept: Seq<T>| is_trimmed(kept, queue, maximum, window_ms)
}

/// Drops what is too old, or too much, from the front of a queue.
pub fn trim_queue<T: Timestamped>(queue: &mut VecDeque<T>, maximum: usize, window_ms: u64)
    ensures
        final(queue)@ == trimmed(old(queue)@, maximum, window_ms),
        is_trimmed(final(queue)@, old(queue)@, maximum, window_ms),
        final(queue)@.len() <= maximum || old(queue)@.len() == 0,
        maximum > 0 && old(queue)@.len() > 0 ==> final(queue)@.len() > 0 && final(queue)@.last()
            == old(queue)@.last(),
{
    let ghost original = queue@;
    let count: usize = queue.len();
    if count == 0 {
        proof {
            assert(is_trimmed(queue@, original, maximum, window_ms));
            let chosen = trimmed(original, maximum, window_ms);
            lemma_trimmed_unique(chosen, queue@, original, maximum, window_ms);
        }
        return;
    }
    let latest: u64 = queue[count - 1].timestamp();
    let oldest: u64 = if latest >= window_ms {
        latest - window_ms
    } else {
        0
    };
    let ghost mut dropped: int = 0;
    assert(original.skip(0) =~= original);
    while queue.len() > 0 && (queue.len() > maximum || queue[0].timestamp() < oldest)
        invariant
            0 <= dropped <= original.len(),
            original.len() > 0,
            queue@ == original.skip(dropped),
            latest == original.last().at(),
            oldest == window_start(latest, window_ms),
            maximum > 0 ==> queue@.len() > 0,
            forall|i: int|
                0 <= i < dropped ==> #[trigger] falls_out(original, i, maximum, oldest),
        decreases queue.len(),
    {
        proof {
            assert(queue@[0] == original[dropped]);
            assert(falls_out(original, dropped, maximum, oldest));
            if maximum > 0 && queue@.len() == 1 {
                assert(original[dropped] == original.last());
            }
        }
        queue.pop_front();
        proof {
            dropped = dropped + 1;
            assert(queue@ =~= original.skip(dropped));
        }
    }
    proof {
        if dropped < original.len() {
            assert(queue@[0] == original[dropped]);
            assert(queue@.last() == original.last());
        }
        assert(is_trimmed(queue@, original, maximum, window_ms));
        let chosen = trimmed(original, maximum, window_ms);
        lemma_trimmed_unique(chosen, queue@, original, maximum, window_ms);
    }
}

/// A latency within its target scores in full. A longer one scores the share
/// that the target is of it, rounded down, so that twice the target scores
/// half; and a longer latency never scores more.
pub proof fn law_score_is_the_share_of_the_target(actual_ms: u64, target_ms: u64, longer_ms: u64)
    requires
        target_ms <= 1_000_000_000,
        actual_ms <= longer_ms,
    ensures
        actual_ms <= target_ms <==> score(actual_ms, target_ms) == 10_000,
        actual_ms > target_ms ==> score(actual_ms, target_ms) * actual_ms <= target_ms * 10_000 < (
        score(actual_ms, target_ms) + 1) * actual_ms,
        0 <= score(longer_ms, target_ms) <= score(actual_ms, target_ms) <= 10_000,
    decreases longer_ms - actual_ms,
{
    let scaled = target_ms * 10_000;
    if actual_ms > target_ms {
        let share = scaled / (actual_ms as int);
        vstd::arithmetic::div_mod::lemma_fundamental_div_mod(scaled, actual_ms as int);
        vstd::arithmetic::div_mod::lemma_mod_bound(scaled, actual_ms as int);
        assert(share * actual_ms == actual_ms * share) by (nonlinear_arith);
        assert((share + 1) * actual_ms == actual_ms * share + actual_ms) by (nonlinear_arith);
        assert(share < 10_000) by (nonlinear_arith)
            requires
                share * actual_ms <= target_ms * 10_000,
                actual_ms > target_ms >= 0,
        ;
        vstd::arithmetic::div_mod::lemma_div_is_ordered_by_denominator(
            scaled,
            actual_ms as int,
            longer_ms as int,
        );
        vstd::arithmetic::div_mod::lemma_div_pos_is_pos(scaled, longer_ms as int);
    } else if longer_ms > target_ms {
        law_score_is_the_share_of_the_target(longer_ms, target_ms, longer_ms);
    }
}

/// The smallest number is one that an item gives, and no item gives a smaller.
pub proof fn lemma_smallest<T>(items: Seq<T>, value: spec_fn(T) -> Option<u16>)
    ensures
        match smallest(items, value) {
            Some(best) => (exists|i: int|
                0 <= i < items.len() && value(#[trigger] items[i]) == Some(best)) && (forall|
                i: int,
            |
                0 <= i < items.len() ==> (value(#[trigger] items[i]) matches Some(number) ==> number
                    >= best)),
            None => forall|i: int| 0 <= i < items.len() ==> value(#[trigger] items[i]) is None,
        },
    decreases items.len(),
{
    if items.len() > 0 {
        let before = items.drop_last();
        lemma_smallest(before, value);
        assert forall|i: int| 0 <= i < before.len() implies before[i] == #[trigger] items[i] by {}
        if smallest(before, value) is Some {
            let best = choose|i: int|
                0 <= i < before.len() && value(#[trigger] before[i]) == smallest(before, value);
            assert(value(items[best]) == smallest(before, value));
        }
        assert(value(items[items.len() - 1]) == value(items.last()));
    }
}

/// What stays of a queue in the order of time is exactly what is new enough,
/// reaching back over the window from the newest item, of its newest items, as
/// many as are allowed.
pub proof fn law_queue_keeps_the_newest<T: Timestamped>(
    kept: Seq<T>,
    queue: Seq<T>,
    maximum: usize,
    window_ms: u64,
    index: int,
)
    requires
        is_trimmed(kept, queue, maximum, window_ms),
        0 <= index < queue.len(),
        forall|i: int, j: int|
            0 <= i <= j < queue.len() ==> (#[trigger] queue[i]).at() <= (#[trigger] queue[j]).at(),
    ensures
        kept.len() <= queue.len(),
        kept == queue.skip(queue.len() - kept.len()),
        index >= queue.len() - kept.len() <==> queue.len() - index <= maximum && queue[index].at()
            + window_ms >= queue.last().at(),
{
    let dropped = queue.len() - kept.len();
    let oldest = window_start(queue.last().at(), window_ms);
    if index < dropped {
        assert(falls_out(queue, index, maximum, oldest));
    } else if dropped < queue.len() {
        assert(queue[dropped].at() <= queue[index].at());
    }
}

/// What is gathered are the measured values in their order: an item without a
/// value adds nothing, and one with a value adds that value at the end.
pub proof fn law_measured_values_are_gathered<T>(
    items: Seq<T>,
    item: T,
    value: spec_fn(T) -> Option<u64>,
)
    ensures
        gathered(Seq::empty(), value) == Seq::<u64>::empty(),
        value(item) is None ==> gathered(items.push(item), value) == gathered(items, value),
        value(item) matches Some(number) ==> gathered(items.push(item), value) == gathered(
            items,
            value,
        ).push(number),
{
    assert(items.push(item).drop_last() =~= items);
}

} // verus!
