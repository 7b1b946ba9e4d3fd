//! Activity windows: on which local day a profile is active, and how long it
//! rests between two runs.

use vstd::prelude::*;
use vstd::string::StringExecFns;

use crate::digest::{
    join_with_zero, law_texts_are_joined_by_zeros, seed_of, sha256_seed, slices, zero_joined,
};
use crate::error::{RuntimeHostError, RuntimeHostResult};
use crate::policy::catalog::{
    fatal, policy_fatal, policy_request, request, ActivityProfile, ActivityWindow,
};
use crate::search::{first_position, lemma_first_position, lemma_no_position, lemma_position};
use crate::text::{
    append_decimal, append_signed_decimal, decimal, law_decimals_are_told_apart,
    law_signed_decimals_are_told_apart, lemma_utf8_injective, signed_decimal, utf8,
};

verus! {

/// The local time of a window, in milliseconds since the local start of 1970.
pub open spec fn local_ms(window: ActivityWindow, now_unix_ms: u64) -> int {
    now_unix_ms + window.utc_offset_minutes * 60_000
}

/// The local day of a window, counted from 1970-01-01.
pub open spec fn local_day(window: ActivityWindow, now_unix_ms: u64) -> int {
    local_ms(window, now_unix_ms) / 86_400_000
}

pub open spec fn minute_of_day(window: ActivityWindow, now_unix_ms: u64) -> int {
    (local_ms(window, now_unix_ms) % 86_400_000) / 60_000
}

/// The day of the week, Monday is 1.
pub open spec fn weekday_of(day: int) -> int {
    (day + 3) % 7 + 1
}

pub open spec fn on_weekday(window: ActivityWindow, day: int) -> bool {
    window.weekdays@.contains(weekday_of(day) as u8)
}

/// The local day on which a window that is open now was opened. A window that
/// ends where it starts lasts all day; one that ends before it starts goes on
/// after midnight.
pub open spec fn open_day(window: ActivityWindow, now_unix_ms: u64) -> Option<int> {
    let day = local_day(window, now_unix_ms);
    let minute = minute_of_day(window, now_unix_ms);
    let start = window.start_minute_of_day as int;
    let end = window.end_minute_of_day as int;
    if start == end {
        if on_weekday(window, day) {
            Some(day)
        } else {
            None
        }
    } else if start < end {
        if on_weekday(window, day) && start <= minute < end {
            Some(day)
        } else {
            None
        }
    } else if minute >= start && on_weekday(window, day) {
        Some(day)
    } else if minute < end && on_weekday(window, day - 1) {
        Some(day - 1)
    } else {
        None
    }
}

/// The day of the week of a day since 1970-01-01.
pub fn weekday(day: i128) -> (weekday: u8)
    requires
        day + 3 <= i128::MAX,
    ensures
        weekday == weekday_of(day as int),
        1 <= weekday <= 7,
{
    match (day + 3).checked_rem_euclid(7) {
        Some(past_monday) => past_monday as u8 + 1,
        None => 1,
    }
}

fn lists_day(weekdays: &Vec<u8>, day: i64) -> (found: bool)
    ensures
        found == weekdays@.contains(weekday_of(day as int) as u8),
{
    let wanted: u8 = weekday(day as i128);
    let mut index: usize = 0;
    while index < weekdays.len()
        invariant
            index <= weekdays.len(),
            wanted == weekday_of(day as int),
            forall|i: int| 0 <= i < index ==> weekdays@[i] != wanted,
        decreases weekdays.len() - index,
    {
        if weekdays[index] == wanted {
            assert(weekdays@[index as int] == wanted);
            return true;
        }
        index += 1;
    }
    false
}

pub fn window_local_day(window: &ActivityWindow, now_unix_ms: u64) -> (day: Option<i64>)
    ensures
        match day {
            Some(day) => open_day(*window, now_unix_ms) == Some(day as int) && -3_000_000 <= day
                <= 1_000_000_000_000,
            None => open_day(*window, now_unix_ms) is None,
        },
{
    // Two million days more keep the sum positive.
    let shifted: i128 = now_unix_ms as i128 + (window.utc_offset_minutes as i128) * 60_000
        + 172_800_000_000_000;
    let positive: u128 = shifted as u128;
    let days: u128 = positive / 86_400_000;
    let current: i64 = days as i64 - 2_000_000;
    let minute: u64 = ((positive % 86_400_000) / 60_000) as u64;
    assert(current == local_day(*window, now_unix_ms));
    assert(minute == minute_of_day(*window, now_unix_ms));
    let start: u64 = window.start_minute_of_day as u64;
    let end: u64 = window.end_minute_of_day as u64;
    if start == end {
        if lists_day(&window.weekdays, current) {
            Some(current)
        } else {
            None
        }
    } else if start < end {
        if lists_day(&window.weekdays, current) && minute >= start && minute < end {
            Some(current)
        } else {
            None
        }
    } else if minute >= start && lists_day(&window.weekdays, current) {
        Some(current)
    } else if minute < end && lists_day(&window.weekdays, current - 1) {
        Some(current - 1)
    } else {
        None
    }
}

/// A window that is open.
pub open spec fn window_open(now_unix_ms: u64) -> spec_fn(ActivityWindow) -> bool {
    |window: ActivityWindow| open_day(window, now_unix_ms) is Some
}

/// The first window of a profile that is open, and its day.
pub open spec fn open_window(profile: ActivityProfile, now_unix_ms: u64) -> Option<(int, int)> {
    match first_position(profile.windows@, window_open(now_unix_ms)) {
        Some(index) => Some((open_day(profile.windows@[index], now_unix_ms)->0, index)),
        None => None,
    }
}

/// The name of an open window.
pub open spec fn window_name(profile_id: Seq<char>, day: int, index: int) -> Seq<char> {
    profile_id + ":"@ + signed_decimal(day) + ":"@ + decimal(index as nat)
}

pub open spec fn window_closed() -> RuntimeHostError {
    policy_request("policy_activity_window_closed", "reserve_policy_budget")
}

/// The window of a profile that is open: its day and its name.
pub fn active_activity_window(profile: &ActivityProfile, now_unix_ms: u64) -> (result:
    RuntimeHostResult<(i64, String)>)
    ensures
        match open_window(*profile, now_unix_ms) {
            Some((day, index)) => result matches Ok((actual_day, name)) && actual_day == day
                && name@ == window_name(profile.id@, day, index),
            None => result matches Err(error) && error == window_closed(),
        },
{
    let ghost wanted = window_open(now_unix_ms);
    let mut index: usize = 0;
    while index < profile.windows.len()
        invariant
            index <= profile.windows.len(),
            wanted == window_open(now_unix_ms),
            forall|i: int| 0 <= i < index ==> !wanted(#[trigger] profile.windows@[i]),
        decreases profile.windows.len() - index,
    {
        if let Some(day) = window_local_day(&profile.windows[index], now_unix_ms) {
            proof {
                assert(wanted(profile.windows@[index as int]));
                lemma_first_position(profile.windows@, wanted, index as int);
            }
            let mut name = profile.id.clone();
            name.append(":");
            append_signed_decimal(&mut name, day);
            name.append(":");
            append_decimal(&mut name, index as u64);
            return Ok((day, name));
        }
        index += 1;
    }
    proof {
        lemma_no_position(profile.windows@, wanted);
    }
    Err(request("policy_activity_window_closed", "reserve_policy_budget"))
}

/// The bytes that the seed of an activity sample is drawn from.
pub open spec fn seed_material(
    decision_id: Seq<char>,
    profile_id: Seq<char>,
    window_id: Seq<char>,
) -> Seq<u8> {
    zero_joined(decision_id, seq![profile_id, window_id])
}

pub fn activity_seed(decision_id: &str, profile_id: &str, window_id: &str) -> (seed: u64)
    ensures
        seed == seed_of(seed_material(decision_id@, profile_id@, window_id@)),
{
    let mut rest: Vec<&str> = Vec::new();
    rest.push(profile_id);
    rest.push(window_id);
    assert(slices(rest@) =~= seq![profile_id@, window_id@]);
    let bytes = join_with_zero(decision_id, &rest);
    sha256_seed(bytes.as_slice())
}

/// The rest that a seed gives: between the least and the most, both included.
pub open spec fn interval_for(profile: ActivityProfile, seed: u64) -> Option<int> {
    let width = profile.maximum_interval_ms - profile.minimum_interval_ms + 1;
    if 1 <= width <= u64::MAX {
        Some(profile.minimum_interval_ms + (seed as int) % width)
    } else {
        None
    }
}

pub fn sampled_interval(profile: &ActivityProfile, seed: u64) -> (result: RuntimeHostResult<u64>)
    ensures
        match interval_for(*profile, seed) {
            Some(interval) => result == Ok::<_, RuntimeHostError>(interval as u64)
                && profile.minimum_interval_ms <= interval <= profile.maximum_interval_ms,
            None => result == Err::<u64, _>(
                policy_fatal("policy_activity_interval_invalid", "sample_activity_interval"),
            ),
        },
{
    let width: Option<u64> = match profile.maximum_interval_ms.checked_sub(
        profile.minimum_interval_ms,
    ) {
        Some(difference) => difference.checked_add(1),
        None => None,
    };
    match width {
        None => Err(fatal("policy_activity_interval_invalid", "sample_activity_interval")),
        Some(width) => Ok(profile.minimum_interval_ms + seed % width),
    }
}

/// The rest between two runs always lies between the profile's bounds.
pub proof fn law_interval_within_bounds(profile: ActivityProfile, seed: u64)
    ensures
        interval_for(profile, seed) matches Some(interval) ==> profile.minimum_interval_ms
            <= interval <= profile.maximum_interval_ms,
{
}

/// A window that is open was opened today or yesterday.
pub proof fn law_open_day_is_recent(window: ActivityWindow, now_unix_ms: u64)
    ensures
        open_day(window, now_unix_ms) matches Some(day) ==> local_day(window, now_unix_ms) - 1
            <= day <= local_day(window, now_unix_ms) && on_weekday(window, day),
{
}

/// Days of the week follow each other from Monday, which is 1, to Sunday; the
/// first day of 1970 was a Thursday.
pub proof fn law_weekdays_follow_each_other(day: int)
    ensures
        1 <= weekday_of(day) <= 7,
        weekday_of(day + 1) == if weekday_of(day) == 7 {
            1
        } else {
            weekday_of(day) + 1
        },
        weekday_of(day + 7) == weekday_of(day),
        day % 7 == 0 ==> weekday_of(day) == 4,
{
}

/// The local time of an instant: so many days since 1970, so many minutes of
/// the day, and the rest of a minute.
pub open spec fn local_time_is(
    window: ActivityWindow,
    now_unix_ms: u64,
    day: int,
    minute: int,
    rest_ms: int,
) -> bool {
    &&& now_unix_ms + window.utc_offset_minutes * 60_000 == day * 86_400_000 + minute * 60_000
        + rest_ms
    &&& 0 <= minute < 1_440
    &&& 0 <= rest_ms < 60_000
}

proof fn lemma_local_time(
    window: ActivityWindow,
    now_unix_ms: u64,
    day: int,
    minute: int,
    rest_ms: int,
)
    requires
        local_time_is(window, now_unix_ms, day, minute, rest_ms),
    ensures
        local_day(window, now_unix_ms) == day,
        minute_of_day(window, now_unix_ms) == minute,
{
    let total = local_ms(window, now_unix_ms);
    assert(total == day * 86_400_000 + (minute * 60_000 + rest_ms));
    assert(0 <= minute * 60_000 + rest_ms < 86_400_000);
    assert(total / 86_400_000 == day && total % 86_400_000 == minute * 60_000 + rest_ms)
        by (nonlinear_arith)
        requires
            total == day * 86_400_000 + (minute * 60_000 + rest_ms),
            0 <= minute * 60_000 + rest_ms < 86_400_000,
    ;
}

/// A window that starts before it ends is open on a listed weekday from its
/// start minute on and before its end minute, and at no other instant.
pub proof fn law_day_window_keeps_its_hours(
    window: ActivityWindow,
    now_unix_ms: u64,
    day: int,
    minute: int,
    rest_ms: int,
)
    requires
        window.start_minute_of_day < window.end_minute_of_day,
        local_time_is(window, now_unix_ms, day, minute, rest_ms),
    ensures
        open_day(window, now_unix_ms) is Some <==> window.start_minute_of_day <= minute
            && minute < window.end_minute_of_day && window.weekdays@.contains(
            ((day + 3) % 7 + 1) as u8,
        ),
        open_day(window, now_unix_ms) is Some ==> open_day(window, now_unix_ms) == Some(day),
{
    lemma_local_time(window, now_unix_ms, day, minute, rest_ms);
}

/// A window that ends where it starts is open all day on the listed weekdays,
/// and only then.
pub proof fn law_all_day_window_keeps_its_days(
    window: ActivityWindow,
    now_unix_ms: u64,
    day: int,
    minute: int,
    rest_ms: int,
)
    requires
        window.start_minute_of_day == window.end_minute_of_day,
        local_time_is(window, now_unix_ms, day, minute, rest_ms),
    ensures
        open_day(window, now_unix_ms) is Some <==> window.weekdays@.contains(
            ((day + 3) % 7 + 1) as u8,
        ),
        open_day(window, now_unix_ms) is Some ==> open_day(window, now_unix_ms) == Some(day),
{
    lemma_local_time(window, now_unix_ms, day, minute, rest_ms);
}

/// A window that ends before it starts opens on a listed weekday at its start
/// minute and stays open over midnight until its end minute; after midnight it
/// still counts as the window of the day before.
pub proof fn law_night_window_keeps_its_hours(
    window: ActivityWindow,
    now_unix_ms: u64,
    day: int,
    minute: int,
    rest_ms: int,
)
    requires
        window.start_minute_of_day > window.end_minute_of_day,
        local_time_is(window, now_unix_ms, day, minute, rest_ms),
    ensures
        open_day(window, now_unix_ms) == Some(day) <==> minute >= window.start_minute_of_day
            && window.weekdays@.contains(((day + 3) % 7 + 1) as u8),
        open_day(window, now_unix_ms) == Some(day - 1) <==> minute < window.end_minute_of_day
            && window.weekdays@.contains(((day + 2) % 7 + 1) as u8),
        open_day(window, now_unix_ms) matches Some(opened) ==> opened == day || opened == day - 1,
{
    lemma_local_time(window, now_unix_ms, day, minute, rest_ms);
}

/// A window is open at the same instants of every week.
pub proof fn law_windows_repeat_weekly(window: ActivityWindow, now_unix_ms: u64)
    requires
        now_unix_ms + 604_800_000 <= u64::MAX,
    ensures
        open_day(window, (now_unix_ms + 604_800_000) as u64) == match open_day(
            window,
            now_unix_ms,
        ) {
            Some(day) => Some(day + 7),
            None => None,
        },
{
    let day = local_day(window, now_unix_ms);
    assert(local_day(window, (now_unix_ms + 604_800_000) as u64) == day + 7);
    law_weekdays_follow_each_other(day);
    law_weekdays_follow_each_other(day - 1);
}

/// A profile is in the first of its windows that is open, on the day of that
/// window, and in none only where all are closed.
pub proof fn law_first_open_window_counts(profile: ActivityProfile, now_unix_ms: u64)
    ensures
        match open_window(profile, now_unix_ms) {
            Some((day, index)) => {
                &&& 0 <= index < profile.windows@.len()
                &&& open_day(profile.windows@[index], now_unix_ms) == Some(day)
                &&& forall|i: int|
                    0 <= i < index ==> open_day(#[trigger] profile.windows@[i], now_unix_ms) is None
            },
            None => forall|i: int|
                0 <= i < profile.windows@.len() ==> open_day(
                    #[trigger] profile.windows@[i],
                    now_unix_ms,
                ) is None,
        },
{
    let wanted = window_open(now_unix_ms);
    lemma_position(profile.windows@, wanted);
    if open_window(profile, now_unix_ms) is None {
        assert forall|i: int| 0 <= i < profile.windows@.len() implies open_day(
            #[trigger] profile.windows@[i],
            now_unix_ms,
        ) is None by {
            assert(!wanted(profile.windows@[i]));
        }
    } else {
        let index = first_position(profile.windows@, wanted)->0;
        assert(wanted(profile.windows@[index]));
        assert forall|i: int| 0 <= i < index implies open_day(
            #[trigger] profile.windows@[i],
            now_unix_ms,
        ) is None by {
            assert(!wanted(profile.windows@[i]));
        }
    }
}

/// Every rest between the bounds of a profile can be drawn, each by as many
/// seeds as any other: seeds that differ by the number of rests draw the same.
/// A rest can be drawn wherever the bounds are in order and do not span all
/// numbers.
pub proof fn law_every_interval_can_be_drawn(profile: ActivityProfile, wanted: u64, seed: u64)
    requires
        profile.minimum_interval_ms <= wanted <= profile.maximum_interval_ms,
        profile.maximum_interval_ms - profile.minimum_interval_ms < u64::MAX,
    ensures
        interval_for(profile, (wanted - profile.minimum_interval_ms) as u64) == Some(wanted as int),
        ({
            let rests = profile.maximum_interval_ms - profile.minimum_interval_ms + 1;
            seed + rests <= u64::MAX ==> interval_for(profile, (seed + rests) as u64)
                == interval_for(profile, seed)
        }),
        interval_for(profile, seed) is Some,
{
    let rests = profile.maximum_interval_ms - profile.minimum_interval_ms + 1;
    let offset = wanted - profile.minimum_interval_ms;
    assert(offset % rests == offset) by (nonlinear_arith)
        requires
            0 <= offset < rests,
    ;
    assert((seed + rests) % rests == (seed as int) % rests) by (nonlinear_arith)
        requires
            rests > 0,
    ;
}

/// The windows of a profile have names of their own: two names are the same
/// only for the same window on the same day.
pub proof fn law_window_names_are_told_apart(
    profile_id: Seq<char>,
    day: int,
    index: int,
    other_day: int,
    other_index: int,
)
    requires
        0 <= index,
        0 <= other_index,
        window_name(profile_id, day, index) == window_name(profile_id, other_day, other_index),
    ensures
        day == other_day,
        index == other_index,
{
    reveal_strlit(":");
    let head: int = profile_id.len() as int + 1;
    let left = signed_decimal(day);
    let right = signed_decimal(other_day);
    let whole = window_name(profile_id, day, index);
    let other = window_name(profile_id, other_day, other_index);
    assert(whole.skip(head) =~= left + ":"@ + decimal(index as nat));
    assert(other.skip(head) =~= right + ":"@ + decimal(other_index as nat));
    let tail = whole.skip(head);
    assert(tail[left.len() as int] == ':');
    assert(tail[right.len() as int] == ':');
    if left.len() < right.len() {
        assert(tail[left.len() as int] == right[left.len() as int]);
        law_signed_decimals_are_told_apart(other_day, day, left.len() as int);
    }
    if right.len() < left.len() {
        assert(tail[right.len() as int] == left[right.len() as int]);
        law_signed_decimals_are_told_apart(day, other_day, right.len() as int);
    }
    assert(tail.take(left.len() as int) =~= left);
    assert(tail.take(right.len() as int) =~= right);
    law_signed_decimals_are_told_apart(day, other_day, 0);
    assert(tail.skip(left.len() as int + 1) =~= decimal(index as nat));
    assert(tail.skip(right.len() as int + 1) =~= decimal(other_index as nat));
    law_decimals_are_told_apart(index as nat, other_index as nat);
}

/// A seed is drawn from the decision, the profile and the window together: with
/// two of them the same, it is drawn from the same bytes only when the third
/// one is the same too.
pub proof fn law_seeds_are_drawn_from_all_three(
    decision: Seq<char>,
    other_decision: Seq<char>,
    profile: Seq<char>,
    other_profile: Seq<char>,
    window: Seq<char>,
    other_window: Seq<char>,
)
    ensures
        seed_material(decision, profile, window) == seed_material(other_decision, profile, window)
            ==> decision == other_decision,
        seed_material(decision, profile, window) == seed_material(decision, other_profile, window)
            ==> profile == other_profile,
        seed_material(decision, profile, window) == seed_material(decision, profile, other_window)
            ==> window == other_window,
{
    lemma_seed_material(decision, profile, window);
    lemma_seed_material(other_decision, profile, window);
    lemma_seed_material(decision, other_profile, window);
    lemma_seed_material(decision, profile, other_window);
    let base = seed_material(decision, profile, window);
    let d: int = utf8(decision).len() as int;
    let p: int = utf8(profile).len() as int;
    let w: int = utf8(window).len() as int;
    assert(base.len() == d + p + w + 2);
    assert(seed_material(decision, other_profile, window).len() == d + utf8(other_profile).len() + w
        + 2);
    if base == seed_material(other_decision, profile, window) {
        assert(utf8(other_decision).len() == d);
        assert(base.take(d) =~= utf8(decision));
        assert(base.take(d) =~= utf8(other_decision));
        lemma_utf8_injective(decision, other_decision);
    }
    if base == seed_material(decision, other_profile, window) {
        assert(utf8(other_profile).len() == p);
        assert(base.subrange(d + 1, d + 1 + p) =~= utf8(profile));
        assert(base.subrange(d + 1, d + 1 + p) =~= utf8(other_profile));
        lemma_utf8_injective(profile, other_profile);
    }
    if base == seed_material(decision, profile, other_window) {
        assert(base.skip(d + p + 2) =~= utf8(window));
        assert(base.skip(d + p + 2) =~= utf8(other_window));
        lemma_utf8_injective(window, other_window);
    }
}

proof fn lemma_seed_material(decision: Seq<char>, profile: Seq<char>, window: Seq<char>)
    ensures
        seed_material(decision, profile, window) == utf8(decision) + seq![0u8] + utf8(profile)
            + seq![0u8] + utf8(window),
{
    let none = Seq::<Seq<char>>::empty();
    assert(seq![profile, window] =~= none.push(profile).push(window));
    law_texts_are_joined_by_zeros(decision, none, profile);
    law_texts_are_joined_by_zeros(decision, none.push(profile), window);
    assert(seed_material(decision, profile, window) =~= utf8(decision) + seq![0u8] + utf8(profile)
        + seq![0u8] + utf8(window));
}

} // verus!
