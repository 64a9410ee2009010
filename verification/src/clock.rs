//! Conversions between the monotonic clock and the wall clock.
//!
//! Points in time are nanoseconds: since an origin of the machine's choice on
//! the monotonic clock, since the Unix epoch, or before it, on the wall clock.

use vstd::prelude::*;

verus! {

/// How long ago a point in time is; nothing when it lies in the future.
pub open spec fn elapsed(then: u128, now: u128) -> u128 {
    if then <= now {
        (now - then) as u128
    } else {
        0
    }
}

/// The point in time that lies `span` back, or now when the clock cannot go
/// back that far.
pub open spec fn back(now: u128, span: u128) -> u128 {
    if span <= now {
        (now - span) as u128
    } else {
        now
    }
}

/// How long ago a wall-clock time is; nothing when it lies in the future.
pub open spec fn wall_elapsed(then: i128, now: i128) -> u128 {
    if then <= now {
        (now - then) as u128
    } else {
        0
    }
}

/// The wall-clock time that lies `span` back, or now when the wall clock cannot
/// go back that far.
pub open spec fn wall_back(wall_now: i128, span: u128) -> i128 {
    if wall_now - span >= i128::MIN {
        (wall_now - span) as i128
    } else {
        wall_now
    }
}

/// The wall-clock time of a point on the monotonic clock. It may lie before the
/// Unix epoch.
pub open spec fn wall_time(instant: u128, now: u128, wall_now: i128) -> i128 {
    wall_back(wall_now, elapsed(instant, now))
}

/// The point on the monotonic clock of a wall-clock time; a time in the future
/// has none.
pub open spec fn instant_of(wall: i128, now: u128, wall_now: i128) -> Option<u128> {
    if wall <= wall_now {
        Some(back(now, (wall_now - wall) as u128))
    } else {
        None
    }
}

/// How long ago a point in time is; nothing when it lies in the future.
pub fn elapsed_since(then: u128, now: u128) -> (span: u128)
    ensures
        span == elapsed(then, now),
{
    if then <= now {
        now - then
    } else {
        0
    }
}

/// The point in time that lies `span` back, or now when the clock cannot go
/// back that far.
pub fn go_back(now: u128, span: u128) -> (then: u128)
    ensures
        then == back(now, span),
{
    if span <= now {
        now - span
    } else {
        now
    }
}

/// How long ago a wall-clock time is; nothing when it lies in the future.
pub fn wall_elapsed_since(then: i128, now: i128) -> (span: u128)
    ensures
        span == wall_elapsed(then, now),
{
    if then > now {
        0
    } else if then >= 0 || now < 0 {
        (now - then) as u128
    } else {
        now as u128 + (-(then + 1)) as u128 + 1
    }
}

/// The wall-clock time that lies `span` back, or now when the wall clock cannot
/// go back that far.
pub fn go_back_on_the_wall(wall_now: i128, span: u128) -> (then: i128)
    ensures
        then == wall_back(wall_now, span),
{
    let reach: u128 = wall_elapsed_since(i128::MIN, wall_now);
    if span > reach {
        return wall_now;
    }
    let half: u128 = 0x8000_0000_0000_0000_0000_0000_0000_0000;
    if span < half {
        wall_now - span as i128
    } else {
        (wall_now - (span - half) as i128) + i128::MIN
    }
}

/// The wall-clock time of a point on the monotonic clock.
pub fn to_wall_time(instant: u128, now: u128, wall_now: i128) -> (wall: i128)
    ensures
        wall == wall_time(instant, now, wall_now),
{
    go_back_on_the_wall(wall_now, elapsed_since(instant, now))
}

/// The point on the monotonic clock of a wall-clock time; a time in the future
/// has none.
pub fn to_instant(wall: i128, now: u128, wall_now: i128) -> (instant: Option<u128>)
    ensures
        instant == instant_of(wall, now, wall_now),
{
    if wall <= wall_now {
        Some(go_back(now, wall_elapsed_since(wall, wall_now)))
    } else {
        None
    }
}

/// A session keeps its creation time over a save and a restore: converted to
/// the wall clock when it is saved and back when it is restored, by clocks
/// that reach back that far, a point in time is as long ago as it was, plus
/// the time that went by in between.
pub proof fn law_times_survive_a_restart(
    instant: u128,
    saved: u128,
    wall_saved: i128,
    restored: u128,
    wall_restored: i128,
)
    requires
        instant <= saved,
        wall_saved - (saved - instant) >= i128::MIN,
        wall_saved <= wall_restored,
        wall_restored - wall_saved + (saved - instant) <= restored,
    ensures
        instant_of(wall_time(instant, saved, wall_saved), restored, wall_restored) matches Some(
            then,
        ) && elapsed(then, restored) == elapsed(instant, saved) + (wall_restored - wall_saved),
{
}

/// What went by since a point in time, added to it, gives now; nothing goes by
/// since a point in the future.
pub proof fn law_elapsed_time_adds_up(then: u128, now: u128, wall_then: i128, wall_now: i128)
    ensures
        then <= now ==> then + elapsed(then, now) == now,
        then > now ==> elapsed(then, now) == 0,
        wall_then <= wall_now ==> wall_then + wall_elapsed(wall_then, wall_now) == wall_now,
        wall_then > wall_now ==> wall_elapsed(wall_then, wall_now) == 0,
{
}

/// Going back a span and on again leads back to now, as far as the clock reaches;
/// beyond that there is no going back.
pub proof fn law_going_back_is_undone_by_waiting(now: u128, wall_now: i128, span: u128)
    ensures
        span <= now ==> back(now, span) + span == now,
        span > now ==> back(now, span) == now,
        wall_now - span >= i128::MIN ==> wall_back(wall_now, span) + span == wall_now,
        wall_now - span < i128::MIN ==> wall_back(wall_now, span) == wall_now,
{
}

/// A point in time is as long ago on the wall clock as it is on the monotonic
/// clock; one in the future counts as now.
pub proof fn law_both_clocks_agree_on_the_age(instant: u128, now: u128, wall_now: i128)
    ensures
        instant <= now && wall_now - (now - instant) >= i128::MIN ==> wall_now - wall_time(
            instant,
            now,
            wall_now,
        ) == now - instant,
        instant > now ==> wall_time(instant, now, wall_now) == wall_now,
        instant <= now ==> wall_time(instant, now, wall_now) <= wall_now,
{
}

/// A wall-clock time has a point on the monotonic clock unless it lies in the
/// future; it is as long ago there, as far as that clock reaches.
pub proof fn law_wall_times_have_their_instants(wall: i128, now: u128, wall_now: i128)
    ensures
        wall > wall_now <==> instant_of(wall, now, wall_now) is None,
        wall <= wall_now && wall_now - wall <= now ==> (instant_of(
            wall,
            now,
            wall_now,
        ) matches Some(instant) && now - instant == wall_now - wall),
        wall <= wall_now && wall_now - wall > now ==> instant_of(wall, now, wall_now) == Some(now),
{
}

} // verus!
