use vstd::prelude::*;

verus! {

/// What each player has on the clock when a match begins, in milliseconds.
pub const INITIAL_TIME: u64 = 180000;

/// What a player gets for each move after the first of the match.
pub const INCREMENT: u64 = 2000;

/// How long after its start a match waits for the first move.
pub const START_WINDOW: u64 = 20000;

/// A reading of a clock that the server cannot use.
#[derive(Clone, Copy, Debug, PartialEq, Eq, Structural)]
pub enum ClockError {
    /// The system's clock stands before the Unix epoch.
    BeforeEpoch,
    /// The reading has more milliseconds than the server counts.
    TooLarge,
}

/// What is left of the time of a player who took `elapsed` for a move: the
/// increment is added and the time taken is taken off, down to nothing.
pub open spec fn time_left(remaining: int, elapsed: int) -> int {
    if elapsed >= remaining + INCREMENT {
        0
    } else {
        remaining + INCREMENT - elapsed
    }
}

/// What is left of the time of the player who moves now. The first move of a
/// match is free.
pub open spec fn time_after_move(
    first_move: bool,
    remaining: u64,
    last_move_time: u64,
    now: u64,
) -> int {
    if first_move {
        remaining as int
    } else {
        time_left(remaining as int, now - last_move_time)
    }
}

/// The clocks allow the time of a move to be worked out: the last move is not
/// ahead of the clock, and the increment does not overrun the counter.
pub open spec fn clocks_fit(
    first_move: bool,
    remaining: u64,
    last_move_time: u64,
    now: u64,
) -> bool {
    !first_move ==> {
        &&& last_move_time <= now
        &&& now - last_move_time <= INCREMENT ==> remaining + INCREMENT <= u64::MAX
    }
}

/// Where the server's clock stood at the time that a match was made.
pub open spec fn start_on_clock(clock_time: int, timestamp: int, now: int) -> int {
    clock_time + timestamp - now
}

/// How long to wait from `now` until a match made at `timestamp` is called
/// off for want of a first move.
pub open spec fn wait_for_first_move(timestamp: int, now: int) -> int {
    if now < timestamp + START_WINDOW {
        timestamp + START_WINDOW - now
    } else {
        0
    }
}

/// Takes a count of milliseconds as a clock gives it.
pub fn millis(reading: u128) -> (r: Result<u64, ClockError>)
    ensures
        match r {
            Ok(ms) => ms == reading,
            Err(e) => reading > u64::MAX && e == ClockError::TooLarge,
        },
{
    if reading <= u64::MAX as u128 {
        Ok(reading as u64)
    } else {
        Err(ClockError::TooLarge)
    }
}

/// What the player who moves now has left.
pub fn remaining_after_move(
    first_move: bool,
    remaining: u64,
    last_move_time: u64,
    now: u64,
) -> (left: u64)
    requires
        clocks_fit(first_move, remaining, last_move_time, now),
    ensures
        left == time_after_move(first_move, remaining, last_move_time, now),
{
    if first_move {
        remaining
    } else {
        let elapsed: u64 = now - last_move_time;
        if elapsed > INCREMENT {
            remaining.saturating_sub(elapsed - INCREMENT)
        } else {
            remaining + INCREMENT - elapsed
        }
    }
}

/// Where the server's clock stood when the match was made.
pub fn match_start(clock_time: u64, timestamp: u64, now: u64) -> (start: u64)
    requires
        clock_time + timestamp <= u64::MAX,
        now <= clock_time + timestamp,
    ensures
        start == start_on_clock(clock_time as int, timestamp as int, now as int),
{
    clock_time + timestamp - now
}

/// How long to wait for the first move of a match.
pub fn first_move_delay(timestamp: u64, now: u64) -> (delay: u64)
    requires
        timestamp + START_WINDOW <= u64::MAX,
    ensures
        delay == wait_for_first_move(timestamp as int, now as int),
{
    let target: u64 = timestamp + START_WINDOW;
    if now < target {
        target - now
    } else {
        0
    }
}

/// A move never leaves a player more than the increment above what there was,
/// and a slower move never leaves more than a faster one.
pub proof fn law_time_is_spent(remaining: nat, faster: nat, slower: nat)
    requires
        faster <= slower,
    ensures
        0 <= time_left(remaining as int, slower as int) <= time_left(
            remaining as int,
            faster as int,
        ) <= remaining + INCREMENT,
{
}

/// A player runs out of time exactly when a move takes all that was left and
/// the increment.
pub proof fn law_out_of_time(remaining: nat, elapsed: nat)
    ensures
        time_left(remaining as int, elapsed as int) == 0 <==> elapsed >= remaining + INCREMENT,
{
}

/// A match that hears of itself within the window is called off when its
/// start on the server's clock lies exactly one window back.
pub proof fn law_called_off_one_window_after_start(clock_time: nat, timestamp: nat, now: nat)
    requires
        now <= timestamp + START_WINDOW,
    ensures
        clock_time + wait_for_first_move(timestamp as int, now as int) == start_on_clock(
            clock_time as int,
            timestamp as int,
            now as int,
        ) + START_WINDOW,
{
}

} // verus!
