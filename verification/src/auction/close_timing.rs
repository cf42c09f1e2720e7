//! When an auction stops taking bids (rules §6.4.4 / §8.3.1-.2).
//!
//! Every auction, in every mode, closes by one rule:
//!
//! ```text
//! close_at = min(last_bid + quiet_window, all_bid_deadline)   clamped to the hard deadline
//! ```
//!
//! The hard deadline is absolute: an auction still taking bids is force-closed there and the last
//! bidder wins. An unbid veteran auction is the one auction without a bid to measure from: its
//! clock is the §6.3.4 tier ladder.
use crate::model::AuctionKind;
use crate::rules::{
    AUCTION_CRUNCH_EARLIEST_START_HOUR, AUCTION_CRUNCH_QUIET_WINDOW_HOURS,
    AUCTION_CRUNCH_WINDOW_HOURS, AUCTION_QUIET_WINDOW_HOURS, IN_SEASON_FA_EXTENSION_MINUTES,
    IN_SEASON_FA_FIRST_EXTENSION_TRIGGER_MINUTES, IN_SEASON_FA_LATER_EXTENSION_TRIGGER_MINUTES,
};
use crate::time::{
    cap_at, capped_at, day_of, in_utc_range, league_utc_offset, league_wall_clock, nanos_between,
    second_of_day, shifted, spec_league_wall_clock, TimeError, Timestamp, SECONDS_PER_DAY,
    SECONDS_PER_HOUR, SECONDS_PER_MINUTE,
};
use vstd::prelude::*;

verus! {

/// The quiet period, in seconds, a bid placed at `now` buys.
pub open spec fn spec_auction_quiet_window(
    now: Timestamp,
    maybe_crunch_window_start: Option<Timestamp>,
) -> int {
    if maybe_crunch_window_start matches Some(start) && start.not_after(now) {
        AUCTION_CRUNCH_QUIET_WINDOW_HOURS * SECONDS_PER_HOUR
    } else {
        AUCTION_QUIET_WINDOW_HOURS * SECONDS_PER_HOUR
    }
}

/// The quiet period a bid buys: 24h, or 1h once the preseason crunch window has opened. Pass
/// `None` for a mode that has no crunch window. Returned in seconds.
pub fn auction_quiet_window(now: Timestamp, maybe_crunch_window_start: Option<Timestamp>) -> (window: i64)
    ensures
        window == spec_auction_quiet_window(now, maybe_crunch_window_start),
{
    match maybe_crunch_window_start {
        Some(start) => {
            if start.is_not_after(&now) {
                AUCTION_CRUNCH_QUIET_WINDOW_HOURS * SECONDS_PER_HOUR
            } else {
                AUCTION_QUIET_WINDOW_HOURS * SECONDS_PER_HOUR
            }
        },
        None => AUCTION_QUIET_WINDOW_HOURS * SECONDS_PER_HOUR,
    }
}

/// When an auction whose last bid came at `last_bid_at` stops taking bids.
pub open spec fn spec_auction_close_at(
    last_bid_at: Timestamp,
    quiet_window: i64,
    maybe_all_bid_deadline: Option<Timestamp>,
    maybe_hard_deadline: Option<Timestamp>,
) -> Result<Timestamp, TimeError> {
    if in_utc_range(last_bid_at.seconds + quiet_window) {
        Ok(
            capped_at(
                capped_at(shifted(last_bid_at, quiet_window as int), maybe_all_bid_deadline),
                maybe_hard_deadline,
            ),
        )
    } else {
        Err(TimeError::OutOfRange)
    }
}

/// When an auction stops taking bids: the last bid's quiet window, cut short by whichever of the
/// all-bid deadline (§8.2.2) and the hard deadline arrives first. Both are absolute.
pub fn auction_close_at(
    last_bid_at: Timestamp,
    quiet_window: i64,
    maybe_all_bid_deadline: Option<Timestamp>,
    maybe_hard_deadline: Option<Timestamp>,
) -> (close_at: Result<Timestamp, TimeError>)
    ensures
        close_at == spec_auction_close_at(
            last_bid_at,
            quiet_window,
            maybe_all_bid_deadline,
            maybe_hard_deadline,
        ),
{
    match last_bid_at.checked_add_seconds(quiet_window) {
        Some(quiet_window_end) => {
            Ok(cap_at(cap_at(quiet_window_end, maybe_all_bid_deadline), maybe_hard_deadline))
        },
        None => Err(TimeError::OutOfRange),
    }
}

/// When an auction opened at `start` and replayed in one go closes: its quiet window from the
/// opening, with no deadline to cut it short.
pub fn new_auction_close_at(start: Timestamp) -> (close_at: Result<Timestamp, TimeError>)
    ensures
        close_at == spec_auction_close_at(
            start,
            (AUCTION_QUIET_WINDOW_HOURS * SECONDS_PER_HOUR) as i64,
            None,
            None,
        ),
{
    auction_close_at(start, auction_quiet_window(start, None), None, None)
}

/// A close time never runs past any clock that binds it, and it is always one of them.
pub proof fn lemma_close_at_is_the_earliest_clock(
    last_bid_at: Timestamp,
    quiet_window: i64,
    maybe_all_bid_deadline: Option<Timestamp>,
    maybe_hard_deadline: Option<Timestamp>,
)
    ensures
        spec_auction_close_at(last_bid_at, quiet_window, maybe_all_bid_deadline, maybe_hard_deadline)
            matches Ok(close_at) ==> {
            let quiet_window_end = shifted(last_bid_at, quiet_window as int);
            &&& close_at.not_after(quiet_window_end)
            &&& maybe_all_bid_deadline matches Some(all_bid) ==> close_at.not_after(all_bid)
            &&& maybe_hard_deadline matches Some(hard) ==> close_at.not_after(hard)
            &&& (close_at == quiet_window_end || maybe_all_bid_deadline == Some(close_at)
                || maybe_hard_deadline == Some(close_at))
        },
{
}

/// The all-bid deadline after a bid at `now`, when the bid rolls it.
pub open spec fn spec_rolled_all_bid_deadline(
    now: Timestamp,
    all_bid_deadline: Timestamp,
    original_all_bid_deadline: Timestamp,
    maybe_hard_deadline: Option<Timestamp>,
) -> Option<Timestamp> {
    let trigger_minutes = if all_bid_deadline.same_instant(original_all_bid_deadline) {
        IN_SEASON_FA_FIRST_EXTENSION_TRIGGER_MINUTES
    } else {
        IN_SEASON_FA_LATER_EXTENSION_TRIGGER_MINUTES
    };
    let extension = IN_SEASON_FA_EXTENSION_MINUTES * SECONDS_PER_MINUTE;
    if !now.before(all_bid_deadline) || nanos_between(now, all_bid_deadline) > trigger_minutes
        * 60_000_000_000 {
        None
    } else if !in_utc_range(all_bid_deadline.seconds + extension) {
        None
    } else {
        let clamped = capped_at(shifted(all_bid_deadline, extension as int), maybe_hard_deadline);
        if all_bid_deadline.before(clamped) {
            Some(clamped)
        } else {
            None
        }
    }
}

/// The §8.3.2 roll a late in-season bid earns: 30 minutes onto the all-bid deadline.
///
/// `None` when the bid is too early to move the deadline, or when the hard deadline already caps
/// it. The trigger has two widths: 60 minutes while the deadline is still the week's original one,
/// 30 minutes once it has been extended.
pub fn rolled_all_bid_deadline(
    now: Timestamp,
    all_bid_deadline: Timestamp,
    original_all_bid_deadline: Timestamp,
    maybe_hard_deadline: Option<Timestamp>,
) -> (rolled: Option<Timestamp>)
    ensures
        rolled == spec_rolled_all_bid_deadline(
            now,
            all_bid_deadline,
            original_all_bid_deadline,
            maybe_hard_deadline,
        ),
{
    let trigger_minutes: i64 = if all_bid_deadline.is_same_instant(&original_all_bid_deadline) {
        IN_SEASON_FA_FIRST_EXTENSION_TRIGGER_MINUTES
    } else {
        IN_SEASON_FA_LATER_EXTENSION_TRIGGER_MINUTES
    };
    if !now.is_before(&all_bid_deadline) {
        return None;
    }
    let gap: i128 = (all_bid_deadline.seconds as i128 - now.seconds as i128) * 1_000_000_000
        + (all_bid_deadline.nanos as i128 - now.nanos as i128);
    if gap > trigger_minutes as i128 * 60_000_000_000 {
        return None;
    }
    match all_bid_deadline.checked_add_seconds(IN_SEASON_FA_EXTENSION_MINUTES * SECONDS_PER_MINUTE) {
        None => None,
        Some(extended) => {
            let clamped = cap_at(extended, maybe_hard_deadline);
            if all_bid_deadline.is_before(&clamped) {
                Some(clamped)
            } else {
                None
            }
        },
    }
}

/// An extension chain only ever moves the deadline later, and never past the hard deadline.
pub proof fn lemma_roll_moves_forward_within_the_hard_deadline(
    now: Timestamp,
    all_bid_deadline: Timestamp,
    original_all_bid_deadline: Timestamp,
    maybe_hard_deadline: Option<Timestamp>,
)
    ensures
        spec_rolled_all_bid_deadline(
            now,
            all_bid_deadline,
            original_all_bid_deadline,
            maybe_hard_deadline,
        ) matches Some(rolled) ==> {
            &&& all_bid_deadline.before(rolled)
            &&& maybe_hard_deadline matches Some(hard) ==> rolled.not_after(hard)
            &&& rolled.not_after(
                shifted(all_bid_deadline, IN_SEASON_FA_EXTENSION_MINUTES * SECONDS_PER_MINUTE),
            )
        },
{
}

/// The league wall-clock hour an instant reads.
pub open spec fn league_hour(moment: Timestamp) -> int {
    second_of_day(moment.seconds + league_utc_offset(moment.seconds)) / (SECONDS_PER_HOUR as int)
}

/// When the preseason crunch window opens for a hard deadline.
pub open spec fn spec_crunch_window_start(hard_deadline: Timestamp) -> Result<Timestamp, TimeError> {
    let window_seconds = AUCTION_CRUNCH_WINDOW_HOURS * SECONDS_PER_HOUR;
    if !in_utc_range(hard_deadline.seconds - window_seconds) {
        Err(TimeError::OutOfRange)
    } else {
        let window_start = shifted(hard_deadline, -window_seconds).spec_in_league_time();
        let local = window_start.local_seconds();
        if second_of_day(local) / (SECONDS_PER_HOUR as int) >= AUCTION_CRUNCH_EARLIEST_START_HOUR {
            Ok(window_start)
        } else {
            let eight_am = day_of(local) * SECONDS_PER_DAY + AUCTION_CRUNCH_EARLIEST_START_HOUR
                * SECONDS_PER_HOUR;
            if !in_utc_range(eight_am) {
                Err(TimeError::NoSuchWallClock)
            } else {
                match spec_league_wall_clock(eight_am as i64) {
                    Some(opening) => Ok(opening),
                    None => Err(TimeError::NoSuchWallClock),
                }
            }
        }
    }
}

/// When the preseason crunch window opens: 24h before the hard deadline, moved forward to 8:00am
/// league time if that lands between midnight and 8:00am.
pub fn crunch_window_start(hard_deadline: Timestamp) -> (start: Result<Timestamp, TimeError>)
    requires
        hard_deadline.wf(),
    ensures
        start == spec_crunch_window_start(hard_deadline),
        // The window never opens before 8:00am on the league's wall clock.
        start matches Ok(opening) ==> league_hour(opening) >= AUCTION_CRUNCH_EARLIEST_START_HOUR,
{
    let window_seconds: i64 = AUCTION_CRUNCH_WINDOW_HOURS * SECONDS_PER_HOUR;
    let shifted_back = match hard_deadline.checked_add_seconds(-window_seconds) {
        Some(moment) => moment,
        None => return Err(TimeError::OutOfRange),
    };
    let window_start = shifted_back.in_league_time();
    let local: i64 = window_start.seconds + window_start.offset_seconds as i64;
    let second_of_local_day: i64 = local - crate::time::floor_div_day(local) * SECONDS_PER_DAY;
    proof {
        vstd::arithmetic::div_mod::lemma_fundamental_div_mod(local as int, SECONDS_PER_DAY as int);
    }
    if second_of_local_day / SECONDS_PER_HOUR >= AUCTION_CRUNCH_EARLIEST_START_HOUR {
        return Ok(window_start);
    }
    let day: i64 = crate::time::floor_div_day(local);
    let eight_am: i128 = day as i128 * SECONDS_PER_DAY as i128 + (AUCTION_CRUNCH_EARLIEST_START_HOUR
        * SECONDS_PER_HOUR) as i128;
    if !(crate::time::MIN_UTC_SECONDS as i128 <= eight_am && eight_am
        <= crate::time::MAX_UTC_SECONDS as i128) {
        return Err(TimeError::NoSuchWallClock);
    }
    match league_wall_clock(eight_am as i64) {
        Some(opening) => {
            proof {
                vstd::arithmetic::div_mod::lemma_fundamental_div_mod_converse_mod(
                    eight_am as int,
                    SECONDS_PER_DAY as int,
                    day as int,
                    AUCTION_CRUNCH_EARLIEST_START_HOUR * SECONDS_PER_HOUR,
                );
            }
            Ok(opening)
        },
        None => Err(TimeError::NoSuchWallClock),
    }
}

/// The clocks an auction's mode imposes, as opposed to the ones its own bids set.
#[derive(Clone, Copy, Debug)]
pub struct AuctionModeDeadlines {
    /// The instant past which the auction cannot take bids; `None` when the season has no lock
    /// left.
    pub hard_deadline: Option<Timestamp>,
    /// When the quiet window shortens to 1h; `None` in-season.
    pub crunch_window_start: Option<Timestamp>,
}

/// The preseason clocks: the final roster lock is the hard deadline and sets the crunch window.
pub fn preseason_mode_deadlines(final_roster_lock: Timestamp) -> (deadlines: Result<
    AuctionModeDeadlines,
    TimeError,
>)
    requires
        final_roster_lock.wf(),
    ensures
        deadlines is Ok <==> spec_crunch_window_start(final_roster_lock) is Ok,
        deadlines matches Ok(found) ==> {
            &&& found.hard_deadline == Some(final_roster_lock)
            &&& found.crunch_window_start == Some(
                spec_crunch_window_start(final_roster_lock)->Ok_0,
            )
        },
        deadlines matches Err(error) ==> spec_crunch_window_start(final_roster_lock) == Err::<
            Timestamp,
            TimeError,
        >(error),
{
    match crunch_window_start(final_roster_lock) {
        Ok(start) => Ok(
            AuctionModeDeadlines {
                hard_deadline: Some(final_roster_lock),
                crunch_window_start: Some(start),
            },
        ),
        Err(error) => Err(error),
    }
}

/// The in-season clocks: the earlier of the next roster lock still to fire and the free agency
/// freeze (rules §8.1.3) is the hard deadline, and there is no crunch window.
pub fn in_season_mode_deadlines(
    maybe_next_roster_lock: Option<Timestamp>,
    fa_auction_end: Timestamp,
) -> (deadlines: AuctionModeDeadlines)
    ensures
        deadlines.hard_deadline == Some(
            match maybe_next_roster_lock {
                Some(roster_lock) => crate::time::earlier_of(roster_lock, fa_auction_end),
                None => fa_auction_end,
            },
        ),
        deadlines.crunch_window_start is None,
{
    let hard_deadline = match maybe_next_roster_lock {
        Some(roster_lock) => roster_lock.earliest(fa_auction_end),
        None => fa_auction_end,
    };
    AuctionModeDeadlines { hard_deadline: Some(hard_deadline), crunch_window_start: None }
}

/// An open auction's clock, as the crunch window sweep reads it.
#[derive(Clone, Copy, Debug)]
pub struct OpenAuctionClock {
    pub auction_id: i64,
    /// When its latest bid was placed; `None` for an unbid auction.
    pub maybe_last_bid_at: Option<Timestamp>,
    pub maybe_all_bid_deadline: Option<Timestamp>,
    pub close_at: Timestamp,
}

/// The close time the crunch window gives one open auction, when it is earlier than its current one.
pub open spec fn spec_crunch_close_at(
    now: Timestamp,
    mode_deadlines: AuctionModeDeadlines,
    clock: OpenAuctionClock,
) -> Result<Option<Timestamp>, TimeError> {
    match clock.maybe_last_bid_at {
        None => Ok(None),
        Some(last_bid_at) => match spec_auction_close_at(
            last_bid_at,
            spec_auction_quiet_window(now, mode_deadlines.crunch_window_start) as i64,
            clock.maybe_all_bid_deadline,
            mode_deadlines.hard_deadline,
        ) {
            Err(error) => Err(error),
            Ok(shortened) => if shortened.before(clock.close_at) {
                Ok(Some(shortened))
            } else {
                Ok(None)
            },
        },
    }
}

/// Whether the sweep has anything to do at `now`.
pub open spec fn crunch_window_open(now: Timestamp, mode_deadlines: AuctionModeDeadlines) -> bool {
    mode_deadlines.crunch_window_start matches Some(start) && start.not_after(now)
}

/// The close times the crunch window sweep moves to, before any is applied: for each shortened
/// auction, its id and its new close time, in input order.
pub open spec fn spec_crunch_window_shortenings(
    now: Timestamp,
    mode_deadlines: AuctionModeDeadlines,
    clocks: Seq<OpenAuctionClock>,
) -> Result<Seq<(i64, Timestamp)>, TimeError>
    decreases clocks.len(),
{
    if !crunch_window_open(now, mode_deadlines) || clocks.len() == 0 {
        Ok(Seq::empty())
    } else {
        match spec_crunch_window_shortenings(now, mode_deadlines, clocks.drop_last()) {
            Err(error) => Err(error),
            Ok(earlier) => match spec_crunch_close_at(now, mode_deadlines, clocks.last()) {
                Err(error) => Err(error),
                Ok(None) => Ok(earlier),
                Ok(Some(shortened)) => Ok(earlier.push((clocks.last().auction_id, shortened))),
            },
        }
    }
}

/// Shortens every bid-on open preseason auction to its last bid + 1h once the crunch window has
/// opened, clamped to the hard deadline. Unbid auctions are left alone: their clock is the tier
/// ladder. Returns the moves to apply; the first error stops the sweep.
pub fn crunch_window_shortenings(
    now: Timestamp,
    mode_deadlines: AuctionModeDeadlines,
    clocks: &Vec<OpenAuctionClock>,
) -> (shortenings: Result<Vec<(i64, Timestamp)>, TimeError>)
    ensures
        match spec_crunch_window_shortenings(now, mode_deadlines, clocks@) {
            Ok(expected) => shortenings matches Ok(found) && found@ == expected,
            Err(error) => shortenings == Err::<Vec<(i64, Timestamp)>, TimeError>(error),
        },
{
    let mut moves: Vec<(i64, Timestamp)> = Vec::new();
    let window_open = match mode_deadlines.crunch_window_start {
        Some(start) => start.is_not_after(&now),
        None => false,
    };
    if !window_open {
        return Ok(moves);
    }
    let quiet_window = auction_quiet_window(now, mode_deadlines.crunch_window_start);
    let mut index: usize = 0;
    while index < clocks.len()
        invariant
            index <= clocks.len(),
            crunch_window_open(now, mode_deadlines),
            quiet_window == spec_auction_quiet_window(now, mode_deadlines.crunch_window_start),
            spec_crunch_window_shortenings(now, mode_deadlines, clocks@.take(index as int)) == Ok::<
                Seq<(i64, Timestamp)>,
                TimeError,
            >(moves@),
        decreases clocks.len() - index,
    {
        let clock = clocks[index];
        proof {
            assert(clocks@.take(index + 1).drop_last() =~= clocks@.take(index as int));
        }
        match clock.maybe_last_bid_at {
            None => {},
            Some(last_bid_at) => {
                match auction_close_at(
                    last_bid_at,
                    quiet_window,
                    clock.maybe_all_bid_deadline,
                    mode_deadlines.hard_deadline,
                ) {
                    Err(error) => {
                        proof {
                            lemma_shortening_error_persists(
                                now,
                                mode_deadlines,
                                clocks@,
                                index as int + 1,
                            );
                        }
                        return Err(error);
                    },
                    Ok(shortened) => {
                        if shortened.is_before(&clock.close_at) {
                            moves.push((clock.auction_id, shortened));
                        }
                    },
                }
            },
        }
        index += 1;
    }
    proof {
        assert(clocks@.take(clocks.len() as int) =~= clocks@);
    }
    Ok(moves)
}

/// Once a prefix of the sweep fails, the whole sweep fails with the same error.
proof fn lemma_shortening_error_persists(
    now: Timestamp,
    mode_deadlines: AuctionModeDeadlines,
    clocks: Seq<OpenAuctionClock>,
    failed_prefix: int,
)
    requires
        0 < failed_prefix <= clocks.len(),
        spec_crunch_window_shortenings(now, mode_deadlines, clocks.take(failed_prefix)) is Err,
    ensures
        spec_crunch_window_shortenings(now, mode_deadlines, clocks) == spec_crunch_window_shortenings(
            now,
            mode_deadlines,
            clocks.take(failed_prefix),
        ),
    decreases clocks.len() - failed_prefix,
{
    if failed_prefix < clocks.len() {
        let next = clocks.take(failed_prefix + 1);
        assert(next.drop_last() =~= clocks.take(failed_prefix));
        lemma_shortening_error_persists(now, mode_deadlines, clocks, failed_prefix + 1);
    } else {
        assert(clocks.take(failed_prefix) =~= clocks);
    }
}

/// The sweep only ever moves a close time earlier, so a second run over an auction it moved is a
/// no-op.
pub proof fn lemma_crunch_sweep_is_idempotent(
    now: Timestamp,
    mode_deadlines: AuctionModeDeadlines,
    clock: OpenAuctionClock,
)
    ensures
        spec_crunch_close_at(now, mode_deadlines, clock) matches Ok(Some(shortened)) ==> {
            &&& shortened.before(clock.close_at)
            &&& spec_crunch_close_at(
                now,
                mode_deadlines,
                OpenAuctionClock { close_at: shortened, ..clock },
            ) == Ok::<Option<Timestamp>, TimeError>(None)
        },
{
}

/// An open auction's clock once the sweep's move for it, if any, is applied.
pub open spec fn swept_clock(
    now: Timestamp,
    mode_deadlines: AuctionModeDeadlines,
    clock: OpenAuctionClock,
) -> OpenAuctionClock {
    match spec_crunch_close_at(now, mode_deadlines, clock) {
        Ok(Some(shortened)) => OpenAuctionClock { close_at: shortened, ..clock },
        _ => clock,
    }
}

/// Running the crunch sweep again at the same time, over the clocks its moves left, moves nothing:
/// a sweep that succeeded once succeeds again with no shortening.
pub proof fn lemma_repeated_sweep_moves_nothing(
    now: Timestamp,
    mode_deadlines: AuctionModeDeadlines,
    clocks: Seq<OpenAuctionClock>,
)
    requires
        spec_crunch_window_shortenings(now, mode_deadlines, clocks) is Ok,
    ensures
        spec_crunch_window_shortenings(
            now,
            mode_deadlines,
            clocks.map_values(|clock: OpenAuctionClock| swept_clock(now, mode_deadlines, clock)),
        ) == Ok::<Seq<(i64, Timestamp)>, TimeError>(Seq::empty()),
    decreases clocks.len(),
{
    let swept = clocks.map_values(|clock: OpenAuctionClock| swept_clock(now, mode_deadlines, clock));
    if crunch_window_open(now, mode_deadlines) && clocks.len() > 0 {
        let prefix = clocks.drop_last();
        lemma_repeated_sweep_moves_nothing(now, mode_deadlines, prefix);
        assert(swept.drop_last() =~= prefix.map_values(
            |clock: OpenAuctionClock| swept_clock(now, mode_deadlines, clock),
        ));
        lemma_crunch_sweep_is_idempotent(now, mode_deadlines, clocks.last());
        assert(swept.last() == swept_clock(now, mode_deadlines, clocks.last()));
    }
}

} // verus!
