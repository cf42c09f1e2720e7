//! Scheduling a season's veteran auction pool (rules §6.3).
//!
//! Pool membership comes from eligibility; this module turns it into `auction_schedule` rows
//! (release date, nomination rank, min-bid tier), decides each released auction's minimum bid, and
//! walks unbid auctions down the tier ladder.
use crate::eligibility::pools::VeteranAuctionPool;
use crate::model::{ContractKind, RelatedPlayer};
use crate::rules::{VETERAN_AUCTION_PLAYERS_RELEASED_PER_DAY, VETERAN_AUCTION_RFA_WEEK_DAYS};
use crate::time::{checked_add_days, spec_checked_add_days, valid_day};
use vstd::prelude::*;

verus! {

/// Ranks are 1-based and only meaningful for the ranked list; anything beyond `i16` is unranked.
pub open spec fn spec_rank_number(maybe_position: Option<int>) -> Option<i16> {
    match maybe_position {
        Some(position) => if position + 1 <= i16::MAX {
            Some((position + 1) as i16)
        } else {
            None
        },
        None => None,
    }
}

/// The 1-based nomination rank of a 0-based position in the ranked list.
pub fn rank_number(maybe_position: Option<usize>) -> (rank: Option<i16>)
    ensures
        rank == spec_rank_number(
            match maybe_position {
                Some(position) => Some(position as int),
                None => None,
            },
        ),
{
    match maybe_position {
        Some(position) => {
            if position < i16::MAX as usize {
                Some((position + 1) as i16)
            } else {
                None
            }
        },
        None => None,
    }
}

/// The tier a ranked position falls in when ranked players spread evenly over the tiers.
pub open spec fn spec_tier_slot(ranked_position: int, ranked_count: int, tier_count: int) -> int {
    if ranked_count == 0 || tier_count == 0 {
        0
    } else if ranked_position * tier_count / ranked_count >= tier_count {
        tier_count - 1
    } else {
        ranked_position * tier_count / ranked_count
    }
}

/// Ranked players spread evenly over the configured tiers, best rank into the top tier (§6.3.4).
pub fn tier_slot(ranked_position: usize, ranked_count: usize, tier_count: usize) -> (slot: usize)
    ensures
        slot == spec_tier_slot(ranked_position as int, ranked_count as int, tier_count as int),
{
    if ranked_count == 0 || tier_count == 0 {
        return 0;
    }
    proof {
        let p = ranked_position as int;
        let t = tier_count as int;
        assert(0 <= p * t <= 0xffff_ffff_ffff_ffff * 0xffff_ffff_ffff_ffff) by (nonlinear_arith)
            requires
                0 <= p <= 0xffff_ffff_ffff_ffff,
                0 <= t <= 0xffff_ffff_ffff_ffff,
        ;
    }
    let product: u128 = ranked_position as u128 * tier_count as u128;
    let slot: u128 = product / ranked_count as u128;
    if slot >= tier_count as u128 {
        tier_count - 1
    } else {
        slot as usize
    }
}

/// Every ranked player lands in a configured tier, and a better rank never lands in a lower tier.
pub proof fn lemma_tier_slot_is_a_monotone_tier(
    earlier_position: int,
    later_position: int,
    ranked_count: int,
    tier_count: int,
)
    requires
        0 <= earlier_position <= later_position,
        ranked_count > 0,
        tier_count > 0,
    ensures
        0 <= spec_tier_slot(later_position, ranked_count, tier_count) < tier_count,
        spec_tier_slot(earlier_position, ranked_count, tier_count) <= spec_tier_slot(
            later_position,
            ranked_count,
            tier_count,
        ),
{
    assert(earlier_position * tier_count <= later_position * tier_count) by (nonlinear_arith)
        requires
            earlier_position <= later_position,
            tier_count > 0,
    ;
    assert(0 <= earlier_position * tier_count) by (nonlinear_arith)
        requires
            0 <= earlier_position,
            tier_count > 0,
    ;
    vstd::arithmetic::div_mod::lemma_div_is_ordered(
        earlier_position * tier_count,
        later_position * tier_count,
        ranked_count,
    );
    vstd::arithmetic::div_mod::lemma_div_pos_is_pos(earlier_position * tier_count, ranked_count);
}

/// The configured tier value directly below `current`: the largest tier amount under it.
pub open spec fn spec_next_lower_min_bid_amount(tiers: Seq<i16>, current: i16) -> Option<i16>
    decreases tiers.len(),
{
    if tiers.len() == 0 {
        None
    } else {
        let earlier = spec_next_lower_min_bid_amount(tiers.drop_last(), current);
        let last = tiers.last();
        if last < current && (earlier is None || earlier->0 <= last) {
            Some(last)
        } else {
            earlier
        }
    }
}

/// The configured tier value directly below `current_min_bid_amount`, `None` at the bottom tier.
///
/// Depends only on the auction's own current minimum, which is what makes the slide
/// non-cascading (rules §6.3.5).
pub fn next_lower_min_bid_amount(tier_min_bid_amounts: &Vec<i16>, current_min_bid_amount: i16) -> (next:
    Option<i16>)
    ensures
        next == spec_next_lower_min_bid_amount(tier_min_bid_amounts@, current_min_bid_amount),
{
    let mut best: Option<i16> = None;
    let mut index: usize = 0;
    while index < tier_min_bid_amounts.len()
        invariant
            index <= tier_min_bid_amounts.len(),
            best == spec_next_lower_min_bid_amount(
                tier_min_bid_amounts@.take(index as int),
                current_min_bid_amount,
            ),
        decreases tier_min_bid_amounts.len() - index,
    {
        let amount = tier_min_bid_amounts[index];
        proof {
            assert(tier_min_bid_amounts@.take(index + 1).drop_last() =~= tier_min_bid_amounts@.take(
                index as int,
            ));
        }
        if amount < current_min_bid_amount {
            match best {
                None => {
                    best = Some(amount);
                },
                Some(current_best) => {
                    if current_best <= amount {
                        best = Some(amount);
                    }
                },
            }
        }
        index += 1;
    }
    proof {
        assert(tier_min_bid_amounts@.take(tier_min_bid_amounts.len() as int)
            =~= tier_min_bid_amounts@);
    }
    best
}

/// The slide is one step down the ladder: the next value is a configured tier strictly below the
/// current minimum, and no configured tier lies strictly between the two. No lower tier means
/// the current minimum is at or below every tier.
pub proof fn lemma_slide_is_one_step_down(tiers: Seq<i16>, current: i16)
    ensures
        match spec_next_lower_min_bid_amount(tiers, current) {
            Some(next) => {
                &&& next < current
                &&& tiers.contains(next)
                &&& forall|i: int| 0 <= i < tiers.len() && tiers[i] < current ==> tiers[i] <= next
            },
            None => forall|i: int| 0 <= i < tiers.len() ==> tiers[i] >= current,
        },
    decreases tiers.len(),
{
    if tiers.len() > 0 {
        let rest = tiers.drop_last();
        lemma_slide_is_one_step_down(rest, current);
        assert forall|i: int| 0 <= i < tiers.len() - 1 implies tiers[i] == rest[i] by {}
        if let Some(next) = spec_next_lower_min_bid_amount(tiers, current) {
            if next == tiers.last() {
                assert(tiers[tiers.len() - 1] == next);
            } else {
                let k = choose|k: int| 0 <= k < rest.len() && rest[k] == next;
                assert(tiers[k] == next);
            }
        }
    }
}

/// Releases are staggered a fixed number of players per day (§6.3.3): the day a 0-based position
/// releases on.
pub open spec fn spec_release_date(first_date: int, position: int, players_per_day: int) -> Option<
    int,
> {
    spec_checked_add_days(first_date, position / (if players_per_day >= 1 { players_per_day } else { 1 }))
}

/// The release day of the player at `position`, `None` off the calendar.
pub fn release_date(first_date: i64, position: usize, players_per_day: usize) -> (day: Option<i64>)
    requires
        valid_day(first_date as int),
    ensures
        day == (match spec_release_date(first_date as int, position as int, players_per_day as int) {
            Some(found) => Some(found as i64),
            None => None::<i64>,
        }),
{
    let per_day: usize = if players_per_day >= 1 {
        players_per_day
    } else {
        1
    };
    checked_add_days(first_date, (position / per_day) as u64)
}

/// A real NBA player's id; league-created players are rookie draft material.
pub open spec fn spec_real_player_id(related_player: RelatedPlayer) -> Option<i64> {
    match related_player {
        RelatedPlayer::Player(player_id) => Some(player_id),
        RelatedPlayer::LeaguePlayer(_) => None,
    }
}

/// The real NBA player id of a pool member, if it is one.
pub fn real_player_id(related_player: &RelatedPlayer) -> (player_id: Option<i64>)
    ensures
        player_id == spec_real_player_id(*related_player),
{
    match related_player {
        RelatedPlayer::Player(player_id) => Some(*player_id),
        RelatedPlayer::LeaguePlayer(_) => None,
    }
}

/// The real NBA player ids of a list of pool members, in order.
pub open spec fn real_player_ids(members: Seq<RelatedPlayer>) -> Seq<i64>
    decreases members.len(),
{
    if members.len() == 0 {
        Seq::empty()
    } else {
        let earlier = real_player_ids(members.drop_last());
        match spec_real_player_id(members.last()) {
            Some(player_id) => earlier.push(player_id),
            None => earlier,
        }
    }
}

fn push_real_player_ids(members: &Vec<RelatedPlayer>, ids: &mut Vec<i64>)
    ensures
        final(ids)@ == old(ids)@ + real_player_ids(members@),
{
    let mut index: usize = 0;
    while index < members.len()
        invariant
            index <= members.len(),
            ids@ == old(ids)@ + real_player_ids(members@.take(index as int)),
        decreases members.len() - index,
    {
        proof {
            assert(members@.take(index + 1).drop_last() =~= members@.take(index as int));
        }
        match real_player_id(&members[index]) {
            Some(player_id) => {
                ids.push(player_id);
            },
            None => {},
        }
        index += 1;
    }
    proof {
        assert(members@.take(members.len() as int) =~= members@);
    }
}

/// The 0-based position of a player in the ranked list; a player listed twice ranks by his last
/// listing.
pub open spec fn rank_position(ranked_player_ids: Seq<i64>, player_id: i64) -> Option<int>
    decreases ranked_player_ids.len(),
{
    if ranked_player_ids.len() == 0 {
        None
    } else if ranked_player_ids.last() == player_id {
        Some(ranked_player_ids.len() - 1)
    } else {
        rank_position(ranked_player_ids.drop_last(), player_id)
    }
}

proof fn lemma_rank_position_bounds(ranked_player_ids: Seq<i64>, player_id: i64)
    ensures
        rank_position(ranked_player_ids, player_id) matches Some(position) ==> 0 <= position
            < ranked_player_ids.len() && ranked_player_ids[position] == player_id,
    decreases ranked_player_ids.len(),
{
    if ranked_player_ids.len() > 0 && ranked_player_ids.last() != player_id {
        lemma_rank_position_bounds(ranked_player_ids.drop_last(), player_id);
    }
}

/// `rank_position`, computed.
pub fn find_rank_position(ranked_player_ids: &Vec<i64>, player_id: i64) -> (position: Option<usize>)
    ensures
        match position {
            Some(found) => rank_position(ranked_player_ids@, player_id) == Some(found as int),
            None => rank_position(ranked_player_ids@, player_id) is None,
        },
{
    let mut index: usize = ranked_player_ids.len();
    proof {
        assert(ranked_player_ids@.take(index as int) =~= ranked_player_ids@);
    }
    while index > 0
        invariant
            index <= ranked_player_ids.len(),
            rank_position(ranked_player_ids@, player_id) == rank_position(
                ranked_player_ids@.take(index as int),
                player_id,
            ),
        decreases index,
    {
        proof {
            let taken = ranked_player_ids@.take(index as int);
            assert(taken.drop_last() =~= ranked_player_ids@.take(index - 1));
        }
        if ranked_player_ids[index - 1] == player_id {
            return Some(index - 1);
        }
        index -= 1;
    }
    None
}

/// How many times `player_id` occurs in `ids`.
pub open spec fn occurrences(ids: Seq<i64>, player_id: i64) -> nat
    decreases ids.len(),
{
    if ids.len() == 0 {
        0
    } else {
        occurrences(ids.drop_last(), player_id) + if ids.last() == player_id {
            1nat
        } else {
            0
        }
    }
}

/// The ranked head of the pool sorted by rank: for each ranked position whose player is listed
/// there last, that player as many times as the pool holds him.
pub open spec fn ranked_block(ranked_player_ids: Seq<i64>, pool_ids: Seq<i64>, positions: int) -> Seq<
    i64,
>
    decreases positions,
{
    if positions <= 0 {
        Seq::empty()
    } else {
        let player_id = ranked_player_ids[positions - 1];
        let earlier = ranked_block(ranked_player_ids, pool_ids, positions - 1);
        if rank_position(ranked_player_ids, player_id) == Some(positions - 1) {
            earlier + Seq::new(occurrences(pool_ids, player_id), |_i: int| player_id)
        } else {
            earlier
        }
    }
}

/// The pool members the ranked list does not name, in pool order.
pub open spec fn unranked_members(ranked_player_ids: Seq<i64>, pool_ids: Seq<i64>) -> Seq<i64>
    decreases pool_ids.len(),
{
    if pool_ids.len() == 0 {
        Seq::empty()
    } else {
        let earlier = unranked_members(ranked_player_ids, pool_ids.drop_last());
        if rank_position(ranked_player_ids, pool_ids.last()) is None {
            earlier.push(pool_ids.last())
        } else {
            earlier
        }
    }
}

/// The pool sorted by rank, stably: ranked players best rank first, then the unranked ones in pool
/// order (open nomination).
pub open spec fn sorted_by_rank(ranked_player_ids: Seq<i64>, pool_ids: Seq<i64>) -> Seq<i64> {
    ranked_block(ranked_player_ids, pool_ids, ranked_player_ids.len() as int) + unranked_members(
        ranked_player_ids,
        pool_ids,
    )
}

fn count_occurrences(ids: &Vec<i64>, player_id: i64) -> (count: usize)
    ensures
        count == occurrences(ids@, player_id),
{
    let mut count: usize = 0;
    let mut index: usize = 0;
    while index < ids.len()
        invariant
            index <= ids.len(),
            count == occurrences(ids@.take(index as int), player_id),
            count <= index,
        decreases ids.len() - index,
    {
        proof {
            assert(ids@.take(index + 1).drop_last() =~= ids@.take(index as int));
        }
        if ids[index] == player_id {
            count += 1;
        }
        index += 1;
    }
    proof {
        assert(ids@.take(ids.len() as int) =~= ids@);
    }
    count
}

/// The pool's player ids sorted by their rank in `ranked_player_ids`, stably, with unranked players
/// last.
pub fn sort_by_rank(ranked_player_ids: &Vec<i64>, pool_ids: &Vec<i64>) -> (sorted: Vec<i64>)
    ensures
        sorted@ == sorted_by_rank(ranked_player_ids@, pool_ids@),
{
    let mut sorted: Vec<i64> = Vec::new();
    let mut position: usize = 0;
    while position < ranked_player_ids.len()
        invariant
            position <= ranked_player_ids.len(),
            sorted@ == ranked_block(ranked_player_ids@, pool_ids@, position as int),
        decreases ranked_player_ids.len() - position,
    {
        let player_id = ranked_player_ids[position];
        let found = find_rank_position(ranked_player_ids, player_id);
        if found == Some(position) {
            let copies = count_occurrences(pool_ids, player_id);
            let ghost before = sorted@;
            let mut copied: usize = 0;
            while copied < copies
                invariant
                    copied <= copies,
                    sorted@ == before + Seq::new(copied as nat, |_i: int| player_id),
                decreases copies - copied,
            {
                sorted.push(player_id);
                copied += 1;
                proof {
                    assert(sorted@ =~= before + Seq::new(copied as nat, |_i: int| player_id));
                }
            }
        }
        position += 1;
    }
    let ghost ranked_part = sorted@;
    let mut index: usize = 0;
    while index < pool_ids.len()
        invariant
            index <= pool_ids.len(),
            sorted@ == ranked_part + unranked_members(
                ranked_player_ids@,
                pool_ids@.take(index as int),
            ),
        decreases pool_ids.len() - index,
    {
        proof {
            assert(pool_ids@.take(index + 1).drop_last() =~= pool_ids@.take(index as int));
        }
        let player_id = pool_ids[index];
        if find_rank_position(ranked_player_ids, player_id).is_none() {
            sorted.push(player_id);
            proof {
                assert(sorted@ =~= ranked_part + unranked_members(
                    ranked_player_ids@,
                    pool_ids@.take(index + 1),
                ));
            }
        }
        index += 1;
    }
    proof {
        assert(pool_ids@.take(pool_ids.len() as int) =~= pool_ids@);
    }
    sorted
}

/// How many of `ids` the ranked list names.
pub open spec fn ranked_count(ranked_player_ids: Seq<i64>, ids: Seq<i64>) -> nat
    decreases ids.len(),
{
    if ids.len() == 0 {
        0
    } else {
        ranked_count(ranked_player_ids, ids.drop_last()) + if rank_position(
            ranked_player_ids,
            ids.last(),
        ) is Some {
            1nat
        } else {
            0
        }
    }
}

/// One `auction_schedule` row: when a pooled player's auction opens and at what tier.
#[derive(Clone, Copy, Debug, PartialEq, Eq, Structural)]
pub struct NewAuctionScheduleRow {
    pub player_id: i64,
    /// Day number of the release.
    pub scheduled_release_date: i64,
    pub nomination_rank: Option<i16>,
    pub min_bid_tier: i16,
    pub is_rfa_week: bool,
}

/// Why a veteran auction pool could not be scheduled.
#[derive(Clone, Copy, Debug, PartialEq, Eq, Structural)]
pub enum VeteranScheduleError {
    /// The league has no minimum bid tiers configured for the season.
    NoMinBidTiers,
    /// A release date falls off the calendar.
    DateOutOfRange,
}

/// The real NBA players of the pool that are not RFAs, in pool order (UFAs, then free agents).
pub open spec fn other_pool_ids(pool: VeteranAuctionPool) -> Seq<i64> {
    real_player_ids(pool.unrestricted_free_agents@) + real_player_ids(pool.free_agents@)
}

/// The day the non-RFA part of the pool starts releasing: after RFA week when there are RFAs.
pub open spec fn first_other_release_date(pool: VeteranAuctionPool, auction_start_date: int) -> Option<
    int,
> {
    if real_player_ids(pool.restricted_free_agents@).len() == 0 {
        Some(auction_start_date)
    } else {
        spec_checked_add_days(auction_start_date, VETERAN_AUCTION_RFA_WEEK_DAYS as int)
    }
}

/// The schedule row of the `position`-th non-RFA player once the pool is sorted by rank.
pub open spec fn other_row(
    tiers: Seq<i16>,
    ranked_player_ids: Seq<i64>,
    sorted: Seq<i64>,
    first_date: int,
    position: int,
) -> NewAuctionScheduleRow {
    let ranked = ranked_count(ranked_player_ids, sorted) as int;
    NewAuctionScheduleRow {
        player_id: sorted[position],
        scheduled_release_date: spec_release_date(
            first_date,
            position,
            VETERAN_AUCTION_PLAYERS_RELEASED_PER_DAY as int,
        )->Some_0 as i64,
        nomination_rank: spec_rank_number(rank_position(ranked_player_ids, sorted[position])),
        min_bid_tier: if position < ranked {
            tiers[spec_tier_slot(position, ranked, tiers.len() as int)]
        } else {
            tiers.last()
        },
        is_rfa_week: false,
    }
}

/// The schedule row of the `position`-th RFA: released on the first day at the bottom tier, since
/// RFAs open at their carry salary.
pub open spec fn rfa_row(
    tiers: Seq<i16>,
    ranked_player_ids: Seq<i64>,
    rfa_ids: Seq<i64>,
    auction_start_date: int,
    position: int,
) -> NewAuctionScheduleRow {
    NewAuctionScheduleRow {
        player_id: rfa_ids[position],
        scheduled_release_date: auction_start_date as i64,
        nomination_rank: spec_rank_number(rank_position(ranked_player_ids, rfa_ids[position])),
        min_bid_tier: tiers.last(),
        is_rfa_week: true,
    }
}

/// The season's veteran auction schedule: the RFAs first, released on the auction's first day,
/// then the rest of the pool sorted by rank and released a fixed number per day once RFA week is
/// over, ranked players spread over the tiers best rank first and open-nomination players at the
/// bottom tier.
pub open spec fn spec_schedule_veteran_auction_pool(
    tiers: Seq<i16>,
    auction_start_date: int,
    pool: VeteranAuctionPool,
    ranked_player_ids: Seq<i64>,
) -> Result<Seq<NewAuctionScheduleRow>, VeteranScheduleError> {
    let rfa_ids = real_player_ids(pool.restricted_free_agents@);
    let sorted = sorted_by_rank(ranked_player_ids, other_pool_ids(pool));
    if tiers.len() == 0 {
        Err(VeteranScheduleError::NoMinBidTiers)
    } else {
        match first_other_release_date(pool, auction_start_date) {
            None => Err(VeteranScheduleError::DateOutOfRange),
            Some(first_date) => if exists|position: int|
                0 <= position < sorted.len() && #[trigger] spec_release_date(
                    first_date,
                    position,
                    VETERAN_AUCTION_PLAYERS_RELEASED_PER_DAY as int,
                ) is None {
                Err(VeteranScheduleError::DateOutOfRange)
            } else {
                Ok(
                    Seq::new(
                        rfa_ids.len() + sorted.len(),
                        |k: int|
                            if k < rfa_ids.len() {
                                rfa_row(tiers, ranked_player_ids, rfa_ids, auction_start_date, k)
                            } else {
                                other_row(
                                    tiers,
                                    ranked_player_ids,
                                    sorted,
                                    first_date,
                                    k - rfa_ids.len(),
                                )
                            },
                    ),
                )
            },
        }
    }
}

proof fn lemma_real_ids_exist(members: Seq<RelatedPlayer>)
    ensures
        real_player_ids(members).len() > 0 <==> exists|j: int|
            0 <= j < members.len() && #[trigger] members[j] is Player,
    decreases members.len(),
{
    if members.len() > 0 {
        let prefix = members.drop_last();
        lemma_real_ids_exist(prefix);
        if exists|j: int| 0 <= j < members.len() && #[trigger] members[j] is Player {
            let j = choose|j: int| 0 <= j < members.len() && #[trigger] members[j] is Player;
            if j < prefix.len() {
                assert(prefix[j] is Player);
            }
        }
        if exists|j: int| 0 <= j < prefix.len() && #[trigger] prefix[j] is Player {
            let j = choose|j: int| 0 <= j < prefix.len() && #[trigger] prefix[j] is Player;
            assert(members[j] is Player);
        }
    }
}

/// The veteran auction opens with RFA week: the restricted free agents release on the auction's
/// first day, all of them before the rest of the pool; when the pool holds a real-player restricted
/// free agent, no other player releases before RFA week is over and the first of them releases on
/// the day it ends; with none, the rest of the pool starts on the first day.
pub proof fn lemma_rest_of_pool_waits_out_rfa_week(
    tiers: Seq<i16>,
    auction_start_date: int,
    pool: VeteranAuctionPool,
    ranked_player_ids: Seq<i64>,
)
    ensures
        spec_schedule_veteran_auction_pool(tiers, auction_start_date, pool, ranked_player_ids) matches Ok(
            rows,
        ) ==> {
            let opens = if exists|j: int|
                0 <= j < pool.restricted_free_agents@.len()
                    && #[trigger] pool.restricted_free_agents@[j] is Player {
                auction_start_date + VETERAN_AUCTION_RFA_WEEK_DAYS
            } else {
                auction_start_date
            };
            &&& forall|i: int|
                0 <= i < rows.len() && #[trigger] rows[i].is_rfa_week
                    ==> rows[i].scheduled_release_date == auction_start_date
            &&& forall|i: int, k: int|
                0 <= i < k < rows.len() && !#[trigger] rows[i].is_rfa_week
                    ==> !#[trigger] rows[k].is_rfa_week
            &&& forall|i: int|
                0 <= i < rows.len() && !#[trigger] rows[i].is_rfa_week
                    ==> rows[i].scheduled_release_date >= opens
            &&& forall|i: int|
                0 <= i < rows.len() && !#[trigger] rows[i].is_rfa_week && (forall|k: int|
                    0 <= k < i ==> rows[k].is_rfa_week) ==> rows[i].scheduled_release_date == opens
        },
{
    lemma_real_ids_exist(pool.restricted_free_agents@);
    if let Ok(rows) = spec_schedule_veteran_auction_pool(
        tiers,
        auction_start_date,
        pool,
        ranked_player_ids,
    ) {
        let rfa_ids = real_player_ids(pool.restricted_free_agents@);
        let sorted = sorted_by_rank(ranked_player_ids, other_pool_ids(pool));
        let first_date = first_other_release_date(pool, auction_start_date)->Some_0;
        assert forall|i: int|
            0 <= i < rows.len() && !#[trigger] rows[i].is_rfa_week implies rows[i].scheduled_release_date
            >= first_date && (i == rfa_ids.len() ==> rows[i].scheduled_release_date == first_date) by {
            let position = i - rfa_ids.len();
            assert(rows[i] == other_row(tiers, ranked_player_ids, sorted, first_date, position));
            assert(spec_release_date(
                first_date,
                position,
                VETERAN_AUCTION_PLAYERS_RELEASED_PER_DAY as int,
            ) is Some);
            vstd::arithmetic::div_mod::lemma_div_pos_is_pos(position, 15);
        }
        assert forall|i: int|
            0 <= i < rows.len() && !#[trigger] rows[i].is_rfa_week && (forall|k: int|
                0 <= k < i ==> rows[k].is_rfa_week) implies rows[i].scheduled_release_date
            == first_date by {
            if i > rfa_ids.len() {
                assert(rows[rfa_ids.len() as int] == other_row(
                    tiers,
                    ranked_player_ids,
                    sorted,
                    first_date,
                    0,
                ));
            }
        }
    }
}

/// Release days never decrease along the sorted pool, so the last one decides whether all fit.
proof fn lemma_release_dates_monotone(first_date: int, earlier: int, later: int)
    requires
        valid_day(first_date),
        0 <= earlier <= later,
        spec_release_date(first_date, later, VETERAN_AUCTION_PLAYERS_RELEASED_PER_DAY as int) is Some,
    ensures
        spec_release_date(first_date, earlier, VETERAN_AUCTION_PLAYERS_RELEASED_PER_DAY as int) is Some,
{
    vstd::arithmetic::div_mod::lemma_div_is_ordered(earlier, later, 15);
    vstd::arithmetic::div_mod::lemma_div_pos_is_pos(earlier, 15);
}

/// Turns the season's veteran auction pool into its `auction_schedule` rows (rules §6.3).
///
/// `tiers` are the configured min-bid tier indices, top tier first; `ranked_player_ids` is the
/// season's ranked list in rank order; pooled players outside it are open-nomination.
pub fn schedule_veteran_auction_pool(
    tiers: &Vec<i16>,
    auction_start_date: i64,
    pool: &VeteranAuctionPool,
    ranked_player_ids: &Vec<i64>,
) -> (rows: Result<Vec<NewAuctionScheduleRow>, VeteranScheduleError>)
    requires
        valid_day(auction_start_date as int),
    ensures
        match spec_schedule_veteran_auction_pool(
            tiers@,
            auction_start_date as int,
            *pool,
            ranked_player_ids@,
        ) {
            Ok(expected) => rows matches Ok(found) && found@ == expected,
            Err(error) => rows == Err::<Vec<NewAuctionScheduleRow>, VeteranScheduleError>(error),
        },
{
    if tiers.len() == 0 {
        return Err(VeteranScheduleError::NoMinBidTiers);
    }
    let bottom_tier = tiers[tiers.len() - 1];
    let mut rfa_ids: Vec<i64> = Vec::new();
    push_real_player_ids(&pool.restricted_free_agents, &mut rfa_ids);
    let mut other_ids: Vec<i64> = Vec::new();
    push_real_player_ids(&pool.unrestricted_free_agents, &mut other_ids);
    push_real_player_ids(&pool.free_agents, &mut other_ids);
    proof {
        assert(rfa_ids@ =~= real_player_ids(pool.restricted_free_agents@));
        assert(other_ids@ =~= other_pool_ids(*pool));
    }
    let sorted = sort_by_rank(ranked_player_ids, &other_ids);
    let first_date = if rfa_ids.len() == 0 {
        auction_start_date
    } else {
        match checked_add_days(auction_start_date, VETERAN_AUCTION_RFA_WEEK_DAYS) {
            Some(day) => day,
            None => return Err(VeteranScheduleError::DateOutOfRange),
        }
    };
    let ghost spec_sorted = sorted_by_rank(ranked_player_ids@, other_pool_ids(*pool));
    // Every other row releases no earlier than the one before it, so checking the last suffices.
    if sorted.len() > 0 {
        if release_date(
            first_date,
            sorted.len() - 1,
            VETERAN_AUCTION_PLAYERS_RELEASED_PER_DAY,
        ).is_none() {
            return Err(VeteranScheduleError::DateOutOfRange);
        }
    }
    proof {
        if sorted.len() > 0 {
            assert forall|position: int| 0 <= position < spec_sorted.len() implies
                #[trigger] spec_release_date(
                first_date as int,
                position,
                VETERAN_AUCTION_PLAYERS_RELEASED_PER_DAY as int,
            ) is Some by {
                lemma_release_dates_monotone(first_date as int, position, sorted.len() - 1);
            }
        }
    }
    let mut ranked: usize = 0;
    let mut index: usize = 0;
    while index < sorted.len()
        invariant
            index <= sorted.len(),
            ranked == ranked_count(ranked_player_ids@, sorted@.take(index as int)),
            ranked <= index,
        decreases sorted.len() - index,
    {
        proof {
            assert(sorted@.take(index + 1).drop_last() =~= sorted@.take(index as int));
        }
        if find_rank_position(ranked_player_ids, sorted[index]).is_some() {
            ranked += 1;
        }
        index += 1;
    }
    proof {
        assert(sorted@.take(sorted.len() as int) =~= sorted@);
    }
    let mut rows: Vec<NewAuctionScheduleRow> = Vec::new();
    let mut position: usize = 0;
    while position < rfa_ids.len()
        invariant
            position <= rfa_ids.len(),
            tiers.len() > 0,
            bottom_tier == tiers@.last(),
            rows.len() == position,
            forall|k: int|
                0 <= k < position ==> #[trigger] rows@[k] == rfa_row(
                    tiers@,
                    ranked_player_ids@,
                    rfa_ids@,
                    auction_start_date as int,
                    k,
                ),
        decreases rfa_ids.len() - position,
    {
        let player_id = rfa_ids[position];
        let rank_at = find_rank_position(ranked_player_ids, player_id);
        proof {
            lemma_rank_position_bounds(ranked_player_ids@, player_id);
        }
        rows.push(
            NewAuctionScheduleRow {
                player_id,
                scheduled_release_date: auction_start_date,
                nomination_rank: rank_number(rank_at),
                min_bid_tier: bottom_tier,
                is_rfa_week: true,
            },
        );
        position += 1;
    }
    let mut position: usize = 0;
    while position < sorted.len()
        invariant
            position <= sorted.len(),
            valid_day(first_date as int),
            tiers.len() > 0,
            bottom_tier == tiers@.last(),
            sorted@ == spec_sorted,
            ranked == ranked_count(ranked_player_ids@, sorted@),
            ranked <= sorted.len(),
            rows.len() == rfa_ids.len() + position,
            forall|k: int| 0 <= k < sorted.len() ==> #[trigger] spec_release_date(
                first_date as int,
                k,
                VETERAN_AUCTION_PLAYERS_RELEASED_PER_DAY as int,
            ) is Some,
            forall|k: int|
                0 <= k < rfa_ids.len() ==> #[trigger] rows@[k] == rfa_row(
                    tiers@,
                    ranked_player_ids@,
                    rfa_ids@,
                    auction_start_date as int,
                    k,
                ),
            forall|k: int|
                0 <= k < position ==> #[trigger] rows@[rfa_ids.len() + k] == other_row(
                    tiers@,
                    ranked_player_ids@,
                    spec_sorted,
                    first_date as int,
                    k,
                ),
        decreases sorted.len() - position,
    {
        let player_id = sorted[position];
        let rank_at = find_rank_position(ranked_player_ids, player_id);
        proof {
            lemma_rank_position_bounds(ranked_player_ids@, player_id);
        }
        let min_bid_tier = if position < ranked {
            let slot = tier_slot(position, ranked, tiers.len());
            proof {
                lemma_tier_slot_is_a_monotone_tier(
                    0,
                    position as int,
                    ranked as int,
                    tiers.len() as int,
                );
            }
            tiers[slot]
        } else {
            bottom_tier
        };
        let release = match release_date(
            first_date,
            position,
            VETERAN_AUCTION_PLAYERS_RELEASED_PER_DAY,
        ) {
            Some(day) => day,
            None => {
                proof {
                    assert(spec_release_date(
                        first_date as int,
                        position as int,
                        VETERAN_AUCTION_PLAYERS_RELEASED_PER_DAY as int,
                    ) is Some);
                }
                return Err(VeteranScheduleError::DateOutOfRange);
            },
        };
        rows.push(
            NewAuctionScheduleRow {
                player_id,
                scheduled_release_date: release,
                nomination_rank: rank_number(rank_at),
                min_bid_tier,
                is_rfa_week: false,
            },
        );
        position += 1;
    }
    proof {
        let expected = spec_schedule_veteran_auction_pool(
            tiers@,
            auction_start_date as int,
            *pool,
            ranked_player_ids@,
        );
        let spec_rfa = real_player_ids(pool.restricted_free_agents@);
        assert(spec_rfa == rfa_ids@);
        assert(first_other_release_date(*pool, auction_start_date as int) == Some(first_date as int));
        assert(!(exists|k: int|
            0 <= k < spec_sorted.len() && #[trigger] spec_release_date(
                first_date as int,
                k,
                VETERAN_AUCTION_PLAYERS_RELEASED_PER_DAY as int,
            ) is None));
        let built = Seq::new(
            spec_rfa.len() + spec_sorted.len(),
            |k: int|
                if k < spec_rfa.len() {
                    rfa_row(tiers@, ranked_player_ids@, spec_rfa, auction_start_date as int, k)
                } else {
                    other_row(
                        tiers@,
                        ranked_player_ids@,
                        spec_sorted,
                        first_date as int,
                        k - spec_rfa.len(),
                    )
                },
        );
        assert(expected == Ok::<Seq<NewAuctionScheduleRow>, VeteranScheduleError>(built));
        assert forall|k: int| 0 <= k < built.len() implies rows@[k] == built[k] by {
            if k >= spec_rfa.len() {
                let j = k - spec_rfa.len();
                assert(rows@[rfa_ids.len() + j] == other_row(
                    tiers@,
                    ranked_player_ids@,
                    spec_sorted,
                    first_date as int,
                    j,
                ));
            }
        }
        assert(rows@ =~= built);
    }
    Ok(rows)
}

/// Contract kinds that open at their carry salary instead of a tier value (rules §15.3.1, §16).
pub open spec fn spec_opens_at_carry_salary(kind: ContractKind) -> bool {
    ||| kind is RestrictedFreeAgent
    ||| kind is UnrestrictedFreeAgentOriginalTeam
    ||| kind is UnrestrictedFreeAgentVeteran
}

/// Whether a pooled contract of this kind opens at its carry salary and keeps its original owner
/// out of the bidding.
pub fn opens_at_carry_salary(kind: ContractKind) -> (carries: bool)
    ensures
        carries == spec_opens_at_carry_salary(kind),
{
    matches!(
        kind,
        ContractKind::RestrictedFreeAgent | ContractKind::UnrestrictedFreeAgentOriginalTeam
            | ContractKind::UnrestrictedFreeAgentVeteran
    )
}

/// Why a released auction could not open.
#[derive(Clone, Copy, Debug, PartialEq, Eq, Structural)]
pub enum ScheduledOpeningError {
    /// The schedule row names a min-bid tier the season does not configure.
    TierNotConfigured { min_bid_tier: i16 },
}

/// The minimum bid a released veteran auction opens at (rules §6.3.3): the pooled contract's
/// carry salary for an RFA or UFA, otherwise the amount of the row's min-bid tier, which must be
/// configured.
pub fn scheduled_auction_minimum_bid(
    pooled_kind: ContractKind,
    pooled_salary: i16,
    min_bid_tier: i16,
    maybe_tier_amount: Option<i16>,
) -> (minimum: Result<i16, ScheduledOpeningError>)
    ensures
        minimum == (if spec_opens_at_carry_salary(pooled_kind) {
            Ok(pooled_salary)
        } else {
            match maybe_tier_amount {
                Some(amount) => Ok(amount),
                None => Err(ScheduledOpeningError::TierNotConfigured { min_bid_tier }),
            }
        }),
{
    if opens_at_carry_salary(pooled_kind) {
        Ok(pooled_salary)
    } else {
        match maybe_tier_amount {
            Some(amount) => Ok(amount),
            None => Err(ScheduledOpeningError::TierNotConfigured { min_bid_tier }),
        }
    }
}

/// The unbid auctions that slide, each with its new minimum, in input order.
pub open spec fn spec_tier_slides(tiers: Seq<i16>, unbid_auctions: Seq<(i64, i16)>) -> Seq<
    (i64, i16),
>
    decreases unbid_auctions.len(),
{
    if unbid_auctions.len() == 0 {
        Seq::empty()
    } else {
        let earlier = spec_tier_slides(tiers, unbid_auctions.drop_last());
        let (auction_id, minimum) = unbid_auctions.last();
        match spec_next_lower_min_bid_amount(tiers, minimum) {
            Some(next) => earlier.push((auction_id, next)),
            None => earlier,
        }
    }
}

/// Drops every unbid auction `(id, current minimum)` to the next-lower tier value (rules
/// §6.3.4-.5). An auction already at the bottom does not slide: the close tick expires it.
pub fn tier_slides(tier_min_bid_amounts: &Vec<i16>, unbid_auctions: &Vec<(i64, i16)>) -> (slides:
    Vec<(i64, i16)>)
    ensures
        slides@ == spec_tier_slides(tier_min_bid_amounts@, unbid_auctions@),
{
    let mut slides: Vec<(i64, i16)> = Vec::new();
    let mut index: usize = 0;
    while index < unbid_auctions.len()
        invariant
            index <= unbid_auctions.len(),
            slides@ == spec_tier_slides(tier_min_bid_amounts@, unbid_auctions@.take(index as int)),
        decreases unbid_auctions.len() - index,
    {
        proof {
            assert(unbid_auctions@.take(index + 1).drop_last() =~= unbid_auctions@.take(index as int));
        }
        let (auction_id, minimum) = unbid_auctions[index];
        match next_lower_min_bid_amount(tier_min_bid_amounts, minimum) {
            Some(next) => {
                slides.push((auction_id, next));
            },
            None => {},
        }
        index += 1;
    }
    proof {
        assert(unbid_auctions@.take(unbid_auctions.len() as int) =~= unbid_auctions@);
    }
    slides
}

} // verus!
