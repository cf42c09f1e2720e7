//! Placing a bid on a live auction (rules §6.4 for the preseason veteran auction, §8.3 for
//! in-season free agency).
//!
//! A bid is judged against the facts read for it, in the order the rules check them: the auction
//! is open, its clocks have not run out, the bidder is not the player's original owner, the amount
//! clears the minimum or the previous bid, and (preseason veteran auction only) the bidder can
//! afford the win in cap and roster space.
use crate::model::{AuctionKind, AuctionStatus};
use crate::auction::close_timing::{
    auction_close_at, auction_quiet_window, spec_auction_close_at, spec_auction_quiet_window,
};
use crate::rules::PRE_SEASON_CONTRACTS_PER_ROSTER_LIMIT;
use crate::time::{TimeError, Timestamp};
use vstd::prelude::*;

verus! {

/// Why a bid was refused. Each variant is a distinct user-facing rejection reason.
#[derive(Clone, Copy, Debug, PartialEq, Eq, Structural)]
pub enum BidRejection {
    /// The auction is not accepting bids.
    AuctionClosed { auction_id: i64, status: AuctionStatus },
    /// The auction stopped accepting bids at `deadline`.
    BiddingWindowElapsed { auction_id: i64, deadline: Timestamp },
    /// A player's previous team cannot bid on that player's own free agent auction.
    OriginalOwner,
    /// The opening bid is below the auction's minimum.
    BelowMinimum { bid_amount: i16, minimum_bid_amount: i16 },
    /// A later bid must beat the previous one by at least $1.
    BelowIncrement { bid_amount: i16, required: i16 },
    /// Winning would commit more salary than the bidder's cap.
    InsufficientCap { bid_amount: i16, committed_salary: i32, salary_cap: i16 },
    /// Winning would need more roster spots than the limit.
    NoRosterSpace { roster_used: i32, roster_limit: i16 },
}

/// Bid amounts of the auctions other than `this_auction_id` that the bidder is winning, summed.
pub open spec fn other_winning_bids_total(winning_bids: Seq<(i64, i16)>, this_auction_id: i64) -> int
    decreases winning_bids.len(),
{
    if winning_bids.len() == 0 {
        0
    } else {
        other_winning_bids_total(winning_bids.drop_last(), this_auction_id) + if winning_bids.last().0
            != this_auction_id {
            winning_bids.last().1 as int
        } else {
            0
        }
    }
}

/// How many of the auctions the bidder is winning are not `this_auction_id`.
pub open spec fn other_winning_bids_count(winning_bids: Seq<(i64, i16)>, this_auction_id: i64) -> int
    decreases winning_bids.len(),
{
    if winning_bids.len() == 0 {
        0
    } else {
        other_winning_bids_count(winning_bids.drop_last(), this_auction_id) + if winning_bids.last().0
            != this_auction_id {
            1int
        } else {
            0
        }
    }
}

proof fn lemma_other_bids_bounds(winning_bids: Seq<(i64, i16)>, this_auction_id: i64)
    ensures
        winning_bids.len() * i16::MIN <= other_winning_bids_total(winning_bids, this_auction_id)
            <= winning_bids.len() * i16::MAX,
        0 <= other_winning_bids_count(winning_bids, this_auction_id) <= winning_bids.len(),
    decreases winning_bids.len(),
{
    if winning_bids.len() > 0 {
        lemma_other_bids_bounds(winning_bids.drop_last(), this_auction_id);
    }
}

/// `value` as an `i32`, saturating at the type's bounds.
pub open spec fn saturated_i32(value: int) -> i32 {
    if value > i32::MAX {
        i32::MAX
    } else if value < i32::MIN {
        i32::MIN
    } else {
        value as i32
    }
}

/// Salary the bidder would be committed to if this bid wins. Re-bidding on an auction the team
/// already leads swaps the old amount for the new one instead of counting both. Saturates at the
/// bounds of `i32`.
pub fn committed_salary(
    team_current_salary: i16,
    winning_bids: &Vec<(i64, i16)>,
    this_auction_id: i64,
    bid_amount: i16,
) -> (committed: i32)
    ensures
        committed == saturated_i32(
            team_current_salary + other_winning_bids_total(winning_bids@, this_auction_id)
                + bid_amount,
        ),
{
    let mut others: i128 = 0;
    let mut index: usize = 0;
    while index < winning_bids.len()
        invariant
            index <= winning_bids.len(),
            others == other_winning_bids_total(winning_bids@.take(index as int), this_auction_id),
        decreases winning_bids.len() - index,
    {
        let (auction_id, amount) = winning_bids[index];
        proof {
            assert(winning_bids@.take(index + 1).drop_last() =~= winning_bids@.take(index as int));
            lemma_other_bids_bounds(winning_bids@.take(index as int), this_auction_id);
            let n = index as int;
            assert(n * i16::MIN >= -0x1_0000_0000_0000_0000 * 0x8000) by (nonlinear_arith)
                requires
                    0 <= n <= 0x1_0000_0000_0000_0000,
            ;
            assert(n * i16::MAX <= 0x1_0000_0000_0000_0000 * 0x8000) by (nonlinear_arith)
                requires
                    0 <= n <= 0x1_0000_0000_0000_0000,
            ;
        }
        if auction_id != this_auction_id {
            others = others + amount as i128;
        }
        index += 1;
    }
    proof {
        assert(winning_bids@.take(winning_bids.len() as int) =~= winning_bids@);
        lemma_other_bids_bounds(winning_bids@, this_auction_id);
        let n = winning_bids.len() as int;
        assert(n * i16::MIN >= -0x1_0000_0000_0000_0000 * 0x8000) by (nonlinear_arith)
            requires
                0 <= n <= 0x1_0000_0000_0000_0000,
        ;
        assert(n * i16::MAX <= 0x1_0000_0000_0000_0000 * 0x8000) by (nonlinear_arith)
            requires
                0 <= n <= 0x1_0000_0000_0000_0000,
        ;
    }
    let exact: i128 = team_current_salary as i128 + others + bid_amount as i128;
    if exact > i32::MAX as i128 {
        i32::MAX
    } else if exact < i32::MIN as i128 {
        i32::MIN
    } else {
        exact as i32
    }
}

/// Roster spots the bidder would fill if every winning bid, this one included, is signed;
/// saturating at `i32::MAX`.
pub fn roster_spots_used(
    active_contract_count: usize,
    winning_bids: &Vec<(i64, i16)>,
    this_auction_id: i64,
) -> (used: i32)
    ensures
        used == saturated_i32(
            active_contract_count + other_winning_bids_count(winning_bids@, this_auction_id) + 1,
        ),
{
    let mut others: usize = 0;
    let mut index: usize = 0;
    while index < winning_bids.len()
        invariant
            index <= winning_bids.len(),
            others == other_winning_bids_count(winning_bids@.take(index as int), this_auction_id),
        decreases winning_bids.len() - index,
    {
        let (auction_id, _) = winning_bids[index];
        proof {
            assert(winning_bids@.take(index + 1).drop_last() =~= winning_bids@.take(index as int));
            lemma_other_bids_bounds(winning_bids@.take(index as int), this_auction_id);
        }
        if auction_id != this_auction_id {
            others = others + 1;
        }
        index += 1;
    }
    proof {
        assert(winning_bids@.take(winning_bids.len() as int) =~= winning_bids@);
        lemma_other_bids_bounds(winning_bids@, this_auction_id);
    }
    let total: u128 = active_contract_count as u128 + others as u128 + 1;
    if total <= i32::MAX as u128 {
        total as i32
    } else {
        i32::MAX
    }
}

/// Re-bidding on an auction the team already leads replaces its old amount: the commitment is the
/// same as if that old bid had never been counted.
pub proof fn lemma_rebid_swaps_the_amount(
    winning_bids: Seq<(i64, i16)>,
    this_auction_id: i64,
    previous_amount: i16,
)
    ensures
        other_winning_bids_total(winning_bids.push((this_auction_id, previous_amount)), this_auction_id)
            == other_winning_bids_total(winning_bids, this_auction_id),
        other_winning_bids_count(winning_bids.push((this_auction_id, previous_amount)), this_auction_id)
            == other_winning_bids_count(winning_bids, this_auction_id),
{
    assert(winning_bids.push((this_auction_id, previous_amount)).drop_last() =~= winning_bids);
}

/// Only the preseason veteran auction is gated on cap and roster space (rules §6.4.1, §8.3.5).
pub open spec fn spec_requires_cap_and_roster_check(kind: AuctionKind) -> bool {
    kind is PreseasonVeteranAuction
}

/// Whether bids on this kind of auction are checked against the bidder's cap and roster.
pub fn requires_cap_and_roster_check(kind: AuctionKind) -> (required: bool)
    ensures
        required == spec_requires_cap_and_roster_check(kind),
{
    matches!(kind, AuctionKind::PreseasonVeteranAuction)
}

/// The opening-bid and $1-increment rules (§6.4.2-.3 / §8.3.3-.4).
pub open spec fn spec_validate_bid_amount(
    bid_amount: i16,
    minimum_bid_amount: i16,
    maybe_previous_bid_amount: Option<i16>,
) -> Result<(), BidRejection> {
    match maybe_previous_bid_amount {
        None => if bid_amount < minimum_bid_amount {
            Err(BidRejection::BelowMinimum { bid_amount, minimum_bid_amount })
        } else {
            Ok(())
        },
        Some(previous) => if bid_amount < previous + 1 {
            Err(BidRejection::BelowIncrement { bid_amount, required: (previous + 1) as i16 })
        } else {
            Ok(())
        },
    }
}

/// Checks a bid amount: an opening bid must reach the minimum, a later bid must beat the previous
/// one by at least $1 (the minimum no longer applies once someone has bid).
pub fn validate_bid_amount(
    bid_amount: i16,
    minimum_bid_amount: i16,
    maybe_previous_bid_amount: Option<i16>,
) -> (verdict: Result<(), BidRejection>)
    requires
        maybe_previous_bid_amount matches Some(previous) ==> previous < i16::MAX,
    ensures
        verdict == spec_validate_bid_amount(bid_amount, minimum_bid_amount, maybe_previous_bid_amount),
{
    match maybe_previous_bid_amount {
        None => {
            if bid_amount < minimum_bid_amount {
                Err(BidRejection::BelowMinimum { bid_amount, minimum_bid_amount })
            } else {
                Ok(())
            }
        },
        Some(previous) => {
            if bid_amount < previous + 1 {
                Err(BidRejection::BelowIncrement { bid_amount, required: previous + 1 })
            } else {
                Ok(())
            }
        },
    }
}

/// What the bidder is already committed to, read for the §6.4.1 check.
#[derive(Clone, Debug)]
pub struct BidderCommitments {
    /// The bidder's counted salary now.
    pub salary: i16,
    /// The bidder's salary cap now.
    pub cap: i16,
    /// `(auction id, amount)` of every auction the bidder is currently winning.
    pub winning_bids: Vec<(i64, i16)>,
    /// How many active contracts the bidder holds.
    pub active_contract_count: usize,
}

/// The rules §6.4.1 "null and void" check: a bid that would break the bidder's cap or roster limit
/// is rejected so the previous bid stays winning.
pub open spec fn spec_validate_bid_cap_and_roster(
    this_auction_id: i64,
    bid_amount: i16,
    commitments: BidderCommitments,
) -> Result<(), BidRejection> {
    let committed = commitments.salary + other_winning_bids_total(
        commitments.winning_bids@,
        this_auction_id,
    ) + bid_amount;
    let roster_used = commitments.active_contract_count + other_winning_bids_count(
        commitments.winning_bids@,
        this_auction_id,
    ) + 1;
    if committed > commitments.cap {
        Err(
            BidRejection::InsufficientCap {
                bid_amount,
                committed_salary: saturated_i32(committed),
                salary_cap: commitments.cap,
            },
        )
    } else if roster_used > PRE_SEASON_CONTRACTS_PER_ROSTER_LIMIT {
        Err(
            BidRejection::NoRosterSpace {
                roster_used: saturated_i32(roster_used),
                roster_limit: PRE_SEASON_CONTRACTS_PER_ROSTER_LIMIT,
            },
        )
    } else {
        Ok(())
    }
}

/// Checks that winning this bid keeps the bidder within its cap and the preseason roster limit.
pub fn validate_bid_cap_and_roster(
    this_auction_id: i64,
    bid_amount: i16,
    commitments: &BidderCommitments,
) -> (verdict: Result<(), BidRejection>)
    ensures
        verdict == spec_validate_bid_cap_and_roster(this_auction_id, bid_amount, *commitments),
{
    let committed = committed_salary(
        commitments.salary,
        &commitments.winning_bids,
        this_auction_id,
        bid_amount,
    );
    if committed > commitments.cap as i32 {
        return Err(
            BidRejection::InsufficientCap {
                bid_amount,
                committed_salary: committed,
                salary_cap: commitments.cap,
            },
        );
    }
    let roster_used = roster_spots_used(
        commitments.active_contract_count,
        &commitments.winning_bids,
        this_auction_id,
    );
    proof {
        lemma_other_bids_bounds(commitments.winning_bids@, this_auction_id);
    }
    if roster_used > PRE_SEASON_CONTRACTS_PER_ROSTER_LIMIT as i32 {
        return Err(
            BidRejection::NoRosterSpace {
                roster_used,
                roster_limit: PRE_SEASON_CONTRACTS_PER_ROSTER_LIMIT,
            },
        );
    }
    Ok(())
}

/// The facts a bid is judged against, as read inside the bid's database transaction.
#[derive(Clone, Debug)]
pub struct BidFacts {
    pub auction_id: i64,
    pub kind: AuctionKind,
    pub status: AuctionStatus,
    pub close_at: Timestamp,
    pub maybe_all_bid_deadline: Option<Timestamp>,
    pub maybe_original_owner_team_id: Option<i64>,
    pub minimum_bid_amount: i16,
    pub maybe_latest_bid_amount: Option<i16>,
    /// The bidder's cap and roster picture; read only for auctions that are gated on it.
    pub maybe_commitments: Option<BidderCommitments>,
}

/// Bid facts that hold what the judgement reads.
pub open spec fn bid_facts_complete(facts: BidFacts) -> bool {
    &&& facts.maybe_latest_bid_amount matches Some(previous) ==> previous < i16::MAX
    &&& spec_requires_cap_and_roster_check(facts.kind) ==> facts.maybe_commitments is Some
}

/// The verdict on a bid of `bid_amount` placed at `now` by a team of `bidding_team_id`.
pub open spec fn spec_judge_bid(
    facts: BidFacts,
    bidding_team_id: i64,
    bid_amount: i16,
    now: Timestamp,
) -> Result<(), BidRejection> {
    if facts.status != AuctionStatus::Open {
        Err(BidRejection::AuctionClosed { auction_id: facts.auction_id, status: facts.status })
    } else if facts.close_at.not_after(now) {
        Err(
            BidRejection::BiddingWindowElapsed {
                auction_id: facts.auction_id,
                deadline: facts.close_at,
            },
        )
    } else if facts.maybe_all_bid_deadline matches Some(all_bid) && all_bid.not_after(now) {
        Err(
            BidRejection::BiddingWindowElapsed {
                auction_id: facts.auction_id,
                deadline: facts.maybe_all_bid_deadline->0,
            },
        )
    } else if facts.maybe_original_owner_team_id == Some(bidding_team_id) {
        Err(BidRejection::OriginalOwner)
    } else if spec_validate_bid_amount(
        bid_amount,
        facts.minimum_bid_amount,
        facts.maybe_latest_bid_amount,
    ) is Err {
        spec_validate_bid_amount(bid_amount, facts.minimum_bid_amount, facts.maybe_latest_bid_amount)
    } else if spec_requires_cap_and_roster_check(facts.kind) {
        spec_validate_bid_cap_and_roster(facts.auction_id, bid_amount, facts.maybe_commitments->0)
    } else {
        Ok(())
    }
}

/// Judges a bid (rules §6.4 / §8.3): `Ok` means it may be recorded.
pub fn judge_bid(facts: &BidFacts, bidding_team_id: i64, bid_amount: i16, now: Timestamp) -> (verdict:
    Result<(), BidRejection>)
    requires
        bid_facts_complete(*facts),
    ensures
        verdict == spec_judge_bid(*facts, bidding_team_id, bid_amount, now),
{
    if facts.status != AuctionStatus::Open {
        return Err(BidRejection::AuctionClosed { auction_id: facts.auction_id, status: facts.status });
    }
    if facts.close_at.is_not_after(&now) {
        return Err(
            BidRejection::BiddingWindowElapsed {
                auction_id: facts.auction_id,
                deadline: facts.close_at,
            },
        );
    }
    if let Some(all_bid_deadline) = facts.maybe_all_bid_deadline {
        if all_bid_deadline.is_not_after(&now) {
            return Err(
                BidRejection::BiddingWindowElapsed {
                    auction_id: facts.auction_id,
                    deadline: all_bid_deadline,
                },
            );
        }
    }
    if facts.maybe_original_owner_team_id == Some(bidding_team_id) {
        return Err(BidRejection::OriginalOwner);
    }
    let amount_verdict = validate_bid_amount(
        bid_amount,
        facts.minimum_bid_amount,
        facts.maybe_latest_bid_amount,
    );
    if amount_verdict.is_err() {
        return amount_verdict;
    }
    if requires_cap_and_roster_check(facts.kind) {
        match &facts.maybe_commitments {
            Some(commitments) => validate_bid_cap_and_roster(facts.auction_id, bid_amount, commitments),
            None => Ok(()),
        }
    } else {
        Ok(())
    }
}

/// The close time a bid recorded at `now` sets, by the one rule every auction closes by: its quiet
/// window (24h, or 1h once the crunch window has opened), cut short by the all-bid deadline and
/// the hard deadline (§6.4.4 / §8.3.1).
pub fn bid_close_at(
    now: Timestamp,
    maybe_crunch_window_start: Option<Timestamp>,
    maybe_all_bid_deadline: Option<Timestamp>,
    maybe_hard_deadline: Option<Timestamp>,
) -> (close_at: Result<Timestamp, TimeError>)
    ensures
        close_at == spec_auction_close_at(
            now,
            spec_auction_quiet_window(now, maybe_crunch_window_start) as i64,
            maybe_all_bid_deadline,
            maybe_hard_deadline,
        ),
{
    auction_close_at(
        now,
        auction_quiet_window(now, maybe_crunch_window_start),
        maybe_all_bid_deadline,
        maybe_hard_deadline,
    )
}

/// Whether a winning bid is on an auction other than `this_auction_id`.
pub open spec fn on_another_auction(this_auction_id: i64) -> spec_fn((i64, i16)) -> bool {
    |bid: (i64, i16)| bid.0 != this_auction_id
}

/// The bidder's other winning bids: every auction it is winning but this one.
pub open spec fn other_winning_bids(winning_bids: Seq<(i64, i16)>, this_auction_id: i64) -> Seq<(i64, i16)> {
    winning_bids.filter(on_another_auction(this_auction_id))
}

/// Salary the bidder is committed to if this bid wins: its salary, its other winning bids, and this
/// bid.
pub open spec fn salary_if_won(commitments: BidderCommitments, this_auction_id: i64, bid_amount: i16) -> int {
    commitments.salary + other_winning_bids(commitments.winning_bids@, this_auction_id).fold_left(
        0int,
        |sum: int, bid: (i64, i16)| sum + bid.1,
    ) + bid_amount
}

/// Roster spots the bidder fills if this bid wins: its contracts, its other winning bids, and this
/// one.
pub open spec fn spots_if_won(commitments: BidderCommitments, this_auction_id: i64) -> int {
    commitments.active_contract_count + other_winning_bids(
        commitments.winning_bids@,
        this_auction_id,
    ).len() + 1
}

proof fn lemma_other_bids_sum(winning_bids: Seq<(i64, i16)>, this_auction_id: i64)
    ensures
        other_winning_bids_total(winning_bids, this_auction_id) == other_winning_bids(
            winning_bids,
            this_auction_id,
        ).fold_left(0int, |sum: int, bid: (i64, i16)| sum + bid.1),
        other_winning_bids_count(winning_bids, this_auction_id) == other_winning_bids(
            winning_bids,
            this_auction_id,
        ).len(),
    decreases winning_bids.len(),
{
    let keep = on_another_auction(this_auction_id);
    if winning_bids.len() == 0 {
        winning_bids.lemma_filter_len(keep);
        assert(winning_bids.filter(keep) =~= Seq::<(i64, i16)>::empty());
    } else {
        let prefix = winning_bids.drop_last();
        lemma_other_bids_sum(prefix, this_auction_id);
        assert(winning_bids =~= prefix.push(winning_bids.last()));
        prefix.lemma_filter_push(winning_bids.last(), keep);
        if keep(winning_bids.last()) {
            let pushed = prefix.filter(keep).push(winning_bids.last());
            assert(pushed.drop_last() =~= prefix.filter(keep));
        }
    }
}

/// The cap and roster check, counted straight from the commitments: a bid that would put the
/// bidder over its cap is refused for the cap, one that fits the cap but would need more roster
/// spots than the preseason limit is refused for roster room, and any other bid passes.
pub proof fn lemma_bid_within_cap_and_roster(
    commitments: BidderCommitments,
    this_auction_id: i64,
    bid_amount: i16,
)
    ensures
        salary_if_won(commitments, this_auction_id, bid_amount) > commitments.cap
            ==> spec_validate_bid_cap_and_roster(this_auction_id, bid_amount, commitments) == Err::<
            (),
            BidRejection,
        >(
            BidRejection::InsufficientCap {
                bid_amount,
                committed_salary: saturated_i32(salary_if_won(commitments, this_auction_id, bid_amount)),
                salary_cap: commitments.cap,
            },
        ),
        salary_if_won(commitments, this_auction_id, bid_amount) <= commitments.cap && spots_if_won(
            commitments,
            this_auction_id,
        ) > PRE_SEASON_CONTRACTS_PER_ROSTER_LIMIT ==> spec_validate_bid_cap_and_roster(
            this_auction_id,
            bid_amount,
            commitments,
        ) == Err::<(), BidRejection>(
            BidRejection::NoRosterSpace {
                roster_used: saturated_i32(spots_if_won(commitments, this_auction_id)),
                roster_limit: PRE_SEASON_CONTRACTS_PER_ROSTER_LIMIT,
            },
        ),
        salary_if_won(commitments, this_auction_id, bid_amount) <= commitments.cap && spots_if_won(
            commitments,
            this_auction_id,
        ) <= PRE_SEASON_CONTRACTS_PER_ROSTER_LIMIT ==> spec_validate_bid_cap_and_roster(
            this_auction_id,
            bid_amount,
            commitments,
        ) == Ok::<(), BidRejection>(()),
{
    lemma_other_bids_sum(commitments.winning_bids@, this_auction_id);
}

/// A bid on an open preseason veteran auction, in time, by a team that is not the player's
/// original owner and for an amount the bidding rules accept, is refused for the cap exactly when
/// it would put the bidder over its cap.
pub proof fn lemma_judge_refuses_a_bid_over_the_cap(
    facts: BidFacts,
    bidding_team_id: i64,
    bid_amount: i16,
    now: Timestamp,
    commitments: BidderCommitments,
)
    requires
        facts.kind is PreseasonVeteranAuction,
        facts.status == AuctionStatus::Open,
        !facts.close_at.not_after(now),
        facts.maybe_all_bid_deadline matches Some(deadline) ==> !deadline.not_after(now),
        facts.maybe_original_owner_team_id != Some(bidding_team_id),
        match facts.maybe_latest_bid_amount {
            None => bid_amount >= facts.minimum_bid_amount,
            Some(previous) => bid_amount >= previous + 1,
        },
        facts.maybe_commitments == Some(commitments),
    ensures
        spec_judge_bid(facts, bidding_team_id, bid_amount, now) is Err && spec_judge_bid(
            facts,
            bidding_team_id,
            bid_amount,
            now,
        )->Err_0 is InsufficientCap <==> salary_if_won(commitments, facts.auction_id, bid_amount)
            > commitments.cap,
{
    lemma_bid_within_cap_and_roster(commitments, facts.auction_id, bid_amount);
}

} // verus!
