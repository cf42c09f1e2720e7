//! The restricted free agent handshake after an RFA auction (rules §15.2-§15.3).
//!
//! A resolution row is seeded at the keeper deadline for each RFA and moves through its windows:
//! the auction (`AwaitingAuction`), the winner's 48h raise window (`AwaitingRaise`), the winner's
//! 24h pick-selection window (`AwaitingPickSelection`), and the original owner's 48h match window
//! (`AwaitingMatch`), which ends `Resolved` (matched) or `Declined`. An RFA nobody bid on ends
//! `NoBidResigned` or `NoBidToAuction`. Every step is checked here before anything is written.
use crate::model::{AuctionStatus, DraftPick, FreeAgentException};
use crate::rules::{RFA_MATCH_WINDOW_HOURS, RFA_PICK_SELECTION_WINDOW_HOURS, RFA_RAISE_WINDOW_HOURS};
use crate::time::{in_utc_range, shifted, Timestamp, SECONDS_PER_HOUR};
use vstd::prelude::*;

verus! {

/// Where a resolution is in the handshake.
#[derive(Clone, Copy, Debug, PartialEq, Eq, Structural, Hash)]
pub enum RfaResolutionStatus {
    AwaitingAuction,
    AwaitingRaise,
    AwaitingPickSelection,
    AwaitingMatch,
    Resolved,
    Declined,
    NoBidResigned,
    NoBidToAuction,
}

/// One restricted free agent's handshake.
#[derive(Clone, Copy, Debug, PartialEq, Eq, Structural)]
pub struct RfaResolution {
    pub id: i64,
    pub league_id: i64,
    pub end_of_season_year: i16,
    pub rfa_contract_id: i64,
    pub original_owner_team_id: i64,
    pub status: RfaResolutionStatus,
    pub auction_id: Option<i64>,
    pub winning_team_id: Option<i64>,
    pub final_bid: Option<i16>,
    pub raised_bid: Option<i16>,
}

impl RfaResolution {
    /// The bid the handshake settles at: the winner's raise, else the winning bid.
    pub open spec fn spec_effective_bid(&self) -> Option<i16> {
        match self.raised_bid {
            Some(raised) => Some(raised),
            None => self.final_bid,
        }
    }

    /// The bid the handshake settles at: the winner's raise, else the winning bid.
    pub fn effective_bid(&self) -> (bid: Option<i16>)
        ensures
            bid == self.spec_effective_bid(),
    {
        match self.raised_bid {
            Some(raised) => Some(raised),
            None => self.final_bid,
        }
    }
}

/// What the original owner does with a winning bid on his RFA (rules §15.3.2).
#[derive(Clone, Copy, Debug, PartialEq, Eq, Structural)]
pub enum RfaMatchDecision {
    /// Re-sign the player at the effective bid less the discount.
    Match,
    /// Let the winner sign him and take a draft pick as compensation.
    Decline,
}

/// What the original owner does with an RFA nobody bid on (rules §15.3.5).
#[derive(Clone, Copy, Debug, PartialEq, Eq, Structural)]
pub enum UnbidRfaDecision {
    /// Re-sign at the standard 4th-year salary the RFA contract already carries.
    Resign,
    /// Pass, sending the player to the regular free agent auction.
    ReleaseToAuction,
}

/// Why a handshake step was refused.
#[derive(Clone, Copy, Debug, PartialEq, Eq, Structural)]
pub enum RfaRejection {
    /// The resolution is not in the window the step belongs to.
    WrongWindow { status: RfaResolutionStatus },
    /// Only the original owner may take this step.
    NotOriginalOwner,
    /// Only the winning (or leading) bidder may take this step.
    NotWinningBidder,
    /// The resolution carries no bid to act on.
    NoBid,
    /// A raise must beat the winning bid.
    RaiseTooLow { final_bid: i16, new_bid: i16 },
    /// The raise would owe a draft pick the winner cannot forfeit (rules §15.3.3).
    UnpayableRaise,
    /// The named pick cannot settle the debt.
    PickNotEligible { draft_pick_id: i64 },
    /// The winner holds no pick that can settle the debt.
    NoEligiblePick,
    /// Nobody has bid, so no pick is owed.
    NoCompensationOwed,
    /// The resolution has no auction or no winner to hand the player to.
    NoWinner,
    /// The named pick left the winner after it was named.
    ForfeitedPickMoved { draft_pick_id: i64 },
    /// A window's deadline would fall off the calendar.
    DeadlineOverflow,
}

/// What the original owner's match-window decision is answered.
pub open spec fn spec_judge_match_or_decline(resolution: RfaResolution, team_id: i64) -> Result<i16, RfaRejection> {
    if !(resolution.status is AwaitingMatch) {
        Err(RfaRejection::WrongWindow { status: resolution.status })
    } else if resolution.original_owner_team_id != team_id {
        Err(RfaRejection::NotOriginalOwner)
    } else {
        match resolution.spec_effective_bid() {
            Some(bid) => Ok(bid),
            None => Err(RfaRejection::NoBid),
        }
    }
}

/// Checks that `team_id` may match or decline now: the match window is open, the team is the
/// original owner, and there is a bid to match; gives that effective bid.
pub fn judge_match_or_decline(resolution: &RfaResolution, team_id: i64) -> (verdict: Result<i16, RfaRejection>)
    ensures
        verdict == spec_judge_match_or_decline(*resolution, team_id),
{
    if !matches!(resolution.status, RfaResolutionStatus::AwaitingMatch) {
        return Err(RfaRejection::WrongWindow { status: resolution.status });
    }
    if resolution.original_owner_team_id != team_id {
        return Err(RfaRejection::NotOriginalOwner);
    }
    match resolution.effective_bid() {
        Some(bid) => Ok(bid),
        None => Err(RfaRejection::NoBid),
    }
}

/// What settling the match window does: the status the resolution ends in, and the status the
/// auction is set to, when it is touched at all (a match completes it; a decline signs the winner
/// through the auction's own path).
pub open spec fn spec_match_outcome(decision: RfaMatchDecision, resolution: RfaResolution) -> (RfaResolutionStatus, Option<AuctionStatus>) {
    match decision {
        RfaMatchDecision::Match => (
            RfaResolutionStatus::Resolved,
            if resolution.auction_id is Some {
                Some(AuctionStatus::Completed)
            } else {
                None
            },
        ),
        RfaMatchDecision::Decline => (RfaResolutionStatus::Declined, None),
    }
}

/// What settling the match window does to the resolution and its auction.
pub fn match_outcome(decision: RfaMatchDecision, resolution: &RfaResolution) -> (outcome: (RfaResolutionStatus, Option<AuctionStatus>))
    ensures
        outcome == spec_match_outcome(decision, *resolution),
{
    match decision {
        RfaMatchDecision::Match => (
            RfaResolutionStatus::Resolved,
            if resolution.auction_id.is_some() {
                Some(AuctionStatus::Completed)
            } else {
                None
            },
        ),
        RfaMatchDecision::Decline => (RfaResolutionStatus::Declined, None),
    }
}

/// The discount a re-signing earns: a matched bid is `Held`; an unbid re-sign is `HeldNoBid`.
pub fn resign_exception(matched_a_bid: bool) -> (exception: FreeAgentException)
    ensures
        matched_a_bid ==> exception is Held,
        !matched_a_bid ==> exception is HeldNoBid,
{
    if matched_a_bid {
        FreeAgentException::Held
    } else {
        FreeAgentException::HeldNoBid
    }
}

/// What settling an unbid RFA is answered.
pub open spec fn spec_judge_unbid(resolution: RfaResolution, team_id: i64) -> Result<(), RfaRejection> {
    if !(resolution.status is AwaitingAuction) || resolution.auction_id is Some {
        Err(RfaRejection::WrongWindow { status: resolution.status })
    } else if resolution.original_owner_team_id != team_id {
        Err(RfaRejection::NotOriginalOwner)
    } else {
        Ok(())
    }
}

/// Checks that `team_id` may settle an unbid RFA: the resolution still awaits its auction and drew
/// no bid, and the team is the original owner.
pub fn judge_unbid(resolution: &RfaResolution, team_id: i64) -> (verdict: Result<(), RfaRejection>)
    ensures
        verdict == spec_judge_unbid(*resolution, team_id),
{
    if !matches!(resolution.status, RfaResolutionStatus::AwaitingAuction)
        || resolution.auction_id.is_some() {
        return Err(RfaRejection::WrongWindow { status: resolution.status });
    }
    if resolution.original_owner_team_id != team_id {
        return Err(RfaRejection::NotOriginalOwner);
    }
    Ok(())
}

/// What settling an unbid RFA does: the resolution's final status and the status its parked
/// auction is set to (a re-sign completes it; a release expires it with the contract).
pub open spec fn spec_unbid_outcome(decision: UnbidRfaDecision) -> (RfaResolutionStatus, AuctionStatus) {
    match decision {
        UnbidRfaDecision::Resign => (RfaResolutionStatus::NoBidResigned, AuctionStatus::Completed),
        UnbidRfaDecision::ReleaseToAuction => (
            RfaResolutionStatus::NoBidToAuction,
            AuctionStatus::Expired,
        ),
    }
}

/// What settling an unbid RFA does.
pub fn unbid_outcome(decision: UnbidRfaDecision) -> (outcome: (RfaResolutionStatus, AuctionStatus))
    ensures
        outcome == spec_unbid_outcome(decision),
{
    match decision {
        UnbidRfaDecision::Resign => (RfaResolutionStatus::NoBidResigned, AuctionStatus::Completed),
        UnbidRfaDecision::ReleaseToAuction => (
            RfaResolutionStatus::NoBidToAuction,
            AuctionStatus::Expired,
        ),
    }
}

/// Whether the unbid RFA's auction is touched: only one still parked in `Closed`.
pub fn settles_parked_auction(maybe_auction_status: Option<AuctionStatus>) -> (settles: bool)
    ensures
        settles == (maybe_auction_status == Some(AuctionStatus::Closed)),
{
    match maybe_auction_status {
        Some(AuctionStatus::Closed) => true,
        _ => false,
    }
}

/// What a decline's forfeit is answered: the auction and winner it hands the player to, provided
/// the named pick is still the winner's.
pub open spec fn spec_judge_forfeit(resolution: RfaResolution, forfeited_pick: DraftPick) -> Result<(i64, i64), RfaRejection> {
    match (resolution.auction_id, resolution.winning_team_id) {
        (Some(auction_id), Some(winner)) => if forfeited_pick.current_owner_team_id != winner {
            Err(RfaRejection::ForfeitedPickMoved { draft_pick_id: forfeited_pick.id })
        } else {
            Ok((auction_id, winner))
        },
        _ => Err(RfaRejection::NoWinner),
    }
}

/// Checks a decline's forfeit: the resolution has an auction and a winner, and the pick the winner
/// named still belongs to the winner. Gives the auction and the winner.
pub fn judge_forfeit(resolution: &RfaResolution, forfeited_pick: &DraftPick) -> (verdict: Result<(i64, i64), RfaRejection>)
    ensures
        verdict == spec_judge_forfeit(*resolution, *forfeited_pick),
{
    match (resolution.auction_id, resolution.winning_team_id) {
        (Some(auction_id), Some(winner)) => if forfeited_pick.current_owner_team_id != winner {
            Err(RfaRejection::ForfeitedPickMoved { draft_pick_id: forfeited_pick.id })
        } else {
            Ok((auction_id, winner))
        },
        _ => Err(RfaRejection::NoWinner),
    }
}

/// The forfeited pick once it has changed hands to the original owner.
pub fn forfeited_pick_moved(pick: &DraftPick, original_owner_team_id: i64) -> (moved: DraftPick)
    ensures
        moved == (DraftPick { current_owner_team_id: original_owner_team_id, ..*pick }),
{
    DraftPick { current_owner_team_id: original_owner_team_id, ..*pick }
}

/// `moment` plus `hours`, when that is on the calendar.
pub open spec fn hours_later(moment: Timestamp, hours: int) -> Option<Timestamp> {
    if in_utc_range(moment.seconds + hours * SECONDS_PER_HOUR) {
        Some(shifted(moment, hours * SECONDS_PER_HOUR))
    } else {
        None
    }
}

fn add_hours(moment: Timestamp, hours: i64) -> (later: Result<Timestamp, RfaRejection>)
    requires
        0 <= hours <= 1_000,
    ensures
        match hours_later(moment, hours as int) {
            Some(t) => later == Ok::<Timestamp, RfaRejection>(t),
            None => later == Err::<Timestamp, RfaRejection>(RfaRejection::DeadlineOverflow),
        },
{
    match moment.checked_add_seconds(hours * SECONDS_PER_HOUR) {
        Some(t) => Ok(t),
        None => Err(RfaRejection::DeadlineOverflow),
    }
}

/// When the winner's raise window closes: 48 hours after the auction closed.
pub fn raise_deadline(auction_close_at: Timestamp) -> (deadline: Result<Timestamp, RfaRejection>)
    ensures
        match hours_later(auction_close_at, RFA_RAISE_WINDOW_HOURS as int) {
            Some(t) => deadline == Ok::<Timestamp, RfaRejection>(t),
            None => deadline == Err::<Timestamp, RfaRejection>(RfaRejection::DeadlineOverflow),
        },
{
    add_hours(auction_close_at, RFA_RAISE_WINDOW_HOURS)
}

/// When the winner's pick-selection window closes: 24 hours after it opens.
pub fn pick_selection_deadline_from(now: Timestamp) -> (deadline: Result<Timestamp, RfaRejection>)
    ensures
        match hours_later(now, RFA_PICK_SELECTION_WINDOW_HOURS as int) {
            Some(t) => deadline == Ok::<Timestamp, RfaRejection>(t),
            None => deadline == Err::<Timestamp, RfaRejection>(RfaRejection::DeadlineOverflow),
        },
{
    add_hours(now, RFA_PICK_SELECTION_WINDOW_HOURS)
}

/// When the original owner's match window closes: 48 hours after it opens.
pub fn match_deadline_from(now: Timestamp) -> (deadline: Result<Timestamp, RfaRejection>)
    ensures
        match hours_later(now, RFA_MATCH_WINDOW_HOURS as int) {
            Some(t) => deadline == Ok::<Timestamp, RfaRejection>(t),
            None => deadline == Err::<Timestamp, RfaRejection>(RfaRejection::DeadlineOverflow),
        },
{
    add_hours(now, RFA_MATCH_WINDOW_HOURS)
}

/// Whether a closed RFA auction opens a raise window: it had a winning bid, a resolution was seeded
/// for its contract, and that resolution still awaits its auction.
pub fn opens_raise_window(has_winning_bid: bool, maybe_resolution: Option<RfaResolution>) -> (opens: bool)
    ensures
        opens == (has_winning_bid && (maybe_resolution matches Some(resolution)
            && resolution.status is AwaitingAuction)),
{
    if !has_winning_bid {
        return false;
    }
    match maybe_resolution {
        Some(resolution) => matches!(resolution.status, RfaResolutionStatus::AwaitingAuction),
        None => false,
    }
}

/// What acting in the raise window is answered.
pub open spec fn spec_judge_raisable(resolution: RfaResolution, team_id: i64) -> Result<(), RfaRejection> {
    if !(resolution.status is AwaitingRaise) {
        Err(RfaRejection::WrongWindow { status: resolution.status })
    } else if resolution.winning_team_id != Some(team_id) {
        Err(RfaRejection::NotWinningBidder)
    } else {
        Ok(())
    }
}

/// Checks that `team_id` may act in the raise window now (raise, or stand pat): the window is open
/// and the team is the winning bidder.
pub fn judge_raisable(resolution: &RfaResolution, team_id: i64) -> (verdict: Result<(), RfaRejection>)
    ensures
        verdict == spec_judge_raisable(*resolution, team_id),
{
    if !matches!(resolution.status, RfaResolutionStatus::AwaitingRaise) {
        return Err(RfaRejection::WrongWindow { status: resolution.status });
    }
    if resolution.winning_team_id != Some(team_id) {
        return Err(RfaRejection::NotWinningBidder);
    }
    Ok(())
}

/// What a raise is answered; `raise_unpayable` says whether the raised bid would owe a pick the
/// team cannot forfeit.
pub open spec fn spec_judge_raise(resolution: RfaResolution, team_id: i64, new_bid: i16, raise_unpayable: bool) -> Result<(), RfaRejection> {
    if spec_judge_raisable(resolution, team_id) is Err {
        spec_judge_raisable(resolution, team_id)
    } else {
        match resolution.final_bid {
            None => Err(RfaRejection::NoBid),
            Some(final_bid) => if new_bid <= final_bid {
                Err(RfaRejection::RaiseTooLow { final_bid, new_bid })
            } else if raise_unpayable {
                Err(RfaRejection::UnpayableRaise)
            } else {
                Ok(())
            },
        }
    }
}

/// Checks a raise (rules §15.3.2.1, §15.3.3): the raise window is open to this team, there is a
/// winning bid, the raise beats it, and the team can pay the pick the raise owes.
pub fn judge_raise(resolution: &RfaResolution, team_id: i64, new_bid: i16, raise_unpayable: bool) -> (verdict: Result<(), RfaRejection>)
    ensures
        verdict == spec_judge_raise(*resolution, team_id, new_bid, raise_unpayable),
{
    let raisable = judge_raisable(resolution, team_id);
    if raisable.is_err() {
        return raisable;
    }
    match resolution.final_bid {
        None => Err(RfaRejection::NoBid),
        Some(final_bid) => if new_bid <= final_bid {
            Err(RfaRejection::RaiseTooLow { final_bid, new_bid })
        } else if raise_unpayable {
            Err(RfaRejection::UnpayableRaise)
        } else {
            Ok(())
        },
    }
}

/// The picks of a season a team may name for a debt of `required_round`: held by the team, no later
/// a round than the debt, and not named on another of the season's RFAs.
pub open spec fn spec_eligible_compensation_picks(
    season_picks: Seq<DraftPick>,
    team_id: i64,
    required_round: i16,
    reserved_pick_ids: Seq<i64>,
) -> Seq<DraftPick> {
    season_picks.filter(
        |pick: DraftPick|
            pick.current_owner_team_id == team_id && pick.round <= required_round
                && !reserved_pick_ids.contains(pick.id),
    )
}

fn is_reserved(reserved_pick_ids: &Vec<i64>, pick_id: i64) -> (reserved: bool)
    ensures
        reserved == reserved_pick_ids@.contains(pick_id),
{
    let mut index: usize = 0;
    while index < reserved_pick_ids.len()
        invariant
            index <= reserved_pick_ids.len(),
            forall|k: int| 0 <= k < index ==> reserved_pick_ids@[k] != pick_id,
        decreases reserved_pick_ids.len() - index,
    {
        if reserved_pick_ids[index] == pick_id {
            return true;
        }
        index += 1;
    }
    false
}

/// The picks a team may name for a debt of `required_round`, in season order (rules §15.2.1); an
/// empty list means the team cannot pay that tier (rules §15.3.3).
pub fn eligible_compensation_picks(
    season_picks: &Vec<DraftPick>,
    team_id: i64,
    required_round: i16,
    reserved_pick_ids: &Vec<i64>,
) -> (eligible: Vec<DraftPick>)
    ensures
        eligible@ == spec_eligible_compensation_picks(
            season_picks@,
            team_id,
            required_round,
            reserved_pick_ids@,
        ),
{
    let ghost keep = |pick: DraftPick|
        pick.current_owner_team_id == team_id && pick.round <= required_round
            && !reserved_pick_ids@.contains(pick.id);
    let mut eligible: Vec<DraftPick> = Vec::new();
    let mut index: usize = 0;
    while index < season_picks.len()
        invariant
            index <= season_picks.len(),
            keep == |pick: DraftPick|
                pick.current_owner_team_id == team_id && pick.round <= required_round
                    && !reserved_pick_ids@.contains(pick.id),
            eligible@ == season_picks@.take(index as int).filter(keep),
        decreases season_picks.len() - index,
    {
        proof {
            assert(season_picks@.take(index + 1) =~= season_picks@.take(index as int).push(
                season_picks@[index as int],
            ));
            season_picks@.take(index as int).lemma_filter_push(season_picks@[index as int], keep);
        }
        let pick = season_picks[index];
        if pick.current_owner_team_id == team_id && pick.round <= required_round && !is_reserved(
            reserved_pick_ids,
            pick.id,
        ) {
            eligible.push(pick);
        }
        index += 1;
    }
    proof {
        assert(season_picks@.take(season_picks.len() as int) =~= season_picks@);
    }
    eligible
}

/// The first pick of `picks` with id `draft_pick_id`.
pub open spec fn first_with_id(picks: Seq<DraftPick>, draft_pick_id: i64) -> Option<DraftPick>
    decreases picks.len(),
{
    if picks.len() == 0 {
        None
    } else if picks[0].id == draft_pick_id {
        Some(picks[0])
    } else {
        first_with_id(picks.drop_first(), draft_pick_id)
    }
}

/// The eligible pick a team named, or `None` when the named pick cannot settle the debt.
pub fn find_eligible_compensation_pick(eligible: &Vec<DraftPick>, draft_pick_id: i64) -> (found: Option<DraftPick>)
    ensures
        found == first_with_id(eligible@, draft_pick_id),
{
    let mut index: usize = 0;
    proof {
        assert(eligible@.skip(0) =~= eligible@);
    }
    while index < eligible.len()
        invariant
            index <= eligible.len(),
            first_with_id(eligible@, draft_pick_id) == first_with_id(
                eligible@.skip(index as int),
                draft_pick_id,
            ),
        decreases eligible.len() - index,
    {
        proof {
            assert(eligible@.skip(index as int).drop_first() =~= eligible@.skip(index + 1));
        }
        if eligible[index].id == draft_pick_id {
            return Some(eligible[index]);
        }
        index += 1;
    }
    None
}

/// What naming a pick in the pick-selection window is answered.
pub open spec fn spec_judge_pick_selection(
    resolution: RfaResolution,
    team_id: i64,
    eligible: Seq<DraftPick>,
    draft_pick_id: i64,
) -> Result<DraftPick, RfaRejection> {
    if !(resolution.status is AwaitingPickSelection) {
        Err(RfaRejection::WrongWindow { status: resolution.status })
    } else if resolution.winning_team_id != Some(team_id) {
        Err(RfaRejection::NotWinningBidder)
    } else {
        match first_with_id(eligible, draft_pick_id) {
            Some(pick) => Ok(pick),
            None => Err(RfaRejection::PickNotEligible { draft_pick_id }),
        }
    }
}

/// Checks that the winner may name `draft_pick_id` now (rules §15.2.2): the pick-selection window
/// is open, the team is the winner, and the pick is among the eligible ones.
pub fn judge_pick_selection(
    resolution: &RfaResolution,
    team_id: i64,
    eligible: &Vec<DraftPick>,
    draft_pick_id: i64,
) -> (verdict: Result<DraftPick, RfaRejection>)
    ensures
        verdict == spec_judge_pick_selection(*resolution, team_id, eligible@, draft_pick_id),
{
    if !matches!(resolution.status, RfaResolutionStatus::AwaitingPickSelection) {
        return Err(RfaRejection::WrongWindow { status: resolution.status });
    }
    if resolution.winning_team_id != Some(team_id) {
        return Err(RfaRejection::NotWinningBidder);
    }
    match find_eligible_compensation_pick(eligible, draft_pick_id) {
        Some(pick) => Ok(pick),
        None => Err(RfaRejection::PickNotEligible { draft_pick_id }),
    }
}

/// How a pick ranks in the rookie draft order: the first place of its id in the order, `None`
/// when unranked or when there is no order yet.
#[verifier::opaque]
pub open spec fn rank_key(maybe_order: Option<Seq<i64>>, pick_id: i64) -> Option<int> {
    match maybe_order {
        None => None,
        Some(order) => if exists|i: int| 0 <= i < order.len() && order[i] == pick_id {
            Some(
                choose|i: int|
                    0 <= i < order.len() && order[i] == pick_id && forall|k: int|
                        0 <= k < i ==> order[k] != pick_id,
            )
        } else {
            None
        },
    }
}

/// The rookie draft order as a sequence of pick ids, when there is one.
pub open spec fn order_view(maybe_order: Option<Vec<i64>>) -> Option<Seq<i64>> {
    match maybe_order {
        Some(order) => Some(order@),
        None => None,
    }
}

/// Whether rank key `a` sorts strictly before `b`; unranked sorts first.
pub open spec fn key_below(a: Option<int>, b: Option<int>) -> bool {
    match (a, b) {
        (None, Some(_)) => true,
        (Some(x), Some(y)) => x < y,
        _ => false,
    }
}

proof fn lemma_first_position(order: Seq<i64>, id: i64, position: int)
    requires
        0 <= position < order.len(),
        order[position] == id,
        forall|k: int| 0 <= k < position ==> order[k] != id,
    ensures
        rank_key(Some(order), id) == Some(position),
{
    reveal(rank_key);
    let p = choose|i: int|
        0 <= i < order.len() && order[i] == id && forall|k: int| 0 <= k < i ==> order[k] != id;
    if p < position {
        assert(order[p] != id);
    }
    if p > position {
        assert(order[position] != id);
    }
}

fn rank_of(maybe_order: &Option<Vec<i64>>, pick_id: i64) -> (key: Option<usize>)
    ensures
        match key {
            Some(k) => rank_key(order_view(*maybe_order), pick_id) == Some(k as int),
            None => rank_key(order_view(*maybe_order), pick_id) is None,
        },
{
    proof {
        reveal(rank_key);
    }
    match maybe_order {
        None => None,
        Some(order) => {
            proof {
                assert(order_view(*maybe_order) == Some(order@));
            }
            let mut index: usize = 0;
            while index < order.len()
                invariant
                    index <= order.len(),
                    order_view(*maybe_order) == Some(order@),
                    forall|k: int| 0 <= k < index ==> order@[k] != pick_id,
                decreases order.len() - index,
            {
                if order[index] == pick_id {
                    proof {
                        lemma_first_position(order@, pick_id, index as int);
                    }
                    return Some(index);
                }
                index += 1;
            }
            None
        },
    }
}

/// An exec rank key as a spec one.
pub open spec fn key_view(key: Option<usize>) -> Option<int> {
    match key {
        Some(k) => Some(k as int),
        None => None,
    }
}

/// The eligible pick that costs the winner least when nobody named one (rules §15.2.2): the one
/// latest in the rookie draft order. Unranked picks sort first, and among picks of equal rank the
/// last listed is taken, so with no order at all it is the last eligible pick. `None` when there is
/// no eligible pick.
pub fn lowest_ranked_eligible_pick(eligible: &Vec<DraftPick>, maybe_order: &Option<Vec<i64>>) -> (chosen: Option<DraftPick>)
    ensures
        eligible.len() == 0 <==> chosen is None,
        chosen matches Some(pick) ==> exists|i: int|
            0 <= i < eligible.len() && eligible@[i] == pick && (forall|j: int|
                0 <= j < eligible.len() ==> !key_below(
                    rank_key(order_view(*maybe_order), eligible@[i].id),
                    rank_key(order_view(*maybe_order), #[trigger] eligible@[j].id),
                )) && (forall|j: int|
                i < j < eligible.len() ==> key_below(
                    rank_key(order_view(*maybe_order), #[trigger] eligible@[j].id),
                    rank_key(order_view(*maybe_order), eligible@[i].id),
                )),
{
    if eligible.len() == 0 {
        return None;
    }
    let ghost viewed = order_view(*maybe_order);
    let mut best: usize = 0;
    let mut best_key = rank_of(maybe_order, eligible[0].id);
    let mut index: usize = 1;
    while index < eligible.len()
        invariant
            1 <= index <= eligible.len(),
            best < index,
            viewed == order_view(*maybe_order),
            key_view(best_key) == rank_key(viewed, eligible@[best as int].id),
            forall|j: int|
                0 <= j < index ==> !key_below(
                    key_view(best_key),
                    rank_key(viewed, #[trigger] eligible@[j].id),
                ),
            forall|j: int|
                best < j < index ==> key_below(
                    rank_key(viewed, #[trigger] eligible@[j].id),
                    key_view(best_key),
                ),
        decreases eligible.len() - index,
    {
        let key = rank_of(maybe_order, eligible[index].id);
        let takes_over = match (key, best_key) {
            (Some(k), Some(b)) => k >= b,
            (Some(_), None) => true,
            (None, Some(_)) => false,
            (None, None) => true,
        };
        proof {
            assert(takes_over == !key_below(key_view(key), key_view(best_key)));
        }
        if takes_over {
            best = index;
            best_key = key;
        }
        index += 1;
    }
    Some(eligible[best])
}

/// What changing the named compensation pick is answered; `named` is the pick currently named on
/// the resolution, as (naming team, required round), when anyone has bid.
pub open spec fn spec_judge_change_compensation_pick(
    resolution: RfaResolution,
    named: Option<(i64, i16)>,
    team_id: i64,
    eligible: Seq<DraftPick>,
    draft_pick_id: i64,
) -> Result<DraftPick, RfaRejection> {
    if !(resolution.status is AwaitingAuction || resolution.status is AwaitingRaise) {
        Err(RfaRejection::WrongWindow { status: resolution.status })
    } else {
        match named {
            None => Err(RfaRejection::NoCompensationOwed),
            Some((from_team_id, _)) => if from_team_id != team_id {
                Err(RfaRejection::NotWinningBidder)
            } else {
                match first_with_id(eligible, draft_pick_id) {
                    Some(pick) => Ok(pick),
                    None => Err(RfaRejection::PickNotEligible { draft_pick_id }),
                }
            },
        }
    }
}

/// Checks that the leading bidder may swap his named pick for `draft_pick_id` (rules §15.2.2): the
/// pick is not yet fixed (the auction or raise window), someone has bid, the team is the one that
/// named the current pick, and the new pick is eligible for the same debt.
pub fn judge_change_compensation_pick(
    resolution: &RfaResolution,
    named: Option<(i64, i16)>,
    team_id: i64,
    eligible: &Vec<DraftPick>,
    draft_pick_id: i64,
) -> (verdict: Result<DraftPick, RfaRejection>)
    ensures
        verdict == spec_judge_change_compensation_pick(
            *resolution,
            named,
            team_id,
            eligible@,
            draft_pick_id,
        ),
{
    if !matches!(
        resolution.status,
        RfaResolutionStatus::AwaitingAuction | RfaResolutionStatus::AwaitingRaise
    ) {
        return Err(RfaRejection::WrongWindow { status: resolution.status });
    }
    match named {
        None => Err(RfaRejection::NoCompensationOwed),
        Some((from_team_id, _)) => if from_team_id != team_id {
            Err(RfaRejection::NotWinningBidder)
        } else {
            match find_eligible_compensation_pick(eligible, draft_pick_id) {
                Some(pick) => Ok(pick),
                None => Err(RfaRejection::PickNotEligible { draft_pick_id }),
            }
        },
    }
}

/// Whether a resolution has reached one of its final statuses.
pub open spec fn is_settled(status: RfaResolutionStatus) -> bool {
    status is Resolved || status is Declined || status is NoBidResigned || status is NoBidToAuction
}

/// A settled handshake takes no further step: once a resolution is resolved, declined or settled
/// without a bid, matching, settling it unbid, raising, naming a pick and changing the named pick
/// are all refused, whoever asks.
pub proof fn lemma_settled_resolution_takes_no_step(
    resolution: RfaResolution,
    team_id: i64,
    new_bid: i16,
    raise_unpayable: bool,
    eligible: Seq<DraftPick>,
    named: Option<(i64, i16)>,
    draft_pick_id: i64,
)
    requires
        is_settled(resolution.status),
    ensures
        spec_judge_match_or_decline(resolution, team_id) is Err,
        spec_judge_unbid(resolution, team_id) is Err,
        spec_judge_raise(resolution, team_id, new_bid, raise_unpayable) is Err,
        spec_judge_pick_selection(resolution, team_id, eligible, draft_pick_id) is Err,
        spec_judge_change_compensation_pick(resolution, named, team_id, eligible, draft_pick_id) is Err,
{
}

/// Each window belongs to one party: in the raise and pick-selection windows only the winning
/// bidder may act, and in the match window and for an unbid RFA only the original owner.
pub proof fn lemma_windows_belong_to_one_party(
    resolution: RfaResolution,
    team_id: i64,
    new_bid: i16,
    eligible: Seq<DraftPick>,
    draft_pick_id: i64,
)
    ensures
        spec_judge_raise(resolution, team_id, new_bid, false) is Ok ==> resolution.winning_team_id
            == Some(team_id),
        spec_judge_pick_selection(resolution, team_id, eligible, draft_pick_id) is Ok
            ==> resolution.winning_team_id == Some(team_id),
        spec_judge_match_or_decline(resolution, team_id) is Ok ==> resolution.original_owner_team_id
            == team_id,
        spec_judge_unbid(resolution, team_id) is Ok ==> resolution.original_owner_team_id == team_id,
{
}

} // verus!
