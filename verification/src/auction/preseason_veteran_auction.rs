//! Closing a preseason veteran auction: what happens to the pooled contract, and which existing
//! contract an auction may reuse.
use crate::model::{Contract, ContractKind};
use vstd::prelude::*;

verus! {

/// The contract kinds a veteran auction may pool.
pub open spec fn spec_is_veteran_auction_fa_kind(kind: ContractKind) -> bool {
    ||| kind is FreeAgent
    ||| kind is RestrictedFreeAgent
    ||| kind is UnrestrictedFreeAgentOriginalTeam
    ||| kind is UnrestrictedFreeAgentVeteran
}

/// Whether a veteran auction may pool a contract of this kind.
pub fn is_veteran_auction_fa_kind(kind: ContractKind) -> (valid: bool)
    ensures
        valid == spec_is_veteran_auction_fa_kind(kind),
{
    matches!(
        kind,
        ContractKind::FreeAgent | ContractKind::RestrictedFreeAgent
            | ContractKind::UnrestrictedFreeAgentOriginalTeam
            | ContractKind::UnrestrictedFreeAgentVeteran
    )
}

/// What closing an auction should do with its pooled contract.
#[derive(Clone, Copy, Debug, PartialEq, Eq, Structural)]
pub enum AuctionCloseOutcome {
    /// RFA auctions close without signing; the raise/match flow completes them (rules §6.2.2.3).
    AwaitRfaResolution,
    /// Nobody bid, so the contract expires and the player returns to the free agent pool.
    Expire,
    /// Sign the winning bidder's contract.
    Sign,
}

/// How an auction close is routed.
pub open spec fn spec_auction_close_outcome(
    pooled_contract_kind: ContractKind,
    has_winning_bid: bool,
) -> AuctionCloseOutcome {
    if pooled_contract_kind is RestrictedFreeAgent {
        AuctionCloseOutcome::AwaitRfaResolution
    } else if !has_winning_bid {
        AuctionCloseOutcome::Expire
    } else {
        AuctionCloseOutcome::Sign
    }
}

/// Routes an auction close by pooled contract kind and whether anyone bid: an RFA auction always
/// waits for its resolution, otherwise no bid expires the contract and a bid signs it.
pub fn auction_close_outcome(pooled_contract_kind: ContractKind, has_winning_bid: bool) -> (outcome:
    AuctionCloseOutcome)
    ensures
        outcome == spec_auction_close_outcome(pooled_contract_kind, has_winning_bid),
{
    match (pooled_contract_kind, has_winning_bid) {
        (ContractKind::RestrictedFreeAgent, _) => AuctionCloseOutcome::AwaitRfaResolution,
        (_, false) => AuctionCloseOutcome::Expire,
        (_, true) => AuctionCloseOutcome::Sign,
    }
}

/// Why an existing contract cannot be pooled for a veteran auction.
#[derive(Clone, Copy, Debug, PartialEq, Eq, Structural)]
pub enum VeteranAuctionContractError {
    /// The player's active contract is not a free agent, RFA or UFA contract; the keeper deadline
    /// should have expired it.
    NotAFreeAgencyContract { contract_id: i64, kind: ContractKind },
}

/// Whether an active contract names `player_id`.
pub open spec fn names_player(contract: Contract, player_id: i64) -> bool {
    contract.player_id == Some(player_id)
}

/// The player's first active league contract, which a new veteran auction reuses, or `Ok(None)`
/// when he has none and a new contract is to be created. An existing contract of another kind is
/// an error.
pub fn find_veteran_auction_contract(active_league_contracts: &Vec<Contract>, player_id: i64) -> (found:
    Result<Option<Contract>, VeteranAuctionContractError>)
    ensures
        match found {
            Ok(Some(contract)) => spec_is_veteran_auction_fa_kind(contract.kind) && exists|i: int|
                0 <= i < active_league_contracts.len() && active_league_contracts@[i] == contract
                    && names_player(contract, player_id) && forall|j: int|
                    0 <= j < i ==> !names_player(#[trigger] active_league_contracts@[j], player_id),
            Ok(None) => forall|j: int|
                0 <= j < active_league_contracts.len() ==> !names_player(
                    #[trigger] active_league_contracts@[j],
                    player_id,
                ),
            Err(VeteranAuctionContractError::NotAFreeAgencyContract { contract_id, kind }) => exists|
                i: int,
            |
                0 <= i < active_league_contracts.len() && active_league_contracts@[i].id
                    == contract_id && active_league_contracts@[i].kind == kind
                    && !spec_is_veteran_auction_fa_kind(kind) && names_player(
                    active_league_contracts@[i],
                    player_id,
                ) && forall|j: int|
                    0 <= j < i ==> !names_player(#[trigger] active_league_contracts@[j], player_id),
        },
{
    let mut index: usize = 0;
    while index < active_league_contracts.len()
        invariant
            index <= active_league_contracts.len(),
            forall|j: int|
                0 <= j < index ==> !names_player(#[trigger] active_league_contracts@[j], player_id),
        decreases active_league_contracts.len() - index,
    {
        let candidate = active_league_contracts[index];
        if candidate.player_id == Some(player_id) {
            if !is_veteran_auction_fa_kind(candidate.kind) {
                return Err(
                    VeteranAuctionContractError::NotAFreeAgencyContract {
                        contract_id: candidate.id,
                        kind: candidate.kind,
                    },
                );
            }
            return Ok(Some(candidate));
        }
        index += 1;
    }
    Ok(None)
}

/// Why a closed auction cannot be resolved to its winner through the RFA path.
#[derive(Clone, Copy, Debug, PartialEq, Eq, Structural)]
pub enum RfaAuctionResolutionError {
    /// Only an RFA auction awaits resolution.
    NotAnRfaAuction { auction_id: i64, kind: ContractKind },
    /// The RFA auction has no winning bid to sign.
    NoWinningBid { auction_id: i64 },
}

/// What a closed RFA auction signs its winner at (rules §6.5, §15.3.2.1): the raised bid when the
/// winner raised, else the winning bid. Only an auction that pooled an RFA contract and drew a bid
/// can be resolved this way.
pub fn rfa_auction_signing_amount(
    auction_id: i64,
    pooled_kind: ContractKind,
    maybe_winning_bid_amount: Option<i16>,
    maybe_effective_bid: Option<i16>,
) -> (amount: Result<i16, RfaAuctionResolutionError>)
    ensures
        amount == (if !(pooled_kind is RestrictedFreeAgent) {
            Err(RfaAuctionResolutionError::NotAnRfaAuction { auction_id, kind: pooled_kind })
        } else {
            match maybe_winning_bid_amount {
                None => Err(RfaAuctionResolutionError::NoWinningBid { auction_id }),
                Some(winning) => Ok(
                    match maybe_effective_bid {
                        Some(effective) => effective,
                        None => winning,
                    },
                ),
            }
        }),
{
    if !matches!(pooled_kind, ContractKind::RestrictedFreeAgent) {
        return Err(RfaAuctionResolutionError::NotAnRfaAuction { auction_id, kind: pooled_kind });
    }
    match maybe_winning_bid_amount {
        None => Err(RfaAuctionResolutionError::NoWinningBid { auction_id }),
        Some(winning) => Ok(
            match maybe_effective_bid {
                Some(effective) => effective,
                None => winning,
            },
        ),
    }
}

} // verus!
