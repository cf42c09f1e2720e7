//! Eligibility pool membership (rules §6.2, §7.5, §8.4).
//!
//! Every pool is the same two-step read: classify each candidate player, then subtract the players
//! a team currently rosters. Prior league ownership never affects eligibility (§7.5.3).
use crate::eligibility::classify::{classify_player, spec_classify_player, PlayerEligibilityFacts};
use crate::model::{Contract, ContractKind, EligibilityClassification, RelatedPlayer};
use std::collections::{HashMap, HashSet};
use vstd::prelude::*;

verus! {

/// The veteran auction pool, split per rules §6.2.2: RFAs are auctioned in the first week only and
/// their original owner may not bid.
#[derive(Clone, Debug, PartialEq, Eq)]
pub struct VeteranAuctionPool {
    pub restricted_free_agents: Vec<RelatedPlayer>,
    pub unrestricted_free_agents: Vec<RelatedPlayer>,
    pub free_agents: Vec<RelatedPlayer>,
}

/// Which §6.2.2 bucket an unrostered player's contract kind puts them in.
#[derive(Clone, Copy, Debug, PartialEq, Eq, Structural)]
pub enum FreeAgencyBucket {
    Restricted,
    Unrestricted,
    FreeAgent,
}

/// The bucket a contract kind puts an unrostered player in; no contract means a plain free agent.
pub open spec fn spec_free_agency_bucket(maybe_kind: Option<ContractKind>) -> FreeAgencyBucket {
    match maybe_kind {
        Some(ContractKind::RestrictedFreeAgent) => FreeAgencyBucket::Restricted,
        Some(ContractKind::UnrestrictedFreeAgentOriginalTeam) => FreeAgencyBucket::Unrestricted,
        Some(ContractKind::UnrestrictedFreeAgentVeteran) => FreeAgencyBucket::Unrestricted,
        _ => FreeAgencyBucket::FreeAgent,
    }
}

/// The bucket a contract kind puts an unrostered player in.
pub fn free_agency_bucket(maybe_kind: Option<ContractKind>) -> (bucket: FreeAgencyBucket)
    ensures
        bucket == spec_free_agency_bucket(maybe_kind),
{
    match maybe_kind {
        Some(ContractKind::RestrictedFreeAgent) => FreeAgencyBucket::Restricted,
        Some(ContractKind::UnrestrictedFreeAgentOriginalTeam)
        | Some(ContractKind::UnrestrictedFreeAgentVeteran) => FreeAgencyBucket::Unrestricted,
        _ => FreeAgencyBucket::FreeAgent,
    }
}

/// The league's roster and free-agency picture for one season, per id space.
pub struct RosterSnapshot {
    rostered_players: HashSet<i64>,
    rostered_league_players: HashSet<i64>,
    free_agent_player_kinds: HashMap<i64, ContractKind>,
    free_agent_league_player_kinds: HashMap<i64, ContractKind>,
}

/// The player refs a contract names: its real player, then its league player, each if present.
pub open spec fn contract_refs(contract: Contract) -> Seq<RelatedPlayer> {
    (match contract.player_id {
        Some(id) => seq![RelatedPlayer::Player(id)],
        None => Seq::empty(),
    }) + (match contract.league_player_id {
        Some(id) => seq![RelatedPlayer::LeaguePlayer(id)],
        None => Seq::empty(),
    })
}

/// The players a season's contracts roster: every ref of a contract held by a team.
pub open spec fn rostered_by(contracts: Seq<Contract>, player: RelatedPlayer) -> bool {
    exists|i: int|
        0 <= i < contracts.len() && (#[trigger] contracts[i]).team_id is Some && contract_refs(
            contracts[i],
        ).contains(player)
}

/// The kind of the last teamless contract naming `player`, if any.
pub open spec fn free_agent_kind_in(contracts: Seq<Contract>, player: RelatedPlayer) -> Option<ContractKind>
    decreases contracts.len(),
{
    if contracts.len() == 0 {
        None
    } else if contracts.last().team_id is None && contract_refs(contracts.last()).contains(player) {
        Some(contracts.last().kind)
    } else {
        free_agent_kind_in(contracts.drop_last(), player)
    }
}

proof fn lemma_refs(contract: Contract, player: RelatedPlayer)
    ensures
        contract_refs(contract).contains(player) <==> match player {
            RelatedPlayer::Player(id) => contract.player_id == Some(id),
            RelatedPlayer::LeaguePlayer(id) => contract.league_player_id == Some(id),
        },
{
    let refs = contract_refs(contract);
    match player {
        RelatedPlayer::Player(id) => {
            if contract.player_id == Some(id) {
                assert(refs[0] == player);
            }
        },
        RelatedPlayer::LeaguePlayer(id) => {
            if contract.league_player_id == Some(id) {
                assert(refs[refs.len() - 1] == player);
            }
        },
    }
}

proof fn lemma_rostered_by_push(before: Seq<Contract>, contract: Contract, player: RelatedPlayer)
    ensures
        rostered_by(before.push(contract), player) == (rostered_by(before, player) || (
        contract.team_id is Some && contract_refs(contract).contains(player))),
{
    let after = before.push(contract);
    if rostered_by(after, player) {
        let i = choose|i: int|
            0 <= i < after.len() && (#[trigger] after[i]).team_id is Some && contract_refs(
                after[i],
            ).contains(player);
        if i < before.len() {
            assert(before[i] == after[i]);
        }
    }
    if rostered_by(before, player) {
        let i = choose|i: int|
            0 <= i < before.len() && (#[trigger] before[i]).team_id is Some && contract_refs(
                before[i],
            ).contains(player);
        assert(after[i] == before[i]);
    }
    if contract.team_id is Some && contract_refs(contract).contains(player) {
        assert(after[before.len() as int] == contract);
    }
}

impl RosterSnapshot {
    /// Whether a team currently holds `player`.
    pub closed spec fn spec_is_rostered(&self, player: RelatedPlayer) -> bool {
        match player {
            RelatedPlayer::Player(id) => self.rostered_players@.contains(id),
            RelatedPlayer::LeaguePlayer(id) => self.rostered_league_players@.contains(id),
        }
    }

    /// The contract kind of an unrostered `player`, if the season has one.
    pub closed spec fn spec_free_agent_kind(&self, player: RelatedPlayer) -> Option<ContractKind> {
        match player {
            RelatedPlayer::Player(id) => if self.free_agent_player_kinds@.contains_key(id) {
                Some(self.free_agent_player_kinds@[id])
            } else {
                None
            },
            RelatedPlayer::LeaguePlayer(id) => if self.free_agent_league_player_kinds@.contains_key(
                id,
            ) {
                Some(self.free_agent_league_player_kinds@[id])
            } else {
                None
            },
        }
    }

    /// Whether a team currently holds `player`.
    pub fn is_rostered(&self, player: &RelatedPlayer) -> (rostered: bool)
        ensures
            rostered == self.spec_is_rostered(*player),
    {
        broadcast use vstd::std_specs::hash::group_hash_axioms;

        match player {
            RelatedPlayer::Player(id) => self.rostered_players.contains(id),
            RelatedPlayer::LeaguePlayer(id) => self.rostered_league_players.contains(id),
        }
    }

    /// The contract kind of an unrostered `player`, if the season has one.
    pub fn free_agent_kind(&self, player: &RelatedPlayer) -> (kind: Option<ContractKind>)
        ensures
            kind == self.spec_free_agent_kind(*player),
    {
        broadcast use vstd::std_specs::hash::group_hash_axioms;

        match player {
            RelatedPlayer::Player(id) => match self.free_agent_player_kinds.get(id) {
                Some(kind) => Some(*kind),
                None => None,
            },
            RelatedPlayer::LeaguePlayer(id) => match self.free_agent_league_player_kinds.get(id) {
                Some(kind) => Some(*kind),
                None => None,
            },
        }
    }

    /// Reads a season's active contracts: a contract held by a team rosters every player it names
    /// (a league player linked to an NBA entry is named both ways); a teamless contract records its
    /// kind for the players it names, the last such contract winning.
    pub fn from_contracts(contracts: &Vec<Contract>) -> (snapshot: Self)
        ensures
            forall|player: RelatedPlayer|
                snapshot.spec_is_rostered(player) == rostered_by(contracts@, player),
            forall|player: RelatedPlayer|
                snapshot.spec_free_agent_kind(player) == free_agent_kind_in(contracts@, player),
    {
        broadcast use vstd::std_specs::hash::group_hash_axioms;

        let mut snapshot = RosterSnapshot {
            rostered_players: HashSet::new(),
            rostered_league_players: HashSet::new(),
            free_agent_player_kinds: HashMap::new(),
            free_agent_league_player_kinds: HashMap::new(),
        };
        let mut index: usize = 0;
        while index < contracts.len()
            invariant
                index <= contracts.len(),
                forall|player: RelatedPlayer|
                    snapshot.spec_is_rostered(player) == rostered_by(
                        contracts@.take(index as int),
                        player,
                    ),
                forall|player: RelatedPlayer|
                    snapshot.spec_free_agent_kind(player) == free_agent_kind_in(
                        contracts@.take(index as int),
                        player,
                    ),
            decreases contracts.len() - index,
        {
            let contract = contracts[index];
            let ghost before = contracts@.take(index as int);
            let ghost after = contracts@.take(index + 1);
            proof {
                assert(after =~= before.push(contract));
                assert(after.drop_last() =~= before);
                assert(after.last() == contract);
            }
            let ghost old_snapshot = snapshot;
            if contract.team_id.is_some() {
                if let Some(id) = contract.player_id {
                    snapshot.rostered_players.insert(id);
                }
                if let Some(id) = contract.league_player_id {
                    snapshot.rostered_league_players.insert(id);
                }
            } else {
                if let Some(id) = contract.player_id {
                    snapshot.free_agent_player_kinds.insert(id, contract.kind);
                }
                if let Some(id) = contract.league_player_id {
                    snapshot.free_agent_league_player_kinds.insert(id, contract.kind);
                }
            }
            proof {
                assert forall|player: RelatedPlayer|
                    snapshot.spec_is_rostered(player) == rostered_by(after, player) by {
                    lemma_refs(contract, player);
                    lemma_rostered_by_push(before, contract, player);
                    assert(old_snapshot.spec_is_rostered(player) == rostered_by(before, player));
                }
                assert forall|player: RelatedPlayer|
                    snapshot.spec_free_agent_kind(player) == free_agent_kind_in(after, player) by {
                    lemma_refs(contract, player);
                    assert(old_snapshot.spec_free_agent_kind(player) == free_agent_kind_in(before, player));
                }
            }
            index += 1;
        }
        proof {
            assert(contracts@.take(contracts.len() as int) =~= contracts@);
        }
        snapshot
    }
}

/// Whether a classification is one of `allowed`.
pub open spec fn allowed_in(allowed: Seq<EligibilityClassification>, classification: EligibilityClassification) -> bool {
    allowed.contains(classification)
}

/// The candidates classified into one of `allowed` entering the season and not rostered, in
/// candidate order.
pub open spec fn spec_pool_members(
    candidates: Seq<(RelatedPlayer, PlayerEligibilityFacts)>,
    end_of_season_year: i16,
    allowed: Seq<EligibilityClassification>,
    rostered: spec_fn(RelatedPlayer) -> bool,
) -> Seq<(RelatedPlayer, PlayerEligibilityFacts)> {
    candidates.filter(
        |candidate: (RelatedPlayer, PlayerEligibilityFacts)|
            allowed_in(allowed, spec_classify_player(candidate.1, end_of_season_year)) && !rostered(
                candidate.0,
            ),
    )
}

fn is_allowed(allowed: &Vec<EligibilityClassification>, classification: EligibilityClassification) -> (found: bool)
    ensures
        found == allowed@.contains(classification),
{
    let mut index: usize = 0;
    while index < allowed.len()
        invariant
            index <= allowed.len(),
            forall|k: int| 0 <= k < index ==> allowed@[k] != classification,
        decreases allowed.len() - index,
    {
        if allowed[index] == classification {
            return true;
        }
        index += 1;
    }
    false
}

/// The candidates in the pool of the classifications `allowed` entering `end_of_season_year`:
/// classified into one of them and not currently rostered.
pub fn pool_members(
    candidates: &Vec<(RelatedPlayer, PlayerEligibilityFacts)>,
    end_of_season_year: i16,
    allowed: &Vec<EligibilityClassification>,
    snapshot: &RosterSnapshot,
) -> (members: Vec<RelatedPlayer>)
    ensures
        members@ == spec_pool_members(
            candidates@,
            end_of_season_year,
            allowed@,
            |player: RelatedPlayer| snapshot.spec_is_rostered(player),
        ).map_values(|candidate: (RelatedPlayer, PlayerEligibilityFacts)| candidate.0),
{
    let ghost keep = |candidate: (RelatedPlayer, PlayerEligibilityFacts)|
        allowed_in(allowed@, spec_classify_player(candidate.1, end_of_season_year))
            && !(|player: RelatedPlayer| snapshot.spec_is_rostered(player))(candidate.0);
    let mut members: Vec<RelatedPlayer> = Vec::new();
    let mut index: usize = 0;
    while index < candidates.len()
        invariant
            index <= candidates.len(),
            keep == |candidate: (RelatedPlayer, PlayerEligibilityFacts)|
                allowed_in(allowed@, spec_classify_player(candidate.1, end_of_season_year))
                    && !(|player: RelatedPlayer| snapshot.spec_is_rostered(player))(candidate.0),
            members@ == candidates@.take(index as int).filter(keep).map_values(
                |candidate: (RelatedPlayer, PlayerEligibilityFacts)| candidate.0,
            ),
        decreases candidates.len() - index,
    {
        let candidate = candidates[index];
        proof {
            assert(candidates@.take(index + 1) =~= candidates@.take(index as int).push(candidate));
            candidates@.take(index as int).lemma_filter_push(candidate, keep);
        }
        let classification = classify_player(candidate.1, end_of_season_year);
        if is_allowed(allowed, classification) && !snapshot.is_rostered(&candidate.0) {
            members.push(candidate.0);
        }
        proof {
            assert(members@ =~= candidates@.take(index + 1).filter(keep).map_values(
                |candidate: (RelatedPlayer, PlayerEligibilityFacts)| candidate.0,
            ));
        }
        index += 1;
    }
    proof {
        assert(candidates@.take(candidates.len() as int) =~= candidates@);
    }
    members
}

/// Every pool member is classified into an allowed pool entering the season and is not rostered.
pub proof fn lemma_pool_members_are_eligible_and_unrostered(
    candidates: Seq<(RelatedPlayer, PlayerEligibilityFacts)>,
    end_of_season_year: i16,
    allowed: Seq<EligibilityClassification>,
    rostered: spec_fn(RelatedPlayer) -> bool,
    k: int,
)
    requires
        0 <= k < spec_pool_members(candidates, end_of_season_year, allowed, rostered).len(),
    ensures
        ({
            let member = spec_pool_members(candidates, end_of_season_year, allowed, rostered)[k];
            &&& allowed.contains(spec_classify_player(member.1, end_of_season_year))
            &&& !rostered(member.0)
        }),
{
    candidates.lemma_filter_pred(
        |candidate: (RelatedPlayer, PlayerEligibilityFacts)|
            allowed_in(allowed, spec_classify_player(candidate.1, end_of_season_year)) && !rostered(
                candidate.0,
            ),
        k,
    );
}

/// The members of a bucket, in member order.
pub open spec fn in_bucket(members: Seq<RelatedPlayer>, snapshot: RosterSnapshot, bucket: FreeAgencyBucket) -> Seq<RelatedPlayer> {
    members.filter(
        |player: RelatedPlayer| spec_free_agency_bucket(snapshot.spec_free_agent_kind(player)) == bucket,
    )
}

/// Splits the veteran auction pool's members into the §6.2.2 buckets by their current contract.
pub fn split_veteran_pool(members: &Vec<RelatedPlayer>, snapshot: &RosterSnapshot) -> (pool: VeteranAuctionPool)
    ensures
        pool.restricted_free_agents@ == in_bucket(members@, *snapshot, FreeAgencyBucket::Restricted),
        pool.unrestricted_free_agents@ == in_bucket(members@, *snapshot, FreeAgencyBucket::Unrestricted),
        pool.free_agents@ == in_bucket(members@, *snapshot, FreeAgencyBucket::FreeAgent),
{
    let mut pool = VeteranAuctionPool {
        restricted_free_agents: Vec::new(),
        unrestricted_free_agents: Vec::new(),
        free_agents: Vec::new(),
    };
    let mut index: usize = 0;
    while index < members.len()
        invariant
            index <= members.len(),
            pool.restricted_free_agents@ == in_bucket(members@.take(index as int), *snapshot, FreeAgencyBucket::Restricted),
            pool.unrestricted_free_agents@ == in_bucket(members@.take(index as int), *snapshot, FreeAgencyBucket::Unrestricted),
            pool.free_agents@ == in_bucket(members@.take(index as int), *snapshot, FreeAgencyBucket::FreeAgent),
        decreases members.len() - index,
    {
        let player = members[index];
        proof {
            assert(members@.take(index + 1) =~= members@.take(index as int).push(player));
            members@.take(index as int).lemma_filter_push(player, |p: RelatedPlayer| spec_free_agency_bucket(snapshot.spec_free_agent_kind(p)) == FreeAgencyBucket::Restricted);
            members@.take(index as int).lemma_filter_push(player, |p: RelatedPlayer| spec_free_agency_bucket(snapshot.spec_free_agent_kind(p)) == FreeAgencyBucket::Unrestricted);
            members@.take(index as int).lemma_filter_push(player, |p: RelatedPlayer| spec_free_agency_bucket(snapshot.spec_free_agent_kind(p)) == FreeAgencyBucket::FreeAgent);
        }
        match free_agency_bucket(snapshot.free_agent_kind(&player)) {
            FreeAgencyBucket::Restricted => pool.restricted_free_agents.push(player),
            FreeAgencyBucket::Unrestricted => pool.unrestricted_free_agents.push(player),
            FreeAgencyBucket::FreeAgent => pool.free_agents.push(player),
        }
        index += 1;
    }
    proof {
        assert(members@.take(members.len() as int) =~= members@);
    }
    pool
}

} // verus!
