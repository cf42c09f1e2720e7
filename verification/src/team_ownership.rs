//! Which team a user owns in a league.
use vstd::prelude::*;

verus! {

/// One of a user's roles in a league: whether it is the team-owner role, and the team it is tied
/// to, if any.
#[derive(Clone, Copy, Debug, PartialEq, Eq, Structural)]
pub struct TeamUserRole {
    pub is_team_owner: bool,
    pub team_id: Option<i64>,
}

/// The team of the first team-owner role that names one.
pub open spec fn spec_owned_team(roles: Seq<TeamUserRole>) -> Option<i64>
    decreases roles.len(),
{
    if roles.len() == 0 {
        None
    } else if roles[0].is_team_owner && roles[0].team_id is Some {
        roles[0].team_id
    } else {
        spec_owned_team(roles.drop_first())
    }
}

/// The team a user owns in a league, read from the user's roles there: the team of the first
/// team-owner role that has one.
pub fn owned_team(roles: &Vec<TeamUserRole>) -> (team_id: Option<i64>)
    ensures
        team_id == spec_owned_team(roles@),
{
    let mut index: usize = 0;
    proof {
        assert(roles@.skip(0) =~= roles@);
    }
    while index < roles.len()
        invariant
            index <= roles.len(),
            spec_owned_team(roles@) == spec_owned_team(roles@.skip(index as int)),
        decreases roles.len() - index,
    {
        proof {
            assert(roles@.skip(index as int).drop_first() =~= roles@.skip(index + 1));
        }
        let role = roles[index];
        if role.is_team_owner && role.team_id.is_some() {
            return role.team_id;
        }
        index += 1;
    }
    None
}

} // verus!
