//! Why a single-team roster move was refused by a league rule.
use crate::deadline_processing::roster_lock::TeamRosterViolation;
use crate::model::{ContractKind, ContractStatus, ContractUpdateType};
use vstd::prelude::*;

verus! {

/// A roster move a league rule refuses. Each variant is a distinct user-facing rejection reason.
#[derive(Clone, Debug, PartialEq, Eq)]
pub enum RosterMoveRejection {
    /// Rules §10.3.2: a contract already on IR cannot be moved there again.
    AlreadyInIr { contract_id: i64 },
    /// Rules §10.3.2: activating from IR needs a contract that is on IR.
    NotInIr { contract_id: i64 },
    /// A newer row in the contract's chain supersedes it.
    NotLatestInChain { contract_id: i64 },
    /// Only a live contract can be moved.
    ContractNotActive { contract_id: i64, status: ContractStatus },
    /// Rules §11.6: only a rookie-development contract can be activated as a rookie contract.
    NotRookieDevelopment { contract_id: i64, kind: ContractKind },
    /// Rules §13.1.6 (T2): a contract acquired in a transaction stays on the roster until a later
    /// transaction can remove it.
    SameTransactionAddThenRemove { contract_id: i64, update_type: ContractUpdateType },
    /// Rules §13.1.6 (T1): the roster has to be legal once the transaction is applied; one entry per
    /// rule the end state breaks.
    TransactionLeavesRosterIllegal { team_id: i64, violations: Vec<TeamRosterViolation> },
    /// Rules §12.5.3: a trade's accommodating drop has to name a contract the team holds once the
    /// trade's legs have applied.
    AccommodatingDropNotOnRoster { contract_id: i64, team_id: i64 },
    /// Rules §8.3.5, §8.3.7: a player added this week must sit legally on the roster before he can
    /// be dropped; these are the rules the roster with every add still breaks.
    DropSameWeekAdd { contract_id: i64, violations: Vec<TeamRosterViolation> },
    /// Rules §11.3.1: an RD↔RDI move needs the contract kind that move starts from.
    WrongContractKind { contract_id: i64, kind: ContractKind, expected: ContractKind },
}

} // verus!
