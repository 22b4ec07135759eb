//! The redeemer data model: the spend actions a game contract accepts and
//! the pairing of a target state index with such an action.

use vstd::prelude::*;

verus! {

/// The closed set of on-chain action categories a game contract accepts.
/// Each variant corresponds to a fixed small integer discriminant in the
/// encoded form.
#[derive(Clone, Copy, PartialEq, Eq, Structural, Debug)]
pub enum SpendAction {
    AddPlayer,
    EndGame,
    Collect,
}

/// The unit of data submitted to the ledger's validator to justify a
/// spending action: the state index the transaction transitions to,
/// together with the action taken.
#[derive(Clone, Copy, PartialEq, Eq, Structural, Debug)]
pub struct Redeemer {
    pub new_state_index: u64,
    pub spend_action: SpendAction,
}

impl Redeemer {
    pub fn new(new_state_index: u64, spend_action: SpendAction) -> (r: Self)
        ensures
            r.new_state_index == new_state_index,
            r.spend_action == spend_action,
    {
        Self { new_state_index, spend_action }
    }
}

} // verus!
