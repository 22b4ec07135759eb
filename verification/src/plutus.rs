//! Deterministic encoding of a redeemer into the ledger's
//! constructor-tagged datum form: a tagged product with the ledger's
//! canonical base tag, holding the target state index and the nested
//! spend-action datum, in that fixed order.

use vstd::prelude::*;
use crate::redeemer::{Redeemer, SpendAction};
use pallas::ledger::primitives::{BigInt, Constr, PlutusData};
use pallas::codec::utils::{Int, MaybeIndefArray};

verus! {

/// The ledger's canonical constructor tag for a plain record with no
/// alternative index.
pub const CONSTR_BASE_TAG: u64 = 121;

/// Declares pallas' `PlutusData`, the ledger's datum type, so that it can
/// stand in signatures; its values are opaque here.
#[verifier::external_type_specification]
#[verifier::external_body]
pub struct ExPlutusData(PlutusData);

/// The arbitrary-precision integer datum pallas builds from `n`: a
/// function of `n` alone.
pub uninterp spec fn plutus_int_of(n: u64) -> PlutusData;

/// The constructor-tagged datum pallas builds from a tag, an optional
/// constructor discriminant and an ordered field list: a function of
/// those alone.
pub uninterp spec fn plutus_constr_of(
    tag: u64,
    any_constructor: Option<u64>,
    fields: Seq<PlutusData>,
) -> PlutusData;

/// Relies on pallas' `PlutusData::BigInt`, `BigInt::Int` and minicbor's
/// `Int::from(u64)`: the integer datum holding exactly `n` (minicbor's
/// `Int` represents every `u64`, so no value is truncated).
#[verifier::external_body]
fn plutus_int(n: u64) -> (r: PlutusData)
    ensures
        r == plutus_int_of(n),
{
    PlutusData::BigInt(BigInt::Int(Int(pallas::codec::minicbor::data::Int::from(n))))
}

/// Relies on pallas' `PlutusData::Constr` and `Constr`: the
/// constructor-tagged datum with this tag, constructor discriminant and
/// field list (indefinite-length, order preserved).
#[verifier::external_body]
fn plutus_constr(tag: u64, any_constructor: Option<u64>, fields: Vec<PlutusData>) -> (r:
    PlutusData)
    ensures
        r == plutus_constr_of(tag, any_constructor, fields@),
{
    PlutusData::Constr(Constr { tag, any_constructor, fields: MaybeIndefArray::Indef(fields) })
}

/// The fixed small integer discriminant of each spend action in the
/// encoded form.
pub open spec fn action_discriminant(a: SpendAction) -> u64 {
    match a {
        SpendAction::AddPlayer => 0,
        SpendAction::EndGame => 1,
        SpendAction::Collect => 2,
    }
}

/// The datum a spend action encodes to: the base constructor tag, the
/// action's discriminant, and an empty field list — the discriminant
/// alone carries all information.
pub open spec fn spec_spend_action_datum(a: SpendAction) -> PlutusData {
    plutus_constr_of(CONSTR_BASE_TAG, Some(action_discriminant(a)), Seq::<PlutusData>::empty())
}

/// The datum a redeemer encodes to: a tagged product with the base
/// constructor tag and no discriminant, whose fields are, in this fixed
/// order, the target state index and the encoded spend action.
pub open spec fn spec_redeemer_datum(r: Redeemer) -> PlutusData {
    plutus_constr_of(
        CONSTR_BASE_TAG,
        None,
        seq![plutus_int_of(r.new_state_index), spec_spend_action_datum(r.spend_action)],
    )
}

/// The discriminant of a spend action, as the encoded form carries it.
pub fn spend_action_discriminant(a: &SpendAction) -> (d: u64)
    ensures
        d == action_discriminant(*a),
{
    match a {
        SpendAction::AddPlayer => 0,
        SpendAction::EndGame => 1,
        SpendAction::Collect => 2,
    }
}

/// Encodes a spend action as its ledger datum. Total: every action
/// encodes, and to exactly one datum.
pub fn spend_action_to_plutus_data(a: &SpendAction) -> (d: PlutusData)
    ensures
        d == spec_spend_action_datum(*a),
{
    let disc = spend_action_discriminant(a);
    let fields: Vec<PlutusData> = Vec::new();
    proof {
        assert(fields@ =~= Seq::<PlutusData>::empty());
    }
    plutus_constr(CONSTR_BASE_TAG, Some(disc), fields)
}

/// Encodes a redeemer as its ledger datum. Total: every well-typed
/// redeemer encodes, the integer is preserved exactly, and the field
/// order is fixed — index first, action second.
pub fn redeemer_to_plutus_data(r: &Redeemer) -> (d: PlutusData)
    ensures
        d == spec_redeemer_datum(*r),
{
    let index_datum = plutus_int(r.new_state_index);
    let action_datum = spend_action_to_plutus_data(&r.spend_action);
    let mut fields: Vec<PlutusData> = Vec::new();
    fields.push(index_datum);
    fields.push(action_datum);
    proof {
        assert(fields@ =~= seq![
            plutus_int_of(r.new_state_index),
            spec_spend_action_datum(r.spend_action),
        ]);
    }
    plutus_constr(CONSTR_BASE_TAG, None, fields)
}

/// Law: encoding is deterministic — the datum is a function of the
/// redeemer value alone, so encoding equal redeemers, however often,
/// yields equal datums.
pub proof fn lemma_encoding_deterministic(
    r1: Redeemer,
    r2: Redeemer,
    d1: PlutusData,
    d2: PlutusData,
)
    requires
        r1 == r2,
        d1 == spec_redeemer_datum(r1),
        d2 == spec_redeemer_datum(r2),
    ensures
        d1 == d2,
{
}

} // verus!
