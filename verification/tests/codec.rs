use game_cluster::plutus::{redeemer_to_plutus_data, spend_action_to_plutus_data};
use game_cluster::redeemer::{Redeemer, SpendAction};
use pallas::codec::utils::MaybeIndefArray;
use pallas::ledger::primitives::{BigInt, PlutusData};

fn int_value(d: &PlutusData) -> i128 {
    match d {
        PlutusData::BigInt(BigInt::Int(i)) => i128::from(i.0),
        other => panic!("expected an integer datum, got {:?}", other),
    }
}

fn fields_of(d: &PlutusData) -> (u64, Option<u64>, &Vec<PlutusData>) {
    match d {
        PlutusData::Constr(c) => {
            let fields = match &c.fields {
                MaybeIndefArray::Indef(v) => v,
                MaybeIndefArray::Def(v) => v,
            };
            (c.tag, c.any_constructor, fields)
        }
        other => panic!("expected a constructor datum, got {:?}", other),
    }
}

#[test]
fn redeemer_seven_add_player_structure() {
    let redeemer = Redeemer::new(7, SpendAction::AddPlayer);
    let datum = redeemer_to_plutus_data(&redeemer);
    let (tag, any_constructor, fields) = fields_of(&datum);
    assert_eq!(tag, 121);
    assert_eq!(any_constructor, None);
    assert_eq!(fields.len(), 2);
    assert_eq!(int_value(&fields[0]), 7);
    let (atag, adisc, afields) = fields_of(&fields[1]);
    assert_eq!(atag, 121);
    assert_eq!(adisc, Some(0));
    assert_eq!(afields.len(), 0);
}

#[test]
fn end_game_encodes_with_discriminant_one() {
    let datum = spend_action_to_plutus_data(&SpendAction::EndGame);
    let (tag, any_constructor, fields) = fields_of(&datum);
    assert_eq!(tag, 121);
    assert_eq!(any_constructor, Some(1));
    assert_eq!(fields.len(), 0);
}

#[test]
fn collect_encodes_with_discriminant_two() {
    let datum = spend_action_to_plutus_data(&SpendAction::Collect);
    let (tag, any_constructor, fields) = fields_of(&datum);
    assert_eq!(tag, 121);
    assert_eq!(any_constructor, Some(2));
    assert_eq!(fields.len(), 0);
}

#[test]
fn encoding_is_deterministic_byte_for_byte() {
    let first = redeemer_to_plutus_data(&Redeemer::new(42, SpendAction::EndGame));
    let second = redeemer_to_plutus_data(&Redeemer::new(42, SpendAction::EndGame));
    let first_bytes = pallas::codec::minicbor::to_vec(&first).unwrap();
    let second_bytes = pallas::codec::minicbor::to_vec(&second).unwrap();
    assert_eq!(first_bytes, second_bytes);
}

#[test]
fn large_state_index_is_preserved_exactly() {
    let redeemer = Redeemer::new(u64::MAX, SpendAction::Collect);
    let datum = redeemer_to_plutus_data(&redeemer);
    let (_, _, fields) = fields_of(&datum);
    assert_eq!(int_value(&fields[0]), u64::MAX as i128);
}

#[test]
fn redeemer_new_keeps_its_parts() {
    let redeemer = Redeemer::new(3, SpendAction::EndGame);
    assert_eq!(redeemer.new_state_index, 3);
    assert!(matches!(redeemer.spend_action, SpendAction::EndGame));
}
