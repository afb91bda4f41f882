//! Tests of the auction storage accessors over the in-memory provider.

use highway_core::store::{
    get_bids, get_delegators, get_era_id, get_era_validators,
    get_seigniorage_recipients_snapshot, set_bids, set_delegators, set_era_id,
    set_era_validators, set_seigniorage_recipients_snapshot, AuctionError, Bid, Bids, Delegator,
    Delegators, EraValidatorEntry, EraValidators, InMemoryStorage, Key,
    SeigniorageRecipientsSnapshot, SnapshotEntry, URef, BIDS_KEY, DELEGATORS_KEY, ERA_ID_KEY,
    ERA_VALIDATORS_KEY, SEIGNIORAGE_RECIPIENTS_SNAPSHOT_KEY,
};

fn seeded_store() -> InMemoryStorage {
    let mut store = InMemoryStorage::new();
    store.register(BIDS_KEY, Key::Uref(URef(0)));
    store.register(DELEGATORS_KEY, Key::Uref(URef(1)));
    store.register(ERA_VALIDATORS_KEY, Key::Uref(URef(2)));
    store.register(ERA_ID_KEY, Key::Uref(URef(3)));
    store.register(SEIGNIORAGE_RECIPIENTS_SNAPSHOT_KEY, Key::Uref(URef(4)));
    store
}

#[test]
fn missing_key_is_reported() {
    let mut store = InMemoryStorage::new();
    assert!(matches!(get_bids(&mut store), Err(AuctionError::MissingKey)));
}

#[test]
fn non_uref_key_is_invalid_variant() {
    let mut store = InMemoryStorage::new();
    store.register(BIDS_KEY, Key::Account(7));
    assert!(matches!(get_bids(&mut store), Err(AuctionError::InvalidKeyVariant)));
}

#[test]
fn missing_value_is_reported() {
    let mut store = seeded_store();
    assert!(matches!(get_bids(&mut store), Err(AuctionError::MissingValue)));
}

#[test]
fn wrong_kind_of_value_is_missing_value() {
    let mut store = seeded_store();
    // The era-id slot holds an era id; reading it as bids must not succeed.
    store.register(BIDS_KEY, Key::Uref(URef(3)));
    set_era_id(&mut store, 12).unwrap();
    assert!(matches!(get_bids(&mut store), Err(AuctionError::MissingValue)));
}

#[test]
fn bids_round_trip() {
    let mut store = seeded_store();
    let bids = Bids {
        entries: vec![
            Bid { validator: 1, staked_amount: 500, delegation_rate: 10 },
            Bid { validator: 2, staked_amount: 300, delegation_rate: 0 },
        ],
    };
    set_bids(
        &mut store,
        Bids { entries: bids.entries.clone() },
    )
    .unwrap();
    let read = get_bids(&mut store).unwrap();
    assert_eq!(read.entries, bids.entries);
}

#[test]
fn delegators_round_trip() {
    let mut store = seeded_store();
    let dels = vec![Delegator { delegator: 9, validator: 1, staked_amount: 44 }];
    set_delegators(&mut store, Delegators { entries: dels.clone() }).unwrap();
    let read = get_delegators(&mut store).unwrap();
    assert_eq!(read.entries, dels);
}

#[test]
fn era_validators_round_trip() {
    let mut store = seeded_store();
    let entries = vec![EraValidatorEntry { era: 3, validator: 1, weight: 100 }];
    set_era_validators(&mut store, EraValidators { entries: entries.clone() }).unwrap();
    let read = get_era_validators(&mut store).unwrap();
    assert_eq!(read.entries, entries);
}

#[test]
fn era_id_round_trip_and_overwrite() {
    let mut store = seeded_store();
    set_era_id(&mut store, 7).unwrap();
    assert_eq!(get_era_id(&mut store).unwrap(), 7);
    // A later write wins.
    set_era_id(&mut store, 8).unwrap();
    assert_eq!(get_era_id(&mut store).unwrap(), 8);
}

#[test]
fn snapshot_round_trip() {
    let mut store = seeded_store();
    let entries = vec![SnapshotEntry { era: 1, validator: 2, stake: 55, delegation_rate: 5 }];
    set_seigniorage_recipients_snapshot(
        &mut store,
        SeigniorageRecipientsSnapshot { entries: entries.clone() },
    )
    .unwrap();
    let read = get_seigniorage_recipients_snapshot(&mut store).unwrap();
    assert_eq!(read.entries, entries);
}
