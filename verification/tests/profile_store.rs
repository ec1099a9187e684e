use cadpay::errors::ProfileError;
use cadpay::pda::derive_profile_address;
use cadpay::store::ProfileStore;

fn key(fill: u8) -> [u8; 32] {
    [fill; 32]
}

#[test]
fn create_then_read_returns_the_record() {
    let k = key(1);
    let mut store = ProfileStore::new();
    let r = store.initialize_user(&k, [2u8; 16], [3u8; 4], [4u8; 8], [5u8; 4]);
    assert_eq!(r, Ok(()));
    let p = store.read_profile(&k).unwrap();
    assert_eq!(p.authority, k);
    assert_eq!(p.username, [2u8; 16]);
    assert_eq!(p.emoji, [3u8; 4]);
    assert_eq!(p.gender, [4u8; 8]);
    assert_eq!(p.pin, [5u8; 4]);
}

#[test]
fn read_at_the_derived_address_finds_the_record() {
    let k = key(11);
    let mut store = ProfileStore::new();
    store
        .initialize_user(&k, [2u8; 16], [3u8; 4], [4u8; 8], [5u8; 4])
        .unwrap();
    let (addr, _bump) = derive_profile_address(&k).unwrap();
    let p = store.read_at(&addr).unwrap();
    assert_eq!(p.authority, k);
}

#[test]
fn double_create_is_rejected_and_applies_nothing() {
    let k = key(1);
    let mut store = ProfileStore::new();
    store
        .initialize_user(&k, [2u8; 16], [3u8; 4], [4u8; 8], [5u8; 4])
        .unwrap();
    let r = store.initialize_user(&k, [9u8; 16], [9u8; 4], [9u8; 8], [9u8; 4]);
    assert_eq!(r, Err(ProfileError::AlreadyInitialized));
    let p = store.read_profile(&k).unwrap();
    assert_eq!(p.username, [2u8; 16]);
    assert_eq!(p.emoji, [3u8; 4]);
    assert_eq!(p.gender, [4u8; 8]);
    assert_eq!(p.pin, [5u8; 4]);
}

#[test]
fn update_by_owner_overwrites_data_and_keeps_authority() {
    let k = key(1);
    let mut store = ProfileStore::new();
    store
        .initialize_user(&k, [2u8; 16], [3u8; 4], [4u8; 8], [5u8; 4])
        .unwrap();
    let r = store.update_user(&k, &k, [6u8; 16], [7u8; 4], [8u8; 8], [9u8; 4]);
    assert_eq!(r, Ok(()));
    let p = store.read_profile(&k).unwrap();
    assert_eq!(p.authority, k);
    assert_eq!(p.username, [6u8; 16]);
    assert_eq!(p.emoji, [7u8; 4]);
    assert_eq!(p.gender, [8u8; 8]);
    assert_eq!(p.pin, [9u8; 4]);
}

#[test]
fn update_by_non_owner_is_rejected_and_changes_nothing() {
    let k = key(1);
    let other = key(2);
    let mut store = ProfileStore::new();
    store
        .initialize_user(&k, [2u8; 16], [3u8; 4], [4u8; 8], [5u8; 4])
        .unwrap();
    let r = store.update_user(&k, &other, [6u8; 16], [7u8; 4], [8u8; 8], [9u8; 4]);
    assert_eq!(r, Err(ProfileError::AuthorityMismatch));
    let p = store.read_profile(&k).unwrap();
    assert_eq!(p.authority, k);
    assert_eq!(p.username, [2u8; 16]);
    assert_eq!(p.emoji, [3u8; 4]);
    assert_eq!(p.gender, [4u8; 8]);
    assert_eq!(p.pin, [5u8; 4]);
}

#[test]
fn update_without_create_is_rejected() {
    let k = key(1);
    let mut store = ProfileStore::new();
    let r = store.update_user(&k, &k, [6u8; 16], [7u8; 4], [8u8; 8], [9u8; 4]);
    assert_eq!(r, Err(ProfileError::RecordNotFound));
    assert!(store.read_profile(&k).is_none());
}

#[test]
fn records_of_different_keys_do_not_interfere() {
    let k1 = key(1);
    let k2 = key(2);
    let mut store = ProfileStore::new();
    store
        .initialize_user(&k1, [1u8; 16], [1u8; 4], [1u8; 8], [1u8; 4])
        .unwrap();
    store
        .initialize_user(&k2, [2u8; 16], [2u8; 4], [2u8; 8], [2u8; 4])
        .unwrap();
    store
        .update_user(&k2, &k2, [3u8; 16], [3u8; 4], [3u8; 8], [3u8; 4])
        .unwrap();
    let p1 = store.read_profile(&k1).unwrap();
    let p2 = store.read_profile(&k2).unwrap();
    assert_eq!(p1.username, [1u8; 16]);
    assert_eq!(p2.username, [3u8; 16]);
}

#[test]
fn alice_scenario_create_read_update_pin() {
    let k = key(77);
    let username: [u8; 16] = *b"alice___________";
    let emoji: [u8; 4] = [240, 159, 152, 128];
    let gender: [u8; 8] = *b"female__";
    let pin: [u8; 4] = *b"1234";
    let mut store = ProfileStore::new();
    assert_eq!(store.initialize_user(&k, username, emoji, gender, pin), Ok(()));
    let p = store.read_profile(&k).unwrap();
    assert_eq!(p.authority, k);
    assert_eq!(p.username, username);
    assert_eq!(p.emoji, emoji);
    assert_eq!(p.gender, gender);
    assert_eq!(p.pin, pin);
    let new_pin: [u8; 4] = *b"9999";
    assert_eq!(store.update_user(&k, &k, username, emoji, gender, new_pin), Ok(()));
    let p = store.read_profile(&k).unwrap();
    assert_eq!(p.authority, k);
    assert_eq!(p.username, username);
    assert_eq!(p.emoji, emoji);
    assert_eq!(p.gender, gender);
    assert_eq!(p.pin, new_pin);
}
