use counter::{Account, AccountV1, AccountV2, RecordStore, StoreError, VersionedAccount};
use near_sdk::borsh::{BorshDeserialize, BorshSerialize};

fn sample() -> Account {
    Account { vote: 3, balance: 4, bio: "\u{e9}".to_string(), last_change: 0x0102030405060708 }
}

#[test]
fn defaults_are_blank() {
    assert_eq!(AccountV1::default(), AccountV1 { vote: 0, balance: 0 });
    assert_eq!(AccountV2::default(), AccountV2 { vote: 0, balance: 0, bio: String::new() });
    assert_eq!(
        Account::default(),
        Account { vote: 0, balance: 0, bio: String::new(), last_change: 0 }
    );
}

#[test]
fn earliest_shape_gets_the_placeholder_bio() {
    let stored = VersionedAccount::V1(AccountV1 { vote: 7, balance: 9 });
    assert_eq!(
        Account::from(stored),
        Account { vote: 7, balance: 9, bio: "migrate bio".to_string(), last_change: 0 }
    );
}

#[test]
fn second_shape_keeps_its_bio() {
    let stored = VersionedAccount::V2(AccountV2 { vote: 7, balance: 9, bio: "mine".to_string() });
    assert_eq!(
        Account::from(stored),
        Account { vote: 7, balance: 9, bio: "mine".to_string(), last_change: 0 }
    );
}

#[test]
fn current_shape_is_kept_as_it_is() {
    assert_eq!(Account::from(VersionedAccount::Current(sample())), sample());
}

#[test]
fn wrapping_gives_the_current_variant() {
    assert_eq!(VersionedAccount::from(sample()), VersionedAccount::Current(sample()));
    assert_eq!(Account::from(VersionedAccount::from(sample())), sample());
}

#[test]
fn normalizing_twice_changes_nothing() {
    let stored = vec![
        VersionedAccount::V1(AccountV1 { vote: 1, balance: 2 }),
        VersionedAccount::V2(AccountV2 { vote: 1, balance: 2, bio: "b".to_string() }),
        VersionedAccount::Current(sample()),
    ];
    for v in stored {
        let once = Account::from(v);
        let twice = Account::from(VersionedAccount::from(once.clone()));
        assert_eq!(twice, once);
    }
}

#[test]
fn records_are_written_byte_for_byte() {
    assert_eq!(VersionedAccount::V1(AccountV1 { vote: 1, balance: 2 }).encode(), vec![0, 1, 2]);
    assert_eq!(
        VersionedAccount::V2(AccountV2 { vote: 1, balance: 2, bio: "hi".to_string() }).encode(),
        vec![1, 1, 2, 2, 0, 0, 0, 104, 105]
    );
    assert_eq!(
        VersionedAccount::Current(sample()).encode(),
        vec![2, 3, 4, 2, 0, 0, 0, 0xc3, 0xa9, 8, 7, 6, 5, 4, 3, 2, 1]
    );
    assert_eq!(
        VersionedAccount::Current(Account::default()).encode(),
        vec![2, 0, 0, 0, 0, 0, 0, 0, 0, 0, 0, 0, 0, 0, 0]
    );
}

#[test]
fn records_are_read_byte_for_byte() {
    assert_eq!(
        VersionedAccount::decode(&[0, 1, 2]),
        Ok(VersionedAccount::V1(AccountV1 { vote: 1, balance: 2 }))
    );
    assert_eq!(
        VersionedAccount::decode(&[1, 1, 2, 2, 0, 0, 0, 104, 105]),
        Ok(VersionedAccount::V2(AccountV2 { vote: 1, balance: 2, bio: "hi".to_string() }))
    );
    assert_eq!(
        VersionedAccount::decode(&[2, 3, 4, 2, 0, 0, 0, 0xc3, 0xa9, 8, 7, 6, 5, 4, 3, 2, 1]),
        Ok(VersionedAccount::Current(sample()))
    );
}

#[test]
fn written_records_are_read_back() {
    let long = "x\u{20ac}\u{1f600}".repeat(100);
    let stored = vec![
        VersionedAccount::V1(AccountV1 { vote: 255, balance: 0 }),
        VersionedAccount::V2(AccountV2 { vote: 0, balance: 255, bio: String::new() }),
        VersionedAccount::V2(AccountV2 { vote: 1, balance: 2, bio: long.clone() }),
        VersionedAccount::Current(sample()),
        VersionedAccount::Current(Account {
            vote: 9,
            balance: 8,
            bio: long,
            last_change: u64::MAX,
        }),
    ];
    for v in stored {
        assert_eq!(VersionedAccount::decode(&v.encode()), Ok(v));
    }
}

#[test]
fn text_length_takes_four_bytes() {
    let bio = "a".repeat(0x01_02_03);
    let bytes = VersionedAccount::V2(AccountV2 { vote: 0, balance: 0, bio: bio.clone() }).encode();
    assert_eq!(&bytes[..7], &[1, 0, 0, 3, 2, 1, 0]);
    assert_eq!(bytes.len(), 7 + 0x01_02_03);
    assert_eq!(
        VersionedAccount::decode(&bytes),
        Ok(VersionedAccount::V2(AccountV2 { vote: 0, balance: 0, bio }))
    );
}

#[test]
fn unknown_shape_is_corrupt() {
    assert_eq!(VersionedAccount::decode(&[3, 1, 2]), Err(StoreError::CorruptRecord));
    assert_eq!(VersionedAccount::decode(&[255]), Err(StoreError::CorruptRecord));
    let mut bytes = VersionedAccount::Current(sample()).encode();
    for shape in 3..=255u8 {
        bytes[0] = shape;
        assert_eq!(VersionedAccount::decode(&bytes), Err(StoreError::CorruptRecord));
    }
}

#[test]
fn short_records_are_corrupt() {
    assert_eq!(VersionedAccount::decode(&[]), Err(StoreError::CorruptRecord));
    let whole = vec![
        VersionedAccount::V1(AccountV1 { vote: 1, balance: 2 }).encode(),
        VersionedAccount::V2(AccountV2 { vote: 1, balance: 2, bio: "hi".to_string() }).encode(),
        VersionedAccount::Current(sample()).encode(),
    ];
    for bytes in whole {
        for cut in 0..bytes.len() {
            assert_eq!(VersionedAccount::decode(&bytes[..cut]), Err(StoreError::CorruptRecord));
        }
    }
}

#[test]
fn bytes_after_the_last_field_are_corrupt() {
    assert_eq!(VersionedAccount::decode(&[0, 1, 2, 0]), Err(StoreError::CorruptRecord));
    assert_eq!(
        VersionedAccount::decode(&[1, 1, 2, 2, 0, 0, 0, 104, 105, 0]),
        Err(StoreError::CorruptRecord)
    );
    let mut bytes = VersionedAccount::Current(sample()).encode();
    bytes.push(0);
    assert_eq!(VersionedAccount::decode(&bytes), Err(StoreError::CorruptRecord));
}

#[test]
fn ill_formed_text_is_corrupt() {
    assert_eq!(
        VersionedAccount::decode(&[1, 1, 2, 2, 0, 0, 0, 0xc3, 0x28]),
        Err(StoreError::CorruptRecord)
    );
    assert_eq!(
        VersionedAccount::decode(&[1, 1, 2, 1, 0, 0, 0, 0xff]),
        Err(StoreError::CorruptRecord)
    );
    assert_eq!(
        VersionedAccount::decode(&[2, 3, 4, 1, 0, 0, 0, 0x80, 8, 7, 6, 5, 4, 3, 2, 1]),
        Err(StoreError::CorruptRecord)
    );
}

#[test]
fn text_is_read_not_handed_back() {
    let read = VersionedAccount::decode(&[1, 0, 0, 4, 0, 0, 0, 0xf0, 0x9f, 0x98, 0x80]);
    match read {
        Ok(VersionedAccount::V2(a)) => {
            assert_eq!(a.bio, "\u{1f600}");
            assert_eq!(a.bio.chars().count(), 1);
        }
        _ => panic!("a record of the second shape was expected"),
    }
}

#[test]
fn fields_agree_with_borsh() {
    let account = sample();
    let fields = (account.vote, account.balance, account.bio.clone(), account.last_change)
        .try_to_vec()
        .unwrap();
    let bytes = VersionedAccount::Current(account.clone()).encode();
    assert_eq!(bytes[0], 2);
    assert_eq!(&bytes[1..], &fields[..]);
    let back = <(u8, u8, String, u64)>::try_from_slice(&bytes[1..]).unwrap();
    assert_eq!(back, (account.vote, account.balance, account.bio, account.last_change));

    let second = (1u8, 2u8, "hi".to_string()).try_to_vec().unwrap();
    let bytes =
        VersionedAccount::V2(AccountV2 { vote: 1, balance: 2, bio: "hi".to_string() }).encode();
    assert_eq!(bytes[0], 1);
    assert_eq!(&bytes[1..], &second[..]);
}

#[test]
fn empty_store_finds_nothing() {
    let store = RecordStore::new();
    assert!(store.is_empty());
    assert_eq!(store.len(), 0);
    assert!(!store.contains_key("john.testnet"));
    assert_eq!(store.get_raw("john.testnet"), None);
    assert_eq!(store.get("john.testnet"), Err(StoreError::NotFound));
}

#[test]
fn ensure_creates_a_blank_current_record() {
    let mut store = RecordStore::new();
    store.ensure("john.testnet".to_string());
    assert!(store.contains_key("john.testnet"));
    assert!(!store.is_empty());
    assert_eq!(
        store.get_raw("john.testnet"),
        Some(&vec![2, 0, 0, 0, 0, 0, 0, 0, 0, 0, 0, 0, 0, 0, 0])
    );
    assert_eq!(store.get("john.testnet"), Ok(Account::default()));
    assert_eq!(store.get("john"), Err(StoreError::NotFound));
}

#[test]
fn ensure_twice_is_ensure_once() {
    let mut store = RecordStore::new();
    store.ensure("john.testnet".to_string());
    let once = store.get_raw("john.testnet").cloned();
    store.ensure("john.testnet".to_string());
    assert_eq!(store.len(), 1);
    assert_eq!(store.get_raw("john.testnet").cloned(), once);
}

#[test]
fn ensure_keeps_an_older_record() {
    let mut store = RecordStore::new();
    store.insert_raw("old.testnet".to_string(), vec![0, 7, 9]);
    store.ensure("old.testnet".to_string());
    assert_eq!(store.len(), 1);
    assert_eq!(store.get_raw("old.testnet"), Some(&vec![0, 7, 9]));
}

#[test]
fn reading_normalizes_and_leaves_the_bytes() {
    let mut store = RecordStore::new();
    store.insert_raw("old.testnet".to_string(), vec![0, 7, 9]);
    store.insert_raw("mid.testnet".to_string(), vec![1, 1, 2, 2, 0, 0, 0, 104, 105]);
    assert_eq!(
        store.get("old.testnet"),
        Ok(Account { vote: 7, balance: 9, bio: "migrate bio".to_string(), last_change: 0 })
    );
    assert_eq!(
        store.get("mid.testnet"),
        Ok(Account { vote: 1, balance: 2, bio: "hi".to_string(), last_change: 0 })
    );
    assert_eq!(store.get_raw("old.testnet"), Some(&vec![0, 7, 9]));
    assert_eq!(store.get_raw("mid.testnet"), Some(&vec![1, 1, 2, 2, 0, 0, 0, 104, 105]));
    assert_eq!(store.len(), 2);
}

#[test]
fn writing_stores_the_current_shape() {
    let mut store = RecordStore::new();
    store.insert_raw("old.testnet".to_string(), vec![0, 7, 9]);
    store.insert("old.testnet".to_string(), sample());
    assert_eq!(store.len(), 1);
    assert_eq!(store.get("old.testnet"), Ok(sample()));
    assert_eq!(
        store.get_raw("old.testnet"),
        Some(&vec![2, 3, 4, 2, 0, 0, 0, 0xc3, 0xa9, 8, 7, 6, 5, 4, 3, 2, 1])
    );
}

#[test]
fn writing_replaces_the_whole_record() {
    let mut store = RecordStore::new();
    store.insert("a".to_string(), sample());
    store.insert("b".to_string(), sample());
    let next = Account { vote: 1, balance: 1, bio: String::new(), last_change: 5 };
    store.insert("a".to_string(), next.clone());
    assert_eq!(store.len(), 2);
    assert_eq!(store.get("a"), Ok(next));
    assert_eq!(store.get("b"), Ok(sample()));
}

#[test]
fn corrupt_bytes_fail_the_read() {
    let mut store = RecordStore::new();
    store.insert_raw("bad.testnet".to_string(), vec![7]);
    store.insert_raw("none.testnet".to_string(), vec![]);
    assert_eq!(store.get("bad.testnet"), Err(StoreError::CorruptRecord));
    assert_eq!(store.get("none.testnet"), Err(StoreError::CorruptRecord));
    assert_eq!(store.get_raw("bad.testnet"), Some(&vec![7]));
}

#[test]
fn keys_are_told_apart_exactly() {
    let mut store = RecordStore::new();
    store.ensure("john".to_string());
    store.ensure("john.testnet".to_string());
    store.ensure("John".to_string());
    store.ensure(String::new());
    store.ensure("jo\u{e9}".to_string());
    assert_eq!(store.len(), 5);
    assert!(store.contains_key(""));
    assert!(store.contains_key("jo\u{e9}"));
    assert!(!store.contains_key("joe"));
    assert!(!store.contains_key("john.testne"));
}
