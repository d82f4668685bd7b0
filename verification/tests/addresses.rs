use cyberoracle::address::{derive_address, RecordKey};
use cyberoracle::identity::Identity;
use cyberoracle::ledger::Ledger;

fn id(n: u64) -> Identity {
    Identity::from_words(n, 0, 0, 0)
}

#[test]
fn address_layout_is_tag_then_fields() {
    let state = derive_address(&RecordKey::State);
    assert_eq!(state, vec![1u8]);

    let counter = derive_address(&RecordKey::Counter { owner: id(0x0102) });
    assert_eq!(counter.len(), 33);
    assert_eq!(counter[0], 2);
    assert_eq!(counter[1], 0x02);
    assert_eq!(counter[2], 0x01);
    assert!(counter[3..].iter().all(|b| *b == 0));

    let request = derive_address(
        &RecordKey::Request { owner: id(0x0102), sequence: 0x0304 },
    );
    assert_eq!(request.len(), 41);
    assert_eq!(request[0], 3);
    assert_eq!(request[33], 0x04);
    assert_eq!(request[34], 0x03);
    assert!(request[35..].iter().all(|b| *b == 0));
}

#[test]
fn addresses_of_distinct_keys_differ() {
    let keys = [
        RecordKey::State,
        RecordKey::Counter { owner: id(1) },
        RecordKey::Counter { owner: id(2) },
        RecordKey::Request { owner: id(1), sequence: 0 },
        RecordKey::Request { owner: id(1), sequence: 1 },
        RecordKey::Request { owner: id(2), sequence: 0 },
        RecordKey::Request { owner: Identity::from_words(0, 1, 0, 0), sequence: 0 },
    ];
    for (i, a) in keys.iter().enumerate() {
        for (j, b) in keys.iter().enumerate() {
            if i != j {
                assert_ne!(derive_address(a), derive_address(b));
            }
        }
    }
}

#[test]
fn empty_ledger_has_nothing() {
    let l = Ledger::new();
    assert!(l.get_state().is_none());
    assert!(l.get_counter(id(1)).is_none());
    assert!(l.get_request(id(1), 0).is_none());
    assert_eq!(l.balance_of(id(1)), 0);
}

#[test]
fn credit_accumulates() {
    let mut l = Ledger::new();
    l.credit(id(1), 700);
    l.credit(id(1), 50);
    l.credit(id(2), 3);
    assert_eq!(l.balance_of(id(1)), 750);
    assert_eq!(l.balance_of(id(2)), 3);
    assert_eq!(l.balance_of(id(3)), 0);
}

#[test]
fn null_identity_is_all_zero_words() {
    assert_eq!(Identity::null(), Identity::from_words(0, 0, 0, 0));
    assert_ne!(Identity::null(), id(1));
}
