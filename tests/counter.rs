use counter_program::{
    increment, initialize, Counter, CounterError, Identity, Increment, Initialize, RecordStore,
    Signer, COUNTER_SPACE,
};

fn id(b: u8) -> Identity {
    Identity::new_from_array([b; 32])
}

fn signer(key: Identity, lamports: u64) -> Signer {
    Signer { key, is_signer: true, lamports }
}

fn init_ctx(address: Identity, payer: Identity) -> Initialize {
    Initialize { counter: address, authority: signer(payer, 1_000), rent: 100 }
}

fn inc_ctx(address: Identity, caller: Identity) -> Increment {
    Increment { counter: address, authority: signer(caller, 0) }
}

#[test]
fn initialize_then_read_gives_start_and_authority() {
    let mut store = RecordStore::new();
    for start in [0u64, 1, 5, u64::MAX] {
        let address = Identity::new_from_array([start as u8 ^ 0x5a; 32]);
        let mut ctx = init_ctx(address, id(1));
        let r = initialize(&mut store, &mut ctx, start).unwrap();
        assert_eq!(r, Counter { authority: id(1), count: start });
        assert_eq!(store.load(&address), Some(Counter { authority: id(1), count: start }));
        assert_eq!(ctx.authority.lamports, 900);
    }
}

#[test]
fn initialize_on_existing_record_conflicts() {
    let mut store = RecordStore::new();
    let address = id(9);
    initialize(&mut store, &mut init_ctx(address, id(1)), 7).unwrap();
    let mut again = init_ctx(address, id(2));
    assert_eq!(initialize(&mut store, &mut again, 0), Err(CounterError::AllocationConflict));
    assert_eq!(again.authority.lamports, 1_000);
    assert_eq!(store.load(&address), Some(Counter { authority: id(1), count: 7 }));
}

#[test]
fn initialize_unsigned_is_refused() {
    let mut store = RecordStore::new();
    let mut ctx = init_ctx(id(9), id(1));
    ctx.authority.is_signer = false;
    assert_eq!(initialize(&mut store, &mut ctx, 3), Err(CounterError::UnauthorizedSigner));
    assert!(!store.contains(&id(9)));
}

#[test]
fn initialize_without_funds_is_refused() {
    let mut store = RecordStore::new();
    let mut ctx = init_ctx(id(9), id(1));
    ctx.authority.lamports = 99;
    assert_eq!(initialize(&mut store, &mut ctx, 3), Err(CounterError::InsufficientFunds));
    assert_eq!(ctx.authority.lamports, 99);
    assert_eq!(store.load(&id(9)), None);
    ctx.authority.lamports = 100;
    assert!(initialize(&mut store, &mut ctx, 3).is_ok());
    assert_eq!(ctx.authority.lamports, 0);
}

#[test]
fn increment_n_times_adds_n() {
    let mut store = RecordStore::new();
    let address = id(9);
    initialize(&mut store, &mut init_ctx(address, id(1)), 40).unwrap();
    for _ in 0..25 {
        increment(&mut store, &inc_ctx(address, id(1))).unwrap();
    }
    assert_eq!(store.load(&address), Some(Counter { authority: id(1), count: 65 }));
}

#[test]
fn increment_by_other_identity_is_refused() {
    let mut store = RecordStore::new();
    let address = id(9);
    initialize(&mut store, &mut init_ctx(address, id(1)), 10).unwrap();
    let mut other = [1u8; 32];
    other[31] = 2;
    let q = Identity::new_from_array(other);
    assert_eq!(increment(&mut store, &inc_ctx(address, q)), Err(CounterError::AuthorityMismatch));
    assert_eq!(increment(&mut store, &inc_ctx(address, q)), Err(CounterError::AuthorityMismatch));
    assert_eq!(store.load(&address), Some(Counter { authority: id(1), count: 10 }));
}

#[test]
fn increment_missing_record_is_not_found() {
    let mut store = RecordStore::new();
    assert_eq!(increment(&mut store, &inc_ctx(id(9), id(1))), Err(CounterError::RecordNotFound));
    assert!(!store.contains(&id(9)));
}

#[test]
fn increment_unsigned_is_refused() {
    let mut store = RecordStore::new();
    initialize(&mut store, &mut init_ctx(id(9), id(1)), 1).unwrap();
    let mut ctx = inc_ctx(id(9), id(1));
    ctx.authority.is_signer = false;
    assert_eq!(increment(&mut store, &ctx), Err(CounterError::UnauthorizedSigner));
    assert_eq!(store.load(&id(9)).unwrap().count, 1);
}

#[test]
fn increment_at_max_overflows() {
    let mut store = RecordStore::new();
    initialize(&mut store, &mut init_ctx(id(9), id(1)), u64::MAX - 1).unwrap();
    assert_eq!(increment(&mut store, &inc_ctx(id(9), id(1))).unwrap().count, u64::MAX);
    assert_eq!(increment(&mut store, &inc_ctx(id(9), id(1))), Err(CounterError::CounterOverflow));
    assert_eq!(store.load(&id(9)).unwrap().count, u64::MAX);
}

#[test]
fn scenario_owner_increments_stranger_is_refused() {
    let p = id(0xaa);
    let q = id(0xbb);
    let address = id(0x01);
    let mut store = RecordStore::new();
    let created = initialize(&mut store, &mut init_ctx(address, p), 5).unwrap();
    assert_eq!(created, Counter { authority: p, count: 5 });
    let bumped = increment(&mut store, &inc_ctx(address, p)).unwrap();
    assert_eq!(bumped, Counter { authority: p, count: 6 });
    assert_eq!(increment(&mut store, &inc_ctx(address, q)), Err(CounterError::AuthorityMismatch));
    assert_eq!(store.load(&address), Some(Counter { authority: p, count: 6 }));
}

#[test]
fn records_are_independent() {
    let mut store = RecordStore::new();
    initialize(&mut store, &mut init_ctx(id(1), id(7)), 1).unwrap();
    initialize(&mut store, &mut init_ctx(id(2), id(8)), 100).unwrap();
    increment(&mut store, &inc_ctx(id(2), id(8))).unwrap();
    assert_eq!(store.load(&id(1)), Some(Counter { authority: id(7), count: 1 }));
    assert_eq!(store.load(&id(2)), Some(Counter { authority: id(8), count: 101 }));
}

#[test]
fn layout_is_tag_authority_count() {
    let mut key = [0u8; 32];
    for (i, b) in key.iter_mut().enumerate() {
        *b = i as u8;
    }
    let c = Counter { authority: Identity::new_from_array(key), count: 0x0102_0304_0506_0708 };
    let bytes = c.encode();
    assert_eq!(bytes.len(), COUNTER_SPACE);
    assert_eq!(&bytes[0..8], &[255, 176, 4, 245, 188, 253, 124, 25]);
    assert_eq!(&bytes[8..40], &key[..]);
    assert_eq!(&bytes[40..48], &[8, 7, 6, 5, 4, 3, 2, 1]);
    assert_eq!(Counter::decode(&bytes), Some(c));
}

#[test]
fn decode_refuses_malformed_records() {
    let c = Counter { authority: id(3), count: 42 };
    let mut bytes = c.encode();
    bytes[0] ^= 1;
    assert_eq!(Counter::decode(&bytes), None);
    let short = c.encode();
    assert_eq!(Counter::decode(&short[..47]), None);
    let mut long = c.encode();
    long.push(0);
    assert_eq!(Counter::decode(&long), None);
    assert_eq!(Counter::decode(&[]), None);
}

#[test]
fn store_data_is_the_serialized_record() {
    let mut store = RecordStore::new();
    assert_eq!(store.data(&id(4)), None);
    initialize(&mut store, &mut init_ctx(id(4), id(5)), 9).unwrap();
    let c = Counter { authority: id(5), count: 9 };
    assert_eq!(store.data(&id(4)), Some(c.encode()));
}

#[test]
fn identity_comparison_is_bytewise() {
    let a = id(1);
    let mut raw = [1u8; 32];
    assert!(a.same_as(&Identity::new_from_array(raw)));
    raw[17] = 0;
    assert!(!a.same_as(&Identity::new_from_array(raw)));
    assert_eq!(a.to_bytes(), [1u8; 32]);
}

#[test]
fn store_write_replaces_and_allocates() {
    let mut store = RecordStore::new();
    store.write(&id(6), &Counter { authority: id(1), count: 3 });
    assert_eq!(store.load(&id(6)), Some(Counter { authority: id(1), count: 3 }));
    store.write(&id(6), &Counter { authority: id(2), count: 4 });
    assert_eq!(store.load(&id(6)), Some(Counter { authority: id(2), count: 4 }));
    assert!(!store.contains(&id(7)));
}
