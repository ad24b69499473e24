use timestamping::storage::{StorageState, Timestamp, TimestampSchema};

fn key(fill: u8) -> Vec<u8> {
    vec![fill; 32]
}

#[test]
fn new_state_is_empty() {
    let state = StorageState::new();
    assert_eq!(state.records().len(), 0);
    assert_eq!(state.oracle_time(), None);
}

#[test]
fn schema_wraps_a_view_and_reads_it() {
    let mut state = StorageState::new();
    TimestampSchema::put(&mut state, Timestamp::new(key(1), 700, None));
    let schema = TimestampSchema::new(&state);
    assert_eq!(schema.timestamps().len(), 1);
    let rec = schema.timestamp(&key(1)).unwrap();
    assert_eq!(rec.file_hash(), &key(1));
    assert_eq!(rec.time(), 700);
    assert!(rec.signer().is_none());
}

#[test]
fn lookup_absent_key_is_none() {
    let mut state = StorageState::new();
    TimestampSchema::put(&mut state, Timestamp::new(key(1), 700, None));
    let schema = TimestampSchema::new(&state);
    assert!(schema.timestamp(&key(2)).is_none());
    assert!(schema.timestamp(&vec![1u8; 31]).is_none());
}

#[test]
fn put_keeps_insertion_order() {
    let mut state = StorageState::new();
    TimestampSchema::put(&mut state, Timestamp::new(key(3), 1, None));
    TimestampSchema::put(&mut state, Timestamp::new(key(2), 2, Some(key(9))));
    TimestampSchema::put(&mut state, Timestamp::new(key(1), 3, None));
    let times: Vec<u64> = state.records().iter().map(|r| r.time()).collect();
    assert_eq!(times, vec![1, 2, 3]);
    assert_eq!(
        state.lookup(&key(2)).unwrap().signer().as_ref().unwrap(),
        &key(9)
    );
}

#[test]
fn put_overwrites_an_existing_key() {
    let mut state = StorageState::new();
    TimestampSchema::put(&mut state, Timestamp::new(key(1), 1, None));
    TimestampSchema::put(&mut state, Timestamp::new(key(4), 2, None));
    TimestampSchema::put(&mut state, Timestamp::new(key(1), 9, Some(key(8))));
    // Still one record per key, the overwritten one in its old position.
    assert_eq!(state.records().len(), 2);
    let schema = TimestampSchema::new(&state);
    let rec = schema.timestamp(&key(1)).unwrap();
    assert_eq!(rec.time(), 9);
    assert_eq!(rec.signer().as_ref().unwrap(), &key(8));
    assert_eq!(state.records()[0].time(), 9);
    assert_eq!(schema.timestamp(&key(4)).unwrap().time(), 2);
}

#[test]
fn oracle_time_is_the_last_agreed_value() {
    let mut state = StorageState::new();
    state.set_oracle_time(10);
    state.set_oracle_time(25);
    assert_eq!(state.oracle_time(), Some(25));
}
