use ed25519_dalek::{Signer, SigningKey};
use sha2::{Digest, Sha256};
use timestamping::storage::StorageState;
use timestamping::tx::{apply_event, PlatformEvent, TxCreateTimestamp};

fn signed_tx(seed: u8, data: &[u8]) -> TxCreateTimestamp {
    let key = SigningKey::from_bytes(&[seed; 32]);
    let sig = key.sign(data);
    TxCreateTimestamp::new(
        key.verifying_key().to_bytes().to_vec(),
        sig.to_bytes().to_vec(),
        data.to_vec(),
    )
}

fn envelope(seed: u8, data: &[u8]) -> Vec<u8> {
    let key = SigningKey::from_bytes(&[seed; 32]);
    let sig = key.sign(data);
    let mut out = key.verifying_key().to_bytes().to_vec();
    out.extend_from_slice(&sig.to_bytes());
    out.extend_from_slice(data);
    out
}

#[test]
fn parse_rejects_short_envelope() {
    assert!(TxCreateTimestamp::parse(&vec![0u8; 95]).is_none());
    assert!(TxCreateTimestamp::parse(&vec![]).is_none());
}

#[test]
fn parse_splits_the_envelope() {
    let body = envelope(1, b"some content");
    let tx = TxCreateTimestamp::parse(&body).unwrap();
    assert_eq!(tx.pub_key().as_slice(), &body[..32]);
    assert_eq!(tx.data().as_slice(), b"some content");
}

#[test]
fn encode_round_trips() {
    let body = envelope(2, b"payload bytes");
    let tx = TxCreateTimestamp::parse(&body).unwrap();
    assert_eq!(tx.encode(), body);
}

#[test]
fn verify_accepts_valid_signature() {
    assert!(signed_tx(3, b"document").verify());
}

#[test]
fn verify_rejects_tampered_content() {
    let key = SigningKey::from_bytes(&[4; 32]);
    let sig = key.sign(b"original");
    let tx = TxCreateTimestamp::new(
        key.verifying_key().to_bytes().to_vec(),
        sig.to_bytes().to_vec(),
        b"altered".to_vec(),
    );
    assert!(!tx.verify());
}

#[test]
fn verify_rejects_garbage_signature() {
    let key = SigningKey::from_bytes(&[5; 32]);
    let tx = TxCreateTimestamp::new(
        key.verifying_key().to_bytes().to_vec(),
        vec![0u8; 64],
        b"content".to_vec(),
    );
    assert!(!tx.verify());
}

#[test]
fn execute_records_oracle_time() {
    let mut state = StorageState::new();
    state.set_oracle_time(1000);
    let tx = signed_tx(6, b"timestamped file");
    tx.execute(&mut state);
    let key: Vec<u8> = Sha256::digest(b"timestamped file").to_vec();
    let rec = state.lookup(&key).unwrap();
    assert_eq!(rec.time(), 1000);
    assert_eq!(rec.file_hash(), &key);
    assert_eq!(
        rec.signer().as_ref().unwrap().as_slice(),
        tx.pub_key().as_slice()
    );
}

#[test]
fn execute_without_oracle_is_a_no_op() {
    let mut state = StorageState::new();
    let tx = signed_tx(7, b"too early");
    tx.execute(&mut state);
    assert_eq!(state.records().len(), 0);
    let key: Vec<u8> = Sha256::digest(b"too early").to_vec();
    assert!(state.lookup(&key).is_none());
}

#[test]
fn execute_twice_keeps_first_time() {
    let mut state = StorageState::new();
    state.set_oracle_time(1000);
    let tx = signed_tx(8, b"once only");
    tx.execute(&mut state);
    state.set_oracle_time(2000);
    tx.execute(&mut state);
    assert_eq!(state.records().len(), 1);
    let key: Vec<u8> = Sha256::digest(b"once only").to_vec();
    assert_eq!(state.lookup(&key).unwrap().time(), 1000);
}

#[test]
fn replicas_applying_the_same_log_agree() {
    let log = vec![
        PlatformEvent::AgreedTime(500),
        PlatformEvent::Create(signed_tx(9, b"first")),
        PlatformEvent::AgreedTime(900),
        PlatformEvent::Create(signed_tx(9, b"first")),
        PlatformEvent::Create(signed_tx(10, b"second")),
    ];
    let mut a = StorageState::new();
    let mut b = StorageState::new();
    for e in &log {
        apply_event(&mut a, e);
    }
    for e in &log {
        apply_event(&mut b, e);
    }
    assert_eq!(a.records().len(), 2);
    assert_eq!(b.records().len(), 2);
    for (x, y) in a.records().iter().zip(b.records().iter()) {
        assert_eq!(x.file_hash(), y.file_hash());
        assert_eq!(x.time(), y.time());
        assert_eq!(x.signer(), y.signer());
    }
    assert_eq!(a.records()[0].time(), 500);
    assert_eq!(a.records()[1].time(), 900);
}
