use ed25519_dalek::{Signer, SigningKey};
use timestamping::service::{EncodingError, RawTransaction, TimestampService};
use timestamping::storage::StorageState;

fn envelope(seed: u8, data: &[u8]) -> Vec<u8> {
    let key = SigningKey::from_bytes(&[seed; 32]);
    let sig = key.sign(data);
    let mut out = key.verifying_key().to_bytes().to_vec();
    out.extend_from_slice(&sig.to_bytes());
    out.extend_from_slice(data);
    out
}

#[test]
fn service_identifiers() {
    let svc = TimestampService;
    assert_eq!(svc.service_id(), 1);
    assert_eq!(svc.service_name(), "timestamp_service");
}

#[test]
fn state_hash_is_empty() {
    let svc = TimestampService;
    let state = StorageState::new();
    assert!(svc.state_hash(&state).is_empty());
}

#[test]
fn tx_from_raw_dispatches_the_known_type() {
    let svc = TimestampService;
    let raw = RawTransaction { message_type: 1, payload: envelope(1, b"dispatched") };
    let tx = svc.tx_from_raw(&raw).unwrap();
    assert_eq!(tx.data().as_slice(), b"dispatched");
}

#[test]
fn tx_from_raw_refuses_unknown_types() {
    let svc = TimestampService;
    let raw = RawTransaction { message_type: 2, payload: envelope(1, b"dispatched") };
    match svc.tx_from_raw(&raw) {
        Err(EncodingError::IncorrectMessageType { message_type }) => {
            assert_eq!(message_type, 2);
        }
        _ => panic!("unknown message type was not refused"),
    }
}

#[test]
fn tx_from_raw_refuses_short_payloads() {
    let svc = TimestampService;
    let raw = RawTransaction { message_type: 1, payload: vec![0u8; 20] };
    assert!(matches!(
        svc.tx_from_raw(&raw),
        Err(EncodingError::MalformedPayload)
    ));
}
