use ed25519_dalek::{Signer, SigningKey};
use sha2::{Digest, Sha256};
use timestamping::api::{
    channel_error_response, get_all_timestamps, get_timestamp, post_transaction, SubmitOutcome,
};
use timestamping::storage::{StorageState, Timestamp, TimestampSchema};
use timestamping::tx::TxCreateTimestamp;

fn envelope(seed: u8, data: &[u8]) -> Vec<u8> {
    let key = SigningKey::from_bytes(&[seed; 32]);
    let sig = key.sign(data);
    let mut out = key.verifying_key().to_bytes().to_vec();
    out.extend_from_slice(&sig.to_bytes());
    out.extend_from_slice(data);
    out
}

fn record_json(file_hash_hex: &str, time: u64, signer_hex: &str) -> String {
    format!(
        "{{\"file_hash\":\"{}\",\"time\":{},\"signer\":\"{}\"}}",
        file_hash_hex, time, signer_hex
    )
}

#[test]
fn scenario_submit_then_get() {
    // Oracle agrees on 1000; a transaction for one content hash executes;
    // the point query returns that hash bound to time 1000.
    let mut state = StorageState::new();
    state.set_oracle_time(1000);
    let body = envelope(1, b"the timestamped file");
    let tx = match post_transaction(&body) {
        SubmitOutcome::Accepted { tx, response } => {
            assert_eq!(response.status, 200);
            tx
        }
        SubmitOutcome::Rejected { .. } => panic!("valid submission rejected"),
    };
    tx.execute(&mut state);

    let h = hex::encode(Sha256::digest(b"the timestamped file"));
    let pk = hex::encode(SigningKey::from_bytes(&[1; 32]).verifying_key().to_bytes());
    let r = get_timestamp(&state, &h);
    assert_eq!(r.status, 200);
    assert_eq!(r.body, record_json(&h, 1000, &pk));
}

#[test]
fn scenario_resubmission_keeps_first_time() {
    // The same submission a second time, after the oracle moved to 2000,
    // leaves the stored record at 1000: no overwrite.
    let mut state = StorageState::new();
    state.set_oracle_time(1000);
    let body = envelope(1, b"the timestamped file");
    let tx = TxCreateTimestamp::parse(&body).unwrap();
    tx.execute(&mut state);
    state.set_oracle_time(2000);
    let tx_again = TxCreateTimestamp::parse(&body).unwrap();
    tx_again.execute(&mut state);

    let h = hex::encode(Sha256::digest(b"the timestamped file"));
    let r = get_timestamp(&state, &h);
    assert_eq!(r.status, 200);
    assert!(r.body.contains("\"time\":1000"));
    assert_eq!(get_all_timestamps(&state).body.matches("file_hash").count(), 1);
}

#[test]
fn scenario_list_empty() {
    let state = StorageState::new();
    let r = get_all_timestamps(&state);
    assert_eq!(r.status, 200);
    assert_eq!(r.body, "[]");
}

#[test]
fn scenario_empty_body() {
    match post_transaction(&vec![]) {
        SubmitOutcome::Rejected { response } => {
            assert_eq!(response.status, 400);
            assert_eq!(response.body, "\"Empty request body\"");
        }
        SubmitOutcome::Accepted { .. } => panic!("empty body accepted"),
    }
}

#[test]
fn scenario_invalid_hex_key() {
    let state = StorageState::new();
    let r = get_timestamp(&state, "zz");
    assert_eq!(r.status, 400);
}

#[test]
fn get_absent_key_is_not_found() {
    let state = StorageState::new();
    let h = hex::encode(Sha256::digest(b"never submitted"));
    let r = get_timestamp(&state, &h);
    assert_eq!(r.status, 404);
    assert_eq!(r.body, "\"Timestamp not found\"");
}

#[test]
fn get_wrong_length_hex_is_client_error() {
    let state = StorageState::new();
    // Valid hex, but not a key-length encoding.
    let r = get_timestamp(&state, "abcd");
    assert_eq!(r.status, 400);
}

#[test]
fn submission_acknowledges_with_tx_hash() {
    let body = envelope(2, b"acknowledged content");
    match post_transaction(&body) {
        SubmitOutcome::Accepted { response, .. } => {
            assert_eq!(response.status, 200);
            let expected = format!("{{\"tx_hash\":\"{}\"}}", hex::encode(Sha256::digest(&body)));
            assert_eq!(response.body, expected);
        }
        SubmitOutcome::Rejected { .. } => panic!("valid submission rejected"),
    }
}

#[test]
fn submission_rejects_short_body() {
    match post_transaction(&vec![7u8; 40]) {
        SubmitOutcome::Rejected { response } => {
            assert_eq!(response.status, 400);
            assert_eq!(response.body, "\"Malformed request body\"");
        }
        SubmitOutcome::Accepted { .. } => panic!("short body accepted"),
    }
}

#[test]
fn submission_rejects_bad_signature() {
    let mut body = envelope(3, b"signed content");
    let last = body.len() - 1;
    body[last] ^= 0xff;
    match post_transaction(&body) {
        SubmitOutcome::Rejected { response } => {
            assert_eq!(response.status, 400);
            assert_eq!(response.body, "\"Verification failed\"");
        }
        SubmitOutcome::Accepted { .. } => panic!("tampered submission accepted"),
    }
}

#[test]
fn channel_failure_is_a_server_error() {
    let r = channel_error_response();
    assert_eq!(r.status, 500);
    assert_eq!(r.body, "\"Submission channel unavailable\"");
}

#[test]
fn list_renders_records_in_table_order() {
    let mut state = StorageState::new();
    state.set_oracle_time(1000);
    let body_a = envelope(1, b"first file");
    TxCreateTimestamp::parse(&body_a).unwrap().execute(&mut state);
    state.set_oracle_time(2500);
    let body_b = envelope(4, b"second file");
    TxCreateTimestamp::parse(&body_b).unwrap().execute(&mut state);

    let h_a = hex::encode(Sha256::digest(b"first file"));
    let pk_a = hex::encode(SigningKey::from_bytes(&[1; 32]).verifying_key().to_bytes());
    let h_b = hex::encode(Sha256::digest(b"second file"));
    let pk_b = hex::encode(SigningKey::from_bytes(&[4; 32]).verifying_key().to_bytes());
    let expected = format!(
        "[{},{}]",
        record_json(&h_a, 1000, &pk_a),
        record_json(&h_b, 2500, &pk_b)
    );
    let r = get_all_timestamps(&state);
    assert_eq!(r.status, 200);
    assert_eq!(r.body, expected);
}

#[test]
fn largest_time_renders_in_full() {
    let mut state = StorageState::new();
    state.set_oracle_time(u64::MAX);
    let body = envelope(6, b"very late");
    TxCreateTimestamp::parse(&body).unwrap().execute(&mut state);
    let h = hex::encode(Sha256::digest(b"very late"));
    let r = get_timestamp(&state, &h);
    assert_eq!(r.status, 200);
    assert!(r.body.contains("\"time\":18446744073709551615"));
}

#[test]
fn record_without_signer_renders_null() {
    let mut state = StorageState::new();
    let key = vec![0xabu8; 32];
    TimestampSchema::put(&mut state, Timestamp::new(key.clone(), 7, None));
    let r = get_timestamp(&state, &hex::encode(&key));
    assert_eq!(r.status, 200);
    assert_eq!(r.body, format!("{{\"file_hash\":\"{}\",\"time\":7,\"signer\":null}}", hex::encode(&key)));
}

#[test]
fn responses_are_valid_json() {
    let mut state = StorageState::new();
    state.set_oracle_time(123456789);
    let body = envelope(5, b"json checked");
    TxCreateTimestamp::parse(&body).unwrap().execute(&mut state);

    let h = hex::encode(Sha256::digest(b"json checked"));
    let point = get_timestamp(&state, &h);
    let v: serde_json::Value = serde_json::from_str(&point.body).unwrap();
    assert_eq!(v["file_hash"].as_str().unwrap(), h);
    assert_eq!(v["time"].as_u64().unwrap(), 123456789);
    assert_eq!(
        v["signer"].as_str().unwrap(),
        hex::encode(SigningKey::from_bytes(&[5; 32]).verifying_key().to_bytes())
    );

    let list = get_all_timestamps(&state);
    let l: serde_json::Value = serde_json::from_str(&list.body).unwrap();
    assert_eq!(l.as_array().unwrap().len(), 1);
}
