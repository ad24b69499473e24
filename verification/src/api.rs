//! Query and submission semantics of the service's public interface.
//!
//! Three operations: a point query against a snapshot, a list query
//! against a snapshot, and the submission of a signed transaction into the
//! platform's broadcast channel. Handlers compute responses from the
//! snapshot and the request alone; the transport that carries them is
//! outside this module. A submission acknowledgement means accepted for
//! broadcast, never that the transaction was executed.

use vstd::prelude::*;

use crate::crypto::{sha256, sha256_of};
use crate::hexcode::{
    decode_hex, encode_hex, hex_char_of, hex_char_str, hex_decoded, hex_of, is_hex_str,
};
use crate::storage::{
    table_lookup, StateV, StorageState, Timestamp, TimestampSchema, TimestampV, KEY_LEN,
};
use crate::tx::{tx_parsed, TxCreateTimestamp, SIG_LEN};

verus! {

/// Decimal rendering of an unsigned value, most significant digit first,
/// without leading zeros; digit characters below ten coincide with the
/// hex digit characters.
pub open spec fn dec_str(n: u64) -> Seq<char>
    decreases n,
{
    if n < 10 {
        seq![hex_char_of((n % 10) as u8)]
    } else {
        dec_str((n / 10) as u64) + seq![hex_char_of((n % 10) as u8)]
    }
}

/// Appends the decimal rendering of `n`.
fn push_dec(out: &mut String, n: u64)
    ensures
        final(out)@ == old(out)@ + dec_str(n),
    decreases n,
{
    if n >= 10 {
        push_dec(out, n / 10);
    }
    out.append(hex_char_str((n % 10) as u8));
    proof {
        if n >= 10 {
            assert(out@ =~= old(out)@ + dec_str(n));
        }
    }
}

/// JSON rendering of the signer field: the key in hex, or null.
pub open spec fn json_of_signer(s: Option<Seq<u8>>) -> Seq<char> {
    match s {
        Some(k) => "\""@ + hex_of(k) + "\""@,
        None => "null"@,
    }
}

/// JSON rendering of one record: the content hash in hex, the agreed
/// time, and the signer.
pub open spec fn json_of_record(t: TimestampV) -> Seq<char> {
    "{\"file_hash\":\""@ + hex_of(t.file_hash) + "\",\"time\":"@ + dec_str(t.time)
        + ",\"signer\":"@ + json_of_signer(t.signer) + "}"@
}

/// JSON rendering of the records between the brackets of the table
/// rendering, comma-separated, in table order.
pub open spec fn json_items(table: Seq<TimestampV>) -> Seq<char>
    decreases table.len(),
{
    if table.len() == 0 {
        Seq::empty()
    } else if table.len() == 1 {
        json_of_record(table[0])
    } else {
        json_items(table.drop_last()) + ","@ + json_of_record(table.last())
    }
}

/// JSON rendering of the whole table, in table order.
pub open spec fn json_of_table(table: Seq<TimestampV>) -> Seq<char> {
    "["@ + json_items(table) + "]"@
}

/// JSON rendering of a submission acknowledgement.
pub open spec fn json_tx_hash(h: Seq<u8>) -> Seq<char> {
    "{\"tx_hash\":\""@ + hex_of(h) + "\"}"@
}

/// Renders one record as its JSON object.
pub fn render_record(t: &Timestamp) -> (r: String)
    ensures
        r@ == json_of_record(t@),
{
    let mut out = String::new();
    out.append("{\"file_hash\":\"");
    let hx = encode_hex(t.file_hash());
    out.append(hx.as_str());
    out.append("\",\"time\":");
    push_dec(&mut out, t.time());
    out.append(",\"signer\":");
    match t.signer() {
        Some(s) => {
            out.append("\"");
            let sx = encode_hex(s);
            out.append(sx.as_str());
            out.append("\"");
        },
        None => {
            out.append("null");
        },
    }
    out.append("}");
    proof {
        assert(out@ =~= json_of_record(t@));
    }
    out
}

/// Renders the table as its JSON array, in table order.
pub fn render_table(records: &Vec<Timestamp>) -> (r: String)
    ensures
        r@ == json_of_table(records@.map_values(|t: Timestamp| t@)),
{
    let ghost tv = records@.map_values(|t: Timestamp| t@);
    let mut out = String::new();
    out.append("[");
    let mut i: usize = 0;
    while i < records.len()
        invariant
            tv == records@.map_values(|t: Timestamp| t@),
            i <= records@.len(),
            out@ == "["@ + json_items(tv.take(i as int)),
        decreases records@.len() - i,
    {
        if i > 0 {
            out.append(",");
        }
        let piece = render_record(&records[i]);
        out.append(piece.as_str());
        proof {
            let t1 = tv.take(i + 1);
            assert(t1.drop_last() =~= tv.take(i as int));
            assert(t1.last() == tv[i as int]);
            assert(out@ =~= "["@ + json_items(tv.take(i + 1)));
        }
        i += 1;
    }
    out.append("]");
    proof {
        assert(tv.take(tv.len() as int) =~= tv);
        assert(out@ =~= json_of_table(tv));
    }
    out
}

/// An API answer: the status code and the JSON body of the response.
pub struct ApiResponse {
    pub status: u16,
    pub body: String,
}

/// Expected answer of the point query: a client error for a parameter
/// that is not the hex encoding of a key-length value, the record as JSON
/// when one is stored, and not-found otherwise.
pub open spec fn get_timestamp_spec(s: StateV, key_hex: Seq<char>) -> (u16, Seq<char>) {
    if !(key_hex.len() == 2 * KEY_LEN && is_hex_str(key_hex)) {
        (400u16, "\"Invalid hex key\""@)
    } else {
        match table_lookup(s.table, hex_decoded(key_hex)) {
            Some(t) => (200u16, json_of_record(t)),
            None => (404u16, "\"Timestamp not found\""@),
        }
    }
}

/// Point query: decodes the hex key parameter and looks the record up in
/// a fresh snapshot. Absence is a valid empty result, surfaced as 404;
/// a malformed parameter is a client error, never a server error.
pub fn get_timestamp(snapshot: &StorageState, key_hex: &str) -> (r: ApiResponse)
    ensures
        r.status == get_timestamp_spec(snapshot@, key_hex@).0,
        r.body@ == get_timestamp_spec(snapshot@, key_hex@).1,
{
    let key = match decode_hex(key_hex) {
        Some(k) => k,
        None => {
            let mut body = String::new();
            body.append("\"Invalid hex key\"");
            return ApiResponse { status: 400, body };
        },
    };
    if key.len() != KEY_LEN {
        let mut body = String::new();
        body.append("\"Invalid hex key\"");
        return ApiResponse { status: 400, body };
    }
    let schema = TimestampSchema::new(snapshot);
    match schema.timestamp(&key) {
        Some(t) => ApiResponse { status: 200, body: render_record(&t) },
        None => {
            let mut body = String::new();
            body.append("\"Timestamp not found\"");
            ApiResponse { status: 404, body }
        },
    }
}

/// List query: streams the whole table of a fresh snapshot as a JSON
/// array; always succeeds, possibly with an empty array.
pub fn get_all_timestamps(snapshot: &StorageState) -> (r: ApiResponse)
    ensures
        r.status == 200,
        r.body@ == json_of_table(snapshot@.table),
{
    let schema = TimestampSchema::new(snapshot);
    let records = schema.timestamps();
    ApiResponse { status: 200, body: render_table(records) }
}

/// Outcome of a submission request.
pub enum SubmitOutcome {
    /// Accepted for broadcast: the decoded transaction is to be handed to
    /// the submission channel, and the acknowledgement carries the
    /// transaction hash. Not a confirmation of execution.
    Accepted { tx: TxCreateTimestamp, response: ApiResponse },
    /// Rejected at the boundary; nothing reaches the channel.
    Rejected { response: ApiResponse },
}

/// Submission: decodes the envelope and runs the stateless acceptance
/// check. An empty body, a body shorter than the fixed-length fields, and
/// a failed signature check are client errors; otherwise the transaction
/// is accepted for broadcast and acknowledged with the digest of its
/// canonical encoding.
pub fn post_transaction(body: &Vec<u8>) -> (r: SubmitOutcome)
    ensures
        match r {
            SubmitOutcome::Accepted { tx, response } => {
                &&& body@.len() >= KEY_LEN + SIG_LEN
                &&& tx@ == tx_parsed(body@)
                &&& tx@.wf()
                &&& tx@.verified()
                &&& response.status == 200
                &&& response.body@ == json_tx_hash(sha256_of(body@))
            },
            SubmitOutcome::Rejected { response } => {
                &&& response.status == 400
                &&& body@.len() == 0 ==> response.body@ == "\"Empty request body\""@
                &&& (0 < body@.len() < KEY_LEN + SIG_LEN) ==> response.body@
                    == "\"Malformed request body\""@
                &&& body@.len() >= KEY_LEN + SIG_LEN ==> !tx_parsed(body@).verified()
                    && response.body@ == "\"Verification failed\""@
            },
        },
{
    if body.len() == 0 {
        let mut b = String::new();
        b.append("\"Empty request body\"");
        return SubmitOutcome::Rejected { response: ApiResponse { status: 400, body: b } };
    }
    let tx = match TxCreateTimestamp::parse(body) {
        Some(tx) => tx,
        None => {
            let mut b = String::new();
            b.append("\"Malformed request body\"");
            return SubmitOutcome::Rejected { response: ApiResponse { status: 400, body: b } };
        },
    };
    if !tx.verify() {
        let mut b = String::new();
        b.append("\"Verification failed\"");
        return SubmitOutcome::Rejected { response: ApiResponse { status: 400, body: b } };
    }
    let digest = sha256(body);
    let mut b = String::new();
    b.append("{\"tx_hash\":\"");
    let hx = encode_hex(&digest);
    b.append(hx.as_str());
    b.append("\"}");
    proof {
        assert(b@ =~= json_tx_hash(sha256_of(body@)));
    }
    SubmitOutcome::Accepted { tx, response: ApiResponse { status: 200, body: b } }
}

/// Server-error answer for a submission whose channel send failed after
/// acceptance.
pub fn channel_error_response() -> (r: ApiResponse)
    ensures
        r.status == 500,
        r.body@ == "\"Submission channel unavailable\""@,
{
    let mut body = String::new();
    body.append("\"Submission channel unavailable\"");
    ApiResponse { status: 500, body }
}

} // verus!
