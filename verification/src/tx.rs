//! The create-timestamp transaction: the unit of deterministic mutation.
//!
//! A transaction carries the submitter's public key, an Ed25519 signature
//! over the submitted content, and the content bytes. `verify` is the
//! stateless acceptance check; `execute` is the total, deterministic apply:
//! an idempotent insert keyed by the content's SHA-256 digest, timestamped
//! with the oracle's agreed value read from the same fork — never a local
//! clock.

use vstd::prelude::*;

use crate::crypto::{ed25519_valid, ed25519_verify, sha256, sha256_of};
use crate::storage::{
    copy_bytes, lemma_lookup_has_key, lemma_table_put_absent, table_has_key, table_lookup,
    StateV, StorageState, Timestamp, TimestampSchema, TimestampV, KEY_LEN,
};

verus! {

/// Length in bytes of an Ed25519 signature.
pub const SIG_LEN: usize = 64;

/// Mathematical value of a create-timestamp transaction.
pub ghost struct TxV {
    /// Ed25519 public key of the submitter.
    pub pub_key: Seq<u8>,
    /// Ed25519 signature by `pub_key` over `data`.
    pub signature: Seq<u8>,
    /// The content whose existence is being timestamped.
    pub data: Seq<u8>,
}

impl TxV {
    /// Shape of an accepted transaction: key and signature have their
    /// fixed lengths.
    pub open spec fn wf(self) -> bool {
        self.pub_key.len() == KEY_LEN && self.signature.len() == SIG_LEN
    }

    /// Content key under which the transaction deduplicates: the digest of
    /// the submitted content.
    pub open spec fn content_key(self) -> Seq<u8> {
        sha256_of(self.data)
    }

    /// Canonical byte encoding: public key, signature, then the content.
    pub open spec fn enc(self) -> Seq<u8> {
        self.pub_key + self.signature + self.data
    }

    /// Whether the signature check accepts the transaction.
    pub open spec fn verified(self) -> bool {
        ed25519_valid(self.pub_key, self.data, self.signature)
    }
}

/// Transaction fields denoted by an envelope of at least key-plus-signature
/// length.
pub open spec fn tx_parsed(bytes: Seq<u8>) -> TxV {
    TxV {
        pub_key: bytes.take(KEY_LEN as int),
        signature: bytes.subrange(KEY_LEN as int, KEY_LEN as int + SIG_LEN as int),
        data: bytes.skip(KEY_LEN as int + SIG_LEN as int),
    }
}

/// A signed request to timestamp one piece of content.
pub struct TxCreateTimestamp {
    pub_key: Vec<u8>,
    signature: Vec<u8>,
    data: Vec<u8>,
}

impl View for TxCreateTimestamp {
    type V = TxV;

    closed spec fn view(&self) -> TxV {
        TxV { pub_key: self.pub_key@, signature: self.signature@, data: self.data@ }
    }
}

/// An owned copy of a contiguous range of a byte vector.
fn copy_range(v: &Vec<u8>, from: usize, to: usize) -> (r: Vec<u8>)
    requires
        from <= to <= v@.len(),
    ensures
        r@ == v@.subrange(from as int, to as int),
{
    let mut out: Vec<u8> = Vec::new();
    let mut i: usize = from;
    while i < to
        invariant
            from <= i <= to <= v@.len(),
            out@ == v@.subrange(from as int, i as int),
        decreases to - i,
    {
        out.push(v[i]);
        proof {
            assert(out@ =~= v@.subrange(from as int, i + 1));
        }
        i += 1;
    }
    out
}

/// Appends all bytes of `v` to `out`.
fn append_bytes(out: &mut Vec<u8>, v: &Vec<u8>)
    ensures
        final(out)@ == old(out)@ + v@,
{
    let mut i: usize = 0;
    proof {
        assert(out@ =~= out@ + v@.take(0));
    }
    while i < v.len()
        invariant
            i <= v@.len(),
            out@ == old(out)@ + v@.take(i as int),
        decreases v@.len() - i,
    {
        out.push(v[i]);
        proof {
            assert(out@ =~= old(out)@ + v@.take(i + 1));
        }
        i += 1;
    }
    proof {
        assert(old(out)@ + v@.take(v@.len() as int) =~= old(out)@ + v@);
    }
}

impl TxCreateTimestamp {
    /// Builds a transaction from its parts.
    pub fn new(pub_key: Vec<u8>, signature: Vec<u8>, data: Vec<u8>) -> (r: Self)
        requires
            pub_key@.len() == KEY_LEN,
            signature@.len() == SIG_LEN,
        ensures
            r@ == (TxV { pub_key: pub_key@, signature: signature@, data: data@ }),
            r@.wf(),
    {
        TxCreateTimestamp { pub_key, signature, data }
    }

    /// The submitted content.
    pub fn data(&self) -> (r: &Vec<u8>)
        ensures
            r@ == self@.data,
    {
        &self.data
    }

    /// The submitter's public key.
    pub fn pub_key(&self) -> (r: &Vec<u8>)
        ensures
            r@ == self@.pub_key,
    {
        &self.pub_key
    }

    /// Parses the canonical envelope: 32 bytes of public key, 64 bytes of
    /// signature, then the content. Fails exactly on envelopes shorter than
    /// the two fixed-length fields.
    pub fn parse(bytes: &Vec<u8>) -> (r: Option<Self>)
        ensures
            r is Some <==> bytes@.len() >= KEY_LEN + SIG_LEN,
            r matches Some(tx) ==> tx@ == tx_parsed(bytes@) && tx@.wf(),
    {
        if bytes.len() < KEY_LEN + SIG_LEN {
            return None;
        }
        let pub_key = copy_range(bytes, 0, KEY_LEN);
        let signature = copy_range(bytes, KEY_LEN, KEY_LEN + SIG_LEN);
        let data = copy_range(bytes, KEY_LEN + SIG_LEN, bytes.len());
        proof {
            assert(bytes@.subrange(0, KEY_LEN as int) =~= bytes@.take(KEY_LEN as int));
            assert(bytes@.subrange(KEY_LEN as int + SIG_LEN as int, bytes@.len() as int) =~= bytes@.skip(
                KEY_LEN as int + SIG_LEN as int,
            ));
        }
        Some(TxCreateTimestamp { pub_key, signature, data })
    }

    /// The canonical byte encoding of this transaction; the transaction
    /// hash in submission acknowledgements is the digest of these bytes.
    pub fn encode(&self) -> (r: Vec<u8>)
        ensures
            r@ == self@.enc(),
    {
        let mut out = copy_bytes(&self.pub_key);
        append_bytes(&mut out, &self.signature);
        append_bytes(&mut out, &self.data);
        out
    }

    /// Stateless acceptance check: the signature must be valid for the
    /// declared identity over the submitted content. A transaction that
    /// fails this check never reaches `execute`.
    pub fn verify(&self) -> (r: bool)
        requires
            self@.wf(),
        ensures
            r == self@.verified(),
    {
        ed25519_verify(&self.pub_key, &self.data, &self.signature)
    }

    /// Deterministic apply against one fork: reads the oracle's agreed time
    /// from the same view and, if the content key is not yet recorded,
    /// inserts the record; otherwise, or while the oracle has produced no
    /// time yet, leaves the state unchanged. Total: never fails, never
    /// consults anything outside the fork.
    pub fn execute(&self, fork: &mut StorageState)
        requires
            old(fork)@.wf(),
            self@.wf(),
        ensures
            final(fork)@ == apply_tx_spec(old(fork)@, self@),
            final(fork)@.wf(),
    {
        proof {
            lemma_apply_tx_wf(old(fork)@, self@);
        }
        let key = sha256(&self.data);
        match fork.oracle_time() {
            None => {},
            Some(t) => {
                proof {
                    lemma_lookup_has_key(fork@.table, key@);
                }
                match fork.lookup(&key) {
                    Some(_) => {},
                    None => {
                        let ghost prev = fork@.table;
                        let rec = Timestamp::new(key, t, Some(copy_bytes(&self.pub_key)));
                        TimestampSchema::put(fork, rec);
                        proof {
                            lemma_table_put_absent(prev, rec@);
                        }
                    },
                }
            },
        }
    }
}

/// Post-state of one create-timestamp transaction: an idempotent,
/// first-writer-wins insert of the content key, timestamped with the
/// oracle's agreed time; a no-op while the oracle has produced none.
pub open spec fn apply_tx_spec(s: StateV, tx: TxV) -> StateV {
    let key = tx.content_key();
    match s.time {
        None => s,
        Some(t) => {
            if table_has_key(s.table, key) {
                s
            } else {
                StateV {
                    table: s.table.push(
                        TimestampV { file_hash: key, time: t, signer: Some(tx.pub_key) },
                    ),
                    time: s.time,
                }
            }
        },
    }
}

/// Mathematical value of one entry of the globally ordered stream this
/// service observes: either the platform's time-oracle service recording a
/// newly agreed time, or a create-timestamp transaction.
pub ghost enum EventV {
    AgreedTime(u64),
    Create(TxV),
}

impl EventV {
    /// Shape of an accepted log entry.
    pub open spec fn wf(self) -> bool {
        match self {
            EventV::AgreedTime(_) => true,
            EventV::Create(tx) => tx.wf(),
        }
    }
}

/// One entry of the globally ordered stream, as delivered by the consensus
/// engine to every replica.
pub enum PlatformEvent {
    AgreedTime(u64),
    Create(TxCreateTimestamp),
}

impl View for PlatformEvent {
    type V = EventV;

    open spec fn view(&self) -> EventV {
        match self {
            PlatformEvent::AgreedTime(t) => EventV::AgreedTime(*t),
            PlatformEvent::Create(tx) => EventV::Create(tx@),
        }
    }
}

/// Post-state of one log entry.
pub open spec fn apply_event_spec(s: StateV, e: EventV) -> StateV {
    match e {
        EventV::AgreedTime(t) => StateV { table: s.table, time: Some(t) },
        EventV::Create(tx) => apply_tx_spec(s, tx),
    }
}

/// Post-state of an ordered log of entries, applied first to last.
pub open spec fn apply_log_spec(s: StateV, log: Seq<EventV>) -> StateV
    decreases log.len(),
{
    if log.len() == 0 {
        s
    } else {
        apply_log_spec(apply_event_spec(s, log[0]), log.drop_first())
    }
}

/// Applies one entry of the ordered stream to a fork, exactly as every
/// other replica does.
pub fn apply_event(fork: &mut StorageState, e: &PlatformEvent)
    requires
        old(fork)@.wf(),
        e@.wf(),
    ensures
        final(fork)@ == apply_event_spec(old(fork)@, e@),
        final(fork)@.wf(),
{
    match e {
        PlatformEvent::AgreedTime(t) => {
            fork.set_oracle_time(*t);
        },
        PlatformEvent::Create(tx) => {
            tx.execute(fork);
        },
    }
}

/// Encoding then parsing gives the transaction back: the canonical
/// envelope of a well-formed transaction is long enough and denotes
/// exactly that transaction.
pub proof fn lemma_envelope_round_trip(tx: TxV)
    requires
        tx.wf(),
    ensures
        tx.enc().len() == KEY_LEN + SIG_LEN + tx.data.len(),
        tx_parsed(tx.enc()) == tx,
{
    let e = tx.enc();
    assert(e.take(KEY_LEN as int) =~= tx.pub_key);
    assert(e.subrange(KEY_LEN as int, KEY_LEN as int + SIG_LEN as int) =~= tx.signature);
    assert(e.skip(KEY_LEN as int + SIG_LEN as int) =~= tx.data);
}

/// Applying a transaction preserves the state invariant.
pub proof fn lemma_apply_tx_wf(s: StateV, tx: TxV)
    requires
        s.wf(),
        tx.wf(),
    ensures
        apply_tx_spec(s, tx).wf(),
{
    let key = tx.content_key();
    if s.time is Some && !table_has_key(s.table, key) {
        let rec = TimestampV { file_hash: key, time: s.time.unwrap(), signer: Some(tx.pub_key) };
        let t2 = s.table.push(rec);
        assert(rec.wf()) by {
            assert(key == sha256_of(tx.data));
        }
        assert forall|i: int, j: int|
            0 <= i < j < t2.len() implies t2[i].file_hash != t2[j].file_hash by {
            if j == t2.len() - 1 {
                assert(!(0 <= i < s.table.len() && s.table[i].file_hash == key));
            }
        }
    }
}

} // verus!
