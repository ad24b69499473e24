//! Versioned key-value view of the replicated state.
//!
//! The storage engine that owns durability and versioning is an external
//! collaborator; this module models exactly what the service reads and
//! writes through it: the `timestamps` table (content key to record, in
//! insertion order) and the time oracle's agreed value. A shared reference
//! to [`StorageState`] plays the role of a consistent read-only snapshot, a
//! mutable reference the role of the fork scoped to one transaction.

use vstd::prelude::*;

use crate::crypto::sha256_of;

verus! {

/// Length in bytes of a content key (a SHA-256 digest) and of a signer key.
pub const KEY_LEN: usize = 32;

/// Mathematical value of one timestamp record.
pub ghost struct TimestampV {
    /// Content key and hash of the timestamped content.
    pub file_hash: Seq<u8>,
    /// Consensus-agreed time, in milliseconds, at first execution.
    pub time: u64,
    /// Identity that submitted the record, kept for audit only.
    pub signer: Option<Seq<u8>>,
}

impl TimestampV {
    /// A record is well formed when it is content-addressed — its key is
    /// the SHA-256 digest of some content — and its signer, if recorded,
    /// has key length.
    pub open spec fn wf(self) -> bool {
        &&& exists|d: Seq<u8>| self.file_hash == sha256_of(d)
        &&& match self.signer {
            Some(s) => s.len() == KEY_LEN,
            None => true,
        }
    }
}

/// One proof-of-existence record: a content hash bound to a single
/// consensus-agreed time, plus the submitting identity for audit.
pub struct Timestamp {
    file_hash: Vec<u8>,
    time: u64,
    signer: Option<Vec<u8>>,
}

impl View for Timestamp {
    type V = TimestampV;

    closed spec fn view(&self) -> TimestampV {
        TimestampV {
            file_hash: self.file_hash@,
            time: self.time,
            signer: match self.signer {
                Some(s) => Some(s@),
                None => None,
            },
        }
    }
}

impl Timestamp {
    /// Builds a record from its parts.
    pub fn new(file_hash: Vec<u8>, time: u64, signer: Option<Vec<u8>>) -> (r: Self)
        ensures
            r@ == (TimestampV {
                file_hash: file_hash@,
                time,
                signer: match signer {
                    Some(s) => Some(s@),
                    None => None,
                },
            }),
    {
        Timestamp { file_hash, time, signer }
    }

    /// Content key and hash of the timestamped content.
    pub fn file_hash(&self) -> (r: &Vec<u8>)
        ensures
            r@ == self@.file_hash,
    {
        &self.file_hash
    }

    /// Consensus-agreed time of the first successful execution.
    pub fn time(&self) -> (r: u64)
        ensures
            r == self@.time,
    {
        self.time
    }

    /// Submitting identity, if one was recorded.
    pub fn signer(&self) -> (r: &Option<Vec<u8>>)
        ensures
            match r {
                Some(s) => self@.signer == Some(s@),
                None => self@.signer is None,
            },
    {
        &self.signer
    }

    /// An owned copy of this record, equal to it in every field.
    pub fn duplicate(&self) -> (r: Self)
        ensures
            r@ == self@,
    {
        Timestamp {
            file_hash: copy_bytes(&self.file_hash),
            time: self.time,
            signer: match &self.signer {
                Some(s) => Some(copy_bytes(s)),
                None => None,
            },
        }
    }
}

/// An owned copy of a byte vector.
pub fn copy_bytes(v: &Vec<u8>) -> (r: Vec<u8>)
    ensures
        r@ == v@,
{
    let mut out: Vec<u8> = Vec::new();
    let mut i: usize = 0;
    while i < v.len()
        invariant
            i <= v@.len(),
            out@ == v@.take(i as int),
        decreases v@.len() - i,
    {
        out.push(v[i]);
        proof {
            assert(out@ =~= v@.take(i + 1));
        }
        i += 1;
    }
    proof {
        assert(v@.take(v@.len() as int) =~= v@);
    }
    out
}

/// Whether some record in the table carries this content key.
pub open spec fn table_has_key(table: Seq<TimestampV>, key: Seq<u8>) -> bool {
    exists|i: int| 0 <= i < table.len() && table[i].file_hash == key
}

/// First record in the table carrying this content key, if any. Under the
/// state invariant keys are unique, so this is the only such record.
pub open spec fn table_lookup(table: Seq<TimestampV>, key: Seq<u8>) -> Option<TimestampV>
    decreases table.len(),
{
    if table.len() == 0 {
        None
    } else if table[0].file_hash == key {
        Some(table[0])
    } else {
        table_lookup(table.drop_first(), key)
    }
}

/// The lookup finds a record exactly when the table has the key.
pub proof fn lemma_lookup_has_key(table: Seq<TimestampV>, key: Seq<u8>)
    ensures
        table_lookup(table, key) is Some <==> table_has_key(table, key),
        table_lookup(table, key) matches Some(t) ==> exists|i: int|
            0 <= i < table.len() && table[i] == t && t.file_hash == key,
    decreases table.len(),
{
    if table.len() > 0 && table[0].file_hash != key {
        lemma_lookup_has_key(table.drop_first(), key);
        if table_has_key(table.drop_first(), key) {
            let i = choose|i: int|
                0 <= i < table.drop_first().len() && table.drop_first()[i].file_hash == key;
            assert(table[i + 1].file_hash == key);
        }
        if table_has_key(table, key) {
            let i = choose|i: int| 0 <= i < table.len() && table[i].file_hash == key;
            assert(table.drop_first()[i - 1].file_hash == key);
        }
        if table_lookup(table.drop_first(), key) is Some {
            let t = table_lookup(table.drop_first(), key).unwrap();
            let i = choose|i: int|
                0 <= i < table.drop_first().len() && table.drop_first()[i] == t
                    && t.file_hash == key;
            assert(table[i + 1] == t);
        }
    }
}

/// The table after a put: the first record under the new record's key is
/// replaced where one exists, and the record is appended where none does.
/// The put itself performs no policy: whether overwriting is allowed is
/// the caller's decision.
pub open spec fn table_put(table: Seq<TimestampV>, rec: TimestampV) -> Seq<TimestampV>
    decreases table.len(),
{
    if table.len() == 0 {
        seq![rec]
    } else if table[0].file_hash == rec.file_hash {
        seq![rec] + table.drop_first()
    } else {
        seq![table[0]] + table_put(table.drop_first(), rec)
    }
}

/// A put on an absent key appends the record.
pub proof fn lemma_table_put_absent(t: Seq<TimestampV>, r: TimestampV)
    requires
        !table_has_key(t, r.file_hash),
    ensures
        table_put(t, r) == t.push(r),
    decreases t.len(),
{
    if t.len() == 0 {
        assert(table_put(t, r) =~= t.push(r));
    } else {
        assert(t[0].file_hash != r.file_hash);
        if table_has_key(t.drop_first(), r.file_hash) {
            let i = choose|i: int|
                0 <= i < t.drop_first().len() && t.drop_first()[i].file_hash == r.file_hash;
            assert(t[i + 1].file_hash == r.file_hash);
            assert(false);
        }
        lemma_table_put_absent(t.drop_first(), r);
        assert(table_put(t, r) =~= t.push(r));
    }
}

/// A put whose key first occurs at position `i` replaces that record.
pub proof fn lemma_table_put_found(t: Seq<TimestampV>, r: TimestampV, i: int)
    requires
        0 <= i < t.len(),
        t[i].file_hash == r.file_hash,
        forall|j: int| 0 <= j < i ==> t[j].file_hash != r.file_hash,
    ensures
        table_put(t, r) == t.update(i, r),
    decreases t.len(),
{
    if i == 0 {
        assert(table_put(t, r) =~= t.update(0, r));
    } else {
        assert(t.drop_first()[i - 1].file_hash == r.file_hash);
        assert forall|j: int| 0 <= j < i - 1 implies t.drop_first()[j].file_hash
            != r.file_hash by {
            assert(t.drop_first()[j] == t[j + 1]);
        }
        lemma_table_put_found(t.drop_first(), r, i - 1);
        assert(table_put(t, r) =~= t.update(i, r));
    }
}

/// Looking up after a put: the put record under its own key, and the old
/// table's answer under every other key — insert-or-overwrite, exactly.
pub proof fn lemma_put_lookup(t: Seq<TimestampV>, r: TimestampV, k: Seq<u8>)
    ensures
        table_lookup(table_put(t, r), k) == if k == r.file_hash {
            Some(r)
        } else {
            table_lookup(t, k)
        },
    decreases t.len(),
{
    let p = table_put(t, r);
    if t.len() == 0 {
        assert(p[0] == r);
        assert(p.drop_first() =~= Seq::<TimestampV>::empty());
        if k != r.file_hash {
            assert(table_lookup(p, k) == table_lookup(p.drop_first(), k));
            assert(table_lookup(p, k) is None);
        }
    } else if t[0].file_hash == r.file_hash {
        assert(p[0] == r);
        assert(p.drop_first() =~= t.drop_first());
        if k == r.file_hash {
            assert(table_lookup(p, k) == Some(r));
        } else {
            assert(table_lookup(p, k) == table_lookup(t.drop_first(), k));
            assert(table_lookup(t, k) == table_lookup(t.drop_first(), k));
        }
    } else {
        assert(p[0] == t[0]);
        assert(p.drop_first() =~= table_put(t.drop_first(), r));
        lemma_put_lookup(t.drop_first(), r, k);
        if t[0].file_hash == k {
            assert(table_lookup(p, k) == Some(t[0]));
            assert(table_lookup(t, k) == Some(t[0]));
        } else {
            assert(table_lookup(p, k) == table_lookup(table_put(t.drop_first(), r), k));
            assert(table_lookup(t, k) == table_lookup(t.drop_first(), k));
        }
    }
}

/// Mathematical value of the replicated state this service observes: the
/// timestamps table in insertion order, and the oracle's agreed time.
pub ghost struct StateV {
    pub table: Seq<TimestampV>,
    pub time: Option<u64>,
}

impl StateV {
    /// State invariant: every record well formed, content keys unique.
    pub open spec fn wf(self) -> bool {
        &&& forall|i: int| 0 <= i < self.table.len() ==> self.table[i].wf()
        &&& forall|i: int, j: int|
            0 <= i < j < self.table.len() ==> self.table[i].file_hash != self.table[j].file_hash
    }
}

/// A put of a well-formed record preserves the state invariant: a
/// replaced record keeps its position's key, an appended one brings a key
/// the table did not have.
pub proof fn lemma_put_wf(s: StateV, rec: TimestampV)
    requires
        s.wf(),
        rec.wf(),
    ensures
        (StateV { table: table_put(s.table, rec), time: s.time }).wf(),
{
    let t = s.table;
    let p = table_put(t, rec);
    if table_has_key(t, rec.file_hash) {
        lemma_lookup_has_key(t, rec.file_hash);
        let i = choose|i: int| 0 <= i < t.len() && t[i].file_hash == rec.file_hash;
        let first = first_key_index(t, rec.file_hash, i);
        lemma_table_put_found(t, rec, first);
        assert forall|a: int, b: int| 0 <= a < b < p.len() implies p[a].file_hash
            != p[b].file_hash by {
            assert(p[a] == t[a] || (a == first && p[a] == rec));
            assert(p[b] == t[b] || (b == first && p[b] == rec));
        }
    } else {
        lemma_table_put_absent(t, rec);
        assert forall|a: int, b: int| 0 <= a < b < p.len() implies p[a].file_hash
            != p[b].file_hash by {
            if b == p.len() - 1 {
                assert(!(0 <= a < t.len() && t[a].file_hash == rec.file_hash));
            }
        }
    }
}

/// The earliest position at or before `i` whose record carries `key`.
proof fn first_key_index(t: Seq<TimestampV>, key: Seq<u8>, i: int) -> (r: int)
    requires
        0 <= i < t.len(),
        t[i].file_hash == key,
    ensures
        0 <= r < t.len(),
        t[r].file_hash == key,
        forall|j: int| 0 <= j < r ==> t[j].file_hash != key,
    decreases i,
{
    if exists|j: int| 0 <= j < i && t[j].file_hash == key {
        let j = choose|j: int| 0 <= j < i && t[j].file_hash == key;
        first_key_index(t, key, j)
    } else {
        i
    }
}

/// The state every replica starts from: no records, no agreed time.
pub open spec fn empty_state() -> StateV {
    StateV { table: Seq::<TimestampV>::empty(), time: None::<u64> }
}

/// The storage view: the timestamps table and the agreed oracle time, as
/// materialized by the platform for one consistent snapshot or fork.
pub struct StorageState {
    timestamps: Vec<Timestamp>,
    time: Option<u64>,
}

impl View for StorageState {
    type V = StateV;

    closed spec fn view(&self) -> StateV {
        StateV { table: self.timestamps@.map_values(|t: Timestamp| t@), time: self.time }
    }
}

impl StorageState {
    /// The empty state: no records, no agreed time yet.
    pub fn new() -> (r: Self)
        ensures
            r@ == empty_state(),
            r@.wf(),
    {
        let r = StorageState { timestamps: Vec::new(), time: None };
        proof {
            assert(r@.table =~= Seq::<TimestampV>::empty());
        }
        r
    }

    /// The time oracle's agreed value in this view, if it has produced one.
    pub fn oracle_time(&self) -> (r: Option<u64>)
        ensures
            r == self@.time,
    {
        self.time
    }

    /// Records the oracle's newly agreed time; only the platform's ordered
    /// stream of time-oracle transactions reaches this.
    pub fn set_oracle_time(&mut self, t: u64)
        ensures
            final(self)@ == (StateV { table: old(self)@.table, time: Some(t) }),
    {
        self.time = Some(t);
    }

    /// First record under this content key, as an owned copy.
    pub fn lookup(&self, key: &Vec<u8>) -> (r: Option<Timestamp>)
        ensures
            match r {
                Some(t) => table_lookup(self@.table, key@) == Some(t@),
                None => table_lookup(self@.table, key@) is None,
            },
    {
        let n = self.timestamps.len();
        let mut i: usize = 0;
        proof {
            assert(self@.table.skip(0) =~= self@.table);
        }
        while i < n
            invariant
                n == self@.table.len(),
                i <= n,
                table_lookup(self@.table, key@) == table_lookup(
                    self@.table.skip(i as int),
                    key@,
                ),
            decreases n - i,
        {
            let t = &self.timestamps[i];
            proof {
                assert(self@.table.skip(i as int)[0] == self@.table[i as int]);
            }
            if bytes_eq(&t.file_hash, key) {
                return Some(t.duplicate());
            }
            proof {
                assert(self@.table.skip(i as int).drop_first() =~= self@.table.skip(i + 1));
            }
            i += 1;
        }
        proof {
            assert(self@.table.skip(n as int) =~= Seq::<TimestampV>::empty());
        }
        None
    }

    /// Writes a record into the table: overwrites the record under the
    /// same content key where one exists, appends where none does. No
    /// existence policy here; the transaction layer decides whether a key
    /// may be written again.
    pub fn put_record(&mut self, record: Timestamp)
        ensures
            final(self)@ == (StateV {
                table: table_put(old(self)@.table, record@),
                time: old(self)@.time,
            }),
            table_lookup(final(self)@.table, record@.file_hash) == Some(record@),
    {
        let ghost prev = self@.table;
        let ghost rv = record@;
        let n = self.timestamps.len();
        let mut i: usize = 0;
        while i < n
            invariant
                n == self@.table.len(),
                i <= n,
                self@.table == prev,
                prev == old(self)@.table,
                self@.time == old(self)@.time,
                rv == record@,
                forall|j: int| 0 <= j < i ==> prev[j].file_hash != rv.file_hash,
            decreases n - i,
        {
            if bytes_eq(&self.timestamps[i].file_hash, &record.file_hash) {
                self.timestamps[i] = record;
                proof {
                    lemma_table_put_found(prev, rv, i as int);
                    assert(self@.table =~= prev.update(i as int, rv));
                    lemma_put_lookup(prev, rv, rv.file_hash);
                }
                return;
            }
            i += 1;
        }
        self.timestamps.push(record);
        proof {
            if table_has_key(prev, rv.file_hash) {
                let j = choose|j: int| 0 <= j < prev.len() && prev[j].file_hash == rv.file_hash;
                assert(false);
            }
            lemma_table_put_absent(prev, rv);
            assert(self@.table =~= prev.push(rv));
            lemma_put_lookup(prev, rv, rv.file_hash);
        }
    }

    /// The records in table order, for iteration by queries.
    pub fn records(&self) -> (r: &Vec<Timestamp>)
        ensures
            r@.map_values(|t: Timestamp| t@) == self@.table,
    {
        &self.timestamps
    }
}

/// Whether two byte vectors hold the same bytes.
fn bytes_eq(a: &Vec<u8>, b: &Vec<u8>) -> (r: bool)
    ensures
        r == (a@ == b@),
{
    if a.len() != b.len() {
        proof {
            assert(a@ != b@);
        }
        return false;
    }
    let mut i: usize = 0;
    while i < a.len()
        invariant
            a@.len() == b@.len(),
            i <= a@.len(),
            forall|j: int| 0 <= j < i ==> a@[j] == b@[j],
        decreases a@.len() - i,
    {
        if a[i] != b[i] {
            return false;
        }
        i += 1;
    }
    proof {
        assert(a@ =~= b@);
    }
    true
}

/// Typed accessor over a storage view: the service's schema. Wrapping is
/// pure and never fails; reads are valid for the lifetime of the view.
pub struct TimestampSchema<'a> {
    view: &'a StorageState,
}

impl<'a> TimestampSchema<'a> {
    /// Mathematical state seen through this schema.
    pub closed spec fn state(self) -> StateV {
        self.view@
    }

    /// Wraps a storage view into a typed accessor; pure, no side effects.
    pub fn new(view: &'a StorageState) -> (r: Self)
        ensures
            r.state() == view@,
    {
        TimestampSchema { view }
    }

    /// The timestamps table of the wrapped view, in table order.
    pub fn timestamps(&self) -> (r: &Vec<Timestamp>)
        ensures
            r@.map_values(|t: Timestamp| t@) == self.state().table,
    {
        self.view.records()
    }

    /// Point lookup: the record stored under this content key, if any.
    pub fn timestamp(&self, key: &Vec<u8>) -> (r: Option<Timestamp>)
        ensures
            match r {
                Some(t) => table_lookup(self.state().table, key@) == Some(t@),
                None => table_lookup(self.state().table, key@) is None,
            },
    {
        self.view.lookup(key)
    }

    /// Writes a record through a mutable view: inserts or overwrites under
    /// the record's content key. The schema performs no existence check —
    /// the idempotency policy belongs to the transaction layer, which
    /// checks before calling this.
    pub fn put(fork: &mut StorageState, record: Timestamp)
        ensures
            final(fork)@ == (StateV {
                table: table_put(old(fork)@.table, record@),
                time: old(fork)@.time,
            }),
            table_lookup(final(fork)@.table, record@.file_hash) == Some(record@),
    {
        fork.put_record(record);
    }
}

} // verus!
