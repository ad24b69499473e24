//! The replicated-state-machine guarantees of the service, stated and
//! proved over the mathematical model: idempotent insertion,
//! first-writer-wins under the global order, replica determinism, and the
//! exclusion of any local clock from stored times.

use vstd::prelude::*;

use crate::api::{get_timestamp_spec, json_of_record};
use crate::hexcode::{hex_of, lemma_hex_round_trip};
use crate::storage::{empty_state, table_has_key, table_lookup, StateV, TimestampV, KEY_LEN};
use crate::tx::{apply_event_spec, apply_log_spec, apply_tx_spec, EventV, TxV};

verus! {

/// Point-query round trip: whatever the table holds under a key-length
/// content key, the query under that key's hex rendering reports it — the
/// stored record with 200, or not-found with 404, never a decode error.
pub proof fn lemma_query_round_trip(s: StateV, key: Seq<u8>)
    requires
        key.len() == KEY_LEN,
    ensures
        ({
            let r = get_timestamp_spec(s, hex_of(key));
            match table_lookup(s.table, key) {
                Some(t) => r == (200u16, json_of_record(t)),
                None => r == (404u16, "\"Timestamp not found\""@),
            }
        }),
{
    lemma_hex_round_trip(key);
}

/// Idempotence: applying the same transaction twice in direct succession
/// leaves exactly the state of the first application — the second is a
/// no-op.
pub proof fn lemma_idempotent(s: StateV, tx: TxV)
    ensures
        apply_tx_spec(apply_tx_spec(s, tx), tx) == apply_tx_spec(s, tx),
{
    let s1 = apply_tx_spec(s, tx);
    let key = tx.content_key();
    if s.time is Some && !table_has_key(s.table, key) {
        assert(s1.table[s1.table.len() - 1].file_hash == key);
        assert(table_has_key(s1.table, key));
    }
}

/// The looked-up record after a first execution: when the oracle has
/// agreed on a time and the content key is absent, the transaction inserts
/// exactly one record for it, carrying that time and the submitter.
pub proof fn lemma_first_execution_time(s: StateV, tx: TxV)
    requires
        s.time is Some,
        !table_has_key(s.table, tx.content_key()),
    ensures
        table_lookup(apply_tx_spec(s, tx).table, tx.content_key()) == Some(
            TimestampV {
                file_hash: tx.content_key(),
                time: s.time.unwrap(),
                signer: Some(tx.pub_key),
            },
        ),
        apply_tx_spec(s, tx).table.len() == s.table.len() + 1,
{
    let rec = TimestampV {
        file_hash: tx.content_key(),
        time: s.time.unwrap(),
        signer: Some(tx.pub_key),
    };
    lemma_lookup_push_absent(s.table, rec, tx.content_key());
}

/// Looking a key up in a table extended by a record for that key, when no
/// earlier record carries it, finds the new record.
proof fn lemma_lookup_push_absent(t: Seq<TimestampV>, r: TimestampV, k: Seq<u8>)
    requires
        !table_has_key(t, k),
        r.file_hash == k,
    ensures
        table_lookup(t.push(r), k) == Some(r),
    decreases t.len(),
{
    if t.len() == 0 {
        assert(t.push(r)[0] == r);
    } else {
        assert(t[0].file_hash != k);
        if table_has_key(t.drop_first(), k) {
            let i = choose|i: int|
                0 <= i < t.drop_first().len() && t.drop_first()[i].file_hash == k;
            assert(t[i + 1].file_hash == k);
            assert(false);
        }
        lemma_lookup_push_absent(t.drop_first(), r, k);
        assert(t.push(r).drop_first() =~= t.drop_first().push(r));
        assert(t.push(r)[0] == t[0]);
    }
}

/// First-writer-wins: after a transaction has executed once with an agreed
/// oracle time, re-applying it — under any time the oracle has agreed on
/// since — changes nothing but the recorded oracle value. The stored table,
/// and with it the time observed by the first execution, stays as it was.
pub proof fn lemma_first_writer_wins(s: StateV, tx: TxV, t2: u64)
    requires
        s.time is Some,
    ensures
        ({
            let s1 = apply_tx_spec(s, tx);
            let s2 = apply_event_spec(s1, EventV::AgreedTime(t2));
            apply_tx_spec(s2, tx) == StateV { table: s1.table, time: Some(t2) }
        }),
{
    let key = tx.content_key();
    let s1 = apply_tx_spec(s, tx);
    if !table_has_key(s.table, key) {
        assert(s1.table[s1.table.len() - 1].file_hash == key);
        assert(table_has_key(s1.table, key));
    }
}

/// Determinism: the post-state is a function of the initial state and the
/// ordered log alone. Two replicas that apply the same log to equal
/// initial states reach equal states; nothing outside the log — in
/// particular no replica-local clock, whose reads would differ — enters
/// the result, since `apply_log_spec` has no other parameter.
pub proof fn lemma_replica_determinism(init1: StateV, init2: StateV, log: Seq<EventV>)
    requires
        init1 == init2,
    ensures
        apply_log_spec(init1, log) == apply_log_spec(init2, log),
{
}

/// One log entry preserves the state invariant: every record stays well
/// formed and content keys stay unique.
pub proof fn lemma_apply_event_wf(s: StateV, e: EventV)
    requires
        s.wf(),
        e.wf(),
    ensures
        apply_event_spec(s, e).wf(),
{
    match e {
        EventV::AgreedTime(_) => {},
        EventV::Create(tx) => {
            crate::tx::lemma_apply_tx_wf(s, tx);
        },
    }
}

/// At most one record per content key: every state reachable from the
/// empty state through well-formed log entries satisfies the table
/// invariant — records are well formed and no key occurs twice.
pub proof fn lemma_reachable_states_wf(log: Seq<EventV>)
    requires
        forall|i: int| 0 <= i < log.len() ==> (#[trigger] log[i]).wf(),
    ensures
        apply_log_spec(empty_state(), log).wf(),
{
    lemma_apply_log_wf(empty_state(), log);
}

/// Applying well-formed entries to a well-formed state keeps it well
/// formed.
proof fn lemma_apply_log_wf(s: StateV, log: Seq<EventV>)
    requires
        s.wf(),
        forall|i: int| 0 <= i < log.len() ==> (#[trigger] log[i]).wf(),
    ensures
        apply_log_spec(s, log).wf(),
    decreases log.len(),
{
    if log.len() > 0 {
        lemma_apply_event_wf(s, log[0]);
        assert forall|i: int| 0 <= i < log.drop_first().len() implies (#[trigger] log.drop_first()[i]).wf() by {
            assert(log.drop_first()[i] == log[i + 1]);
        }
        lemma_apply_log_wf(apply_event_spec(s, log[0]), log.drop_first());
    }
}

/// Records are immutable: whatever entry applies next, the existing table
/// stays as a prefix of the new one — no record is updated in place, none
/// is deleted.
pub proof fn lemma_records_immutable(s: StateV, e: EventV)
    ensures
        s.table.is_prefix_of(apply_event_spec(s, e).table),
{
    let t2 = apply_event_spec(s, e).table;
    assert(t2.take(s.table.len() as int) =~= s.table);
}

/// Whether some log entry records `t` as the oracle's agreed time.
pub open spec fn log_has_time(log: Seq<EventV>, t: u64) -> bool {
    exists|i: int| 0 <= i < log.len() && log[i] == EventV::AgreedTime(t)
}

/// Whether `e` occurs as an entry of `ctx`.
pub open spec fn entry_in(ctx: Seq<EventV>, e: EventV) -> bool {
    exists|j: int| 0 <= j < ctx.len() && ctx[j] == e
}

/// Every stored time, and the oracle value itself, was agreed by some log
/// entry of `ctx`.
pub open spec fn times_from_log(s: StateV, ctx: Seq<EventV>) -> bool {
    &&& forall|j: int| 0 <= j < s.table.len() ==> log_has_time(ctx, s.table[j].time)
    &&& match s.time {
        Some(t) => log_has_time(ctx, t),
        None => true,
    }
}

/// Applying entries that all occur in `ctx` preserves the origin of every
/// stored time in `ctx`.
proof fn lemma_times_aux(s: StateV, log: Seq<EventV>, ctx: Seq<EventV>)
    requires
        times_from_log(s, ctx),
        forall|i: int| 0 <= i < log.len() ==> #[trigger] entry_in(ctx, log[i]),
    ensures
        times_from_log(apply_log_spec(s, log), ctx),
    decreases log.len(),
{
    if log.len() > 0 {
        let e = log[0];
        let s1 = apply_event_spec(s, e);
        assert(entry_in(ctx, log[0]));
        match e {
            EventV::AgreedTime(t) => {
                let j = choose|j: int| 0 <= j < ctx.len() && ctx[j] == log[0];
                assert(ctx[j] == EventV::AgreedTime(t));
                assert(log_has_time(ctx, t));
            },
            EventV::Create(tx) => {
                let key = tx.content_key();
                if s.time is Some && !table_has_key(s.table, key) {
                    assert forall|j: int| 0 <= j < s1.table.len() implies log_has_time(
                        ctx,
                        s1.table[j].time,
                    ) by {
                        if j < s1.table.len() - 1 {
                            assert(s1.table[j] == s.table[j]);
                        }
                    }
                }
            },
        }
        assert(times_from_log(s1, ctx));
        assert forall|i: int| 0 <= i < log.drop_first().len() implies #[trigger] entry_in(
            ctx,
            log.drop_first()[i],
        ) by {
            assert(log.drop_first()[i] == log[i + 1]);
            assert(entry_in(ctx, log[i + 1]));
        }
        lemma_times_aux(s1, log.drop_first(), ctx);
    }
}

/// No local clock: starting from the empty state, every time stored in the
/// table was agreed by the oracle — it appears as an `AgreedTime` entry of
/// the log every replica shares. A value derivable only from one replica's
/// local clock therefore never reaches the table.
pub proof fn lemma_no_local_clock(log: Seq<EventV>)
    ensures
        forall|j: int|
            0 <= j < apply_log_spec(empty_state(), log).table.len() ==> log_has_time(
                log,
                apply_log_spec(empty_state(), log).table[j].time,
            ),
{
    assert forall|i: int| 0 <= i < log.len() implies #[trigger] entry_in(log, log[i]) by {
        assert(log[i] == log[i]);
    }
    lemma_times_aux(empty_state(), log, log);
}

} // verus!
