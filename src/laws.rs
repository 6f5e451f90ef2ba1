use vstd::prelude::*;
use crate::ledger::{EntryView, ledger_contains, record_spec, sweep_spec, recent_at, CLEANUP_INTERVAL};
use crate::naming::is_valid_name;
use crate::scan::{ProbeOutcome, apply_spec};
use crate::session::{SessionView, text_spec, supersedes, forwards_spec};

verus! {

/// Recording never forgets: what the ledger held before a record it still holds.
pub proof fn law_record_keeps_known(v: Seq<EntryView>, r: Seq<char>, id: u32, now: u64, r2: Seq<char>, id2: u32)
    requires
        ledger_contains(v, r2, id2),
    ensures
        ledger_contains(record_spec(v, r, id, now), r2, id2),
{
    let k = choose|k: int| 0 <= k < v.len() && v[k].resource == r2 && v[k].ids.contains(id2);
    let w = record_spec(v, r, id, now);
    if exists|i: int| 0 <= i < v.len() && v[i].resource == r {
        let i = choose|i: int| 0 <= i < v.len() && v[i].resource == r;
        if !v[i].ids.contains(id) {
            if k == i {
                assert(w[k].ids.contains(id2));
            } else {
                assert(w[k] == v[k]);
            }
        }
    } else {
        assert(w[k] == v[k]);
    }
}

/// Once recorded, an ID is known for its resource.
pub proof fn law_record_then_known(v: Seq<EntryView>, r: Seq<char>, id: u32, now: u64)
    ensures
        ledger_contains(record_spec(v, r, id, now), r, id),
{
    let w = record_spec(v, r, id, now);
    if exists|i: int| 0 <= i < v.len() && v[i].resource == r {
        let i = choose|i: int| 0 <= i < v.len() && v[i].resource == r;
        assert(w[i].resource == r && w[i].ids.contains(id));
    } else {
        assert(w[v.len() as int].resource == r && w[v.len() as int].ids.contains(id));
    }
}

/// An ID newly recorded for a resource at time `t` is still known after a
/// sweep at any `now` within one retention period of `t`; so a second record
/// of it in that window does not count as new.
pub proof fn law_new_record_survives_window(v: Seq<EntryView>, r: Seq<char>, id: u32, t: u64, now: u64)
    requires
        !ledger_contains(v, r, id),
        (now as int) < t as int + CLEANUP_INTERVAL as int,
    ensures
        ledger_contains(sweep_spec(record_spec(v, r, id, t), now), r, id),
{
    let w = record_spec(v, r, id, t);
    let i = if exists|i: int| 0 <= i < v.len() && v[i].resource == r {
        choose|i: int| 0 <= i < v.len() && v[i].resource == r
    } else {
        v.len() as int
    };
    if i < v.len() {
        assert(!v[i].ids.contains(id));
    }
    assert(w[i].resource == r && w[i].ids.contains(id) && w[i].last_update == t);
    assert(recent_at(now)(w[i]));
    w.lemma_filter_contains(recent_at(now), i);
    let s = sweep_spec(w, now);
    let k = choose|k: int| 0 <= k < s.len() && s[k] == w[i];
    assert(s[k].resource == r && s[k].ids.contains(id));
}

/// A batch never moves the frontier back.
pub proof fn law_frontier_never_decreases(
    ledger: Seq<EntryView>,
    r: Seq<char>,
    frontier: u32,
    reports: Seq<(u32, ProbeOutcome)>,
    now: u64,
)
    ensures
        apply_spec(ledger, r, frontier, reports, now).1 >= frontier,
    decreases reports.len(),
{
    if reports.len() > 0 {
        law_frontier_never_decreases(ledger, r, frontier, reports.drop_last(), now);
    }
}

/// A batch announces only IDs the ledger did not hold, each at most once,
/// and leaves each of them recorded; what the ledger held stays held.
pub proof fn law_batch_announces_new_ids_once(
    ledger: Seq<EntryView>,
    r: Seq<char>,
    frontier: u32,
    reports: Seq<(u32, ProbeOutcome)>,
    now: u64,
)
    ensures
        ({
            let res = apply_spec(ledger, r, frontier, reports, now);
            &&& res.2.no_duplicates()
            &&& forall|k: int| 0 <= k < res.2.len() ==> !ledger_contains(ledger, r, #[trigger] res.2[k])
            &&& forall|k: int| 0 <= k < res.2.len() ==> ledger_contains(res.0, r, #[trigger] res.2[k])
            &&& forall|r2: Seq<char>, id2: u32| ledger_contains(ledger, r2, id2) ==> #[trigger] ledger_contains(res.0, r2, id2)
        }),
    decreases reports.len(),
{
    if reports.len() > 0 {
        law_batch_announces_new_ids_once(ledger, r, frontier, reports.drop_last(), now);
        let prev = apply_spec(ledger, r, frontier, reports.drop_last(), now);
        let id = reports.last().0;
        if reports.last().1 == ProbeOutcome::Exists && !ledger_contains(prev.0, r, id) {
            let w = record_spec(prev.0, r, id, now);
            law_record_then_known(prev.0, r, id, now);
            assert forall|r2: Seq<char>, id2: u32| ledger_contains(prev.0, r2, id2) implies #[trigger] ledger_contains(w, r2, id2) by {
                law_record_keeps_known(prev.0, r, id, now, r2, id2);
            };
            let ev = prev.2.push(id);
            assert forall|k: int| 0 <= k < ev.len() implies ledger_contains(w, r, #[trigger] ev[k]) by {
                if k < prev.2.len() {
                    assert(ev[k] == prev.2[k]);
                }
            };
            assert forall|k: int| 0 <= k < ev.len() implies !ledger_contains(ledger, r, #[trigger] ev[k]) by {
                if k < prev.2.len() {
                    assert(ev[k] == prev.2[k]);
                } else {
                    assert(ev[k] == id);
                }
            };
            assert forall|a: int, b: int| 0 <= a < ev.len() && 0 <= b < ev.len() && a != b implies ev[a] != ev[b] by {
                if a == prev.2.len() {
                    assert(ledger_contains(prev.0, r, prev.2[b]));
                } else if b == prev.2.len() {
                    assert(ledger_contains(prev.0, r, prev.2[a]));
                } else {
                    assert(ev[a] == prev.2[a] && ev[b] == prev.2[b]);
                }
            };
        }
    }
}

/// Re-probing an ID the ledger already holds announces nothing for it, even
/// when the remote endpoint reports it again.
pub proof fn law_known_id_not_announced(
    ledger: Seq<EntryView>,
    r: Seq<char>,
    frontier: u32,
    reports: Seq<(u32, ProbeOutcome)>,
    now: u64,
    id: u32,
)
    requires
        ledger_contains(ledger, r, id),
    ensures
        !apply_spec(ledger, r, frontier, reports, now).2.contains(id),
{
    law_batch_announces_new_ids_once(ledger, r, frontier, reports, now);
}

/// A session that switches from `a` to `b` stops the run over `a` when it
/// starts the one over `b`, and from then on forwards discoveries for `b` only.
pub proof fn law_switch_supersedes(s: SessionView, a: Seq<char>, b: Seq<char>, t1: u64, t2: u64, name: Seq<char>)
    requires
        is_valid_name(a),
        is_valid_name(b),
    ensures
        supersedes(text_spec(s, a, t1), b),
        forwards_spec(text_spec(text_spec(s, a, t1), b, t2), name) <==> name == b,
{
}

/// One operation on the ledger, from whichever scan run or timer made it.
pub enum LedgerOp {
    Record { resource: Seq<char>, id: u32, now: u64 },
    Sweep { now: u64 },
}

/// The ledger after `ops` in order, and the `(resource, id)` pairs of the
/// records that were new insertions, in order.
pub open spec fn run_ledger(v: Seq<EntryView>, ops: Seq<LedgerOp>) -> (Seq<EntryView>, Seq<(Seq<char>, u32)>)
    decreases ops.len(),
{
    if ops.len() == 0 {
        (v, Seq::empty())
    } else {
        let prev = run_ledger(v, ops.drop_last());
        match ops.last() {
            LedgerOp::Record { resource, id, now } => {
                let fresh = !ledger_contains(prev.0, resource, id);
                (
                    record_spec(prev.0, resource, id, now),
                    if fresh { prev.1.push((resource, id)) } else { prev.1 },
                )
            },
            LedgerOp::Sweep { now } => (sweep_spec(prev.0, now), prev.1),
        }
    }
}

/// Every operation of `ops` falls in the retention window that opens at
/// `start`: records at or after it, sweeps before it closes.
pub open spec fn within_window(ops: Seq<LedgerOp>, start: u64) -> bool {
    forall|k: int| 0 <= k < ops.len() ==> match #[trigger] ops[k] {
        LedgerOp::Record { resource, id, now } => now >= start,
        LedgerOp::Sweep { now } => (now as int) < start as int + CLEANUP_INTERVAL as int,
    }
}

/// `id` is held for `r` by an entry updated at or after `start`.
pub open spec fn held_since(v: Seq<EntryView>, r: Seq<char>, id: u32, start: u64) -> bool {
    exists|i: int| 0 <= i < v.len() && v[i].resource == r && v[i].ids.contains(id) && v[i].last_update >= start
}

proof fn lemma_record_keeps_held(v: Seq<EntryView>, r: Seq<char>, id: u32, now: u64, r2: Seq<char>, id2: u32, start: u64)
    requires
        held_since(v, r2, id2, start),
        now >= start,
    ensures
        held_since(record_spec(v, r, id, now), r2, id2, start),
{
    let k = choose|k: int| 0 <= k < v.len() && v[k].resource == r2 && v[k].ids.contains(id2) && v[k].last_update >= start;
    let w = record_spec(v, r, id, now);
    if exists|i: int| 0 <= i < v.len() && v[i].resource == r {
        let i = choose|i: int| 0 <= i < v.len() && v[i].resource == r;
        if !v[i].ids.contains(id) {
            if k == i {
                assert(w[k].ids.contains(id2) && w[k].resource == r2 && w[k].last_update >= start);
            } else {
                assert(w[k] == v[k]);
            }
        }
    } else {
        assert(w[k] == v[k]);
    }
}

proof fn lemma_new_record_held(v: Seq<EntryView>, r: Seq<char>, id: u32, now: u64, start: u64)
    requires
        !ledger_contains(v, r, id),
        now >= start,
    ensures
        held_since(record_spec(v, r, id, now), r, id, start),
{
    let w = record_spec(v, r, id, now);
    let i = if exists|i: int| 0 <= i < v.len() && v[i].resource == r {
        choose|i: int| 0 <= i < v.len() && v[i].resource == r
    } else {
        v.len() as int
    };
    if i < v.len() {
        assert(!v[i].ids.contains(id));
    }
    assert(w[i].resource == r && w[i].ids.contains(id) && w[i].last_update == now);
}

proof fn lemma_sweep_keeps_held(v: Seq<EntryView>, r: Seq<char>, id: u32, now: u64, start: u64)
    requires
        held_since(v, r, id, start),
        (now as int) < start as int + CLEANUP_INTERVAL as int,
    ensures
        held_since(sweep_spec(v, now), r, id, start),
{
    let i = choose|i: int| 0 <= i < v.len() && v[i].resource == r && v[i].ids.contains(id) && v[i].last_update >= start;
    assert(recent_at(now)(v[i]));
    v.lemma_filter_contains(recent_at(now), i);
    let s = sweep_spec(v, now);
    let k = choose|k: int| 0 <= k < s.len() && s[k] == v[i];
    assert(s[k].resource == r && s[k].ids.contains(id) && s[k].last_update >= start);
}

proof fn lemma_run_holds_new(v: Seq<EntryView>, ops: Seq<LedgerOp>, start: u64)
    requires
        within_window(ops, start),
    ensures
        ({
            let res = run_ledger(v, ops);
            &&& res.1.no_duplicates()
            &&& forall|k: int| 0 <= k < res.1.len() ==> held_since(res.0, (#[trigger] res.1[k]).0, res.1[k].1, start)
        }),
    decreases ops.len(),
{
    if ops.len() > 0 {
        let init = ops.drop_last();
        assert(within_window(init, start)) by {
            assert forall|k: int| 0 <= k < init.len() implies #[trigger] init[k] == ops[k] by {};
        };
        lemma_run_holds_new(v, init, start);
        let prev = run_ledger(v, init);
        let res = run_ledger(v, ops);
        let last = ops.last();
        assert(ops[ops.len() - 1] == last);
        match last {
            LedgerOp::Record { resource, id, now } => {
                assert forall|k: int| 0 <= k < prev.1.len() implies held_since(res.0, (#[trigger] prev.1[k]).0, prev.1[k].1, start) by {
                    lemma_record_keeps_held(prev.0, resource, id, now, prev.1[k].0, prev.1[k].1, start);
                };
                if !ledger_contains(prev.0, resource, id) {
                    lemma_new_record_held(prev.0, resource, id, now, start);
                    let n = prev.1.push((resource, id));
                    assert forall|k: int| 0 <= k < n.len() implies held_since(res.0, (#[trigger] n[k]).0, n[k].1, start) by {
                        if k < prev.1.len() {
                            assert(n[k] == prev.1[k]);
                        }
                    };
                    assert forall|a: int, b: int| 0 <= a < n.len() && 0 <= b < n.len() && a != b implies n[a] != n[b] by {
                        if a == prev.1.len() || b == prev.1.len() {
                            let o = if a == prev.1.len() { b } else { a };
                            assert(held_since(prev.0, prev.1[o].0, prev.1[o].1, start));
                            let i = choose|i: int| 0 <= i < prev.0.len() && prev.0[i].resource == prev.1[o].0
                                && prev.0[i].ids.contains(prev.1[o].1) && prev.0[i].last_update >= start;
                            if prev.1[o] == (resource, id) {
                                assert(ledger_contains(prev.0, resource, id));
                            }
                        } else {
                            assert(n[a] == prev.1[a] && n[b] == prev.1[b]);
                        }
                    };
                }
            },
            LedgerOp::Sweep { now } => {
                assert forall|k: int| 0 <= k < prev.1.len() implies held_since(res.0, (#[trigger] prev.1[k]).0, prev.1[k].1, start) by {
                    lemma_sweep_keeps_held(prev.0, prev.1[k].0, prev.1[k].1, now, start);
                };
            },
        }
    }
}

/// Within one retention window, whatever records and sweeps the scan runs
/// and the timer interleave, no `(resource, id)` pair is a new insertion
/// twice, so it is announced at most once.
pub proof fn law_one_new_insertion_per_window(v: Seq<EntryView>, ops: Seq<LedgerOp>, start: u64)
    requires
        within_window(ops, start),
    ensures
        run_ledger(v, ops).1.no_duplicates(),
{
    lemma_run_holds_new(v, ops, start);
}

} // verus!
