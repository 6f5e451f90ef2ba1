use vstd::prelude::*;
use crate::ledger::{FoundLedger, EntryView, ledger_contains, record_spec};
use crate::model::{AppError, GiftStatus};

verus! {

/// Number of IDs probed concurrently in one batch.
pub const BATCH_SIZE: u32 = 100;

/// Where a scan starts when the count estimate failed.
pub const DEFAULT_START_ID: u32 = 1;

/// Classified result of one existence check.
#[derive(Clone, Copy, PartialEq, Eq, Structural, Debug)]
pub enum ProbeOutcome {
    Exists,
    NotExists,
    RateLimited,
    TransientError,
}

/// The starting frontier: the estimate when there is one, else the default.
pub open spec fn start_spec(estimate: Result<u32, AppError>) -> u32 {
    match estimate {
        Ok(n) => n,
        Err(_) => DEFAULT_START_ID,
    }
}

/// Collapses a count estimate into a starting ID; an estimate that failed in
/// any way yields the default.
pub fn start_id(estimate: &Result<u32, AppError>) -> (r: u32)
    ensures
        r == start_spec(*estimate),
{
    match estimate {
        Ok(n) => *n,
        Err(_) => DEFAULT_START_ID,
    }
}

/// Number of IDs in the batch that starts at `f`: a full batch, cut short at
/// the top of the `u32` range.
pub open spec fn batch_len(f: u32) -> int {
    if f as int + BATCH_SIZE as int <= 0x1_0000_0000 {
        BATCH_SIZE as int
    } else {
        0x1_0000_0000 - f as int
    }
}

/// The IDs `[f, f + BATCH_SIZE)` that fit in a `u32`, in increasing order.
pub open spec fn batch_spec(f: u32) -> Seq<u32> {
    Seq::new(batch_len(f) as nat, |i: int| (f as int + i) as u32)
}

pub open spec fn max_u32(a: u32, b: u32) -> u32 {
    if a >= b { a } else { b }
}

/// Effect of one finished batch: the ledger, the frontier and the IDs
/// announced, after handling `reports` in order. Each `Exists` report whose ID
/// the ledger did not yet hold is recorded, raises the frontier to at least
/// that ID, and is announced; every other report changes nothing.
pub open spec fn apply_spec(
    ledger: Seq<EntryView>,
    r: Seq<char>,
    frontier: u32,
    reports: Seq<(u32, ProbeOutcome)>,
    now: u64,
) -> (Seq<EntryView>, u32, Seq<u32>)
    decreases reports.len(),
{
    if reports.len() == 0 {
        (ledger, frontier, Seq::empty())
    } else {
        let prev = apply_spec(ledger, r, frontier, reports.drop_last(), now);
        let id = reports.last().0;
        if reports.last().1 == ProbeOutcome::Exists && !ledger_contains(prev.0, r, id) {
            (record_spec(prev.0, r, id, now), max_u32(prev.1, id), prev.2.push(id))
        } else {
            prev
        }
    }
}

/// The events announcing `ids` for resource `r`, in order.
pub open spec fn announces(events: Seq<GiftStatus>, r: Seq<char>, ids: Seq<u32>) -> bool {
    &&& events.len() == ids.len()
    &&& forall|k: int| 0 <= k < events.len() ==> {
        &&& (#[trigger] events[k]).gift_name@ == r
        &&& events[k].current_id == ids[k]
        &&& events[k].found
    }
}

/// One scan run over one resource: its name and its moving frontier.
pub struct Scanner {
    resource: String,
    frontier: u32,
}

impl View for Scanner {
    type V = (Seq<char>, u32);

    closed spec fn view(&self) -> (Seq<char>, u32) {
        (self.resource@, self.frontier)
    }
}

impl Scanner {
    /// A run over `resource` whose frontier starts from the count estimate.
    pub fn new(resource: &str, estimate: &Result<u32, AppError>) -> (r: Scanner)
        ensures
            r@ == (resource@, start_spec(*estimate)),
    {
        Scanner { resource: String::from_str(resource), frontier: start_id(estimate) }
    }

    pub fn frontier(&self) -> (r: u32)
        ensures
            r == self@.1,
    {
        self.frontier
    }

    pub fn resource(&self) -> (r: &str)
        ensures
            r@ == self@.0,
    {
        self.resource.as_str()
    }

    /// The IDs of the next batch: from the frontier up, `BATCH_SIZE` of them.
    pub fn next_batch(&self) -> (r: Vec<u32>)
        ensures
            r@ == batch_spec(self@.1),
    {
        let f = self.frontier;
        let len: u32 = if f <= u32::MAX - BATCH_SIZE { BATCH_SIZE } else { ((u32::MAX - f) as u64 + 1) as u32 };
        let mut r: Vec<u32> = Vec::new();
        let mut i: u32 = 0;
        while i < len
            invariant
                len as int == batch_len(f),
                f == self.frontier,
                i <= len,
                r@ =~= batch_spec(f).subrange(0, i as int),
            decreases len - i,
        {
            r.push(f + i);
            i = i + 1;
        }
        r
    }

    /// Takes in the reports of a finished batch: records new discoveries in
    /// `ledger`, advances the frontier, and returns one event per discovery.
    pub fn apply_batch(&mut self, ledger: &mut FoundLedger, reports: &Vec<(u32, ProbeOutcome)>, now: u64) -> (events: Vec<GiftStatus>)
        ensures
            final(self)@.0 == old(self)@.0,
            (final(ledger)@, final(self)@.1, events@.map_values(|e: GiftStatus| e.current_id))
                == apply_spec(old(ledger)@, old(self)@.0, old(self)@.1, reports@, now),
            announces(events@, old(self)@.0, apply_spec(old(ledger)@, old(self)@.0, old(self)@.1, reports@, now).2),
    {
        let ghost l0 = ledger@;
        let ghost f0 = self.frontier;
        let mut events: Vec<GiftStatus> = Vec::new();
        let mut i: usize = 0;
        while i < reports.len()
            invariant
                i <= reports.len(),
                self@.0 == old(self)@.0,
                (ledger@, self.frontier, events@.map_values(|e: GiftStatus| e.current_id))
                    == apply_spec(l0, self@.0, f0, reports@.subrange(0, i as int), now),
                announces(events@, self@.0, apply_spec(l0, self@.0, f0, reports@.subrange(0, i as int), now).2),
            decreases reports.len() - i,
        {
            let ghost sub = reports@.subrange(0, i as int + 1);
            assert(sub.drop_last() =~= reports@.subrange(0, i as int));
            assert(sub.last() == reports@[i as int]);
            let ghost ev0 = events@;
            let (id, outcome) = reports[i];
            if outcome == ProbeOutcome::Exists {
                let fresh = ledger.record(self.resource.as_str(), id, now);
                if fresh {
                    if id > self.frontier {
                        self.frontier = id;
                    }
                    events.push(GiftStatus { gift_name: self.resource.clone(), current_id: id, found: true });
                    assert(events@.map_values(|e: GiftStatus| e.current_id) =~= ev0.map_values(|e: GiftStatus| e.current_id).push(id));
                }
            }
            i = i + 1;
        }
        assert(reports@.subrange(0, reports@.len() as int) =~= reports@);
        events
    }
}

} // verus!
