use vstd::prelude::*;
use crate::ledger::{FoundLedger, EntryView, ledger_contains, sweep_spec};
use crate::model::{AppError, GiftStatus};
use crate::naming::{is_valid_name, validate_name};
use crate::scan::{Scanner, ProbeOutcome, apply_spec, announces};

verus! {

/// The scanning engine's shared state: the ledger of IDs found per resource,
/// which every scan run consults and updates.
pub struct GiftChecker {
    found_ids: FoundLedger,
}

impl View for GiftChecker {
    type V = Seq<EntryView>;

    closed spec fn view(&self) -> Seq<EntryView> {
        self.found_ids@
    }
}

impl GiftChecker {
    /// An engine with an empty ledger.
    pub fn new() -> (r: GiftChecker)
        ensures
            r@ == Seq::<EntryView>::empty(),
    {
        GiftChecker { found_ids: FoundLedger::new() }
    }

    /// Accepts a resource name matching `[A-Za-z0-9-]+` and rejects any
    /// other with `InvalidGiftName`.
    pub fn validate_gift_name(&self, gift_name: &str) -> (r: Result<(), AppError>)
        ensures
            r is Ok <==> is_valid_name(gift_name@),
            r is Err ==> r->Err_0 is InvalidGiftName,
    {
        validate_name(gift_name)
    }

    /// Whether `id` is already known to exist for `resource`.
    pub fn is_found(&self, resource: &str, id: u32) -> (r: bool)
        ensures
            r == ledger_contains(self@, resource@, id),
    {
        self.found_ids.contains(resource, id)
    }

    /// Number of resources the ledger tracks.
    pub fn tracked_resources(&self) -> (r: usize)
        ensures
            r == self@.len(),
    {
        self.found_ids.len()
    }

    /// Takes in the reports of a finished batch of `scan` at time `now`, and
    /// returns the discovery events to publish.
    pub fn record_batch(&mut self, scan: &mut Scanner, reports: &Vec<(u32, ProbeOutcome)>, now: u64) -> (events: Vec<GiftStatus>)
        ensures
            final(scan)@.0 == old(scan)@.0,
            (final(self)@, final(scan)@.1, events@.map_values(|e: GiftStatus| e.current_id))
                == apply_spec(old(self)@, old(scan)@.0, old(scan)@.1, reports@, now),
            announces(events@, old(scan)@.0, apply_spec(old(self)@, old(scan)@.0, old(scan)@.1, reports@, now).2),
    {
        scan.apply_batch(&mut self.found_ids, reports, now)
    }

    /// The periodic sweep at time `now`: drops every resource whose entry was
    /// not updated within the retention period.
    pub fn sweep(&mut self, now: u64)
        ensures
            final(self)@ == sweep_spec(old(self)@, now),
    {
        self.found_ids.sweep(now)
    }
}

} // verus!
