use vstd::prelude::*;
use std::collections::HashSet;
use crate::naming::same_text;

verus! {

broadcast use vstd::std_specs::hash::group_hash_axioms;

/// Period of the sweep, and the age (in seconds) past which an entry is dropped.
pub const CLEANUP_INTERVAL: u64 = 300;

/// What the ledger knows of one resource.
pub struct EntryView {
    pub resource: Seq<char>,
    pub ids: Set<u32>,
    pub last_update: u64,
}

struct LedgerEntry {
    resource: String,
    ids: HashSet<u32>,
    last_update: u64,
}

impl LedgerEntry {
    spec fn view_entry(&self) -> EntryView {
        EntryView { resource: self.resource@, ids: self.ids@, last_update: self.last_update }
    }
}

/// Expiring per-resource record of the IDs confirmed to exist.
pub struct FoundLedger {
    entries: Vec<LedgerEntry>,
}

/// No resource has two entries.
pub open spec fn resources_unique(v: Seq<EntryView>) -> bool {
    forall|i: int, j: int|
        0 <= i < v.len() && 0 <= j < v.len() && i != j ==> v[i].resource != v[j].resource
}

pub open spec fn has_resource(v: Seq<EntryView>, r: Seq<char>) -> bool {
    exists|i: int| 0 <= i < v.len() && v[i].resource == r
}

/// `id` is recorded as found for resource `r`.
pub open spec fn ledger_contains(v: Seq<EntryView>, r: Seq<char>, id: u32) -> bool {
    exists|i: int| 0 <= i < v.len() && v[i].resource == r && v[i].ids.contains(id)
}

/// The ledger after recording `id` for `r` at time `now`: a new ID joins the
/// resource's set and refreshes its time; a new resource gets an entry of its own.
pub open spec fn record_spec(v: Seq<EntryView>, r: Seq<char>, id: u32, now: u64) -> Seq<EntryView> {
    if has_resource(v, r) {
        let i = choose|i: int| 0 <= i < v.len() && v[i].resource == r;
        if v[i].ids.contains(id) {
            v
        } else {
            v.update(i, EntryView { resource: r, ids: v[i].ids.insert(id), last_update: now })
        }
    } else {
        v.push(EntryView { resource: r, ids: set![id], last_update: now })
    }
}

/// An entry updated less than one retention period before `now`.
pub open spec fn is_recent(e: EntryView, now: u64) -> bool {
    (now as int) < e.last_update as int + CLEANUP_INTERVAL as int
}

/// The ledger after a sweep at `now`: whole entries that went stale are gone.
pub open spec fn sweep_spec(v: Seq<EntryView>, now: u64) -> Seq<EntryView> {
    v.filter(recent_at(now))
}

pub open spec fn recent_at(now: u64) -> spec_fn(EntryView) -> bool {
    |e: EntryView| is_recent(e, now)
}

spec fn entries_view(entries: Seq<LedgerEntry>) -> Seq<EntryView> {
    entries.map_values(|e: LedgerEntry| e.view_entry())
}

impl View for FoundLedger {
    type V = Seq<EntryView>;

    closed spec fn view(&self) -> Seq<EntryView> {
        entries_view(self.entries@)
    }
}

impl FoundLedger {
    #[verifier::type_invariant]
    spec fn wf(&self) -> bool {
        resources_unique(self@)
    }

    pub fn new() -> (r: FoundLedger)
        ensures
            r@ == Seq::<EntryView>::empty(),
    {
        let r = FoundLedger { entries: Vec::new() };
        assert(r@ =~= Seq::<EntryView>::empty());
        r
    }

    /// Number of resources that have an entry.
    pub fn len(&self) -> (r: usize)
        ensures
            r == self@.len(),
    {
        self.entries.len()
    }

    /// Whether `id` is recorded as found for `resource`.
    pub fn contains(&self, resource: &str, id: u32) -> (r: bool)
        ensures
            r == ledger_contains(self@, resource@, id),
    {
        let mut i: usize = 0;
        while i < self.entries.len()
            invariant
                i <= self.entries.len(),
                forall|j: int| 0 <= j < i ==> !(#[trigger] self@[j].resource == resource@ && self@[j].ids.contains(id)),
            decreases self.entries.len() - i,
        {
            if same_text(self.entries[i].resource.as_str(), resource) && self.entries[i].ids.contains(&id) {
                assert(self@[i as int].resource == resource@);
                return true;
            }
            i = i + 1;
        }
        false
    }

    /// Records `id` as found for `resource` at time `now`; returns whether it
    /// was not recorded before.
    pub fn record(&mut self, resource: &str, id: u32, now: u64) -> (r: bool)
        ensures
            final(self)@ == record_spec(old(self)@, resource@, id, now),
            r == !ledger_contains(old(self)@, resource@, id),
            !r ==> final(self)@ == old(self)@,
    {
        proof {
            use_type_invariant(&*self);
        }
        let ghost v = self@;
        let mut entries: Vec<LedgerEntry> = Vec::new();
        std::mem::swap(&mut entries, &mut self.entries);
        let n = entries.len();
        let mut i: usize = 0;
        while i < n
            invariant
                n == entries.len(),
                i <= n,
                entries_view(entries@) == v,
                v == old(self)@,
                resources_unique(v),
                forall|j: int| 0 <= j < i ==> #[trigger] v[j].resource != resource@,
            decreases n - i,
        {
            if same_text(entries[i].resource.as_str(), resource) {
                assert(v[i as int] == entries@[i as int].view_entry());
                assert(v[i as int].resource == resource@);
                assert(has_resource(v, resource@));
                let ghost k = choose|k: int| 0 <= k < v.len() && v[k].resource == resource@;
                assert(k == i);
                if entries[i].ids.contains(&id) {
                    assert(v[i as int].ids.contains(id));
                    assert(ledger_contains(v, resource@, id));
                    assert(record_spec(v, resource@, id, now) == v);
                    self.entries = entries;
                    assert(self@ == v);
                    return false;
                }
                assert(!ledger_contains(v, resource@, id));
                let mut e = LedgerEntry { resource: String::new(), ids: HashSet::new(), last_update: 0 };
                entries.set_and_swap(i, &mut e);
                e.ids.insert(id);
                e.last_update = now;
                entries.set(i, e);
                assert(entries_view(entries@) =~= v.update(i as int, EntryView { resource: resource@, ids: v[i as int].ids.insert(id), last_update: now }));
                self.entries = entries;
                return true;
            }
            i = i + 1;
        }
        assert(!has_resource(v, resource@));
        let mut ids: HashSet<u32> = HashSet::new();
        ids.insert(id);
        assert(ids@ =~= set![id]);
        entries.push(LedgerEntry { resource: String::from_str(resource), ids, last_update: now });
        assert(entries_view(entries@) =~= v.push(EntryView { resource: resource@, ids: set![id], last_update: now }));
        self.entries = entries;
        true
    }

    /// Drops every entry that was not updated within the last retention period.
    pub fn sweep(&mut self, now: u64)
        ensures
            final(self)@ == sweep_spec(old(self)@, now),
    {
        proof {
            use_type_invariant(&*self);
        }
        let ghost v = self@;
        let ghost keep = recent_at(now);
        let mut kept: Vec<LedgerEntry> = Vec::new();
        let mut rest: Vec<LedgerEntry> = Vec::new();
        std::mem::swap(&mut rest, &mut self.entries);
        assert(entries_view(rest@) == v);
        let n = rest.len();
        assert(forall|j: int| 0 <= j < n ==> #[trigger] rest@[j].view_entry() == v[j]);
        let mut i: usize = 0;
        while i < n
            invariant
                n == rest.len(),
                n == v.len(),
                i <= n,
                forall|j: int| i <= j < n ==> #[trigger] rest@[j].view_entry() == v[j],
                resources_unique(v),
                keep == recent_at(now),
                entries_view(kept@) == v.subrange(0, i as int).filter(keep),
                forall|k: int| 0 <= k < kept@.len() ==> exists|j: int| 0 <= j < i && #[trigger] kept@[k].view_entry() == v[j],
                resources_unique(entries_view(kept@)),
            decreases n - i,
        {
            let mut e = LedgerEntry { resource: String::new(), ids: HashSet::new(), last_update: 0 };
            rest.set_and_swap(i, &mut e);
            assert(v[i as int] == e.view_entry());
            let ghost kv = entries_view(kept@);
            assert(v.subrange(0, i as int + 1).drop_last() =~= v.subrange(0, i as int));
            assert(v.subrange(0, i as int + 1).last() == v[i as int]);
            proof {
                reveal(Seq::filter);
            }
            if now <= e.last_update || now - e.last_update < CLEANUP_INTERVAL {
                let last_update = e.last_update;
                kept.push(e);
                assert(v[i as int].last_update == last_update);
                assert(is_recent(v[i as int], now));
                assert(keep(v[i as int]));
                assert(v.subrange(0, i as int + 1).filter(keep) == kv.push(v[i as int]));
                assert(entries_view(kept@) =~= kv.push(v[i as int]));
                assert forall|k: int| 0 <= k < kept@.len() implies exists|j: int| 0 <= j < i + 1 && #[trigger] kept@[k].view_entry() == v[j] by {
                    if k < kept@.len() - 1 {
                        assert(kv[k] == kept@[k].view_entry());
                    } else {
                        assert(kept@[k].view_entry() == v[i as int]);
                    }
                };
                assert forall|a: int, b: int| 0 <= a < kept@.len() && 0 <= b < kept@.len() && a != b implies
                    kept@[a].view_entry().resource != kept@[b].view_entry().resource by {
                    if a == kept@.len() - 1 {
                        let j = choose|j: int| 0 <= j < i && kv[b] == v[j];
                        assert(kv[b] == kept@[b].view_entry());
                    } else if b == kept@.len() - 1 {
                        let j = choose|j: int| 0 <= j < i && kv[a] == v[j];
                        assert(kv[a] == kept@[a].view_entry());
                    } else {
                        assert(kv[a] == kept@[a].view_entry());
                        assert(kv[b] == kept@[b].view_entry());
                    }
                };
            } else {
                assert(v[i as int].last_update == e.last_update);
                assert(!is_recent(v[i as int], now));
                assert(!keep(v[i as int]));
                assert(v.subrange(0, i as int + 1).filter(keep) == kv);
            }
            i = i + 1;
        }
        assert(v.subrange(0, n as int) =~= v);
        self.entries = kept;
    }
}

} // verus!
