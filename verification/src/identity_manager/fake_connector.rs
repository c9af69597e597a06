//! An in-memory stand-in for the SPIFFE server's entry API, which records what it was asked.
use vstd::prelude::*;

use crate::core_objects::{RegistrationEntry, RegistrationEntryView};
use crate::text::contains_text;

verus! {

/// A connector that holds the server's entries in memory.
pub struct SpiffeFakeConnector {
    pub current_identities: Vec<RegistrationEntry>,
    pub added_identities: Vec<RegistrationEntry>,
    pub removed_identities: Vec<String>,
}

/// The entries whose id is not among the given ids.
pub open spec fn without_ids(entries: Seq<RegistrationEntryView>, ids: Seq<Seq<char>>) -> Seq<RegistrationEntryView> {
    entries.filter(|e: RegistrationEntryView| !ids.contains(e.id))
}

impl SpiffeFakeConnector {
    /// A connector with no entries.
    pub fn new() -> (r: Self)
        ensures
            r.current_identities@.len() == 0,
            r.added_identities@.len() == 0,
            r.removed_identities@.len() == 0,
    {
        SpiffeFakeConnector {
            current_identities: Vec::new(),
            added_identities: Vec::new(),
            removed_identities: Vec::new(),
        }
    }

    /// A connector holding the given entries.
    pub fn with_identities(current_identities: Vec<RegistrationEntry>) -> (r: Self)
        ensures
            r.current_identities@ == current_identities@,
            r.added_identities@.len() == 0,
            r.removed_identities@.len() == 0,
    {
        SpiffeFakeConnector { current_identities, added_identities: Vec::new(), removed_identities: Vec::new() }
    }

    /// The entries the server holds.
    pub fn get_identities(&self) -> (r: Vec<RegistrationEntry>)
        ensures
            r.deep_view() == self.current_identities.deep_view(),
    {
        let r = self.current_identities.clone();
        assert(r.deep_view() =~= self.current_identities.deep_view());
        r
    }

    /// Creates entries: they are appended to the server's entries, in order.
    pub fn create_identities(&mut self, identities_to_create: Vec<RegistrationEntry>)
        ensures
            final(self).current_identities.deep_view() == old(self).current_identities.deep_view() + identities_to_create.deep_view(),
            final(self).added_identities.deep_view() == old(self).added_identities.deep_view() + identities_to_create.deep_view(),
            final(self).removed_identities@ == old(self).removed_identities@,
    {
        let ghost cur = self.current_identities.deep_view();
        let ghost add = self.added_identities.deep_view();
        let mut i: usize = 0;
        while i < identities_to_create.len()
            invariant
                i <= identities_to_create.len(),
                self.current_identities.deep_view() == cur + identities_to_create.deep_view().take(i as int),
                self.added_identities.deep_view() == add + identities_to_create.deep_view().take(i as int),
                self.removed_identities@ == old(self).removed_identities@,
            decreases identities_to_create.len() - i,
        {
            let identity = identities_to_create[i].clone();
            let copy = identity.clone();
            let ghost c0 = self.current_identities.deep_view();
            let ghost a0 = self.added_identities.deep_view();
            self.current_identities.push(copy);
            self.added_identities.push(identity);
            assert(self.current_identities.deep_view() =~= c0.push(identities_to_create@[i as int]@));
            assert(self.added_identities.deep_view() =~= a0.push(identities_to_create@[i as int]@));
            assert(identities_to_create.deep_view().take(i + 1) =~= identities_to_create.deep_view().take(i as int).push(identities_to_create@[i as int]@));
            assert(self.current_identities.deep_view() =~= cur + identities_to_create.deep_view().take(i + 1));
            assert(self.added_identities.deep_view() =~= add + identities_to_create.deep_view().take(i + 1));
            i = i + 1;
        }
        assert(identities_to_create.deep_view().take(identities_to_create.len() as int) =~= identities_to_create.deep_view());
    }

    /// Deletes the entries with the given ids; the ids are recorded as removed.
    pub fn delete_identities(&mut self, identities_to_delete: Vec<String>)
        ensures
            final(self).current_identities.deep_view() == without_ids(old(self).current_identities.deep_view(), identities_to_delete.deep_view()),
            final(self).removed_identities.deep_view() == old(self).removed_identities.deep_view() + identities_to_delete.deep_view(),
            final(self).added_identities@ == old(self).added_identities@,
    {
        let ghost cur = self.current_identities.deep_view();
        let ghost ids = identities_to_delete.deep_view();
        let mut kept: Vec<RegistrationEntry> = Vec::new();
        let mut i: usize = 0;
        while i < self.current_identities.len()
            invariant
                i <= self.current_identities.len(),
                cur == self.current_identities.deep_view(),
                ids == identities_to_delete.deep_view(),
                kept.deep_view() == without_ids(cur.take(i as int), ids),
            decreases self.current_identities.len() - i,
        {
            let ghost k0 = kept.deep_view();
            assert(cur.take(i + 1) =~= cur.take(i as int).push(cur[i as int]));
            proof {
                cur.take(i as int).lemma_filter_push(cur[i as int], |e: RegistrationEntryView| !ids.contains(e.id));
            }
            if !contains_text(&identities_to_delete, &self.current_identities[i].id) {
                let e = self.current_identities[i].clone();
                kept.push(e);
                assert(kept.deep_view() =~= k0.push(cur[i as int]));
            }
            i = i + 1;
        }
        assert(cur.take(cur.len() as int) =~= cur);
        self.current_identities = kept;
        let ghost r0 = self.removed_identities.deep_view();
        let mut j: usize = 0;
        while j < identities_to_delete.len()
            invariant
                j <= identities_to_delete.len(),
                self.removed_identities.deep_view() == r0 + ids.take(j as int),
                ids == identities_to_delete.deep_view(),
                self.current_identities.deep_view() == without_ids(cur, ids),
                self.added_identities@ == old(self).added_identities@,
            decreases identities_to_delete.len() - j,
        {
            let ghost p = self.removed_identities.deep_view();
            self.removed_identities.push(identities_to_delete[j].clone());
            assert(self.removed_identities.deep_view() =~= p.push(ids[j as int]));
            assert(ids.take(j + 1) =~= ids.take(j as int).push(ids[j as int]));
            assert(self.removed_identities.deep_view() =~= r0 + ids.take(j + 1));
            j = j + 1;
        }
        assert(ids.take(ids.len() as int) =~= ids);
    }
}

} // verus!
