//! Matching of attested workloads to registration entries.
use vstd::prelude::*;

use crate::core_objects::{AttestationConfig, RegistrationEntry};
use crate::text::contains_text;

verus! {

/// The number of entries the matcher asks the catalog for per page.
pub const PAGE_SIZE: usize = 100;

/// Every selector an entry lists is among the presented selectors.
pub open spec fn selectors_cover(entry_selectors: Seq<Seq<char>>, selectors: Seq<Seq<char>>) -> bool {
    forall|i: int| 0 <= i < entry_selectors.len() ==> selectors.contains(#[trigger] entry_selectors[i])
}

/// Decides whether every selector an entry lists is among the presented ones.
pub fn match_selectors(entry_selectors: &Vec<String>, selectors: &Vec<String>) -> (r: bool)
    ensures
        r == selectors_cover(entry_selectors.deep_view(), selectors.deep_view()),
{
    let mut i: usize = 0;
    while i < entry_selectors.len()
        invariant
            i <= entry_selectors.len(),
            forall|j: int| 0 <= j < i ==> selectors.deep_view().contains(#[trigger] entry_selectors.deep_view()[j]),
        decreases entry_selectors.len() - i,
    {
        if !contains_text(selectors, &entry_selectors[i]) {
            assert(!selectors.deep_view().contains(entry_selectors.deep_view()[i as int]));
            return false;
        }
        i = i + 1;
    }
    true
}

/// The id of the parent entry to look up before matching: only workload entries have one.
pub fn parent_id_of(entry: &RegistrationEntry) -> (r: Option<&String>)
    ensures
        r is Some <==> entry.attestation_config is Workload,
        r matches Some(id) ==> (entry.attestation_config matches AttestationConfig::Workload(w) && *id == w.parent_id),
{
    match &entry.attestation_config {
        AttestationConfig::Workload(w) => Some(&w.parent_id),
        AttestationConfig::Node(_) => None,
    }
}

/// A workload entry whose parent is a node entry matches when the workload presents all of the
/// entry's selectors and its node presents all of the parent's selectors; anything else does
/// not match.
pub open spec fn entry_matches(
    workload_selectors: Seq<Seq<char>>,
    entry: RegistrationEntry,
    parent_entry: RegistrationEntry,
    parent_selectors: Seq<Seq<char>>,
) -> bool {
    match (entry.attestation_config, parent_entry.attestation_config) {
        (AttestationConfig::Workload(w), AttestationConfig::Node(n)) => selectors_cover(
            w.value.deep_view(),
            workload_selectors,
        ) && selectors_cover(n.value.deep_view(), parent_selectors),
        _ => false,
    }
}

/// Decides whether an entry matches a workload and the node it runs on, given the entry's
/// parent entry.
pub fn match_entry(
    workload_selectors: &Vec<String>,
    entry: &RegistrationEntry,
    parent_entry: &RegistrationEntry,
    parent_selectors: &Vec<String>,
) -> (r: bool)
    ensures
        r == entry_matches(workload_selectors.deep_view(), *entry, *parent_entry, parent_selectors.deep_view()),
{
    match (&entry.attestation_config, &parent_entry.attestation_config) {
        (AttestationConfig::Workload(w), AttestationConfig::Node(n)) => {
            let workload_ok = match_selectors(&w.value, workload_selectors);
            let node_ok = match_selectors(&n.value, parent_selectors);
            workload_ok && node_ok
        },
        _ => false,
    }
}

/// Presenting more selectors never loses a match: an entry that matches a workload and node
/// also matches when they present further selectors.
pub proof fn lemma_extra_selectors_keep_match(
    workload_selectors: Seq<Seq<char>>,
    more_workload_selectors: Seq<Seq<char>>,
    entry: RegistrationEntry,
    parent_entry: RegistrationEntry,
    parent_selectors: Seq<Seq<char>>,
    more_parent_selectors: Seq<Seq<char>>,
)
    requires
        entry_matches(workload_selectors, entry, parent_entry, parent_selectors),
        forall|s: Seq<char>| workload_selectors.contains(s) ==> #[trigger] more_workload_selectors.contains(s),
        forall|s: Seq<char>| parent_selectors.contains(s) ==> #[trigger] more_parent_selectors.contains(s),
    ensures
        entry_matches(more_workload_selectors, entry, parent_entry, more_parent_selectors),
{
}

/// A selector that an entry lists, at any position, and that is not among the presented
/// selectors rules the cover out.
pub proof fn lemma_missing_selector_breaks_cover(
    entry_selectors: Seq<Seq<char>>,
    selectors: Seq<Seq<char>>,
    k: int,
)
    requires
        0 <= k < entry_selectors.len(),
        !selectors.contains(entry_selectors[k]),
    ensures
        !selectors_cover(entry_selectors, selectors),
{
    assert(entry_selectors[k] == entry_selectors[k]);
}

/// An entry's selectors are covered exactly when the set of selectors it lists is a subset of
/// the set presented: neither the order nor the repetition of either list matters.
pub proof fn lemma_cover_is_subset(entry_selectors: Seq<Seq<char>>, selectors: Seq<Seq<char>>)
    ensures
        selectors_cover(entry_selectors, selectors) <==> entry_selectors.to_set().subset_of(
            selectors.to_set(),
        ),
{
    if selectors_cover(entry_selectors, selectors) {
        assert forall|x: Seq<char>| #[trigger] entry_selectors.to_set().contains(x) implies selectors.to_set().contains(x) by {
            let i = choose|i: int| 0 <= i < entry_selectors.len() && entry_selectors[i] == x;
            assert(selectors.contains(entry_selectors[i]));
        }
    }
    if entry_selectors.to_set().subset_of(selectors.to_set()) {
        assert forall|i: int| 0 <= i < entry_selectors.len() implies selectors.contains(#[trigger] entry_selectors[i]) by {
            assert(entry_selectors.contains(entry_selectors[i]));
            assert(entry_selectors.to_set().contains(entry_selectors[i]));
        }
    }
}

/// A workload entry does not match a workload that lacks one of the entry's selectors,
/// whichever position the selector has in the entry, nor a node that lacks one of the parent
/// entry's selectors.
pub proof fn lemma_missing_selector_no_match(
    workload_selectors: Seq<Seq<char>>,
    entry: RegistrationEntry,
    parent_entry: RegistrationEntry,
    parent_selectors: Seq<Seq<char>>,
    k: int,
)
    requires
        ({
            ||| entry.attestation_config matches AttestationConfig::Workload(w) && 0 <= k
                < w.value.deep_view().len() && !workload_selectors.contains(w.value.deep_view()[k])
            ||| parent_entry.attestation_config matches AttestationConfig::Node(n) && 0 <= k
                < n.value.deep_view().len() && !parent_selectors.contains(n.value.deep_view()[k])
        }),
    ensures
        !entry_matches(workload_selectors, entry, parent_entry, parent_selectors),
{
    match (entry.attestation_config, parent_entry.attestation_config) {
        (AttestationConfig::Workload(w), AttestationConfig::Node(n)) => {
            if 0 <= k < w.value.deep_view().len() && !workload_selectors.contains(w.value.deep_view()[k]) {
                lemma_missing_selector_breaks_cover(w.value.deep_view(), workload_selectors, k);
            } else {
                lemma_missing_selector_breaks_cover(n.value.deep_view(), parent_selectors, k);
            }
        },
        _ => {},
    }
}

/// A workload entry whose parent is a node entry matches when every selector the entry lists
/// is presented by the workload and every selector the parent lists is presented by the node.
pub proof fn lemma_all_selectors_present_match(
    workload_selectors: Seq<Seq<char>>,
    entry: RegistrationEntry,
    parent_entry: RegistrationEntry,
    parent_selectors: Seq<Seq<char>>,
)
    requires
        entry.attestation_config is Workload,
        parent_entry.attestation_config is Node,
        forall|s: Seq<char>| #[trigger] entry.attestation_config->Workload_0.value.deep_view().contains(s)
            ==> workload_selectors.contains(s),
        forall|s: Seq<char>| #[trigger] parent_entry.attestation_config->Node_0.value.deep_view().contains(s)
            ==> parent_selectors.contains(s),
    ensures
        entry_matches(workload_selectors, entry, parent_entry, parent_selectors),
{
    let e = entry.attestation_config->Workload_0.value.deep_view();
    let p = parent_entry.attestation_config->Node_0.value.deep_view();
    assert forall|i: int| 0 <= i < e.len() implies workload_selectors.contains(#[trigger] e[i]) by {
        assert(e.contains(e[i]));
    }
    assert forall|i: int| 0 <= i < p.len() implies parent_selectors.contains(#[trigger] p[i]) by {
        assert(p.contains(p[i]));
    }
}

} // verus!
