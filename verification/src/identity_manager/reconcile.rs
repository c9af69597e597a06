//! Reconciliation of the server's registration entries with the configured ones.
use vstd::prelude::*;

use crate::core_objects::{
    AttestationConfig, IdentityTypes, RegistrationEntry, RegistrationEntryView, SPIFFEID,
    same_identities,
};

verus! {

/// A configured entry is written differently from the server's entry: the id, the SPIFFE id,
/// the other identities or the attestation differ.
pub open spec fn differs(config: RegistrationEntryView, actual: RegistrationEntryView) -> bool {
    !(config.id == actual.id && config.spiffe_id == actual.spiffe_id && config.other_identities
        == actual.other_identities && config.attestation_config == actual.attestation_config)
}

/// Decides whether the server's entry must be rewritten to match the configured one.
pub fn should_modify_entry(config_entry: &RegistrationEntry, actual_entry: &RegistrationEntry) -> (r:
    bool)
    ensures
        r == differs(config_entry@, actual_entry@),
{
    !(actual_entry.id == config_entry.id && actual_entry.spiffe_id.trust_domain
        == config_entry.spiffe_id.trust_domain && actual_entry.spiffe_id.path
        == config_entry.spiffe_id.path && same_identities(
        &actual_entry.other_identities,
        &config_entry.other_identities,
    ) && actual_entry.attestation_config.same_as(&config_entry.attestation_config))
}

/// The position of the first entry with the given id, or -1.
pub open spec fn find_id(m: Seq<RegistrationEntryView>, id: Seq<char>) -> int
    decreases m.len(),
{
    if m.len() == 0 {
        -1
    } else if m[0].id == id {
        0
    } else {
        let k = find_id(m.drop_first(), id);
        if k < 0 {
            -1
        } else {
            k + 1
        }
    }
}

/// The entries keyed by id, as collecting them into a map does: a later entry with an id
/// replaces the earlier one in its place.
pub open spec fn collect_by_id(entries: Seq<RegistrationEntryView>) -> Seq<RegistrationEntryView>
    decreases entries.len(),
{
    if entries.len() == 0 {
        Seq::empty()
    } else {
        let m = collect_by_id(entries.drop_last());
        let e = entries.last();
        let k = find_id(m, e.id);
        if k >= 0 {
            m.update(k, e)
        } else {
            m.push(e)
        }
    }
}

/// What reconciliation has decided after some configured entries.
pub struct PlanState {
    pub remaining: Seq<RegistrationEntryView>,
    pub to_delete: Seq<Seq<char>>,
    pub to_add: Seq<RegistrationEntryView>,
}

/// A configured entry with the revision that follows the server's.
pub open spec fn bumped(config: RegistrationEntryView, actual: RegistrationEntryView) -> RegistrationEntryView {
    RegistrationEntryView { revision_number: (actual.revision_number + 1) as u64, ..config }
}

/// One configured entry: an entry the server lacks is added; one the server has is taken out of
/// the remaining entries and, if it differs, deleted and added again with the next revision.
pub open spec fn plan_step(s: PlanState, d: RegistrationEntryView) -> PlanState {
    let k = find_id(s.remaining, d.id);
    if k >= 0 {
        let actual = s.remaining[k];
        let remaining = s.remaining.remove(k);
        if differs(d, actual) {
            PlanState {
                remaining,
                to_delete: s.to_delete.push(d.id),
                to_add: s.to_add.push(bumped(d, actual)),
            }
        } else {
            PlanState { remaining, ..s }
        }
    } else {
        PlanState { to_add: s.to_add.push(d), ..s }
    }
}

/// The decisions for the configured entries, in order, starting from the server's entries.
pub open spec fn plan_fold(desired: Seq<RegistrationEntryView>, existing: Seq<RegistrationEntryView>) -> PlanState
    decreases desired.len(),
{
    if desired.len() == 0 {
        PlanState { remaining: collect_by_id(existing), to_delete: Seq::empty(), to_add: Seq::empty() }
    } else {
        plan_step(plan_fold(desired.drop_last(), existing), desired.last())
    }
}

/// The ids to delete: those of the entries that differ, then those of the server's entries that
/// the configuration does not name.
pub open spec fn planned_deletes(desired: Seq<RegistrationEntryView>, existing: Seq<RegistrationEntryView>) -> Seq<Seq<char>> {
    let s = plan_fold(desired, existing);
    s.to_delete + s.remaining.map_values(|e: RegistrationEntryView| e.id)
}

/// The entries to create.
pub open spec fn planned_adds(desired: Seq<RegistrationEntryView>, existing: Seq<RegistrationEntryView>) -> Seq<RegistrationEntryView> {
    plan_fold(desired, existing).to_add
}

/// Every configured entry that is the first with its id and differs from the server's entry
/// with that id names a server entry whose revision can still be incremented. (A later
/// configured entry with the same id finds no server entry left, so no revision is incremented
/// for it.)
pub open spec fn modified_revisions_bounded(
    desired: Seq<RegistrationEntryView>,
    existing: Seq<RegistrationEntryView>,
) -> bool {
    let c = collect_by_id(existing);
    forall|j: int|
        0 <= j < desired.len() && has_id(c, (#[trigger] desired[j]).id) && (forall|i: int|
            0 <= i < j ==> desired[i].id != desired[j].id) && differs(
            desired[j],
            c[find_id(c, desired[j].id)],
        ) ==> c[find_id(c, desired[j].id)].revision_number < u64::MAX
}

/// What to change on the server: ids to delete, then entries to create.
pub struct ReconcilePlan {
    pub entries_to_delete: Vec<String>,
    pub entries_to_add: Vec<RegistrationEntry>,
}

fn find_entry(m: &Vec<RegistrationEntry>, id: &String) -> (r: Option<usize>)
    ensures
        r is None <==> find_id(m.deep_view(), id@) < 0,
        r matches Some(k) ==> k == find_id(m.deep_view(), id@),
{
    let mut i: usize = 0;
    proof {
        lemma_find_id_bounds(m.deep_view(), id@);
    }
    assert(m.deep_view().skip(0) =~= m.deep_view());
    while i < m.len()
        invariant
            i <= m.len(),
            find_id(m.deep_view(), id@) == (if find_id(m.deep_view().skip(i as int), id@) < 0 {
                -1
            } else {
                find_id(m.deep_view().skip(i as int), id@) + i
            }),
        decreases m.len() - i,
    {
        assert(m.deep_view().skip(i as int).drop_first() =~= m.deep_view().skip(i + 1));
        assert(m.deep_view().skip(i as int)[0] == m@[i as int]@);
        if m[i].id == *id {
            return Some(i);
        }
        i = i + 1;
    }
    None
}

proof fn lemma_find_id_bounds(m: Seq<RegistrationEntryView>, id: Seq<char>)
    ensures
        -1 <= find_id(m, id) < m.len(),
        find_id(m, id) >= 0 ==> m[find_id(m, id)].id == id,
        find_id(m, id) < 0 ==> forall|i: int| 0 <= i < m.len() ==> (#[trigger] m[i]).id != id,
        forall|i: int| 0 <= i < find_id(m, id) ==> (#[trigger] m[i]).id != id,
    decreases m.len(),
{
    if m.len() > 0 {
        lemma_find_id_bounds(m.drop_first(), id);
        assert forall|i: int| 0 < i < m.len() implies #[trigger] m[i] == m.drop_first()[i - 1] by {}
    }
}

/// Decides what to change on the server so that its entries match the configured ones.
/// Configured entries are taken in order (see [`plan_step`]); the server's entries that no
/// configured entry names are deleted.
pub fn plan_reconcile(desired: &Vec<RegistrationEntry>, existing: &Vec<RegistrationEntry>) -> (r:
    ReconcilePlan)
    requires
        modified_revisions_bounded(desired.deep_view(), existing.deep_view()),
    ensures
        r.entries_to_delete.deep_view() == planned_deletes(desired.deep_view(), existing.deep_view()),
        r.entries_to_add.deep_view() == planned_adds(desired.deep_view(), existing.deep_view()),
{
    let ghost ex = existing.deep_view();
    let ghost de = desired.deep_view();
    let mut remaining: Vec<RegistrationEntry> = Vec::new();
    let mut i: usize = 0;
    assert(ex.take(0) =~= Seq::<RegistrationEntryView>::empty());
    assert(remaining.deep_view() =~= collect_by_id(ex.take(0)));
    while i < existing.len()
        invariant
            i <= existing.len(),
            ex == existing.deep_view(),
            remaining.deep_view() == collect_by_id(ex.take(i as int)),
        decreases existing.len() - i,
    {
        let e = existing[i].clone();
        assert(ex.take(i + 1).drop_last() =~= ex.take(i as int));
        assert(ex.take(i + 1).last() == e@);
        proof {
            lemma_find_id_bounds(remaining.deep_view(), e.id@);
        }
        match find_entry(&remaining, &e.id) {
            Some(k) => {
                let ghost before = remaining.deep_view();
                remaining.set(k, e);
                assert(remaining.deep_view() =~= before.update(k as int, ex.take(i + 1).last()));
            },
            None => {
                let ghost before = remaining.deep_view();
                remaining.push(e);
                assert(remaining.deep_view() =~= before.push(ex.take(i + 1).last()));
            },
        }
        i = i + 1;
    }
    assert(ex.take(existing.len() as int) =~= ex);
    proof {
        lemma_collect_props(ex);
    }
    let mut to_delete: Vec<String> = Vec::new();
    let mut to_add: Vec<RegistrationEntry> = Vec::new();
    let mut j: usize = 0;
    assert(de.take(0) =~= Seq::<RegistrationEntryView>::empty());
    while j < desired.len()
        invariant
            j <= desired.len(),
            de == desired.deep_view(),
            modified_revisions_bounded(de, ex),
            distinct_ids(collect_by_id(ex)),
            distinct_ids(remaining.deep_view()),
            forall|e: RegistrationEntryView| #[trigger] remaining.deep_view().contains(e) ==> collect_by_id(ex).contains(e),
            forall|e: RegistrationEntryView, i: int| #[trigger] remaining.deep_view().contains(e) && 0 <= i < j ==> #[trigger] de[i].id != e.id,
            remaining.deep_view() == plan_fold(de.take(j as int), ex).remaining,
            to_delete.deep_view() == plan_fold(de.take(j as int), ex).to_delete,
            to_add.deep_view() == plan_fold(de.take(j as int), ex).to_add,
        decreases desired.len() - j,
    {
        let mut config_entry = desired[j].clone();
        assert(de.take(j + 1).drop_last() =~= de.take(j as int));
        assert(de.take(j + 1).last() == config_entry@);
        proof {
            lemma_find_id_bounds(remaining.deep_view(), config_entry.id@);
        }
        match find_entry(&remaining, &config_entry.id) {
            Some(k) => {
                let ghost before = remaining.deep_view();
                let actual_entry = remaining.remove(k);
                assert(remaining.deep_view() =~= before.remove(k as int));
                assert(actual_entry@ == before[k as int]);
                proof {
                    let c = collect_by_id(ex);
                    let id = de[j as int].id;
                    assert(before.contains(actual_entry@));
                    assert(c.contains(actual_entry@));
                    let t = choose|t: int| 0 <= t < c.len() && c[t] == actual_entry@;
                    assert(c[t].id == id);
                    assert(has_id(c, id));
                    lemma_find_id_bounds(c, id);
                    let ca = c[find_id(c, id)];
                    assert(c.contains(ca));
                    lemma_unique_by_id(c, actual_entry@, ca);
                    assert forall|i: int| 0 <= i < j implies de[i].id != de[j as int].id by {
                        assert(before.contains(actual_entry@));
                    }
                    let rem = remaining.deep_view();
                    assert forall|a: int, b: int| 0 <= a < rem.len() && 0 <= b < rem.len() && a != b implies (#[trigger] rem[a]).id != (#[trigger] rem[b]).id by {
                        let aa = if a < k { a } else { a + 1 };
                        let bb = if b < k { b } else { b + 1 };
                        assert(rem[a] == before[aa]);
                        assert(rem[b] == before[bb]);
                    }
                    assert forall|e: RegistrationEntryView| #[trigger] rem.contains(e) implies before.contains(e) && e.id != id by {
                        let a = choose|a: int| 0 <= a < rem.len() && rem[a] == e;
                        let aa = if a < k { a } else { a + 1 };
                        assert(rem[a] == before[aa]);
                        assert(before[k as int].id == id);
                    }
                }
                if should_modify_entry(&config_entry, &actual_entry) {
                    config_entry.revision_number = actual_entry.revision_number + 1;
                    to_delete.push(config_entry.id.clone());
                    to_add.push(config_entry);
                } else {
                }
            },
            None => {
                to_add.push(config_entry);
            },
        }
        assert forall|e: RegistrationEntryView, i: int| #[trigger] remaining.deep_view().contains(e) && 0 <= i < j + 1 implies #[trigger] de[i].id != e.id by {
            if i == j {
                lemma_find_id_bounds(remaining.deep_view(), de[j as int].id);
            }
        }
        assert(to_delete.deep_view() =~= plan_fold(de.take(j + 1), ex).to_delete);
        assert(to_add.deep_view() =~= plan_fold(de.take(j + 1), ex).to_add);
        j = j + 1;
    }
    assert(de.take(desired.len() as int) =~= de);
    let ghost folded = to_delete.deep_view();
    let mut q: usize = 0;
    while q < remaining.len()
        invariant
            q <= remaining.len(),
            to_delete.deep_view() == folded + remaining.deep_view().take(q as int).map_values(
                |e: RegistrationEntryView| e.id,
            ),
        decreases remaining.len() - q,
    {
        let ghost prev = to_delete.deep_view();
        to_delete.push(remaining[q].id.clone());
        assert(to_delete.deep_view() =~= prev.push(remaining@[q as int].id@));
        assert(remaining.deep_view().take(q + 1).map_values(|e: RegistrationEntryView| e.id)
            =~= remaining.deep_view().take(q as int).map_values(|e: RegistrationEntryView| e.id).push(remaining@[q as int].id@));
        assert(to_delete.deep_view() =~= folded + remaining.deep_view().take(q + 1).map_values(
            |e: RegistrationEntryView| e.id,
        ));
        q = q + 1;
    }
    assert(remaining.deep_view().take(remaining.len() as int) =~= remaining.deep_view());
    ReconcilePlan { entries_to_delete: to_delete, entries_to_add: to_add }
}


/// Some entry of the list has the given id.
pub open spec fn has_id(s: Seq<RegistrationEntryView>, id: Seq<char>) -> bool {
    exists|i: int| 0 <= i < s.len() && (#[trigger] s[i]).id == id
}

/// No two entries of the list share an id.
pub open spec fn distinct_ids(s: Seq<RegistrationEntryView>) -> bool {
    forall|i: int, j: int| 0 <= i < s.len() && 0 <= j < s.len() && i != j ==> (#[trigger] s[i]).id != (#[trigger] s[j]).id
}

/// The entries the server holds after it deletes the entries with the given ids and then
/// creates the given entries.
pub open spec fn apply_plan(
    current: Seq<RegistrationEntryView>,
    deletes: Seq<Seq<char>>,
    adds: Seq<RegistrationEntryView>,
) -> Seq<RegistrationEntryView> {
    current.filter(|e: RegistrationEntryView| !deletes.contains(e.id)) + adds
}

proof fn lemma_collect_props(existing: Seq<RegistrationEntryView>)
    ensures
        distinct_ids(collect_by_id(existing)),
        forall|e: RegistrationEntryView| #[trigger] collect_by_id(existing).contains(e) ==> existing.contains(e),
        forall|id: Seq<char>| #[trigger] has_id(collect_by_id(existing), id) <==> has_id(existing, id),
    decreases existing.len(),
{
    if existing.len() > 0 {
        let pre = existing.drop_last();
        let m = collect_by_id(pre);
        let e = existing.last();
        lemma_collect_props(pre);
        lemma_find_id_bounds(m, e.id);
        let c = collect_by_id(existing);
        let k = find_id(m, e.id);
        assert forall|x: RegistrationEntryView| #[trigger] c.contains(x) implies existing.contains(x) by {
            let t = choose|t: int| 0 <= t < c.len() && c[t] == x;
            if x == e {
                assert(existing[existing.len() - 1] == e);
            } else {
                assert(m[t] == x);
                assert(m.contains(x));
                assert(pre.contains(x));
                let u = choose|u: int| 0 <= u < pre.len() && pre[u] == x;
                assert(existing[u] == x);
            }
        }
        assert forall|id: Seq<char>| #[trigger] has_id(c, id) <==> has_id(existing, id) by {
            if has_id(c, id) {
                let t = choose|t: int| 0 <= t < c.len() && (#[trigger] c[t]).id == id;
                if c[t] == e {
                    assert(existing[existing.len() - 1].id == id);
                } else {
                    assert(m[t].id == id);
                    assert(has_id(m, id));
                    let u = choose|u: int| 0 <= u < pre.len() && (#[trigger] pre[u]).id == id;
                    assert(existing[u].id == id);
                }
            }
            if has_id(existing, id) {
                let u = choose|u: int| 0 <= u < existing.len() && (#[trigger] existing[u]).id == id;
                if u == existing.len() - 1 {
                    if k >= 0 {
                        assert(c[k].id == id);
                    } else {
                        assert(c[m.len() as int].id == id);
                    }
                } else {
                    assert(pre[u].id == id);
                    assert(has_id(pre, id));
                    assert(has_id(m, id));
                    let t = choose|t: int| 0 <= t < m.len() && (#[trigger] m[t]).id == id;
                    if k >= 0 && t == k {
                        assert(c[k].id == id);
                    } else {
                        assert(c[t].id == id);
                    }
                }
            }
        }
    }
}

/// `s` has the element `x` with an id at a position where the ids are distinct: it is the only
/// element with that id.
proof fn lemma_unique_by_id(s: Seq<RegistrationEntryView>, x: RegistrationEntryView, y: RegistrationEntryView)
    requires
        distinct_ids(s),
        s.contains(x),
        s.contains(y),
        x.id == y.id,
    ensures
        x == y,
{
    let i = choose|i: int| 0 <= i < s.len() && s[i] == x;
    let j = choose|j: int| 0 <= j < s.len() && s[j] == y;
    if i != j {
        assert(s[i].id != s[j].id);
    }
}

/// What the decisions for a prefix of the configured entries (with distinct ids) amount to.
pub open spec fn fold_props(p: Seq<RegistrationEntryView>, existing: Seq<RegistrationEntryView>) -> bool {
    let s = plan_fold(p, existing);
    let c = collect_by_id(existing);
    &&& distinct_ids(s.remaining)
    &&& forall|e: RegistrationEntryView| #[trigger] s.remaining.contains(e) <==> (c.contains(e) && !has_id(p, e.id))
    &&& forall|j: int| 0 <= j < p.len() ==> {
        let id = (#[trigger] p[j]).id;
        if has_id(c, id) {
            let actual = c[find_id(c, id)];
            &&& differs(p[j], actual) ==> s.to_delete.contains(id) && s.to_add.contains(bumped(p[j], actual))
            &&& !differs(p[j], actual) ==> !s.to_delete.contains(id)
        } else {
            s.to_add.contains(p[j])
        }
    }
    &&& forall|id: Seq<char>| #[trigger] s.to_delete.contains(id) ==> has_id(p, id)
    &&& forall|x: RegistrationEntryView| #[trigger] s.to_add.contains(x) ==> exists|j: int| 0 <= j < p.len() && (#[trigger] p[j]).id == x.id && !differs(p[j], x)
}

proof fn lemma_fold_props(p: Seq<RegistrationEntryView>, existing: Seq<RegistrationEntryView>)
    requires
        distinct_ids(p),
    ensures
        fold_props(p, existing),
    decreases p.len(),
{
    let c = collect_by_id(existing);
    lemma_collect_props(existing);
    if p.len() == 0 {
        let s = plan_fold(p, existing);
        assert forall|e: RegistrationEntryView| #[trigger] s.remaining.contains(e) <==> (c.contains(e) && !has_id(p, e.id)) by {}
    } else {
        let q = p.drop_last();
        let d = p.last();
        assert(distinct_ids(q)) by {
            assert forall|i: int, j: int| 0 <= i < q.len() && 0 <= j < q.len() && i != j implies (#[trigger] q[i]).id != (#[trigger] q[j]).id by {
                assert(q[i] == p[i] && q[j] == p[j]);
            }
        }
        lemma_fold_props(q, existing);
        let prev = plan_fold(q, existing);
        let s = plan_fold(p, existing);
        assert(p.drop_last() == q);
        assert(!has_id(q, d.id)) by {
            if has_id(q, d.id) {
                let t = choose|t: int| 0 <= t < q.len() && (#[trigger] q[t]).id == d.id;
                assert(p[t] == q[t]);
                assert(p[p.len() - 1] == d);
            }
        }
        assert forall|id: Seq<char>| has_id(p, id) <==> (has_id(q, id) || id == d.id) by {
            if has_id(p, id) {
                let t = choose|t: int| 0 <= t < p.len() && (#[trigger] p[t]).id == id;
                if t < q.len() {
                    assert(q[t] == p[t]);
                }
            }
            if has_id(q, id) {
                let t = choose|t: int| 0 <= t < q.len() && (#[trigger] q[t]).id == id;
                assert(p[t] == q[t]);
            }
            if id == d.id {
                assert(p[p.len() - 1].id == id);
            }
        }
        let k = find_id(prev.remaining, d.id);
        lemma_find_id_bounds(prev.remaining, d.id);
        lemma_find_id_bounds(c, d.id);
        if k >= 0 {
            let actual = prev.remaining[k];
            assert(prev.remaining.contains(actual));
            assert(c.contains(actual));
            assert(has_id(c, d.id));
            let ca = c[find_id(c, d.id)];
            assert(c.contains(ca));
            lemma_unique_by_id(c, actual, ca);
            let rem = prev.remaining.remove(k);
            assert(distinct_ids(rem)) by {
                assert forall|i: int, j: int| 0 <= i < rem.len() && 0 <= j < rem.len() && i != j implies (#[trigger] rem[i]).id != (#[trigger] rem[j]).id by {
                    let ii = if i < k { i } else { i + 1 };
                    let jj = if j < k { j } else { j + 1 };
                    assert(rem[i] == prev.remaining[ii]);
                    assert(rem[j] == prev.remaining[jj]);
                }
            }
            assert forall|e: RegistrationEntryView| #[trigger] rem.contains(e) <==> (c.contains(e) && !has_id(p, e.id)) by {
                if rem.contains(e) {
                    let t = choose|t: int| 0 <= t < rem.len() && rem[t] == e;
                    let tt = if t < k { t } else { t + 1 };
                    assert(prev.remaining[tt] == e);
                    assert(prev.remaining.contains(e));
                    if e.id == d.id {
                        assert(tt != k);
                        assert(prev.remaining[k].id == d.id);
                    }
                }
                if c.contains(e) && !has_id(p, e.id) {
                    assert(prev.remaining.contains(e));
                    let t = choose|t: int| 0 <= t < prev.remaining.len() && prev.remaining[t] == e;
                    assert(t != k);
                    if t < k {
                        assert(rem[t] == e);
                    } else {
                        assert(rem[t - 1] == e);
                    }
                }
            }
        } else {
            assert(!has_id(c, d.id)) by {
                if has_id(c, d.id) {
                    let ca = c[find_id(c, d.id)];
                    assert(c.contains(ca));
                    assert(prev.remaining.contains(ca));
                    let t = choose|t: int| 0 <= t < prev.remaining.len() && prev.remaining[t] == ca;
                    assert(prev.remaining[t].id == d.id);
                }
            }
        }
        assert forall|j: int| 0 <= j < p.len() implies {
            let id = (#[trigger] p[j]).id;
            if has_id(c, id) {
                let actual = c[find_id(c, id)];
                &&& differs(p[j], actual) ==> s.to_delete.contains(id) && s.to_add.contains(bumped(p[j], actual))
                &&& !differs(p[j], actual) ==> !s.to_delete.contains(id)
            } else {
                s.to_add.contains(p[j])
            }
        } by {
            if j < q.len() {
                assert(p[j] == q[j]);
                assert(p[j].id != d.id) by {
                    assert(has_id(q, q[j].id));
                }
                let id = p[j].id;
                if has_id(c, id) {
                    let actual = c[find_id(c, id)];
                    if differs(p[j], actual) {
                        assert(prev.to_delete.contains(id));
                        assert(prev.to_add.contains(bumped(p[j], actual)));
                        let a = choose|a: int| 0 <= a < prev.to_delete.len() && prev.to_delete[a] == id;
                        assert(s.to_delete[a] == id);
                        let b = choose|b: int| 0 <= b < prev.to_add.len() && prev.to_add[b] == bumped(p[j], actual);
                        assert(s.to_add[b] == bumped(p[j], actual));
                    } else {
                        assert(!prev.to_delete.contains(id));
                        if s.to_delete.contains(id) {
                            let a = choose|a: int| 0 <= a < s.to_delete.len() && s.to_delete[a] == id;
                            if a < prev.to_delete.len() {
                                assert(prev.to_delete[a] == id);
                            }
                        }
                    }
                } else {
                    assert(prev.to_add.contains(p[j]));
                    let b = choose|b: int| 0 <= b < prev.to_add.len() && prev.to_add[b] == p[j];
                    assert(s.to_add[b] == p[j]);
                }
            } else {
                assert(p[j] == d);
                if k >= 0 {
                    if differs(d, prev.remaining[k]) {
                        assert(s.to_delete[s.to_delete.len() - 1] == d.id);
                        assert(s.to_add[s.to_add.len() - 1] == bumped(d, prev.remaining[k]));
                    } else {
                        assert(s.to_delete == prev.to_delete);
                        if prev.to_delete.contains(d.id) {
                            assert(has_id(q, d.id));
                        }
                    }
                } else {
                    assert(s.to_add[s.to_add.len() - 1] == d);
                }
            }
        }
        assert forall|id: Seq<char>| #[trigger] s.to_delete.contains(id) implies has_id(p, id) by {
            let a = choose|a: int| 0 <= a < s.to_delete.len() && s.to_delete[a] == id;
            if a < prev.to_delete.len() {
                assert(prev.to_delete[a] == id);
                assert(prev.to_delete.contains(id));
            }
        }
        assert forall|x: RegistrationEntryView| #[trigger] s.to_add.contains(x) implies exists|j: int| 0 <= j < p.len() && (#[trigger] p[j]).id == x.id && !differs(p[j], x) by {
            let a = choose|a: int| 0 <= a < s.to_add.len() && s.to_add[a] == x;
            if a < prev.to_add.len() {
                assert(prev.to_add[a] == x);
                assert(prev.to_add.contains(x));
                let j = choose|j: int| 0 <= j < q.len() && (#[trigger] q[j]).id == x.id && !differs(q[j], x);
                assert(p[j] == q[j]);
            } else {
                assert(p[p.len() - 1] == d);
            }
        }
    }
}

/// Reconciliation converges: once the server deletes the planned ids and creates the planned
/// entries, every configured entry (ids distinct) is on the server with its configured id,
/// SPIFFE id, other identities and attestation, and the server holds no entry whose id the
/// configuration does not name.
pub proof fn lemma_reconcile_converges(
    desired: Seq<RegistrationEntryView>,
    existing: Seq<RegistrationEntryView>,
)
    requires
        distinct_ids(desired),
    ensures
        ({
            let after = apply_plan(existing, planned_deletes(desired, existing), planned_adds(desired, existing));
            &&& forall|i: int| 0 <= i < desired.len() ==> exists|x: RegistrationEntryView|
                #[trigger] after.contains(x) && x.id == (#[trigger] desired[i]).id && !differs(desired[i], x)
            &&& forall|x: RegistrationEntryView| #[trigger] after.contains(x) ==> has_id(desired, x.id)
        }),
{
    broadcast use vstd::seq_lib::group_filter_ensures;

    lemma_fold_props(desired, existing);
    lemma_collect_props(existing);
    let c = collect_by_id(existing);
    let s = plan_fold(desired, existing);
    let deletes = planned_deletes(desired, existing);
    let adds = planned_adds(desired, existing);
    let pred = |e: RegistrationEntryView| !deletes.contains(e.id);
    let kept = existing.filter(pred);
    let after = apply_plan(existing, deletes, adds);
    assert(after == kept + adds);
    let rem_ids = s.remaining.map_values(|e: RegistrationEntryView| e.id);
    assert(deletes == s.to_delete + rem_ids);
    assert forall|id: Seq<char>| deletes.contains(id) <==> (s.to_delete.contains(id) || rem_ids.contains(id)) by {
        if deletes.contains(id) {
            let a = choose|a: int| 0 <= a < deletes.len() && deletes[a] == id;
            if a < s.to_delete.len() {
                assert(s.to_delete[a] == id);
            } else {
                assert(rem_ids[a - s.to_delete.len()] == id);
            }
        }
        if s.to_delete.contains(id) {
            let a = choose|a: int| 0 <= a < s.to_delete.len() && s.to_delete[a] == id;
            assert(deletes[a] == id);
        }
        if rem_ids.contains(id) {
            let a = choose|a: int| 0 <= a < rem_ids.len() && rem_ids[a] == id;
            assert(deletes[s.to_delete.len() + a] == id);
        }
    }
    assert forall|id: Seq<char>| #[trigger] rem_ids.contains(id) implies !has_id(desired, id) by {
        if rem_ids.contains(id) {
            let a = choose|a: int| 0 <= a < rem_ids.len() && rem_ids[a] == id;
            assert(s.remaining.contains(s.remaining[a]));
        }
    }
    assert forall|x: RegistrationEntryView| #[trigger] adds.contains(x) implies after.contains(x) by {
        if adds.contains(x) {
            let a = choose|a: int| 0 <= a < adds.len() && adds[a] == x;
            assert(after[kept.len() + a] == x);
        }
    }
    assert forall|i: int| 0 <= i < desired.len() implies exists|x: RegistrationEntryView|
        #[trigger] after.contains(x) && x.id == (#[trigger] desired[i]).id && !differs(desired[i], x) by {
        let d = desired[i];
        if has_id(c, d.id) {
            lemma_find_id_bounds(c, d.id);
            let actual = c[find_id(c, d.id)];
            if differs(d, actual) {
                let b = bumped(d, actual);
                assert(adds.contains(b));
                assert(after.contains(b));
            } else {
                assert(c.contains(actual));
                assert(existing.contains(actual));
                assert(!s.to_delete.contains(d.id));
                assert(has_id(desired, d.id));
                assert(!rem_ids.contains(d.id));
                assert(pred(actual));
                let u = choose|u: int| 0 <= u < existing.len() && existing[u] == actual;
                existing.lemma_filter_contains(pred, u);
                assert(kept.contains(actual));
                let a = choose|a: int| 0 <= a < kept.len() && kept[a] == actual;
                assert(after[a] == actual);
                assert(after.contains(actual));
            }
        } else {
            assert(adds.contains(d));
            assert(after.contains(d));
        }
    }
    assert forall|x: RegistrationEntryView| #[trigger] after.contains(x) implies has_id(desired, x.id) by {
        let a = choose|a: int| 0 <= a < after.len() && after[a] == x;
        if a < kept.len() {
            assert(kept[a] == x);
            assert(pred(kept[a]));
            assert(kept.contains(x));
            existing.lemma_filter_contains_rev(pred, x);
            assert(existing.contains(x));
            let u = choose|u: int| 0 <= u < existing.len() && existing[u] == x;
            assert(has_id(existing, x.id));
            assert(has_id(c, x.id));
            let t = choose|t: int| 0 <= t < c.len() && (#[trigger] c[t]).id == x.id;
            if !has_id(desired, x.id) {
                assert(c.contains(c[t]));
                assert(s.remaining.contains(c[t]));
                let r = choose|r: int| 0 <= r < s.remaining.len() && s.remaining[r] == c[t];
                assert(rem_ids[r] == x.id);
                assert(rem_ids.contains(x.id));
                assert(deletes.contains(x.id));
            }
        } else {
            assert(adds[a - kept.len()] == x);
            assert(adds.contains(x));
        }
    }
}


/// A configured entry whose other identities are not those of the server's entry must be
/// rewritten, whatever else they share; the same holds for the id, the SPIFFE id and the
/// attestation.
pub proof fn lemma_field_change_is_modification(config: RegistrationEntryView, actual: RegistrationEntryView)
    ensures
        config.other_identities != actual.other_identities ==> differs(config, actual),
        config.id != actual.id ==> differs(config, actual),
        config.spiffe_id != actual.spiffe_id ==> differs(config, actual),
        config.attestation_config != actual.attestation_config ==> differs(config, actual),
        config.id == actual.id && config.spiffe_id == actual.spiffe_id && config.other_identities
            == actual.other_identities && config.attestation_config == actual.attestation_config
            ==> !differs(config, actual),
{
}

/// After the server deletes the planned ids and creates the planned entries, every configured
/// entry (ids distinct) is on the server with exactly its configured id, SPIFFE id, other
/// identities and attestation.
pub proof fn lemma_reconciled_entries_carry_configured_fields(
    desired: Seq<RegistrationEntryView>,
    existing: Seq<RegistrationEntryView>,
)
    requires
        distinct_ids(desired),
    ensures
        ({
            let after = apply_plan(existing, planned_deletes(desired, existing), planned_adds(desired, existing));
            forall|i: int| 0 <= i < desired.len() ==> exists|x: RegistrationEntryView|
                #[trigger] after.contains(x) && x.id == (#[trigger] desired[i]).id && x.spiffe_id
                    == desired[i].spiffe_id && x.other_identities == desired[i].other_identities
                    && x.attestation_config == desired[i].attestation_config
        }),
{
    lemma_reconcile_converges(desired, existing);
    let after = apply_plan(existing, planned_deletes(desired, existing), planned_adds(desired, existing));
    assert forall|i: int| 0 <= i < desired.len() implies exists|x: RegistrationEntryView|
        #[trigger] after.contains(x) && x.id == (#[trigger] desired[i]).id && x.spiffe_id
            == desired[i].spiffe_id && x.other_identities == desired[i].other_identities
            && x.attestation_config == desired[i].attestation_config by {
        let x = choose|x: RegistrationEntryView| #[trigger] after.contains(x) && x.id == desired[i].id && !differs(desired[i], x);
        lemma_field_change_is_modification(desired[i], x);
        assert(after.contains(x));
    }
}

/// The last entry of the list with the given id, if any.
pub open spec fn last_with_id(s: Seq<RegistrationEntryView>, id: Seq<char>) -> Option<RegistrationEntryView>
    decreases s.len(),
{
    if s.len() == 0 {
        None
    } else if s.last().id == id {
        Some(s.last())
    } else {
        last_with_id(s.drop_last(), id)
    }
}

proof fn lemma_last_with_id(s: Seq<RegistrationEntryView>, id: Seq<char>)
    ensures
        last_with_id(s, id) is Some <==> has_id(s, id),
        last_with_id(s, id) matches Some(y) ==> s.contains(y) && y.id == id,
    decreases s.len(),
{
    if s.len() > 0 {
        let pre = s.drop_last();
        lemma_last_with_id(pre, id);
        if s.last().id == id {
            assert(s[s.len() - 1].id == id);
        } else {
            if has_id(s, id) {
                let t = choose|t: int| 0 <= t < s.len() && (#[trigger] s[t]).id == id;
                assert(pre[t] == s[t]);
            }
            if has_id(pre, id) {
                let t = choose|t: int| 0 <= t < pre.len() && (#[trigger] pre[t]).id == id;
                assert(s[t] == pre[t]);
            }
            if last_with_id(pre, id) is Some {
                let y = last_with_id(pre, id)->0;
                let t = choose|t: int| 0 <= t < pre.len() && pre[t] == y;
                assert(s[t] == y);
            }
        }
    }
}

proof fn lemma_find_id_first(m: Seq<RegistrationEntryView>, id: Seq<char>, k: int)
    requires
        0 <= k < m.len(),
        m[k].id == id,
        forall|t: int| 0 <= t < k ==> (#[trigger] m[t]).id != id,
    ensures
        find_id(m, id) == k,
    decreases k,
{
    if k > 0 {
        let rest = m.drop_first();
        assert(m[0].id != id);
        assert forall|t: int| 0 <= t < k - 1 implies (#[trigger] rest[t]).id != id by {
            assert(rest[t] == m[t + 1]);
        }
        assert(rest[k - 1] == m[k]);
        lemma_find_id_first(rest, id, k - 1);
    }
}

/// Collecting entries by id keeps, for each id, the last entry with that id.
proof fn lemma_collect_last(s: Seq<RegistrationEntryView>, id: Seq<char>)
    requires
        has_id(s, id),
    ensures
        has_id(collect_by_id(s), id),
        find_id(collect_by_id(s), id) >= 0,
        collect_by_id(s)[find_id(collect_by_id(s), id)] == last_with_id(s, id)->0,
    decreases s.len(),
{
    lemma_collect_props(s);
    let c = collect_by_id(s);
    lemma_find_id_bounds(c, id);
    assert(has_id(c, id));
    let tc = choose|t: int| 0 <= t < c.len() && (#[trigger] c[t]).id == id;
    assert(c[tc].id == id);
    let pre = s.drop_last();
    let e = s.last();
    let m = collect_by_id(pre);
    let k = find_id(m, e.id);
    lemma_find_id_bounds(m, e.id);
    if e.id == id {
        if k >= 0 {
            assert forall|t: int| 0 <= t < k implies (#[trigger] c[t]).id != id by {
                assert(c[t] == m[t]);
            }
            lemma_find_id_first(c, id, k);
        } else {
            assert forall|t: int| 0 <= t < m.len() implies (#[trigger] c[t]).id != id by {
                assert(c[t] == m[t]);
            }
            lemma_find_id_first(c, id, m.len() as int);
        }
    } else {
        let t = choose|t: int| 0 <= t < s.len() && (#[trigger] s[t]).id == id;
        assert(t != s.len() - 1);
        assert(pre[t] == s[t]);
        lemma_collect_last(pre, id);
        let f = find_id(m, id);
        lemma_find_id_bounds(m, id);
        assert(c[f] == m[f]);
        assert forall|u: int| 0 <= u < f implies (#[trigger] c[u]).id != id by {
            if k >= 0 && u == k {
            } else {
                assert(c[u] == m[u]);
            }
        }
        lemma_find_id_first(c, id, f);
    }
}

proof fn lemma_last_with_id_concat(a: Seq<RegistrationEntryView>, b: Seq<RegistrationEntryView>, id: Seq<char>)
    ensures
        last_with_id(a + b, id) == (if last_with_id(b, id) is Some {
            last_with_id(b, id)
        } else {
            last_with_id(a, id)
        }),
    decreases b.len(),
{
    if b.len() == 0 {
        assert(a + b =~= a);
    } else {
        assert((a + b).drop_last() =~= a + b.drop_last());
        assert((a + b).last() == b.last());
        lemma_last_with_id_concat(a, b.drop_last(), id);
    }
}

proof fn lemma_last_with_id_filter(
    s: Seq<RegistrationEntryView>,
    pred: spec_fn(RegistrationEntryView) -> bool,
    id: Seq<char>,
)
    ensures
        (forall|e: RegistrationEntryView| e.id == id ==> #[trigger] pred(e)) ==> last_with_id(s.filter(pred), id)
            == last_with_id(s, id),
        (forall|e: RegistrationEntryView| e.id == id ==> !#[trigger] pred(e)) ==> last_with_id(s.filter(pred), id) is None,
    decreases s.len(),
{
    reveal(Seq::filter);
    if s.len() > 0 {
        let pre = s.drop_last();
        lemma_last_with_id_filter(pre, pred, id);
        let sub = pre.filter(pred);
        if pred(s.last()) {
            assert(s.filter(pred) == sub.push(s.last()));
            assert(sub.push(s.last()).drop_last() =~= sub);
        } else {
            assert(s.filter(pred) == sub);
        }
    }
}

/// When every configured entry (ids distinct) is already on the server unchanged, the decisions
/// delete and create nothing.
proof fn lemma_fold_quiet(p: Seq<RegistrationEntryView>, existing: Seq<RegistrationEntryView>)
    requires
        distinct_ids(p),
        forall|j: int|
            0 <= j < p.len() ==> has_id(collect_by_id(existing), (#[trigger] p[j]).id) && !differs(
                p[j],
                collect_by_id(existing)[find_id(collect_by_id(existing), p[j].id)],
            ),
    ensures
        plan_fold(p, existing).to_delete.len() == 0,
        plan_fold(p, existing).to_add.len() == 0,
    decreases p.len(),
{
    if p.len() > 0 {
        let q = p.drop_last();
        let d = p.last();
        let c = collect_by_id(existing);
        assert(distinct_ids(q)) by {
            assert forall|i: int, j: int| 0 <= i < q.len() && 0 <= j < q.len() && i != j implies (#[trigger] q[i]).id != (#[trigger] q[j]).id by {
                assert(q[i] == p[i] && q[j] == p[j]);
            }
        }
        assert forall|j: int| 0 <= j < q.len() implies has_id(c, (#[trigger] q[j]).id) && !differs(
            q[j],
            c[find_id(c, q[j].id)],
        ) by {
            assert(q[j] == p[j]);
        }
        lemma_fold_quiet(q, existing);
        lemma_fold_props(q, existing);
        lemma_collect_props(existing);
        let prev = plan_fold(q, existing);
        assert(p[p.len() - 1] == d);
        lemma_find_id_bounds(c, d.id);
        let ca = c[find_id(c, d.id)];
        assert(c.contains(ca));
        assert(!has_id(q, d.id)) by {
            if has_id(q, d.id) {
                let t = choose|t: int| 0 <= t < q.len() && (#[trigger] q[t]).id == d.id;
                assert(p[t] == q[t]);
            }
        }
        assert(prev.remaining.contains(ca));
        let t = choose|t: int| 0 <= t < prev.remaining.len() && prev.remaining[t] == ca;
        lemma_find_id_bounds(prev.remaining, d.id);
        assert(prev.remaining[t].id == d.id);
        let k = find_id(prev.remaining, d.id);
        let actual = prev.remaining[k];
        assert(prev.remaining.contains(actual));
        assert(c.contains(actual));
        lemma_unique_by_id(c, actual, ca);
    }
}

/// Reconciliation is idempotent: once the server has deleted the planned ids and created the
/// planned entries, planning again for the same configured entries (ids distinct) against the
/// server's new entries finds nothing to delete and nothing to create.
pub proof fn lemma_reconcile_idempotent(
    desired: Seq<RegistrationEntryView>,
    existing: Seq<RegistrationEntryView>,
)
    requires
        distinct_ids(desired),
    ensures
        ({
            let after = apply_plan(existing, planned_deletes(desired, existing), planned_adds(desired, existing));
            &&& planned_deletes(desired, after).len() == 0
            &&& planned_adds(desired, after).len() == 0
        }),
{
    let deletes = planned_deletes(desired, existing);
    let adds = planned_adds(desired, existing);
    let pred = |e: RegistrationEntryView| !deletes.contains(e.id);
    let kept = existing.filter(pred);
    let after = apply_plan(existing, deletes, adds);
    assert(after == kept + adds);
    lemma_reconcile_converges(desired, existing);
    lemma_fold_props(desired, existing);
    lemma_collect_props(existing);
    lemma_collect_props(after);
    let s = plan_fold(desired, existing);
    let c = collect_by_id(existing);
    let c2 = collect_by_id(after);
    assert(deletes == s.to_delete + s.remaining.map_values(|e: RegistrationEntryView| e.id));
    assert forall|id: Seq<char>| #[trigger] s.to_delete.contains(id) implies deletes.contains(id) by {
        let a = choose|a: int| 0 <= a < s.to_delete.len() && s.to_delete[a] == id;
        assert(deletes[a] == id);
    }
    assert forall|j: int| 0 <= j < desired.len() implies has_id(c2, (#[trigger] desired[j]).id) && !differs(
        desired[j],
        c2[find_id(c2, desired[j].id)],
    ) by {
        let d = desired[j];
        let x = choose|x: RegistrationEntryView| #[trigger] after.contains(x) && x.id == d.id && !differs(d, x);
        let u = choose|u: int| 0 <= u < after.len() && after[u] == x;
        assert(after[u].id == d.id);
        lemma_collect_last(after, d.id);
        lemma_last_with_id_concat(kept, adds, d.id);
        lemma_last_with_id(adds, d.id);
        lemma_last_with_id(after, d.id);
        let y = last_with_id(after, d.id)->0;
        if last_with_id(adds, d.id) is Some {
            assert(adds.contains(y));
            let jj = choose|jj: int| 0 <= jj < desired.len() && (#[trigger] desired[jj]).id == y.id && !differs(desired[jj], y);
            if jj != j {
                assert(desired[jj].id != desired[j].id);
            }
        } else if deletes.contains(d.id) {
            assert forall|e: RegistrationEntryView| e.id == d.id implies !#[trigger] pred(e) by {}
            lemma_last_with_id_filter(existing, pred, d.id);
        } else {
            assert forall|e: RegistrationEntryView| e.id == d.id implies #[trigger] pred(e) by {}
            lemma_last_with_id_filter(existing, pred, d.id);
            lemma_last_with_id(existing, d.id);
            lemma_collect_last(existing, d.id);
            let actual = c[find_id(c, d.id)];
            assert(actual == y);
            if differs(d, actual) {
                assert(s.to_delete.contains(d.id));
            }
        }
    }
    lemma_fold_quiet(desired, after);
    lemma_fold_props(desired, after);
    let s2 = plan_fold(desired, after);
    if s2.remaining.len() > 0 {
        let e = s2.remaining[0];
        assert(s2.remaining.contains(e));
        assert(c2.contains(e));
        assert(after.contains(e));
    }
    assert(planned_deletes(desired, after) =~= s2.to_delete + s2.remaining.map_values(
        |e: RegistrationEntryView| e.id,
    ));
}


/// What the plan does with one configured entry (ids distinct), by the server's entry with its
/// id (the last one the server lists): if the server has none, the configured entry is created
/// as it is; if the server's entry has another SPIFFE id, other identities or attestation, its
/// id is deleted and the configured entry is created with the revision that follows the
/// server's; if it has the same, its id is not deleted.
pub proof fn lemma_plan_for_configured_entry(
    desired: Seq<RegistrationEntryView>,
    existing: Seq<RegistrationEntryView>,
    i: int,
)
    requires
        distinct_ids(desired),
        0 <= i < desired.len(),
    ensures
        ({
            let d = desired[i];
            let deletes = planned_deletes(desired, existing);
            let adds = planned_adds(desired, existing);
            match last_with_id(existing, d.id) {
                None => adds.contains(d),
                Some(actual) => if actual.spiffe_id != d.spiffe_id || actual.other_identities
                    != d.other_identities || actual.attestation_config != d.attestation_config {
                    &&& deletes.contains(d.id)
                    &&& adds.contains(
                        RegistrationEntryView {
                            revision_number: (actual.revision_number + 1) as u64,
                            ..d
                        },
                    )
                } else {
                    !deletes.contains(d.id)
                },
            }
        }),
{
    let d = desired[i];
    lemma_fold_props(desired, existing);
    lemma_collect_props(existing);
    lemma_last_with_id(existing, d.id);
    let c = collect_by_id(existing);
    let s = plan_fold(desired, existing);
    let deletes = planned_deletes(desired, existing);
    let rem_ids = s.remaining.map_values(|e: RegistrationEntryView| e.id);
    assert(deletes == s.to_delete + rem_ids);
    assert(has_id(desired, d.id));
    if has_id(existing, d.id) {
        lemma_collect_last(existing, d.id);
        let actual = c[find_id(c, d.id)];
        assert(actual == last_with_id(existing, d.id)->0);
        lemma_field_change_is_modification(d, actual);
        if differs(d, actual) {
            assert(s.to_delete.contains(d.id));
            let a = choose|a: int| 0 <= a < s.to_delete.len() && s.to_delete[a] == d.id;
            assert(deletes[a] == d.id);
        } else {
            assert(!s.to_delete.contains(d.id));
            if deletes.contains(d.id) {
                let a = choose|a: int| 0 <= a < deletes.len() && deletes[a] == d.id;
                if a < s.to_delete.len() {
                    assert(s.to_delete[a] == d.id);
                } else {
                    let r = a - s.to_delete.len();
                    assert(rem_ids[r] == d.id);
                    assert(s.remaining.contains(s.remaining[r]));
                }
            }
        }
    }
}

/// An entry of the reconciled configuration.
pub struct ConfigEntry {
    pub spiffe_id: String,
    pub spiffe_id_path: String,
    pub attestation_config: AttestationConfig,
    pub other_identities: Vec<IdentityTypes>,
    pub parent_id: Option<String>,
}

/// The configuration that reconciliation applies: the server's socket, the trust domain
/// and the entries it must hold.
pub struct ReconcileConfig {
    pub trust_domain: String,
    pub server_socket_path: String,
    pub entries: Vec<ConfigEntry>,
}

/// The registration entry a configured entry asks for: its id, its SPIFFE id in the trust
/// domain, its other identities and attestation, as an admin entry that never expires, with
/// DNS name `mydns`, revision 1, and a stored SVID.
pub open spec fn entry_view_for(trust_domain: Seq<char>, entry: ConfigEntry) -> RegistrationEntryView {
    RegistrationEntryView {
        id: entry.spiffe_id@,
        other_identities: entry.other_identities.deep_view(),
        spiffe_id: crate::core_objects::SpiffeIdView { trust_domain, path: entry.spiffe_id_path@ },
        attestation_config: entry.attestation_config@,
        admin: true,
        ttl: u64::MAX,
        expires_at: u64::MAX,
        dns_names: seq![seq!['m', 'y', 'd', 'n', 's']],
        revision_number: 1,
        store_svid: true,
    }
}

/// The registration entries a configuration asks for, in order.
pub open spec fn desired_views(config: ReconcileConfig) -> Seq<RegistrationEntryView> {
    config.entries@.map_values(|e: ConfigEntry| entry_view_for(config.trust_domain@, e))
}

/// Builds the registration entry that a configured entry asks for.
pub fn registration_entry_from_config(trust_domain: &String, entry: ConfigEntry) -> (r:
    RegistrationEntry)
    ensures
        r@ == entry_view_for(trust_domain@, entry),
{
    let ghost e = entry;
    let ConfigEntry { spiffe_id, spiffe_id_path, attestation_config, other_identities, parent_id: _ } =
        entry;
    let mut dns_names: Vec<String> = Vec::new();
    let mydns = String::from_str("mydns");
    proof {
        reveal_strlit("mydns");
        assert("mydns"@ =~= seq!['m', 'y', 'd', 'n', 's']);
    }
    dns_names.push(mydns);
    assert(dns_names.deep_view() =~= seq![seq!['m', 'y', 'd', 'n', 's']]);
    let r = RegistrationEntry {
        id: spiffe_id.clone(),
        other_identities,
        spiffe_id: SPIFFEID { trust_domain: trust_domain.clone(), path: spiffe_id_path },
        attestation_config,
        admin: true,
        ttl: u64::MAX,
        expires_at: u64::MAX,
        dns_names,
        revision_number: 1,
        store_svid: true,
    };
    assert(r@ == entry_view_for(trust_domain@, e));
    r
}

/// Keeps the server's registration entries in line with a configuration file.
pub struct Reconciler {
    pub config_path: String,
}

impl Reconciler {
    /// A reconciler for the configuration at the given path.
    pub fn new(config_path: String) -> (r: Self)
        ensures
            r.config_path == config_path,
    {
        Reconciler { config_path }
    }

    /// The registration entries a configuration asks for, in order.
    pub fn desired_entries(config: ReconcileConfig) -> (r: Vec<RegistrationEntry>)
        ensures
            r.deep_view() == desired_views(config),
    {
        let ghost given = config.entries@;
        let ghost td = config.trust_domain@;
        let ReconcileConfig { trust_domain, server_socket_path: _, entries } = config;
        let mut entries = entries;
        let mut reversed: Vec<RegistrationEntry> = Vec::new();
        while entries.len() > 0
            invariant
                td == trust_domain@,
                entries@.len() + reversed@.len() == given.len(),
                entries@ == given.take(entries@.len() as int),
                forall|i: int| 0 <= i < reversed@.len() ==> (#[trigger] reversed@[i])@ == entry_view_for(td, given[given.len() - 1 - i]),
            decreases entries.len(),
        {
            let ghost before = entries@;
            let entry = entries.pop().unwrap();
            assert(entry == given[before.len() - 1]);
            assert(entries@ =~= given.take(entries@.len() as int));
            reversed.push(registration_entry_from_config(&trust_domain, entry));
        }
        let mut out: Vec<RegistrationEntry> = Vec::new();
        while reversed.len() > 0
            invariant
                out@.len() + reversed@.len() == given.len(),
                forall|i: int| 0 <= i < reversed@.len() ==> (#[trigger] reversed@[i])@ == entry_view_for(td, given[given.len() - 1 - i]),
                forall|i: int| 0 <= i < out@.len() ==> (#[trigger] out@[i])@ == entry_view_for(td, given[i]),
            decreases reversed.len(),
        {
            let ghost before = reversed@;
            let e = reversed.pop().unwrap();
            assert(e == before[before.len() - 1]);
            out.push(e);
        }
        assert(out.deep_view() =~= given.map_values(|e: ConfigEntry| entry_view_for(td, e)));
        out
    }

    /// What to change on the server, given its current entries, to apply a configuration.
    pub fn plan(&self, config: ReconcileConfig, existing: &Vec<RegistrationEntry>) -> (r: ReconcilePlan)
        requires
            modified_revisions_bounded(desired_views(config), existing.deep_view()),
        ensures
            r.entries_to_delete.deep_view() == planned_deletes(desired_views(config), existing.deep_view()),
            r.entries_to_add.deep_view() == planned_adds(desired_views(config), existing.deep_view()),
    {
        let ghost c = config;
        let desired = Self::desired_entries(config);
        plan_reconcile(&desired, existing)
    }
}

} // verus!
