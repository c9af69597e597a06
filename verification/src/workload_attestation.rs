//! Workload attestation: from the cgroup path of a calling process and the pods scheduled on
//! the node, find the workload's pod and container and derive its selectors.
//!
//! The pod model holds, as plain values, the fields of a Kubernetes pod that attestation reads.
use vstd::prelude::*;

use crate::core_objects::{build_selector_string, selector_string, WorkloadSelectorType};
use crate::text::{
    ascii_punct, colon_join, decimal, decimal_string, from_chars, is_ascii_punct, join_colon,
    set_insert, to_chars,
};

verus! {

broadcast use vstd::string::group_string_axioms;

/// A pod owner reference.
pub struct OwnerReference {
    pub kind: String,
    pub name: String,
    pub uid: String,
}

/// The status of one container of a pod.
pub struct ContainerStatus {
    pub container_id: Option<String>,
    pub image: String,
    pub image_id: String,
    pub name: String,
}

/// A container of a pod spec.
pub struct Container {
    pub name: String,
    pub image: Option<String>,
}

/// Pod metadata; labels are key/value pairs with distinct keys.
pub struct ObjectMeta {
    pub name: Option<String>,
    pub uid: Option<String>,
    pub namespace: Option<String>,
    pub labels: Option<Vec<(String, String)>>,
    pub owner_references: Option<Vec<OwnerReference>>,
}

/// Pod spec.
pub struct PodSpec {
    pub node_name: Option<String>,
    pub service_account_name: Option<String>,
    pub containers: Vec<Container>,
    pub init_containers: Option<Vec<Container>>,
}

/// Pod status.
pub struct PodStatus {
    pub container_statuses: Option<Vec<ContainerStatus>>,
    pub init_container_statuses: Option<Vec<ContainerStatus>>,
}

/// A pod as the Kubernetes API lists it.
pub struct Pod {
    pub metadata: ObjectMeta,
    pub spec: Option<PodSpec>,
    pub status: Option<PodStatus>,
}

/// Name and image of the container a workload runs in.
pub struct ContainerIdentifiers {
    pub name: String,
    pub image: String,
}

/// A field that attestation needs and the pod lacks.
#[derive(Clone, Copy, PartialEq, Eq, Structural, Debug)]
pub enum MissingField {
    PodName,
    PodUid,
    Namespace,
    ServiceAccountName,
    PodSpec,
    NodeName,
    PodLabels,
    Status,
}

/// Why workload attestation failed.
pub enum Error {
    MissingField(MissingField),
    NoPIDcgroup,
    ExtractPodUIDandContainerID(String),
    ContainerNotFoundInPod { container_id: String, pod_uid: String },
}

/// The host of the URL that `url::Url::parse` reads from `text` (`Url::host`, rendered
/// by its `Display`); `None` when parsing fails or the URL has no host.
pub uninterp spec fn url_host_of(text: Seq<char>) -> Option<Seq<char>>;

/// Parses `text` with `url::Url::parse` and renders its host with `Host`'s `Display`.
/// The result is `url_host_of(text)`: a function of the text alone.
#[verifier::external_body]
fn parse_url_host(text: &str) -> (r: Option<String>)
    ensures
        r.deep_view() == url_host_of(text@),
{
    match url::Url::parse(text) {
        Ok(parsed) => parsed.host().map(|host| host.to_string()),
        Err(_) => None,
    }
}

/// Whether a URL host names the given container: it is present and equal to the id.
pub fn host_names_container(host: Option<String>, container_id: &str) -> (r: bool)
    ensures
        r == (host matches Some(h) && h@ == container_id@),
{
    match host {
        Some(h) => {
            let id = container_id.to_owned();
            h == id
        },
        None => false,
    }
}

/// A container status belongs to the container with the given id: its container id is a URL
/// whose host is that id (such as `docker://<id>`).
pub open spec fn status_matches(status: ContainerStatus, container_id: Seq<char>) -> bool {
    match status.container_id {
        Some(url) => url_host_of(url@) == Some(container_id),
        None => false,
    }
}

/// Decides whether a container status belongs to the container with the given id.
pub fn container_status_match_container_id(status: &ContainerStatus, container_id: &str) -> (r:
    bool)
    ensures
        r == status_matches(*status, container_id@),
{
    match &status.container_id {
        Some(url) => {
            let host = parse_url_host(url.as_str());
            host_names_container(host, container_id)
        },
        None => false,
    }
}

/// The identifiers taken from a status: its name and image.
pub open spec fn identifies(ci: ContainerIdentifiers, status: ContainerStatus) -> bool {
    ci.name@ == status.name@ && ci.image@ == status.image@
}

/// `i` is the first status in `statuses` that belongs to the container.
pub open spec fn first_matching(statuses: Seq<ContainerStatus>, container_id: Seq<char>, i: int) -> bool {
    &&& 0 <= i < statuses.len()
    &&& status_matches(statuses[i], container_id)
    &&& forall|j: int| 0 <= j < i ==> !status_matches(#[trigger] statuses[j], container_id)
}

/// What a search of `statuses` for the container gives: `None` when no status belongs to it,
/// else the name and image of the first status that does.
pub open spec fn found_in(
    r: Option<ContainerIdentifiers>,
    statuses: Seq<ContainerStatus>,
    container_id: Seq<char>,
) -> bool {
    match r {
        None => forall|j: int| 0 <= j < statuses.len() ==> !status_matches(#[trigger] statuses[j], container_id),
        Some(ci) => exists|i: int| first_matching(statuses, container_id, i) && identifies(ci, statuses[i]),
    }
}

/// The name and image of the first status that belongs to the container, if any.
pub fn get_container_identitifiers(container_statuses: &[ContainerStatus], container_id: &str) -> (r:
    Option<ContainerIdentifiers>)
    ensures
        found_in(r, container_statuses@, container_id@),
{
    let mut i: usize = 0;
    while i < container_statuses.len()
        invariant
            i <= container_statuses.len(),
            forall|j: int| 0 <= j < i ==> !status_matches(#[trigger] container_statuses@[j], container_id@),
        decreases container_statuses.len() - i,
    {
        let status = &container_statuses[i];
        if container_status_match_container_id(status, container_id) {
            let ci = ContainerIdentifiers { name: status.name.clone(), image: status.image.clone() };
            assert(first_matching(container_statuses@, container_id@, i as int));
            return Some(ci);
        }
        i = i + 1;
    }
    None
}

/// The statuses of a pod's containers, or of its init containers (absent lists are empty).
pub open spec fn statuses_or_empty(statuses: Option<Vec<ContainerStatus>>) -> Seq<ContainerStatus> {
    match statuses {
        Some(v) => v@,
        None => Seq::empty(),
    }
}

/// What finding a container in a pod gives: nothing without a pod name or status; else the
/// search of the container statuses, or, when no container status matches, of the init
/// container statuses.
pub open spec fn ready_result(pod: Pod, container_id: Seq<char>, r: Option<ContainerIdentifiers>) -> bool {
    if pod.metadata.name is None || pod.status is None {
        r is None
    } else {
        let status = pod.status->0;
        let main = statuses_or_empty(status.container_statuses);
        let init = statuses_or_empty(status.init_container_statuses);
        if exists|i: int| first_matching(main, container_id, i) {
            found_in(r, main, container_id)
        } else {
            found_in(r, init, container_id)
        }
    }
}

/// Finds the container with the given id in a pod: nothing without a pod name or status;
/// else the first matching container status, then the first matching init container status.
pub fn is_container_ready_in_pod(pod: &Pod, container_id: &str) -> (r: Option<ContainerIdentifiers>)
    ensures
        ready_result(*pod, container_id@, r),
{
    if pod.metadata.name.is_none() {
        return None;
    }
    let status = match &pod.status {
        Some(status) => status,
        None => {
            return None;
        },
    };
    let empty: Vec<ContainerStatus> = Vec::new();
    let container_statuses = match &status.container_statuses {
        Some(v) => v,
        None => &empty,
    };
    let container_init_statuses = match &status.init_container_statuses {
        Some(v) => v,
        None => &empty,
    };
    assert(container_statuses@ == statuses_or_empty(status.container_statuses));
    assert(container_init_statuses@ == statuses_or_empty(status.init_container_statuses));
    let found = get_container_identitifiers(container_statuses.as_slice(), container_id);
    if found.is_some() {
        return found;
    }
    assert(!exists|i: int| first_matching(container_statuses@, container_id@, i));
    get_container_identitifiers(container_init_statuses.as_slice(), container_id)
}


/// The selectors of a workload, as a list of distinct selector strings.
pub struct WorkloadAttributes {
    pub selectors: Vec<String>,
}

/// What attestation reads from the workload's pod and container.
pub struct SelectorInfo {
    pub namespace: String,
    pub service_account_name: String,
    pub container_name: String,
    pub container_image: String,
    pub node_name: String,
    pub pod_labels: Vec<(String, String)>,
    pub pod_owner: Vec<String>,
    pub pod_owner_uid: Vec<String>,
    pub pod_uid: String,
    pub pod_name: String,
    pub pod_image: Vec<String>,
    pub pod_image_count: usize,
    pub pod_init_image: Vec<String>,
    pub pod_init_image_count: usize,
}

/// The set of the strings a list holds.
pub open spec fn text_set(v: Vec<String>) -> Set<Seq<char>> {
    v.deep_view().to_set()
}

/// A list of strings used as a set: it holds each string once.
pub open spec fn distinct(v: Vec<String>) -> bool {
    v.deep_view().no_duplicates()
}

/// The selector strings `t:x` for the strings `x` of a list.
pub open spec fn typed_selectors(t: WorkloadSelectorType, v: Seq<String>) -> Set<Seq<char>> {
    Set::new(|s: Seq<char>| exists|j: int| 0 <= j < v.len() && s == selector_string(t, #[trigger] v[j]@))
}

/// The selector strings `t:key:value` for the pairs of a map.
pub open spec fn typed_pair_selectors(t: WorkloadSelectorType, m: Seq<(String, String)>) -> Set<Seq<char>> {
    Set::new(
        |s: Seq<char>|
            exists|j: int|
                0 <= j < m.len() && s == selector_string(t, colon_join((#[trigger] m[j]).0@, m[j].1@)),
    )
}

/// Adds the selector `t:x` for each string `x` of a set.
pub fn push_set_into_selectors(
    selectors: &mut Vec<String>,
    set: &Vec<String>,
    selector_type: &WorkloadSelectorType,
)
    ensures
        text_set(*final(selectors)) == text_set(*old(selectors)) + typed_selectors(*selector_type, set@),
        distinct(*old(selectors)) ==> distinct(*final(selectors)),
{
    let ghost start = text_set(*selectors);
    let mut i: usize = 0;
    while i < set.len()
        invariant
            i <= set.len(),
            text_set(*selectors) == start + typed_selectors(*selector_type, set@.take(i as int)),
            distinct(*old(selectors)) ==> distinct(*selectors),
        decreases set.len() - i,
    {
        let selector = build_selector_string(selector_type, set[i].as_str());
        let ghost before = text_set(*selectors);
        set_insert(selectors, selector);
        assert(typed_selectors(*selector_type, set@.take(i + 1)) =~= typed_selectors(
            *selector_type,
            set@.take(i as int),
        ).insert(selector@)) by {
            assert(set@.take(i + 1)[i as int] == set@[i as int]);
            assert forall|x: Seq<char>| #[trigger] typed_selectors(*selector_type, set@.take(i + 1)).contains(x)
                implies typed_selectors(*selector_type, set@.take(i as int)).insert(selector@).contains(x) by {
                let j = choose|j: int| 0 <= j < i + 1 && x == selector_string(*selector_type, #[trigger] set@.take(i + 1)[j]@);
                if j < i {
                    assert(set@.take(i as int)[j] == set@.take(i + 1)[j]);
                }
            }
            assert forall|x: Seq<char>| #[trigger] typed_selectors(*selector_type, set@.take(i as int)).contains(x)
                implies typed_selectors(*selector_type, set@.take(i + 1)).contains(x) by {
                let j = choose|j: int| 0 <= j < i && x == selector_string(*selector_type, #[trigger] set@.take(i as int)[j]@);
                assert(set@.take(i as int)[j] == set@.take(i + 1)[j]);
            }
        }
        assert(text_set(*selectors) =~= start + typed_selectors(*selector_type, set@.take(i + 1)));
        i = i + 1;
    }
    assert(set@.take(set.len() as int) =~= set@);
}

/// Adds the selector `t:key:value` for each pair of a map.
pub fn push_map_into_selectors(
    selectors: &mut Vec<String>,
    map: &Vec<(String, String)>,
    selector_type: &WorkloadSelectorType,
)
    ensures
        text_set(*final(selectors)) == text_set(*old(selectors)) + typed_pair_selectors(*selector_type, map@),
        distinct(*old(selectors)) ==> distinct(*final(selectors)),
{
    let ghost start = text_set(*selectors);
    let mut i: usize = 0;
    while i < map.len()
        invariant
            i <= map.len(),
            text_set(*selectors) == start + typed_pair_selectors(*selector_type, map@.take(i as int)),
            distinct(*old(selectors)) ==> distinct(*selectors),
        decreases map.len() - i,
    {
        let pair = join_colon(&map[i].0, &map[i].1);
        let selector = build_selector_string(selector_type, pair.as_str());
        set_insert(selectors, selector);
        assert(typed_pair_selectors(*selector_type, map@.take(i + 1)) =~= typed_pair_selectors(
            *selector_type,
            map@.take(i as int),
        ).insert(selector@)) by {
            assert(map@.take(i + 1)[i as int] == map@[i as int]);
            assert forall|x: Seq<char>| #[trigger] typed_pair_selectors(*selector_type, map@.take(i + 1)).contains(x)
                implies typed_pair_selectors(*selector_type, map@.take(i as int)).insert(selector@).contains(x) by {
                let j = choose|j: int| 0 <= j < i + 1 && x == selector_string(*selector_type, colon_join((#[trigger] map@.take(i + 1)[j]).0@, map@.take(i + 1)[j].1@));
                if j < i {
                    assert(map@.take(i as int)[j] == map@.take(i + 1)[j]);
                }
            }
            assert forall|x: Seq<char>| #[trigger] typed_pair_selectors(*selector_type, map@.take(i as int)).contains(x)
                implies typed_pair_selectors(*selector_type, map@.take(i + 1)).contains(x) by {
                let j = choose|j: int| 0 <= j < i && x == selector_string(*selector_type, colon_join((#[trigger] map@.take(i as int)[j]).0@, map@.take(i as int)[j].1@));
                assert(map@.take(i as int)[j] == map@.take(i + 1)[j]);
            }
        }
        assert(text_set(*selectors) =~= start + typed_pair_selectors(*selector_type, map@.take(i + 1)));
        i = i + 1;
    }
    assert(map@.take(map.len() as int) =~= map@);
}


/// The selectors attestation derives from what it read: one for each single-valued field
/// (the two counts in decimal), then one per label, owner, owner uid, image and init image.
pub open spec fn expected_selectors(info: SelectorInfo) -> Set<Seq<char>> {
    set![
        selector_string(WorkloadSelectorType::NameSpace, info.namespace@),
        selector_string(WorkloadSelectorType::ServiceAccount, info.service_account_name@),
        selector_string(WorkloadSelectorType::PodName, info.pod_name@),
        selector_string(WorkloadSelectorType::PodUID, info.pod_uid@),
        selector_string(WorkloadSelectorType::NodeName, info.node_name@),
        selector_string(WorkloadSelectorType::ContainerName, info.container_name@),
        selector_string(WorkloadSelectorType::ContainerImage, info.container_image@),
        selector_string(WorkloadSelectorType::PodImageCount, decimal(info.pod_image_count as nat)),
        selector_string(
            WorkloadSelectorType::PodInitImageCount,
            decimal(info.pod_init_image_count as nat),
        ),
    ] + typed_pair_selectors(WorkloadSelectorType::PodLabels, info.pod_labels@) + typed_selectors(
        WorkloadSelectorType::PodOwners,
        info.pod_owner@,
    ) + typed_selectors(WorkloadSelectorType::PodOwnerUIDs, info.pod_owner_uid@)
        + typed_selectors(WorkloadSelectorType::PodImages, info.pod_image@) + typed_selectors(
        WorkloadSelectorType::PodInitImages,
        info.pod_init_image@,
    )
}

/// Every label of the pod, at any position, gives the selector `PodLabels:key:value`, and every
/// selector of that type comes from some label.
pub proof fn lemma_every_label_is_a_selector(info: SelectorInfo)
    ensures
        forall|j: int| 0 <= j < info.pod_labels@.len() ==> expected_selectors(info).contains(
            selector_string(
                WorkloadSelectorType::PodLabels,
                colon_join((#[trigger] info.pod_labels@[j]).0@, info.pod_labels@[j].1@),
            ),
        ),
        forall|s: Seq<char>| #[trigger] typed_pair_selectors(WorkloadSelectorType::PodLabels, info.pod_labels@).contains(s)
            ==> exists|j: int| 0 <= j < info.pod_labels@.len() && s == selector_string(
                WorkloadSelectorType::PodLabels,
                colon_join((#[trigger] info.pod_labels@[j]).0@, info.pod_labels@[j].1@),
            ),
{
    assert forall|j: int| 0 <= j < info.pod_labels@.len() implies expected_selectors(info).contains(
        selector_string(
            WorkloadSelectorType::PodLabels,
            colon_join((#[trigger] info.pod_labels@[j]).0@, info.pod_labels@[j].1@),
        ),
    ) by {
        assert(typed_pair_selectors(WorkloadSelectorType::PodLabels, info.pod_labels@).contains(
            selector_string(
                WorkloadSelectorType::PodLabels,
                colon_join(info.pod_labels@[j].0@, info.pod_labels@[j].1@),
            ),
        ));
    }
}

fn insert_selector(selectors: &mut Vec<String>, t: WorkloadSelectorType, value: &str)
    ensures
        text_set(*final(selectors)) == text_set(*old(selectors)).insert(selector_string(t, value@)),
        distinct(*old(selectors)) ==> distinct(*final(selectors)),
{
    let selector = build_selector_string(&t, value);
    set_insert(selectors, selector);
}

/// The workload's selectors: exactly the selectors that attestation derives from `selector_info`,
/// each once.
pub fn get_workload_attributes_from_select_info(selector_info: &SelectorInfo) -> (r:
    WorkloadAttributes)
    ensures
        text_set(r.selectors) == expected_selectors(*selector_info),
        distinct(r.selectors),
{
    let mut selectors: Vec<String> = Vec::new();
    assert(distinct(selectors));
    insert_selector(&mut selectors, WorkloadSelectorType::NameSpace, selector_info.namespace.as_str());
    insert_selector(
        &mut selectors,
        WorkloadSelectorType::ServiceAccount,
        selector_info.service_account_name.as_str(),
    );
    insert_selector(&mut selectors, WorkloadSelectorType::PodName, selector_info.pod_name.as_str());
    insert_selector(&mut selectors, WorkloadSelectorType::PodUID, selector_info.pod_uid.as_str());
    insert_selector(&mut selectors, WorkloadSelectorType::NodeName, selector_info.node_name.as_str());
    insert_selector(
        &mut selectors,
        WorkloadSelectorType::ContainerName,
        selector_info.container_name.as_str(),
    );
    insert_selector(
        &mut selectors,
        WorkloadSelectorType::ContainerImage,
        selector_info.container_image.as_str(),
    );
    let image_count = decimal_string(selector_info.pod_image_count as u64);
    insert_selector(&mut selectors, WorkloadSelectorType::PodImageCount, image_count.as_str());
    let init_image_count = decimal_string(selector_info.pod_init_image_count as u64);
    insert_selector(
        &mut selectors,
        WorkloadSelectorType::PodInitImageCount,
        init_image_count.as_str(),
    );
    let ghost singles = text_set(selectors);
    push_map_into_selectors(&mut selectors, &selector_info.pod_labels, &WorkloadSelectorType::PodLabels);
    push_set_into_selectors(&mut selectors, &selector_info.pod_owner, &WorkloadSelectorType::PodOwners);
    push_set_into_selectors(
        &mut selectors,
        &selector_info.pod_owner_uid,
        &WorkloadSelectorType::PodOwnerUIDs,
    );
    push_set_into_selectors(&mut selectors, &selector_info.pod_image, &WorkloadSelectorType::PodImages);
    push_set_into_selectors(
        &mut selectors,
        &selector_info.pod_init_image,
        &WorkloadSelectorType::PodInitImages,
    );
    assert(text_set(selectors) =~= expected_selectors(*selector_info));
    WorkloadAttributes { selectors }
}


/// The first field attestation needs that the pod lacks, checked in this order: spec, status,
/// name, uid, namespace, labels, node name, service account name.
pub open spec fn first_missing(pod: Pod) -> Option<MissingField> {
    if pod.spec is None {
        Some(MissingField::PodSpec)
    } else if pod.status is None {
        Some(MissingField::Status)
    } else if pod.metadata.name is None {
        Some(MissingField::PodName)
    } else if pod.metadata.uid is None {
        Some(MissingField::PodUid)
    } else if pod.metadata.namespace is None {
        Some(MissingField::Namespace)
    } else if pod.metadata.labels is None {
        Some(MissingField::PodLabels)
    } else if pod.spec->0.node_name is None {
        Some(MissingField::NodeName)
    } else if pod.spec->0.service_account_name is None {
        Some(MissingField::ServiceAccountName)
    } else {
        None
    }
}

/// `kind:name` (or `kind:uid`) for each owner reference.
pub open spec fn owner_texts(owners: Seq<OwnerReference>, with_uid: bool) -> Set<Seq<char>> {
    Set::new(
        |s: Seq<char>|
            exists|j: int|
                0 <= j < owners.len() && s == colon_join(
                    (#[trigger] owners[j]).kind@,
                    if with_uid {
                        owners[j].uid@
                    } else {
                        owners[j].name@
                    },
                ),
    )
}

/// A container names the given image.
pub open spec fn names_image(c: Container, s: Seq<char>) -> bool {
    match c.image {
        Some(im) => im@ == s,
        None => false,
    }
}

/// The images named by a list of containers (containers without one add nothing).
pub open spec fn image_texts(containers: Seq<Container>) -> Set<Seq<char>> {
    Set::new(
        |s: Seq<char>|
            exists|j: int|
                0 <= j < containers.len() && names_image(#[trigger] containers[j], s),
    )
}

fn owner_strings(owners: &Vec<OwnerReference>, with_uid: bool) -> (r: Vec<String>)
    ensures
        text_set(r) == owner_texts(owners@, with_uid),
        distinct(r),
{
    let mut r: Vec<String> = Vec::new();
    let mut i: usize = 0;
    assert(text_set(r) =~= owner_texts(owners@.take(0), with_uid));
    while i < owners.len()
        invariant
            i <= owners.len(),
            text_set(r) == owner_texts(owners@.take(i as int), with_uid),
            distinct(r),
        decreases owners.len() - i,
    {
        let owner = &owners[i];
        let text = if with_uid {
            join_colon(&owner.kind, &owner.uid)
        } else {
            join_colon(&owner.kind, &owner.name)
        };
        set_insert(&mut r, text);
        assert(owner_texts(owners@.take(i + 1), with_uid) =~= owner_texts(owners@.take(i as int), with_uid).insert(text@)) by {
            assert(owners@.take(i + 1)[i as int] == owners@[i as int]);
            assert forall|x: Seq<char>| #[trigger] owner_texts(owners@.take(i + 1), with_uid).contains(x)
                implies owner_texts(owners@.take(i as int), with_uid).insert(text@).contains(x) by {
                let j = choose|j: int| 0 <= j < i + 1 && x == colon_join((#[trigger] owners@.take(i + 1)[j]).kind@, if with_uid { owners@.take(i + 1)[j].uid@ } else { owners@.take(i + 1)[j].name@ });
                if j < i {
                    assert(owners@.take(i as int)[j] == owners@.take(i + 1)[j]);
                }
            }
            assert forall|x: Seq<char>| #[trigger] owner_texts(owners@.take(i as int), with_uid).contains(x)
                implies owner_texts(owners@.take(i + 1), with_uid).contains(x) by {
                let j = choose|j: int| 0 <= j < i && x == colon_join((#[trigger] owners@.take(i as int)[j]).kind@, if with_uid { owners@.take(i as int)[j].uid@ } else { owners@.take(i as int)[j].name@ });
                assert(owners@.take(i as int)[j] == owners@.take(i + 1)[j]);
            }
        }
        i = i + 1;
    }
    assert(owners@.take(owners.len() as int) =~= owners@);
    r
}

fn image_strings(containers: &Vec<Container>) -> (r: Vec<String>)
    ensures
        text_set(r) == image_texts(containers@),
        distinct(r),
{
    let mut r: Vec<String> = Vec::new();
    let mut i: usize = 0;
    assert(text_set(r) =~= image_texts(containers@.take(0)));
    while i < containers.len()
        invariant
            i <= containers.len(),
            text_set(r) == image_texts(containers@.take(i as int)),
            distinct(r),
        decreases containers.len() - i,
    {
        let ghost before = text_set(r);
        match &containers[i].image {
            Some(image) => {
                set_insert(&mut r, image.clone());
            },
            None => {},
        }
        assert(image_texts(containers@.take(i + 1)) =~= match containers@[i as int].image {
            Some(im) => before.insert(im@),
            None => before,
        }) by {
            assert(containers@.take(i + 1)[i as int] == containers@[i as int]);
            assert forall|x: Seq<char>| #[trigger] image_texts(containers@.take(i + 1)).contains(x)
                implies (match containers@[i as int].image { Some(im) => before.insert(im@), None => before }).contains(x) by {
                let j = choose|j: int| 0 <= j < i + 1 && names_image(#[trigger] containers@.take(i + 1)[j], x);
                if j < i {
                    assert(containers@.take(i as int)[j] == containers@.take(i + 1)[j]);
                }
            }
            assert forall|x: Seq<char>| #[trigger] before.contains(x)
                implies image_texts(containers@.take(i + 1)).contains(x) by {
                let j = choose|j: int| 0 <= j < i && names_image(#[trigger] containers@.take(i as int)[j], x);
                assert(containers@.take(i as int)[j] == containers@.take(i + 1)[j]);
            }
        }
        i = i + 1;
    }
    assert(containers@.take(containers.len() as int) =~= containers@);
    r
}

/// What attestation reads from a complete pod and the workload's container identifiers.
pub open spec fn describes(info: SelectorInfo, pod: Pod, container_identifiers: ContainerIdentifiers) -> bool {
    let spec = pod.spec->0;
    let status = pod.status->0;
    let owners = match pod.metadata.owner_references {
        Some(v) => v@,
        None => Seq::empty(),
    };
    &&& Some(info.pod_name) == pod.metadata.name
    &&& Some(info.pod_uid) == pod.metadata.uid
    &&& Some(info.namespace) == pod.metadata.namespace
    &&& info.pod_labels@ == pod.metadata.labels->0@
    &&& Some(info.node_name) == spec.node_name
    &&& Some(info.service_account_name) == spec.service_account_name
    &&& text_set(info.pod_owner) == owner_texts(owners, false)
    &&& text_set(info.pod_owner_uid) == owner_texts(owners, true)
    &&& text_set(info.pod_image) == image_texts(spec.containers@)
    &&& text_set(info.pod_init_image) == match spec.init_containers {
        Some(v) => image_texts(v@),
        None => Set::empty(),
    }
    &&& info.pod_image_count == statuses_or_empty(status.container_statuses).len()
    &&& info.pod_init_image_count == statuses_or_empty(status.init_container_statuses).len()
    &&& info.container_name == container_identifiers.name
    &&& info.container_image == container_identifiers.image
    &&& distinct(info.pod_owner) && distinct(info.pod_owner_uid)
    &&& distinct(info.pod_image) && distinct(info.pod_init_image)
}

/// The pod images read from a pod are exactly the images of its containers: the image of every
/// container that names one, at any position of the pod spec, is read, each image read is the
/// image of some container, and the workload's selectors then hold `PodImages:<image>` for
/// each of them. The same holds of the init containers and `PodInitImages`.
pub proof fn lemma_pod_images_are_container_images(
    info: SelectorInfo,
    pod: Pod,
    container_identifiers: ContainerIdentifiers,
)
    requires
        describes(info, pod, container_identifiers),
    ensures
        ({
            let containers = pod.spec->0.containers@;
            &&& forall|j: int|
                0 <= j < containers.len() && (#[trigger] containers[j]).image is Some ==> {
                    &&& info.pod_image.deep_view().contains(containers[j].image->0@)
                    &&& expected_selectors(info).contains(
                        selector_string(WorkloadSelectorType::PodImages, containers[j].image->0@),
                    )
                }
            &&& forall|s: Seq<char>| #[trigger] info.pod_image.deep_view().contains(s) ==> exists|j: int|
                0 <= j < containers.len() && (#[trigger] containers[j]).image is Some
                    && containers[j].image->0@ == s
        }),
        pod.spec->0.init_containers matches Some(init) ==> ({
            &&& forall|j: int|
                0 <= j < init@.len() && (#[trigger] init@[j]).image is Some ==> {
                    &&& info.pod_init_image.deep_view().contains(init@[j].image->0@)
                    &&& expected_selectors(info).contains(
                        selector_string(WorkloadSelectorType::PodInitImages, init@[j].image->0@),
                    )
                }
            &&& forall|s: Seq<char>| #[trigger] info.pod_init_image.deep_view().contains(s) ==> exists|j: int|
                0 <= j < init@.len() && (#[trigger] init@[j]).image is Some && init@[j].image->0@ == s
        }),
{
    let containers = pod.spec->0.containers@;
    lemma_images_read(info.pod_image, containers, WorkloadSelectorType::PodImages);
    if let Some(init) = pod.spec->0.init_containers {
        lemma_images_read(info.pod_init_image, init@, WorkloadSelectorType::PodInitImages);
    }
    assert forall|j: int|
        0 <= j < containers.len() && (#[trigger] containers[j]).image is Some implies expected_selectors(
        info,
    ).contains(selector_string(WorkloadSelectorType::PodImages, containers[j].image->0@)) by {
        assert(typed_selectors(WorkloadSelectorType::PodImages, info.pod_image@).contains(
            selector_string(WorkloadSelectorType::PodImages, containers[j].image->0@),
        ));
    }
    if let Some(init) = pod.spec->0.init_containers {
        assert forall|j: int|
            0 <= j < init@.len() && (#[trigger] init@[j]).image is Some implies expected_selectors(
            info,
        ).contains(selector_string(WorkloadSelectorType::PodInitImages, init@[j].image->0@)) by {
            assert(typed_selectors(WorkloadSelectorType::PodInitImages, info.pod_init_image@).contains(
                selector_string(WorkloadSelectorType::PodInitImages, init@[j].image->0@),
            ));
        }
    }
}

/// The owners read from a pod are exactly its owner references: every reference, at any
/// position, gives `kind:name` among the owners and `kind:uid` among the owner uids, each read
/// owner comes from some reference, and the workload's selectors then hold `PodOwners:kind:name`
/// and `PodOwnerUIDs:kind:uid` for every reference.
pub proof fn lemma_pod_owners_are_owner_references(
    info: SelectorInfo,
    pod: Pod,
    container_identifiers: ContainerIdentifiers,
)
    requires
        describes(info, pod, container_identifiers),
    ensures
        pod.metadata.owner_references matches Some(owners) ==> forall|j: int|
            0 <= j < owners@.len() ==> {
                &&& info.pod_owner.deep_view().contains(
                    colon_join((#[trigger] owners@[j]).kind@, owners@[j].name@),
                )
                &&& info.pod_owner_uid.deep_view().contains(colon_join(owners@[j].kind@, owners@[j].uid@))
                &&& expected_selectors(info).contains(
                    selector_string(
                        WorkloadSelectorType::PodOwners,
                        colon_join(owners@[j].kind@, owners@[j].name@),
                    ),
                )
                &&& expected_selectors(info).contains(
                    selector_string(
                        WorkloadSelectorType::PodOwnerUIDs,
                        colon_join(owners@[j].kind@, owners@[j].uid@),
                    ),
                )
            },
        forall|s: Seq<char>| #[trigger] info.pod_owner.deep_view().contains(s) ==> (
        pod.metadata.owner_references matches Some(owners) && exists|j: int|
            0 <= j < owners@.len() && s == colon_join((#[trigger] owners@[j]).kind@, owners@[j].name@)),
        forall|s: Seq<char>| #[trigger] info.pod_owner_uid.deep_view().contains(s) ==> (
        pod.metadata.owner_references matches Some(owners) && exists|j: int|
            0 <= j < owners@.len() && s == colon_join((#[trigger] owners@[j]).kind@, owners@[j].uid@)),
{
    let owners = match pod.metadata.owner_references {
        Some(v) => v@,
        None => Seq::empty(),
    };
    lemma_owners_read(info.pod_owner, owners, false, WorkloadSelectorType::PodOwners);
    lemma_owners_read(info.pod_owner_uid, owners, true, WorkloadSelectorType::PodOwnerUIDs);
    assert forall|s: Seq<char>| #[trigger] info.pod_owner.deep_view().contains(s) implies (
    pod.metadata.owner_references matches Some(o) && exists|j: int|
        0 <= j < o@.len() && s == colon_join((#[trigger] o@[j]).kind@, o@[j].name@)) by {
        let j = choose|j: int| 0 <= j < owners.len() && s == colon_join((#[trigger] owners[j]).kind@, owners[j].name@);
        assert(pod.metadata.owner_references is Some);
    }
    assert forall|s: Seq<char>| #[trigger] info.pod_owner_uid.deep_view().contains(s) implies (
    pod.metadata.owner_references matches Some(o) && exists|j: int|
        0 <= j < o@.len() && s == colon_join((#[trigger] o@[j]).kind@, o@[j].uid@)) by {
        let j = choose|j: int| 0 <= j < owners.len() && s == colon_join((#[trigger] owners[j]).kind@, owners[j].uid@);
        assert(pod.metadata.owner_references is Some);
    }
}

proof fn lemma_owners_read(read: Vec<String>, owners: Seq<OwnerReference>, with_uid: bool, t: WorkloadSelectorType)
    requires
        text_set(read) == owner_texts(owners, with_uid),
    ensures
        forall|j: int| 0 <= j < owners.len() ==> {
            let text = colon_join((#[trigger] owners[j]).kind@, if with_uid { owners[j].uid@ } else { owners[j].name@ });
            &&& read.deep_view().contains(text)
            &&& typed_selectors(t, read@).contains(selector_string(t, text))
        },
        forall|s: Seq<char>| #[trigger] read.deep_view().contains(s) ==> exists|j: int|
            0 <= j < owners.len() && s == colon_join(
                (#[trigger] owners[j]).kind@,
                if with_uid { owners[j].uid@ } else { owners[j].name@ },
            ),
{
    assert forall|j: int| 0 <= j < owners.len() implies {
        let text = colon_join((#[trigger] owners[j]).kind@, if with_uid { owners[j].uid@ } else { owners[j].name@ });
        &&& read.deep_view().contains(text)
        &&& typed_selectors(t, read@).contains(selector_string(t, text))
    } by {
        let text = colon_join(owners[j].kind@, if with_uid { owners[j].uid@ } else { owners[j].name@ });
        assert(owner_texts(owners, with_uid).contains(text));
        assert(read.deep_view().to_set().contains(text));
        let k = choose|k: int| 0 <= k < read.deep_view().len() && read.deep_view()[k] == text;
        assert(read@[k]@ == read.deep_view()[k]);
        assert(selector_string(t, text) == selector_string(t, read@[k]@));
    }
    assert forall|s: Seq<char>| #[trigger] read.deep_view().contains(s) implies exists|j: int|
        0 <= j < owners.len() && s == colon_join(
            (#[trigger] owners[j]).kind@,
            if with_uid { owners[j].uid@ } else { owners[j].name@ },
        ) by {
        assert(read.deep_view().to_set().contains(s));
        assert(owner_texts(owners, with_uid).contains(s));
    }
}

proof fn lemma_images_read(read: Vec<String>, containers: Seq<Container>, t: WorkloadSelectorType)
    requires
        text_set(read) == image_texts(containers),
    ensures
        forall|j: int|
            0 <= j < containers.len() && (#[trigger] containers[j]).image is Some ==> {
                &&& read.deep_view().contains(containers[j].image->0@)
                &&& typed_selectors(t, read@).contains(selector_string(t, containers[j].image->0@))
            },
        forall|s: Seq<char>| #[trigger] read.deep_view().contains(s) ==> exists|j: int|
            0 <= j < containers.len() && (#[trigger] containers[j]).image is Some
                && containers[j].image->0@ == s,
{
    assert forall|j: int|
        0 <= j < containers.len() && (#[trigger] containers[j]).image is Some implies {
            &&& read.deep_view().contains(containers[j].image->0@)
            &&& typed_selectors(t, read@).contains(selector_string(t, containers[j].image->0@))
        } by {
        let im = containers[j].image->0@;
        assert(names_image(containers[j], im));
        assert(image_texts(containers).contains(im));
        assert(read.deep_view().to_set().contains(im));
        let k = choose|k: int| 0 <= k < read.deep_view().len() && read.deep_view()[k] == im;
        assert(read@[k]@ == read.deep_view()[k]);
        assert(selector_string(t, im) == selector_string(t, read@[k]@));
    }
    assert forall|s: Seq<char>| #[trigger] read.deep_view().contains(s) implies exists|j: int|
        0 <= j < containers.len() && (#[trigger] containers[j]).image is Some
            && containers[j].image->0@ == s by {
        assert(read.deep_view().to_set().contains(s));
        assert(image_texts(containers).contains(s));
        let j = choose|j: int| 0 <= j < containers.len() && names_image(#[trigger] containers[j], s);
        assert(containers[j].image is Some);
    }
}

/// Reads the selector information of a pod: the first missing field is an error, else
/// everything attestation needs.
pub fn get_selector_info(pod: Pod, container_identifiers: ContainerIdentifiers) -> (r: Result<
    SelectorInfo,
    Error,
>)
    ensures
        r is Ok <==> first_missing(pod) is None,
        r matches Err(e) ==> e == Error::MissingField(first_missing(pod)->0),
        r matches Ok(info) ==> describes(info, pod, container_identifiers),
{
    let ghost p = pod;
    let Pod { metadata, spec, status } = pod;
    let pod_spec = match spec {
        Some(s) => s,
        None => {
            return Err(Error::MissingField(MissingField::PodSpec));
        },
    };
    let empty_owners: Vec<OwnerReference> = Vec::new();
    let pod_status = match status {
        Some(s) => s,
        None => {
            return Err(Error::MissingField(MissingField::Status));
        },
    };
    let ObjectMeta { name, uid, namespace, labels, owner_references } = metadata;
    let pod_name = match name {
        Some(n) => n,
        None => {
            return Err(Error::MissingField(MissingField::PodName));
        },
    };
    let pod_uid = match uid {
        Some(n) => n,
        None => {
            return Err(Error::MissingField(MissingField::PodUid));
        },
    };
    let namespace = match namespace {
        Some(n) => n,
        None => {
            return Err(Error::MissingField(MissingField::Namespace));
        },
    };
    let pod_labels = match labels {
        Some(n) => n,
        None => {
            return Err(Error::MissingField(MissingField::PodLabels));
        },
    };
    let PodSpec { node_name, service_account_name, containers, init_containers } = pod_spec;
    let node_name = match node_name {
        Some(n) => n,
        None => {
            return Err(Error::MissingField(MissingField::NodeName));
        },
    };
    let service_account_name = match service_account_name {
        Some(n) => n,
        None => {
            return Err(Error::MissingField(MissingField::ServiceAccountName));
        },
    };
    let owners = match owner_references {
        Some(v) => v,
        None => empty_owners,
    };
    let pod_owner = owner_strings(&owners, false);
    let pod_owner_uid = owner_strings(&owners, true);
    let pod_image = image_strings(&containers);
    let pod_init_image = match init_containers {
        Some(v) => image_strings(&v),
        None => {
            let none: Vec<String> = Vec::new();
            assert(text_set(none) =~= Set::empty());
            none
        },
    };
    let pod_image_count = match &pod_status.container_statuses {
        Some(v) => v.len(),
        None => 0,
    };
    let pod_init_image_count = match &pod_status.init_container_statuses {
        Some(v) => v.len(),
        None => 0,
    };
    let ContainerIdentifiers { name: container_name, image: container_image } =
        container_identifiers;
    Ok(
        SelectorInfo {
            namespace,
            service_account_name,
            container_name,
            container_image,
            node_name,
            pod_labels,
            pod_owner,
            pod_owner_uid,
            pod_uid,
            pod_name,
            pod_image,
            pod_image_count,
            pod_init_image,
            pod_init_image_count,
        },
    )
}


/// The cgroup controller whose path names the workload's pod and container.
pub const PID_CGROUP: &'static str = "pids";

/// Matches a cgroup path of a Kubernetes container: group 1 is the pod uid (with any
/// punctuation between its hex blocks), group 2 the container id (the last path segment).
pub const REGEX_GET_UID: &'static str = "[[:punct:]]pod([[:xdigit:]]{8}[[:punct:]][[:xdigit:]]{4}[[:punct:]][[:xdigit:]]{4}[[:punct:]][[:xdigit:]]{4}[[:punct:]][[:xdigit:]]{12})[[:punct:]](?:[[:^punct:]]+[[:punct:]])*([[:^punct:]]+)$";

/// The capture groups (group 0 first) of the first match of `pattern` in `text`, as the
/// `regex` crate computes them; `None` when the pattern does not compile or does not match.
pub uninterp spec fn regex_captures_of(pattern: Seq<char>, text: Seq<char>) -> Option<
    Seq<Option<Seq<char>>>,
>;

/// Compiles `pattern` with `regex::Regex::new` and takes the capture groups of its first
/// match in `text` (`Regex::captures`). The result is `regex_captures_of(pattern, text)`.
#[verifier::external_body]
fn regex_captures(pattern: &str, text: &str) -> (r: Option<Vec<Option<String>>>)
    ensures
        r.deep_view() == regex_captures_of(pattern@, text@),
{
    match regex::Regex::new(pattern) {
        Ok(re) => re.captures(text).map(
            |caps| caps.iter().map(|m| m.map(|m| m.as_str().to_string())).collect(),
        ),
        Err(_) => None,
    }
}

/// A pod uid in canonical form: every ASCII punctuation character becomes a dash.
pub open spec fn canonical_uid(uid: Seq<char>) -> Seq<char> {
    uid.map_values(|c: char| if is_ascii_punct(c) { '-' } else { c })
}

/// Converts a pod uid, as a cgroup path shows it, to the form Kubernetes uses: any
/// punctuation becomes a dash.
pub fn canonicalize_pod_uid(uid: &str) -> (r: String)
    ensures
        r@ == canonical_uid(uid@),
{
    let chars = to_chars(uid);
    let mut out: Vec<char> = Vec::new();
    let mut i: usize = 0;
    while i < chars.len()
        invariant
            i <= chars.len(),
            chars@ == uid@,
            out@ == canonical_uid(uid@).take(i as int),
        decreases chars.len() - i,
    {
        let c = chars[i];
        out.push(if ascii_punct(c) { '-' } else { c });
        assert(out@ =~= canonical_uid(uid@).take(i + 1));
        i = i + 1;
    }
    assert(canonical_uid(uid@).take(chars.len() as int) =~= canonical_uid(uid@));
    from_chars(out.as_slice())
}

/// The suffix of systemd scope units.
pub open spec fn scope_suffix() -> Seq<char> {
    seq!['.', 's', 'c', 'o', 'p', 'e']
}

/// `s` with every trailing `.scope` removed (`str::trim_end_matches(".scope")`).
pub open spec fn trim_scope(s: Seq<char>) -> Seq<char>
    decreases s.len(),
{
    if s.len() >= 6 && s.subrange(s.len() - 6, s.len() as int) == scope_suffix() {
        trim_scope(s.subrange(0, s.len() - 6))
    } else {
        s
    }
}

fn ends_with_scope(chars: &Vec<char>) -> (r: bool)
    ensures
        r == (chars@.len() >= 6 && chars@.subrange(chars@.len() - 6, chars@.len() as int)
            == scope_suffix()),
{
    let n = chars.len();
    if n < 6 {
        return false;
    }
    let r = chars[n - 6] == '.' && chars[n - 5] == 's' && chars[n - 4] == 'c' && chars[n - 3]
        == 'o' && chars[n - 2] == 'p' && chars[n - 1] == 'e';
    assert(r == (chars@.subrange(n - 6, n as int) =~= scope_suffix()));
    r
}

/// Removes every trailing `.scope`.
pub fn trim_scope_suffix(s: &str) -> (r: String)
    ensures
        r@ == trim_scope(s@),
{
    let mut chars = to_chars(s);
    while ends_with_scope(&chars)
        invariant
            trim_scope(chars@) == trim_scope(s@),
        decreases chars.len(),
    {
        let n = chars.len();
        let ghost before = chars@;
        chars.truncate(n - 6);
        assert(chars@ =~= before.subrange(0, n - 6));
    }
    from_chars(chars.as_slice())
}

/// The container id and canonical pod uid that a regex match gives: group 2, and group 1
/// canonicalized; `None` unless both groups took part in a match.
pub open spec fn ids_from_captures(captures: Option<Seq<Option<Seq<char>>>>) -> Option<
    (Seq<char>, Seq<char>),
> {
    match captures {
        Some(groups) => if groups.len() > 2 && groups[1] is Some && groups[2] is Some {
            Some((groups[2]->0, canonical_uid(groups[1]->0)))
        } else {
            None
        },
        None => None,
    }
}

/// Reads the container id and pod uid out of the capture groups of a cgroup path; without
/// both groups the path is reported as unreadable.
pub fn ids_from_cgroup_captures(path: &str, captures: Option<Vec<Option<String>>>) -> (r: Result<
    (String, String),
    Error,
>)
    ensures
        r is Ok <==> ids_from_captures(captures.deep_view()) is Some,
        r matches Ok(ids) ==> ids_from_captures(captures.deep_view()) == Some((ids.0@, ids.1@)),
        r matches Err(e) ==> (e matches Error::ExtractPodUIDandContainerID(p) && p@ == path@),
{
    match captures {
        Some(groups) => {
            if groups.len() > 2 {
                match (&groups[1], &groups[2]) {
                    (Some(uid), Some(container_id)) => {
                        let pod_uid = canonicalize_pod_uid(uid.as_str());
                        return Ok((container_id.clone(), pod_uid));
                    },
                    _ => {},
                }
            }
            assert(ids_from_captures(Some(groups).deep_view()) is None);
        },
        None => {},
    }
    Err(Error::ExtractPodUIDandContainerID(path.to_owned()))
}

/// The value of the first pair whose key is `key`.
pub open spec fn lookup(pairs: Seq<(String, String)>, key: Seq<char>) -> Option<Seq<char>>
    decreases pairs.len(),
{
    if pairs.len() == 0 {
        None
    } else if pairs[0].0@ == key {
        Some(pairs[0].1@)
    } else {
        lookup(pairs.drop_first(), key)
    }
}

fn find_value<'a>(pairs: &'a Vec<(String, String)>, key: &str) -> (r: Option<&'a String>)
    ensures
        r.deep_view() == lookup(pairs@, key@),
{
    let key_owned = key.to_owned();
    let mut i: usize = 0;
    assert(pairs@.skip(0) =~= pairs@);
    while i < pairs.len()
        invariant
            i <= pairs.len(),
            key_owned@ == key@,
            lookup(pairs@, key@) == lookup(pairs@.skip(i as int), key@),
        decreases pairs.len() - i,
    {
        assert(pairs@.skip(i as int).drop_first() =~= pairs@.skip(i + 1));
        if pairs[i].0 == key_owned {
            return Some(&pairs[i].1);
        }
        i = i + 1;
    }
    None
}

/// Reads the workload's container id and canonical pod uid from its cgroup paths (controller
/// name and path pairs, as for one process): the `pids` path, without trailing `.scope`, is
/// matched against [`REGEX_GET_UID`].
pub fn get_container_id_and_pod_uid_from_cgroup(cgroups: &Vec<(String, String)>) -> (r: Result<
    (String, String),
    Error,
>)
    ensures
        lookup(cgroups@, PID_CGROUP@) is None ==> r == Err::<(String, String), Error>(
            Error::NoPIDcgroup,
        ),
        lookup(cgroups@, PID_CGROUP@) matches Some(path) ==> {
            let trimmed = trim_scope(path);
            let ids = ids_from_captures(regex_captures_of(REGEX_GET_UID@, trimmed));
            &&& (r is Ok <==> ids is Some)
            &&& (r matches Ok(found) ==> ids == Some((found.0@, found.1@)))
            &&& (r matches Err(e) ==> (e matches Error::ExtractPodUIDandContainerID(p) && p@
                == trimmed))
        },
{
    let path = match find_value(cgroups, PID_CGROUP) {
        Some(p) => p,
        None => {
            return Err(Error::NoPIDcgroup);
        },
    };
    let trimmed = trim_scope_suffix(path.as_str());
    let captures = regex_captures(REGEX_GET_UID, trimmed.as_str());
    ids_from_cgroup_captures(trimmed.as_str(), captures)
}


/// The pod has the given uid.
pub open spec fn has_uid(pod: Pod, uid: Seq<char>) -> bool {
    match pod.metadata.uid {
        Some(u) => u@ == uid,
        None => false,
    }
}

/// `i` is the first pod of the list with the given uid.
pub open spec fn first_with_uid(pods: Seq<Pod>, uid: Seq<char>, i: int) -> bool {
    &&& 0 <= i < pods.len()
    &&& has_uid(pods[i], uid)
    &&& forall|j: int| 0 <= j < i ==> !has_uid(#[trigger] pods[j], uid)
}

/// Looks for the workload's container in the pods listed for the node: the first pod with the
/// workload's uid is the workload's pod, and the container must be found in it. Gives the
/// position of that pod and the container's identifiers.
pub fn find_pod_with_container(pods: &Vec<Pod>, container_id: &str, pod_uid: &str) -> (r: Option<
    (usize, ContainerIdentifiers),
>)
    ensures
        r matches Some(found) ==> first_with_uid(pods@, pod_uid@, found.0 as int) && ready_result(
            pods@[found.0 as int],
            container_id@,
            Some(found.1),
        ),
        r is None ==> forall|i: int|
            first_with_uid(pods@, pod_uid@, i) ==> ready_result(pods@[i], container_id@, None),
{
    let uid_owned = pod_uid.to_owned();
    let mut i: usize = 0;
    while i < pods.len()
        invariant
            i <= pods.len(),
            uid_owned@ == pod_uid@,
            forall|j: int| 0 <= j < i ==> !has_uid(#[trigger] pods@[j], pod_uid@),
        decreases pods.len() - i,
    {
        let is_workload_pod = match &pods[i].metadata.uid {
            Some(uid) => *uid == uid_owned,
            None => false,
        };
        if is_workload_pod {
            assert(first_with_uid(pods@, pod_uid@, i as int));
            let found = is_container_ready_in_pod(&pods[i], container_id);
            match found {
                Some(ci) => {
                    return Some((i, ci));
                },
                None => {
                    assert forall|k: int| first_with_uid(pods@, pod_uid@, k) implies ready_result(pods@[k], container_id@, None) by {
                        if k > i {
                            assert(has_uid(pods@[i as int], pod_uid@));
                        }
                    }
                    return None;
                },
            }
        }
        i = i + 1;
    }
    None
}

/// What a poll of the pod list does after the container was not found.
#[derive(Clone, Copy, PartialEq, Eq, Structural, Debug)]
pub enum PollAction {
    /// Wait the retry interval, then list the pods again.
    WaitThenListAgain,
    /// Report the container as not found.
    GiveUp,
}

/// Counts the pod listings of one search for a workload's container.
pub struct PodPoll {
    pub attempt: usize,
    pub max_poll_attempt: usize,
}

impl PodPoll {
    /// A search that has not listed the pods yet.
    pub fn new(max_poll_attempt: usize) -> (r: PodPoll)
        ensures
            r.attempt == 0,
            r.max_poll_attempt == max_poll_attempt,
    {
        PodPoll { attempt: 0, max_poll_attempt }
    }

    /// Records a listing that did not find the container and says what to do next: wait and
    /// list again while fewer than `max_poll_attempt` listings were made, else give up.
    pub fn after_miss(&mut self) -> (r: PollAction)
        requires
            old(self).attempt < old(self).max_poll_attempt || old(self).attempt == 0,
        ensures
            final(self).attempt == old(self).attempt + 1,
            final(self).max_poll_attempt == old(self).max_poll_attempt,
            r == (if final(self).attempt >= final(self).max_poll_attempt {
                PollAction::GiveUp
            } else {
                PollAction::WaitThenListAgain
            }),
    {
        self.attempt = self.attempt + 1;
        if self.attempt >= self.max_poll_attempt {
            PollAction::GiveUp
        } else {
            PollAction::WaitThenListAgain
        }
    }
}

/// A search for a workload's container lists the pods `max(max_poll_attempt, 1)` times before it
/// gives up: each of the first `max_poll_attempt - 1` misses asks to wait the retry interval and
/// list again, and the miss after the last listing gives up at once.
pub proof fn lemma_poll_gives_up_after_max_listings(max_poll_attempt: usize, misses: usize)
    requires
        1 <= misses,
        misses <= max_poll_attempt || misses == 1,
    ensures
        (if misses >= max_poll_attempt {
            PollAction::GiveUp
        } else {
            PollAction::WaitThenListAgain
        }) == PollAction::GiveUp <==> misses == (if max_poll_attempt == 0 {
            1
        } else {
            max_poll_attempt
        }),
{
}


/// The selectors of a workload, from its pod and container: the pod's first missing field is an
/// error, else the selectors derived from what attestation reads.
pub fn selectors_for_pod(pod: Pod, container_identifiers: ContainerIdentifiers) -> (r: Result<
    WorkloadAttributes,
    Error,
>)
    ensures
        r is Ok <==> first_missing(pod) is None,
        r matches Err(e) ==> e == Error::MissingField(first_missing(pod)->0),
        r matches Ok(attributes) ==> exists|info: SelectorInfo|
            describes(info, pod, container_identifiers) && text_set(attributes.selectors)
                == expected_selectors(info),
        r matches Ok(attributes) ==> distinct(attributes.selectors),
{
    let info = get_selector_info(pod, container_identifiers)?;
    let attributes = get_workload_attributes_from_select_info(&info);
    Ok(attributes)
}

} // verus!
