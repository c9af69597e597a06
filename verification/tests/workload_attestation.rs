use iot_edge_spiffe::core_objects::{build_selector_string, WorkloadSelectorType};
use iot_edge_spiffe::workload_attestation::{
    canonicalize_pod_uid, container_status_match_container_id, find_pod_with_container,
    get_container_id_and_pod_uid_from_cgroup, get_container_identitifiers,
    get_selector_info, get_workload_attributes_from_select_info, host_names_container,
    ids_from_cgroup_captures, is_container_ready_in_pod, push_map_into_selectors,
    push_set_into_selectors, selectors_for_pod, trim_scope_suffix, Container,
    ContainerIdentifiers, ContainerStatus, Error, MissingField, ObjectMeta, OwnerReference, Pod,
    PodPoll, PodSpec, PodStatus, PollAction, SelectorInfo, PID_CGROUP,
};

const CONTAINER_ID: &str = "b1946ac92492d2347c6235b4d2611184b1946ac92492d2347c6235b4d2611184";
const INIT_CONTAINER_ID: &str =
    "591785b794601e212b260e25925636fd591785b794601e212b260e25925636fd";
const POD_UID: &str = "75dbabec-9510-11ec-b909-0242ac120002";

fn s(text: &str) -> String {
    text.to_string()
}

fn get_pods() -> Pod {
    Pod {
        metadata: ObjectMeta {
            name: Some(s("pod_name")),
            uid: Some(s(POD_UID)),
            namespace: Some(s("namespace")),
            labels: Some(vec![(s("pod-name"), s("pod"))]),
            owner_references: Some(vec![OwnerReference {
                kind: s("kind"),
                name: s("name"),
                uid: s("uid"),
            }]),
        },
        spec: Some(PodSpec {
            node_name: Some(s("node_name")),
            service_account_name: Some(s("iotedge-spiffe-agent")),
            containers: vec![Container {
                name: s("container_name"),
                image: Some(s("ubuntu:latest")),
            }],
            init_containers: Some(vec![Container {
                name: s("init_container_name"),
                image: Some(s("debian:latest")),
            }]),
        }),
        status: Some(PodStatus {
            container_statuses: Some(vec![ContainerStatus {
                container_id: Some(format!("docker://{}", CONTAINER_ID)),
                image: s("image"),
                image_id: s("image_id"),
                name: s("container_name"),
            }]),
            init_container_statuses: Some(vec![ContainerStatus {
                container_id: Some(format!("docker://{}", INIT_CONTAINER_ID)),
                image: s("init_image"),
                image_id: s("init_image_id"),
                name: s("init_container_name"),
            }]),
        }),
    }
}

fn get_container_status() -> ContainerStatus {
    ContainerStatus {
        container_id: Some(format!("docker://{}", CONTAINER_ID)),
        image: s("image"),
        image_id: s("image_id"),
        name: s("container_name"),
    }
}

fn container_identifiers() -> ContainerIdentifiers {
    ContainerIdentifiers { name: s("name"), image: s("image") }
}

fn pid_cgroups(path: String) -> Vec<(String, String)> {
    vec![(s("pids"), path)]
}

fn missing_field_of(pod: Pod) -> Option<MissingField> {
    match get_selector_info(pod, container_identifiers()) {
        Err(Error::MissingField(field)) => Some(field),
        _ => None,
    }
}

#[test]
fn attest_workload_inner_happy_path() {
    let mut pod1 = get_pods();
    let pod2 = get_pods();
    pod1.metadata.uid = None;
    let mut pods = vec![pod1, pod2];

    let path = format!(
        "/docker/{}/kubepods/besteffort/pod{}/{}",
        CONTAINER_ID, POD_UID, CONTAINER_ID
    );
    let cgroups = pid_cgroups(path);
    let (container_id, pod_uid) = match get_container_id_and_pod_uid_from_cgroup(&cgroups) {
        Ok(ids) => ids,
        Err(_) => panic!("cgroup path not read"),
    };
    let (index, identifiers) =
        find_pod_with_container(&pods, &container_id, &pod_uid).expect("pod found");
    assert_eq!(index, 1);
    let pod = pods.swap_remove(index);
    let workload_selectors = match selectors_for_pod(pod, identifiers) {
        Ok(attributes) => attributes.selectors,
        Err(_) => panic!("selectors not derived"),
    };

    let expected = [
        (WorkloadSelectorType::NameSpace, "namespace"),
        (WorkloadSelectorType::ServiceAccount, "iotedge-spiffe-agent"),
        (WorkloadSelectorType::PodName, "pod_name"),
        (WorkloadSelectorType::PodUID, "75dbabec-9510-11ec-b909-0242ac120002"),
        (WorkloadSelectorType::NodeName, "node_name"),
        (WorkloadSelectorType::PodLabels, "pod-name:pod"),
        (WorkloadSelectorType::ContainerName, "container_name"),
        (WorkloadSelectorType::ContainerImage, "image"),
        (WorkloadSelectorType::PodOwners, "kind:name"),
        (WorkloadSelectorType::PodOwnerUIDs, "kind:uid"),
        (WorkloadSelectorType::PodImages, "ubuntu:latest"),
        (WorkloadSelectorType::PodImageCount, "1"),
        (WorkloadSelectorType::PodInitImages, "debian:latest"),
        (WorkloadSelectorType::PodInitImageCount, "1"),
    ];
    for (selector_type, value) in expected.iter() {
        let selector = build_selector_string(selector_type, value);
        assert!(workload_selectors.contains(&selector), "missing {}", selector);
    }
    assert_eq!(workload_selectors.len(), expected.len());
}

#[test]
fn get_container_identitifiers_no_match() {
    let container_status = ContainerStatus {
        container_id: Some(format!("docker://{}", CONTAINER_ID)),
        image: s("init_image"),
        image_id: s("init_image_id"),
        name: s("init_container_name"),
    };

    let result = get_container_identitifiers(&[container_status], CONTAINER_ID).unwrap();
    assert_eq!(result.name, "init_container_name");
    assert_eq!(result.image, "init_image");

    let container_status = ContainerStatus {
        container_id: Some(format!("docker://{}", CONTAINER_ID)),
        image: s("init_image"),
        image_id: s("init_image_id"),
        name: s("init_container_name"),
    };
    let result = get_container_identitifiers(&[container_status], "dummy_id");
    assert!(result.is_none());
}

#[test]
fn container_status_match_container_id_happy_path() {
    let status = get_container_status();
    assert!(container_status_match_container_id(&status, CONTAINER_ID));
}

#[test]
fn container_status_match_container_id_no_container_id() {
    let mut status = get_container_status();
    status.container_id = None;
    assert!(!container_status_match_container_id(&status, CONTAINER_ID));
}

#[test]
fn container_status_match_container_id_bad_url() {
    let mut status = get_container_status();
    status.container_id = Some(s("no url format"));
    assert!(!container_status_match_container_id(&status, CONTAINER_ID));
}

#[test]
fn container_status_match_container_id_no_host() {
    let mut status = get_container_status();
    status.container_id = Some(s("docker://"));
    assert!(!container_status_match_container_id(&status, CONTAINER_ID));
}

#[test]
fn container_status_match_container_id_no_match() {
    let mut status = get_container_status();
    status.container_id =
        Some(s("docker://111111111111111111111111111111111111111111111111111111111111111"));
    assert!(!container_status_match_container_id(&status, CONTAINER_ID));
}

#[test]
fn is_container_ready_in_pod_happy_path_match_container() {
    let pod = get_pods();
    let result = is_container_ready_in_pod(&pod, CONTAINER_ID).unwrap();
    assert_eq!(result.image, "image");
    assert_eq!(result.name, "container_name");
}

#[test]
fn is_container_ready_in_pod_happy_path_match_init_container() {
    let pod = get_pods();
    let result = is_container_ready_in_pod(&pod, INIT_CONTAINER_ID).unwrap();
    assert_eq!(result.image, "init_image");
    assert_eq!(result.name, "init_container_name");
}

#[test]
fn is_container_ready_in_pod_no_pod_name() {
    let mut pod = get_pods();
    pod.metadata.name = None;
    assert!(is_container_ready_in_pod(&pod, CONTAINER_ID).is_none());
}

#[test]
fn is_container_ready_in_pod_no_pod_status() {
    let mut pod = get_pods();
    pod.status = None;
    assert!(is_container_ready_in_pod(&pod, CONTAINER_ID).is_none());
}

#[test]
fn is_container_ready_in_pod_no_match() {
    let pod = get_pods();
    assert!(is_container_ready_in_pod(&pod, "dummy").is_none());
}

#[test]
fn get_container_id_and_pod_uid_from_cgroup_happy_path() {
    let path = format!(
        "/docker/{}/kubepods/besteffort/pod{}/{}",
        CONTAINER_ID, POD_UID, CONTAINER_ID
    );
    let cgroups = pid_cgroups(path);
    match get_container_id_and_pod_uid_from_cgroup(&cgroups) {
        Ok((container_id, pod_uid)) => {
            assert_eq!(container_id, CONTAINER_ID);
            assert_eq!(pod_uid, POD_UID);
        }
        Err(_) => panic!("cgroup path not read"),
    }
}

#[test]
fn get_container_id_and_pod_uid_from_cgroup_error_no_pid_cgroup() {
    let path = format!(
        "/docker/{}/kubepods/besteffort/pod{}/{}",
        CONTAINER_ID, POD_UID, CONTAINER_ID
    );
    let cgroups = vec![(s("dummy"), path)];
    let result = get_container_id_and_pod_uid_from_cgroup(&cgroups);
    assert!(matches!(result, Err(Error::NoPIDcgroup)));
}

#[test]
fn get_container_id_and_pod_uid_from_cgroup_error_cannot_extract_info() {
    let cgroups = pid_cgroups(s("dummy"));
    let result = get_container_id_and_pod_uid_from_cgroup(&cgroups);
    match result {
        Err(Error::ExtractPodUIDandContainerID(path)) => assert_eq!(path, "dummy"),
        _ => panic!("expected an unreadable path"),
    }
}

#[test]
fn cgroup_systemd_scope_path_is_read() {
    let path = format!(
        "/kubepods.slice/kubepods-besteffort.slice/kubepods-besteffort-pod{}.slice/docker-{}.scope",
        "75dbabec_9510_11ec_b909_0242ac120002", CONTAINER_ID
    );
    let cgroups = pid_cgroups(path);
    match get_container_id_and_pod_uid_from_cgroup(&cgroups) {
        Ok((container_id, pod_uid)) => {
            assert_eq!(container_id, CONTAINER_ID);
            assert_eq!(pod_uid, POD_UID);
        }
        Err(_) => panic!("cgroup path not read"),
    }
}

#[test]
fn cgroup_first_pids_entry_is_used() {
    let good = format!(
        "/docker/{}/kubepods/besteffort/pod{}/{}",
        CONTAINER_ID, POD_UID, CONTAINER_ID
    );
    let cgroups = vec![(s("cpu"), s("dummy")), (s("pids"), good), (s("pids"), s("dummy"))];
    assert!(get_container_id_and_pod_uid_from_cgroup(&cgroups).is_ok());
    assert_eq!(PID_CGROUP, "pids");
}

#[test]
fn get_pod_happy_path() {
    let pods = vec![get_pods(), get_pods()];
    let (index, container_identifiers) =
        find_pod_with_container(&pods, CONTAINER_ID, POD_UID).unwrap();
    assert_eq!(index, 0);
    assert_eq!(container_identifiers.name, "container_name");
    assert_eq!(container_identifiers.image, "image");
}

#[test]
fn get_pod_error_pod_not_found() {
    let mut pod1 = get_pods();
    let mut pod2 = get_pods();
    pod1.status = None;
    pod2.status = None;
    let pods = vec![pod1, pod2];

    let mut poll = PodPoll::new(2);
    let mut listings = 0;
    let error = loop {
        listings += 1;
        if find_pod_with_container(&pods, CONTAINER_ID, POD_UID).is_some() {
            panic!("container must not be found");
        }
        match poll.after_miss() {
            PollAction::WaitThenListAgain => continue,
            PollAction::GiveUp => {
                break Error::ContainerNotFoundInPod {
                    container_id: s(CONTAINER_ID),
                    pod_uid: s(POD_UID),
                }
            }
        }
    };
    assert_eq!(listings, 2);
    assert!(matches!(error, Error::ContainerNotFoundInPod { .. }));
}

#[test]
fn pod_poll_with_zero_attempts_lists_once() {
    let mut poll = PodPoll::new(0);
    assert_eq!(poll.after_miss(), PollAction::GiveUp);
    assert_eq!(poll.attempt, 1);
}

#[test]
fn find_pod_without_uid_match_is_none() {
    let pods = vec![get_pods()];
    assert!(find_pod_with_container(&pods, CONTAINER_ID, "other-uid").is_none());
}

#[test]
fn find_pod_stops_at_first_pod_with_uid() {
    let mut first = get_pods();
    first.status = None;
    let pods = vec![first, get_pods()];
    assert!(find_pod_with_container(&pods, CONTAINER_ID, POD_UID).is_none());
}

#[test]
fn get_selector_info_happy_path() {
    let info = match get_selector_info(get_pods(), container_identifiers()) {
        Ok(info) => info,
        Err(_) => panic!("selector info not read"),
    };
    assert_eq!(info.pod_name, "pod_name");
    assert_eq!(info.pod_uid, POD_UID);
    assert_eq!(info.namespace, "namespace");
    assert_eq!(info.node_name, "node_name");
    assert_eq!(info.service_account_name, "iotedge-spiffe-agent");
    assert_eq!(info.container_name, "name");
    assert_eq!(info.container_image, "image");
    assert_eq!(info.pod_owner, vec![s("kind:name")]);
    assert_eq!(info.pod_owner_uid, vec![s("kind:uid")]);
    assert_eq!(info.pod_image, vec![s("ubuntu:latest")]);
    assert_eq!(info.pod_init_image, vec![s("debian:latest")]);
    assert_eq!(info.pod_image_count, 1);
    assert_eq!(info.pod_init_image_count, 1);
}

#[test]
fn get_selector_info_error_no_spec() {
    let mut pod = get_pods();
    pod.spec = None;
    assert_eq!(missing_field_of(pod), Some(MissingField::PodSpec));
}

#[test]
fn get_selector_info_error_no_status() {
    let mut pod = get_pods();
    pod.status = None;
    assert_eq!(missing_field_of(pod), Some(MissingField::Status));
}

#[test]
fn get_selector_info_error_no_pod_name() {
    let mut pod = get_pods();
    pod.metadata.name = None;
    assert_eq!(missing_field_of(pod), Some(MissingField::PodName));
}

#[test]
fn get_selector_info_error_no_pod_uid() {
    let mut pod = get_pods();
    pod.metadata.uid = None;
    assert_eq!(missing_field_of(pod), Some(MissingField::PodUid));
}

#[test]
fn get_selector_info_error_no_namespace() {
    let mut pod = get_pods();
    pod.metadata.namespace = None;
    assert_eq!(missing_field_of(pod), Some(MissingField::Namespace));
}

#[test]
fn get_selector_info_error_no_label() {
    let mut pod = get_pods();
    pod.metadata.labels = None;
    assert_eq!(missing_field_of(pod), Some(MissingField::PodLabels));
}

#[test]
fn get_selector_info_error_no_node_name() {
    let mut pod = get_pods();
    if let Some(spec) = &mut pod.spec {
        spec.node_name = None;
    }
    assert_eq!(missing_field_of(pod), Some(MissingField::NodeName));
}

#[test]
fn get_selector_info_error_no_service_account_name() {
    let mut pod = get_pods();
    if let Some(spec) = &mut pod.spec {
        spec.service_account_name = None;
    }
    assert_eq!(missing_field_of(pod), Some(MissingField::ServiceAccountName));
}

#[test]
fn selector_info_duplicates_are_dropped() {
    let info = SelectorInfo {
        namespace: s("ns"),
        service_account_name: s("sa"),
        container_name: s("c"),
        container_image: s("img"),
        node_name: s("node"),
        pod_labels: vec![(s("a"), s("b")), (s("a"), s("b"))],
        pod_owner: vec![s("k:n")],
        pod_owner_uid: vec![s("k:u")],
        pod_uid: s("uid"),
        pod_name: s("pod"),
        pod_image: vec![s("x"), s("x")],
        pod_image_count: 12,
        pod_init_image: Vec::new(),
        pod_init_image_count: 0,
    };
    let selectors = get_workload_attributes_from_select_info(&info).selectors;
    let count = |text: &str| selectors.iter().filter(|x| x.as_str() == text).count();
    assert_eq!(count("PodLabels:a:b"), 1);
    assert_eq!(count("PodImages:x"), 1);
    assert_eq!(count("PodImageCount:12"), 1);
    assert_eq!(count("PodInitImageCount:0"), 1);
    assert_eq!(count("NameSpace:ns"), 1);
    assert_eq!(selectors.len(), 13);
}

#[test]
fn push_set_and_map_into_selectors() {
    let mut selectors = vec![s("PodOwners:a")];
    push_set_into_selectors(
        &mut selectors,
        &vec![s("a"), s("b")],
        &WorkloadSelectorType::PodOwners,
    );
    assert_eq!(selectors, vec![s("PodOwners:a"), s("PodOwners:b")]);
    push_map_into_selectors(
        &mut selectors,
        &vec![(s("k"), s("v"))],
        &WorkloadSelectorType::PodLabels,
    );
    assert_eq!(selectors, vec![s("PodOwners:a"), s("PodOwners:b"), s("PodLabels:k:v")]);
}

#[test]
fn canonical_uid_and_scope_trim() {
    assert_eq!(canonicalize_pod_uid("ab_cd.ef-gh"), "ab-cd-ef-gh");
    assert_eq!(trim_scope_suffix("docker-1.scope.scope"), "docker-1");
    assert_eq!(trim_scope_suffix("scope"), "scope");
}

#[test]
fn captures_without_groups_are_refused() {
    let result = ids_from_cgroup_captures("p", Some(vec![Some(s("whole")), None, Some(s("c"))]));
    assert!(matches!(result, Err(Error::ExtractPodUIDandContainerID(_))));
    let result = ids_from_cgroup_captures("p", None);
    assert!(matches!(result, Err(Error::ExtractPodUIDandContainerID(_))));
    match ids_from_cgroup_captures("p", Some(vec![None, Some(s("a_b")), Some(s("c"))])) {
        Ok((container_id, pod_uid)) => {
            assert_eq!(container_id, "c");
            assert_eq!(pod_uid, "a-b");
        }
        Err(_) => panic!("groups present"),
    }
}

#[test]
fn host_comparison() {
    assert!(host_names_container(Some(s("abc")), "abc"));
    assert!(!host_names_container(Some(s("abc")), "abd"));
    assert!(!host_names_container(None, "abc"));
}

#[test]
fn pod_poll_waits_between_listings() {
    let mut poll = PodPoll::new(3);
    assert_eq!(poll.after_miss(), PollAction::WaitThenListAgain);
    assert_eq!(poll.after_miss(), PollAction::WaitThenListAgain);
    assert_eq!(poll.after_miss(), PollAction::GiveUp);
}
