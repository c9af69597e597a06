use iot_edge_spiffe::core_objects::{
    AttestationConfig, EntryNodeAttestation, EntryWorkloadAttestation, IdentityTypes, IoTHubId,
    NodeAttestationPlugin, RegistrationEntry, WorkloadAttestationPlugin, SPIFFEID,
};
use iot_edge_spiffe::identity_manager::entries_client::{base_url, list_entries_url, EntryPages};
use iot_edge_spiffe::identity_manager::fake_connector::SpiffeFakeConnector;
use iot_edge_spiffe::identity_manager::reconcile::{
    plan_reconcile, registration_entry_from_config, should_modify_entry, ConfigEntry,
    ReconcileConfig, ReconcilePlan, Reconciler,
};

fn node_attestation(plugin: NodeAttestationPlugin) -> AttestationConfig {
    AttestationConfig::Node(EntryNodeAttestation { value: Vec::new(), plugin })
}

fn existing_entry(id: &str, path: &str, plugin: NodeAttestationPlugin, revision: u64) -> RegistrationEntry {
    RegistrationEntry {
        id: id.to_string(),
        other_identities: Vec::new(),
        spiffe_id: SPIFFEID { trust_domain: String::new(), path: path.to_string() },
        attestation_config: node_attestation(plugin),
        admin: false,
        ttl: 0,
        expires_at: 0,
        dns_names: Vec::new(),
        revision_number: revision,
        store_svid: false,
    }
}

fn config_entry(id: &str, path: &str, plugin: NodeAttestationPlugin) -> ConfigEntry {
    ConfigEntry {
        spiffe_id: id.to_string(),
        spiffe_id_path: path.to_string(),
        attestation_config: node_attestation(plugin),
        other_identities: Vec::new(),
        parent_id: None,
    }
}

fn config(entries: Vec<ConfigEntry>) -> ReconcileConfig {
    ReconcileConfig { trust_domain: String::new(), server_socket_path: String::new(), entries }
}

fn apply_config(reconciler: &Reconciler, config: ReconcileConfig, connector: &mut SpiffeFakeConnector) {
    let existing = connector.get_identities();
    let ReconcilePlan { entries_to_delete, entries_to_add } = reconciler.plan(config, &existing);
    if !entries_to_delete.is_empty() {
        connector.delete_identities(entries_to_delete);
    }
    if !entries_to_add.is_empty() {
        connector.create_identities(entries_to_add);
    }
}

fn plugin_of(entry: &RegistrationEntry) -> Option<NodeAttestationPlugin> {
    match &entry.attestation_config {
        AttestationConfig::Node(n) => Some(n.plugin),
        AttestationConfig::Workload(_) => None,
    }
}

#[test]
fn test_add_entry() {
    let mut fake_connector = SpiffeFakeConnector::new();
    let reconciler = Reconciler::new(String::new());
    let config = config(vec![config_entry("1", "test", NodeAttestationPlugin::Psat)]);

    let current_entries = fake_connector.get_identities();
    assert_eq!(current_entries.len(), 0);

    apply_config(&reconciler, config, &mut fake_connector);

    let current_entries = fake_connector.get_identities();
    assert_eq!(current_entries.len(), 1);
    assert_eq!(current_entries[0].id, "1");
}

#[test]
fn test_remove_entry() {
    let mut fake_connector = SpiffeFakeConnector::with_identities(vec![existing_entry(
        "2",
        "test2",
        NodeAttestationPlugin::Psat,
        0,
    )]);
    let reconciler = Reconciler::new(String::new());

    let current_entries = fake_connector.get_identities();
    assert_eq!(current_entries.len(), 1);

    apply_config(&reconciler, config(Vec::new()), &mut fake_connector);

    let current_entries = fake_connector.get_identities();
    assert_eq!(current_entries.len(), 0);
}

#[test]
fn test_modify_entry() {
    let mut fake_connector = SpiffeFakeConnector::with_identities(vec![existing_entry(
        "3",
        "test3",
        NodeAttestationPlugin::Psat,
        5,
    )]);
    let reconciler = Reconciler::new(String::new());
    let config = config(vec![config_entry("3", "test3", NodeAttestationPlugin::Sat)]);

    let current_entries = fake_connector.get_identities();
    assert_eq!(current_entries.len(), 1);
    assert_eq!(current_entries[0].id, "3");
    assert_eq!(current_entries[0].spiffe_id.path, "test3");
    assert_eq!(current_entries[0].revision_number, 5);
    assert_eq!(plugin_of(&current_entries[0]), Some(NodeAttestationPlugin::Psat));

    apply_config(&reconciler, config, &mut fake_connector);

    let current_entries = fake_connector.get_identities();
    assert_eq!(current_entries.len(), 1);
    assert_eq!(current_entries[0].id, "3");
    assert_eq!(current_entries[0].spiffe_id.path, "test3");
    assert_eq!(current_entries[0].revision_number, 6);
    assert_eq!(plugin_of(&current_entries[0]), Some(NodeAttestationPlugin::Sat));
}

#[test]
fn unchanged_entry_is_left_alone() {
    let desired = vec![registration_entry_from_config(
        &String::new(),
        config_entry("4", "same", NodeAttestationPlugin::Psat),
    )];
    let existing = vec![existing_entry("4", "same", NodeAttestationPlugin::Psat, 9)];
    let plan = plan_reconcile(&desired, &existing);
    assert!(plan.entries_to_delete.is_empty());
    assert!(plan.entries_to_add.is_empty());
}

#[test]
fn reconcile_converges_on_mixed_changes() {
    let existing = vec![
        existing_entry("a", "keep", NodeAttestationPlugin::Psat, 1),
        existing_entry("b", "old", NodeAttestationPlugin::Psat, 7),
        existing_entry("c", "gone", NodeAttestationPlugin::Sat, 1),
        existing_entry("b", "older-copy", NodeAttestationPlugin::Sat, 2),
    ];
    let mut connector = SpiffeFakeConnector::with_identities(existing);
    let reconciler = Reconciler::new(String::from("config.toml"));
    let config = config(vec![
        config_entry("a", "keep", NodeAttestationPlugin::Psat),
        config_entry("b", "new", NodeAttestationPlugin::Psat),
        config_entry("d", "fresh", NodeAttestationPlugin::Sat),
    ]);

    let existing = connector.get_identities();
    let plan = reconciler.plan(config, &existing);
    assert_eq!(plan.entries_to_delete, vec!["b".to_string(), "c".to_string()]);
    let added: Vec<&str> = plan.entries_to_add.iter().map(|e| e.id.as_str()).collect();
    assert_eq!(added, vec!["b", "d"]);
    assert_eq!(plan.entries_to_add[0].revision_number, 3);
    assert_eq!(plan.entries_to_add[1].revision_number, 1);

    connector.delete_identities(plan.entries_to_delete);
    connector.create_identities(plan.entries_to_add);
    let ids: Vec<String> = connector.get_identities().iter().map(|e| e.id.clone()).collect();
    assert_eq!(ids, vec!["a".to_string(), "b".to_string(), "d".to_string()]);
    assert_eq!(connector.removed_identities, vec!["b".to_string(), "c".to_string()]);
    assert_eq!(connector.added_identities.len(), 2);
}

#[test]
fn entry_from_config_has_fixed_fields() {
    let entry = registration_entry_from_config(
        &String::from("td"),
        ConfigEntry {
            spiffe_id: "id".to_string(),
            spiffe_id_path: "p".to_string(),
            attestation_config: AttestationConfig::Workload(EntryWorkloadAttestation {
                parent_id: "parent".to_string(),
                value: vec!["NameSpace:ns".to_string()],
                plugin: WorkloadAttestationPlugin::K8s,
            }),
            other_identities: vec![IdentityTypes::IoTHub(IoTHubId {
                iot_hub_hostname: "hub".to_string(),
                device_id: "dev".to_string(),
                module_id: "mod".to_string(),
            })],
            parent_id: Some("parent".to_string()),
        },
    );
    assert_eq!(entry.id, "id");
    assert_eq!(entry.spiffe_id.trust_domain, "td");
    assert_eq!(entry.spiffe_id.path, "p");
    assert!(entry.admin);
    assert_eq!(entry.ttl, u64::MAX);
    assert_eq!(entry.expires_at, u64::MAX);
    assert_eq!(entry.dns_names, vec!["mydns".to_string()]);
    assert_eq!(entry.revision_number, 1);
    assert!(entry.store_svid);
    assert_eq!(entry.other_identities.len(), 1);
}

#[test]
fn modification_is_decided_by_identity_fields() {
    let a = existing_entry("x", "p", NodeAttestationPlugin::Psat, 1);
    let mut b = existing_entry("x", "p", NodeAttestationPlugin::Psat, 2);
    b.admin = true;
    b.dns_names = vec!["other".to_string()];
    assert!(!should_modify_entry(&a, &b));
    let c = existing_entry("x", "q", NodeAttestationPlugin::Psat, 1);
    assert!(should_modify_entry(&a, &c));
    let d = existing_entry("x", "p", NodeAttestationPlugin::Sat, 1);
    assert!(should_modify_entry(&a, &d));
    let e = existing_entry("y", "p", NodeAttestationPlugin::Psat, 1);
    assert!(should_modify_entry(&a, &e));
}

#[test]
fn fake_connector_deletes_by_id() {
    let mut connector = SpiffeFakeConnector::with_identities(vec![
        existing_entry("1", "a", NodeAttestationPlugin::Psat, 1),
        existing_entry("2", "b", NodeAttestationPlugin::Psat, 1),
        existing_entry("1", "c", NodeAttestationPlugin::Psat, 1),
    ]);
    connector.delete_identities(vec!["1".to_string(), "9".to_string()]);
    let ids: Vec<String> = connector.get_identities().iter().map(|e| e.id.clone()).collect();
    assert_eq!(ids, vec!["2".to_string()]);
    assert_eq!(connector.removed_identities.len(), 2);
}

#[test]
fn entry_listing_urls_and_pages() {
    assert_eq!(base_url(), "https://spiffieserver.sock/entries?api-version=2022-06-01");
    assert_eq!(
        list_entries_url(None),
        "https://spiffieserver.sock/entries?api-version=2022-06-01&page_size=20"
    );
    assert_eq!(
        list_entries_url(Some("abc%3D")),
        "https://spiffieserver.sock/entries?api-version=2022-06-01&page_size=20&page_token=abc%3D"
    );
    let mut pages = EntryPages::first(
        vec![existing_entry("1", "a", NodeAttestationPlugin::Psat, 1)],
        Some("t".to_string()),
    );
    assert!(!pages.is_complete());
    pages.add_page(vec![existing_entry("2", "b", NodeAttestationPlugin::Psat, 1)], None);
    assert!(pages.is_complete());
    assert_eq!(pages.entries.len(), 2);
    assert_eq!(pages.entries[1].id, "2");
}

#[test]
fn reconcile_twice_changes_nothing() {
    let mut connector = SpiffeFakeConnector::with_identities(vec![
        existing_entry("a", "keep", NodeAttestationPlugin::Psat, 1),
        existing_entry("b", "new", NodeAttestationPlugin::Psat, 4),
        existing_entry("b", "old", NodeAttestationPlugin::Psat, 2),
        existing_entry("c", "gone", NodeAttestationPlugin::Sat, 1),
    ]);
    let reconciler = Reconciler::new(String::new());
    let entries = || {
        vec![
            config_entry("a", "keep", NodeAttestationPlugin::Psat),
            config_entry("b", "new", NodeAttestationPlugin::Psat),
            config_entry("d", "fresh", NodeAttestationPlugin::Sat),
        ]
    };
    apply_config(&reconciler, config(entries()), &mut connector);
    let existing = connector.get_identities();
    let plan = reconciler.plan(config(entries()), &existing);
    assert!(plan.entries_to_delete.is_empty());
    assert!(plan.entries_to_add.is_empty());
}

#[test]
fn unchanged_entry_at_the_last_revision_is_accepted() {
    let existing = vec![
        existing_entry("a", "keep", NodeAttestationPlugin::Psat, u64::MAX),
        existing_entry("z", "gone", NodeAttestationPlugin::Psat, u64::MAX),
    ];
    let reconciler = Reconciler::new(String::new());
    let plan = reconciler.plan(config(vec![config_entry("a", "keep", NodeAttestationPlugin::Psat)]), &existing);
    assert_eq!(plan.entries_to_delete, vec!["z".to_string()]);
    assert!(plan.entries_to_add.is_empty());
}
