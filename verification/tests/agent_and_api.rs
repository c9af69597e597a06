use iot_edge_spiffe::agent_config::{
    default_max_poll_attempt, default_max_retry, default_node_attestation_config,
    default_poll_retry_interval_ms, default_token_path, default_trust_bundle_manager_config,
    default_wait_retry_sec, default_workload_attestation_config, NodeAttestationConfig,
    NodeAttestationConfigK8s, ServerConfig, WorkloadAttestationConfig,
};
use iot_edge_spiffe::catalog::{Catalog, CatalogConfig, CatalogFactory, JWTTrustDomain};
use iot_edge_spiffe::core_objects::{
    build_selector_string, get_epoch_time, ClockError, AttestationConfig, EntryNodeAttestation,
    EntryWorkloadAttestation, JWKSet, JWTSVIDCompact, NodeAttestationPlugin, RegistrationEntry,
    TrustBundle, WorkloadAttestationPlugin, WorkloadSelector, WorkloadSelectorType, SPIFFEID,
};
use iot_edge_spiffe::identity_manager::config::{
    AttestationPlugin, AuthMethod, Config as ManagerConfig,
};
use iot_edge_spiffe::identity_matcher::{match_entry, match_selectors, parent_id_of, PAGE_SIZE};
use iot_edge_spiffe::key_store::{KeyStore, KeyStoreConfigDisk};
use iot_edge_spiffe::node_attestation::{NodeAttestation, NodeAttestatorFactory};
use iot_edge_spiffe::server_agent_api::get_trust_bundle;
use iot_edge_spiffe::server_agent_api::ApiVersion;
use iot_edge_spiffe::server_client::{
    attest_agent_uri, attest_agent_url, create_workload_jwt, create_workload_jwts_uri,
    create_workload_jwts_url, get_trust_bundle_uri, get_trust_bundle_url, server_address_url,
    server_url, ClientError,
};
use iot_edge_spiffe::server_agent_api::create_workload_jwt as jwt_api;
use iot_edge_spiffe::text::{
    ascii_punct, contains_text, decimal_string, from_chars, join_colon, set_insert,
    split_chars, to_chars,
};
use iot_edge_spiffe::trust_bundle_manager::{
    trust_bundle_params, Error as TrustBundleError, InitRetry, RetryDecision, TrustBundleManager,
};
use iot_edge_spiffe::workload_api_server::{create_workload_jwts_request, jwt_svids_to_response};

fn s(text: &str) -> String {
    text.to_string()
}

fn bundle(trust_domain: &str, hint: u64) -> TrustBundle {
    let set = |h: u64| JWKSet { keys: Vec::new(), spiffe_refresh_hint: h, spiffe_sequence_number: 0 };
    TrustBundle { trust_domain: s(trust_domain), jwt_key_set: set(hint), x509_key_set: set(0) }
}

fn entry(id: &str, attestation_config: AttestationConfig) -> RegistrationEntry {
    RegistrationEntry {
        id: s(id),
        other_identities: Vec::new(),
        spiffe_id: SPIFFEID { trust_domain: s("td"), path: s(id) },
        attestation_config,
        admin: false,
        ttl: 0,
        expires_at: 0,
        dns_names: Vec::new(),
        revision_number: 0,
        store_svid: false,
    }
}

fn workload_entry(selectors: Vec<String>) -> RegistrationEntry {
    entry(
        "workload",
        AttestationConfig::Workload(EntryWorkloadAttestation {
            parent_id: s("parent"),
            value: selectors,
            plugin: WorkloadAttestationPlugin::K8s,
        }),
    )
}

fn node_entry(selectors: Vec<String>) -> RegistrationEntry {
    entry(
        "parent",
        AttestationConfig::Node(EntryNodeAttestation {
            value: selectors,
            plugin: NodeAttestationPlugin::Psat,
        }),
    )
}

#[test]
fn get_init_trust_bundle_happy_path() {
    let mut retry = InitRetry::new(default_max_retry());
    let responses: Vec<Result<TrustBundle, String>> =
        vec![Err(s("dummy")), Ok(bundle("trust_domain", 1234))];
    let mut got = None;
    for response in responses {
        match response {
            Ok(b) => {
                got = Some(b);
                break;
            }
            Err(_) => assert_eq!(retry.after_failure(), RetryDecision::WaitAndRetry),
        }
    }
    let manager = TrustBundleManager::new(got.expect("bundle"));
    let cached = manager.get_cached_trust_bundle();
    assert_eq!(cached.trust_domain, "trust_domain");
    assert_eq!(cached.jwt_key_set.spiffe_refresh_hint, 1234);
    assert_eq!(retry.retry, 1);
}

#[test]
fn get_init_trust_bundle_error() {
    let mut retry = InitRetry::new(3);
    let mut requests = 0;
    let error = loop {
        requests += 1;
        match retry.after_failure() {
            RetryDecision::WaitAndRetry => continue,
            RetryDecision::GiveUp => break TrustBundleError::InitTrustBundle(s("dummy")),
        }
    };
    assert_eq!(requests, 4);
    assert!(matches!(error, TrustBundleError::InitTrustBundle(_)));
}

#[test]
fn refresh_trust_bundle_error_path() {
    let mut manager = TrustBundleManager::new(bundle("trust_domain", 1));
    let result = manager.refresh_trust_bundle(Err(s("dummy")));
    match result {
        Err(TrustBundleError::TrustBundle(message)) => assert_eq!(message, "dummy"),
        _ => panic!("expected an error"),
    }
    assert_eq!(manager.get_cached_trust_bundle().jwt_key_set.spiffe_refresh_hint, 1);
}

#[test]
fn refresh_trust_bundle_and_get_cached_trust_bundle_happy_path() {
    let mut manager = TrustBundleManager::new(bundle("trust_domain", 1));
    let response = get_trust_bundle::Response { trust_bundle: bundle("trust_domain", 1234) };
    assert!(manager.refresh_trust_bundle(Ok(response)).is_ok());
    let cached = manager.get_cached_trust_bundle();
    assert_eq!(cached.jwt_key_set.spiffe_refresh_hint, 1234);
    assert_eq!(cached.trust_domain, "trust_domain");
}

#[test]
fn trust_bundle_request_asks_for_jwt_keys_only() {
    let params = trust_bundle_params();
    assert!(params.jwt_keys);
    assert!(!params.x509_cas);
}

#[test]
fn match_entry_happy_path() {
    let workload = workload_entry(vec![s("NameSpace:ns"), s("PodName:p")]);
    let parent = node_entry(vec![s("AgentNameSpace:ns")]);
    let workload_selectors = vec![s("PodName:p"), s("NameSpace:ns"), s("NodeName:n")];
    let parent_selectors = vec![s("AgentNameSpace:ns")];
    assert!(match_entry(&workload_selectors, &workload, &parent, &parent_selectors));
    assert_eq!(parent_id_of(&workload).map(|p| p.as_str()), Some("parent"));
}

#[test]
fn match_entry_cannot_match_parent_test() {
    let workload = workload_entry(vec![s("NameSpace:ns")]);
    let parent = node_entry(vec![s("AgentNameSpace:ns")]);
    let workload_selectors = vec![s("NameSpace:ns")];
    assert!(!match_entry(&workload_selectors, &workload, &parent, &vec![s("AgentNameSpace:other")]));
}

#[test]
fn match_entry_bad_worload_selector_test() {
    let workload = workload_entry(vec![s("NameSpace:ns"), s("PodName:p")]);
    let parent = node_entry(Vec::new());
    assert!(!match_entry(&vec![s("NameSpace:ns")], &workload, &parent, &Vec::new()));
}

#[test]
fn match_entry_parent_do_not_match() {
    let workload = workload_entry(Vec::new());
    let parent = workload_entry(Vec::new());
    assert!(!match_entry(&Vec::new(), &workload, &parent, &Vec::new()));
    let node = node_entry(Vec::new());
    assert!(parent_id_of(&node).is_none());
    assert!(!match_entry(&Vec::new(), &node, &node, &Vec::new()));
}

#[test]
fn extra_selectors_keep_a_match() {
    let workload = workload_entry(vec![s("NameSpace:ns")]);
    let parent = node_entry(vec![s("AgentNameSpace:ns")]);
    let few = vec![s("NameSpace:ns")];
    let many = vec![s("PodUID:u"), s("NameSpace:ns"), s("NodeName:n")];
    let parent_few = vec![s("AgentNameSpace:ns")];
    let parent_many = vec![s("AgentNameSpace:ns"), s("AgentPodName:p")];
    assert!(match_entry(&few, &workload, &parent, &parent_few));
    assert!(match_entry(&many, &workload, &parent, &parent_many));
    assert!(match_selectors(&Vec::new(), &Vec::new()));
    assert_eq!(PAGE_SIZE, 100);
}

#[test]
fn uris_carry_the_api_version() {
    assert_eq!(create_workload_jwts_uri(), "workload-jwts?api-version=2022-06-01");
    assert_eq!(get_trust_bundle_uri(), "trust-bundle?api-version=2022-06-01");
    assert_eq!(attest_agent_uri(), "attest-agent?api-version=2022-06-01");
    assert_eq!(ApiVersion::V2022_06_01.to_string(), "2022-06-01");
    assert_eq!(ApiVersion::parse("2022-06-01"), Ok(ApiVersion::V2022_06_01));
    assert_eq!(ApiVersion::parse("2022-06-02"), Err(()));
    assert_eq!("2022-06-01".parse::<ApiVersion>(), Ok(ApiVersion::V2022_06_01));
}

#[test]
fn server_urls() {
    let config = ServerConfig { address: s("localhost"), port: 8443 };
    assert_eq!(server_url(&config), "http://localhost:8443");
    let base = match server_address_url(&config) {
        Ok(u) => u,
        Err(_) => panic!("address refused"),
    };
    assert_eq!(base, "http://localhost:8443/");
    assert_eq!(
        create_workload_jwts_url(&base),
        "http://localhost:8443/workload-jwts?api-version=2022-06-01"
    );
    let params = get_trust_bundle::Params { jwt_keys: true, x509_cas: false };
    assert_eq!(
        get_trust_bundle_url(&base, &params),
        "http://localhost:8443/trust-bundle?api-version=2022-06-01&jwt_keys=true&x509_cas=false"
    );
    assert_eq!(
        attest_agent_url(&base, &s("tok")),
        "http://localhost:8443/attest-agent?api-version=2022-06-01&token=tok"
    );
}

#[test]
fn malformed_server_address_is_refused() {
    let config = ServerConfig { address: s("bad host"), port: 1 };
    assert!(matches!(server_address_url(&config), Err(ClientError::InvalidAddress(_))));
}

#[test]
fn placeholder_jwt_issuance() {
    let response = create_workload_jwt(jwt_api::Request { id: s("id"), audiences: Vec::new() });
    assert_eq!(response.jwt_svid.token, "dummy");
    assert_eq!(response.jwt_svid.spiffe_id.to_string(), "dummy/dummy");
    assert_eq!(response.jwt_svid.expiry, 0);
}

#[test]
fn lib_fetch_jwtsvid_happy_path() {
    let request = create_workload_jwts_request(
        s("trust_domain/path"),
        vec![s("audience")],
        vec![s("NameSpace:ns")],
        s("token"),
    );
    assert_eq!(request.workload_spiffe_id, Some(s("trust_domain/path")));
    assert_eq!(request.attestation_token, "token");
    assert_eq!(request.audiences, vec![s("audience")]);
    assert_eq!(request.selectors, vec![s("NameSpace:ns")]);

    let svid = JWTSVIDCompact {
        token: s("token"),
        spiffe_id: SPIFFEID { trust_domain: s("trust_domain"), path: s("path") },
        expiry: 0,
        issued_at: 0,
    };
    let response = jwt_svids_to_response(vec![svid]);
    assert_eq!(response.len(), 1);
    assert_eq!(response[0].spiffe_id, "trust_domain/path");
    assert_eq!(response[0].svid, "token");
}

#[test]
fn empty_spiffe_id_asks_for_all_identities() {
    let request = create_workload_jwts_request(String::new(), Vec::new(), Vec::new(), s("t"));
    assert!(request.workload_spiffe_id.is_none());
}

#[test]
fn agent_config_defaults() {
    assert_eq!(default_token_path(), "/var/run/secrets/tokens/iotedge-spiffe-agent");
    assert_eq!(default_max_poll_attempt(), 60);
    assert_eq!(default_poll_retry_interval_ms(), 500);
    assert_eq!(default_max_retry(), 3);
    assert_eq!(default_wait_retry_sec(), 2);
    let trust = default_trust_bundle_manager_config();
    assert_eq!((trust.max_retry, trust.wait_retry_sec), (3, 2));
    match default_workload_attestation_config() {
        WorkloadAttestationConfig::K8s(c) => {
            assert_eq!((c.max_poll_attempt, c.poll_retry_interval_ms), (60, 500))
        }
    }
    match default_node_attestation_config() {
        NodeAttestationConfig::Psat(c) => {
            assert_eq!(c.token_path, "/var/run/secrets/tokens/iotedge-spiffe-agent")
        }
        NodeAttestationConfig::Sat(_) => panic!("expected a projected token"),
    }
}

#[test]
fn node_attestation_reads_the_configured_token() {
    let sat = NodeAttestationConfig::Sat(NodeAttestationConfigK8s { token_path: s("/a") });
    assert_eq!(NodeAttestatorFactory::get(&sat).token_path, "/a");
    let psat = NodeAttestationConfig::Psat(NodeAttestationConfigK8s { token_path: s("/b") });
    assert_eq!(NodeAttestatorFactory::get(&psat).token_path, "/b");
    let direct = NodeAttestation::new(&NodeAttestationConfigK8s { token_path: s("/c") });
    assert_eq!(direct.token_path, "/c");
}

#[test]
fn manager_config_defaults() {
    let config = ManagerConfig::default();
    assert_eq!(config.trust_domain, "");
    assert_eq!(config.node_attestation_plugin, AttestationPlugin::Psat);
    assert!(config.entry.is_empty());
    assert!(matches!(config.provisioning.auth, AuthMethod::X509(_)));
}

#[test]
fn key_paths() {
    let store = KeyStore::new(&KeyStoreConfigDisk { key_base_path: s("/keys") });
    assert_eq!(store.get_key_path("abc"), "/keys/abc");
    let store = KeyStore::new(&KeyStoreConfigDisk { key_base_path: s("/keys/") });
    assert_eq!(store.get_key_path("abc"), "/keys/abc");
    assert_eq!(store.get_key_path("/abs"), "/abs");
    let store = KeyStore::new(&KeyStoreConfigDisk { key_base_path: String::new() });
    assert_eq!(store.get_key_path("abc"), "abc");
}

#[test]
fn catalog_starts_empty() {
    let domain = JWTTrustDomain::new();
    assert_eq!(domain.version, 0);
    assert!(domain.store.is_empty());
    let catalog = CatalogFactory::get(&CatalogConfig::Memory);
    assert!(catalog.entries_list.is_empty());
    assert_eq!(catalog.jwt_trust_domain.version, 0);
    assert!(Catalog::default().jwt_trust_domain.store.is_empty());
}

#[test]
fn text_helpers() {
    assert_eq!(decimal_string(0), "0");
    assert_eq!(decimal_string(1234), "1234");
    assert_eq!(decimal_string(u64::MAX), u64::MAX.to_string());
    assert_eq!(join_colon(&s("a"), &s("b")), "a:b");
    assert_eq!(
        split_chars("a.b..c", '.'),
        vec![s("a"), s("b"), s(""), s("c")]
    );
    assert_eq!(split_chars("", '.'), vec![s("")]);
    assert_eq!(from_chars(&to_chars("héllo")), "héllo");
    assert_eq!(from_chars(&['a', 'b', 'c']), "abc");
    assert!(ascii_punct('-') && ascii_punct('_') && ascii_punct('~') && !ascii_punct('a'));
    let mut set = vec![s("x")];
    set_insert(&mut set, s("x"));
    set_insert(&mut set, s("y"));
    assert_eq!(set, vec![s("x"), s("y")]);
    assert!(contains_text(&set, &s("y")));
    assert!(!contains_text(&set, &s("z")));
}

#[test]
fn selector_strings_and_types() {
    assert_eq!(build_selector_string(&WorkloadSelectorType::PodUID, "u"), "PodUID:u");
    let selector = WorkloadSelector::PodImageCount(2);
    assert_eq!(WorkloadSelectorType::from(&selector), WorkloadSelectorType::PodImageCount);
    assert_eq!(WorkloadSelectorType::ContainerImageId.name(), "ContainerImageId");
}

#[test]
fn epoch_time_is_after_2020() {
    assert_eq!(get_epoch_time(Some(1_577_836_800)), Ok(1_577_836_800));
    assert_eq!(get_epoch_time(None), Err(ClockError::BeforeEpoch));
}
