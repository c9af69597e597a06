//! The SPIFFE agent's configuration and its defaults.
use vstd::prelude::*;
use vstd::string::StringExecFns;

verus! {

broadcast use vstd::string::group_string_axioms;

/// Where the SPIFFE server listens.
pub struct ServerConfig {
    pub address: String,
    pub port: u16,
}

/// Node attestation with a Kubernetes service account token read from a file.
pub struct NodeAttestationConfigK8s {
    pub token_path: String,
}

/// How the agent attests its node.
pub enum NodeAttestationConfig {
    Sat(NodeAttestationConfigK8s),
    Psat(NodeAttestationConfigK8s),
}

/// Workload attestation against the Kubernetes API: how often to look for the workload's pod.
pub struct WorkloadAttestationConfigK8s {
    pub max_poll_attempt: usize,
    pub poll_retry_interval_ms: u64,
}

/// How the agent attests workloads.
pub enum WorkloadAttestationConfig {
    K8s(WorkloadAttestationConfigK8s),
}

/// How often the agent retries getting the first trust bundle, and how long it waits between.
pub struct TrustBundleManagerConfig {
    pub max_retry: usize,
    pub wait_retry_sec: u64,
}

/// Where the agent gets its first trust bundle.
pub enum TrustBundleConfig {
    Path(String),
    Url(String),
    InsecureBootstrap,
}

/// The agent's configuration.
pub struct Config {
    pub socket_path: String,
    pub trust_domain: String,
    pub server_config: ServerConfig,
    pub trust_bundle_config: TrustBundleManagerConfig,
    pub node_attestation_config: NodeAttestationConfig,
    pub workload_attestation_config: WorkloadAttestationConfig,
}

/// The default path of the node's service account token.
pub open spec fn default_token_path_text() -> Seq<char> {
    "/var/run/secrets/tokens/iotedge-spiffe-agent"@
}

/// The default path of the node's service account token.
pub fn default_token_path() -> (r: String)
    ensures
        r@ == default_token_path_text(),
{
    String::from_str("/var/run/secrets/tokens/iotedge-spiffe-agent")
}

/// By default the node is attested with a projected service account token at the default path.
pub fn default_node_attestation_config() -> (r: NodeAttestationConfig)
    ensures
        r matches NodeAttestationConfig::Psat(c) && c.token_path@ == default_token_path_text(),
{
    let config = NodeAttestationConfigK8s { token_path: default_token_path() };
    NodeAttestationConfig::Psat(config)
}

/// By default the pod list is polled at most 60 times.
pub fn default_max_poll_attempt() -> (r: usize)
    ensures
        r == 60,
{
    60
}

/// By default the pod list is polled every 500 ms.
pub fn default_poll_retry_interval_ms() -> (r: u64)
    ensures
        r == 500,
{
    500
}

/// By default workloads are attested against Kubernetes with the default polling.
pub fn default_workload_attestation_config() -> (r: WorkloadAttestationConfig)
    ensures
        r matches WorkloadAttestationConfig::K8s(c) && c.max_poll_attempt == 60
            && c.poll_retry_interval_ms == 500,
{
    let config = WorkloadAttestationConfigK8s {
        max_poll_attempt: default_max_poll_attempt(),
        poll_retry_interval_ms: default_poll_retry_interval_ms(),
    };
    WorkloadAttestationConfig::K8s(config)
}

/// By default the first trust bundle is retried 3 times.
pub fn default_max_retry() -> (r: usize)
    ensures
        r == 3,
{
    3
}

/// By default the agent waits 2 s between tries for the first trust bundle.
pub fn default_wait_retry_sec() -> (r: u64)
    ensures
        r == 2,
{
    2
}

/// The default retries for the first trust bundle.
pub fn default_trust_bundle_manager_config() -> (r: TrustBundleManagerConfig)
    ensures
        r.max_retry == 3,
        r.wait_retry_sec == 2,
{
    TrustBundleManagerConfig { max_retry: default_max_retry(), wait_retry_sec: default_wait_retry_sec() }
}

} // verus!
