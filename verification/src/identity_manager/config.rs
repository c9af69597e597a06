//! The identity manager's deployment configuration.
use vstd::prelude::*;

verus! {

/// Node attestation methods the configuration can name.
#[derive(Clone, Copy, PartialEq, Eq, Structural, Debug)]
pub enum AttestationPlugin {
    Psat,
    Sat,
    Tpm,
}

impl Default for AttestationPlugin {
    fn default() -> (r: Self)
        ensures
            r == AttestationPlugin::Psat,
    {
        AttestationPlugin::Psat
    }
}

/// Authentication with an X.509 identity.
pub struct X509Auth {
    pub identity_pk: String,
    pub identity_cert: String,
}

impl Default for X509Auth {
    fn default() -> (r: Self)
        ensures
            r.identity_pk@.len() == 0,
            r.identity_cert@.len() == 0,
    {
        X509Auth { identity_pk: String::new(), identity_cert: String::new() }
    }
}

/// Authentication with a shared access signature.
pub struct SASAuth {
    pub connection_string: String,
}

impl Default for SASAuth {
    fn default() -> (r: Self)
        ensures
            r.connection_string@.len() == 0,
    {
        SASAuth { connection_string: String::new() }
    }
}

/// How the device authenticates to IoT Hub.
pub enum AuthMethod {
    X509(X509Auth),
    Sas(SASAuth),
}

impl Default for AuthMethod {
    fn default() -> (r: Self)
        ensures
            r matches AuthMethod::X509(a) && a.identity_pk@.len() == 0 && a.identity_cert@.len()
                == 0,
    {
        AuthMethod::X509(X509Auth::default())
    }
}

/// Provisioning of the device.
pub struct Provisioning {
    pub iothub_hostname: Option<String>,
    pub device_id: Option<String>,
    pub auth: AuthMethod,
}

impl Default for Provisioning {
    fn default() -> (r: Self)
        ensures
            r.iothub_hostname is None,
            r.device_id is None,
            r.auth matches AuthMethod::X509(a) && a.identity_pk@.len() == 0
                && a.identity_cert@.len() == 0,
    {
        Provisioning { iothub_hostname: None, device_id: None, auth: AuthMethod::default() }
    }
}

/// The selectors of a configured entry.
pub struct Selectors {
    pub value: String,
}

impl Default for Selectors {
    fn default() -> (r: Self)
        ensures
            r.value@.len() == 0,
    {
        Selectors { value: String::new() }
    }
}

/// How a configured entry is attested: as a node, or under a parent entry.
pub enum Attestation {
    Node,
    ParentId(String),
}

impl Default for Attestation {
    fn default() -> (r: Self)
        ensures
            r is Node,
    {
        Attestation::Node
    }
}

/// A configured identity.
pub struct Entry {
    pub spiffe_id: String,
    pub selectors: Selectors,
    pub iot_hub_id: Option<String>,
    pub attestation: Attestation,
}

impl Default for Entry {
    fn default() -> (r: Self)
        ensures
            r.spiffe_id@.len() == 0,
            r.selectors.value@.len() == 0,
            r.iot_hub_id is None,
            r.attestation is Node,
    {
        Entry {
            spiffe_id: String::new(),
            selectors: Selectors::default(),
            iot_hub_id: None,
            attestation: Attestation::default(),
        }
    }
}

/// The identity manager's configuration.
pub struct Config {
    pub trust_domain: String,
    pub server_socket_path: String,
    pub workload_attestation_plugin: String,
    pub node_attestation_plugin: AttestationPlugin,
    pub provisioning: Provisioning,
    pub entry: Vec<Entry>,
}

impl Default for Config {
    fn default() -> (r: Self)
        ensures
            r.trust_domain@.len() == 0,
            r.server_socket_path@.len() == 0,
            r.workload_attestation_plugin@.len() == 0,
            r.node_attestation_plugin == AttestationPlugin::Psat,
            r.provisioning.iothub_hostname is None,
            r.provisioning.device_id is None,
            r.entry@.len() == 0,
    {
        Config {
            trust_domain: String::new(),
            server_socket_path: String::new(),
            workload_attestation_plugin: String::new(),
            node_attestation_plugin: AttestationPlugin::default(),
            provisioning: Provisioning::default(),
            entry: Vec::new(),
        }
    }
}

} // verus!
