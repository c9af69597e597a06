//! Node attestation by the agent: the service account token it presents to the server.
use vstd::prelude::*;

use crate::agent_config::{NodeAttestationConfig, NodeAttestationConfigK8s};

verus! {

/// Node attestation with a Kubernetes service account token read from a file.
pub struct NodeAttestation {
    pub token_path: String,
}

impl NodeAttestation {
    /// Attestation with the token at the configured path.
    pub fn new(config: &NodeAttestationConfigK8s) -> (r: Self)
        ensures
            r.token_path@ == config.token_path@,
    {
        NodeAttestation { token_path: config.token_path.clone() }
    }
}

/// Chooses the node attestation for a configuration.
pub struct NodeAttestatorFactory {}

impl NodeAttestatorFactory {
    /// Both service account token kinds read the token from the configured path.
    pub fn get(config: &NodeAttestationConfig) -> (r: NodeAttestation)
        ensures
            match config {
                NodeAttestationConfig::Sat(c) => r.token_path@ == c.token_path@,
                NodeAttestationConfig::Psat(c) => r.token_path@ == c.token_path@,
            },
    {
        match config {
            NodeAttestationConfig::Sat(c) => NodeAttestation::new(c),
            NodeAttestationConfig::Psat(c) => NodeAttestation::new(c),
        }
    }
}

} // verus!
