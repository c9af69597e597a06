//! Identities for IoT Edge workloads with SPIFFE: the objects the agent, the server and the
//! identity manager exchange, the attestation of workloads, the validation of JWT-SVIDs, the
//! matching of workloads to registration entries and the reconciliation of those entries.
use vstd::prelude::*;

pub mod agent_config;
pub mod catalog;
pub mod core_objects;
pub mod identity_manager;
pub mod identity_matcher;
pub mod jwt_svid_validator;
pub mod key_pair;
pub mod key_store;
pub mod node_attestation;
pub mod server_agent_api;
pub mod server_client;
pub mod server_node_attestation;
pub mod text;
pub mod trust_bundle_manager;
pub mod workload_api_server;
pub mod workload_attestation;

verus! {

} // verus!
