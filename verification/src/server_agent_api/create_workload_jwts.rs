//! Issuance of the JWT-SVIDs of an attested workload.
use vstd::prelude::*;

use crate::core_objects::JWTSVIDCompact;

verus! {

/// The identity asked for (all the workload's identities when absent), the audiences, the
/// workload's selectors and the agent's attestation token.
pub struct Request {
    pub workload_spiffe_id: Option<String>,
    pub audiences: Vec<String>,
    pub selectors: Vec<String>,
    pub attestation_token: String,
}

/// The issued JWT-SVIDs.
pub struct Response {
    pub jwt_svids: Vec<JWTSVIDCompact>,
}

} // verus!
