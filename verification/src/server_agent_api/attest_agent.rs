//! Agent attestation: the agent presents its token and gets its JWT-SVID.
use vstd::prelude::*;

use crate::core_objects::JWTSVIDCompact;

verus! {

/// The agent's attestation token.
pub struct Auth {
    pub token: String,
}

/// The agent's JWT-SVID.
pub struct Response {
    pub jwt_svid: JWTSVIDCompact,
}

} // verus!
