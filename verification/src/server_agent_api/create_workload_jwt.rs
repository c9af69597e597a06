//! Issuance of one JWT-SVID for an entry.
use vstd::prelude::*;

use crate::core_objects::{JWTSVIDCompact, SPIFFEID};

verus! {

/// The entry id and the audiences of the token.
pub struct Request {
    pub id: String,
    pub audiences: Vec<SPIFFEID>,
}

/// The issued JWT-SVID.
pub struct Response {
    pub jwt_svid: JWTSVIDCompact,
}

} // verus!
