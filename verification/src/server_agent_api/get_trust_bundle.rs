//! Retrieval of the trust bundle.
use vstd::prelude::*;

use crate::core_objects::TrustBundle;

verus! {

/// Which keys the bundle holds.
pub struct Params {
    pub jwt_keys: bool,
    pub x509_cas: bool,
}

/// The trust bundle.
pub struct Response {
    pub trust_bundle: TrustBundle,
}

} // verus!
