//! The server's catalog: registration entries and the JWT keys of the trust domain.
use vstd::prelude::*;

use crate::core_objects::{RegistrationEntry, JWK};

verus! {

/// The JWT keys of the trust domain, by key id, with the version of the key set.
pub struct JWTTrustDomain {
    pub version: usize,
    pub store: Vec<(String, JWK)>,
}

impl JWTTrustDomain {
    /// An empty key set at version 0.
    pub fn new() -> (r: Self)
        ensures
            r.version == 0,
            r.store@.len() == 0,
    {
        JWTTrustDomain { version: 0, store: Vec::new() }
    }
}

/// The in-memory catalog: the registration entries, ordered by id, and the JWT keys of the one
/// trust domain it serves.
pub struct Catalog {
    pub entries_list: Vec<RegistrationEntry>,
    pub jwt_trust_domain: JWTTrustDomain,
}

impl Catalog {
    /// An empty catalog: no entries, and no keys at version 0.
    pub fn new() -> (r: Self)
        ensures
            r.entries_list@.len() == 0,
            r.jwt_trust_domain.version == 0,
            r.jwt_trust_domain.store@.len() == 0,
    {
        Catalog { entries_list: Vec::new(), jwt_trust_domain: JWTTrustDomain::new() }
    }
}

impl Default for Catalog {
    fn default() -> (r: Self)
        ensures
            r.entries_list@.len() == 0,
            r.jwt_trust_domain.version == 0,
            r.jwt_trust_domain.store@.len() == 0,
    {
        Catalog::new()
    }
}

/// Where the server keeps its catalog.
#[derive(Clone, Copy, PartialEq, Eq, Structural, Debug)]
pub enum CatalogConfig {
    Disk,
    Memory,
}

/// Makes the catalog a configuration asks for.
pub struct CatalogFactory {}

impl CatalogFactory {
    /// The catalog for a configuration: only the in-memory catalog exists, so a disk catalog
    /// cannot be asked for.
    pub fn get(config: &CatalogConfig) -> (r: Catalog)
        requires
            *config == CatalogConfig::Memory,
        ensures
            r.entries_list@.len() == 0,
            r.jwt_trust_domain.version == 0,
            r.jwt_trust_domain.store@.len() == 0,
    {
        Catalog::new()
    }
}

} // verus!
