//! The workload API served by the agent: the requests it makes to the server for a workload
//! and the answers it gives.
use vstd::prelude::*;

use crate::core_objects::{spiffe_id_text, JWTSVIDCompact};
use crate::server_agent_api::create_workload_jwts;

verus! {

/// A JWT-SVID as the workload API returns it.
pub struct Jwtsvid {
    pub spiffe_id: String,
    pub svid: String,
}

/// The server request for a workload's JWT-SVIDs: the identity asked for (none when the
/// workload asked for all of its identities, with an empty id), the audiences, the workload's
/// selectors and the agent's attestation token.
pub fn create_workload_jwts_request(
    spiffe_id: String,
    audience: Vec<String>,
    selectors: Vec<String>,
    attestation_token: String,
) -> (r: create_workload_jwts::Request)
    ensures
        spiffe_id@.len() == 0 ==> r.workload_spiffe_id is None,
        spiffe_id@.len() != 0 ==> r.workload_spiffe_id == Some(spiffe_id),
        r.audiences == audience,
        r.selectors == selectors,
        r.attestation_token == attestation_token,
{
    let workload_spiffe_id = if spiffe_id.as_str().is_empty() {
        None
    } else {
        Some(spiffe_id)
    };
    create_workload_jwts::Request { workload_spiffe_id, audiences: audience, selectors, attestation_token }
}

/// The workload API's JWT-SVIDs for the server's: each identity as text, with its token, in
/// the server's order.
pub fn jwt_svids_to_response(jwt_svids: Vec<JWTSVIDCompact>) -> (r: Vec<Jwtsvid>)
    ensures
        r@.len() == jwt_svids@.len(),
        forall|i: int| 0 <= i < r@.len() ==> (#[trigger] r@[i]).spiffe_id@ == spiffe_id_text(jwt_svids@[i].spiffe_id@)
            && r@[i].svid@ == jwt_svids@[i].token@,
{
    let mut r: Vec<Jwtsvid> = Vec::new();
    let mut i: usize = 0;
    while i < jwt_svids.len()
        invariant
            i <= jwt_svids.len(),
            r@.len() == i,
            forall|j: int| 0 <= j < i ==> (#[trigger] r@[j]).spiffe_id@ == spiffe_id_text(jwt_svids@[j].spiffe_id@)
                && r@[j].svid@ == jwt_svids@[j].token@,
        decreases jwt_svids.len() - i,
    {
        let svid = &jwt_svids[i];
        r.push(Jwtsvid { spiffe_id: svid.spiffe_id.to_string(), svid: svid.token.clone() });
        i = i + 1;
    }
    r
}

} // verus!
