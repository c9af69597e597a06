//! Node attestation on the server: what it learns of an attested agent.
use vstd::prelude::*;

verus! {

/// The selectors of an attested agent.
pub struct AgentAttributes {
    pub selectors: Vec<String>,
}

/// A field that agent attestation needs and the Kubernetes API's answer lacks.
#[derive(Clone, Copy, Debug, PartialEq, Eq, Structural)]
pub enum MissingField {
    UserInfo,
    Extra,
    PodName,
    PodUid,
    ClusterName,
    Namespace,
    ServiceAccountName,
    PodStatus,
    PodSpec,
    NodeName,
    TokenReviewStatus,
    Authenticated,
    HostIP,
    NodeUid,
    PodLabels,
    NodeLabels,
}

} // verus!
