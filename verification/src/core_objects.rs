//! Identities, registration entries, selectors, JWT-SVIDs and trust bundles.
use vstd::prelude::*;

use crate::text::{from_chars, to_chars};
use vstd::string::StringExecFns;

verus! {

broadcast use vstd::string::group_string_axioms;

/// A SPIFFE identity: a trust domain and a path inside it.
pub struct SPIFFEID {
    pub trust_domain: String,
    pub path: String,
}

/// The abstract value of a [`SPIFFEID`].
pub struct SpiffeIdView {
    pub trust_domain: Seq<char>,
    pub path: Seq<char>,
}

impl View for SPIFFEID {
    type V = SpiffeIdView;

    open spec fn view(&self) -> SpiffeIdView {
        SpiffeIdView { trust_domain: self.trust_domain@, path: self.path@ }
    }
}

impl DeepView for SPIFFEID {
    type V = SpiffeIdView;

    open spec fn deep_view(&self) -> SpiffeIdView {
        self@
    }
}

/// The text form `trust_domain/path`.
pub open spec fn spiffe_id_text(id: SpiffeIdView) -> Seq<char> {
    id.trust_domain + seq!['/'] + id.path
}

impl Clone for SPIFFEID {
    fn clone(&self) -> (r: Self)
        ensures
            r == *self,
    {
        SPIFFEID { trust_domain: self.trust_domain.clone(), path: self.path.clone() }
    }
}

impl SPIFFEID {
    /// Renders the identity as `trust_domain/path`.
    pub fn to_string(&self) -> (r: String)
        ensures
            r@ == spiffe_id_text(self@),
    {
        let mut chars = to_chars(self.trust_domain.as_str());
        chars.push('/');
        let path = to_chars(self.path.as_str());
        let mut i: usize = 0;
        while i < path.len()
            invariant
                i <= path.len(),
                path@ == self.path@,
                chars@ == self.trust_domain@ + seq!['/'] + path@.take(i as int),
            decreases path.len() - i,
        {
            chars.push(path[i]);
            assert(path@.take(i + 1) == path@.take(i as int).push(path@[i as int]));
            i = i + 1;
        }
        assert(path@.take(path.len() as int) == path@);
        from_chars(chars.as_slice())
    }
}

/// Decides whether two strings hold the same characters.
pub fn same_text(a: &String, b: &String) -> (r: bool)
    ensures
        r == (a@ == b@),
{
    *a == *b
}

/// A clone of a vector of strings with the same contents.
pub fn clone_strings(v: &Vec<String>) -> (r: Vec<String>)
    ensures
        r.deep_view() == v.deep_view(),
{
    let mut r: Vec<String> = Vec::new();
    let mut i: usize = 0;
    while i < v.len()
        invariant
            i <= v.len(),
            r@.len() == i,
            forall|j: int| 0 <= j < i ==> r@[j]@ == v@[j]@,
        decreases v.len() - i,
    {
        let s = v[i].clone();
        r.push(s);
        i = i + 1;
    }
    assert(r.deep_view() =~= v.deep_view());
    r
}

/// Decides whether two vectors of strings hold the same strings in the same order.
pub fn same_strings(a: &Vec<String>, b: &Vec<String>) -> (r: bool)
    ensures
        r == (a.deep_view() == b.deep_view()),
{
    if a.len() != b.len() {
        assert(a.deep_view().len() != b.deep_view().len());
        return false;
    }
    let mut i: usize = 0;
    while i < a.len()
        invariant
            i <= a.len(),
            a.len() == b.len(),
            forall|j: int| 0 <= j < i ==> a@[j]@ == b@[j]@,
        decreases a.len() - i,
    {
        if !same_text(&a[i], &b[i]) {
            assert(a.deep_view()[i as int] != b.deep_view()[i as int]);
            return false;
        }
        i = i + 1;
    }
    assert(a.deep_view() =~= b.deep_view());
    true
}


/// An IoT Hub module identity.
pub struct IoTHubId {
    pub iot_hub_hostname: String,
    pub device_id: String,
    pub module_id: String,
}

/// The abstract value of an [`IoTHubId`].
pub struct IoTHubIdView {
    pub iot_hub_hostname: Seq<char>,
    pub device_id: Seq<char>,
    pub module_id: Seq<char>,
}

impl View for IoTHubId {
    type V = IoTHubIdView;

    open spec fn view(&self) -> IoTHubIdView {
        IoTHubIdView {
            iot_hub_hostname: self.iot_hub_hostname@,
            device_id: self.device_id@,
            module_id: self.module_id@,
        }
    }
}

impl Clone for IoTHubId {
    fn clone(&self) -> (r: Self)
        ensures
            r == *self,
    {
        IoTHubId {
            iot_hub_hostname: self.iot_hub_hostname.clone(),
            device_id: self.device_id.clone(),
            module_id: self.module_id.clone(),
        }
    }
}

/// Other identities that an entry or a token carries besides its SPIFFE id.
pub enum IdentityTypes {
    IoTHub(IoTHubId),
    Custom(String),
}

/// The abstract value of an [`IdentityTypes`].
pub enum IdentityTypesView {
    IoTHub(IoTHubIdView),
    Custom(Seq<char>),
}

impl View for IdentityTypes {
    type V = IdentityTypesView;

    open spec fn view(&self) -> IdentityTypesView {
        match self {
            IdentityTypes::IoTHub(id) => IdentityTypesView::IoTHub(id@),
            IdentityTypes::Custom(s) => IdentityTypesView::Custom(s@),
        }
    }
}

impl DeepView for IdentityTypes {
    type V = IdentityTypesView;

    open spec fn deep_view(&self) -> IdentityTypesView {
        self@
    }
}

impl Clone for IdentityTypes {
    fn clone(&self) -> (r: Self)
        ensures
            r == *self,
    {
        match self {
            IdentityTypes::IoTHub(id) => IdentityTypes::IoTHub(id.clone()),
            IdentityTypes::Custom(s) => IdentityTypes::Custom(s.clone()),
        }
    }
}

impl IdentityTypes {
    /// Decides whether two identities are the same.
    pub fn same_as(&self, other: &IdentityTypes) -> (r: bool)
        ensures
            r == (self@ == other@),
    {
        match (self, other) {
            (IdentityTypes::IoTHub(a), IdentityTypes::IoTHub(b)) => {
                same_text(&a.iot_hub_hostname, &b.iot_hub_hostname) && same_text(
                    &a.device_id,
                    &b.device_id,
                ) && same_text(&a.module_id, &b.module_id)
            },
            (IdentityTypes::Custom(a), IdentityTypes::Custom(b)) => same_text(a, b),
            _ => false,
        }
    }
}

/// Decides whether two lists of identities are the same, in the same order.
pub fn same_identities(a: &Vec<IdentityTypes>, b: &Vec<IdentityTypes>) -> (r: bool)
    ensures
        r == (a.deep_view() == b.deep_view()),
{
    if a.len() != b.len() {
        assert(a.deep_view().len() != b.deep_view().len());
        return false;
    }
    let mut i: usize = 0;
    while i < a.len()
        invariant
            i <= a.len(),
            a.len() == b.len(),
            forall|j: int| 0 <= j < i ==> a@[j]@ == b@[j]@,
        decreases a.len() - i,
    {
        if !a[i].same_as(&b[i]) {
            assert(a.deep_view()[i as int] != b.deep_view()[i as int]);
            return false;
        }
        i = i + 1;
    }
    assert(a.deep_view() =~= b.deep_view());
    true
}

/// Node attestation plugins.
#[derive(Clone, Copy, PartialEq, Eq, Structural, Debug)]
pub enum NodeAttestationPlugin {
    Psat,
    Sat,
}

/// Workload attestation plugins.
#[derive(Clone, Copy, PartialEq, Eq, Structural, Debug)]
pub enum WorkloadAttestationPlugin {
    K8s,
    Docker,
}

/// The selectors a workload must show, and the node entry it runs under.
pub struct EntryWorkloadAttestation {
    pub parent_id: String,
    pub value: Vec<String>,
    pub plugin: WorkloadAttestationPlugin,
}

/// The selectors a node (agent) must show.
pub struct EntryNodeAttestation {
    pub value: Vec<String>,
    pub plugin: NodeAttestationPlugin,
}

/// How an entry is attested: as a workload under a parent, or as a node.
pub enum AttestationConfig {
    Workload(EntryWorkloadAttestation),
    Node(EntryNodeAttestation),
}

/// The abstract value of an [`AttestationConfig`].
pub enum AttestationConfigView {
    Workload { parent_id: Seq<char>, value: Seq<Seq<char>>, plugin: WorkloadAttestationPlugin },
    Node { value: Seq<Seq<char>>, plugin: NodeAttestationPlugin },
}

impl View for AttestationConfig {
    type V = AttestationConfigView;

    open spec fn view(&self) -> AttestationConfigView {
        match self {
            AttestationConfig::Workload(w) => AttestationConfigView::Workload {
                parent_id: w.parent_id@,
                value: w.value.deep_view(),
                plugin: w.plugin,
            },
            AttestationConfig::Node(n) => AttestationConfigView::Node {
                value: n.value.deep_view(),
                plugin: n.plugin,
            },
        }
    }
}

impl Clone for AttestationConfig {
    fn clone(&self) -> (r: Self)
        ensures
            r@ == self@,
    {
        match self {
            AttestationConfig::Workload(w) => AttestationConfig::Workload(
                EntryWorkloadAttestation {
                    parent_id: w.parent_id.clone(),
                    value: clone_strings(&w.value),
                    plugin: w.plugin,
                },
            ),
            AttestationConfig::Node(n) => AttestationConfig::Node(
                EntryNodeAttestation { value: clone_strings(&n.value), plugin: n.plugin },
            ),
        }
    }
}

impl AttestationConfig {
    /// Decides whether two attestation configurations are the same.
    pub fn same_as(&self, other: &AttestationConfig) -> (r: bool)
        ensures
            r == (self@ == other@),
    {
        match (self, other) {
            (AttestationConfig::Workload(a), AttestationConfig::Workload(b)) => {
                same_text(&a.parent_id, &b.parent_id) && same_strings(&a.value, &b.value)
                    && a.plugin == b.plugin
            },
            (AttestationConfig::Node(a), AttestationConfig::Node(b)) => {
                same_strings(&a.value, &b.value) && a.plugin == b.plugin
            },
            _ => false,
        }
    }
}

/// A registration entry: the identity the server issues to whatever matches its attestation.
pub struct RegistrationEntry {
    pub id: String,
    pub other_identities: Vec<IdentityTypes>,
    pub spiffe_id: SPIFFEID,
    pub attestation_config: AttestationConfig,
    pub admin: bool,
    pub ttl: u64,
    pub expires_at: u64,
    pub dns_names: Vec<String>,
    pub revision_number: u64,
    pub store_svid: bool,
}

/// The abstract value of a [`RegistrationEntry`].
pub struct RegistrationEntryView {
    pub id: Seq<char>,
    pub other_identities: Seq<IdentityTypesView>,
    pub spiffe_id: SpiffeIdView,
    pub attestation_config: AttestationConfigView,
    pub admin: bool,
    pub ttl: u64,
    pub expires_at: u64,
    pub dns_names: Seq<Seq<char>>,
    pub revision_number: u64,
    pub store_svid: bool,
}

impl View for RegistrationEntry {
    type V = RegistrationEntryView;

    open spec fn view(&self) -> RegistrationEntryView {
        RegistrationEntryView {
            id: self.id@,
            other_identities: self.other_identities.deep_view(),
            spiffe_id: self.spiffe_id@,
            attestation_config: self.attestation_config@,
            admin: self.admin,
            ttl: self.ttl,
            expires_at: self.expires_at,
            dns_names: self.dns_names.deep_view(),
            revision_number: self.revision_number,
            store_svid: self.store_svid,
        }
    }
}

impl DeepView for RegistrationEntry {
    type V = RegistrationEntryView;

    open spec fn deep_view(&self) -> RegistrationEntryView {
        self@
    }
}

impl Clone for RegistrationEntry {
    fn clone(&self) -> (r: Self)
        ensures
            r@ == self@,
    {
        let other_identities = self.other_identities.clone();
        assert(other_identities.deep_view() =~= self.other_identities.deep_view());
        RegistrationEntry {
            id: self.id.clone(),
            other_identities,
            spiffe_id: self.spiffe_id.clone(),
            attestation_config: self.attestation_config.clone(),
            admin: self.admin,
            ttl: self.ttl,
            expires_at: self.expires_at,
            dns_names: clone_strings(&self.dns_names),
            revision_number: self.revision_number,
            store_svid: self.store_svid,
        }
    }
}


/// Selectors that describe a node (agent). Label maps are held as key/value pairs.
pub enum NodeSelector {
    Cluster(String),
    AgentNameSpace(String),
    AgentServiceAccount(String),
    AgentPodName(String),
    AgentPodUID(String),
    AgentNodeIP(String),
    AgentNodeName(String),
    AgentNodeUID(String),
    AgentNodeLabels(Vec<(String, String)>),
    AgentPodLabels(Vec<(String, String)>),
}

/// Selectors that describe a workload. Label maps are held as key/value pairs, sets as lists.
pub enum WorkloadSelector {
    NameSpace(String),
    ServiceAccount(String),
    PodName(String),
    PodUID(String),
    NodeName(String),
    PodLabels(Vec<(String, String)>),
    ContainerName(String),
    ContainerImage(String),
    PodOwners(Vec<String>),
    PodOwnerUIDs(Vec<String>),
    PodImages(Vec<String>),
    PodImageCount(usize),
    PodInitImages(Vec<String>),
    PodInitImageCount(usize),
}

/// The kinds of workload selectors.
#[derive(Clone, Copy, PartialEq, Eq, Structural, Debug, Hash, PartialOrd, Ord)]
pub enum WorkloadSelectorType {
    NameSpace,
    ServiceAccount,
    PodName,
    PodUID,
    NodeName,
    PodLabels,
    ContainerName,
    ContainerImage,
    ContainerImageId,
    PodOwners,
    PodOwnerUIDs,
    PodImages,
    PodImageCount,
    PodInitImages,
    PodInitImageCount,
}

/// The kind of a workload selector.
pub open spec fn selector_type_of(selector: &WorkloadSelector) -> WorkloadSelectorType {
    match selector {
        WorkloadSelector::NameSpace(_) => WorkloadSelectorType::NameSpace,
        WorkloadSelector::ServiceAccount(_) => WorkloadSelectorType::ServiceAccount,
        WorkloadSelector::PodName(_) => WorkloadSelectorType::PodName,
        WorkloadSelector::PodUID(_) => WorkloadSelectorType::PodUID,
        WorkloadSelector::NodeName(_) => WorkloadSelectorType::NodeName,
        WorkloadSelector::PodLabels(_) => WorkloadSelectorType::PodLabels,
        WorkloadSelector::ContainerName(_) => WorkloadSelectorType::ContainerName,
        WorkloadSelector::ContainerImage(_) => WorkloadSelectorType::ContainerImage,
        WorkloadSelector::PodOwners(_) => WorkloadSelectorType::PodOwners,
        WorkloadSelector::PodOwnerUIDs(_) => WorkloadSelectorType::PodOwnerUIDs,
        WorkloadSelector::PodImages(_) => WorkloadSelectorType::PodImages,
        WorkloadSelector::PodImageCount(_) => WorkloadSelectorType::PodImageCount,
        WorkloadSelector::PodInitImages(_) => WorkloadSelectorType::PodInitImages,
        WorkloadSelector::PodInitImageCount(_) => WorkloadSelectorType::PodInitImageCount,
    }
}

impl<'a> From<&'a WorkloadSelector> for WorkloadSelectorType {
    fn from(selector: &'a WorkloadSelector) -> (r: Self) {
        match selector {
            WorkloadSelector::NameSpace(_) => WorkloadSelectorType::NameSpace,
            WorkloadSelector::ServiceAccount(_) => WorkloadSelectorType::ServiceAccount,
            WorkloadSelector::PodName(_) => WorkloadSelectorType::PodName,
            WorkloadSelector::PodUID(_) => WorkloadSelectorType::PodUID,
            WorkloadSelector::NodeName(_) => WorkloadSelectorType::NodeName,
            WorkloadSelector::PodLabels(_) => WorkloadSelectorType::PodLabels,
            WorkloadSelector::ContainerName(_) => WorkloadSelectorType::ContainerName,
            WorkloadSelector::ContainerImage(_) => WorkloadSelectorType::ContainerImage,
            WorkloadSelector::PodOwners(_) => WorkloadSelectorType::PodOwners,
            WorkloadSelector::PodOwnerUIDs(_) => WorkloadSelectorType::PodOwnerUIDs,
            WorkloadSelector::PodImages(_) => WorkloadSelectorType::PodImages,
            WorkloadSelector::PodImageCount(_) => WorkloadSelectorType::PodImageCount,
            WorkloadSelector::PodInitImages(_) => WorkloadSelectorType::PodInitImages,
            WorkloadSelector::PodInitImageCount(_) => WorkloadSelectorType::PodInitImageCount,
        }
    }
}

impl<'a> vstd::std_specs::convert::FromSpecImpl<&'a WorkloadSelector> for WorkloadSelectorType {
    open spec fn obeys_from_spec() -> bool {
        true
    }

    open spec fn from_spec(v: &'a WorkloadSelector) -> WorkloadSelectorType {
        selector_type_of(v)
    }
}

/// The name a selector type carries inside selector strings.
pub open spec fn selector_type_name(t: WorkloadSelectorType) -> Seq<char> {
    match t {
        WorkloadSelectorType::NameSpace => "NameSpace"@,
        WorkloadSelectorType::ServiceAccount => "ServiceAccount"@,
        WorkloadSelectorType::PodName => "PodName"@,
        WorkloadSelectorType::PodUID => "PodUID"@,
        WorkloadSelectorType::NodeName => "NodeName"@,
        WorkloadSelectorType::PodLabels => "PodLabels"@,
        WorkloadSelectorType::ContainerName => "ContainerName"@,
        WorkloadSelectorType::ContainerImage => "ContainerImage"@,
        WorkloadSelectorType::ContainerImageId => "ContainerImageId"@,
        WorkloadSelectorType::PodOwners => "PodOwners"@,
        WorkloadSelectorType::PodOwnerUIDs => "PodOwnerUIDs"@,
        WorkloadSelectorType::PodImages => "PodImages"@,
        WorkloadSelectorType::PodImageCount => "PodImageCount"@,
        WorkloadSelectorType::PodInitImages => "PodInitImages"@,
        WorkloadSelectorType::PodInitImageCount => "PodInitImageCount"@,
    }
}

impl WorkloadSelectorType {
    /// The name this selector type carries inside selector strings.
    pub fn name(&self) -> (r: String)
        ensures
            r@ == selector_type_name(*self),
    {
        match self {
            WorkloadSelectorType::NameSpace => String::from_str("NameSpace"),
            WorkloadSelectorType::ServiceAccount => String::from_str("ServiceAccount"),
            WorkloadSelectorType::PodName => String::from_str("PodName"),
            WorkloadSelectorType::PodUID => String::from_str("PodUID"),
            WorkloadSelectorType::NodeName => String::from_str("NodeName"),
            WorkloadSelectorType::PodLabels => String::from_str("PodLabels"),
            WorkloadSelectorType::ContainerName => String::from_str("ContainerName"),
            WorkloadSelectorType::ContainerImage => String::from_str("ContainerImage"),
            WorkloadSelectorType::ContainerImageId => String::from_str("ContainerImageId"),
            WorkloadSelectorType::PodOwners => String::from_str("PodOwners"),
            WorkloadSelectorType::PodOwnerUIDs => String::from_str("PodOwnerUIDs"),
            WorkloadSelectorType::PodImages => String::from_str("PodImages"),
            WorkloadSelectorType::PodImageCount => String::from_str("PodImageCount"),
            WorkloadSelectorType::PodInitImages => String::from_str("PodInitImages"),
            WorkloadSelectorType::PodInitImageCount => String::from_str("PodInitImageCount"),
        }
    }
}

/// The selector string `type:value` that attestation produces and entries list.
pub open spec fn selector_string(t: WorkloadSelectorType, value: Seq<char>) -> Seq<char> {
    selector_type_name(t) + seq![':'] + value
}

/// Builds the selector string `type:value`.
pub fn build_selector_string(selector_type: &WorkloadSelectorType, value: &str) -> (r: String)
    ensures
        r@ == selector_string(*selector_type, value@),
{
    let mut r = selector_type.name();
    r.append(":");
    proof {
        reveal_strlit(":");
    }
    r.append(value);
    assert(r@ =~= selector_string(*selector_type, value@));
    r
}


/// The JWT header `typ`.
#[derive(Clone, Copy, PartialEq, Eq, Structural, Debug)]
pub enum JWTType {
    JWT,
    JOSE,
}

/// Signing algorithms.
#[derive(Clone, Copy, PartialEq, Eq, Structural, Debug)]
pub enum KeyType {
    RS256,
    RS384,
    RS512,
    ES256,
    ES384,
    ES512,
    PS256,
    PS384,
    PS512,
}

/// JWK key types.
#[derive(Clone, Copy, PartialEq, Eq, Structural, Debug)]
pub enum Kty {
    EC,
    RSA,
    Oct,
}

/// JWK elliptic curves.
#[derive(Clone, Copy, PartialEq, Eq, Structural, Debug)]
pub enum Crv {
    P256,
    P384,
    P521,
}

/// What a key is used for.
#[derive(Clone, Copy, PartialEq, Eq, Structural, Debug)]
pub enum KeyUse {
    X509SVID,
    JWTSVID,
}

/// The elliptic-curve algorithms, the only ones with a JWK key type and curve.
pub open spec fn is_ec_key_type(k: KeyType) -> bool {
    k == KeyType::ES256 || k == KeyType::ES384 || k == KeyType::ES512
}

impl KeyType {
    /// The JWK key type and curve of an elliptic-curve algorithm.
    pub fn kty_crv(self) -> (r: (Kty, Crv))
        requires
            is_ec_key_type(self),
        ensures
            r.0 == Kty::EC,
            self == KeyType::ES256 ==> r.1 == Crv::P256,
            self == KeyType::ES384 ==> r.1 == Crv::P384,
            self == KeyType::ES512 ==> r.1 == Crv::P521,
    {
        match self {
            KeyType::ES256 => (Kty::EC, Crv::P256),
            KeyType::ES384 => (Kty::EC, Crv::P384),
            _ => (Kty::EC, Crv::P521),
        }
    }
}

/// A JSON web key (public part of an elliptic-curve key).
pub struct JWK {
    pub x: String,
    pub y: String,
    pub kty: Kty,
    pub crv: Crv,
    pub kid: String,
    pub key_use: KeyUse,
}

impl Clone for JWK {
    fn clone(&self) -> (r: Self)
        ensures
            r == *self,
    {
        JWK {
            x: self.x.clone(),
            y: self.y.clone(),
            kty: self.kty,
            crv: self.crv,
            kid: self.kid.clone(),
            key_use: self.key_use,
        }
    }
}

/// A set of JSON web keys with its refresh hint and sequence number.
pub struct JWKSet {
    pub keys: Vec<JWK>,
    pub spiffe_refresh_hint: u64,
    pub spiffe_sequence_number: u64,
}

/// The abstract value of a [`JWKSet`].
pub struct JWKSetView {
    pub keys: Seq<JWK>,
    pub spiffe_refresh_hint: u64,
    pub spiffe_sequence_number: u64,
}

impl View for JWKSet {
    type V = JWKSetView;

    open spec fn view(&self) -> JWKSetView {
        JWKSetView {
            keys: self.keys@,
            spiffe_refresh_hint: self.spiffe_refresh_hint,
            spiffe_sequence_number: self.spiffe_sequence_number,
        }
    }
}

impl Clone for JWKSet {
    fn clone(&self) -> (r: Self)
        ensures
            r@ == self@,
    {
        let keys = self.keys.clone();
        assert(keys@ =~= self.keys@);
        JWKSet {
            keys,
            spiffe_refresh_hint: self.spiffe_refresh_hint,
            spiffe_sequence_number: self.spiffe_sequence_number,
        }
    }
}

/// The keys of a trust domain.
pub struct TrustBundle {
    pub trust_domain: String,
    pub jwt_key_set: JWKSet,
    pub x509_key_set: JWKSet,
}

/// The abstract value of a [`TrustBundle`].
pub struct TrustBundleView {
    pub trust_domain: Seq<char>,
    pub jwt_key_set: JWKSetView,
    pub x509_key_set: JWKSetView,
}

impl View for TrustBundle {
    type V = TrustBundleView;

    open spec fn view(&self) -> TrustBundleView {
        TrustBundleView {
            trust_domain: self.trust_domain@,
            jwt_key_set: self.jwt_key_set@,
            x509_key_set: self.x509_key_set@,
        }
    }
}

impl Clone for TrustBundle {
    fn clone(&self) -> (r: Self)
        ensures
            r@ == self@,
    {
        TrustBundle {
            trust_domain: self.trust_domain.clone(),
            jwt_key_set: self.jwt_key_set.clone(),
            x509_key_set: self.x509_key_set.clone(),
        }
    }
}

/// The header of a JWT-SVID.
pub struct JWTHeader {
    pub algorithm: KeyType,
    pub key_id: String,
    pub jwt_type: JWTType,
}

/// The claims of a JWT-SVID.
pub struct JWTClaims {
    pub subject: String,
    pub audience: Vec<String>,
    pub expiry: u64,
    pub issued_at: u64,
    pub other_identities: Vec<IdentityTypes>,
}

/// A decoded, validated JWT-SVID.
pub struct JWTSVID {
    pub header: JWTHeader,
    pub claims: JWTClaims,
    pub signature: String,
}

/// A JWT-SVID in compact form, with the identity it carries.
pub struct JWTSVIDCompact {
    pub token: String,
    pub spiffe_id: SPIFFEID,
    pub expiry: u64,
    pub issued_at: u64,
}

impl Clone for JWTSVIDCompact {
    fn clone(&self) -> (r: Self)
        ensures
            r == *self,
    {
        JWTSVIDCompact {
            token: self.token.clone(),
            spiffe_id: self.spiffe_id.clone(),
            expiry: self.expiry,
            issued_at: self.issued_at,
        }
    }
}

/// The system clock was set before the Unix epoch.
#[derive(Clone, Copy, PartialEq, Eq, Structural, Debug)]
pub enum ClockError {
    BeforeEpoch,
}

/// Whole seconds since the Unix epoch, from a reading of the system clock: the whole seconds
/// the clock is past the epoch (`SystemTime::duration_since(UNIX_EPOCH)` then
/// `Duration::as_secs`), or `None` for a clock set before the epoch, which is refused.
pub fn get_epoch_time(seconds_since_epoch: Option<u64>) -> (r: Result<u64, ClockError>)
    ensures
        seconds_since_epoch matches Some(s) ==> r == Ok::<u64, ClockError>(s),
        seconds_since_epoch is None ==> r == Err::<u64, ClockError>(ClockError::BeforeEpoch),
{
    match seconds_since_epoch {
        Some(secs) => Ok(secs),
        None => Err(ClockError::BeforeEpoch),
    }
}

} // verus!
