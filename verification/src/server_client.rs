//! The agent's client of the SPIFFE server: the addresses of its requests.
use vstd::prelude::*;
use vstd::string::StringExecFns;

use crate::agent_config::ServerConfig;
use crate::core_objects::{JWTSVIDCompact, SPIFFEID};
use crate::server_agent_api::{
    api_version_text, create_workload_jwt, get_trust_bundle, ApiVersion,
};
use crate::text::{decimal, decimal_string};

verus! {

broadcast use vstd::string::group_string_axioms;

/// A URL parsing error (`url::ParseError`).
#[verifier::external_type_specification]
#[verifier::external_body]
pub struct ExParseError(url::ParseError);

/// Why a client cannot be made.
pub enum ClientError {
    InvalidAddress(url::ParseError),
}

/// The serialization of the URL that `url::Url::parse` reads from `text`; `None` when parsing
/// fails.
pub uninterp spec fn url_serialization(text: Seq<char>) -> Option<Seq<char>>;

/// Parses `text` with `url::Url::parse` and gives the URL's serialization (`Url::as_str`).
/// The result is `url_serialization(text)`.
#[verifier::external_body]
fn parse_url(text: &str) -> (r: Result<String, url::ParseError>)
    ensures
        r is Ok <==> url_serialization(text@) is Some,
        r matches Ok(s) ==> s@ == url_serialization(text@)->0,
{
    url::Url::parse(text).map(|u| u.as_str().to_owned())
}

/// The path and query of the workload JWT-SVID request.
pub open spec fn create_workload_jwts_uri_text() -> Seq<char> {
    "workload-jwts?api-version="@ + api_version_text(ApiVersion::V2022_06_01)
}

/// The path and query of the trust bundle request.
pub open spec fn get_trust_bundle_uri_text() -> Seq<char> {
    "trust-bundle?api-version="@ + api_version_text(ApiVersion::V2022_06_01)
}

/// The path and query of the agent attestation request.
pub open spec fn attest_agent_uri_text() -> Seq<char> {
    "attest-agent?api-version="@ + api_version_text(ApiVersion::V2022_06_01)
}

/// The path and query of the workload JWT-SVID request.
pub fn create_workload_jwts_uri() -> (r: String)
    ensures
        r@ == create_workload_jwts_uri_text(),
{
    let mut r = String::from_str("workload-jwts?api-version=");
    let v = ApiVersion::V2022_06_01.to_string();
    r.append(v.as_str());
    r
}

/// The path and query of the trust bundle request.
pub fn get_trust_bundle_uri() -> (r: String)
    ensures
        r@ == get_trust_bundle_uri_text(),
{
    let mut r = String::from_str("trust-bundle?api-version=");
    let v = ApiVersion::V2022_06_01.to_string();
    r.append(v.as_str());
    r
}

/// The path and query of the agent attestation request.
pub fn attest_agent_uri() -> (r: String)
    ensures
        r@ == attest_agent_uri_text(),
{
    let mut r = String::from_str("attest-agent?api-version=");
    let v = ApiVersion::V2022_06_01.to_string();
    r.append(v.as_str());
    r
}

/// The server's address as an HTTP URL: `http://address:port`.
pub open spec fn server_url_text(config: ServerConfig) -> Seq<char> {
    "http://"@ + config.address@ + seq![':'] + decimal(config.port as nat)
}

/// The server's address as an HTTP URL: `http://address:port`.
pub fn server_url(config: &ServerConfig) -> (r: String)
    ensures
        r@ == server_url_text(*config),
{
    let mut r = String::from_str("http://");
    r.append(config.address.as_str());
    r.append(":");
    proof {
        reveal_strlit(":");
    }
    let port = decimal_string(config.port as u64);
    r.append(port.as_str());
    assert(r@ =~= server_url_text(*config));
    r
}

/// The base URL of the server's API: the parsed server address. A malformed address is refused.
pub fn server_address_url(config: &ServerConfig) -> (r: Result<String, ClientError>)
    ensures
        r is Ok <==> url_serialization(server_url_text(*config)) is Some,
        r matches Ok(u) ==> u@ == url_serialization(server_url_text(*config))->0,
{
    let text = server_url(config);
    match parse_url(text.as_str()) {
        Ok(u) => Ok(u),
        Err(e) => Err(ClientError::InvalidAddress(e)),
    }
}

/// The URL of the workload JWT-SVID request.
pub fn create_workload_jwts_url(address_url: &String) -> (r: String)
    ensures
        r@ == address_url@ + create_workload_jwts_uri_text(),
{
    let mut r = address_url.clone();
    let uri = create_workload_jwts_uri();
    r.append(uri.as_str());
    r
}

/// The text of a flag in a query.
pub open spec fn bool_text(b: bool) -> Seq<char> {
    if b {
        "true"@
    } else {
        "false"@
    }
}

fn bool_string(b: bool) -> (r: String)
    ensures
        r@ == bool_text(b),
{
    if b {
        String::from_str("true")
    } else {
        String::from_str("false")
    }
}

/// The URL of the trust bundle request: `…&jwt_keys=<bool>&x509_cas=<bool>`.
pub fn get_trust_bundle_url(address_url: &String, params: &get_trust_bundle::Params) -> (r: String)
    ensures
        r@ == address_url@ + get_trust_bundle_uri_text() + "&jwt_keys="@ + bool_text(params.jwt_keys)
            + "&x509_cas="@ + bool_text(params.x509_cas),
{
    let mut r = address_url.clone();
    let uri = get_trust_bundle_uri();
    r.append(uri.as_str());
    r.append("&jwt_keys=");
    let jwt = bool_string(params.jwt_keys);
    r.append(jwt.as_str());
    r.append("&x509_cas=");
    let x509 = bool_string(params.x509_cas);
    r.append(x509.as_str());
    r
}

/// The URL of the agent attestation request: `…&token=<token>`.
pub fn attest_agent_url(address_url: &String, token: &String) -> (r: String)
    ensures
        r@ == address_url@ + attest_agent_uri_text() + "&token="@ + token@,
{
    let mut r = address_url.clone();
    let uri = attest_agent_uri();
    r.append(uri.as_str());
    r.append("&token=");
    r.append(token.as_str());
    r
}

/// The answer to a JWT-SVID request while issuance is not implemented: a token `dummy` for
/// `dummy/dummy`, expiring at 0.
pub fn create_workload_jwt(_request: create_workload_jwt::Request) -> (r: create_workload_jwt::Response)
    ensures
        r.jwt_svid.token@ == "dummy"@,
        r.jwt_svid.spiffe_id.trust_domain@ == "dummy"@,
        r.jwt_svid.spiffe_id.path@ == "dummy"@,
        r.jwt_svid.expiry == 0,
        r.jwt_svid.issued_at == 0,
{
    create_workload_jwt::Response {
        jwt_svid: JWTSVIDCompact {
            token: String::from_str("dummy"),
            spiffe_id: SPIFFEID { trust_domain: String::from_str("dummy"), path: String::from_str("dummy") },
            expiry: 0,
            issued_at: 0,
        },
    }
}

} // verus!
