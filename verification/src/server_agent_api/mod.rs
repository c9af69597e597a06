//! The API between the SPIFFE agent and the SPIFFE server: its version and messages.
use vstd::prelude::*;
use vstd::string::StringExecFns;

pub mod attest_agent;
pub mod create_workload_jwt;
pub mod create_workload_jwts;
pub mod get_trust_bundle;

verus! {

broadcast use vstd::string::group_string_axioms;

/// Versions of the API.
#[derive(Clone, Copy, Debug, PartialEq, Eq, Structural, PartialOrd, Ord)]
pub enum ApiVersion {
    V2022_06_01,
}

/// The text of an API version, as it appears in `api-version=` query parameters.
pub open spec fn api_version_text(v: ApiVersion) -> Seq<char> {
    match v {
        ApiVersion::V2022_06_01 => "2022-06-01"@,
    }
}

impl ApiVersion {
    /// The text of the version.
    pub fn to_string(&self) -> (r: String)
        ensures
            r@ == api_version_text(*self),
    {
        match self {
            ApiVersion::V2022_06_01 => String::from_str("2022-06-01"),
        }
    }

    /// Reads a version from its text; any other text is refused.
    pub fn parse(s: &str) -> (r: Result<ApiVersion, ()>)
        ensures
            r is Ok <==> s@ == api_version_text(ApiVersion::V2022_06_01),
            r matches Ok(v) ==> api_version_text(v) == s@,
    {
        let given = s.to_owned();
        let known = String::from_str("2022-06-01");
        if given == known {
            Ok(ApiVersion::V2022_06_01)
        } else {
            Err(())
        }
    }
}

impl std::str::FromStr for ApiVersion {
    type Err = ();

    fn from_str(s: &str) -> (r: Result<Self, Self::Err>)
        ensures
            r is Ok <==> s@ == api_version_text(ApiVersion::V2022_06_01),
            r matches Ok(v) ==> api_version_text(v) == s@,
    {
        ApiVersion::parse(s)
    }
}

/// Distinct versions have distinct texts, so reading the text of a version with
/// [`ApiVersion::parse`] gives back that version.
pub proof fn lemma_api_version_text_injective(a: ApiVersion, b: ApiVersion)
    ensures
        api_version_text(a) == api_version_text(b) ==> a == b,
{
}

} // verus!
