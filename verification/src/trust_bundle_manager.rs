//! The agent's trust bundle: the first one, fetched with retries, and the cached one that
//! refreshes replace.
use vstd::prelude::*;

use crate::core_objects::TrustBundle;
use crate::server_agent_api::get_trust_bundle;

verus! {

/// Why the trust bundle could not be had; holds the message of the server client's error.
pub enum Error {
    InitTrustBundle(String),
    TrustBundle(String),
}

/// The trust bundle request the agent makes: JWT keys, no X.509 authorities.
pub fn trust_bundle_params() -> (r: get_trust_bundle::Params)
    ensures
        r.jwt_keys,
        !r.x509_cas,
{
    get_trust_bundle::Params { jwt_keys: true, x509_cas: false }
}

/// What to do after a failed request for the first trust bundle.
#[derive(Clone, Copy, PartialEq, Eq, Structural, Debug)]
pub enum RetryDecision {
    /// Wait the configured time, then ask again.
    WaitAndRetry,
    /// Report the failure.
    GiveUp,
}

/// Counts the retries of the request for the first trust bundle.
pub struct InitRetry {
    pub retry: usize,
    pub max_retry: usize,
}

impl InitRetry {
    /// No failure yet.
    pub fn new(max_retry: usize) -> (r: Self)
        ensures
            r.retry == 0,
            r.max_retry == max_retry,
    {
        InitRetry { retry: 0, max_retry }
    }

    /// After a failed request: give up once `max_retry` retries were made, else count one more
    /// retry.
    pub fn after_failure(&mut self) -> (r: RetryDecision)
        requires
            old(self).retry <= old(self).max_retry,
        ensures
            old(self).retry >= old(self).max_retry ==> r == RetryDecision::GiveUp && *final(self) == *old(self),
            old(self).retry < old(self).max_retry ==> r == RetryDecision::WaitAndRetry && final(self).retry == old(self).retry + 1 && final(self).max_retry == old(self).max_retry,
    {
        if self.retry >= self.max_retry {
            RetryDecision::GiveUp
        } else {
            self.retry = self.retry + 1;
            RetryDecision::WaitAndRetry
        }
    }
}

/// The decision after the `k`-th consecutive failure (from 1), starting from no failure.
pub open spec fn decision_after_failures(max_retry: usize, k: nat) -> RetryDecision {
    if k > max_retry {
        RetryDecision::GiveUp
    } else {
        RetryDecision::WaitAndRetry
    }
}

/// The first trust bundle is requested `max_retry + 1` times before the agent gives up: after
/// `k <= max_retry` failures the count of retries is `k` and the agent retries, and the failure
/// that follows `max_retry` retries gives up.
pub proof fn lemma_init_retries(max_retry: usize, k: nat)
    requires
        1 <= k <= max_retry + 1,
    ensures
        decision_after_failures(max_retry, k) == RetryDecision::GiveUp <==> k == max_retry + 1,
        ({
            let before = InitRetry { retry: (k - 1) as usize, max_retry };
            &&& before.retry <= before.max_retry
            &&& (before.retry >= before.max_retry <==> decision_after_failures(max_retry, k) == RetryDecision::GiveUp)
        }),
{
}

/// The agent's cached trust bundle.
pub struct TrustBundleManager {
    pub trust_bundle: TrustBundle,
}

impl TrustBundleManager {
    /// A manager holding the first trust bundle.
    pub fn new(init_trust_bundle: TrustBundle) -> (r: Self)
        ensures
            r.trust_bundle == init_trust_bundle,
    {
        TrustBundleManager { trust_bundle: init_trust_bundle }
    }

    /// Replaces the cached bundle with the one the server sent; a failed request leaves the
    /// cache as it was and is reported.
    pub fn refresh_trust_bundle(&mut self, response: Result<get_trust_bundle::Response, String>) -> (r: Result<(), Error>)
        ensures
            response matches Ok(resp) ==> r is Ok && final(self).trust_bundle == resp.trust_bundle,
            response matches Err(msg) ==> r == Err::<(), Error>(Error::TrustBundle(msg)) && *final(self) == *old(self),
    {
        match response {
            Ok(resp) => {
                self.trust_bundle = resp.trust_bundle;
                Ok(())
            },
            Err(msg) => Err(Error::TrustBundle(msg)),
        }
    }

    /// A copy of the cached bundle.
    pub fn get_cached_trust_bundle(&self) -> (r: TrustBundle)
        ensures
            r@ == self.trust_bundle@,
    {
        self.trust_bundle.clone()
    }
}

} // verus!
