//! What is configured for every connection of a service.

use vstd::prelude::*;

verus! {

/// The configuration of a service.
#[derive(Clone, Copy, Debug, PartialEq, Eq)]
pub struct ServiceConfig {
    /// The time, in milliseconds, that a connection may stay idle; `None`
    /// turns keep-alive off.
    pub keep_alive: Option<u64>,
}

impl ServiceConfig {
    /// A configuration with the given keep-alive time in milliseconds.
    pub fn new(keep_alive: Option<u64>) -> (r: ServiceConfig)
        ensures
            r.keep_alive == keep_alive,
    {
        ServiceConfig { keep_alive }
    }

    /// Whether connections are kept alive.
    pub fn keep_alive_enabled(self) -> (r: bool)
        ensures
            r == self.keep_alive is Some,
    {
        self.keep_alive.is_some()
    }

    /// The moment at which a connection that is idle from `now` on expires:
    /// `now` and the keep-alive time, or the end of the clock where that is
    /// beyond it; none without keep-alive.
    pub open spec fn spec_keep_alive_expire(self, now: u64) -> Option<u64> {
        match self.keep_alive {
            Some(ka) => Some(
                if now + ka > u64::MAX {
                    u64::MAX
                } else {
                    (now + ka) as u64
                },
            ),
            None => None,
        }
    }

    /// Computes the moment at which a connection that is idle from `now` on
    /// expires.
    #[verifier::when_used_as_spec(spec_keep_alive_expire)]
    pub fn keep_alive_expire(self, now: u64) -> (r: Option<u64>)
        ensures
            r == self.spec_keep_alive_expire(now),
    {
        match self.keep_alive {
            Some(ka) => Some(
                if ka > u64::MAX - now {
                    u64::MAX
                } else {
                    now + ka
                },
            ),
            None => None,
        }
    }
}

} // verus!
