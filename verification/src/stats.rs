use vstd::prelude::*;

verus! {

/// Per-process counters: monotonic, never read inside hot-path branching.
#[derive(Debug, Clone, PartialEq, Eq, Structural)]
pub struct Statistics {
    /// Requests that went through the proxy.
    pub proxied_requests: u64,
    /// Responses the rewriter modified: styled or scripted, never
    /// hiding-only.
    pub modified_responses: u64,
    /// Requests answered with the synthetic blocked page.
    pub blocked_requests: u64,
    /// Requests an exception rule let through.
    pub exception_requests: u64,
}

/// A saturating increment: the counters only ever grow.
pub open spec fn bump(n: u64) -> u64 {
    if n < 0xffff_ffff_ffff_ffff {
        (n + 1) as u64
    } else {
        n
    }
}

impl Statistics {
    /// All counters start at zero.
    pub fn new() -> (r: Self)
        ensures
            r.proxied_requests == 0,
            r.modified_responses == 0,
            r.blocked_requests == 0,
            r.exception_requests == 0,
    {
        Statistics {
            proxied_requests: 0,
            modified_responses: 0,
            blocked_requests: 0,
            exception_requests: 0,
        }
    }

    /// Counts one proxied request.
    pub fn increment_proxied_requests(&mut self)
        ensures
            *final(self) == (Statistics { proxied_requests: bump(old(self).proxied_requests), ..*old(self) }),
    {
        if self.proxied_requests < u64::MAX {
            self.proxied_requests = self.proxied_requests + 1;
        }
    }

    /// Counts one modified response. The caller bumps this exactly when the
    /// cosmetic reply carried style rules or an injected script.
    pub fn increment_modified_responses(&mut self)
        ensures
            *final(self) == (Statistics { modified_responses: bump(old(self).modified_responses), ..*old(self) }),
    {
        if self.modified_responses < u64::MAX {
            self.modified_responses = self.modified_responses + 1;
        }
    }

    /// Counts one request an exception rule let through.
    pub fn increment_exception_requests(&mut self)
        ensures
            *final(self) == (Statistics { exception_requests: bump(old(self).exception_requests), ..*old(self) }),
    {
        if self.exception_requests < u64::MAX {
            self.exception_requests = self.exception_requests + 1;
        }
    }

    /// Counts one blocked request.
    pub fn increment_blocked_requests(&mut self)
        ensures
            *final(self) == (Statistics { blocked_requests: bump(old(self).blocked_requests), ..*old(self) }),
    {
        if self.blocked_requests < u64::MAX {
            self.blocked_requests = self.blocked_requests + 1;
        }
    }
}

} // verus!
