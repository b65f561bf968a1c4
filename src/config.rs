use vstd::prelude::*;

use crate::error::CrawlError;

verus! {

/// The largest accepted per-host cooldown, in seconds (one day).
pub const MAX_COOLDOWN_SECONDS: u64 = 86400;

/// The largest accepted request timeout, in seconds (one hour).
pub const MAX_TIMEOUT_SECONDS: u64 = 3600;

/// The cooldown and the timeout used when none is given, in seconds.
pub const DEFAULT_SECONDS: u64 = 6;

/// Nanoseconds in a second.
pub const NANOS_PER_SECOND: u64 = 1_000_000_000;

/// The parameters of one run; they do not change once made.
pub struct CrawlConfig {
    cooldown_seconds: u64,
    request_timeout_seconds: u64,
    minimal_output: bool,
    force_cooldown: bool,
}

impl CrawlConfig {
    #[verifier::type_invariant]
    closed spec fn in_range(&self) -> bool {
        &&& self.cooldown_seconds <= MAX_COOLDOWN_SECONDS
        &&& self.request_timeout_seconds <= MAX_TIMEOUT_SECONDS
    }

    pub closed spec fn cooldown_spec(&self) -> u64 {
        self.cooldown_seconds
    }

    pub closed spec fn timeout_spec(&self) -> u64 {
        self.request_timeout_seconds
    }

    pub closed spec fn minimal_spec(&self) -> bool {
        self.minimal_output
    }

    pub closed spec fn force_cooldown_spec(&self) -> bool {
        self.force_cooldown
    }

    /// A configuration from its four values; a cooldown above a day or a
    /// timeout above an hour is refused.
    pub fn new(
        cooldown_seconds: u64,
        request_timeout_seconds: u64,
        minimal_output: bool,
        force_cooldown: bool,
    ) -> (r: Result<CrawlConfig, CrawlError>)
        ensures
            r is Ok <==> cooldown_seconds <= MAX_COOLDOWN_SECONDS && request_timeout_seconds
                <= MAX_TIMEOUT_SECONDS,
            r is Ok ==> {
                &&& r->Ok_0.cooldown_spec() == cooldown_seconds
                &&& r->Ok_0.timeout_spec() == request_timeout_seconds
                &&& r->Ok_0.minimal_spec() == minimal_output
                &&& r->Ok_0.force_cooldown_spec() == force_cooldown
            },
            r is Err ==> r->Err_0 == CrawlError::ConfigOutOfRange,
    {
        if cooldown_seconds > MAX_COOLDOWN_SECONDS || request_timeout_seconds > MAX_TIMEOUT_SECONDS {
            Err(CrawlError::ConfigOutOfRange)
        } else {
            Ok(CrawlConfig { cooldown_seconds, request_timeout_seconds, minimal_output, force_cooldown })
        }
    }

    /// The configuration used when no value is given: six seconds each, full output.
    pub fn standard() -> (r: CrawlConfig)
        ensures
            r.cooldown_spec() == DEFAULT_SECONDS,
            r.timeout_spec() == DEFAULT_SECONDS,
            !r.minimal_spec(),
            !r.force_cooldown_spec(),
    {
        CrawlConfig {
            cooldown_seconds: DEFAULT_SECONDS,
            request_timeout_seconds: DEFAULT_SECONDS,
            minimal_output: false,
            force_cooldown: false,
        }
    }

    pub fn cooldown_seconds(&self) -> (r: u64)
        ensures
            r == self.cooldown_spec(),
            r <= MAX_COOLDOWN_SECONDS,
    {
        proof {
            use_type_invariant(self);
        }
        self.cooldown_seconds
    }

    /// The cooldown in nanoseconds, the unit of the crawler's clock.
    pub fn cooldown_nanos(&self) -> (r: u64)
        ensures
            r == self.cooldown_spec() * NANOS_PER_SECOND,
    {
        proof {
            use_type_invariant(self);
        }
        assert(self.cooldown_seconds * NANOS_PER_SECOND <= MAX_COOLDOWN_SECONDS * NANOS_PER_SECOND)
            by (nonlinear_arith)
            requires
                self.cooldown_seconds <= MAX_COOLDOWN_SECONDS,
        ;
        self.cooldown_seconds * NANOS_PER_SECOND
    }

    pub fn request_timeout_seconds(&self) -> (r: u64)
        ensures
            r == self.timeout_spec(),
            r <= MAX_TIMEOUT_SECONDS,
    {
        proof {
            use_type_invariant(self);
        }
        self.request_timeout_seconds
    }

    pub fn minimal_output(&self) -> (r: bool)
        ensures
            r == self.minimal_spec(),
    {
        self.minimal_output
    }

    pub fn force_cooldown(&self) -> (r: bool)
        ensures
            r == self.force_cooldown_spec(),
    {
        self.force_cooldown
    }
}

} // verus!
