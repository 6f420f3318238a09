//! The cache-control policy derived from a paste's expiry mode.
//!
//! A paste with a view budget must never be cached: each read mutates state.
//! A paste without one may be cached publicly, until its deadline if it has
//! one, else for a fixed default window.

use vstd::prelude::*;

use crate::decimal::{append_decimal, decimal_of};
use crate::paste::Paste;

verus! {

/// The default cache window, in seconds, for a paste with no deadline.
pub const DEFAULT_MAX_AGE_SECS: i64 = 3600;

/// The cache directive for a served paste.
#[derive(Clone, Copy, Debug, PartialEq, Eq, Structural)]
pub enum CachePolicy {
    /// The response must not be cached: reads are state-mutating.
    NoCache,
    /// The response may be cached publicly for `max_age_secs` seconds.
    Public { max_age_secs: i64 },
}

/// The policy for a paste served at `now_ms`: non-cacheable whenever a view
/// budget is present, else cacheable until the deadline (whole seconds
/// remaining), else cacheable for the default window.
pub open spec fn spec_cache_policy(p: Paste, now_ms: i64) -> CachePolicy {
    if p.expiry_views is Some {
        CachePolicy::NoCache
    } else {
        match p.expiry_time {
            Some(t) => CachePolicy::Public { max_age_secs: ((t - now_ms) / 1000) as i64 },
            None => CachePolicy::Public { max_age_secs: DEFAULT_MAX_AGE_SECS },
        }
    }
}

/// Derives the cache directive for a paste that was just served: its
/// deadline, if any, has not passed at `now_ms`, and `now_ms` is a wall-clock
/// reading in milliseconds since the epoch, hence non-negative.
pub fn cache_policy(p: &Paste, now_ms: i64) -> (r: CachePolicy)
    requires
        0 <= now_ms,
        p.expiry_time matches Some(t) ==> t >= now_ms,
    ensures
        r == spec_cache_policy(*p, now_ms),
{
    if p.expiry_views.is_some() {
        CachePolicy::NoCache
    } else {
        match p.expiry_time {
            Some(t) => {
                let remaining_ms: u64 = (t - now_ms) as u64;
                let secs: i64 = (remaining_ms / 1000) as i64;
                CachePolicy::Public { max_age_secs: secs }
            },
            None => CachePolicy::Public { max_age_secs: DEFAULT_MAX_AGE_SECS },
        }
    }
}

/// The `Cache-Control` header value that renders the policy: `no-cache`, or
/// `public, max-age=` followed by the decimal seconds.
pub open spec fn spec_directive(policy: CachePolicy) -> Seq<char> {
    match policy {
        CachePolicy::NoCache => "no-cache"@,
        CachePolicy::Public { max_age_secs } => "public, max-age="@ + decimal_of(
            max_age_secs as int,
        ),
    }
}

impl CachePolicy {
    /// Renders the policy as a `Cache-Control` header value.
    pub fn directive(&self) -> (r: String)
        ensures
            r@ == spec_directive(*self),
    {
        match self {
            CachePolicy::NoCache => "no-cache".to_owned(),
            CachePolicy::Public { max_age_secs } => {
                let n: i64 = *max_age_secs;
                let mut r = "public, max-age=".to_owned();
                if n < 0 {
                    r.append("-");
                    proof {
                        reveal_strlit("-");
                        assert("-"@ =~= seq!['-']);
                    }
                    let magnitude: u64 = ((-(n + 1)) as u64) + 1;
                    proof {
                        assert(magnitude == -(n as int));
                    }
                    append_decimal(&mut r, magnitude);
                } else {
                    append_decimal(&mut r, n as u64);
                }
                proof {
                    assert(r@ =~= spec_directive(*self));
                }
                r
            },
        }
    }
}

} // verus!
