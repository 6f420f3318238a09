//! The admission controller: a token-bucket rate limiter, one bucket per
//! client identity, guarding the paste-creation path.
//!
//! Each bucket accrues tokens at a fixed rate up to a burst cap; an admitted
//! request consumes one token, a request finding less than one whole token is
//! throttled without consuming anything downstream. Token arithmetic is kept
//! in thousandths of a token, so a refill over any whole number of
//! milliseconds is exact: at 4 tokens per second, 250 ms buys exactly one.
//! The controller owns its map from client key to bucket state and is meant
//! to be constructed once and passed by handle to the request layer.

use vstd::prelude::*;

use crate::keyed::{
    key_map, lemma_key_map_domain, lemma_key_map_index, lemma_key_map_push, lemma_key_map_update,
    unique_keys, Keyed,
};
use vstd::pervasive::VecAdditionalExecFns;

verus! {

/// One token in thousandths.
pub const MILLITOKENS_PER_TOKEN: u64 = 1000;

/// The bucket of one client: its balance in millitokens and the instant, in
/// milliseconds since epoch, at which that balance was last settled.
pub struct Bucket {
    pub client: String,
    pub millitokens: u64,
    pub settled_at_ms: u64,
}

impl Keyed for Bucket {
    type K = Seq<char>;

    open spec fn key(&self) -> Seq<char> {
        self.client@
    }
}

/// The admission controller: refill rate, burst cap, and one bucket per
/// client key that has been seen.
pub struct AdmissionController {
    pub rate_per_sec: u64,
    pub burst: u64,
    pub buckets: Vec<Bucket>,
}

impl View for AdmissionController {
    type V = Map<Seq<char>, Bucket>;

    open spec fn view(&self) -> Map<Seq<char>, Bucket> {
        key_map(self.buckets@)
    }
}

/// The client identity a bucket is keyed by: the trusted proxy's real-IP
/// header when it is present, else the peer's network address.
pub fn client_key(real_ip: Option<String>, peer_addr: String) -> (key: String)
    ensures
        key == match real_ip {
            Some(ip) => ip,
            None => peer_addr,
        },
{
    match real_ip {
        Some(ip) => ip,
        None => peer_addr,
    }
}

/// The burst cap in millitokens.
pub open spec fn cap_mt(burst: u64) -> int {
    burst * MILLITOKENS_PER_TOKEN
}

/// Milliseconds elapsed between a bucket's settlement and `now_ms`; a clock
/// reading behind the settlement buys nothing.
pub open spec fn elapsed_ms(settled_at_ms: u64, now_ms: u64) -> int {
    if now_ms >= settled_at_ms {
        now_ms - settled_at_ms
    } else {
        0
    }
}

/// The millitokens available to `client` at `now_ms`: its bucket's balance
/// plus what the elapsed time accrued, capped at the burst cap; a client not
/// seen before starts with a full bucket.
pub open spec fn available_mt(
    m: Map<Seq<char>, Bucket>,
    client: Seq<char>,
    now_ms: u64,
    rate_per_sec: u64,
    burst: u64,
) -> int {
    if m.contains_key(client) {
        let b = m[client];
        let refilled = b.millitokens + elapsed_ms(b.settled_at_ms, now_ms) * rate_per_sec;
        if refilled <= cap_mt(burst) {
            refilled
        } else {
            cap_mt(burst)
        }
    } else {
        cap_mt(burst)
    }
}

impl AdmissionController {
    /// One bucket per client key, and a burst cap whose millitoken value
    /// fits the machine word.
    pub open spec fn wf(&self) -> bool {
        unique_keys(self.buckets@) && self.burst <= u64::MAX / MILLITOKENS_PER_TOKEN
    }

    /// A fresh controller with no bucket yet.
    pub fn new(rate_per_sec: u64, burst: u64) -> (c: AdmissionController)
        requires
            burst <= u64::MAX / MILLITOKENS_PER_TOKEN,
        ensures
            c.wf(),
            c@ == Map::<Seq<char>, Bucket>::empty(),
            c.rate_per_sec == rate_per_sec,
            c.burst == burst,
    {
        AdmissionController { rate_per_sec, burst, buckets: Vec::new() }
    }

    /// The index of the bucket of `client`, if any.
    fn find_bucket(buckets: &Vec<Bucket>, client: &String) -> (r: Option<usize>)
        ensures
            match r {
                Some(i) => i < buckets@.len() && buckets@[i as int].client@ == client@,
                None => forall|j: int| 0 <= j < buckets@.len() ==> buckets@[j].client@ != client@,
            },
    {
        let mut i: usize = 0;
        while i < buckets.len()
            invariant
                i <= buckets@.len(),
                forall|j: int| 0 <= j < i ==> buckets@[j].client@ != client@,
            decreases buckets@.len() - i,
        {
            if buckets[i].client == *client {
                return Some(i);
            }
            i += 1;
        }
        None
    }

    /// Admits or throttles one request from `client` at `now_ms`, without
    /// blocking: the request is admitted exactly when a whole token is
    /// available, and only then is a token consumed. The client's bucket is
    /// settled at `now_ms` either way; every other bucket is untouched.
    pub fn try_admit(&mut self, client: &String, now_ms: u64) -> (admitted: bool)
        requires
            old(self).wf(),
        ensures
            final(self).wf(),
            final(self).rate_per_sec == old(self).rate_per_sec,
            final(self).burst == old(self).burst,
            admitted == (available_mt(
                old(self)@,
                client@,
                now_ms,
                old(self).rate_per_sec,
                old(self).burst,
            ) >= MILLITOKENS_PER_TOKEN),
            final(self)@.contains_key(client@),
            final(self)@[client@].client@ == client@,
            final(self)@[client@].settled_at_ms == now_ms,
            final(self)@[client@].millitokens == available_mt(
                old(self)@,
                client@,
                now_ms,
                old(self).rate_per_sec,
                old(self).burst,
            ) - (if admitted {
                MILLITOKENS_PER_TOKEN as int
            } else {
                0
            }),
            final(self)@.remove(client@) == old(self)@.remove(client@),
    {
        let cap: u64 = self.burst * MILLITOKENS_PER_TOKEN;
        match Self::find_bucket(&self.buckets, client) {
            None => {
                proof {
                    lemma_key_map_domain(self.buckets@, client@);
                }
                let admitted = cap >= MILLITOKENS_PER_TOKEN;
                let balance: u64 = if admitted {
                    cap - MILLITOKENS_PER_TOKEN
                } else {
                    cap
                };
                let fresh = Bucket {
                    client: client.clone(),
                    millitokens: balance,
                    settled_at_ms: now_ms,
                };
                proof {
                    lemma_key_map_push(self.buckets@, fresh);
                }
                self.buckets.push(fresh);
                admitted
            },
            Some(i) => {
                proof {
                    lemma_key_map_index(self.buckets@, i as int);
                }
                let balance = self.buckets[i].millitokens;
                let settled = self.buckets[i].settled_at_ms;
                let elapsed: u64 = if now_ms >= settled {
                    now_ms - settled
                } else {
                    0
                };
                let accrued: u64 = match elapsed.checked_mul(self.rate_per_sec) {
                    Some(a) => a,
                    None => u64::MAX,
                };
                let uncapped: u64 = balance.saturating_add(accrued);
                let refilled: u64 = if uncapped > cap {
                    cap
                } else {
                    uncapped
                };
                proof {
                    assert(refilled == available_mt(
                        old(self)@,
                        client@,
                        now_ms,
                        old(self).rate_per_sec,
                        old(self).burst,
                    ));
                }
                let admitted = refilled >= MILLITOKENS_PER_TOKEN;
                let settled_balance: u64 = if admitted {
                    refilled - MILLITOKENS_PER_TOKEN
                } else {
                    refilled
                };
                let updated = Bucket {
                    client: self.buckets[i].client.clone(),
                    millitokens: settled_balance,
                    settled_at_ms: now_ms,
                };
                proof {
                    lemma_key_map_update(self.buckets@, i as int, updated);
                }
                self.buckets.set(i, updated);
                admitted
            },
        }
    }
}

} // verus!
