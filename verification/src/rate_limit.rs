//! Token-bucket rate limiting.  Tokens are tracked in thousandths, so
//! the arithmetic stays in integers: a bucket of capacity `C` holds up
//! to `C * 1000` milli-tokens and refills at `rate` milli-tokens per
//! millisecond (which is `rate` whole tokens per second).

use vstd::prelude::*;
use crate::config::rate_limit_config::{PathRateLimitRule, RateLimitConfig, RateLimitRule};
use crate::text::is_prefix_of;
use crate::text::str_eq;
use crate::text::str_starts_with;

verus! {

/// One token bucket.  The caller supplies a monotonic clock in
/// milliseconds; the bucket itself never reads time.
pub struct TokenBucket {
    /// Whole tokens the bucket can hold: the admissible burst.
    pub capacity: u32,
    /// Whole tokens refilled per second.
    pub rate: u32,
    /// Current fill, in milli-tokens.
    pub tokens_milli: u64,
    /// Clock value at the last refill, in milliseconds.
    pub last_refill_ms: u64,
}

impl TokenBucket {
    /// Milli-token capacity.
    pub open spec fn cap_milli(self) -> int {
        self.capacity * 1000
    }

    /// Well-formedness: positive parameters and a fill within capacity.
    pub open spec fn wf(self) -> bool {
        self.capacity >= 1 && self.rate >= 1 && self.tokens_milli <= self.cap_milli()
    }

    /// A full bucket with the given parameters, anchored at `now_ms`.
    pub fn new(rule: &RateLimitRule, now_ms: u64) -> (r: Self)
        requires
            rule.wf(),
        ensures
            r == spec_new_bucket(*rule, now_ms),
            r.wf(),
    {
        TokenBucket {
            capacity: rule.burst_size,
            rate: rule.requests_per_second,
            tokens_milli: (rule.burst_size as u64) * 1000,
            last_refill_ms: now_ms,
        }
    }

    /// Takes one token if available, refilling first.  Returns whether
    /// the request is admitted and, when it is not, the milliseconds to
    /// wait until a token will be available.
    pub fn try_acquire(&mut self, now_ms: u64) -> (r: (bool, u64))
        requires
            old(self).wf(),
        ensures
            final(self).wf(),
            *final(self) == bucket_acquire_next(*old(self), now_ms),
            r.0 == bucket_acquire_allowed(*old(self), now_ms),
            r.1 == bucket_acquire_wait_ms(*old(self), now_ms),
            r.0 ==> r.1 == 0,
            !r.0 ==> r.1 >= 1,
    {
        let cap_milli: u64 = (self.capacity as u64) * 1000;
        let elapsed: u64 = if now_ms > self.last_refill_ms {
            now_ms - self.last_refill_ms
        } else {
            0
        };
        proof {
            let e = elapsed as int;
            let rt = self.rate as int;
            assert(e * rt <= 0xFFFFFFFFFFFFFFFF * 0xFFFFFFFF) by (nonlinear_arith)
                requires
                    0 <= e <= 0xFFFFFFFFFFFFFFFF,
                    0 <= rt <= 0xFFFFFFFF,
            ;
        }
        let added: u128 = (self.tokens_milli as u128) + (elapsed as u128) * (self.rate as u128);
        let filled: u64 = if added > (cap_milli as u128) {
            cap_milli
        } else {
            added as u64
        };
        self.tokens_milli = filled;
        if now_ms > self.last_refill_ms {
            self.last_refill_ms = now_ms;
        }
        if filled >= 1000 {
            self.tokens_milli = filled - 1000;
            (true, 0)
        } else {
            let missing: u64 = 1000 - filled;
            let wait: u64 = (missing + (self.rate as u64) - 1) / (self.rate as u64);
            proof {
                let m = missing as int;
                let rt = self.rate as int;
                assert(m >= 1);
                assert((m + rt - 1) / rt >= 1) by (nonlinear_arith)
                    requires m >= 1 && rt >= 1;
            }
            (false, wait)
        }
    }
}

/// A fresh, full bucket for `rule`, anchored at `now_ms`.
pub open spec fn spec_new_bucket(rule: RateLimitRule, now_ms: u64) -> TokenBucket {
    TokenBucket {
        capacity: rule.burst_size,
        rate: rule.requests_per_second,
        tokens_milli: (rule.burst_size * 1000) as u64,
        last_refill_ms: now_ms,
    }
}

/// The bucket after refilling at `now_ms`: the fill grows by the
/// elapsed time times the rate, clipped to capacity; a clock that ran
/// backwards adds nothing.
pub open spec fn bucket_refill(b: TokenBucket, now_ms: u64) -> TokenBucket {
    let elapsed: int = if now_ms > b.last_refill_ms {
        now_ms - b.last_refill_ms
    } else {
        0
    };
    let added: int = b.tokens_milli + elapsed * b.rate;
    let filled: int = if added > b.cap_milli() {
        b.cap_milli()
    } else {
        added
    };
    let last: u64 = if now_ms > b.last_refill_ms {
        now_ms
    } else {
        b.last_refill_ms
    };
    TokenBucket { tokens_milli: filled as u64, last_refill_ms: last, ..b }
}

/// Whether an acquisition at `now_ms` is admitted.
pub open spec fn bucket_acquire_allowed(b: TokenBucket, now_ms: u64) -> bool {
    bucket_refill(b, now_ms).tokens_milli >= 1000
}

/// The bucket after an acquisition attempt at `now_ms`.
pub open spec fn bucket_acquire_next(b: TokenBucket, now_ms: u64) -> TokenBucket {
    let r = bucket_refill(b, now_ms);
    if r.tokens_milli >= 1000 {
        TokenBucket { tokens_milli: (r.tokens_milli - 1000) as u64, ..r }
    } else {
        r
    }
}

/// Milliseconds until the next token, zero when admitted.
pub open spec fn bucket_acquire_wait_ms(b: TokenBucket, now_ms: u64) -> int {
    let r = bucket_refill(b, now_ms);
    if r.tokens_milli >= 1000 {
        0
    } else {
        (1000 - r.tokens_milli + b.rate - 1) / (b.rate as int)
    }
}

/// Runs a bucket through a sequence of acquisition times and counts the
/// admitted requests.
pub open spec fn bucket_run(b: TokenBucket, times: Seq<u64>) -> (TokenBucket, nat)
    decreases times.len(),
{
    if times.len() == 0 {
        (b, 0)
    } else {
        let allowed = bucket_acquire_allowed(b, times[0]);
        let rest = bucket_run(bucket_acquire_next(b, times[0]), times.drop_first());
        (rest.0, rest.1 + if allowed { 1 as nat } else { 0 as nat })
    }
}

proof fn lemma_acquire_step_bound(b: TokenBucket, now_ms: u64)
    requires
        b.wf(),
    ensures
        bucket_acquire_next(b, now_ms).wf(),
        bucket_acquire_next(b, now_ms).capacity == b.capacity,
        bucket_acquire_next(b, now_ms).rate == b.rate,
        bucket_acquire_next(b, now_ms).last_refill_ms >= b.last_refill_ms,
        bucket_acquire_next(b, now_ms).tokens_milli + (if bucket_acquire_allowed(b, now_ms) {
            1000 as int
        } else {
            0 as int
        }) <= b.tokens_milli + b.rate * (bucket_acquire_next(b, now_ms).last_refill_ms
            - b.last_refill_ms),
{
    let r = bucket_refill(b, now_ms);
    let elapsed: int = if now_ms > b.last_refill_ms {
        now_ms - b.last_refill_ms
    } else {
        0
    };
    assert(elapsed * b.rate >= 0) by (nonlinear_arith)
        requires elapsed >= 0 && b.rate >= 0;
    assert(r.last_refill_ms - b.last_refill_ms == elapsed);
    assert(r.tokens_milli <= b.tokens_milli + elapsed * b.rate);
    assert(b.rate * elapsed == elapsed * b.rate) by (nonlinear_arith);
}

/// Token conservation: over any sequence of requests, the number that a
/// well-formed bucket admits is at most its capacity plus what the rate
/// refills over the elapsed time.  In milli-tokens: `1000 * admitted <=
/// 1000 * capacity + rate * elapsed_ms`, where the elapsed time runs
/// from the bucket's last refill to the final clock value.
pub proof fn lemma_token_conservation(b: TokenBucket, times: Seq<u64>)
    requires
        b.wf(),
    ensures
        ({
            let r = bucket_run(b, times);
            &&& r.0.wf()
            &&& r.0.last_refill_ms >= b.last_refill_ms
            &&& 1000 * r.1 <= 1000 * b.capacity + b.rate * (r.0.last_refill_ms
                - b.last_refill_ms)
        }),
    decreases times.len(),
{
    lemma_run_accounting(b, times);
    let r = bucket_run(b, times);
    assert(1000 * r.1 + r.0.tokens_milli <= b.tokens_milli + b.rate * (r.0.last_refill_ms
        - b.last_refill_ms));
    assert(b.tokens_milli <= 1000 * b.capacity);
}

proof fn lemma_run_accounting(b: TokenBucket, times: Seq<u64>)
    requires
        b.wf(),
    ensures
        ({
            let r = bucket_run(b, times);
            &&& r.0.wf()
            &&& r.0.capacity == b.capacity
            &&& r.0.rate == b.rate
            &&& r.0.last_refill_ms >= b.last_refill_ms
            &&& 1000 * r.1 + r.0.tokens_milli <= b.tokens_milli + b.rate * (r.0.last_refill_ms
                - b.last_refill_ms)
        }),
    decreases times.len(),
{
    if times.len() == 0 {
        assert(b.rate * 0 == 0) by (nonlinear_arith);
    } else {
        let t0 = times[0];
        let b1 = bucket_acquire_next(b, t0);
        lemma_acquire_step_bound(b, t0);
        lemma_run_accounting(b1, times.drop_first());
        let r = bucket_run(b, times);
        let consumed: int = if bucket_acquire_allowed(b, t0) {
            1000
        } else {
            0
        };
        let d1: int = b1.last_refill_ms - b.last_refill_ms;
        let d2: int = r.0.last_refill_ms - b1.last_refill_ms;
        assert(b.rate * d1 + b.rate * d2 == b.rate * (d1 + d2)) by (nonlinear_arith);
    }
}

/// The decision the limiter registry returns for one request.
#[derive(Debug, Clone, Copy, PartialEq, Eq, Structural)]
pub struct RateDecision {
    /// Whether every applicable limiter admitted the request.
    pub allowed: bool,
    /// Seconds to wait before retrying; zero when admitted.
    pub retry_after_secs: u64,
}

/// The limiter registry: the global bucket, path buckets keyed by
/// prefix, and buckets keyed by client IP and by API key.
pub struct RateLimitLayer {
    /// The process-wide bucket.
    pub global_limiter: TokenBucket,
    /// Whether the global bucket participates.
    pub global_enabled: bool,
    /// Buckets per path prefix, in rule order.
    pub path_limiters: Vec<(String, TokenBucket)>,
    /// Buckets per client IP.
    pub ip_limiters: Vec<(String, TokenBucket)>,
    /// Parameters for a client IP seen for the first time: the global
    /// rule's rate and burst, as the process-wide default.
    pub ip_default: RateLimitRule,
    /// Buckets per API key.
    pub api_key_limiters: Vec<(String, TokenBucket)>,
}

/// Buckets for the enabled path rules, in order.
pub open spec fn spec_path_buckets(
    rules: Seq<PathRateLimitRule>,
    now_ms: u64,
) -> Seq<(Seq<char>, TokenBucket)>
    decreases rules.len(),
{
    if rules.len() == 0 {
        Seq::empty()
    } else {
        let rest = spec_path_buckets(rules.drop_last(), now_ms);
        let last = rules.last();
        if last.rule.enabled {
            rest.push((last.path_prefix@, spec_new_bucket(last.rule, now_ms)))
        } else {
            rest
        }
    }
}

/// Buckets for the enabled keyed rules, in order.
pub open spec fn spec_keyed_buckets(
    rules: Seq<(String, RateLimitRule)>,
    now_ms: u64,
) -> Seq<(Seq<char>, TokenBucket)>
    decreases rules.len(),
{
    if rules.len() == 0 {
        Seq::empty()
    } else {
        let rest = spec_keyed_buckets(rules.drop_last(), now_ms);
        let last = rules.last();
        if last.1.enabled {
            rest.push((last.0@, spec_new_bucket(last.1, now_ms)))
        } else {
            rest
        }
    }
}

/// The key views of a bucket vector.
pub open spec fn bucket_views(v: Seq<(String, TokenBucket)>) -> Seq<(Seq<char>, TokenBucket)> {
    v.map_values(|p: (String, TokenBucket)| (p.0@, p.1))
}

impl RateLimitLayer {
    /// All buckets are well-formed, and so is the per-IP default.
    pub open spec fn wf(self) -> bool {
        &&& self.global_limiter.wf()
        &&& self.ip_default.wf()
        &&& forall|i: int|
            0 <= i < self.path_limiters@.len() ==> (#[trigger] self.path_limiters@[i]).1.wf()
        &&& forall|i: int|
            0 <= i < self.ip_limiters@.len() ==> (#[trigger] self.ip_limiters@[i]).1.wf()
        &&& forall|i: int|
            0 <= i < self.api_key_limiters@.len() ==> (#[trigger] self.api_key_limiters@[i]).1.wf()
    }

    /// Builds the registry from the configuration, creating one full
    /// bucket per enabled rule, anchored at `now_ms`.
    pub fn new(config: &RateLimitConfig, now_ms: u64) -> (r: Self)
        requires
            config.wf(),
            config.global.wf(),
        ensures
            r.wf(),
            r.global_limiter == spec_new_bucket(config.global, now_ms),
            r.global_enabled == config.global.enabled,
            r.ip_default == config.global,
            bucket_views(r.path_limiters@) == spec_path_buckets(config.path_rules@, now_ms),
            bucket_views(r.ip_limiters@) == spec_keyed_buckets(config.ip_rules@, now_ms),
            bucket_views(r.api_key_limiters@) == spec_keyed_buckets(config.api_key_rules@, now_ms),
    {
        let global_limiter = TokenBucket::new(&config.global, now_ms);
        let mut path_limiters: Vec<(String, TokenBucket)> = Vec::new();
        let mut i: usize = 0;
        while i < config.path_rules.len()
            invariant
                0 <= i <= config.path_rules@.len(),
                config.wf(),
                bucket_views(path_limiters@) == spec_path_buckets(
                    config.path_rules@.subrange(0, i as int),
                    now_ms,
                ),
                forall|j: int|
                    0 <= j < path_limiters@.len() ==> (#[trigger] path_limiters@[j]).1.wf(),
            decreases config.path_rules@.len() - i,
        {
            let entry = &config.path_rules[i];
            let ghost pre = path_limiters@;
            if entry.rule.enabled {
                let bucket = TokenBucket::new(&entry.rule, now_ms);
                path_limiters.push((entry.path_prefix.clone(), bucket));
            }
            proof {
                let sub = config.path_rules@.subrange(0, i + 1);
                assert(sub.drop_last() =~= config.path_rules@.subrange(0, i as int));
                assert(sub.last() == config.path_rules@[i as int]);
                if config.path_rules@[i as int].rule.enabled {
                    assert(bucket_views(path_limiters@) =~= bucket_views(pre).push(
                        (
                            config.path_rules@[i as int].path_prefix@,
                            spec_new_bucket(config.path_rules@[i as int].rule, now_ms),
                        ),
                    ));
                }
            }
            i += 1;
        }
        proof {
            assert(config.path_rules@.subrange(0, config.path_rules@.len() as int)
                =~= config.path_rules@);
        }
        let ip_limiters = build_keyed(&config.ip_rules, now_ms);
        let api_key_limiters = build_keyed(&config.api_key_rules, now_ms);
        RateLimitLayer {
            global_limiter,
            global_enabled: config.global.enabled,
            path_limiters,
            ip_limiters,
            api_key_limiters,
            ip_default: RateLimitRule {
                requests_per_second: config.global.requests_per_second,
                burst_size: config.global.burst_size,
                enabled: config.global.enabled,
            },
        }
    }

    /// The applicable path bucket for `path`: among the entries whose
    /// prefix matches, the one with the longest prefix, later entries
    /// winning ties (mirroring a keyed map where later rules replaced
    /// earlier ones).
    pub open spec fn spec_path_choice(self, path: Seq<char>) -> Option<int> {
        spec_longest_match(bucket_views(self.path_limiters@), path)
    }

    fn get_path_limiter_index(&self, path: &str) -> (r: Option<usize>)
        ensures
            match r {
                Some(i) => self.spec_path_choice(path@) == Some(i as int) && i
                    < self.path_limiters@.len(),
                None => self.spec_path_choice(path@) is None,
            },
    {
        let views = &self.path_limiters;
        let mut best: Option<usize> = None;
        let mut i: usize = 0;
        while i < views.len()
            invariant
                0 <= i <= views@.len(),
                match best {
                    Some(b) => spec_longest_match(
                        bucket_views(views@).subrange(0, i as int),
                        path@,
                    ) == Some(b as int) && b < i,
                    None => spec_longest_match(
                        bucket_views(views@).subrange(0, i as int),
                        path@,
                    ) is None,
                },
            decreases views@.len() - i,
        {
            let ghost pre = bucket_views(views@).subrange(0, i as int);
            let ghost cur = bucket_views(views@).subrange(0, i + 1);
            proof {
                assert(cur.drop_last() =~= pre);
                assert(cur.last() == (views@[i as int].0@, views@[i as int].1));
            }
            let matches_here = str_starts_with(path, views[i].0.as_str());
            if matches_here {
                match best {
                    Some(b) => {
                        let blen = views[b].0.as_str().unicode_len();
                        let here = views[i].0.as_str().unicode_len();
                        if here >= blen {
                            best = Some(i);
                        }
                    }
                    None => {
                        best = Some(i);
                    }
                }
            }
            i += 1;
        }
        proof {
            assert(bucket_views(views@).subrange(0, views@.len() as int) =~= bucket_views(views@));
        }
        best
    }

    /// Inserts or replaces the bucket for client IP `ip`: the first
    /// entry under that key (appended when absent) becomes a full
    /// bucket with the given rate and burst, and every other entry is
    /// unchanged.
    pub fn add_ip_limiter(&mut self, ip: &str, requests_per_second: u32, burst_size: u32)
        requires
            old(self).wf(),
            requests_per_second >= 1,
            burst_size >= 1,
        ensures
            final(self).wf(),
            final(self).global_limiter == old(self).global_limiter,
            final(self).global_enabled == old(self).global_enabled,
            final(self).ip_default == old(self).ip_default,
            final(self).path_limiters@ == old(self).path_limiters@,
            final(self).api_key_limiters@ == old(self).api_key_limiters@,
            ({
                let fresh = TokenBucket {
                    capacity: burst_size,
                    rate: requests_per_second,
                    tokens_milli: (burst_size * 1000) as u64,
                    last_refill_ms: 0,
                };
                &&& (match spec_find_key(bucket_views(final(self).ip_limiters@), ip@) {
                    Some(i) => final(self).ip_limiters@[i].1 == fresh,
                    None => false,
                })
                &&& (match spec_find_key(bucket_views(old(self).ip_limiters@), ip@) {
                    Some(i) => {
                        &&& final(self).ip_limiters@.len() == old(self).ip_limiters@.len()
                        &&& final(self).ip_limiters@[i].0 == old(self).ip_limiters@[i].0
                        &&& forall|j: int|
                            0 <= j < old(self).ip_limiters@.len() && j != i
                                ==> final(self).ip_limiters@[j] == old(self).ip_limiters@[j]
                    },
                    None => {
                        &&& final(self).ip_limiters@.len() == old(self).ip_limiters@.len() + 1
                        &&& final(self).ip_limiters@.subrange(
                            0,
                            old(self).ip_limiters@.len() as int,
                        ) == old(self).ip_limiters@
                        &&& final(self).ip_limiters@.last().0@ == ip@
                    },
                })
            }),
    {
        let bucket = TokenBucket {
            capacity: burst_size,
            rate: requests_per_second,
            tokens_milli: (burst_size as u64) * 1000,
            last_refill_ms: 0,
        };
        let ghost pre = self.ip_limiters@;
        let n = self.ip_limiters.len();
        let mut i: usize = 0;
        while i < n
            invariant
                0 <= i <= n,
                n == self.ip_limiters@.len(),
                *self == *old(self),
                pre == old(self).ip_limiters@,
                old(self).wf(),
                bucket.wf(),
                bucket.capacity == burst_size,
                bucket.rate == requests_per_second,
                bucket.tokens_milli == burst_size * 1000,
                bucket.last_refill_ms == 0,
                forall|j: int| 0 <= j < i ==> (#[trigger] bucket_views(pre)[j]).0 != ip@,
            decreases n - i,
        {
            if str_eq(self.ip_limiters[i].0.as_str(), ip) {
                self.ip_limiters[i].1 = bucket;
                proof {
                    assert(self.ip_limiters@.len() == pre.len());
                    assert(forall|j: int|
                        0 <= j < pre.len() && j != i ==> self.ip_limiters@[j] == pre[j]);
                    lemma_find_key_hit(bucket_views(pre), ip@, i as int);
                    assert forall|j: int|
                        0 <= j < i implies (#[trigger] bucket_views(self.ip_limiters@)[j]).0
                        != ip@ by {
                        assert(self.ip_limiters@[j] == pre[j]);
                        assert(bucket_views(pre)[j].0 != ip@);
                    }
                    assert(bucket_views(self.ip_limiters@)[i as int].0 == ip@);
                    lemma_find_key_hit(bucket_views(self.ip_limiters@), ip@, i as int);
                }
                return;
            }
            i += 1;
        }
        self.ip_limiters.push((ip.to_owned(), bucket));
        proof {
            let k = self.ip_limiters@.len() - 1;
            assert(self.ip_limiters@[k].0@ == ip@);
            lemma_find_key_miss(bucket_views(pre), ip@);
            assert forall|j: int|
                0 <= j < k implies (#[trigger] bucket_views(self.ip_limiters@)[j]).0 != ip@ by {
                assert(self.ip_limiters@[j] == pre[j]);
                assert(bucket_views(pre)[j].0 != ip@);
            }
            assert(bucket_views(self.ip_limiters@)[k].0 == ip@);
            lemma_find_key_hit(bucket_views(self.ip_limiters@), ip@, k);
            assert(self.ip_limiters@.subrange(0, pre.len() as int) =~= pre);
        }
    }

    /// Checks one request against every applicable limiter: the global
    /// bucket, the longest-prefix path bucket, the client-IP bucket and
    /// the API-key bucket, when they exist.  Every applicable limiter is
    /// charged, even after one denies, so the retry hint is the largest
    /// wait among the deniers, rounded up to whole seconds.  Each
    /// consulted bucket ends at `bucket_acquire_next` of its old value;
    /// every other bucket is unchanged.
    pub fn check(&mut self, path: &str, ip: &str, api_key: Option<&str>, now_ms: u64) -> (r:
        RateDecision)
        requires
            old(self).wf(),
        ensures
            final(self).wf(),
            r.allowed == spec_check_allowed(*old(self), path@, ip@, spec_opt_view(api_key), now_ms),
            r.retry_after_secs == spec_check_retry_secs(
                *old(self),
                path@,
                ip@,
                spec_opt_view(api_key),
                now_ms,
            ),
            r.allowed ==> r.retry_after_secs == 0,
            !r.allowed ==> r.retry_after_secs >= 1,
            final(self).global_enabled == old(self).global_enabled,
            final(self).global_limiter == (if old(self).global_enabled {
                bucket_acquire_next(old(self).global_limiter, now_ms)
            } else {
                old(self).global_limiter
            }),
            final(self).path_limiters@ == (match spec_longest_match(
                bucket_views(old(self).path_limiters@),
                path@,
            ) {
                Some(i) => old(self).path_limiters@.update(
                    i,
                    (
                        old(self).path_limiters@[i].0,
                        bucket_acquire_next(old(self).path_limiters@[i].1, now_ms),
                    ),
                ),
                None => old(self).path_limiters@,
            }),
            (match spec_find_key(bucket_views(old(self).ip_limiters@), ip@) {
                Some(i) => final(self).ip_limiters@ == old(self).ip_limiters@.update(
                    i,
                    (
                        old(self).ip_limiters@[i].0,
                        bucket_acquire_next(old(self).ip_limiters@[i].1, now_ms),
                    ),
                ),
                None => if old(self).ip_default.enabled {
                    &&& final(self).ip_limiters@.len() == old(self).ip_limiters@.len() + 1
                    &&& final(self).ip_limiters@.subrange(
                        0,
                        old(self).ip_limiters@.len() as int,
                    ) == old(self).ip_limiters@
                    &&& final(self).ip_limiters@.last().0@ == ip@
                    &&& final(self).ip_limiters@.last().1 == bucket_acquire_next(
                        spec_new_bucket(old(self).ip_default, now_ms),
                        now_ms,
                    )
                } else {
                    final(self).ip_limiters@ == old(self).ip_limiters@
                },
            }),
            final(self).ip_default == old(self).ip_default,
            final(self).api_key_limiters@ == (match spec_opt_view(api_key) {
                Some(key) => match spec_find_key(
                    bucket_views(old(self).api_key_limiters@),
                    key,
                ) {
                    Some(i) => old(self).api_key_limiters@.update(
                        i,
                        (
                            old(self).api_key_limiters@[i].0,
                            bucket_acquire_next(old(self).api_key_limiters@[i].1, now_ms),
                        ),
                    ),
                    None => old(self).api_key_limiters@,
                },
                None => old(self).api_key_limiters@,
            }),
    {
        let mut allowed = true;
        let mut max_wait_ms: u64 = 0;
        if self.global_enabled {
            let (ok, wait) = self.global_limiter.try_acquire(now_ms);
            if !ok {
                allowed = false;
                if wait > max_wait_ms {
                    max_wait_ms = wait;
                }
            }
        }
        let path_idx = self.get_path_limiter_index(path);
        match path_idx {
            Some(i) => {
                let ghost pre = *self;
                let b = &mut self.path_limiters[i].1;
                let (ok, wait) = b.try_acquire(now_ms);
                proof {
                    assert(forall|j: int|
                        0 <= j < self.path_limiters@.len() && j != i ==> self.path_limiters@[j]
                            == pre.path_limiters@[j]);
                    assert(self.path_limiters@ =~= pre.path_limiters@.update(
                        i as int,
                        (
                            pre.path_limiters@[i as int].0,
                            bucket_acquire_next(pre.path_limiters@[i as int].1, now_ms),
                        ),
                    ));
                }
                if !ok {
                    allowed = false;
                    if wait > max_wait_ms {
                        max_wait_ms = wait;
                    }
                }
            }
            None => {}
        }
        let ip_idx = find_key(&self.ip_limiters, ip);
        match ip_idx {
            Some(i) => {
                let ghost pre = *self;
                let b = &mut self.ip_limiters[i].1;
                let (ok, wait) = b.try_acquire(now_ms);
                proof {
                    assert(forall|j: int|
                        0 <= j < self.ip_limiters@.len() && j != i ==> self.ip_limiters@[j]
                            == pre.ip_limiters@[j]);
                    assert(self.ip_limiters@ =~= pre.ip_limiters@.update(
                        i as int,
                        (
                            pre.ip_limiters@[i as int].0,
                            bucket_acquire_next(pre.ip_limiters@[i as int].1, now_ms),
                        ),
                    ));
                }
                if !ok {
                    allowed = false;
                    if wait > max_wait_ms {
                        max_wait_ms = wait;
                    }
                }
            }
            None => {
                // an IP seen for the first time gets a bucket with the
                // default parameters, charged like any other
                if self.ip_default.enabled {
                    let ghost pre = *self;
                    let mut fresh = TokenBucket::new(&self.ip_default, now_ms);
                    let (ok, wait) = fresh.try_acquire(now_ms);
                    self.ip_limiters.push((ip.to_owned(), fresh));
                    proof {
                        assert(self.ip_limiters@.subrange(0, pre.ip_limiters@.len() as int)
                            =~= pre.ip_limiters@);
                    }
                    if !ok {
                        allowed = false;
                        if wait > max_wait_ms {
                            max_wait_ms = wait;
                        }
                    }
                }
            }
        }
        match api_key {
            Some(key) => {
                let key_idx = find_key(&self.api_key_limiters, key);
                match key_idx {
                    Some(i) => {
                        let ghost pre = *self;
                        let b = &mut self.api_key_limiters[i].1;
                        let (ok, wait) = b.try_acquire(now_ms);
                        proof {
                            assert(forall|j: int|
                                0 <= j < self.api_key_limiters@.len() && j != i
                                    ==> self.api_key_limiters@[j] == pre.api_key_limiters@[j]);
                            assert(self.api_key_limiters@ =~= pre.api_key_limiters@.update(
                                i as int,
                                (
                                    pre.api_key_limiters@[i as int].0,
                                    bucket_acquire_next(pre.api_key_limiters@[i as int].1, now_ms),
                                ),
                            ));
                        }
                        if !ok {
                            allowed = false;
                            if wait > max_wait_ms {
                                max_wait_ms = wait;
                            }
                        }
                    }
                    None => {}
                }
            }
            None => {}
        }
        let retry_after_secs: u64 = if allowed {
            0
        } else {
            // round milliseconds up to whole seconds for the Retry-After header
            let s = (max_wait_ms - 1) / 1000 + 1;
            s
        };
        RateDecision { allowed, retry_after_secs }
    }
}

/// View of an optional borrowed string.
pub open spec fn spec_opt_view(s: Option<&str>) -> Option<Seq<char>> {
    match s {
        Some(x) => Some(x@),
        None => None,
    }
}

fn build_keyed(rules: &Vec<(String, RateLimitRule)>, now_ms: u64) -> (r: Vec<(String, TokenBucket)>)
    requires
        forall|i: int|
            0 <= i < rules@.len() && (#[trigger] rules@[i]).1.enabled ==> rules@[i].1.wf(),
    ensures
        bucket_views(r@) == spec_keyed_buckets(rules@, now_ms),
        forall|i: int| 0 <= i < r@.len() ==> (#[trigger] r@[i]).1.wf(),
{
    let mut out: Vec<(String, TokenBucket)> = Vec::new();
    let mut i: usize = 0;
    while i < rules.len()
        invariant
            0 <= i <= rules@.len(),
            forall|j: int|
                0 <= j < rules@.len() && (#[trigger] rules@[j]).1.enabled ==> rules@[j].1.wf(),
            bucket_views(out@) == spec_keyed_buckets(rules@.subrange(0, i as int), now_ms),
            forall|j: int| 0 <= j < out@.len() ==> (#[trigger] out@[j]).1.wf(),
        decreases rules@.len() - i,
    {
        let entry = &rules[i];
        let ghost pre = out@;
        if entry.1.enabled {
            let bucket = TokenBucket::new(&entry.1, now_ms);
            out.push((entry.0.clone(), bucket));
        }
        proof {
            let sub = rules@.subrange(0, i + 1);
            assert(sub.drop_last() =~= rules@.subrange(0, i as int));
            assert(sub.last() == rules@[i as int]);
            if rules@[i as int].1.enabled {
                assert(bucket_views(out@) =~= bucket_views(pre).push(
                    (rules@[i as int].0@, spec_new_bucket(rules@[i as int].1, now_ms)),
                ));
            }
        }
        i += 1;
    }
    proof {
        assert(rules@.subrange(0, rules@.len() as int) =~= rules@);
    }
    out
}

fn find_key(v: &Vec<(String, TokenBucket)>, key: &str) -> (r: Option<usize>)
    ensures
        match r {
            Some(i) => spec_find_key(bucket_views(v@), key@) == Some(i as int) && i < v@.len(),
            None => spec_find_key(bucket_views(v@), key@) is None,
        },
{
    let mut i: usize = 0;
    while i < v.len()
        invariant
            0 <= i <= v@.len(),
            forall|j: int| 0 <= j < i ==> (#[trigger] bucket_views(v@)[j]).0 != key@,
        decreases v@.len() - i,
    {
        if str_eq(v[i].0.as_str(), key) {
            proof {
                lemma_find_key_hit(bucket_views(v@), key@, i as int);
            }
            return Some(i);
        }
        i += 1;
    }
    proof {
        lemma_find_key_miss(bucket_views(v@), key@);
    }
    None
}

proof fn lemma_find_key_miss(v: Seq<(Seq<char>, TokenBucket)>, key: Seq<char>)
    requires
        forall|j: int| 0 <= j < v.len() ==> (#[trigger] v[j]).0 != key,
    ensures
        spec_find_key(v, key) is None,
    decreases v.len(),
{
    if v.len() > 0 {
        lemma_find_key_miss(v.drop_first(), key);
    }
}

/// Index of the first entry whose key equals `key`.
pub open spec fn spec_find_key(v: Seq<(Seq<char>, TokenBucket)>, key: Seq<char>) -> Option<int>
    decreases v.len(),
{
    if v.len() == 0 {
        None
    } else if v[0].0 == key {
        Some(0)
    } else {
        match spec_find_key(v.drop_first(), key) {
            Some(i) => Some(i + 1),
            None => None,
        }
    }
}

proof fn lemma_find_key_hit(v: Seq<(Seq<char>, TokenBucket)>, key: Seq<char>, i: int)
    requires
        0 <= i < v.len(),
        v[i].0 == key,
        forall|j: int| 0 <= j < i ==> (#[trigger] v[j]).0 != key,
    ensures
        spec_find_key(v, key) == Some(i),
    decreases v.len(),
{
    if i == 0 {
    } else {
        lemma_find_key_hit(v.drop_first(), key, i - 1);
    }
}

/// The longest-prefix match in `v` against `path`: the entry with the
/// longest matching key, the last such entry winning ties.
pub open spec fn spec_longest_match(
    v: Seq<(Seq<char>, TokenBucket)>,
    path: Seq<char>,
) -> Option<int>
    decreases v.len(),
{
    if v.len() == 0 {
        None
    } else {
        let rest = spec_longest_match(v.drop_last(), path);
        let last_idx = v.len() - 1;
        if is_prefix_of(v[last_idx].0, path) {
            match rest {
                Some(i) => if v[last_idx].0.len() >= v[i].0.len() {
                    Some(last_idx)
                } else {
                    Some(i)
                },
                None => Some(last_idx),
            }
        } else {
            rest
        }
    }
}

/// Whether the registry admits the request, over the same transition
/// the executable `check` takes.
pub open spec fn spec_check_allowed(
    l: RateLimitLayer,
    path: Seq<char>,
    ip: Seq<char>,
    api_key: Option<Seq<char>>,
    now_ms: u64,
) -> bool {
    &&& (l.global_enabled ==> bucket_acquire_allowed(l.global_limiter, now_ms))
    &&& (match spec_longest_match(bucket_views(l.path_limiters@), path) {
        Some(i) => bucket_acquire_allowed(l.path_limiters@[i].1, now_ms),
        None => true,
    })
    &&& (match spec_find_key(bucket_views(l.ip_limiters@), ip) {
        Some(i) => bucket_acquire_allowed(l.ip_limiters@[i].1, now_ms),
        None => if l.ip_default.enabled {
            bucket_acquire_allowed(spec_new_bucket(l.ip_default, now_ms), now_ms)
        } else {
            true
        },
    })
    &&& (match api_key {
        Some(key) => match spec_find_key(bucket_views(l.api_key_limiters@), key) {
            Some(i) => bucket_acquire_allowed(l.api_key_limiters@[i].1, now_ms),
            None => true,
        },
        None => true,
    })
}

/// The largest wait in milliseconds among the limiters that denied.
pub open spec fn spec_check_max_wait_ms(
    l: RateLimitLayer,
    path: Seq<char>,
    ip: Seq<char>,
    api_key: Option<Seq<char>>,
    now_ms: u64,
) -> int {
    let g: int = if l.global_enabled && !bucket_acquire_allowed(l.global_limiter, now_ms) {
        bucket_acquire_wait_ms(l.global_limiter, now_ms)
    } else {
        0
    };
    let p: int = match spec_longest_match(bucket_views(l.path_limiters@), path) {
        Some(i) => if !bucket_acquire_allowed(l.path_limiters@[i].1, now_ms) {
            bucket_acquire_wait_ms(l.path_limiters@[i].1, now_ms)
        } else {
            0
        },
        None => 0,
    };
    let q: int = match spec_find_key(bucket_views(l.ip_limiters@), ip) {
        Some(i) => if !bucket_acquire_allowed(l.ip_limiters@[i].1, now_ms) {
            bucket_acquire_wait_ms(l.ip_limiters@[i].1, now_ms)
        } else {
            0
        },
        None => if l.ip_default.enabled && !bucket_acquire_allowed(
            spec_new_bucket(l.ip_default, now_ms),
            now_ms,
        ) {
            bucket_acquire_wait_ms(spec_new_bucket(l.ip_default, now_ms), now_ms)
        } else {
            0
        },
    };
    let k: int = match api_key {
        Some(key) => match spec_find_key(bucket_views(l.api_key_limiters@), key) {
            Some(i) => if !bucket_acquire_allowed(l.api_key_limiters@[i].1, now_ms) {
                bucket_acquire_wait_ms(l.api_key_limiters@[i].1, now_ms)
            } else {
                0
            },
            None => 0,
        },
        None => 0,
    };
    spec_max4(g, p, q, k)
}

/// Seconds the client is told to wait: the largest denier wait, rounded
/// up; zero when admitted.
pub open spec fn spec_check_retry_secs(
    l: RateLimitLayer,
    path: Seq<char>,
    ip: Seq<char>,
    api_key: Option<Seq<char>>,
    now_ms: u64,
) -> int {
    if spec_check_allowed(l, path, ip, api_key, now_ms) {
        0
    } else {
        (spec_check_max_wait_ms(l, path, ip, api_key, now_ms) - 1) / 1000 + 1
    }
}

/// Maximum of four values.
pub open spec fn spec_max4(a: int, b: int, c: int, d: int) -> int {
    let x = if a >= b {
        a
    } else {
        b
    };
    let y = if c >= d {
        c
    } else {
        d
    };
    if x >= y {
        x
    } else {
        y
    }
}

} // verus!
