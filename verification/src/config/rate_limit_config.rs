//! Rate-limit configuration: a global rule, per-path rules, and keyed
//! rules for client IPs and API keys.

use vstd::prelude::*;

verus! {

/// The rate-limit section of the gateway configuration.
#[derive(Debug, Clone)]
pub struct RateLimitConfig {
    /// The process-wide limiter.
    pub global: RateLimitRule,
    /// Limiters for path prefixes; the longest matching prefix applies.
    pub path_rules: Vec<PathRateLimitRule>,
    /// Limiters keyed by API key.
    pub api_key_rules: Vec<(String, RateLimitRule)>,
    /// Limiters keyed by client IP.
    pub ip_rules: Vec<(String, RateLimitRule)>,
}

/// A limiter bound to a path prefix.
#[derive(Debug, Clone)]
pub struct PathRateLimitRule {
    /// The prefix the limiter guards.
    pub path_prefix: String,
    /// The limiter's parameters.
    pub rule: RateLimitRule,
}

/// Token-bucket parameters: steady rate and burst size.
#[derive(Debug, Clone)]
pub struct RateLimitRule {
    /// Tokens refilled per second.
    pub requests_per_second: u32,
    /// Bucket capacity: the largest burst admitted at once.
    pub burst_size: u32,
    /// Whether the limiter is active.
    pub enabled: bool,
}

impl RateLimitRule {
    /// A usable rule has a positive rate and a positive burst.
    pub open spec fn wf(self) -> bool {
        self.requests_per_second >= 1 && self.burst_size >= 1
    }
}

impl RateLimitConfig {
    /// Every enabled rule must be usable before limiters are built.
    pub open spec fn wf(self) -> bool {
        &&& (self.global.enabled ==> self.global.wf())
        &&& forall|i: int|
            0 <= i < self.path_rules@.len() && (#[trigger] self.path_rules@[i]).rule.enabled
                ==> self.path_rules@[i].rule.wf()
        &&& forall|i: int|
            0 <= i < self.ip_rules@.len() && (#[trigger] self.ip_rules@[i]).1.enabled
                ==> self.ip_rules@[i].1.wf()
        &&& forall|i: int|
            0 <= i < self.api_key_rules@.len() && (#[trigger] self.api_key_rules@[i]).1.enabled
                ==> self.api_key_rules@[i].1.wf()
    }

    /// Run-time check of `wf`, for configurations that arrive parsed
    /// from a file.
    pub fn is_well_formed(&self) -> (r: bool)
        ensures
            r == self.wf(),
    {
        if self.global.enabled && !(self.global.requests_per_second >= 1 && self.global.burst_size
            >= 1) {
            return false;
        }
        let mut i: usize = 0;
        while i < self.path_rules.len()
            invariant
                0 <= i <= self.path_rules@.len(),
                self.global.enabled ==> self.global.wf(),
                forall|j: int|
                    0 <= j < i && (#[trigger] self.path_rules@[j]).rule.enabled
                        ==> self.path_rules@[j].rule.wf(),
            decreases self.path_rules@.len() - i,
        {
            let rule = &self.path_rules[i].rule;
            if rule.enabled && !(rule.requests_per_second >= 1 && rule.burst_size >= 1) {
                return false;
            }
            i += 1;
        }
        let mut i: usize = 0;
        while i < self.ip_rules.len()
            invariant
                0 <= i <= self.ip_rules@.len(),
                self.global.enabled ==> self.global.wf(),
                forall|j: int|
                    0 <= j < self.path_rules@.len() && (#[trigger] self.path_rules@[j]).rule.enabled
                        ==> self.path_rules@[j].rule.wf(),
                forall|j: int|
                    0 <= j < i && (#[trigger] self.ip_rules@[j]).1.enabled
                        ==> self.ip_rules@[j].1.wf(),
            decreases self.ip_rules@.len() - i,
        {
            let rule = &self.ip_rules[i].1;
            if rule.enabled && !(rule.requests_per_second >= 1 && rule.burst_size >= 1) {
                return false;
            }
            i += 1;
        }
        let mut i: usize = 0;
        while i < self.api_key_rules.len()
            invariant
                0 <= i <= self.api_key_rules@.len(),
                self.global.enabled ==> self.global.wf(),
                forall|j: int|
                    0 <= j < self.path_rules@.len() && (#[trigger] self.path_rules@[j]).rule.enabled
                        ==> self.path_rules@[j].rule.wf(),
                forall|j: int|
                    0 <= j < self.ip_rules@.len() && (#[trigger] self.ip_rules@[j]).1.enabled
                        ==> self.ip_rules@[j].1.wf(),
                forall|j: int|
                    0 <= j < i && (#[trigger] self.api_key_rules@[j]).1.enabled
                        ==> self.api_key_rules@[j].1.wf(),
            decreases self.api_key_rules@.len() - i,
        {
            let rule = &self.api_key_rules[i].1;
            if rule.enabled && !(rule.requests_per_second >= 1 && rule.burst_size >= 1) {
                return false;
            }
            i += 1;
        }
        true
    }
}

impl Default for RateLimitConfig {
    /// The stock limits: a generous global bucket and tighter buckets
    /// for the login, register and user endpoints.
    fn default() -> (r: Self)
        ensures
            r.wf(),
            r.global.requests_per_second == 1000,
            r.global.burst_size == 50,
            r.global.enabled,
            r.path_rules@.len() == 3,
            r.path_rules@[0].path_prefix@ == "/api/auth/login"@,
            r.path_rules@[0].rule.requests_per_second == 5,
            r.path_rules@[0].rule.burst_size == 3,
            r.path_rules@[1].path_prefix@ == "/api/auth/register"@,
            r.path_rules@[2].path_prefix@ == "/api/users"@,
            r.api_key_rules@.len() == 0,
            r.ip_rules@.len() == 0,
    {
        proof {
            reveal_strlit("/api/auth/login");
            reveal_strlit("/api/auth/register");
            reveal_strlit("/api/users");
        }
        let mut path_rules: Vec<PathRateLimitRule> = Vec::new();
        path_rules.push(
            PathRateLimitRule {
                path_prefix: "/api/auth/login".to_owned(),
                rule: RateLimitRule { requests_per_second: 5, burst_size: 3, enabled: true },
            },
        );
        path_rules.push(
            PathRateLimitRule {
                path_prefix: "/api/auth/register".to_owned(),
                rule: RateLimitRule { requests_per_second: 2, burst_size: 5, enabled: true },
            },
        );
        path_rules.push(
            PathRateLimitRule {
                path_prefix: "/api/users".to_owned(),
                rule: RateLimitRule { requests_per_second: 10, burst_size: 20, enabled: true },
            },
        );
        RateLimitConfig {
            global: RateLimitRule { requests_per_second: 1000, burst_size: 50, enabled: true },
            path_rules,
            api_key_rules: Vec::new(),
            ip_rules: Vec::new(),
        }
    }
}

} // verus!
