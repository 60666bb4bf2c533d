//! Per-upstream circuit breaker: a three-state machine with a failure
//! counter and a time-triggered reset, plus the table that keys breakers
//! by service id.

use vstd::prelude::*;
use crate::text::{is_prefix_of, str_eq, str_starts_with};

verus! {

/// The three states a breaker can be in.
#[derive(Debug, Clone, Copy, PartialEq, Eq, Structural)]
pub enum CircuitBreakerState {
    /// Requests pass through; failures are counted.
    Closed,
    /// Requests are rejected until the reset timeout elapses.
    Open,
    /// A probe request is allowed through to test recovery.
    HalfOpen,
}

/// A single service's breaker.  Times are in seconds, as handed in by the
/// caller; the machine itself never reads a clock.
pub struct CircuitBreaker {
    /// Current state.
    pub state: CircuitBreakerState,
    /// Consecutive failures observed while `Closed`.
    pub failure_count: u64,
    /// Failures in `Closed` at which the breaker opens.
    pub failure_threshold: u64,
    /// Seconds after the last failure before an `Open` breaker half-opens.
    pub reset_timeout: u64,
    /// Time of the most recent failure, in seconds.
    pub last_failure_time: u64,
    /// The service this breaker guards.
    pub service_id: String,
}

/// The state `record_success` moves `b` to.
pub open spec fn breaker_success_next(b: CircuitBreaker) -> CircuitBreaker {
    match b.state {
        CircuitBreakerState::Closed => CircuitBreaker { failure_count: 0, ..b },
        CircuitBreakerState::HalfOpen => CircuitBreaker {
            state: CircuitBreakerState::Closed,
            failure_count: 0,
            ..b
        },
        CircuitBreakerState::Open => b,
    }
}

/// The state `record_failure` moves `b` to at time `now`.
pub open spec fn breaker_failure_next(b: CircuitBreaker, now: u64) -> CircuitBreaker {
    match b.state {
        CircuitBreakerState::Closed => {
            let bumped: u64 = if b.failure_count == u64::MAX {
                u64::MAX
            } else {
                (b.failure_count + 1) as u64
            };
            if bumped >= b.failure_threshold {
                CircuitBreaker {
                    state: CircuitBreakerState::Open,
                    failure_count: bumped,
                    last_failure_time: now,
                    ..b
                }
            } else {
                CircuitBreaker { failure_count: bumped, ..b }
            }
        },
        CircuitBreakerState::HalfOpen => CircuitBreaker {
            state: CircuitBreakerState::Open,
            last_failure_time: now,
            ..b
        },
        CircuitBreakerState::Open => CircuitBreaker { last_failure_time: now, ..b },
    }
}

/// Whether an admission check at time `now` admits the call.
pub open spec fn breaker_check_allows(b: CircuitBreaker, now: u64) -> bool {
    match b.state {
        CircuitBreakerState::Closed => true,
        CircuitBreakerState::HalfOpen => true,
        CircuitBreakerState::Open => now >= b.last_failure_time && now - b.last_failure_time
            >= b.reset_timeout,
    }
}

/// The state an admission check at time `now` leaves the breaker in.
pub open spec fn breaker_check_next(b: CircuitBreaker, now: u64) -> CircuitBreaker {
    if b.state == CircuitBreakerState::Open && breaker_check_allows(b, now) {
        CircuitBreaker { state: CircuitBreakerState::HalfOpen, ..b }
    } else {
        b
    }
}

impl CircuitBreaker {
    /// Well-formedness: a threshold of zero would open the breaker
    /// without any failure having happened.
    pub open spec fn wf(self) -> bool {
        self.failure_threshold >= 1
    }

    /// Creates a breaker in `Closed` with no recorded failures.
    pub fn new(service_id: &str, failure_threshold: u64, reset_timeout_secs: u64) -> (r: Self)
        requires
            failure_threshold >= 1,
        ensures
            r.wf(),
            r.state == CircuitBreakerState::Closed,
            r.failure_count == 0,
            r.failure_threshold == failure_threshold,
            r.reset_timeout == reset_timeout_secs,
            r.last_failure_time == 0,
            r.service_id@ == service_id@,
    {
        CircuitBreaker {
            state: CircuitBreakerState::Closed,
            failure_count: 0,
            failure_threshold,
            reset_timeout: reset_timeout_secs,
            last_failure_time: 0,
            service_id: service_id.to_owned(),
        }
    }

    /// The current state.
    pub fn state(&self) -> (r: CircuitBreakerState)
        ensures
            r == self.state,
    {
        self.state
    }

    /// Records a successful call: in `Closed` the failure count resets;
    /// in `HalfOpen` the probe succeeded and the breaker closes; in
    /// `Open` nothing changes (no call should have been allowed).
    pub fn record_success(&mut self)
        ensures
            *final(self) == breaker_success_next(*old(self)),
    {
        match self.state {
            CircuitBreakerState::Closed => {
                self.failure_count = 0;
            }
            CircuitBreakerState::HalfOpen => {
                self.state = CircuitBreakerState::Closed;
                self.failure_count = 0;
            }
            CircuitBreakerState::Open => {}
        }
    }

    /// Records a failed call at time `now`.  In `Closed` the counter
    /// grows by one (saturating) and the breaker opens exactly when the
    /// counter reaches the threshold; in `HalfOpen` the probe failed and
    /// the breaker reopens; in `Open` only the failure time advances.
    pub fn record_failure(&mut self, now: u64)
        ensures
            *final(self) == breaker_failure_next(*old(self), now),
    {
        match self.state {
            CircuitBreakerState::Closed => {
                if self.failure_count < u64::MAX {
                    self.failure_count = self.failure_count + 1;
                }
                if self.failure_count >= self.failure_threshold {
                    self.state = CircuitBreakerState::Open;
                    self.last_failure_time = now;
                }
            }
            CircuitBreakerState::HalfOpen => {
                self.state = CircuitBreakerState::Open;
                self.last_failure_time = now;
            }
            CircuitBreakerState::Open => {
                self.last_failure_time = now;
            }
        }
    }

    /// Admission check at time `now`.  `Closed` and `HalfOpen` always
    /// admit.  `Open` admits exactly when the reset timeout has elapsed
    /// since the last failure, and that admission is the transition to
    /// `HalfOpen`: it happens on this call, never in the background.
    pub fn check(&mut self, now: u64) -> (allowed: bool)
        ensures
            allowed == breaker_check_allows(*old(self), now),
            *final(self) == breaker_check_next(*old(self), now),
    {
        match self.state {
            CircuitBreakerState::Open => {
                if now >= self.last_failure_time && now - self.last_failure_time
                    >= self.reset_timeout {
                    self.state = CircuitBreakerState::HalfOpen;
                    true
                } else {
                    false
                }
            }
            CircuitBreakerState::HalfOpen => true,
            CircuitBreakerState::Closed => true,
        }
    }
}

/// While `Closed`, a failure only ever increases the counter, a success
/// resets it to zero, and the breaker opens exactly when a failure
/// brings the counter to the threshold.
pub proof fn lemma_closed_failure_monotonic(b: CircuitBreaker, now: u64)
    requires
        b.wf(),
        b.state == CircuitBreakerState::Closed,
    ensures
        breaker_failure_next(b, now).failure_count >= b.failure_count,
        breaker_failure_next(b, now).state == CircuitBreakerState::Open
            <==> breaker_failure_next(b, now).failure_count >= b.failure_threshold,
        breaker_success_next(b).failure_count == 0,
        breaker_success_next(b).state == CircuitBreakerState::Closed,
{
}

/// A breaker in `Open` admits a call at time `now` (with `now` at or
/// after the last failure) exactly when `now - last_failure_time >=
/// reset_timeout`, and the admitted call itself is the transition to
/// `HalfOpen`; a denied call changes nothing.
pub proof fn lemma_open_resets_exactly_on_timeout(b: CircuitBreaker, now: u64)
    requires
        b.wf(),
        b.state == CircuitBreakerState::Open,
        now >= b.last_failure_time,
    ensures
        breaker_check_allows(b, now) <==> now - b.last_failure_time >= b.reset_timeout,
        breaker_check_allows(b, now) ==> breaker_check_next(b, now).state
            == CircuitBreakerState::HalfOpen,
        !breaker_check_allows(b, now) ==> breaker_check_next(b, now) == b,
{
}

/// Classification of an upstream outcome, as the proxy reports it to the
/// breaker: transport errors and 5xx statuses count as failures; every
/// other status, 4xx included, counts as success.
pub open spec fn spec_is_failure_status(status: u16) -> bool {
    500 <= status < 600
}

/// Whether an upstream HTTP status counts as a failure for the breaker.
pub fn is_failure_status(status: u16) -> (r: bool)
    ensures
        r == spec_is_failure_status(status),
{
    500 <= status && status < 600
}

/// The table of breakers, keyed by service id.  Breakers are created
/// lazily on first reference with the global parameters.
pub struct CircuitBreakerMiddleware {
    /// The breakers, one per service id, ids unique.
    pub breakers: Vec<CircuitBreaker>,
    /// Failure threshold handed to newly created breakers.
    pub failure_threshold: u64,
    /// Reset timeout (seconds) handed to newly created breakers.
    pub half_open_timeout_secs: u64,
}

impl CircuitBreakerMiddleware {
    /// Well-formedness: parameters valid, every breaker well-formed, and
    /// no two breakers share a service id.
    pub open spec fn wf(self) -> bool {
        &&& self.failure_threshold >= 1
        &&& forall|i: int|
            0 <= i < self.breakers@.len() ==> (#[trigger] self.breakers@[i]).wf()
        &&& forall|i: int, j: int|
            0 <= i < j < self.breakers@.len() ==> self.breakers@[i].service_id@
                != self.breakers@[j].service_id@
    }

    /// An empty table with the given global breaker parameters.
    pub fn new(failure_threshold: u64, half_open_timeout_secs: u64) -> (r: Self)
        requires
            failure_threshold >= 1,
        ensures
            r.wf(),
            r.breakers@.len() == 0,
            r.failure_threshold == failure_threshold,
            r.half_open_timeout_secs == half_open_timeout_secs,
    {
        CircuitBreakerMiddleware {
            breakers: Vec::new(),
            failure_threshold,
            half_open_timeout_secs,
        }
    }

    /// The index of the breaker for `service_id`, if present.
    pub open spec fn spec_index_of(self, service_id: Seq<char>) -> Option<int> {
        if exists|i: int|
            0 <= i < self.breakers@.len() && self.breakers@[i].service_id@ == service_id {
            Some(
                choose|i: int|
                    0 <= i < self.breakers@.len() && self.breakers@[i].service_id@ == service_id,
            )
        } else {
            None
        }
    }

    fn index_of(&self, service_id: &str) -> (r: Option<usize>)
        ensures
            match r {
                Some(i) => 0 <= i < self.breakers@.len() && self.breakers@[i as int].service_id@
                    == service_id@,
                None => forall|i: int|
                    0 <= i < self.breakers@.len() ==> (#[trigger] self.breakers@[i]).service_id@
                        != service_id@,
            },
    {
        let mut i: usize = 0;
        while i < self.breakers.len()
            invariant
                0 <= i <= self.breakers@.len(),
                forall|j: int|
                    0 <= j < i ==> (#[trigger] self.breakers@[j]).service_id@ != service_id@,
            decreases self.breakers@.len() - i,
        {
            if str_eq(self.breakers[i].service_id.as_str(), service_id) {
                return Some(i);
            }
            i += 1;
        }
        None
    }

    /// Finds the breaker for `service_id`, creating it with the table's
    /// global parameters when absent, and returns its index.
    pub fn get_or_create_breaker(&mut self, service_id: &str) -> (idx: usize)
        requires
            old(self).wf(),
        ensures
            final(self).wf(),
            final(self).failure_threshold == old(self).failure_threshold,
            final(self).half_open_timeout_secs == old(self).half_open_timeout_secs,
            idx < final(self).breakers@.len(),
            final(self).breakers@[idx as int].service_id@ == service_id@,
            match old(self).spec_index_of(service_id@) {
                Some(i) => idx == i && *final(self) == *old(self),
                None => {
                    &&& final(self).breakers@ == old(self).breakers@.push(
                        final(self).breakers@[idx as int],
                    )
                    &&& idx == old(self).breakers@.len()
                    &&& final(self).breakers@[idx as int].state == CircuitBreakerState::Closed
                    &&& final(self).breakers@[idx as int].failure_count == 0
                    &&& final(self).breakers@[idx as int].failure_threshold == old(
                        self,
                    ).failure_threshold
                    &&& final(self).breakers@[idx as int].reset_timeout == old(
                        self,
                    ).half_open_timeout_secs
                },
            },
    {
        match self.index_of(service_id) {
            Some(i) => {
                proof {
                    let s = *self;
                    assert(s.spec_index_of(service_id@) is Some);
                    let w = s.spec_index_of(service_id@)->0;
                    assert(s.breakers@[w].service_id@ == service_id@);
                    if w != i as int {
                        assert(false);
                    }
                }
                i
            }
            None => {
                let idx = self.breakers.len();
                let b = CircuitBreaker::new(
                    service_id,
                    self.failure_threshold,
                    self.half_open_timeout_secs,
                );
                self.breakers.push(b);
                proof {
                    assert(old(self).spec_index_of(service_id@) is None);
                    assert forall|i: int, j: int|
                        0 <= i < j < self.breakers@.len() implies self.breakers@[i].service_id@
                        != self.breakers@[j].service_id@ by {
                        if j < old(self).breakers@.len() {
                        } else {
                            assert(self.breakers@[j].service_id@ == service_id@);
                        }
                    }
                }
                idx
            }
        }
    }

    /// Admission check for `service_id` at time `now`: finds or creates
    /// the breaker and runs its check; a freshly created breaker is
    /// `Closed`, so the call is admitted.
    pub fn check_service(&mut self, service_id: &str, now: u64) -> (allowed: bool)
        requires
            old(self).wf(),
        ensures
            final(self).wf(),
            final(self).failure_threshold == old(self).failure_threshold,
            final(self).half_open_timeout_secs == old(self).half_open_timeout_secs,
            allowed == match old(self).spec_index_of(service_id@) {
                Some(i) => breaker_check_allows(old(self).breakers@[i], now),
                None => true,
            },
            match old(self).spec_index_of(service_id@) {
                Some(i) => final(self).breakers@ == old(self).breakers@.update(
                    i,
                    breaker_check_next(old(self).breakers@[i], now),
                ),
                None => {
                    &&& final(self).breakers@.len() == old(self).breakers@.len() + 1
                    &&& final(self).breakers@.subrange(0, old(self).breakers@.len() as int)
                        == old(self).breakers@
                    &&& final(self).breakers@.last().service_id@ == service_id@
                    &&& final(self).breakers@.last().state == CircuitBreakerState::Closed
                    &&& final(self).breakers@.last().failure_count == 0
                },
            },
    {
        let idx = self.get_or_create_breaker(service_id);
        let ghost pre = *self;
        let b = &mut self.breakers[idx];
        let allowed = b.check(now);
        proof {
            assert(self.breakers@ =~= pre.breakers@.update(
                idx as int,
                breaker_check_next(pre.breakers@[idx as int], now),
            ));
            assert forall|i: int, j: int|
                0 <= i < j < self.breakers@.len() implies self.breakers@[i].service_id@
                != self.breakers@[j].service_id@ by {
                assert(pre.breakers@[i].service_id@ != pre.breakers@[j].service_id@);
            }
        }
        allowed
    }

    /// Reports a success for `service_id`'s breaker, if one exists.
    pub fn record_success(&mut self, service_id: &str)
        requires
            old(self).wf(),
        ensures
            final(self).wf(),
            match old(self).spec_index_of(service_id@) {
                Some(i) => final(self).breakers@ == old(self).breakers@.update(
                    i,
                    breaker_success_next(old(self).breakers@[i]),
                ),
                None => *final(self) == *old(self),
            },
    {
        match self.index_of(service_id) {
            Some(i) => {
                let ghost pre = *self;
                proof {
                    let w = pre.spec_index_of(service_id@)->0;
                    if w != i as int {
                        assert(false);
                    }
                }
                let b = &mut self.breakers[i];
                b.record_success();
                proof {
                    assert(self.breakers@ =~= pre.breakers@.update(
                        i as int,
                        breaker_success_next(pre.breakers@[i as int]),
                    ));
                    assert forall|p: int, q: int|
                        0 <= p < q < self.breakers@.len() implies self.breakers@[p].service_id@
                        != self.breakers@[q].service_id@ by {
                        assert(pre.breakers@[p].service_id@ != pre.breakers@[q].service_id@);
                    }
                }
            }
            None => {
                proof {
                    assert(old(self).spec_index_of(service_id@) is None);
                }
            }
        }
    }

    /// Reports a failure for `service_id`'s breaker, if one exists.
    pub fn record_failure(&mut self, service_id: &str, now: u64)
        requires
            old(self).wf(),
        ensures
            final(self).wf(),
            match old(self).spec_index_of(service_id@) {
                Some(i) => final(self).breakers@ == old(self).breakers@.update(
                    i,
                    breaker_failure_next(old(self).breakers@[i], now),
                ),
                None => *final(self) == *old(self),
            },
    {
        match self.index_of(service_id) {
            Some(i) => {
                let ghost pre = *self;
                proof {
                    let w = pre.spec_index_of(service_id@)->0;
                    if w != i as int {
                        assert(false);
                    }
                }
                let b = &mut self.breakers[i];
                b.record_failure(now);
                proof {
                    assert(self.breakers@ =~= pre.breakers@.update(
                        i as int,
                        breaker_failure_next(pre.breakers@[i as int], now),
                    ));
                    assert forall|p: int, q: int|
                        0 <= p < q < self.breakers@.len() implies self.breakers@[p].service_id@
                        != self.breakers@[q].service_id@ by {
                        assert(pre.breakers@[p].service_id@ != pre.breakers@[q].service_id@);
                    }
                }
            }
            None => {
                proof {
                    assert(old(self).spec_index_of(service_id@) is None);
                }
            }
        }
    }
}

/// The service id a request maps to for breaker purposes: an explicit
/// `X-Target-Service` header value wins; otherwise the id follows the
/// path prefix; unknown paths share one breaker.
pub fn extract_service_id(target_header: Option<&String>, path: &str) -> (r: String)
    ensures
        r@ == spec_extract_service_id(
            match target_header {
                Some(h) => Some(h@),
                None => None,
            },
            path@,
        ),
{
    proof {
        reveal_strlit("/api/auth");
        reveal_strlit("/api/users");
        reveal_strlit("/api/friends");
        reveal_strlit("/api/groups");
        reveal_strlit("auth-service");
        reveal_strlit("user-service");
        reveal_strlit("friend-service");
        reveal_strlit("group-service");
        reveal_strlit("unknown-service");
    }
    match target_header {
        Some(h) => h.clone(),
        None => {
            if str_starts_with(path, "/api/auth") {
                "auth-service".to_owned()
            } else if str_starts_with(path, "/api/users") {
                "user-service".to_owned()
            } else if str_starts_with(path, "/api/friends") {
                "friend-service".to_owned()
            } else if str_starts_with(path, "/api/groups") {
                "group-service".to_owned()
            } else {
                "unknown-service".to_owned()
            }
        }
    }
}

/// The breaker service id for a request, over character sequences.
pub open spec fn spec_extract_service_id(
    target_header: Option<Seq<char>>,
    path: Seq<char>,
) -> Seq<char> {
    match target_header {
        Some(h) => h,
        None => {
            if is_prefix_of("/api/auth"@, path) {
                "auth-service"@
            } else if is_prefix_of("/api/users"@, path) {
                "user-service"@
            } else if is_prefix_of("/api/friends"@, path) {
                "friend-service"@
            } else if is_prefix_of("/api/groups"@, path) {
                "group-service"@
            } else {
                "unknown-service"@
            }
        },
    }
}

/// The identity-style layer that installs the breaker table around a
/// service stack.
#[derive(Clone)]
pub struct CircuitBreakerLayer;

impl CircuitBreakerLayer {
    /// Creates the layer.
    pub fn new() -> (r: Self) {
        CircuitBreakerLayer
    }
}

} // verus!
