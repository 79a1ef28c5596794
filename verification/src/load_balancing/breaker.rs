//! A circuit breaker: after enough consecutive failures it stops calls to a server, lets a
//! trial through once a timeout has passed, and closes again after enough successes.
use vstd::prelude::*;

verus! {

/// The state of a circuit breaker.
#[derive(Debug, Clone, Copy, PartialEq, Eq, Structural)]
pub enum CircuitState {
    /// Calls go through.
    Closed,
    /// Calls are refused.
    Open,
    /// Trial calls go through; enough successes close the breaker.
    HalfOpen,
}

/// Nanoseconds in a second.
pub const NANOS_PER_SEC: u128 = 1_000_000_000;

/// A circuit breaker. Times are readings of a monotonic clock, in nanoseconds.
#[derive(Debug, Clone, Copy)]
pub struct SimpleCircuitBreaker {
    pub state: CircuitState,
    pub failure_count: usize,
    pub success_count: usize,
    pub failure_threshold: usize,
    pub success_threshold: usize,
    pub last_failure_nanos: Option<u64>,
    pub timeout_secs: u64,
}

/// A closed breaker with no failures or successes counted and no failure time.
pub open spec fn closed_breaker(failure_threshold: usize, success_threshold: usize, timeout_secs: u64) -> SimpleCircuitBreaker {
    SimpleCircuitBreaker {
        state: CircuitState::Closed,
        failure_count: 0,
        success_count: 0,
        failure_threshold,
        success_threshold,
        last_failure_nanos: None,
        timeout_secs,
    }
}

/// Time from `since` to `now`, or zero when `now` comes first.
pub open spec fn elapsed_nanos(since: u64, now: u64) -> int {
    if now >= since {
        now - since
    } else {
        0
    }
}

impl SimpleCircuitBreaker {
    /// The breaker after a successful call. Half open, the success count advances
    /// (wrapping) and, on reaching the success threshold, the breaker closes with both
    /// counts cleared; otherwise the failure count is cleared.
    pub open spec fn succeeded(self) -> SimpleCircuitBreaker {
        match self.state {
            CircuitState::HalfOpen => {
                let count = self.success_count.wrapping_add(1);
                if count >= self.success_threshold {
                    SimpleCircuitBreaker {
                        state: CircuitState::Closed,
                        failure_count: 0,
                        success_count: 0,
                        ..self
                    }
                } else {
                    SimpleCircuitBreaker { success_count: count, ..self }
                }
            },
            _ => SimpleCircuitBreaker { failure_count: 0, ..self },
        }
    }

    /// The breaker after a failed call at `now`: the failure count advances (wrapping) and,
    /// on reaching the failure threshold, the breaker opens and remembers `now`.
    pub open spec fn failed(self, now: u64) -> SimpleCircuitBreaker {
        let count = self.failure_count.wrapping_add(1);
        if count >= self.failure_threshold {
            SimpleCircuitBreaker {
                state: CircuitState::Open,
                failure_count: count,
                last_failure_nanos: Some(now),
                ..self
            }
        } else {
            SimpleCircuitBreaker { failure_count: count, ..self }
        }
    }

    /// At least the timeout has passed since the failure that opened the breaker.
    pub open spec fn timed_out(self, now: u64) -> bool {
        self.last_failure_nanos matches Some(t) && elapsed_nanos(t, now) >= self.timeout_secs * NANOS_PER_SEC
    }

    /// The breaker after a reset attempt at `now`: an open breaker whose timeout has passed
    /// goes half open with its success count cleared; any other stays as it is.
    pub open spec fn reset_if_due(self, now: u64) -> SimpleCircuitBreaker {
        if self.state == CircuitState::Open && self.timed_out(now) {
            SimpleCircuitBreaker { state: CircuitState::HalfOpen, success_count: 0, ..self }
        } else {
            self
        }
    }

    /// The breaker after `n` failed calls at `now`.
    pub open spec fn failed_times(self, n: nat, now: u64) -> SimpleCircuitBreaker
        decreases n,
    {
        if n == 0 {
            self
        } else {
            self.failed_times((n - 1) as nat, now).failed(now)
        }
    }

    /// The breaker after `n` successful calls.
    pub open spec fn succeeded_times(self, n: nat) -> SimpleCircuitBreaker
        decreases n,
    {
        if n == 0 {
            self
        } else {
            self.succeeded_times((n - 1) as nat).succeeded()
        }
    }

    /// A closed breaker with no failures counted.
    pub fn new(failure_threshold: usize, success_threshold: usize, timeout_secs: u64) -> (r: SimpleCircuitBreaker)
        ensures
            r == closed_breaker(failure_threshold, success_threshold, timeout_secs),
    {
        SimpleCircuitBreaker {
            state: CircuitState::Closed,
            failure_count: 0,
            success_count: 0,
            failure_threshold,
            success_threshold,
            last_failure_nanos: None,
            timeout_secs,
        }
    }

    /// Whether calls are refused.
    pub fn is_open(&self) -> (r: bool)
        ensures
            r == (self.state == CircuitState::Open),
    {
        self.state == CircuitState::Open
    }

    /// Records a successful call.
    pub fn record_success(&mut self)
        ensures
            *final(self) == old(self).succeeded(),
    {
        match self.state {
            CircuitState::HalfOpen => {
                let count = self.success_count.wrapping_add(1);
                self.success_count = count;
                if count >= self.success_threshold {
                    self.state = CircuitState::Closed;
                    self.failure_count = 0;
                    self.success_count = 0;
                }
            },
            _ => {
                self.failure_count = 0;
            },
        }
    }

    /// Records a failed call at `now_nanos`.
    pub fn record_failure(&mut self, now_nanos: u64)
        ensures
            *final(self) == old(self).failed(now_nanos),
    {
        let count = self.failure_count.wrapping_add(1);
        self.failure_count = count;
        if count >= self.failure_threshold {
            self.state = CircuitState::Open;
            self.last_failure_nanos = Some(now_nanos);
        }
    }

    /// Lets an open breaker go half open once its timeout has passed.
    pub fn try_reset(&mut self, now_nanos: u64)
        ensures
            *final(self) == old(self).reset_if_due(now_nanos),
    {
        if self.state == CircuitState::Open {
            match self.last_failure_nanos {
                Some(t) => {
                    let elapsed: u64 = if now_nanos >= t {
                        now_nanos - t
                    } else {
                        0
                    };
                    if (elapsed as u128) >= (self.timeout_secs as u128) * NANOS_PER_SEC {
                        self.state = CircuitState::HalfOpen;
                        self.success_count = 0;
                    }
                },
                None => {},
            }
        }
    }
}

/// A closed breaker with no failures counted opens on exactly the failure that brings the
/// count to the threshold: fewer consecutive failures leave it closed.
pub proof fn lemma_consecutive_failures_open(b: SimpleCircuitBreaker, n: nat, now: u64)
    requires
        b.state == CircuitState::Closed,
        b.failure_count == 0,
        1 <= n <= b.failure_threshold,
    ensures
        b.failed_times(n, now).failure_count == n,
        b.failed_times(n, now).failure_threshold == b.failure_threshold,
        n == b.failure_threshold ==> b.failed_times(n, now).state == CircuitState::Open,
        n < b.failure_threshold ==> b.failed_times(n, now).state == CircuitState::Closed,
    decreases n,
{
    assert(b.failed_times(0, now) == b);
    if n > 1 {
        lemma_consecutive_failures_open(b, (n - 1) as nat, now);
    }
}

/// Outside the half-open state, a success clears the failure count, so only consecutive
/// failures open the breaker.
pub proof fn lemma_success_clears_failures(b: SimpleCircuitBreaker)
    requires
        b.state != CircuitState::HalfOpen,
    ensures
        b.succeeded().failure_count == 0,
        b.succeeded().state == b.state,
{
}

/// An open breaker stays open until its timeout has passed, and goes half open once it has.
pub proof fn lemma_open_until_timeout(b: SimpleCircuitBreaker, now: u64)
    requires
        b.state == CircuitState::Open,
    ensures
        !b.timed_out(now) ==> b.reset_if_due(now) == b,
        b.timed_out(now) ==> b.reset_if_due(now).state == CircuitState::HalfOpen && b.reset_if_due(now).success_count == 0,
{
}

/// A half-open breaker with no successes counted closes on exactly the success that brings
/// the count to the threshold, with both counts cleared.
pub proof fn lemma_half_open_recovers(b: SimpleCircuitBreaker, n: nat)
    requires
        b.state == CircuitState::HalfOpen,
        b.success_count == 0,
        1 <= n <= b.success_threshold,
    ensures
        b.succeeded_times(n).success_threshold == b.success_threshold,
        n < b.success_threshold ==> b.succeeded_times(n).state == CircuitState::HalfOpen
            && b.succeeded_times(n).success_count == n,
        n == b.success_threshold ==> b.succeeded_times(n).state == CircuitState::Closed
            && b.succeeded_times(n).failure_count == 0 && b.succeeded_times(n).success_count == 0,
    decreases n,
{
    assert(b.succeeded_times(0) == b);
    if n > 1 {
        lemma_half_open_recovers(b, (n - 1) as nat);
    }
}

/// A half-open breaker whose failure count already stands at the threshold (as it does
/// after opening) opens again on the next failure.
pub proof fn lemma_half_open_failure_reopens(b: SimpleCircuitBreaker, now: u64)
    requires
        b.state == CircuitState::HalfOpen,
        b.failure_threshold <= b.failure_count < usize::MAX,
    ensures
        b.failed(now).state == CircuitState::Open,
        b.failed(now).last_failure_nanos == Some(now),
{
}

} // verus!
