//! The worker pool's settings and each worker's retirement rule.
use vstd::prelude::*;

verus! {

/// How many workers run and how many requests each serves before it is replaced.
#[derive(Debug, Clone, Copy)]
pub struct WorkerPoolConfig {
    pub pool_size: usize,
    /// 0 means workers are never replaced.
    pub max_requests: usize,
}

/// A worker's count of requests served, and when it retires.
#[derive(Debug, Clone, Copy)]
pub struct WorkerLifecycle {
    pub max_requests: usize,
    pub requests_handled: usize,
}

impl WorkerLifecycle {
    /// Whether a worker that has served `handled` requests retires.
    pub open spec fn retires(max_requests: usize, handled: int) -> bool {
        max_requests > 0 && handled >= max_requests
    }

    /// A worker that has served nothing yet.
    pub fn new(max_requests: usize) -> (r: WorkerLifecycle)
        ensures
            r.max_requests == max_requests,
            r.requests_handled == 0,
    {
        WorkerLifecycle { max_requests, requests_handled: 0 }
    }

    /// Counts a request served; tells whether the worker must now retire.
    pub fn request_served(&mut self) -> (retire: bool)
        requires
            old(self).requests_handled < usize::MAX,
        ensures
            final(self).max_requests == old(self).max_requests,
            final(self).requests_handled == old(self).requests_handled + 1,
            retire == WorkerLifecycle::retires(old(self).max_requests, old(self).requests_handled + 1),
    {
        self.requests_handled = self.requests_handled + 1;
        self.max_requests > 0 && self.requests_handled >= self.max_requests
    }
}

/// A worker with a limit retires on exactly the request that reaches it.
pub proof fn lemma_retires_at_limit(max_requests: usize, handled: int)
    requires
        max_requests > 0,
        0 <= handled,
    ensures
        !WorkerLifecycle::retires(max_requests, handled) && WorkerLifecycle::retires(max_requests, handled + 1)
            <==> handled + 1 == max_requests,
{
}

/// A worker without a limit never retires.
pub proof fn lemma_unlimited_never_retires(handled: int)
    ensures
        !WorkerLifecycle::retires(0, handled),
{
}

} // verus!
