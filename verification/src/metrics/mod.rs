//! Request and connection counts kept beside the exported metrics, for direct reading.
use vstd::prelude::*;

verus! {

/// The running totals read directly: requests recorded and connections open. Both wrap
/// around at the ends of their ranges.
#[derive(Debug, Clone, Copy)]
pub struct CachedCounts {
    pub total_requests: u64,
    pub active_connections: i64,
}

impl CachedCounts {
    /// No requests and no connections.
    pub fn new() -> (r: CachedCounts)
        ensures
            r.total_requests == 0,
            r.active_connections == 0,
    {
        CachedCounts { total_requests: 0, active_connections: 0 }
    }

    /// One more request.
    pub fn record_request(&mut self)
        ensures
            final(self).total_requests == old(self).total_requests.wrapping_add(1),
            final(self).active_connections == old(self).active_connections,
    {
        self.total_requests = self.total_requests.wrapping_add(1);
    }

    /// One more open connection.
    pub fn inc_active_connections(&mut self)
        ensures
            final(self).active_connections == old(self).active_connections.wrapping_add(1),
            final(self).total_requests == old(self).total_requests,
    {
        self.active_connections = self.active_connections.wrapping_add(1);
    }

    /// One fewer open connection.
    pub fn dec_active_connections(&mut self)
        ensures
            final(self).active_connections == old(self).active_connections.wrapping_sub(1),
            final(self).total_requests == old(self).total_requests,
    {
        self.active_connections = self.active_connections.wrapping_sub(1);
    }
}

/// Opening and then closing a connection leaves the count as it was.
pub proof fn lemma_open_close_restores(n: i64)
    ensures
        n.wrapping_add(1).wrapping_sub(1) == n,
{
}

} // verus!
