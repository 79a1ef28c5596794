//! Spreading requests over upstream servers by a chosen algorithm, skipping servers that are
//! disabled or unhealthy, with a circuit breaker and health-check bookkeeping per server.
pub mod breaker;

use vstd::prelude::*;
use crate::config::{CircuitBreakerConfig, UpstreamConfig};
use crate::deployment::traffic_splitter::{weight_sum, weighted_choice, weighted_pick};
use crate::error::{framed_message, ParseError};
use self::breaker::SimpleCircuitBreaker;

verus! {

/// How the next upstream is chosen among the available ones.
#[derive(Debug, Clone, Copy, PartialEq, Eq, Structural)]
pub enum LoadBalancingAlgorithm {
    RoundRobin,
    WeightedRoundRobin,
    LeastConnections,
    Random,
    /// By a hash of the client's address, so one client keeps reaching one server while
    /// the available servers stay the same.
    IpHash,
}

/// The algorithm a name selects; unknown names select round robin.
pub open spec fn algorithm_named(name: Seq<char>) -> LoadBalancingAlgorithm {
    if name == "weighted_round_robin"@ {
        LoadBalancingAlgorithm::WeightedRoundRobin
    } else if name == "least_connections"@ {
        LoadBalancingAlgorithm::LeastConnections
    } else if name == "random"@ {
        LoadBalancingAlgorithm::Random
    } else if name == "ip_hash"@ {
        LoadBalancingAlgorithm::IpHash
    } else {
        LoadBalancingAlgorithm::RoundRobin
    }
}

/// The algorithm called `name`: `round_robin`, `weighted_round_robin`,
/// `least_connections`, `random` or `ip_hash`; any other name selects round robin.
pub fn parse_algorithm(name: &str) -> (r: LoadBalancingAlgorithm)
    ensures
        r == algorithm_named(name@),
{
    let n = name.to_string();
    if n == "weighted_round_robin".to_string() {
        LoadBalancingAlgorithm::WeightedRoundRobin
    } else if n == "least_connections".to_string() {
        LoadBalancingAlgorithm::LeastConnections
    } else if n == "random".to_string() {
        LoadBalancingAlgorithm::Random
    } else if n == "ip_hash".to_string() {
        LoadBalancingAlgorithm::IpHash
    } else {
        LoadBalancingAlgorithm::RoundRobin
    }
}

/// An upstream server with its health, circuit breaker and counters. The counters wrap
/// around at `usize::MAX`.
pub struct UpstreamServer {
    pub name: String,
    pub url: String,
    pub weight: u32,
    pub enabled: bool,
    pub healthy: bool,
    pub circuit_breaker: SimpleCircuitBreaker,
    pub active_connections: usize,
    pub total_requests: usize,
    pub failed_requests: usize,
    pub consecutive_successes: usize,
    pub consecutive_failures: usize,
}

/// A summary of one upstream server.
#[derive(Debug, Clone)]
pub struct UpstreamStatus {
    pub name: String,
    pub url: String,
    pub enabled: bool,
    pub healthy: bool,
    pub active_connections: usize,
    pub total_requests: usize,
    pub failed_requests: usize,
}

impl UpstreamServer {
    /// The server after a health check: a success advances the run of successes (wrapping),
    /// ends the run of failures, and marks the server healthy once the run reaches
    /// `healthy_threshold`; a failure does the converse with `unhealthy_threshold`.
    pub open spec fn checked(self, success: bool, healthy_threshold: u32, unhealthy_threshold: u32) -> UpstreamServer {
        if success {
            let run = self.consecutive_successes.wrapping_add(1);
            UpstreamServer {
                consecutive_successes: run,
                consecutive_failures: 0,
                healthy: if run >= healthy_threshold {
                    true
                } else {
                    self.healthy
                },
                ..self
            }
        } else {
            let run = self.consecutive_failures.wrapping_add(1);
            UpstreamServer {
                consecutive_failures: run,
                consecutive_successes: 0,
                healthy: if run >= unhealthy_threshold {
                    false
                } else {
                    self.healthy
                },
                ..self
            }
        }
    }

    /// The server after a request is counted: the request count advances, and the failure
    /// count on a failure.
    pub open spec fn counted(self, success: bool) -> UpstreamServer {
        UpstreamServer {
            total_requests: self.total_requests.wrapping_add(1),
            failed_requests: if success {
                self.failed_requests
            } else {
                self.failed_requests.wrapping_add(1)
            },
            ..self
        }
    }

    /// A healthy server with a closed breaker and every counter at zero. It never fails.
    pub fn new(name: String, url: String, weight: u32, enabled: bool, cb_config: &CircuitBreakerConfig) -> (r: Result<
        UpstreamServer,
        ParseError,
    >)
        ensures
            r matches Ok(u) && {
                &&& u.name == name
                &&& u.url == url
                &&& u.weight == weight
                &&& u.enabled == enabled
                &&& u.healthy
                &&& u.circuit_breaker == breaker::closed_breaker(
                    cb_config.failure_threshold,
                    cb_config.success_threshold,
                    cb_config.timeout_seconds,
                )
                &&& u.active_connections == 0
                &&& u.total_requests == 0
                &&& u.failed_requests == 0
                &&& u.consecutive_successes == 0
                &&& u.consecutive_failures == 0
            },
    {
        let circuit_breaker = SimpleCircuitBreaker::new(
            cb_config.failure_threshold,
            cb_config.success_threshold,
            cb_config.timeout_seconds,
        );
        Ok(UpstreamServer {
            name,
            url,
            weight,
            enabled,
            healthy: true,
            circuit_breaker,
            active_connections: 0,
            total_requests: 0,
            failed_requests: 0,
            consecutive_successes: 0,
            consecutive_failures: 0,
        })
    }

    /// A copy of the server.
    pub fn clone_upstream(&self) -> (r: UpstreamServer)
        ensures
            r == *self,
    {
        UpstreamServer {
            name: self.name.clone(),
            url: self.url.clone(),
            weight: self.weight,
            enabled: self.enabled,
            healthy: self.healthy,
            circuit_breaker: self.circuit_breaker,
            active_connections: self.active_connections,
            total_requests: self.total_requests,
            failed_requests: self.failed_requests,
            consecutive_successes: self.consecutive_successes,
            consecutive_failures: self.consecutive_failures,
        }
    }

    /// Whether the server is marked healthy.
    pub fn is_healthy(&self) -> (r: bool)
        ensures
            r == self.healthy,
    {
        self.healthy
    }

    /// Marks the server healthy or not.
    pub fn set_healthy(&mut self, healthy: bool)
        ensures
            *final(self) == (UpstreamServer { healthy, ..*old(self) }),
    {
        self.healthy = healthy;
    }

    /// One more open connection (wrapping).
    pub fn increment_connections(&mut self)
        ensures
            *final(self) == (UpstreamServer { active_connections: old(self).active_connections.wrapping_add(1), ..*old(self) }),
    {
        self.active_connections = self.active_connections.wrapping_add(1);
    }

    /// One fewer open connection (wrapping).
    pub fn decrement_connections(&mut self)
        ensures
            *final(self) == (UpstreamServer { active_connections: old(self).active_connections.wrapping_sub(1), ..*old(self) }),
    {
        self.active_connections = self.active_connections.wrapping_sub(1);
    }

    /// Counts a request.
    pub fn record_request(&mut self, success: bool)
        ensures
            *final(self) == old(self).counted(success),
    {
        self.total_requests = self.total_requests.wrapping_add(1);
        if !success {
            self.failed_requests = self.failed_requests.wrapping_add(1);
        }
    }

    /// Asks the breaker, at `now_nanos`, whether a call may go through: an open breaker
    /// whose timeout has passed goes half open first. A call refused by an open breaker is
    /// counted as a failed request.
    pub fn admit_call(&mut self, now_nanos: u64) -> (r: Result<(), ParseError>)
        ensures
            ({
                let b = old(self).circuit_breaker.reset_if_due(now_nanos);
                if b.state == breaker::CircuitState::Open {
                    &&& r matches Err(e) && e.message@ == "Circuit breaker is open for upstream '"@ + old(self).name@ + "'"@
                    &&& *final(self) == (UpstreamServer { circuit_breaker: b, ..*old(self) }).counted(false)
                } else {
                    &&& r is Ok
                    &&& *final(self) == (UpstreamServer { circuit_breaker: b, ..*old(self) })
                }
            }),
    {
        self.circuit_breaker.try_reset(now_nanos);
        if self.circuit_breaker.is_open() {
            self.record_request(false);
            return Err(ParseError { message: framed_message("Circuit breaker is open for upstream '", self.name.as_str(), "'") });
        }
        Ok(())
    }

    /// Records the outcome of an admitted call at `now_nanos` with the breaker and in the
    /// request counts.
    pub fn complete_call(&mut self, success: bool, now_nanos: u64)
        ensures
            *final(self) == (UpstreamServer {
                circuit_breaker: if success {
                    old(self).circuit_breaker.succeeded()
                } else {
                    old(self).circuit_breaker.failed(now_nanos)
                },
                ..*old(self)
            }).counted(success),
    {
        if success {
            self.circuit_breaker.record_success();
        } else {
            self.circuit_breaker.record_failure(now_nanos);
        }
        self.record_request(success);
    }

    /// Records the outcome of a health check.
    pub fn record_health_check(&mut self, success: bool, healthy_threshold: u32, unhealthy_threshold: u32)
        ensures
            *final(self) == old(self).checked(success, healthy_threshold, unhealthy_threshold),
    {
        if success {
            self.consecutive_successes = self.consecutive_successes.wrapping_add(1);
            self.consecutive_failures = 0;
            if self.consecutive_successes >= healthy_threshold as usize {
                self.healthy = true;
            }
        } else {
            self.consecutive_failures = self.consecutive_failures.wrapping_add(1);
            self.consecutive_successes = 0;
            if self.consecutive_failures >= unhealthy_threshold as usize {
                self.healthy = false;
            }
        }
    }

    /// The server's summary.
    pub fn status(&self) -> (r: UpstreamStatus)
        ensures
            r.name@ == self.name@,
            r.url@ == self.url@,
            r.enabled == self.enabled,
            r.healthy == self.healthy,
            r.active_connections == self.active_connections,
            r.total_requests == self.total_requests,
            r.failed_requests == self.failed_requests,
    {
        UpstreamStatus {
            name: self.name.clone(),
            url: self.url.clone(),
            enabled: self.enabled,
            healthy: self.healthy,
            active_connections: self.active_connections,
            total_requests: self.total_requests,
            failed_requests: self.failed_requests,
        }
    }
}

/// The positions of the servers that are enabled and healthy, in order.
pub open spec fn available_indices(ups: Seq<UpstreamServer>) -> Seq<int>
    decreases ups.len(),
{
    if ups.len() == 0 {
        Seq::empty()
    } else {
        let a = available_indices(ups.drop_last());
        if ups.last().enabled && ups.last().healthy {
            a.push(ups.len() - 1)
        } else {
            a
        }
    }
}

/// The weights of the servers at `idx`.
pub open spec fn weights_at(ups: Seq<UpstreamServer>, idx: Seq<int>) -> Seq<u32> {
    idx.map_values(|i: int| ups[i].weight)
}

/// The open connections of the servers at `idx`.
pub open spec fn connections_at(ups: Seq<UpstreamServer>, idx: Seq<int>) -> Seq<usize> {
    idx.map_values(|i: int| ups[i].active_connections)
}

/// Position of the first smallest value.
pub open spec fn first_min_index(s: Seq<usize>) -> int
    decreases s.len(),
{
    if s.len() <= 1 {
        0
    } else {
        let m = first_min_index(s.drop_last());
        if s.last() < s[m] {
            s.len() - 1
        } else {
            m
        }
    }
}

/// Whether a choice can be made: some server is available, and for weighted round robin
/// the available weights sum to a positive `u32`.
pub open spec fn selectable(ups: Seq<UpstreamServer>, algorithm: LoadBalancingAlgorithm) -> bool {
    let avail = available_indices(ups);
    avail.len() > 0 ==> (algorithm == LoadBalancingAlgorithm::WeightedRoundRobin ==> 0 < weight_sum(
        weights_at(ups, avail),
    ) <= u32::MAX)
}

/// The hash of a client address, over its UTF-8 bytes: the running value is multiplied by
/// 31 and each byte added in turn, modulo 2^32.
pub open spec fn bytes_hash(b: Seq<u8>) -> int
    decreases b.len(),
{
    if b.len() == 0 {
        0
    } else {
        (bytes_hash(b.drop_last()) * 31 + b.last() as int) % 4294967296
    }
}

/// The hash of a client address (see `bytes_hash`).
pub open spec fn address_hash(client: Seq<char>) -> int {
    bytes_hash(vstd::utf8::encode_utf8(client))
}

/// The hash of a client address (see `address_hash`).
pub fn hash_address(client: &str) -> (r: u64)
    ensures
        r == address_hash(client@),
        r < 4294967296,
{
    let b = client.as_bytes();
    let mut h: u64 = 0;
    let mut i: usize = 0;
    while i < b.len()
        invariant
            i <= b@.len(),
            b@ == vstd::utf8::encode_utf8(client@),
            h == bytes_hash(b@.subrange(0, i as int)),
            h < 4294967296,
        decreases b@.len() - i,
    {
        assert(b@.subrange(0, i + 1).drop_last() =~= b@.subrange(0, i as int));
        h = (h * 31 + b[i] as u64) % 4294967296;
        i += 1;
    }
    assert(b@.subrange(0, b@.len() as int) =~= b@);
    h
}

/// The server chosen and the counter after the choice, or `None` when no server is
/// available. Round robin takes the available server at the counter modulo their number;
/// weighted round robin the one whose weight range holds the counter (truncated to 32
/// bits) modulo the total weight; both advance the counter (wrapping). Least connections
/// takes the first available server with the fewest open connections, random the one at
/// `random` modulo their number, and IP hash the one at the hash of the client's address
/// `client` modulo their number. Only the two counter-based algorithms move the counter.
pub open spec fn choice(
    ups: Seq<UpstreamServer>,
    algorithm: LoadBalancingAlgorithm,
    counter: usize,
    random: usize,
    client: Seq<char>,
) -> Option<(int, usize)> {
    let avail = available_indices(ups);
    if avail.len() == 0 {
        None
    } else {
        match algorithm {
            LoadBalancingAlgorithm::RoundRobin => Some(
                (avail[(counter as int) % (avail.len() as int)], counter.wrapping_add(1)),
            ),
            LoadBalancingAlgorithm::WeightedRoundRobin => {
                let ws = weights_at(ups, avail);
                let total = weight_sum(ws);
                Some((avail[weighted_choice(ws, (counter as u32) as int % total)], counter.wrapping_add(1)))
            },
            LoadBalancingAlgorithm::LeastConnections => Some(
                (avail[first_min_index(connections_at(ups, avail))], counter),
            ),
            LoadBalancingAlgorithm::Random => Some((avail[(random as int) % (avail.len() as int)], counter)),
            LoadBalancingAlgorithm::IpHash => Some((avail[address_hash(client) % (avail.len() as int)], counter)),
        }
    }
}

/// Spreads requests over upstream servers.
pub struct LoadBalancingManager {
    upstreams: Vec<UpstreamServer>,
    algorithm: LoadBalancingAlgorithm,
    round_robin_counter: usize,
}

/// Calls `rand::random::<u64>()`, a value drawn from the thread-local generator (this
/// version of `rand` draws no `usize` directly), taken as a `usize`. Nothing is claimed of
/// the value.
#[verifier::external_body]
fn random_usize() -> (r: usize) {
    rand::random::<u64>() as usize
}

impl LoadBalancingManager {
    /// The servers, in order.
    pub closed spec fn upstreams_view(&self) -> Seq<UpstreamServer> {
        self.upstreams@
    }

    /// The algorithm.
    pub closed spec fn algorithm_view(&self) -> LoadBalancingAlgorithm {
        self.algorithm
    }

    /// The selection counter.
    pub closed spec fn counter(&self) -> usize {
        self.round_robin_counter
    }

    /// The servers are held in a `Vec`, so their number fits in a `usize`.
    pub proof fn lemma_upstreams_len_fits(&self)
        ensures
            self.upstreams_view().len() <= usize::MAX,
    {
        assert(self.upstreams@.len() == self.upstreams.len());
    }

    /// A manager over `upstreams`, each healthy with a closed breaker built from
    /// `circuit_breaker_config`, using the algorithm called `algorithm`. It never fails.
    pub fn new(upstreams: Vec<UpstreamConfig>, algorithm: &str, circuit_breaker_config: &CircuitBreakerConfig) -> (r: Result<
        LoadBalancingManager,
        ParseError,
    >)
        ensures
            r matches Ok(m) && {
                &&& m.algorithm_view() == algorithm_named(algorithm@)
                &&& m.counter() == 0
                &&& m.upstreams_view().len() == upstreams@.len()
                &&& forall|i: int| 0 <= i < upstreams@.len() ==> {
                    let u = #[trigger] m.upstreams_view()[i];
                    &&& u.name == upstreams@[i].name
                    &&& u.url == upstreams@[i].url
                    &&& u.weight == upstreams@[i].weight
                    &&& u.enabled == upstreams@[i].enabled
                    &&& u.healthy
                    &&& u.circuit_breaker == breaker::closed_breaker(
                        circuit_breaker_config.failure_threshold,
                        circuit_breaker_config.success_threshold,
                        circuit_breaker_config.timeout_seconds,
                    )
                    &&& u.active_connections == 0
                    &&& u.total_requests == 0
                    &&& u.failed_requests == 0
                    &&& u.consecutive_successes == 0
                    &&& u.consecutive_failures == 0
                }
            },
    {
        let algorithm = parse_algorithm(algorithm);
        let mut servers: Vec<UpstreamServer> = Vec::new();
        let mut i: usize = 0;
        while i < upstreams.len()
            invariant
                i <= upstreams@.len(),
                servers@.len() == i,
                forall|j: int| 0 <= j < i ==> {
                    let u = #[trigger] servers@[j];
                    &&& u.name == upstreams@[j].name
                    &&& u.url == upstreams@[j].url
                    &&& u.weight == upstreams@[j].weight
                    &&& u.enabled == upstreams@[j].enabled
                    &&& u.healthy
                    &&& u.circuit_breaker == breaker::closed_breaker(
                        circuit_breaker_config.failure_threshold,
                        circuit_breaker_config.success_threshold,
                        circuit_breaker_config.timeout_seconds,
                    )
                    &&& u.active_connections == 0
                    &&& u.total_requests == 0
                    &&& u.failed_requests == 0
                    &&& u.consecutive_successes == 0
                    &&& u.consecutive_failures == 0
                },
            decreases upstreams@.len() - i,
        {
            let config = &upstreams[i];
            match UpstreamServer::new(
                config.name.clone(),
                config.url.clone(),
                config.weight,
                config.enabled,
                circuit_breaker_config,
            ) {
                Ok(u) => servers.push(u),
                Err(e) => {
                    return Err(e);
                },
            }
            i += 1;
        }
        Ok(LoadBalancingManager { upstreams: servers, algorithm, round_robin_counter: 0 })
    }

    /// The positions of the enabled, healthy servers.
    fn available(&self) -> (r: Vec<usize>)
        ensures
            r@.len() == available_indices(self.upstreams@).len(),
            forall|k: int| 0 <= k < r@.len() ==> r@[k] as int == available_indices(self.upstreams@)[k],
            forall|k: int| 0 <= k < r@.len() ==> (#[trigger] r@[k]) < self.upstreams@.len(),
    {
        let mut out: Vec<usize> = Vec::new();
        let mut i: usize = 0;
        while i < self.upstreams.len()
            invariant
                i <= self.upstreams@.len(),
                out@.len() == available_indices(self.upstreams@.subrange(0, i as int)).len(),
                forall|k: int| 0 <= k < out@.len() ==> out@[k] as int == available_indices(
                    self.upstreams@.subrange(0, i as int),
                )[k],
                forall|k: int| 0 <= k < out@.len() ==> (#[trigger] out@[k]) < i,
            decreases self.upstreams@.len() - i,
        {
            let ghost prefix = self.upstreams@.subrange(0, i + 1);
            assert(prefix.drop_last() =~= self.upstreams@.subrange(0, i as int));
            if self.upstreams[i].enabled && self.upstreams[i].healthy {
                out.push(i);
            }
            i += 1;
        }
        assert(self.upstreams@.subrange(0, self.upstreams@.len() as int) =~= self.upstreams@);
        out
    }

    /// Whether a choice can be made: some server is available and, for weighted round
    /// robin, their weights sum to a positive `u32`.
    pub fn can_select(&self) -> (r: bool)
        ensures
            r == selectable(self.upstreams_view(), self.algorithm_view()),
    {
        let avail = self.available();
        assert(avail@.map_values(|i: usize| i as int) =~= available_indices(self.upstreams@));
        if avail.len() == 0 {
            return true;
        }
        match self.algorithm {
            LoadBalancingAlgorithm::WeightedRoundRobin => {
                let ws = self.available_weights(&avail);
                let total = sum_u32(&ws);
                total > 0 && total <= u32::MAX as u128
            },
            _ => true,
        }
    }

    /// The weights of the servers at `avail`.
    fn available_weights(&self, avail: &Vec<usize>) -> (r: Vec<u32>)
        requires
            forall|k: int| 0 <= k < avail@.len() ==> (#[trigger] avail@[k]) < self.upstreams@.len(),
        ensures
            r@ == weights_at(self.upstreams@, avail@.map_values(|i: usize| i as int)),
    {
        let mut out: Vec<u32> = Vec::new();
        let mut k: usize = 0;
        while k < avail.len()
            invariant
                k <= avail@.len(),
                forall|j: int| 0 <= j < avail@.len() ==> (#[trigger] avail@[j]) < self.upstreams@.len(),
                out@ == weights_at(self.upstreams@, avail@.map_values(|i: usize| i as int)).subrange(0, k as int),
            decreases avail@.len() - k,
        {
            out.push(self.upstreams[avail[k]].weight);
            k += 1;
        }
        assert(weights_at(self.upstreams@, avail@.map_values(|i: usize| i as int)).subrange(0, avail@.len() as int)
            =~= weights_at(self.upstreams@, avail@.map_values(|i: usize| i as int)));
        out
    }

    /// Chooses the next server for a request from address `client`, with `random` as the
    /// random draw: see `choice`. Fails when no server is enabled and healthy. Returns the
    /// server's position.
    pub fn select_upstream_with(&mut self, random: usize, client: &str) -> (r: Result<usize, ParseError>)
        requires
            selectable(old(self).upstreams_view(), old(self).algorithm_view()),
        ensures
            final(self).upstreams_view() == old(self).upstreams_view(),
            final(self).algorithm_view() == old(self).algorithm_view(),
            match choice(old(self).upstreams_view(), old(self).algorithm_view(), old(self).counter(), random, client@) {
                Some((i, counter)) => r == Ok::<usize, ParseError>(i as usize) && final(self).counter() == counter
                    && 0 <= i < old(self).upstreams_view().len(),
                None => r matches Err(e) && e.message@ == "No healthy upstreams available"@ && final(self).counter()
                    == old(self).counter(),
            },
    {
        let avail = self.available();
        let ghost idx = available_indices(self.upstreams@);
        assert(avail@.map_values(|i: usize| i as int) =~= idx);
        if avail.len() == 0 {
            return Err(ParseError { message: "No healthy upstreams available".to_string() });
        }
        let n = avail.len();
        match self.algorithm {
            LoadBalancingAlgorithm::RoundRobin => {
                let counter = self.round_robin_counter;
                self.round_robin_counter = counter.wrapping_add(1);
                Ok(avail[counter % n])
            },
            LoadBalancingAlgorithm::WeightedRoundRobin => {
                let ws = self.available_weights(&avail);
                let total = sum_u32(&ws) as u32;
                let counter = self.round_robin_counter;
                self.round_robin_counter = counter.wrapping_add(1);
                let target: u32 = (counter as u32) % total;
                let k = weighted_pick(&ws, target);
                Ok(avail[k])
            },
            LoadBalancingAlgorithm::LeastConnections => {
                let mut best: usize = 0;
                let mut k: usize = 1;
                let ghost conns = connections_at(self.upstreams@, idx);
                while k < n
                    invariant
                        n == avail@.len(),
                        n == idx.len(),
                        1 <= k <= n,
                        conns == connections_at(self.upstreams@, idx),
                        forall|j: int| 0 <= j < n ==> (#[trigger] avail@[j]) < self.upstreams@.len(),
                        forall|j: int| 0 <= j < n ==> avail@[j] as int == #[trigger] idx[j],
                        best as int == first_min_index(conns.subrange(0, k as int)),
                        best < k,
                    decreases n - k,
                {
                    let ghost pre = conns.subrange(0, k + 1);
                    assert(pre.drop_last() =~= conns.subrange(0, k as int));
                    assert(pre[best as int] == conns[best as int]);
                    if self.upstreams[avail[k]].active_connections < self.upstreams[avail[best]].active_connections {
                        best = k;
                    }
                    k += 1;
                }
                assert(conns.subrange(0, n as int) =~= conns);
                Ok(avail[best])
            },
            LoadBalancingAlgorithm::Random => Ok(avail[random % n]),
            LoadBalancingAlgorithm::IpHash => {
                let h = hash_address(client);
                Ok(avail[(h % (n as u64)) as usize])
            },
        }
    }

    /// Chooses the next server for a request from address `client`, drawing a random number
    /// for the random algorithm: the choice of `select_upstream_with` for some draw. Only the
    /// random algorithm depends on the draw, so for the others the server and the new
    /// counter are those of `choice`.
    pub fn select_upstream_for(&mut self, client: &str) -> (r: Result<usize, ParseError>)
        requires
            selectable(old(self).upstreams_view(), old(self).algorithm_view()),
        ensures
            final(self).upstreams_view() == old(self).upstreams_view(),
            final(self).algorithm_view() == old(self).algorithm_view(),
            available_indices(old(self).upstreams_view()).len() == 0 <==> r is Err,
            r matches Ok(i) ==> i < old(self).upstreams_view().len() && available_indices(
                old(self).upstreams_view(),
            ).contains(i as int),
            exists|random: usize|
                match #[trigger] choice(old(self).upstreams_view(), old(self).algorithm_view(), old(self).counter(), random, client@) {
                    Some((i, counter)) => r == Ok::<usize, ParseError>(i as usize) && final(self).counter() == counter,
                    None => r matches Err(e) && e.message@ == "No healthy upstreams available"@ && final(self).counter()
                        == old(self).counter(),
                },
    {
        let random = random_usize();
        let count = self.upstreams.len();
        proof {
            assert(count as int == self.upstreams@.len());
            lemma_choice_available(old(self).upstreams_view(), old(self).algorithm_view(), old(self).counter(), random, client@);
        }
        let r = self.select_upstream_with(random, client);
        proof {
            let c = choice(old(self).upstreams_view(), old(self).algorithm_view(), old(self).counter(), random, client@);
            assert(match c {
                Some((i, counter)) => r == Ok::<usize, ParseError>(i as usize) && self.counter() == counter,
                None => r matches Err(e) && e.message@ == "No healthy upstreams available"@ && self.counter()
                    == old(self).counter(),
            });
        }
        r
    }

    /// Chooses the next server for a request whose client address is not known: as
    /// `select_upstream_for` with the empty address.
    pub fn select_upstream(&mut self) -> (r: Result<usize, ParseError>)
        requires
            selectable(old(self).upstreams_view(), old(self).algorithm_view()),
        ensures
            final(self).upstreams_view() == old(self).upstreams_view(),
            final(self).algorithm_view() == old(self).algorithm_view(),
            available_indices(old(self).upstreams_view()).len() == 0 <==> r is Err,
            r matches Ok(i) ==> i < old(self).upstreams_view().len() && available_indices(
                old(self).upstreams_view(),
            ).contains(i as int),
            exists|random: usize|
                match #[trigger] choice(old(self).upstreams_view(), old(self).algorithm_view(), old(self).counter(), random, ""@) {
                    Some((i, counter)) => r == Ok::<usize, ParseError>(i as usize) && final(self).counter() == counter,
                    None => r matches Err(e) && e.message@ == "No healthy upstreams available"@ && final(self).counter()
                        == old(self).counter(),
                },
    {
        self.select_upstream_for("")
    }

    /// Marks the first server called `name` healthy or not; other names change nothing.
    pub fn update_health(&mut self, name: &str, healthy: bool)
        ensures
            final(self).algorithm_view() == old(self).algorithm_view(),
            final(self).counter() == old(self).counter(),
            final(self).upstreams_view() == match first_server_named(old(self).upstreams_view(), name@) {
                Some(i) => old(self).upstreams_view().update(
                    i,
                    UpstreamServer { healthy, ..old(self).upstreams_view()[i] },
                ),
                None => old(self).upstreams_view(),
            },
    {
        match find_server(&self.upstreams, name) {
            Some(i) => {
                let mut u = self.upstreams[i].clone_upstream();
                u.set_healthy(healthy);
                self.upstreams.set(i, u);
            },
            None => {},
        }
    }

    /// Records a health check of the server at `index`. Disabled servers are not checked.
    pub fn record_health_check(&mut self, index: usize, success: bool, healthy_threshold: u32, unhealthy_threshold: u32)
        requires
            index < old(self).upstreams_view().len(),
        ensures
            final(self).algorithm_view() == old(self).algorithm_view(),
            final(self).counter() == old(self).counter(),
            final(self).upstreams_view() == if old(self).upstreams_view()[index as int].enabled {
                old(self).upstreams_view().update(
                    index as int,
                    old(self).upstreams_view()[index as int].checked(success, healthy_threshold, unhealthy_threshold),
                )
            } else {
                old(self).upstreams_view()
            },
    {
        if self.upstreams[index].enabled {
            let mut u = self.upstreams[index].clone_upstream();
            u.record_health_check(success, healthy_threshold, unhealthy_threshold);
            self.upstreams.set(index, u);
        }
    }

    /// The address probed by a health check of the server at `index`: its URL followed by
    /// `path`.
    pub fn health_check_url(&self, index: usize, path: &str) -> (r: String)
        requires
            index < self.upstreams_view().len(),
        ensures
            r@ == self.upstreams_view()[index as int].url@ + path@,
    {
        crate::error::prefixed_message(self.upstreams[index].url.as_str(), path)
    }

    /// Asks the breaker of the server at `index` whether a call may go through; see
    /// `UpstreamServer::admit_call`.
    pub fn admit_call(&mut self, index: usize, now_nanos: u64) -> (r: Result<(), ParseError>)
        requires
            index < old(self).upstreams_view().len(),
        ensures
            final(self).algorithm_view() == old(self).algorithm_view(),
            final(self).counter() == old(self).counter(),
            final(self).upstreams_view().len() == old(self).upstreams_view().len(),
            forall|j: int| 0 <= j < old(self).upstreams_view().len() && j != index ==> #[trigger] final(self).upstreams_view()[j]
                == old(self).upstreams_view()[j],
            ({
                let u = old(self).upstreams_view()[index as int];
                let b = u.circuit_breaker.reset_if_due(now_nanos);
                if b.state == breaker::CircuitState::Open {
                    &&& r is Err
                    &&& final(self).upstreams_view()[index as int] == (UpstreamServer { circuit_breaker: b, ..u }).counted(false)
                } else {
                    &&& r is Ok
                    &&& final(self).upstreams_view()[index as int] == (UpstreamServer { circuit_breaker: b, ..u })
                }
            }),
    {
        let mut u = self.upstreams[index].clone_upstream();
        let r = u.admit_call(now_nanos);
        self.upstreams.set(index, u);
        r
    }

    /// Records the outcome of an admitted call to the server at `index`; see
    /// `UpstreamServer::complete_call`.
    pub fn complete_call(&mut self, index: usize, success: bool, now_nanos: u64)
        requires
            index < old(self).upstreams_view().len(),
        ensures
            final(self).algorithm_view() == old(self).algorithm_view(),
            final(self).counter() == old(self).counter(),
            final(self).upstreams_view() == old(self).upstreams_view().update(
                index as int,
                ({
                    let u = old(self).upstreams_view()[index as int];
                    (UpstreamServer {
                        circuit_breaker: if success {
                            u.circuit_breaker.succeeded()
                        } else {
                            u.circuit_breaker.failed(now_nanos)
                        },
                        ..u
                    }).counted(success)
                }),
            ),
    {
        let mut u = self.upstreams[index].clone_upstream();
        u.complete_call(success, now_nanos);
        self.upstreams.set(index, u);
    }

    /// The server at `index`.
    pub fn upstream(&self, index: usize) -> (r: &UpstreamServer)
        requires
            index < self.upstreams_view().len(),
        ensures
            *r == self.upstreams_view()[index as int],
    {
        &self.upstreams[index]
    }

    /// The number of servers.
    pub fn len(&self) -> (r: usize)
        ensures
            r == self.upstreams_view().len(),
    {
        self.upstreams.len()
    }

    /// Every server's summary, in order.
    pub fn get_upstreams_status(&self) -> (r: Vec<UpstreamStatus>)
        ensures
            r@.len() == self.upstreams_view().len(),
            forall|i: int| 0 <= i < r@.len() ==> {
                let s = #[trigger] r@[i];
                let u = self.upstreams_view()[i];
                &&& s.name@ == u.name@
                &&& s.url@ == u.url@
                &&& s.enabled == u.enabled
                &&& s.healthy == u.healthy
                &&& s.active_connections == u.active_connections
                &&& s.total_requests == u.total_requests
                &&& s.failed_requests == u.failed_requests
            },
    {
        let mut out: Vec<UpstreamStatus> = Vec::new();
        let mut i: usize = 0;
        while i < self.upstreams.len()
            invariant
                i <= self.upstreams@.len(),
                out@.len() == i,
                forall|j: int| 0 <= j < i ==> {
                    let s = #[trigger] out@[j];
                    let u = self.upstreams@[j];
                    &&& s.name@ == u.name@
                    &&& s.url@ == u.url@
                    &&& s.enabled == u.enabled
                    &&& s.healthy == u.healthy
                    &&& s.active_connections == u.active_connections
                    &&& s.total_requests == u.total_requests
                    &&& s.failed_requests == u.failed_requests
                },
            decreases self.upstreams@.len() - i,
        {
            out.push(self.upstreams[i].status());
            i += 1;
        }
        out
    }
}

/// Position of the first server called `name`.
pub open spec fn first_server_named(ups: Seq<UpstreamServer>, name: Seq<char>) -> Option<int>
    decreases ups.len(),
{
    if ups.len() == 0 {
        None
    } else if ups[0].name@ == name {
        Some(0)
    } else {
        match first_server_named(ups.drop_first(), name) {
            Some(i) => Some(i + 1),
            None => None,
        }
    }
}

/// Position of the first server called `name`.
fn find_server(ups: &Vec<UpstreamServer>, name: &str) -> (r: Option<usize>)
    ensures
        match r {
            Some(i) => first_server_named(ups@, name@) == Some(i as int) && i < ups@.len(),
            None => first_server_named(ups@, name@) is None,
        },
{
    let key = name.to_string();
    let mut i: usize = 0;
    assert(ups@.subrange(0, ups@.len() as int) =~= ups@);
    while i < ups.len()
        invariant
            i <= ups@.len(),
            key@ == name@,
            first_server_named(ups@, name@) == match first_server_named(ups@.subrange(i as int, ups@.len() as int), name@) {
                Some(k) => Some(k + i),
                None => None,
            },
        decreases ups@.len() - i,
    {
        let ghost rest = ups@.subrange(i as int, ups@.len() as int);
        assert(rest.drop_first() =~= ups@.subrange(i + 1, ups@.len() as int));
        assert(rest[0] == ups@[i as int]);
        if ups[i].name == key {
            assert(first_server_named(rest, name@) == Some(0int));
            return Some(i);
        }
        i += 1;
    }
    None
}

/// Sum of the weights, in a `u128` so that it cannot overflow.
fn sum_u32(ws: &Vec<u32>) -> (r: u128)
    ensures
        r as int == weight_sum(ws@),
{
    let mut total: u128 = 0;
    let mut i: usize = 0;
    while i < ws.len()
        invariant
            i <= ws@.len(),
            total as int == weight_sum(ws@.subrange(0, i as int)),
            total <= i * (u32::MAX as int),
        decreases ws@.len() - i,
    {
        assert(ws@.subrange(0, i + 1).drop_last() =~= ws@.subrange(0, i as int));
        assert(total + ws@[i as int] <= (i + 1) * (u32::MAX as int)) by (nonlinear_arith)
            requires
                total <= i * (u32::MAX as int),
                ws@[i as int] <= u32::MAX,
        ;
        assert((i + 1) * (u32::MAX as int) <= u128::MAX) by (nonlinear_arith)
            requires
                i < usize::MAX,
                usize::MAX <= u64::MAX,
        ;
        total = total + ws[i] as u128;
        i += 1;
    }
    assert(ws@.subrange(0, ws@.len() as int) =~= ws@);
    total
}

/// Only the random algorithm depends on the random draw: for the others, two draws give
/// the same server and the same new counter.
pub proof fn lemma_choice_ignores_draw(
    ups: Seq<UpstreamServer>,
    algorithm: LoadBalancingAlgorithm,
    counter: usize,
    r1: usize,
    r2: usize,
    client: Seq<char>,
)
    requires
        algorithm != LoadBalancingAlgorithm::Random,
    ensures
        choice(ups, algorithm, counter, r1, client) == choice(ups, algorithm, counter, r2, client),
{
}

/// A server after a series of health checks, the outcomes in order.
pub open spec fn checked_run(u: UpstreamServer, probes: Seq<bool>, healthy_threshold: u32, unhealthy_threshold: u32) -> UpstreamServer
    decreases probes.len(),
{
    if probes.len() == 0 {
        u
    } else {
        checked_run(u, probes.drop_last(), healthy_threshold, unhealthy_threshold).checked(
            probes.last(),
            healthy_threshold,
            unhealthy_threshold,
        )
    }
}

/// A run of `m` equal outcomes at the end of a series, begun from a server with no run of
/// that outcome counted: the run is counted exactly, the other run is cleared, and the
/// server's health is that before the run until the run reaches the threshold, and then
/// healthy (for successes) or unhealthy (for failures).
proof fn lemma_checked_tail_run(
    u: UpstreamServer,
    probes: Seq<bool>,
    healthy_threshold: u32,
    unhealthy_threshold: u32,
    m: int,
    outcome: bool,
)
    requires
        1 <= m <= probes.len(),
        m < usize::MAX,
        forall|i: int| probes.len() - m <= i < probes.len() ==> probes[i] == outcome,
        ({
            let start = checked_run(u, probes.subrange(0, probes.len() - m), healthy_threshold, unhealthy_threshold);
            if outcome {
                start.consecutive_successes == 0
            } else {
                start.consecutive_failures == 0
            }
        }),
    ensures
        ({
            let start = checked_run(u, probes.subrange(0, probes.len() - m), healthy_threshold, unhealthy_threshold);
            let r = checked_run(u, probes, healthy_threshold, unhealthy_threshold);
            let threshold = if outcome {
                healthy_threshold
            } else {
                unhealthy_threshold
            };
            &&& outcome ==> r.consecutive_successes == m && r.consecutive_failures == 0
            &&& !outcome ==> r.consecutive_failures == m && r.consecutive_successes == 0
            &&& m >= threshold ==> r.healthy == outcome
            &&& m < threshold ==> r.healthy == start.healthy
        }),
    decreases m,
{
    let init = probes.drop_last();
    assert(probes.last() == outcome);
    if m > 1 {
        assert(init.subrange(0, init.len() - (m - 1)) =~= probes.subrange(0, probes.len() - m));
        assert forall|i: int| init.len() - (m - 1) <= i < init.len() implies init[i] == outcome by {
            assert(init[i] == probes[i]);
        }
        lemma_checked_tail_run(u, init, healthy_threshold, unhealthy_threshold, m - 1, outcome);
    } else {
        assert(init =~= probes.subrange(0, probes.len() - m));
    }
}

/// Health-check law: after a failure (or from a server with no run of successes counted),
/// `m` successful checks in a row leave the run of successes at `m` and mark the server
/// healthy once `m` reaches the healthy threshold; before that its health is what it was
/// when the run began. Failures do the same with the unhealthy threshold, marking the
/// server unhealthy. A check of the other outcome clears the run (see `checked`).
pub proof fn lemma_health_check_runs(
    u: UpstreamServer,
    probes: Seq<bool>,
    healthy_threshold: u32,
    unhealthy_threshold: u32,
    m: int,
    outcome: bool,
)
    requires
        1 <= m <= probes.len(),
        m < usize::MAX,
        forall|i: int| probes.len() - m <= i < probes.len() ==> probes[i] == outcome,
        (probes.len() > m && probes[probes.len() - m - 1] != outcome) || (probes.len() == m && (if outcome {
            u.consecutive_successes == 0
        } else {
            u.consecutive_failures == 0
        })),
    ensures
        ({
            let start = checked_run(u, probes.subrange(0, probes.len() - m), healthy_threshold, unhealthy_threshold);
            let r = checked_run(u, probes, healthy_threshold, unhealthy_threshold);
            &&& outcome ==> r.consecutive_successes == m && r.consecutive_failures == 0
            &&& !outcome ==> r.consecutive_failures == m && r.consecutive_successes == 0
            &&& outcome && m >= healthy_threshold ==> r.healthy
            &&& !outcome && m >= unhealthy_threshold ==> !r.healthy
            &&& outcome && m < healthy_threshold ==> r.healthy == start.healthy
            &&& !outcome && m < unhealthy_threshold ==> r.healthy == start.healthy
        }),
{
    let pre = probes.subrange(0, probes.len() - m);
    if probes.len() > m {
        assert(pre.last() == probes[probes.len() - m - 1]);
    } else {
        assert(pre =~= Seq::<bool>::empty());
    }
    lemma_checked_tail_run(u, probes, healthy_threshold, unhealthy_threshold, m, outcome);
}

/// IP hash sends every request from one client address to the same server while the
/// servers' availability stays the same, whatever the counter and the draw.
pub proof fn lemma_ip_hash_same_client_same_server(
    ups: Seq<UpstreamServer>,
    counter1: usize,
    counter2: usize,
    random1: usize,
    random2: usize,
    client: Seq<char>,
)
    ensures
        choice(ups, LoadBalancingAlgorithm::IpHash, counter1, random1, client) matches Some((i, c)) ==> (c == counter1
            && (choice(ups, LoadBalancingAlgorithm::IpHash, counter2, random2, client) matches Some((j, d)) && i == j)),
{
}

/// Every server chosen is an available one, and one is chosen whenever any is available.
pub proof fn lemma_choice_available(
    ups: Seq<UpstreamServer>,
    algorithm: LoadBalancingAlgorithm,
    counter: usize,
    random: usize,
    client: Seq<char>,
)
    requires
        selectable(ups, algorithm),
    ensures
        choice(ups, algorithm, counter, random, client) is None <==> available_indices(ups).len() == 0,
        choice(ups, algorithm, counter, random, client) matches Some((i, c)) ==> available_indices(ups).contains(i) && 0 <= i
            < ups.len(),
{
    let avail = available_indices(ups);
    lemma_available_indices_bounds(ups);
    if avail.len() > 0 {
        let k: int = match algorithm {
            LoadBalancingAlgorithm::RoundRobin => (counter as int) % (avail.len() as int),
            LoadBalancingAlgorithm::WeightedRoundRobin => {
                let ws = weights_at(ups, avail);
                crate::deployment::traffic_splitter::lemma_weighted_choice_in_range(
                    ws,
                    (counter as u32) as int % weight_sum(ws),
                );
                weighted_choice(ws, (counter as u32) as int % weight_sum(ws))
            },
            LoadBalancingAlgorithm::LeastConnections => {
                lemma_first_min_index(connections_at(ups, avail));
                first_min_index(connections_at(ups, avail))
            },
            LoadBalancingAlgorithm::Random => (random as int) % (avail.len() as int),
            LoadBalancingAlgorithm::IpHash => address_hash(client) % (avail.len() as int),
        };
        assert(0 <= k < avail.len());
        assert(avail[k] == avail[k]);
    }
}

/// The available positions lie within the servers, rise strictly, and are exactly the
/// enabled, healthy servers.
pub proof fn lemma_available_indices_bounds(ups: Seq<UpstreamServer>)
    ensures
        forall|k: int| 0 <= k < available_indices(ups).len() ==> 0 <= #[trigger] available_indices(ups)[k] < ups.len(),
        forall|k: int| 0 <= k < available_indices(ups).len() ==> ups[#[trigger] available_indices(ups)[k]].enabled
            && ups[available_indices(ups)[k]].healthy,
        forall|i: int| 0 <= i < ups.len() && ups[i].enabled && ups[i].healthy ==> #[trigger] available_indices(ups).contains(i),
    decreases ups.len(),
{
    if ups.len() > 0 {
        let init = ups.drop_last();
        lemma_available_indices_bounds(init);
        let a = available_indices(init);
        assert forall|i: int| 0 <= i < ups.len() && ups[i].enabled && ups[i].healthy implies #[trigger] available_indices(ups).contains(i) by {
            if i < ups.len() - 1 {
                assert(init[i] == ups[i]);
                assert(a.contains(i));
                let k = choose|k: int| 0 <= k < a.len() && a[k] == i;
                assert(available_indices(ups)[k] == i);
            } else {
                assert(available_indices(ups)[a.len() as int] == i);
            }
        }
        assert forall|k: int| 0 <= k < available_indices(ups).len() implies ups[#[trigger] available_indices(ups)[k]].enabled
            && ups[available_indices(ups)[k]].healthy by {
            if k < a.len() {
                assert(init[a[k]] == ups[a[k]]);
            }
        }
    }
}

/// The first smallest value lies inside a non-empty sequence, is no larger than any value,
/// and is smaller than every value before it.
pub proof fn lemma_first_min_index(s: Seq<usize>)
    requires
        s.len() > 0,
    ensures
        0 <= first_min_index(s) < s.len(),
        forall|j: int| 0 <= j < s.len() ==> s[first_min_index(s)] <= #[trigger] s[j],
        forall|j: int| 0 <= j < first_min_index(s) ==> s[first_min_index(s)] < #[trigger] s[j],
    decreases s.len(),
{
    if s.len() > 1 {
        let init = s.drop_last();
        lemma_first_min_index(init);
        let m = first_min_index(init);
        assert(init[m] == s[m]);
        assert forall|j: int| 0 <= j < s.len() implies s[first_min_index(s)] <= #[trigger] s[j] by {
            if j < s.len() - 1 {
                assert(init[j] == s[j]);
            }
        }
        assert forall|j: int| 0 <= j < first_min_index(s) implies s[first_min_index(s)] < #[trigger] s[j] by {
            if j < s.len() - 1 {
                assert(init[j] == s[j]);
            }
        }
    }
}

/// Least connections picks an available server with no more open connections than any
/// other available server, and the first such.
pub proof fn lemma_least_connections_minimal(ups: Seq<UpstreamServer>, counter: usize, random: usize, client: Seq<char>)
    requires
        available_indices(ups).len() > 0,
    ensures
        choice(ups, LoadBalancingAlgorithm::LeastConnections, counter, random, client) matches Some((i, c)) && {
            let avail = available_indices(ups);
            &&& c == counter
            &&& forall|k: int| 0 <= k < avail.len() ==> ups[i].active_connections <= ups[#[trigger] avail[k]].active_connections
            &&& exists|m: int| 0 <= m < avail.len() && avail[m] == i && forall|k: int| 0 <= k < m ==>
                ups[i].active_connections < ups[#[trigger] avail[k]].active_connections
        },
{
    let avail = available_indices(ups);
    let conns = connections_at(ups, avail);
    lemma_first_min_index(conns);
    let m = first_min_index(conns);
    assert forall|k: int| 0 <= k < avail.len() implies ups[avail[m]].active_connections <= ups[#[trigger] avail[k]].active_connections by {
        assert(conns[k] == ups[avail[k]].active_connections);
    }
    assert forall|k: int| 0 <= k < m implies ups[avail[m]].active_connections < ups[#[trigger] avail[k]].active_connections by {
        assert(conns[k] == ups[avail[k]].active_connections);
    }
}

/// Round robin reaches every available server: among any run of as many consecutive
/// counter values as there are available servers, one picks each of them.
pub proof fn lemma_round_robin_covers(ups: Seq<UpstreamServer>, counter: usize, k: int)
    requires
        0 <= k < available_indices(ups).len(),
    ensures
        exists|j: int| #![trigger (counter + j) % (available_indices(ups).len() as int)]
            0 <= j < available_indices(ups).len() && (counter + j) % (available_indices(ups).len() as int) == k,
{
    let n = available_indices(ups).len() as int;
    let r = (counter as int) % n;
    let j = if k >= r { k - r } else { k - r + n };
    assert((counter + j) % n == k) by {
        vstd::arithmetic::div_mod::lemma_fundamental_div_mod(counter as int, n);
        let q = (counter as int) / n;
        assert(counter + j == n * q + r + j);
        if k >= r {
            assert(counter + j == n * q + k);
        } else {
            assert(counter + j == n * (q + 1) + k) by (nonlinear_arith)
                requires
                    counter + j == n * q + r + j,
                    j == k - r + n,
            ;
        }
        vstd::arithmetic::div_mod::lemma_mod_multiples_vanish(if k >= r { q } else { q + 1 }, k, n);
        vstd::arithmetic::div_mod::lemma_small_mod(k as nat, n as nat);
    }
}

} // verus!
