//! Analysis of recent request logs: error totals, the busiest endpoints, the slowest
//! requests and clients whose errors look like scanning or trouble.
use vstd::prelude::*;
use crate::logging::structured::RequestLog;
use crate::text::decimal;

verus! {

broadcast use vstd::string::group_string_axioms;

/// How many records the analyzer keeps; older ones are dropped.
pub const MAX_LOGS: usize = 1000;

/// How many endpoints and slow requests an analysis lists.
pub const TOP_COUNT: usize = 10;

/// A request slower than this many milliseconds is slow.
pub const SLOW_MS: u64 = 100;

/// A client with more 404 answers than this looks like it is scanning.
pub const SCAN_THRESHOLD: usize = 10;

/// A client with more server errors than this is reported.
pub const ERROR_THRESHOLD: usize = 5;

// ---------------------------------------------------------------------------
// Counting
// ---------------------------------------------------------------------------

/// The strings in first-appearance order, each once.
pub open spec fn distinct(s: Seq<Seq<char>>) -> Seq<Seq<char>>
    decreases s.len(),
{
    if s.len() == 0 {
        Seq::empty()
    } else {
        let d = distinct(s.drop_last());
        if d.contains(s.last()) {
            d
        } else {
            d.push(s.last())
        }
    }
}

/// How often `x` occurs in `s`.
pub open spec fn occurrences(s: Seq<Seq<char>>, x: Seq<char>) -> nat
    decreases s.len(),
{
    if s.len() == 0 {
        0
    } else {
        occurrences(s.drop_last(), x) + if s.last() == x {
            1nat
        } else {
            0nat
        }
    }
}

/// The requests answered with an error status (400 or above).
pub open spec fn error_total(logs: Seq<RequestLog>) -> nat
    decreases logs.len(),
{
    if logs.len() == 0 {
        0
    } else {
        error_total(logs.drop_last()) + if logs.last().status >= 400 {
            1nat
        } else {
            0nat
        }
    }
}

/// The requested paths, in order.
pub open spec fn uris(logs: Seq<RequestLog>) -> Seq<Seq<char>> {
    logs.map_values(|l: RequestLog| l.uri@)
}

/// Total duration of the requests for `path`.
pub open spec fn path_duration(logs: Seq<RequestLog>, path: Seq<char>) -> nat
    decreases logs.len(),
{
    if logs.len() == 0 {
        0
    } else {
        path_duration(logs.drop_last(), path) + if logs.last().uri@ == path {
            logs.last().duration_ms as nat
        } else {
            0nat
        }
    }
}

/// Error answers to requests for `path`.
pub open spec fn path_errors(logs: Seq<RequestLog>, path: Seq<char>) -> nat
    decreases logs.len(),
{
    if logs.len() == 0 {
        0
    } else {
        path_errors(logs.drop_last(), path) + if logs.last().uri@ == path && logs.last().status >= 400 {
            1nat
        } else {
            0nat
        }
    }
}

/// The client addresses of the requests answered 404, in order.
pub open spec fn not_found_clients(logs: Seq<RequestLog>) -> Seq<Seq<char>>
    decreases logs.len(),
{
    if logs.len() == 0 {
        Seq::empty()
    } else {
        let rest = not_found_clients(logs.drop_last());
        if logs.last().status == 404 {
            rest.push(logs.last().remote_addr@)
        } else {
            rest
        }
    }
}

/// The client addresses of the requests answered with a server error (500 or above), in
/// order.
pub open spec fn server_error_clients(logs: Seq<RequestLog>) -> Seq<Seq<char>>
    decreases logs.len(),
{
    if logs.len() == 0 {
        Seq::empty()
    } else {
        let rest = server_error_clients(logs.drop_last());
        if logs.last().status >= 500 {
            rest.push(logs.last().remote_addr@)
        } else {
            rest
        }
    }
}

// ---------------------------------------------------------------------------
// Ordering
// ---------------------------------------------------------------------------

/// Where an entry with key `k` goes in `sorted`: after every entry whose key is at least
/// `k`.
pub open spec fn keyed_insertion_point(sorted: Seq<(u64, usize)>, k: u64) -> int
    decreases sorted.len(),
{
    if sorted.len() == 0 {
        0
    } else if sorted[0].0 >= k {
        1 + keyed_insertion_point(sorted.drop_first(), k)
    } else {
        0
    }
}

/// The entries ordered by descending key, entries with equal keys in their given order.
pub open spec fn sort_desc(s: Seq<(u64, usize)>) -> Seq<(u64, usize)>
    decreases s.len(),
{
    if s.len() == 0 {
        Seq::empty()
    } else {
        let sorted = sort_desc(s.drop_last());
        sorted.insert(keyed_insertion_point(sorted, s.last().0), s.last())
    }
}

/// The keys never rise.
pub open spec fn keys_descend(s: Seq<(u64, usize)>) -> bool {
    forall|i: int, j: int| 0 <= i < j < s.len() ==> s[i].0 >= s[j].0
}

/// The first `n` entries, or all of them when there are fewer.
pub open spec fn first_n<T>(s: Seq<T>, n: int) -> Seq<T> {
    if s.len() <= n {
        s
    } else {
        s.take(n)
    }
}

// ---------------------------------------------------------------------------
// Results
// ---------------------------------------------------------------------------

/// Requests, total duration and errors for one path.
pub struct EndpointCounts {
    pub path: String,
    pub count: usize,
    pub total_duration_ms: u128,
    pub error_count: usize,
}

/// A client whose errors stand out.
pub struct SuspiciousActivity {
    pub ip_address: String,
    pub event_type: String,
    pub count: usize,
    pub description: String,
}

/// The result of an analysis.
pub struct LogAnalysis {
    pub total_requests: usize,
    pub error_count: usize,
    pub top_endpoints: Vec<EndpointCounts>,
    pub slow_requests: Vec<RequestLog>,
    pub suspicious_activity: Vec<SuspiciousActivity>,
}

/// The paths in first-appearance order, each with its counts.
pub open spec fn endpoint_matches(logs: Seq<RequestLog>, e: Seq<EndpointCounts>) -> bool {
    &&& e.len() == distinct(uris(logs)).len()
    &&& forall|i: int| 0 <= i < e.len() ==> {
        let p = distinct(uris(logs))[i];
        &&& (#[trigger] e[i]).path@ == p
        &&& e[i].count == occurrences(uris(logs), p)
        &&& e[i].total_duration_ms == path_duration(logs, p)
        &&& e[i].error_count == path_errors(logs, p)
    }
}

/// The positions (with their keys) of the slow requests, in order.
pub open spec fn slow_keys(logs: Seq<RequestLog>) -> Seq<(u64, usize)>
    decreases logs.len(),
{
    if logs.len() == 0 {
        Seq::empty()
    } else {
        let rest = slow_keys(logs.drop_last());
        if logs.last().duration_ms > SLOW_MS {
            rest.push((logs.last().duration_ms, (logs.len() - 1) as usize))
        } else {
            rest
        }
    }
}

/// The reports of clients seen more than `threshold` times in `clients`, in
/// first-appearance order, each with its count.
pub open spec fn reported(clients: Seq<Seq<char>>, threshold: nat) -> Seq<(Seq<char>, nat)>
    decreases clients.len(),
{
    let d = distinct(clients);
    flagged(d, clients, threshold)
}

/// Of the addresses `d`, those seen more than `threshold` times in `clients`, with their
/// counts.
pub open spec fn flagged(d: Seq<Seq<char>>, clients: Seq<Seq<char>>, threshold: nat) -> Seq<(Seq<char>, nat)>
    decreases d.len(),
{
    if d.len() == 0 {
        Seq::empty()
    } else {
        let rest = flagged(d.drop_last(), clients, threshold);
        let c = occurrences(clients, d.last());
        if c > threshold {
            rest.push((d.last(), c))
        } else {
            rest
        }
    }
}

/// The reports of a list: its address and count, its kind and its description.
pub open spec fn reports_match(
    r: Seq<SuspiciousActivity>,
    expected: Seq<(Seq<char>, nat)>,
    kind: Seq<char>,
    suffix: Seq<char>,
) -> bool {
    &&& r.len() == expected.len()
    &&& forall|i: int| 0 <= i < r.len() ==> {
        &&& (#[trigger] r[i]).ip_address@ == expected[i].0
        &&& r[i].count == expected[i].1
        &&& r[i].event_type@ == kind
        &&& r[i].description@ == decimal(expected[i].1) + suffix
    }
}

/// Keeps the most recent request logs and analyses them.
pub struct LogAnalyzer {
    logs: Vec<RequestLog>,
}

impl LogAnalyzer {
    /// The records kept, oldest first.
    pub closed spec fn logs_view(&self) -> Seq<RequestLog> {
        self.logs@
    }

    /// No more than `MAX_LOGS` records are kept.
    pub closed spec fn wf(&self) -> bool {
        self.logs@.len() <= MAX_LOGS
    }

    /// An analyzer with no records.
    pub fn new() -> (r: LogAnalyzer)
        ensures
            r.wf(),
            r.logs_view() == Seq::<RequestLog>::empty(),
    {
        LogAnalyzer { logs: Vec::new() }
    }

    /// Adds a record, dropping the oldest when more than `MAX_LOGS` would be kept.
    pub fn add_log(&mut self, log: RequestLog)
        requires
            old(self).wf(),
        ensures
            final(self).wf(),
            final(self).logs_view() == if old(self).logs_view().len() < MAX_LOGS {
                old(self).logs_view().push(log)
            } else {
                old(self).logs_view().push(log).drop_first()
            },
    {
        self.logs.push(log);
        if self.logs.len() > MAX_LOGS {
            self.logs.remove(0);
        }
    }

    /// Copies of the last `limit` records (all of them when there are fewer), oldest first.
    pub fn get_recent_logs(&self, limit: usize) -> (r: Vec<RequestLog>)
        ensures
            r@ == if self.logs_view().len() > limit {
                self.logs_view().subrange(self.logs_view().len() - limit, self.logs_view().len() as int)
            } else {
                self.logs_view()
            },
    {
        let n = self.logs.len();
        let start: usize = if n > limit {
            n - limit
        } else {
            0
        };
        let mut out: Vec<RequestLog> = Vec::new();
        let mut i: usize = start;
        while i < n
            invariant
                n == self.logs@.len(),
                start <= i <= n,
                out@ == self.logs@.subrange(start as int, i as int),
            decreases n - i,
        {
            out.push(self.logs[i].clone_log());
            i += 1;
        }
        assert(start == 0 ==> self.logs@.subrange(0, n as int) =~= self.logs@);
        out
    }

    /// The number of requests answered with an error status (400 or above).
    pub fn error_count(&self) -> (r: usize)
        ensures
            r == error_total(self.logs_view()),
    {
        let mut count: usize = 0;
        let mut i: usize = 0;
        while i < self.logs.len()
            invariant
                i <= self.logs@.len(),
                count == error_total(self.logs@.subrange(0, i as int)),
                count <= i,
            decreases self.logs@.len() - i,
        {
            assert(self.logs@.subrange(0, i + 1).drop_last() =~= self.logs@.subrange(0, i as int));
            if self.logs[i].status >= 400 {
                count += 1;
            }
            i += 1;
        }
        assert(self.logs@.subrange(0, self.logs@.len() as int) =~= self.logs@);
        count
    }

    /// Every requested path in first-appearance order, with its request count, total
    /// duration and error count.
    pub fn endpoint_counts(&self) -> (r: Vec<EndpointCounts>)
        ensures
            endpoint_matches(self.logs_view(), r@),
    {
        let mut out: Vec<EndpointCounts> = Vec::new();
        let mut i: usize = 0;
        while i < self.logs.len()
            invariant
                i <= self.logs@.len(),
                endpoint_matches(self.logs@.subrange(0, i as int), out@),
                forall|k: int| 0 <= k < out@.len() ==> (#[trigger] out@[k]).count <= i && out@[k].error_count <= i
                    && out@[k].total_duration_ms <= i * (u64::MAX as int),
            decreases self.logs@.len() - i,
        {
            let ghost pre = self.logs@.subrange(0, i as int);
            let ghost next = self.logs@.subrange(0, i + 1);
            assert(next.drop_last() =~= pre);
            assert(uris(next).drop_last() =~= uris(pre));
            assert(uris(next).last() == self.logs@[i as int].uri@);
            let log = &self.logs[i];
            let ghost p = log.uri@;
            let ghost d = distinct(uris(pre));
            proof {
                lemma_distinct_members(uris(pre));
            }
            match find_endpoint(&out, log.uri.as_str()) {
                Some(k) => {
                    assert(d[k as int] == p);
                    assert(d.contains(p));
                    let old_e = &out[k];
                    let e = EndpointCounts {
                        path: old_e.path.clone(),
                        count: old_e.count + 1,
                        total_duration_ms: old_e.total_duration_ms + log.duration_ms as u128,
                        error_count: old_e.error_count + if log.status >= 400 {
                            1
                        } else {
                            0
                        },
                    };
                    proof {
                        assert(old_e.total_duration_ms + log.duration_ms <= (i + 1) * (u64::MAX as int)) by (nonlinear_arith)
                            requires
                                old_e.total_duration_ms <= i * (u64::MAX as int),
                                log.duration_ms <= u64::MAX,
                        ;
                        lemma_path_counts_bounded(pre, p);
                    }
                    out.set(k, e);
                    proof {
                        assert forall|j: int| 0 <= j < out@.len() implies {
                            let q = distinct(uris(next))[j];
                            &&& (#[trigger] out@[j]).path@ == q
                            &&& out@[j].count == occurrences(uris(next), q)
                            &&& out@[j].total_duration_ms == path_duration(next, q)
                            &&& out@[j].error_count == path_errors(next, q)
                        } by {
                            assert(distinct(uris(next)) == d);
                            if j != k {
                                lemma_distinct_members(uris(pre));
                                assert(d[j] != d[k as int]);
                            }
                        }
                        assert forall|j: int| 0 <= j < out@.len() implies (#[trigger] out@[j]).count <= i + 1
                            && out@[j].error_count <= i + 1 && out@[j].total_duration_ms <= (i + 1) * (u64::MAX as int) by {
                            assert((i as int) * (u64::MAX as int) <= (i + 1) * (u64::MAX as int)) by (nonlinear_arith);
                        }
                    }
                },
                None => {
                    assert(!d.contains(p)) by {
                        if d.contains(p) {
                            let j = choose|j: int| 0 <= j < d.len() && d[j] == p;
                            assert(out@[j].path@ == d[j]);
                        }
                    }
                    let e = EndpointCounts {
                        path: log.uri.clone(),
                        count: 1,
                        total_duration_ms: log.duration_ms as u128,
                        error_count: if log.status >= 400 {
                            1
                        } else {
                            0
                        },
                    };
                    proof {
                        lemma_distinct_members(uris(pre));
                        lemma_absent_counts_zero(pre, p);
                    }
                    out.push(e);
                    proof {
                        assert(distinct(uris(next)) == d.push(p));
                        assert forall|j: int| 0 <= j < out@.len() implies {
                            let q = distinct(uris(next))[j];
                            &&& (#[trigger] out@[j]).path@ == q
                            &&& out@[j].count == occurrences(uris(next), q)
                            &&& out@[j].total_duration_ms == path_duration(next, q)
                            &&& out@[j].error_count == path_errors(next, q)
                        } by {
                            if j < d.len() {
                                assert(d[j] != p) by {
                                    assert(d.contains(d[j]));
                                }
                            }
                        }
                        assert forall|j: int| 0 <= j < out@.len() implies (#[trigger] out@[j]).count <= i + 1
                            && out@[j].error_count <= i + 1 && out@[j].total_duration_ms <= (i + 1) * (u64::MAX as int) by {
                            assert((i as int) * (u64::MAX as int) <= (i + 1) * (u64::MAX as int)) by (nonlinear_arith);
                        }
                    }
                },
            }
            i += 1;
        }
        assert(self.logs@.subrange(0, self.logs@.len() as int) =~= self.logs@);
        out
    }

    /// The busiest paths: the endpoints ordered by descending request count (paths with
    /// equal counts in first-appearance order), at most `TOP_COUNT` of them.
    pub fn top_endpoints(&self) -> (r: Vec<EndpointCounts>)
        ensures
            exists|e: Seq<EndpointCounts>| {
                &&& endpoint_matches(self.logs_view(), e)
                &&& r@ == first_n(sort_desc(count_keys(e)), TOP_COUNT as int).map_values(
                    |k: (u64, usize)| e[k.1 as int],
                )
            },
    {
        let entries = self.endpoint_counts();
        let mut keys: Vec<(u64, usize)> = Vec::new();
        let mut i: usize = 0;
        while i < entries.len()
            invariant
                i <= entries@.len(),
                keys@ == count_keys(entries@).subrange(0, i as int),
            decreases entries@.len() - i,
        {
            keys.push((entries[i].count as u64, i));
            i += 1;
        }
        assert(keys@ =~= count_keys(entries@));
        let sorted = sort_keyed(&keys);
        proof {
            lemma_sort_desc_members(keys@);
        }
        let n: usize = if sorted.len() <= TOP_COUNT {
            sorted.len()
        } else {
            TOP_COUNT
        };
        let ghost chosen = first_n(sort_desc(count_keys(entries@)), TOP_COUNT as int);
        assert(chosen.len() == n);
        let mut out: Vec<EndpointCounts> = Vec::new();
        let mut k: usize = 0;
        while k < n
            invariant
                n == chosen.len(),
                n <= sorted@.len(),
                sorted@ == sort_desc(count_keys(entries@)),
                chosen == first_n(sorted@, TOP_COUNT as int),
                forall|j: int| 0 <= j < sorted@.len() ==> (#[trigger] sorted@[j]).1 < entries@.len(),
                k <= n,
                out@ == chosen.map_values(|x: (u64, usize)| entries@[x.1 as int]).subrange(0, k as int),
            decreases n - k,
        {
            assert(chosen[k as int] == sorted@[k as int]);
            out.push(entries[sorted[k].1].clone_counts());
            k += 1;
        }
        assert(out@ =~= chosen.map_values(|x: (u64, usize)| entries@[x.1 as int]));
        out
    }

    /// The slowest requests (over `SLOW_MS` milliseconds), slowest first (equally slow ones
    /// oldest first), at most `TOP_COUNT` of them.
    pub fn slow_requests(&self) -> (r: Vec<RequestLog>)
        ensures
            r@ == first_n(sort_desc(slow_keys(self.logs_view())), TOP_COUNT as int).map_values(
                |k: (u64, usize)| self.logs_view()[k.1 as int],
            ),
    {
        let mut keys: Vec<(u64, usize)> = Vec::new();
        let mut i: usize = 0;
        while i < self.logs.len()
            invariant
                i <= self.logs@.len(),
                keys@ == slow_keys(self.logs@.subrange(0, i as int)),
            decreases self.logs@.len() - i,
        {
            assert(self.logs@.subrange(0, i + 1).drop_last() =~= self.logs@.subrange(0, i as int));
            if self.logs[i].duration_ms > SLOW_MS {
                keys.push((self.logs[i].duration_ms, i));
            }
            i += 1;
        }
        assert(self.logs@.subrange(0, self.logs@.len() as int) =~= self.logs@);
        let count = self.logs.len();
        proof {
            assert(count as int == self.logs@.len());
            lemma_slow_keys_positions(self.logs@);
            lemma_sort_desc_members(keys@);
        }
        let sorted = sort_keyed(&keys);
        let n: usize = if sorted.len() <= TOP_COUNT {
            sorted.len()
        } else {
            TOP_COUNT
        };
        let ghost chosen = first_n(sorted@, TOP_COUNT as int);
        let mut out: Vec<RequestLog> = Vec::new();
        let mut k: usize = 0;
        while k < n
            invariant
                n == chosen.len(),
                n <= sorted@.len(),
                chosen == first_n(sorted@, TOP_COUNT as int),
                forall|j: int| 0 <= j < sorted@.len() ==> (#[trigger] sorted@[j]).1 < self.logs@.len(),
                k <= n,
                out@ == chosen.map_values(|x: (u64, usize)| self.logs@[x.1 as int]).subrange(0, k as int),
            decreases n - k,
        {
            assert(chosen[k as int] == sorted@[k as int]);
            out.push(self.logs[sorted[k].1].clone_log());
            k += 1;
        }
        assert(out@ =~= chosen.map_values(|x: (u64, usize)| self.logs@[x.1 as int]));
        out
    }

    /// Clients with more than `SCAN_THRESHOLD` answers of 404 (possible scanning), then
    /// clients with more than `ERROR_THRESHOLD` server errors, each list in order of first
    /// appearance.
    pub fn detect_suspicious_activity(&self) -> (r: Vec<SuspiciousActivity>)
        ensures
            exists|scans: Seq<SuspiciousActivity>, errors: Seq<SuspiciousActivity>| {
                &&& r@ == scans + errors
                &&& reports_match(
                    scans,
                    reported(not_found_clients(self.logs_view()), SCAN_THRESHOLD as nat),
                    "scan"@,
                    " 404 errors (possible scanning)"@,
                )
                &&& reports_match(
                    errors,
                    reported(server_error_clients(self.logs_view()), ERROR_THRESHOLD as nat),
                    "errors"@,
                    " server errors"@,
                )
            },
    {
        let mut not_found: Vec<String> = Vec::new();
        let mut failing: Vec<String> = Vec::new();
        let mut i: usize = 0;
        while i < self.logs.len()
            invariant
                i <= self.logs@.len(),
                crate::deployment::ab_test::string_views(not_found@) == not_found_clients(self.logs@.subrange(0, i as int)),
                crate::deployment::ab_test::string_views(failing@) == server_error_clients(self.logs@.subrange(0, i as int)),
            decreases self.logs@.len() - i,
        {
            assert(self.logs@.subrange(0, i + 1).drop_last() =~= self.logs@.subrange(0, i as int));
            let ghost nf = not_found@;
            let ghost fl = failing@;
            if self.logs[i].status == 404 {
                not_found.push(self.logs[i].remote_addr.clone());
                assert(crate::deployment::ab_test::string_views(not_found@) =~= crate::deployment::ab_test::string_views(nf).push(self.logs@[i as int].remote_addr@));
            } else if self.logs[i].status >= 500 {
                failing.push(self.logs[i].remote_addr.clone());
                assert(crate::deployment::ab_test::string_views(failing@) =~= crate::deployment::ab_test::string_views(fl).push(self.logs@[i as int].remote_addr@));
            }
            i += 1;
        }
        assert(self.logs@.subrange(0, self.logs@.len() as int) =~= self.logs@);
        let mut out = report_clients(&not_found, SCAN_THRESHOLD, "scan", " 404 errors (possible scanning)");
        let ghost scans = out@;
        let mut more = report_clients(&failing, ERROR_THRESHOLD, "errors", " server errors");
        let ghost errors = more@;
        out.append(&mut more);
        assert(out@ == scans + errors);
        out
    }

    /// Totals, the busiest endpoints, the slowest requests and the suspicious clients.
    pub fn analyze(&self) -> (r: LogAnalysis)
        ensures
            r.total_requests == self.logs_view().len(),
            r.error_count == error_total(self.logs_view()),
            exists|e: Seq<EndpointCounts>| {
                &&& endpoint_matches(self.logs_view(), e)
                &&& r.top_endpoints@ == first_n(sort_desc(count_keys(e)), TOP_COUNT as int).map_values(
                    |k: (u64, usize)| e[k.1 as int],
                )
            },
            r.slow_requests@ == first_n(sort_desc(slow_keys(self.logs_view())), TOP_COUNT as int).map_values(
                |k: (u64, usize)| self.logs_view()[k.1 as int],
            ),
            exists|scans: Seq<SuspiciousActivity>, errors: Seq<SuspiciousActivity>| {
                &&& r.suspicious_activity@ == scans + errors
                &&& reports_match(
                    scans,
                    reported(not_found_clients(self.logs_view()), SCAN_THRESHOLD as nat),
                    "scan"@,
                    " 404 errors (possible scanning)"@,
                )
                &&& reports_match(
                    errors,
                    reported(server_error_clients(self.logs_view()), ERROR_THRESHOLD as nat),
                    "errors"@,
                    " server errors"@,
                )
            },
    {
        LogAnalysis {
            total_requests: self.logs.len(),
            error_count: self.error_count(),
            top_endpoints: self.top_endpoints(),
            slow_requests: self.slow_requests(),
            suspicious_activity: self.detect_suspicious_activity(),
        }
    }
}

/// Position of the entry for `path`.
fn find_endpoint(entries: &Vec<EndpointCounts>, path: &str) -> (r: Option<usize>)
    ensures
        match r {
            Some(k) => k < entries@.len() && entries@[k as int].path@ == path@ && forall|j: int| 0 <= j < k ==> (
            #[trigger] entries@[j]).path@ != path@,
            None => forall|j: int| 0 <= j < entries@.len() ==> (#[trigger] entries@[j]).path@ != path@,
        },
{
    let key = path.to_string();
    let mut i: usize = 0;
    while i < entries.len()
        invariant
            i <= entries@.len(),
            key@ == path@,
            forall|j: int| 0 <= j < i ==> (#[trigger] entries@[j]).path@ != path@,
        decreases entries@.len() - i,
    {
        if entries[i].path == key {
            return Some(i);
        }
        i += 1;
    }
    None
}

/// The distinct strings hold no string twice, and hold exactly the strings of `s`.
pub proof fn lemma_distinct_members(s: Seq<Seq<char>>)
    ensures
        distinct(s).no_duplicates(),
        forall|x: Seq<char>| distinct(s).contains(x) <==> s.contains(x),
    decreases s.len(),
{
    if s.len() > 0 {
        let init = s.drop_last();
        let d = distinct(init);
        let x = s.last();
        lemma_distinct_members(init);
        assert forall|y: Seq<char>| distinct(s).contains(y) <==> s.contains(y) by {
            if init.contains(y) {
                let k = choose|k: int| 0 <= k < init.len() && init[k] == y;
                assert(s[k] == y);
            }
            if s.contains(y) {
                let k = choose|k: int| 0 <= k < s.len() && s[k] == y;
                if k < s.len() - 1 {
                    assert(init[k] == y);
                }
            }
            if !d.contains(x) {
                if d.push(x).contains(y) {
                    let k = choose|k: int| 0 <= k < d.push(x).len() && d.push(x)[k] == y;
                    if k < d.len() {
                        assert(d[k] == y);
                    }
                }
                if d.contains(y) {
                    let k = choose|k: int| 0 <= k < d.len() && d[k] == y;
                    assert(d.push(x)[k] == y);
                }
                if y == x {
                    assert(d.push(x)[d.len() as int] == y);
                }
            }
        }
    }
}

/// A path never requested has no requests, duration or errors.
proof fn lemma_absent_counts_zero(logs: Seq<RequestLog>, p: Seq<char>)
    requires
        !uris(logs).contains(p),
    ensures
        occurrences(uris(logs), p) == 0,
        path_duration(logs, p) == 0,
        path_errors(logs, p) == 0,
    decreases logs.len(),
{
    if logs.len() > 0 {
        let init = logs.drop_last();
        assert(uris(logs).drop_last() =~= uris(init));
        assert(uris(logs)[logs.len() - 1] == logs.last().uri@);
        assert(!uris(init).contains(p)) by {
            if uris(init).contains(p) {
                let k = choose|k: int| 0 <= k < uris(init).len() && uris(init)[k] == p;
                assert(uris(logs)[k] == p);
            }
        }
        lemma_absent_counts_zero(init, p);
    }
}

/// Counts for a path never exceed the number of records.
proof fn lemma_path_counts_bounded(logs: Seq<RequestLog>, p: Seq<char>)
    ensures
        occurrences(uris(logs), p) <= logs.len(),
        path_errors(logs, p) <= logs.len(),
    decreases logs.len(),
{
    if logs.len() > 0 {
        assert(uris(logs).drop_last() =~= uris(logs.drop_last()));
        lemma_path_counts_bounded(logs.drop_last(), p);
    }
}

/// The request counts of the endpoints as sort keys, each with its position.
pub open spec fn count_keys(e: Seq<EndpointCounts>) -> Seq<(u64, usize)> {
    Seq::new(e.len(), |i: int| (e[i].count as u64, i as usize))
}

impl EndpointCounts {
    /// A copy of the entry.
    pub fn clone_counts(&self) -> (r: EndpointCounts)
        ensures
            r == *self,
    {
        EndpointCounts {
            path: self.path.clone(),
            count: self.count,
            total_duration_ms: self.total_duration_ms,
            error_count: self.error_count,
        }
    }
}

/// The entries ordered by descending key, entries with equal keys in their given order.
pub fn sort_keyed(v: &Vec<(u64, usize)>) -> (r: Vec<(u64, usize)>)
    ensures
        r@ == sort_desc(v@),
{
    let mut sorted: Vec<(u64, usize)> = Vec::new();
    let mut i: usize = 0;
    while i < v.len()
        invariant
            i <= v@.len(),
            sorted@ == sort_desc(v@.subrange(0, i as int)),
        decreases v@.len() - i,
    {
        let ghost pre = v@.subrange(0, i + 1);
        assert(pre.drop_last() =~= v@.subrange(0, i as int));
        let x = v[i];
        let mut j: usize = 0;
        assert(sorted@.subrange(0, sorted@.len() as int) =~= sorted@);
        while j < sorted.len() && sorted[j].0 >= x.0
            invariant
                j <= sorted@.len(),
                keyed_insertion_point(sorted@, x.0) == j + keyed_insertion_point(
                    sorted@.subrange(j as int, sorted@.len() as int),
                    x.0,
                ),
            decreases sorted@.len() - j,
        {
            let ghost rest = sorted@.subrange(j as int, sorted@.len() as int);
            assert(rest.drop_first() =~= sorted@.subrange(j + 1, sorted@.len() as int));
            j += 1;
        }
        proof {
            let rest = sorted@.subrange(j as int, sorted@.len() as int);
            if j < sorted@.len() {
                assert(rest[0] == sorted@[j as int]);
            }
            assert(keyed_insertion_point(rest, x.0) == 0);
        }
        sorted.insert(j, x);
        i += 1;
    }
    assert(v@.subrange(0, v@.len() as int) =~= v@);
    sorted
}

/// The reports for clients seen more than `threshold` times in `clients`, in order of first
/// appearance: kind `kind` and the description "count" followed by `suffix`.
fn report_clients(clients: &Vec<String>, threshold: usize, kind: &str, suffix: &str) -> (r: Vec<SuspiciousActivity>)
    ensures
        reports_match(
            r@,
            reported(crate::deployment::ab_test::string_views(clients@), threshold as nat),
            kind@,
            suffix@,
        ),
{
    let tally = tally_strings(clients);
    let ghost views = crate::deployment::ab_test::string_views(clients@);
    let ghost d = distinct(views);
    let mut out: Vec<SuspiciousActivity> = Vec::new();
    let mut i: usize = 0;
    while i < tally.len()
        invariant
            tally@.len() == d.len(),
            forall|k: int| 0 <= k < tally@.len() ==> (#[trigger] tally@[k]).0@ == d[k] && tally@[k].1 == occurrences(views, d[k]),
            i <= tally@.len(),
            reports_match(out@, flagged(d.subrange(0, i as int), views, threshold as nat), kind@, suffix@),
        decreases tally@.len() - i,
    {
        assert(d.subrange(0, i + 1).drop_last() =~= d.subrange(0, i as int));
        assert(d.subrange(0, i + 1).last() == d[i as int]);
        let count = tally[i].1;
        if count > threshold {
            let description = crate::error::prefixed_message(crate::text::decimal_string(count as u64).as_str(), suffix);
            out.push(
                SuspiciousActivity {
                    ip_address: tally[i].0.clone(),
                    event_type: kind.to_string(),
                    count,
                    description,
                },
            );
        }
        i += 1;
    }
    assert(d.subrange(0, d.len() as int) =~= d);
    out
}

/// Each distinct string of `keys`, in order of first appearance, with how often it occurs.
fn tally_strings(keys: &Vec<String>) -> (r: Vec<(String, usize)>)
    ensures
        r@.len() == distinct(crate::deployment::ab_test::string_views(keys@)).len(),
        forall|k: int| 0 <= k < r@.len() ==> (#[trigger] r@[k]).0@ == distinct(
            crate::deployment::ab_test::string_views(keys@),
        )[k] && r@[k].1 == occurrences(
            crate::deployment::ab_test::string_views(keys@),
            distinct(crate::deployment::ab_test::string_views(keys@))[k],
        ),
{
    let ghost views = crate::deployment::ab_test::string_views(keys@);
    let mut out: Vec<(String, usize)> = Vec::new();
    let mut i: usize = 0;
    while i < keys.len()
        invariant
            views == crate::deployment::ab_test::string_views(keys@),
            i <= keys@.len(),
            out@.len() == distinct(views.subrange(0, i as int)).len(),
            forall|k: int| 0 <= k < out@.len() ==> (#[trigger] out@[k]).0@ == distinct(views.subrange(0, i as int))[k]
                && out@[k].1 == occurrences(views.subrange(0, i as int), distinct(views.subrange(0, i as int))[k]),
            forall|k: int| 0 <= k < out@.len() ==> (#[trigger] out@[k]).1 <= i,
        decreases keys@.len() - i,
    {
        let ghost pre = views.subrange(0, i as int);
        let ghost next = views.subrange(0, i + 1);
        assert(next.drop_last() =~= pre);
        assert(next.last() == keys@[i as int]@);
        let ghost d = distinct(pre);
        let ghost x = keys@[i as int]@;
        proof {
            lemma_distinct_members(pre);
        }
        let found = find_key(&out, &keys[i]);
        if let Some(k) = found {
            assert(out@[k as int].0@ == x);
            assert(d[k as int] == x);
            assert(d.contains(x));
            assert(distinct(next) == d);
            let entry = (out[k].0.clone(), out[k].1 + 1);
            out.set(k, entry);
            assert forall|j: int| 0 <= j < out@.len() implies (#[trigger] out@[j]).0@ == distinct(next)[j] && out@[j].1
                == occurrences(next, distinct(next)[j]) by {
                if j != k {
                    assert(d[j] != d[k as int]);
                }
            }
        } else {
            assert(!d.contains(x)) by {
                if d.contains(x) {
                    let j = choose|j: int| 0 <= j < d.len() && d[j] == x;
                    assert(out@[j].0@ == d[j]);
                }
            }
            assert(!pre.contains(x));
            proof {
                lemma_absent_occurrences(pre, x);
            }
            out.push((keys[i].clone(), 1));
            assert(distinct(next) == d.push(x));
            assert forall|j: int| 0 <= j < out@.len() implies (#[trigger] out@[j]).0@ == distinct(next)[j] && out@[j].1
                == occurrences(next, distinct(next)[j]) by {
                if j < d.len() {
                    assert(d[j] != x) by {
                        assert(d.contains(d[j]));
                    }
                }
            }
        }
        i += 1;
    }
    assert(views.subrange(0, keys@.len() as int) =~= views);
    out
}

/// Position of the entry for `key`.
fn find_key(entries: &Vec<(String, usize)>, key: &String) -> (r: Option<usize>)
    ensures
        match r {
            Some(k) => k < entries@.len() && entries@[k as int].0@ == key@,
            None => forall|j: int| 0 <= j < entries@.len() ==> (#[trigger] entries@[j]).0@ != key@,
        },
{
    let mut i: usize = 0;
    while i < entries.len()
        invariant
            i <= entries@.len(),
            forall|j: int| 0 <= j < i ==> (#[trigger] entries@[j]).0@ != key@,
        decreases entries@.len() - i,
    {
        if entries[i].0 == *key {
            return Some(i);
        }
        i += 1;
    }
    None
}

/// A string absent from `s` never occurs in it.
proof fn lemma_absent_occurrences(s: Seq<Seq<char>>, x: Seq<char>)
    requires
        !s.contains(x),
    ensures
        occurrences(s, x) == 0,
    decreases s.len(),
{
    if s.len() > 0 {
        assert(!s.drop_last().contains(x)) by {
            if s.drop_last().contains(x) {
                let k = choose|k: int| 0 <= k < s.drop_last().len() && s.drop_last()[k] == x;
                assert(s[k] == x);
            }
        }
        assert(s[s.len() - 1] == s.last());
        lemma_absent_occurrences(s.drop_last(), x);
    }
}

/// The slow keys name positions within the records.
proof fn lemma_slow_keys_positions(logs: Seq<RequestLog>)
    requires
        logs.len() <= usize::MAX,
    ensures
        forall|k: int| 0 <= k < slow_keys(logs).len() ==> (#[trigger] slow_keys(logs)[k]).1 < logs.len(),
    decreases logs.len(),
{
    if logs.len() > 0 {
        let init = logs.drop_last();
        lemma_slow_keys_positions(init);
        let rest = slow_keys(init);
        assert forall|k: int| 0 <= k < slow_keys(logs).len() implies (#[trigger] slow_keys(logs)[k]).1 < logs.len() by {
            if k < rest.len() {
                assert(slow_keys(logs)[k] == rest[k]);
            }
        }
    }
}

/// Sorting keeps the entries: the sorted sequence has the same length and holds exactly
/// the entries of the original.
pub proof fn lemma_sort_desc_members(s: Seq<(u64, usize)>)
    ensures
        sort_desc(s).len() == s.len(),
        forall|x: (u64, usize)| sort_desc(s).contains(x) <==> s.contains(x),
        forall|j: int| 0 <= j < sort_desc(s).len() ==> s.contains(#[trigger] sort_desc(s)[j]),
    decreases s.len(),
{
    if s.len() > 0 {
        let init = s.drop_last();
        let sorted = sort_desc(init);
        lemma_sort_desc_members(init);
        lemma_keyed_insertion_point(sorted, s.last().0);
        let p = keyed_insertion_point(sorted, s.last().0);
        let out = sorted.insert(p, s.last());
        assert forall|x: (u64, usize)| out.contains(x) <==> s.contains(x) by {
            if out.contains(x) {
                let k = choose|k: int| 0 <= k < out.len() && out[k] == x;
                if k < p {
                    assert(sorted[k] == x);
                    assert(sorted.contains(x));
                    let m = choose|m: int| 0 <= m < init.len() && init[m] == x;
                    assert(s[m] == x);
                } else if k == p {
                    assert(s[s.len() - 1] == x);
                } else {
                    assert(sorted[k - 1] == x);
                    assert(sorted.contains(x));
                    let m = choose|m: int| 0 <= m < init.len() && init[m] == x;
                    assert(s[m] == x);
                }
            }
            if s.contains(x) {
                let k = choose|k: int| 0 <= k < s.len() && s[k] == x;
                if k < s.len() - 1 {
                    assert(init[k] == x);
                    assert(init.contains(x));
                    let m = choose|m: int| 0 <= m < sorted.len() && sorted[m] == x;
                    if m < p {
                        assert(out[m] == x);
                    } else {
                        assert(out[m + 1] == x);
                    }
                } else {
                    assert(out[p] == x);
                }
            }
        }
        assert forall|j: int| 0 <= j < out.len() implies s.contains(#[trigger] out[j]) by {
            assert(out.contains(out[j]));
        }
    }
}

/// The insertion point lies within the sorted entries, after every entry with a key at
/// least `k` and before every entry with a smaller key.
proof fn lemma_keyed_insertion_point(sorted: Seq<(u64, usize)>, k: u64)
    ensures
        0 <= keyed_insertion_point(sorted, k) <= sorted.len(),
        forall|j: int| 0 <= j < keyed_insertion_point(sorted, k) ==> sorted[j].0 >= k,
        keyed_insertion_point(sorted, k) < sorted.len() ==> sorted[keyed_insertion_point(sorted, k)].0 < k,
    decreases sorted.len(),
{
    if sorted.len() > 0 && sorted[0].0 >= k {
        lemma_keyed_insertion_point(sorted.drop_first(), k);
        assert forall|j: int| 0 <= j < keyed_insertion_point(sorted, k) implies sorted[j].0 >= k by {
            if j > 0 {
                assert(sorted.drop_first()[j - 1] == sorted[j]);
            }
        }
    }
}

/// Sorting leaves the keys descending.
pub proof fn lemma_sort_desc_descends(s: Seq<(u64, usize)>)
    ensures
        keys_descend(sort_desc(s)),
    decreases s.len(),
{
    if s.len() > 0 {
        let sorted = sort_desc(s.drop_last());
        lemma_sort_desc_descends(s.drop_last());
        let k = s.last().0;
        lemma_keyed_insertion_point(sorted, k);
        let p = keyed_insertion_point(sorted, k);
        let out = sorted.insert(p, s.last());
        assert forall|i: int, j: int| 0 <= i < j < out.len() implies out[i].0 >= out[j].0 by {
            if j < p {
            } else if j == p {
                assert(out[i] == sorted[i]);
            } else if i < p {
                assert(out[i] == sorted[i]);
                assert(out[j] == sorted[j - 1]);
                if p < sorted.len() {
                    assert(sorted[i].0 >= sorted[j - 1].0);
                }
            } else if i == p {
                assert(out[j] == sorted[j - 1]);
                assert(sorted[p].0 >= sorted[j - 1].0);
            } else {
                assert(out[i] == sorted[i - 1]);
                assert(out[j] == sorted[j - 1]);
            }
        }
    }
}

} // verus!
