//! A/B tests: per-variant counters of requests, successes, failures, conversions and a
//! running average of response times.
use vstd::prelude::*;
use crate::config::{AbTestConfig, VariantConfig};
use crate::error::ParseError;
use crate::text::first_index_of;

verus! {

/// One more than `u64::MAX`: the counters below count modulo this.
pub const COUNTER_RANGE: u128 = 0x1_0000_0000_0000_0000;

/// The counters kept for one variant. Every counter wraps around past `u64::MAX`.
#[derive(Debug, Clone, Copy)]
pub struct VariantCounts {
    pub total_requests: u64,
    pub successful_requests: u64,
    pub failed_requests: u64,
    pub avg_response_time_ms: u64,
    pub conversions: u64,
}

/// The running average after a response of `response_time_ms`, when `total` requests
/// (this one included) have been seen: the old average stands for the `total - 1` earlier
/// requests.
pub open spec fn next_average(avg: u64, total: u64, response_time_ms: u64) -> int {
    (avg * (total - 1) + response_time_ms) / (total as int)
}

impl VariantCounts {
    /// All counters at zero.
    pub open spec fn zero() -> VariantCounts {
        VariantCounts {
            total_requests: 0,
            successful_requests: 0,
            failed_requests: 0,
            avg_response_time_ms: 0,
            conversions: 0,
        }
    }

    /// The counters after one more request. The request count advances (wrapping); a
    /// success advances the success count, and the conversion count too when conversions
    /// are tracked; a failure advances the failure count. Unless the request count wrapped
    /// to zero, the average takes in the new response time.
    pub open spec fn recorded(self, success: bool, response_time_ms: u64, track_conversion: bool) -> VariantCounts {
        let total = self.total_requests.wrapping_add(1);
        VariantCounts {
            total_requests: total,
            successful_requests: if success {
                self.successful_requests.wrapping_add(1)
            } else {
                self.successful_requests
            },
            failed_requests: if success {
                self.failed_requests
            } else {
                self.failed_requests.wrapping_add(1)
            },
            avg_response_time_ms: if total > 0 {
                next_average(self.avg_response_time_ms, total, response_time_ms) as u64
            } else {
                self.avg_response_time_ms
            },
            conversions: if track_conversion && success {
                self.conversions.wrapping_add(1)
            } else {
                self.conversions
            },
        }
    }

    /// Every request counted is either a success or a failure (counting modulo
    /// `COUNTER_RANGE`).
    pub open spec fn consistent(self) -> bool {
        (self.successful_requests + self.failed_requests) % (COUNTER_RANGE as int) == self.total_requests
    }

    /// All counters at zero.
    pub fn new() -> (r: VariantCounts)
        ensures
            r == VariantCounts::zero(),
    {
        VariantCounts {
            total_requests: 0,
            successful_requests: 0,
            failed_requests: 0,
            avg_response_time_ms: 0,
            conversions: 0,
        }
    }

    /// Counts one more request.
    pub fn record(&mut self, success: bool, response_time_ms: u64, track_conversion: bool)
        ensures
            *final(self) == old(self).recorded(success, response_time_ms, track_conversion),
    {
        let total = self.total_requests.wrapping_add(1);
        self.total_requests = total;
        if success {
            self.successful_requests = self.successful_requests.wrapping_add(1);
        } else {
            self.failed_requests = self.failed_requests.wrapping_add(1);
        }
        if total > 0 {
            let avg = self.avg_response_time_ms;
            proof {
                lemma_next_average_between(avg, total, response_time_ms);
                lemma_product_fits(avg, (total - 1) as u64);
            }
            let weighted: u128 = (avg as u128) * ((total - 1) as u128);
            let new_avg: u128 = (weighted + response_time_ms as u128) / (total as u128);
            self.avg_response_time_ms = new_avg as u64;
        }
        if track_conversion && success {
            self.conversions = self.conversions.wrapping_add(1);
        }
    }

    /// Sets every counter back to zero.
    pub fn reset(&mut self)
        ensures
            *final(self) == VariantCounts::zero(),
    {
        *self = VariantCounts::new();
    }
}

/// The names of the variants, each once, in the order they first appear.
pub open spec fn distinct_names(vs: Seq<VariantConfig>) -> Seq<Seq<char>>
    decreases vs.len(),
{
    if vs.len() == 0 {
        Seq::empty()
    } else {
        let d = distinct_names(vs.drop_last());
        if d.contains(vs.last().name@) {
            d
        } else {
            d.push(vs.last().name@)
        }
    }
}

/// The views of some strings.
pub open spec fn string_views(v: Seq<String>) -> Seq<Seq<char>> {
    v.map_values(|s: String| s@)
}

/// What an A/B test manager holds: its variants, its settings, the names counters are kept
/// for and the counters. Everything it answers is read from these.
pub type AbState = (Seq<VariantConfig>, AbTestConfig, Seq<Seq<char>>, Seq<VariantCounts>);

/// The state of a test just made over `variants` with `config`: one zero counter per
/// distinct name.
pub open spec fn fresh_state(variants: Seq<VariantConfig>, config: AbTestConfig) -> AbState {
    let names = distinct_names(variants);
    (variants, config, names, Seq::new(names.len(), |i: int| VariantCounts::zero()))
}

/// The state after a request answered by `name` is counted (a name without counters is
/// ignored).
pub open spec fn recorded_state(st: AbState, name: Seq<char>, success: bool, response_time_ms: u64) -> AbState {
    (
        st.0,
        st.1,
        st.2,
        match first_index_of(st.2, name) {
            Some(k) => st.3.update(k, st.3[k].recorded(success, response_time_ms, st.1.track_conversion)),
            None => st.3,
        },
    )
}

/// The state after counting each request of `requests` (name, success, response time) in
/// turn.
pub open spec fn record_run(st: AbState, requests: Seq<(Seq<char>, bool, u64)>) -> AbState
    decreases requests.len(),
{
    if requests.len() == 0 {
        st
    } else {
        let r = requests.last();
        recorded_state(record_run(st, requests.drop_last()), r.0, r.1, r.2)
    }
}

/// The state after a reset: every counter back to zero, the rest kept.
pub open spec fn reset_state(st: AbState) -> AbState {
    (st.0, st.1, st.2, Seq::new(st.3.len(), |i: int| VariantCounts::zero()))
}

/// Tracks each variant of an A/B test.
pub struct AbTestManager {
    variants: Vec<VariantConfig>,
    config: AbTestConfig,
    names: Vec<String>,
    counts: Vec<VariantCounts>,
}

impl AbTestManager {
    /// The variants under test.
    pub closed spec fn variants_view(&self) -> Seq<VariantConfig> {
        self.variants@
    }

    /// The test's settings.
    pub closed spec fn config_view(&self) -> AbTestConfig {
        self.config
    }

    /// The names counters are kept for, each once.
    pub closed spec fn names_view(&self) -> Seq<Seq<char>> {
        string_views(self.names@)
    }

    /// The counters, in the order of `names_view`.
    pub closed spec fn counts_view(&self) -> Seq<VariantCounts> {
        self.counts@
    }

    /// Everything the manager holds.
    pub open spec fn state(&self) -> AbState {
        (self.variants_view(), self.config_view(), self.names_view(), self.counts_view())
    }

    /// One set of counters per distinct variant name, in order of first appearance, each
    /// counting every request as a success or a failure.
    pub closed spec fn wf(&self) -> bool {
        &&& string_views(self.names@) == distinct_names(self.variants@)
        &&& self.counts@.len() == self.names@.len()
        &&& forall|i: int| 0 <= i < self.counts@.len() ==> (#[trigger] self.counts@[i]).consistent()
    }

    /// A test over `variants`, every counter at zero. It never fails.
    pub fn new(variants: Vec<VariantConfig>, config: AbTestConfig) -> (r: Result<AbTestManager, ParseError>)
        ensures
            r matches Ok(m) && {
                &&& m.wf()
                &&& m.variants_view() == variants@
                &&& m.config_view() == config
                &&& m.names_view() == distinct_names(variants@)
                &&& m.counts_view().len() == m.names_view().len()
                &&& forall|i: int| 0 <= i < m.counts_view().len() ==> #[trigger] m.counts_view()[i]
                    == VariantCounts::zero()
                &&& m.state() == fresh_state(variants@, config)
            },
    {
        let mut names: Vec<String> = Vec::new();
        let mut counts: Vec<VariantCounts> = Vec::new();
        let mut i: usize = 0;
        while i < variants.len()
            invariant
                i <= variants@.len(),
                string_views(names@) == distinct_names(variants@.subrange(0, i as int)),
                counts@.len() == names@.len(),
                forall|j: int| 0 <= j < counts@.len() ==> #[trigger] counts@[j] == VariantCounts::zero(),
            decreases variants@.len() - i,
        {
            let ghost prefix = variants@.subrange(0, i + 1);
            assert(prefix.drop_last() =~= variants@.subrange(0, i as int));
            assert(prefix.last() == variants@[i as int]);
            let ghost d = string_views(names@);
            let ghost name = variants@[i as int].name@;
            proof {
                crate::text::lemma_first_index_of_bounds(d, name);
            }
            match find_name(&names, variants[i].name.as_str()) {
                Some(k) => {
                    assert(d[k as int] == name);
                    assert(d.contains(name));
                },
                None => {
                    assert(!d.contains(name));
                    let ghost old_names = names@;
                    names.push(variants[i].name.clone());
                    counts.push(VariantCounts::new());
                    assert(string_views(names@) =~= d.push(name)) by {
                        assert(names@ == old_names.push(names@.last()));
                    }
                },
            }
            i += 1;
        }
        assert(variants@.subrange(0, variants@.len() as int) =~= variants@);
        let m = AbTestManager { variants, config, names, counts };
        assert(m.counts_view() =~= fresh_state(m.variants_view(), config).3);
        Ok(m)
    }

    /// Counts a request answered by `variant_name`: its request count advances, its
    /// success or failure count, its conversion count on a success when conversions are
    /// tracked, and its average response time takes in `response_time_ms`. A name no
    /// variant has is ignored.
    pub fn record_request(&mut self, variant_name: &str, success: bool, response_time_ms: u64)
        requires
            old(self).wf(),
        ensures
            final(self).wf(),
            final(self).variants_view() == old(self).variants_view(),
            final(self).config_view() == old(self).config_view(),
            final(self).names_view() == old(self).names_view(),
            final(self).counts_view() == match first_index_of(old(self).names_view(), variant_name@) {
                Some(k) => old(self).counts_view().update(
                    k,
                    old(self).counts_view()[k].recorded(success, response_time_ms, old(self).config_view().track_conversion),
                ),
                None => old(self).counts_view(),
            },
            final(self).state() == recorded_state(old(self).state(), variant_name@, success, response_time_ms),
    {
        match find_name(&self.names, variant_name) {
            Some(k) => {
                let mut c = self.counts[k];
                proof {
                    lemma_recorded_consistent(c, success, response_time_ms, self.config.track_conversion);
                }
                c.record(success, response_time_ms, self.config.track_conversion);
                self.counts.set(k, c);
            },
            None => {},
        }
    }

    /// Whether every variant has seen at least the configured number of requests.
    pub fn has_sufficient_data(&self) -> (r: bool)
        ensures
            r == forall|i: int| 0 <= i < self.counts_view().len() ==>
                (#[trigger] self.counts_view()[i]).total_requests >= self.config_view().min_requests_per_variant,
    {
        let mut i: usize = 0;
        while i < self.counts.len()
            invariant
                i <= self.counts@.len(),
                forall|j: int| 0 <= j < i ==> (#[trigger] self.counts@[j]).total_requests
                    >= self.config.min_requests_per_variant,
            decreases self.counts@.len() - i,
        {
            if self.counts[i].total_requests < self.config.min_requests_per_variant {
                assert(!(self.counts_view()[i as int].total_requests >= self.config_view().min_requests_per_variant));
                return false;
            }
            i += 1;
        }
        true
    }

    /// Sets every counter back to zero.
    pub fn reset(&mut self)
        requires
            old(self).wf(),
        ensures
            final(self).wf(),
            final(self).variants_view() == old(self).variants_view(),
            final(self).config_view() == old(self).config_view(),
            final(self).names_view() == old(self).names_view(),
            final(self).counts_view().len() == old(self).counts_view().len(),
            forall|i: int| 0 <= i < final(self).counts_view().len() ==> #[trigger] final(self).counts_view()[i]
                == VariantCounts::zero(),
            final(self).state() == reset_state(old(self).state()),
    {
        let n = self.counts.len();
        let ghost names = self.names@;
        let ghost variants = self.variants@;
        let ghost config = self.config;
        let mut i: usize = 0;
        while i < n
            invariant
                n == self.counts@.len(),
                i <= n,
                self.names@ == names,
                self.variants@ == variants,
                self.config == config,
                forall|j: int| 0 <= j < i ==> #[trigger] self.counts@[j] == VariantCounts::zero(),
            decreases n - i,
        {
            self.counts.set(i, VariantCounts::new());
            i += 1;
        }
        assert(self.counts_view() =~= reset_state(old(self).state()).3);
    }

    /// The names counters are kept for, in order.
    pub fn names(&self) -> (r: &Vec<String>)
        ensures
            string_views(r@) == self.names_view(),
    {
        &self.names
    }

    /// The counters, in the order of `names`.
    pub fn counts(&self) -> (r: &Vec<VariantCounts>)
        ensures
            r@ == self.counts_view(),
    {
        &self.counts
    }

    /// The test's settings.
    pub fn config(&self) -> (r: AbTestConfig)
        ensures
            r == self.config_view(),
    {
        self.config
    }
}

/// Position of `name` among `names`.
pub fn find_name(names: &Vec<String>, name: &str) -> (r: Option<usize>)
    ensures
        match r {
            Some(k) => first_index_of(string_views(names@), name@) == Some(k as int) && k < names@.len(),
            None => first_index_of(string_views(names@), name@) is None,
        },
{
    let ghost views = string_views(names@);
    let key = name.to_string();
    let mut i: usize = 0;
    assert(views.subrange(0, views.len() as int) =~= views);
    while i < names.len()
        invariant
            views == string_views(names@),
            i <= names@.len(),
            key@ == name@,
            first_index_of(views, name@) == match first_index_of(views.subrange(i as int, views.len() as int), name@) {
                Some(k) => Some(k + i),
                None => None,
            },
        decreases names@.len() - i,
    {
        let ghost rest = views.subrange(i as int, views.len() as int);
        assert(rest.drop_first() =~= views.subrange(i + 1, views.len() as int));
        assert(rest[0] == names@[i as int]@);
        if names[i] == key {
            return Some(i);
        }
        i += 1;
    }
    None
}

/// The distinct names hold no name twice, and hold exactly the variants' names.
pub proof fn lemma_distinct_names(vs: Seq<VariantConfig>)
    ensures
        distinct_names(vs).no_duplicates(),
        forall|n: Seq<char>| distinct_names(vs).contains(n) <==> exists|i: int| 0 <= i < vs.len() && #[trigger] vs[i].name@ == n,
    decreases vs.len(),
{
    if vs.len() > 0 {
        let init = vs.drop_last();
        let d = distinct_names(init);
        let x = vs.last().name@;
        lemma_distinct_names(init);
        if !d.contains(x) {
            assert forall|n: Seq<char>| d.push(x).contains(n) <==> (d.contains(n) || n == x) by {
                if d.push(x).contains(n) {
                    let k = choose|k: int| 0 <= k < d.push(x).len() && d.push(x)[k] == n;
                    if k < d.len() {
                        assert(d[k] == n);
                    }
                }
                if d.contains(n) {
                    let k = choose|k: int| 0 <= k < d.len() && d[k] == n;
                    assert(d.push(x)[k] == n);
                }
                if n == x {
                    assert(d.push(x)[d.len() as int] == n);
                }
            }
        }
        assert(distinct_names(vs) == if d.contains(x) { d } else { d.push(x) });
        assert forall|n: Seq<char>| distinct_names(vs).contains(n) <==> exists|i: int| 0 <= i < vs.len() && #[trigger] vs[i].name@ == n by {
            let in_vs = exists|i: int| 0 <= i < vs.len() && #[trigger] vs[i].name@ == n;
            let in_init = exists|i: int| 0 <= i < init.len() && #[trigger] init[i].name@ == n;
            assert(d.contains(n) == in_init);
            if in_init {
                let i = choose|i: int| 0 <= i < init.len() && #[trigger] init[i].name@ == n;
                assert(vs[i].name@ == n);
            }
            if in_vs {
                let i = choose|i: int| 0 <= i < vs.len() && #[trigger] vs[i].name@ == n;
                if i < vs.len() - 1 {
                    assert(init[i].name@ == n);
                } else {
                    assert(n == x);
                }
            }
            if n == x {
                assert(vs[vs.len() - 1].name@ == n);
            }
        }
    }
}

/// `a * b` fits in a `u128` when both fit in a `u64`.
proof fn lemma_product_fits(a: u64, b: u64)
    ensures
        (a as int) * (b as int) + (u64::MAX as int) <= u128::MAX,
{
    assert((a as int) * (b as int) <= (u64::MAX as int) * (u64::MAX as int)) by (nonlinear_arith)
        requires
            a <= u64::MAX,
            b <= u64::MAX,
    ;
}

/// The running average never leaves the range between the old average and the new
/// response time.
pub proof fn lemma_next_average_between(avg: u64, total: u64, response_time_ms: u64)
    requires
        total > 0,
    ensures
        next_average(avg, total, response_time_ms) <= if avg >= response_time_ms { avg } else { response_time_ms },
        next_average(avg, total, response_time_ms) >= if avg <= response_time_ms { avg } else { response_time_ms },
{
    let t = total as int;
    let hi: int = if avg >= response_time_ms { avg as int } else { response_time_ms as int };
    let lo: int = if avg <= response_time_ms { avg as int } else { response_time_ms as int };
    let x = avg * (t - 1) + response_time_ms;
    assert(x <= hi * t) by (nonlinear_arith)
        requires
            x == avg * (t - 1) + response_time_ms,
            avg <= hi,
            response_time_ms <= hi,
            t >= 1,
    ;
    assert(x >= lo * t) by (nonlinear_arith)
        requires
            x == avg * (t - 1) + response_time_ms,
            avg >= lo,
            response_time_ms >= lo,
            lo >= 0,
            t >= 1,
    ;
    vstd::arithmetic::div_mod::lemma_div_is_ordered(x, hi * t, t);
    vstd::arithmetic::div_mod::lemma_div_is_ordered(lo * t, x, t);
    vstd::arithmetic::div_mod::lemma_div_by_multiple(hi, t);
    vstd::arithmetic::div_mod::lemma_div_by_multiple(lo, t);
}

/// Counting a request keeps every counted request a success or a failure.
pub proof fn lemma_recorded_consistent(c: VariantCounts, success: bool, response_time_ms: u64, track_conversion: bool)
    requires
        c.consistent(),
    ensures
        c.recorded(success, response_time_ms, track_conversion).consistent(),
{
    let r = COUNTER_RANGE as int;
    let s = c.successful_requests as int;
    let f = c.failed_requests as int;
    let t = c.total_requests as int;
    let n = c.recorded(success, response_time_ms, track_conversion);
    vstd::arithmetic::div_mod::lemma_small_mod(1, r as nat);
    vstd::arithmetic::div_mod::lemma_add_mod_noop(s + f, 1, r);
    assert((s + f + 1) % r == (t + 1) % r);
    if t + 1 < r {
        vstd::arithmetic::div_mod::lemma_small_mod((t + 1) as nat, r as nat);
    } else {
        vstd::arithmetic::div_mod::lemma_mod_self_0(r);
    }
    assert((s + f + 1) % r == n.total_requests);
    if n.successful_requests + n.failed_requests != s + f + 1 {
        assert(n.successful_requests + n.failed_requests == s + f + 1 - r);
        vstd::arithmetic::div_mod::lemma_mod_add_multiples_vanish(s + f + 1 - r, r);
    }
}

/// With one counter per name, counting requests changes only the counters, never their
/// number.
proof fn lemma_record_run_keeps_shape(st: AbState, requests: Seq<(Seq<char>, bool, u64)>)
    requires
        st.3.len() == st.2.len(),
    ensures
        record_run(st, requests).0 == st.0,
        record_run(st, requests).1 == st.1,
        record_run(st, requests).2 == st.2,
        record_run(st, requests).3.len() == st.3.len(),
    decreases requests.len(),
{
    if requests.len() > 0 {
        lemma_record_run_keeps_shape(st, requests.drop_last());
        crate::text::lemma_first_index_of_bounds(st.2, requests.last().0);
    }
}

/// Reset law: a test made over `variants` with `config` that then counts any requests and
/// is reset is in the state of a test just made over the same variants and settings (given
/// one counter per distinct name, as `new` makes), so every later series of requests leaves
/// it as it leaves a fresh test.
pub proof fn lemma_reset_behaves_as_new(
    variants: Seq<VariantConfig>,
    config: AbTestConfig,
    requests: Seq<(Seq<char>, bool, u64)>,
    later: Seq<(Seq<char>, bool, u64)>,
)
    ensures
        reset_state(record_run(fresh_state(variants, config), requests)) == fresh_state(variants, config),
        record_run(reset_state(record_run(fresh_state(variants, config), requests)), later) == record_run(
            fresh_state(variants, config),
            later,
        ),
{
    let fresh = fresh_state(variants, config);
    lemma_record_run_keeps_shape(fresh, requests);
    assert(reset_state(record_run(fresh, requests)).3 =~= fresh.3);
    assert(reset_state(record_run(fresh, requests)) == fresh);
}

} // verus!
