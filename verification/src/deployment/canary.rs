//! Canary releases: a stable and a canary variant, the canary's share raised step by step
//! while it behaves and cut to nothing when it does not.
use vstd::prelude::*;
use crate::config::{CanaryConfig, VariantConfig};
use crate::deployment::ab_test::{distinct_names, find_name, lemma_distinct_names, string_views};
use crate::error::ParseError;
use crate::text::{first_index_of, seq_contains_seq, str_contains};

verus! {

/// The stages of a canary release.
#[derive(Debug, Clone, Copy, PartialEq, Eq, Structural)]
pub enum CanaryPhase {
    Initial,
    Phase5,
    Phase25,
    Phase50,
    Completed,
    RolledBack,
}

/// The phase after a promotion: one step on, up to `Completed`; `Completed` and
/// `RolledBack` stay as they are.
pub open spec fn promoted_phase(p: CanaryPhase) -> CanaryPhase {
    match p {
        CanaryPhase::Initial => CanaryPhase::Phase5,
        CanaryPhase::Phase5 => CanaryPhase::Phase25,
        CanaryPhase::Phase25 => CanaryPhase::Phase50,
        CanaryPhase::Phase50 => CanaryPhase::Completed,
        CanaryPhase::Completed => CanaryPhase::Completed,
        CanaryPhase::RolledBack => CanaryPhase::RolledBack,
    }
}

/// The stable and canary weights a promotion into `p` sets.
pub open spec fn phase_weights(p: CanaryPhase) -> (u32, u32) {
    match p {
        CanaryPhase::Phase5 => (95, 5),
        CanaryPhase::Phase25 => (75, 25),
        CanaryPhase::Phase50 => (50, 50),
        CanaryPhase::Completed => (0, 100),
        _ => (100, 0),
    }
}

/// Whether a promotion from `p` moves to another phase.
pub open spec fn promotable(p: CanaryPhase) -> bool {
    p != CanaryPhase::Completed && p != CanaryPhase::RolledBack
}

impl CanaryPhase {
    /// The phase's name.
    pub fn name(&self) -> (r: &'static str)
        ensures
            r@ == match *self {
                CanaryPhase::Initial => "Initial"@,
                CanaryPhase::Phase5 => "Phase5"@,
                CanaryPhase::Phase25 => "Phase25"@,
                CanaryPhase::Phase50 => "Phase50"@,
                CanaryPhase::Completed => "Completed"@,
                CanaryPhase::RolledBack => "RolledBack"@,
            },
    {
        match self {
            CanaryPhase::Initial => "Initial",
            CanaryPhase::Phase5 => "Phase5",
            CanaryPhase::Phase25 => "Phase25",
            CanaryPhase::Phase50 => "Phase50",
            CanaryPhase::Completed => "Completed",
            CanaryPhase::RolledBack => "RolledBack",
        }
    }
}

/// How the canary's error rate compares with the highest rate tolerated.
#[derive(Debug, Clone, Copy, PartialEq, Eq, Structural)]
pub enum ErrorRateCheck {
    /// The rate is above the limit.
    Above,
    /// The rate is at or below the limit.
    Within,
    /// The two do not compare (the limit is not a number).
    Unordered,
}

/// What a check of the canary did.
#[derive(Debug, Clone, Copy, PartialEq, Eq, Structural)]
pub enum CanaryAction {
    /// The phase has not been observed long enough yet.
    Waiting,
    /// The canary was rolled back.
    RolledBack,
    /// The canary was promoted and the counters reset; a new phase begins.
    Promoted,
    /// Nothing was decided.
    Unchanged,
}

/// The counters kept for one variant of a canary release. Every counter wraps around past
/// `u64::MAX`.
#[derive(Debug, Clone, Copy)]
pub struct CanaryCounts {
    pub total_requests: u64,
    pub failed_requests: u64,
    pub total_response_time_ms: u64,
}

impl CanaryCounts {
    /// All counters at zero.
    pub open spec fn zero() -> CanaryCounts {
        CanaryCounts { total_requests: 0, failed_requests: 0, total_response_time_ms: 0 }
    }

    /// The counters after one more request: the request count advances, the failure count
    /// on a failure, and the response time is added to the total.
    pub open spec fn recorded(self, success: bool, response_time_ms: u64) -> CanaryCounts {
        CanaryCounts {
            total_requests: self.total_requests.wrapping_add(1),
            failed_requests: if success {
                self.failed_requests
            } else {
                self.failed_requests.wrapping_add(1)
            },
            total_response_time_ms: self.total_response_time_ms.wrapping_add(response_time_ms),
        }
    }

    /// The mean response time, rounded down; 0 before any request.
    pub open spec fn average(self) -> u64 {
        if self.total_requests > 0 {
            self.total_response_time_ms / self.total_requests
        } else {
            0
        }
    }

    /// All counters at zero.
    pub fn new() -> (r: CanaryCounts)
        ensures
            r == CanaryCounts::zero(),
    {
        CanaryCounts { total_requests: 0, failed_requests: 0, total_response_time_ms: 0 }
    }

    /// Counts one more request.
    pub fn record(&mut self, success: bool, response_time_ms: u64)
        ensures
            *final(self) == old(self).recorded(success, response_time_ms),
    {
        self.total_requests = self.total_requests.wrapping_add(1);
        if !success {
            self.failed_requests = self.failed_requests.wrapping_add(1);
        }
        self.total_response_time_ms = self.total_response_time_ms.wrapping_add(response_time_ms);
    }

    /// The mean response time, rounded down; 0 before any request.
    pub fn avg_response_time_ms(&self) -> (r: u64)
        ensures
            r == self.average(),
    {
        if self.total_requests > 0 {
            self.total_response_time_ms / self.total_requests
        } else {
            0
        }
    }
}

/// A name marks the canary when it contains `canary` or `new`.
pub open spec fn is_canary_name(name: Seq<char>) -> bool {
    seq_contains_seq(name, "canary"@) || seq_contains_seq(name, "new"@)
}

/// Whether `name` marks the canary variant.
pub fn canary_name(name: &str) -> (r: bool)
    ensures
        r == is_canary_name(name@),
{
    str_contains(name, "canary") || str_contains(name, "new")
}

/// Index of the first canary variant.
pub open spec fn canary_variant(vs: Seq<VariantConfig>) -> Option<int>
    decreases vs.len(),
{
    if vs.len() == 0 {
        None
    } else if is_canary_name(vs[0].name@) {
        Some(0)
    } else {
        match canary_variant(vs.drop_first()) {
            Some(i) => Some(i + 1),
            None => None,
        }
    }
}

/// The variants with their weights set: canary variants get `canary`, the others `stable`.
pub open spec fn reweighted(vs: Seq<VariantConfig>, stable: u32, canary: u32) -> Seq<VariantConfig> {
    Seq::new(
        vs.len(),
        |i: int|
            VariantConfig {
                name: vs[i].name,
                weight: if is_canary_name(vs[i].name@) {
                    canary
                } else {
                    stable
                },
                upstream: vs[i].upstream,
                metrics_tracking: vs[i].metrics_tracking,
            },
    )
}

/// Whether the canary must be rolled back: it has seen enough requests, and either its
/// error rate is above the limit or its mean response time is above the configured one.
pub open spec fn rollback_due(config: CanaryConfig, c: CanaryCounts, rate: ErrorRateCheck) -> bool {
    &&& c.total_requests >= config.min_requests_before_decision
    &&& (rate == ErrorRateCheck::Above || (config.max_response_time_ms matches Some(m) && c.average() > m))
}

/// Whether the canary may be promoted: it has seen enough requests and its error rate is
/// within the limit.
pub open spec fn promotion_due(config: CanaryConfig, c: CanaryCounts, rate: ErrorRateCheck) -> bool {
    c.total_requests >= config.min_requests_before_decision && rate == ErrorRateCheck::Within
}

/// The outcome of a canary check, from the release `before` to the release `after` with
/// result `r`: waiting while the phase is younger than the observation period; an error
/// without a canary variant; otherwise a rollback, a promotion or nothing, as the canary's
/// counters and error rate call for.
pub open spec fn checked(
    before: CanaryDeploymentManager,
    after: CanaryDeploymentManager,
    elapsed_secs: u64,
    rate: ErrorRateCheck,
    r: Result<CanaryAction, ParseError>,
) -> bool {
    &&& elapsed_secs < before.config_view().min_observation_period_secs ==> {
        &&& r == Ok::<CanaryAction, ParseError>(CanaryAction::Waiting)
        &&& after.variants_view() == before.variants_view()
        &&& after.counts_view() == before.counts_view()
        &&& after.phase() == before.phase()
    }
    &&& elapsed_secs >= before.config_view().min_observation_period_secs ==> match canary_variant(before.variants_view()) {
        None => {
            &&& r matches Err(e) && e.message@ == "Canary variant not found"@
            &&& after.variants_view() == before.variants_view()
            &&& after.counts_view() == before.counts_view()
            &&& after.phase() == before.phase()
        },
        Some(ci) => {
            let c = before.counts_of(before.variants_view()[ci].name@)->0;
            if rollback_due(before.config_view(), c, rate) {
                &&& r == Ok::<CanaryAction, ParseError>(CanaryAction::RolledBack)
                &&& after.variants_view() == reweighted(before.variants_view(), 100, 0)
                &&& after.counts_view() == before.counts_view()
                &&& after.phase() == CanaryPhase::RolledBack
            } else if promotion_due(before.config_view(), c, rate) {
                &&& r == Ok::<CanaryAction, ParseError>(CanaryAction::Promoted)
                &&& after.phase() == promoted_phase(before.phase())
                &&& after.variants_view() == if promotable(before.phase()) {
                    reweighted(
                        before.variants_view(),
                        phase_weights(promoted_phase(before.phase())).0,
                        phase_weights(promoted_phase(before.phase())).1,
                    )
                } else {
                    before.variants_view()
                }
                &&& after.counts_view().len() == before.counts_view().len()
                &&& forall|i: int| 0 <= i < after.counts_view().len() ==>
                    #[trigger] after.counts_view()[i] == CanaryCounts::zero()
            } else {
                &&& r == Ok::<CanaryAction, ParseError>(CanaryAction::Unchanged)
                &&& after.variants_view() == before.variants_view()
                &&& after.counts_view() == before.counts_view()
                &&& after.phase() == before.phase()
            }
        },
    }
}

/// Runs a canary release between a stable and a canary variant.
pub struct CanaryDeploymentManager {
    variants: Vec<VariantConfig>,
    config: CanaryConfig,
    names: Vec<String>,
    counts: Vec<CanaryCounts>,
    current_phase: CanaryPhase,
}

impl CanaryDeploymentManager {
    /// The two variants.
    pub closed spec fn variants_view(&self) -> Seq<VariantConfig> {
        self.variants@
    }

    /// The release's settings.
    pub closed spec fn config_view(&self) -> CanaryConfig {
        self.config
    }

    /// The names counters are kept for, each once.
    pub closed spec fn names_view(&self) -> Seq<Seq<char>> {
        string_views(self.names@)
    }

    /// The counters, in the order of `names_view`.
    pub closed spec fn counts_view(&self) -> Seq<CanaryCounts> {
        self.counts@
    }

    /// The current phase.
    pub closed spec fn phase(&self) -> CanaryPhase {
        self.current_phase
    }

    /// The counters of the variant called `name`.
    pub open spec fn counts_of(&self, name: Seq<char>) -> Option<CanaryCounts> {
        match first_index_of(self.names_view(), name) {
            Some(k) => Some(self.counts_view()[k]),
            None => None,
        }
    }

    /// One set of counters per distinct variant name, in order of first appearance.
    pub closed spec fn wf(&self) -> bool {
        &&& string_views(self.names@) == distinct_names(self.variants@)
        &&& self.counts@.len() == self.names@.len()
    }

    /// A release over `variants`, in its initial phase with every counter at zero. Fails
    /// unless there are exactly two variants.
    pub fn new(variants: Vec<VariantConfig>, config: CanaryConfig) -> (r: Result<CanaryDeploymentManager, ParseError>)
        ensures
            variants@.len() != 2 <==> r is Err,
            r matches Err(e) ==> e.message@ == "Canary deployment requires exactly 2 variants (stable and canary)"@,
            r matches Ok(m) ==> {
                &&& m.wf()
                &&& m.variants_view() == variants@
                &&& m.config_view() == config
                &&& m.phase() == CanaryPhase::Initial
                &&& m.names_view() == distinct_names(variants@)
                &&& forall|i: int| 0 <= i < m.counts_view().len() ==> #[trigger] m.counts_view()[i] == CanaryCounts::zero()
            },
    {
        if variants.len() != 2 {
            return Err(
                ParseError { message: "Canary deployment requires exactly 2 variants (stable and canary)".to_string() },
            );
        }
        let mut names: Vec<String> = Vec::new();
        let mut counts: Vec<CanaryCounts> = Vec::new();
        let mut i: usize = 0;
        while i < variants.len()
            invariant
                i <= variants@.len(),
                string_views(names@) == distinct_names(variants@.subrange(0, i as int)),
                counts@.len() == names@.len(),
                forall|j: int| 0 <= j < counts@.len() ==> #[trigger] counts@[j] == CanaryCounts::zero(),
            decreases variants@.len() - i,
        {
            let ghost prefix = variants@.subrange(0, i + 1);
            assert(prefix.drop_last() =~= variants@.subrange(0, i as int));
            assert(prefix.last() == variants@[i as int]);
            let ghost d = string_views(names@);
            let ghost name = variants@[i as int].name@;
            proof {
                crate::text::lemma_first_index_of_bounds(d, name);
            }
            match find_name(&names, variants[i].name.as_str()) {
                Some(k) => {
                    assert(d[k as int] == name);
                    assert(d.contains(name));
                },
                None => {
                    assert(!d.contains(name));
                    let ghost old_names = names@;
                    names.push(variants[i].name.clone());
                    counts.push(CanaryCounts::new());
                    assert(string_views(names@) =~= d.push(name)) by {
                        assert(names@ == old_names.push(names@.last()));
                    }
                },
            }
            i += 1;
        }
        assert(variants@.subrange(0, variants@.len() as int) =~= variants@);
        Ok(CanaryDeploymentManager { variants, config, names, counts, current_phase: CanaryPhase::Initial })
    }

    /// Counts a request answered by `variant_name`; a name no variant has is ignored.
    pub fn record_request(&mut self, variant_name: &str, success: bool, response_time_ms: u64)
        requires
            old(self).wf(),
        ensures
            final(self).wf(),
            final(self).variants_view() == old(self).variants_view(),
            final(self).config_view() == old(self).config_view(),
            final(self).phase() == old(self).phase(),
            final(self).names_view() == old(self).names_view(),
            final(self).counts_view() == match first_index_of(old(self).names_view(), variant_name@) {
                Some(k) => old(self).counts_view().update(k, old(self).counts_view()[k].recorded(success, response_time_ms)),
                None => old(self).counts_view(),
            },
    {
        match find_name(&self.names, variant_name) {
            Some(k) => {
                let mut c = self.counts[k];
                c.record(success, response_time_ms);
                self.counts.set(k, c);
            },
            None => {},
        }
    }

    /// Index of the first canary variant.
    pub fn canary_index(&self) -> (r: Option<usize>)
        ensures
            match r {
                Some(i) => canary_variant(self.variants_view()) == Some(i as int) && i < self.variants_view().len(),
                None => canary_variant(self.variants_view()) is None,
            },
    {
        let vs = &self.variants;
        let mut i: usize = 0;
        assert(vs@.subrange(0, vs@.len() as int) =~= vs@);
        while i < vs.len()
            invariant
                vs@ == self.variants@,
                i <= vs@.len(),
                canary_variant(vs@) == match canary_variant(vs@.subrange(i as int, vs@.len() as int)) {
                    Some(k) => Some(k + i),
                    None => None,
                },
            decreases vs@.len() - i,
        {
            let ghost rest = vs@.subrange(i as int, vs@.len() as int);
            assert(rest.drop_first() =~= vs@.subrange(i + 1, vs@.len() as int));
            assert(rest[0] == vs@[i as int]);
            if canary_name(vs[i].name.as_str()) {
                assert(canary_variant(rest) == Some(0int));
                return Some(i);
            }
            i += 1;
        }
        None
    }

    /// The counters of the canary variant, when there is one.
    pub fn canary_counts(&self) -> (r: Option<CanaryCounts>)
        requires
            self.wf(),
        ensures
            match canary_variant(self.variants_view()) {
                Some(ci) => r == self.counts_of(self.variants_view()[ci].name@) && r is Some,
                None => r is None,
            },
    {
        match self.canary_index() {
            Some(ci) => {
                proof {
                    self.lemma_variant_counted(ci as int);
                }
                match find_name(&self.names, self.variants[ci].name.as_str()) {
                    Some(k) => Some(self.counts[k]),
                    None => None,
                }
            },
            None => None,
        }
    }

    /// Every variant's name has counters.
    proof fn lemma_variant_counted(&self, i: int)
        requires
            self.wf(),
            0 <= i < self.variants@.len(),
        ensures
            first_index_of(self.names_view(), self.variants@[i].name@) matches Some(k) && 0 <= k
                < self.counts@.len(),
    {
        lemma_distinct_names(self.variants@);
        assert(self.variants@[i].name@ == self.variants@[i].name@);
        assert(self.names_view().contains(self.variants@[i].name@));
        let k = choose|k: int| 0 <= k < self.names_view().len() && self.names_view()[k] == self.variants@[i].name@;
        crate::text::lemma_first_index_of_bounds(self.names_view(), self.variants@[i].name@);
        if first_index_of(self.names_view(), self.variants@[i].name@) is None {
            assert(self.names_view()[k] != self.variants@[i].name@);
        }
    }

    /// Decides on the canary once the current phase has been observed for at least the
    /// configured period (`elapsed_secs` is the time since the phase began; `rate` compares
    /// the canary's current error rate with the limit). With enough requests seen, a canary
    /// over a limit is rolled back, and one within the error limit is promoted.
    pub fn check_and_update(&mut self, elapsed_secs: u64, rate: ErrorRateCheck) -> (r: Result<CanaryAction, ParseError>)
        requires
            old(self).wf(),
        ensures
            final(self).wf(),
            final(self).config_view() == old(self).config_view(),
            final(self).names_view() == old(self).names_view(),
            checked(*old(self), *final(self), elapsed_secs, rate, r),
    {
        if elapsed_secs < self.config.min_observation_period_secs {
            return Ok(CanaryAction::Waiting);
        }
        let ci = match self.canary_index() {
            Some(ci) => ci,
            None => {
                return Err(ParseError { message: "Canary variant not found".to_string() });
            },
        };
        proof {
            self.lemma_variant_counted(ci as int);
        }
        let k = match find_name(&self.names, self.variants[ci].name.as_str()) {
            Some(k) => k,
            None => {
                return Err(ParseError { message: "Canary stats not found".to_string() });
            },
        };
        let c = self.counts[k];
        if self.should_rollback(&c, rate) {
            self.rollback();
            return Ok(CanaryAction::RolledBack);
        }
        if self.should_promote(&c, rate) {
            self.promote();
            return Ok(CanaryAction::Promoted);
        }
        Ok(CanaryAction::Unchanged)
    }

    /// Whether the canary with counters `c` must be rolled back.
    pub fn should_rollback(&self, c: &CanaryCounts, rate: ErrorRateCheck) -> (r: bool)
        ensures
            r == rollback_due(self.config_view(), *c, rate),
    {
        if c.total_requests < self.config.min_requests_before_decision {
            return false;
        }
        if rate == ErrorRateCheck::Above {
            return true;
        }
        match self.config.max_response_time_ms {
            Some(m) => c.avg_response_time_ms() > m,
            None => false,
        }
    }

    /// Whether the canary with counters `c` may be promoted.
    pub fn should_promote(&self, c: &CanaryCounts, rate: ErrorRateCheck) -> (r: bool)
        ensures
            r == promotion_due(self.config_view(), *c, rate),
    {
        c.total_requests >= self.config.min_requests_before_decision && rate == ErrorRateCheck::Within
    }

    /// Sends all traffic to the stable variants and marks the release rolled back.
    fn rollback(&mut self)
        requires
            old(self).wf(),
        ensures
            final(self).wf(),
            final(self).config_view() == old(self).config_view(),
            final(self).names_view() == old(self).names_view(),
            final(self).counts_view() == old(self).counts_view(),
            final(self).variants_view() == reweighted(old(self).variants_view(), 100, 0),
            final(self).phase() == CanaryPhase::RolledBack,
    {
        self.set_weights(100, 0);
        self.current_phase = CanaryPhase::RolledBack;
    }

    /// Moves one phase on, with that phase's weights, up to `Completed`, then resets the
    /// counters; `Completed` and `RolledBack` keep their phase and weights.
    fn promote(&mut self)
        requires
            old(self).wf(),
        ensures
            final(self).wf(),
            final(self).config_view() == old(self).config_view(),
            final(self).names_view() == old(self).names_view(),
            final(self).phase() == promoted_phase(old(self).phase()),
            final(self).variants_view() == if promotable(old(self).phase()) {
                reweighted(
                    old(self).variants_view(),
                    phase_weights(promoted_phase(old(self).phase())).0,
                    phase_weights(promoted_phase(old(self).phase())).1,
                )
            } else {
                old(self).variants_view()
            },
            final(self).counts_view().len() == old(self).counts_view().len(),
            forall|i: int| 0 <= i < final(self).counts_view().len() ==> #[trigger] final(self).counts_view()[i]
                == CanaryCounts::zero(),
    {
        match self.current_phase {
            CanaryPhase::Initial => {
                self.set_weights(95, 5);
                self.current_phase = CanaryPhase::Phase5;
            },
            CanaryPhase::Phase5 => {
                self.set_weights(75, 25);
                self.current_phase = CanaryPhase::Phase25;
            },
            CanaryPhase::Phase25 => {
                self.set_weights(50, 50);
                self.current_phase = CanaryPhase::Phase50;
            },
            CanaryPhase::Phase50 => {
                self.set_weights(0, 100);
                self.current_phase = CanaryPhase::Completed;
            },
            _ => {},
        }
        self.reset_stats();
    }

    /// Gives canary variants `canary_weight` and the others `stable_weight`.
    fn set_weights(&mut self, stable_weight: u32, canary_weight: u32)
        requires
            old(self).wf(),
        ensures
            final(self).wf(),
            final(self).config_view() == old(self).config_view(),
            final(self).names_view() == old(self).names_view(),
            final(self).counts_view() == old(self).counts_view(),
            final(self).phase() == old(self).phase(),
            final(self).variants_view() == reweighted(old(self).variants_view(), stable_weight, canary_weight),
    {
        let ghost old_vs = self.variants@;
        let ghost names = self.names@;
        let ghost counts = self.counts@;
        let ghost config = self.config;
        let ghost phase = self.current_phase;
        let n = self.variants.len();
        let mut i: usize = 0;
        while i < n
            invariant
                n == self.variants@.len(),
                n == old_vs.len(),
                i <= n,
                self.names@ == names,
                self.counts@ == counts,
                self.config == config,
                self.current_phase == phase,
                forall|j: int| 0 <= j < i ==> #[trigger] self.variants@[j] == reweighted(old_vs, stable_weight, canary_weight)[j],
                forall|j: int| i <= j < n ==> #[trigger] self.variants@[j] == old_vs[j],
            decreases n - i,
        {
            let mut v = self.variants[i].clone_variant();
            if canary_name(v.name.as_str()) {
                v.weight = canary_weight;
            } else {
                v.weight = stable_weight;
            }
            self.variants.set(i, v);
            i += 1;
        }
        proof {
            assert(self.variants@ =~= reweighted(old_vs, stable_weight, canary_weight));
            assert(distinct_names(self.variants@) == distinct_names(old_vs)) by {
                lemma_reweighted_names(old_vs, stable_weight, canary_weight);
            }
        }
    }

    /// Sets every counter back to zero.
    fn reset_stats(&mut self)
        requires
            old(self).wf(),
        ensures
            final(self).wf(),
            final(self).variants_view() == old(self).variants_view(),
            final(self).config_view() == old(self).config_view(),
            final(self).names_view() == old(self).names_view(),
            final(self).phase() == old(self).phase(),
            final(self).counts_view().len() == old(self).counts_view().len(),
            forall|i: int| 0 <= i < final(self).counts_view().len() ==> #[trigger] final(self).counts_view()[i]
                == CanaryCounts::zero(),
    {
        let n = self.counts.len();
        let ghost names = self.names@;
        let ghost variants = self.variants@;
        let ghost config = self.config;
        let ghost phase = self.current_phase;
        let mut i: usize = 0;
        while i < n
            invariant
                n == self.counts@.len(),
                i <= n,
                self.names@ == names,
                self.variants@ == variants,
                self.config == config,
                self.current_phase == phase,
                forall|j: int| 0 <= j < i ==> #[trigger] self.counts@[j] == CanaryCounts::zero(),
            decreases n - i,
        {
            self.counts.set(i, CanaryCounts::new());
            i += 1;
        }
    }

    /// The current phase.
    pub fn current_phase(&self) -> (r: CanaryPhase)
        ensures
            r == self.phase(),
    {
        self.current_phase
    }

    /// The variants with their current weights.
    pub fn variants(&self) -> (r: &Vec<VariantConfig>)
        ensures
            r@ == self.variants_view(),
    {
        &self.variants
    }

    /// The counters of the variant called `name`, if it has any.
    pub fn stats_for(&self, name: &str) -> (r: Option<CanaryCounts>)
        requires
            self.wf(),
        ensures
            r == self.counts_of(name@),
    {
        proof {
            crate::text::lemma_first_index_of_bounds(self.names_view(), name@);
        }
        match find_name(&self.names, name) {
            Some(k) => Some(self.counts[k]),
            None => None,
        }
    }
}

/// Reweighting keeps every name.
pub proof fn lemma_reweighted_names(vs: Seq<VariantConfig>, stable: u32, canary: u32)
    ensures
        distinct_names(reweighted(vs, stable, canary)) == distinct_names(vs),
    decreases vs.len(),
{
    if vs.len() > 0 {
        assert(reweighted(vs, stable, canary).drop_last() =~= reweighted(vs.drop_last(), stable, canary));
        lemma_reweighted_names(vs.drop_last(), stable, canary);
    }
}

/// Each promotion that changes the phase moves the canary's weight up (5, 25, 50, then
/// 100) and keeps the two weights summing to 100; `Completed` and `RolledBack` are final.
pub proof fn lemma_promotion_raises_canary_share(p: CanaryPhase)
    ensures
        promotable(p) ==> {
            &&& promoted_phase(p) != p
            &&& phase_weights(promoted_phase(p)).0 + phase_weights(promoted_phase(p)).1 == 100
            &&& phase_weights(promoted_phase(p)).1 > phase_weights(p).1
        },
        !promotable(p) ==> promoted_phase(p) == p,
        promoted_phase(p) != CanaryPhase::Initial,
{
}

/// Four promotions take a release from its start to completion, where all traffic goes to
/// the canary.
pub proof fn lemma_four_promotions_complete()
    ensures
        promoted_phase(promoted_phase(promoted_phase(promoted_phase(CanaryPhase::Initial)))) == CanaryPhase::Completed,
        phase_weights(CanaryPhase::Completed) == (0u32, 100u32),
{
}

/// With one stable and one canary variant, the weights set by a promotion or a rollback
/// sum to 100.
pub proof fn lemma_reweighted_pair_total(vs: Seq<VariantConfig>, stable: u32, canary: u32)
    requires
        vs.len() == 2,
        is_canary_name(vs[0].name@) != is_canary_name(vs[1].name@),
        stable + canary == 100,
    ensures
        reweighted(vs, stable, canary)[0].weight + reweighted(vs, stable, canary)[1].weight == 100,
{
}

/// Rollback law: once the phase has been observed long enough, a canary that has seen at
/// least the configured number of requests and whose error rate is above the limit is rolled
/// back, whatever its response times: the check answers `RolledBack`, the release is marked
/// rolled back, every canary variant gets weight 0 and every other variant weight 100, with
/// names and number of variants kept.
pub proof fn lemma_error_rate_above_limit_rolls_back(
    before: CanaryDeploymentManager,
    after: CanaryDeploymentManager,
    elapsed_secs: u64,
    r: Result<CanaryAction, ParseError>,
    ci: int,
)
    requires
        checked(before, after, elapsed_secs, ErrorRateCheck::Above, r),
        elapsed_secs >= before.config_view().min_observation_period_secs,
        canary_variant(before.variants_view()) == Some(ci),
        before.counts_of(before.variants_view()[ci].name@)->0.total_requests
            >= before.config_view().min_requests_before_decision,
    ensures
        r == Ok::<CanaryAction, ParseError>(CanaryAction::RolledBack),
        after.phase() == CanaryPhase::RolledBack,
        after.variants_view().len() == before.variants_view().len(),
        forall|i: int|
            0 <= i < after.variants_view().len() ==> {
                &&& (#[trigger] after.variants_view()[i]).name == before.variants_view()[i].name
                &&& after.variants_view()[i].weight == if is_canary_name(before.variants_view()[i].name@) {
                    0u32
                } else {
                    100u32
                }
            },
{
}

} // verus!
