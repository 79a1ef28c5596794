//! Staged deployments: weighted traffic splitting between variants, A/B tests and canary
//! releases.
pub mod ab_test;
pub mod canary;
pub mod traffic_splitter;

use vstd::prelude::*;
use crate::config::{DeploymentConfig, DeploymentStrategy, VariantConfig};
use crate::error::ParseError;
use self::ab_test::AbTestManager;
use self::canary::{CanaryAction, CanaryDeploymentManager, ErrorRateCheck};
use self::traffic_splitter::{TrafficSplitter, weight_sum, weights_of};

verus! {

/// A copy of each variant.
pub fn clone_variants(vs: &Vec<VariantConfig>) -> (r: Vec<VariantConfig>)
    ensures
        r@ == vs@,
{
    let mut out: Vec<VariantConfig> = Vec::new();
    let mut i: usize = 0;
    while i < vs.len()
        invariant
            i <= vs@.len(),
            out@ == vs@.subrange(0, i as int),
        decreases vs@.len() - i,
    {
        out.push(vs[i].clone_variant());
        i += 1;
    }
    assert(vs@.subrange(0, vs@.len() as int) =~= vs@);
    out
}

/// Splits traffic between the configured variants and, by strategy, runs an A/B test or a
/// canary release over them.
pub struct DeploymentManager {
    traffic_splitter: TrafficSplitter,
    ab_test: Option<AbTestManager>,
    canary: Option<CanaryDeploymentManager>,
}

impl DeploymentManager {
    /// The traffic splitter.
    pub closed spec fn splitter_view(&self) -> TrafficSplitter {
        self.traffic_splitter
    }

    /// The A/B test, under the A/B strategy.
    pub closed spec fn ab_test_view(&self) -> Option<AbTestManager> {
        self.ab_test
    }

    /// The canary release, under the canary strategy.
    pub closed spec fn canary_view(&self) -> Option<CanaryDeploymentManager> {
        self.canary
    }

    /// The splitter is consistent with a positive total, and each manager present is
    /// consistent.
    pub open spec fn wf(&self) -> bool {
        &&& self.splitter_view().wf()
        &&& self.splitter_view().total() > 0
        &&& (self.ab_test_view() matches Some(m) ==> m.wf())
        &&& (self.canary_view() matches Some(m) ==> m.wf())
    }

    /// A manager for `config`: a splitter over its variants, plus an A/B test under the A/B
    /// strategy or a canary release under the canary strategy. Fails when the weights sum to
    /// 0, or, under the canary strategy, unless there are exactly two variants. The weights
    /// must sum to at most `u32::MAX`.
    pub fn new(config: &DeploymentConfig) -> (r: Result<DeploymentManager, ParseError>)
        requires
            weight_sum(weights_of(config.variants@)) <= u32::MAX,
        ensures
            r is Err <==> (weight_sum(weights_of(config.variants@)) == 0 || (config.strategy
                == DeploymentStrategy::Canary && config.variants@.len() != 2)),
            r matches Ok(m) ==> {
                &&& m.wf()
                &&& m.splitter_view().variants_view() == config.variants@
                &&& m.splitter_view().sticky() == config.sticky_sessions
                &&& m.splitter_view().counter() == 0
                &&& (m.ab_test_view() is Some <==> config.strategy == DeploymentStrategy::AbTest)
                &&& (m.ab_test_view() matches Some(a) ==> a.variants_view() == config.variants@ && a.config_view()
                    == config.ab_test)
                &&& (m.canary_view() is Some <==> config.strategy == DeploymentStrategy::Canary)
                &&& (m.canary_view() matches Some(c) ==> c.variants_view() == config.variants@ && c.config_view()
                    == config.canary && c.phase() == canary::CanaryPhase::Initial)
            },
    {
        let traffic_splitter = match TrafficSplitter::new(clone_variants(&config.variants), config.sticky_sessions) {
            Ok(s) => s,
            Err(e) => {
                return Err(e);
            },
        };
        let ab_test = match config.strategy {
            DeploymentStrategy::AbTest => match AbTestManager::new(clone_variants(&config.variants), config.ab_test) {
                Ok(m) => Some(m),
                Err(e) => {
                    return Err(e);
                },
            },
            DeploymentStrategy::Canary => None,
        };
        let canary = match config.strategy {
            DeploymentStrategy::Canary => match CanaryDeploymentManager::new(
                clone_variants(&config.variants),
                config.canary,
            ) {
                Ok(m) => Some(m),
                Err(e) => {
                    return Err(e);
                },
            },
            DeploymentStrategy::AbTest => None,
        };
        Ok(DeploymentManager { traffic_splitter, ab_test, canary })
    }

    /// The traffic splitter.
    pub fn traffic_splitter(&self) -> (r: &TrafficSplitter)
        ensures
            *r == self.splitter_view(),
    {
        &self.traffic_splitter
    }

    /// The A/B test, if the strategy runs one.
    pub fn ab_test(&self) -> (r: Option<&AbTestManager>)
        ensures
            match r {
                Some(m) => self.ab_test_view() == Some(*m),
                None => self.ab_test_view() is None,
            },
    {
        match &self.ab_test {
            Some(m) => Some(m),
            None => None,
        }
    }

    /// The canary release, if the strategy runs one.
    pub fn canary(&self) -> (r: Option<&CanaryDeploymentManager>)
        ensures
            match r {
                Some(m) => self.canary_view() == Some(*m),
                None => self.canary_view() is None,
            },
    {
        match &self.canary {
            Some(m) => Some(m),
            None => None,
        }
    }

    /// Chooses the variant for a request, as the splitter does.
    pub fn select_variant(&mut self, user_id: Option<&str>, ip_addr: Option<&str>) -> (r: &VariantConfig)
        requires
            old(self).wf(),
        ensures
            final(self).wf(),
            final(self).ab_test_view() == old(self).ab_test_view(),
            final(self).canary_view() == old(self).canary_view(),
            final(self).splitter_view().variants_view() == old(self).splitter_view().variants_view(),
            ({
                let id = traffic_splitter::sticky_identity(
                    match user_id {
                        Some(u) => Some(u@),
                        None => None,
                    },
                    match ip_addr {
                        Some(a) => Some(a@),
                        None => None,
                    },
                );
                let (k, counter, assignments) = traffic_splitter::selection(
                    old(self).splitter_view().variants_view(),
                    old(self).splitter_view().counter(),
                    old(self).splitter_view().total(),
                    old(self).splitter_view().sticky(),
                    old(self).splitter_view().assignments(),
                    id,
                );
                &&& *r == old(self).splitter_view().variants_view()[k]
                &&& final(self).splitter_view().counter() == counter
                &&& final(self).splitter_view().assignments() == assignments
            }),
    {
        self.traffic_splitter.select_variant(user_id, ip_addr)
    }

    /// Counts a request's outcome in the A/B test or canary release, whichever runs.
    pub fn record_request(&mut self, variant_name: &str, success: bool, response_time_ms: u64)
        requires
            old(self).wf(),
        ensures
            final(self).wf(),
            final(self).splitter_view() == old(self).splitter_view(),
            match (old(self).ab_test_view(), final(self).ab_test_view()) {
                (Some(a), Some(b)) => b.variants_view() == a.variants_view() && b.names_view() == a.names_view()
                    && b.counts_view() == match crate::text::first_index_of(a.names_view(), variant_name@) {
                    Some(k) => a.counts_view().update(
                        k,
                        a.counts_view()[k].recorded(success, response_time_ms, a.config_view().track_conversion),
                    ),
                    None => a.counts_view(),
                },
                (None, None) => true,
                _ => false,
            },
            match (old(self).canary_view(), final(self).canary_view()) {
                (Some(a), Some(b)) => b.variants_view() == a.variants_view() && b.phase() == a.phase()
                    && b.names_view() == a.names_view() && b.counts_view() == match crate::text::first_index_of(
                    a.names_view(),
                    variant_name@,
                ) {
                    Some(k) => a.counts_view().update(k, a.counts_view()[k].recorded(success, response_time_ms)),
                    None => a.counts_view(),
                },
                (None, None) => true,
                _ => false,
            },
    {
        match &mut self.ab_test {
            Some(m) => m.record_request(variant_name, success, response_time_ms),
            None => {},
        }
        match &mut self.canary {
            Some(m) => m.record_request(variant_name, success, response_time_ms),
            None => {},
        }
    }

    /// Runs the periodic canary check, if a canary release runs; see
    /// `CanaryDeploymentManager::check_and_update`.
    pub fn check_canary(&mut self, elapsed_secs: u64, rate: ErrorRateCheck) -> (r: Option<Result<CanaryAction, ParseError>>)
        requires
            old(self).wf(),
        ensures
            final(self).wf(),
            final(self).splitter_view() == old(self).splitter_view(),
            final(self).ab_test_view() == old(self).ab_test_view(),
            match (old(self).canary_view(), final(self).canary_view(), r) {
                (Some(a), Some(b), Some(res)) => canary::checked(a, b, elapsed_secs, rate, res),
                (None, None, None) => true,
                _ => false,
            },
    {
        match &mut self.canary {
            Some(m) => Some(m.check_and_update(elapsed_secs, rate)),
            None => None,
        }
    }
}

} // verus!
