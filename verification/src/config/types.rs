//! Enumerated settings and the textual names they are written with.
use vstd::prelude::*;
use crate::error::{ParseError, framed_message};
use crate::text::{str_lowercase, to_lowercase};

verus! {

broadcast use vstd::string::group_string_axioms;

/// How the web application firewall treats suspicious requests.
#[derive(Debug, Clone, Copy, PartialEq, Eq, Structural)]
pub enum WafMode {
    Off,
    Learn,
    Detect,
    Block,
}

/// The mode a lower-cased name stands for.
pub open spec fn waf_mode_named(name: Seq<char>) -> Option<WafMode> {
    if name == "off"@ {
        Some(WafMode::Off)
    } else if name == "learn"@ {
        Some(WafMode::Learn)
    } else if name == "detect"@ {
        Some(WafMode::Detect)
    } else if name == "block"@ {
        Some(WafMode::Block)
    } else {
        None
    }
}

/// The name a mode is written with.
pub open spec fn waf_mode_name(m: WafMode) -> Seq<char> {
    match m {
        WafMode::Off => "off"@,
        WafMode::Learn => "learn"@,
        WafMode::Detect => "detect"@,
        WafMode::Block => "block"@,
    }
}

impl WafMode {
    /// The mode used when none is configured: `Off`.
    pub fn default() -> (r: WafMode)
        ensures
            r == WafMode::Off,
    {
        WafMode::Off
    }

    /// The name of the mode.
    pub fn to_string(&self) -> (r: String)
        ensures
            r@ == waf_mode_name(*self),
    {
        match self {
            WafMode::Off => "off".to_string(),
            WafMode::Learn => "learn".to_string(),
            WafMode::Detect => "detect".to_string(),
            WafMode::Block => "block".to_string(),
        }
    }

    /// Reads a mode from its name, ignoring case.
    pub fn from_str(s: &str) -> (r: Result<WafMode, ParseError>)
        ensures
            match waf_mode_named(str_lowercase(s@)) {
                Some(m) => r == Ok::<WafMode, ParseError>(m),
                None => r matches Err(e) && e.message@ == "Invalid WAF mode: '"@ + s@
                    + "'. Valid values: off, learn, detect, block"@,
            },
    {
        let lower = to_lowercase(s);
        if lower == "off".to_string() {
            Ok(WafMode::Off)
        } else if lower == "learn".to_string() {
            Ok(WafMode::Learn)
        } else if lower == "detect".to_string() {
            Ok(WafMode::Detect)
        } else if lower == "block".to_string() {
            Ok(WafMode::Block)
        } else {
            Err(ParseError {
                message: framed_message(
                    "Invalid WAF mode: '",
                    s,
                    "'. Valid values: off, learn, detect, block",
                ),
            })
        }
    }
}

/// How traffic is divided between deployment variants.
#[derive(Debug, Clone, Copy, PartialEq, Eq, Structural)]
pub enum DeploymentStrategy {
    AbTest,
    Canary,
}

/// The strategy a lower-cased name stands for.
pub open spec fn deployment_strategy_named(name: Seq<char>) -> Option<DeploymentStrategy> {
    if name == "ab_test"@ {
        Some(DeploymentStrategy::AbTest)
    } else if name == "canary"@ {
        Some(DeploymentStrategy::Canary)
    } else {
        None
    }
}

/// The name a strategy is written with.
pub open spec fn deployment_strategy_name(s: DeploymentStrategy) -> Seq<char> {
    match s {
        DeploymentStrategy::AbTest => "ab_test"@,
        DeploymentStrategy::Canary => "canary"@,
    }
}

impl DeploymentStrategy {
    /// The strategy used when none is configured: `AbTest`.
    pub fn default() -> (r: DeploymentStrategy)
        ensures
            r == DeploymentStrategy::AbTest,
    {
        DeploymentStrategy::AbTest
    }

    /// The name of the strategy.
    pub fn to_string(&self) -> (r: String)
        ensures
            r@ == deployment_strategy_name(*self),
    {
        match self {
            DeploymentStrategy::AbTest => "ab_test".to_string(),
            DeploymentStrategy::Canary => "canary".to_string(),
        }
    }

    /// Reads a strategy from its name, ignoring case.
    pub fn from_str(s: &str) -> (r: Result<DeploymentStrategy, ParseError>)
        ensures
            match deployment_strategy_named(str_lowercase(s@)) {
                Some(m) => r == Ok::<DeploymentStrategy, ParseError>(m),
                None => r matches Err(e) && e.message@ == "Invalid deployment strategy: '"@ + s@
                    + "'. Valid values: ab_test, canary"@,
            },
    {
        let lower = to_lowercase(s);
        if lower == "ab_test".to_string() {
            Ok(DeploymentStrategy::AbTest)
        } else if lower == "canary".to_string() {
            Ok(DeploymentStrategy::Canary)
        } else {
            Err(ParseError {
                message: framed_message(
                    "Invalid deployment strategy: '",
                    s,
                    "'. Valid values: ab_test, canary",
                ),
            })
        }
    }
}

/// How requests are spread over upstream servers.
#[derive(Debug, Clone, Copy, PartialEq, Eq, Structural)]
pub enum LoadBalancingAlgorithm {
    /// Round-robin distribution
    RoundRobin,
    /// Least connections
    LeastConn,
    /// Weighted round-robin
    WeightedRoundRobin,
    /// IP hash
    IpHash,
}

/// The algorithm a lower-cased name stands for.
pub open spec fn algorithm_named(name: Seq<char>) -> Option<LoadBalancingAlgorithm> {
    if name == "round_robin"@ {
        Some(LoadBalancingAlgorithm::RoundRobin)
    } else if name == "least_conn"@ {
        Some(LoadBalancingAlgorithm::LeastConn)
    } else if name == "weighted_round_robin"@ {
        Some(LoadBalancingAlgorithm::WeightedRoundRobin)
    } else if name == "ip_hash"@ {
        Some(LoadBalancingAlgorithm::IpHash)
    } else {
        None
    }
}

/// The name an algorithm is written with.
pub open spec fn algorithm_name(a: LoadBalancingAlgorithm) -> Seq<char> {
    match a {
        LoadBalancingAlgorithm::RoundRobin => "round_robin"@,
        LoadBalancingAlgorithm::LeastConn => "least_conn"@,
        LoadBalancingAlgorithm::WeightedRoundRobin => "weighted_round_robin"@,
        LoadBalancingAlgorithm::IpHash => "ip_hash"@,
    }
}

impl LoadBalancingAlgorithm {
    /// The algorithm used when none is configured: `RoundRobin`.
    pub fn default() -> (r: LoadBalancingAlgorithm)
        ensures
            r == LoadBalancingAlgorithm::RoundRobin,
    {
        LoadBalancingAlgorithm::RoundRobin
    }

    /// The name of the algorithm.
    pub fn to_string(&self) -> (r: String)
        ensures
            r@ == algorithm_name(*self),
    {
        match self {
            LoadBalancingAlgorithm::RoundRobin => "round_robin".to_string(),
            LoadBalancingAlgorithm::LeastConn => "least_conn".to_string(),
            LoadBalancingAlgorithm::WeightedRoundRobin => "weighted_round_robin".to_string(),
            LoadBalancingAlgorithm::IpHash => "ip_hash".to_string(),
        }
    }

    /// Reads an algorithm from its name, ignoring case.
    pub fn from_str(s: &str) -> (r: Result<LoadBalancingAlgorithm, ParseError>)
        ensures
            match algorithm_named(str_lowercase(s@)) {
                Some(m) => r == Ok::<LoadBalancingAlgorithm, ParseError>(m),
                None => r matches Err(e) && e.message@ == "Invalid load balancing algorithm: '"@
                    + s@ + "'. Valid values: round_robin, least_conn, weighted_round_robin, ip_hash"@,
            },
    {
        let lower = to_lowercase(s);
        if lower == "round_robin".to_string() {
            Ok(LoadBalancingAlgorithm::RoundRobin)
        } else if lower == "least_conn".to_string() {
            Ok(LoadBalancingAlgorithm::LeastConn)
        } else if lower == "weighted_round_robin".to_string() {
            Ok(LoadBalancingAlgorithm::WeightedRoundRobin)
        } else if lower == "ip_hash".to_string() {
            Ok(LoadBalancingAlgorithm::IpHash)
        } else {
            Err(ParseError {
                message: framed_message(
                    "Invalid load balancing algorithm: '",
                    s,
                    "'. Valid values: round_robin, least_conn, weighted_round_robin, ip_hash",
                ),
            })
        }
    }
}

/// Whether the server listens on TCP or on a Unix socket.
#[derive(Debug, Clone, Copy, PartialEq, Eq, Structural)]
pub enum ListenType {
    Tcp,
    Unix,
}

impl ListenType {
    /// The listener used when none is configured: TCP.
    pub fn default() -> (r: ListenType)
        ensures
            r == ListenType::Tcp,
    {
        ListenType::Tcp
    }
}

/// A path pattern as written in a routing rule.
#[derive(Debug, Clone)]
pub enum PathPatternConfig {
    Exact(String),
    Prefix(String),
    Suffix(String),
    Regex(String),
}

} // verus!
