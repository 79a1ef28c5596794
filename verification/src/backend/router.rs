//! Chooses the backend that serves a request path.
use vstd::prelude::*;
use super::{
    backend_type_named, regex_compiles, BackendType, PathPattern, PatternKind, pattern_view,
    view_matches,
};
use crate::config::{PathPatternConfig, RoutingRule};
use crate::error::{prefixed_message, ParseError};
use crate::text::str_lowercase;

verus! {

broadcast use vstd::string::group_string_axioms;

/// What a routing rule says: its pattern (kind and text), its backend and its priority.
pub type RuleView = ((PatternKind, Seq<char>), BackendType, u32);

/// A routing rule whose pattern has been compiled and whose backend has been resolved.
#[derive(Debug)]
pub struct CompiledRoutingRule {
    pub pattern: PathPattern,
    pub backend_type: BackendType,
    pub priority: u32,
}

/// What a compiled rule says.
pub open spec fn compiled_rule_view(r: CompiledRoutingRule) -> RuleView {
    (pattern_view(r.pattern), r.backend_type, r.priority)
}

/// The pattern a configured pattern describes.
pub open spec fn config_pattern_view(c: PathPatternConfig) -> (PatternKind, Seq<char>) {
    match c {
        PathPatternConfig::Exact(s) => (PatternKind::Exact, s@),
        PathPatternConfig::Prefix(s) => (PatternKind::Prefix, s@),
        PathPatternConfig::Suffix(s) => (PatternKind::Suffix, s@),
        PathPatternConfig::Regex(s) => (PatternKind::Regex, s@),
    }
}

/// The configured pattern is usable: a regular expression must compile.
pub open spec fn config_pattern_valid(c: PathPatternConfig) -> bool {
    match c {
        PathPatternConfig::Regex(s) => regex_compiles(s@),
        _ => true,
    }
}

/// A configured rule is usable: its pattern compiles and its backend name is known.
pub open spec fn rule_valid(rule: RoutingRule) -> bool {
    config_pattern_valid(rule.pattern) && backend_type_named(str_lowercase(rule.backend@)) is Some
}

/// What a usable configured rule says.
pub open spec fn config_rule_view(rule: RoutingRule) -> RuleView {
    (
        config_pattern_view(rule.pattern),
        backend_type_named(str_lowercase(rule.backend@)).unwrap(),
        rule.priority,
    )
}

/// The message reported for an unusable rule.
pub open spec fn rule_error_message(rule: RoutingRule) -> Seq<char> {
    if !config_pattern_valid(rule.pattern) {
        "Invalid regex pattern: "@ + config_pattern_view(rule.pattern).1
    } else {
        "Invalid backend type: "@ + rule.backend@
    }
}

/// Where a rule of priority `p` goes in a list ordered by priority: after every rule of
/// priority at least `p`, so that rules of equal priority keep their order.
pub open spec fn insertion_point(sorted: Seq<RuleView>, p: u32) -> int
    decreases sorted.len(),
{
    if sorted.len() == 0 {
        0
    } else if sorted[0].2 >= p {
        1 + insertion_point(sorted.drop_first(), p)
    } else {
        0
    }
}

/// The rules ordered by descending priority, rules of equal priority in their given order.
pub open spec fn sort_by_priority(rules: Seq<RuleView>) -> Seq<RuleView>
    decreases rules.len(),
{
    if rules.len() == 0 {
        Seq::empty()
    } else {
        let sorted = sort_by_priority(rules.drop_last());
        sorted.insert(insertion_point(sorted, rules.last().2), rules.last())
    }
}

/// The backend type of the first rule that matches `path` and whose backend is present.
pub open spec fn first_route(rules: Seq<RuleView>, present: Seq<BackendType>, path: Seq<char>) -> Option<BackendType>
    decreases rules.len(),
{
    if rules.len() == 0 {
        None
    } else if view_matches(rules[0].0, path) && present.contains(rules[0].1) {
        Some(rules[0].1)
    } else {
        first_route(rules.drop_first(), present, path)
    }
}

/// The backend type serving `path`: the first rule's, else the default backend if present.
pub open spec fn route_target(
    rules: Seq<RuleView>,
    present: Seq<BackendType>,
    default_backend: BackendType,
    path: Seq<char>,
) -> Option<BackendType> {
    match first_route(rules, present, path) {
        Some(t) => Some(t),
        None => if present.contains(default_backend) {
            Some(default_backend)
        } else {
            None
        },
    }
}

/// How a rule is described: its pattern kind, a colon and its pattern.
pub open spec fn rule_description(v: (PatternKind, Seq<char>)) -> Seq<char> {
    match v.0 {
        PatternKind::Exact => "exact:"@ + v.1,
        PatternKind::Prefix => "prefix:"@ + v.1,
        PatternKind::Suffix => "suffix:"@ + v.1,
        PatternKind::Regex => "regex:"@ + v.1,
    }
}

/// Sends each request path to a backend, following prioritised routing rules.
pub struct BackendRouter<B> {
    backends: Vec<(BackendType, B)>,
    rules: Vec<CompiledRoutingRule>,
    default_backend: BackendType,
}

impl<B> BackendRouter<B> {
    /// The rules, in the order they are tried.
    pub closed spec fn rules_view(&self) -> Seq<RuleView> {
        self.rules@.map_values(|r: CompiledRoutingRule| compiled_rule_view(r))
    }

    /// The backend types that have a backend, in the order the backends were given.
    pub closed spec fn present(&self) -> Seq<BackendType> {
        self.backends@.map_values(|p: (BackendType, B)| p.0)
    }

    /// The backends with their types.
    pub closed spec fn backends_view(&self) -> Seq<(BackendType, B)> {
        self.backends@
    }

    /// The backend used when no rule applies.
    pub closed spec fn default_type(&self) -> BackendType {
        self.default_backend
    }

    /// Builds a router. Every rule's pattern is compiled and its backend name resolved,
    /// ignoring case; the first unusable rule makes the whole construction fail. The rules
    /// are then ordered by descending priority, equal priorities keeping their order.
    pub fn new(backends: Vec<(BackendType, B)>, routing_rules: Vec<RoutingRule>, default_backend: BackendType) -> (r: Result<Self, ParseError>)
        ensures
            match r {
                Ok(router) => {
                    &&& forall|i: int| 0 <= i < routing_rules@.len() ==> rule_valid(#[trigger] routing_rules@[i])
                    &&& router.rules_view() == sort_by_priority(
                        routing_rules@.map_values(|rule: RoutingRule| config_rule_view(rule)),
                    )
                    &&& router.backends_view() == backends@
                    &&& router.default_type() == default_backend
                },
                Err(e) => exists|i: int|
                    0 <= i < routing_rules@.len() && !rule_valid(#[trigger] routing_rules@[i])
                        && (forall|j: int| 0 <= j < i ==> rule_valid(routing_rules@[j]))
                        && e.message@ == rule_error_message(routing_rules@[i]),
            },
    {
        let mut rules: Vec<CompiledRoutingRule> = Vec::new();
        let ghost cfg = routing_rules@.map_values(|rule: RoutingRule| config_rule_view(rule));
        let n = routing_rules.len();
        let mut i: usize = 0;
        while i < n
            invariant
                n == routing_rules@.len(),
                i <= n,
                cfg == routing_rules@.map_values(|rule: RoutingRule| config_rule_view(rule)),
                forall|j: int| 0 <= j < i ==> rule_valid(#[trigger] routing_rules@[j]),
                rules@.map_values(|r: CompiledRoutingRule| compiled_rule_view(r))
                    == sort_by_priority(cfg.subrange(0, i as int)),
            decreases n - i,
        {
            let rule = &routing_rules[i];
            let pattern = match Self::compile_pattern(&rule.pattern) {
                Ok(p) => p,
                Err(e) => {
                    assert(!rule_valid(routing_rules@[i as int]));
                    return Err(e);
                },
            };
            let backend_type = match BackendType::from_str(rule.backend.as_str()) {
                Ok(t) => t,
                Err(_) => {
                    assert(!rule_valid(routing_rules@[i as int]));
                    return Err(ParseError {
                        message: prefixed_message("Invalid backend type: ", rule.backend.as_str()),
                    });
                },
            };
            let priority = rule.priority;
            let compiled = CompiledRoutingRule { pattern, backend_type, priority };
            let ghost before = rules@.map_values(|r: CompiledRoutingRule| compiled_rule_view(r));
            let mut k: usize = 0;
            assert(before.subrange(0, before.len() as int) =~= before);
            while k < rules.len() && rules[k].priority >= priority
                invariant
                    k <= rules@.len(),
                    before == rules@.map_values(|r: CompiledRoutingRule| compiled_rule_view(r)),
                    insertion_point(before, priority) == k + insertion_point(
                        before.subrange(k as int, before.len() as int),
                        priority,
                    ),
                decreases rules@.len() - k,
            {
                let ghost rest = before.subrange(k as int, before.len() as int);
                assert(rest.drop_first() =~= before.subrange(k + 1, before.len() as int));
                k += 1;
            }
            proof {
                let rest = before.subrange(k as int, before.len() as int);
                assert(insertion_point(rest, priority) == 0);
                assert(cfg.subrange(0, i + 1).drop_last() =~= cfg.subrange(0, i as int));
                assert(cfg.subrange(0, i + 1).last() == cfg[i as int]);
                assert(compiled_rule_view(compiled) == cfg[i as int]);
            }
            rules.insert(k, compiled);
            proof {
                assert(rules@.map_values(|r: CompiledRoutingRule| compiled_rule_view(r)) =~= before.insert(
                    k as int,
                    compiled_rule_view(compiled),
                ));
            }
            i += 1;
        }
        proof {
            assert(cfg.subrange(0, n as int) =~= cfg);
        }
        Ok(BackendRouter { backends, rules, default_backend })
    }

    /// Compiles a configured pattern; a regular expression that does not compile is an error.
    fn compile_pattern(config: &PathPatternConfig) -> (r: Result<PathPattern, ParseError>)
        ensures
            r is Ok <==> config_pattern_valid(*config),
            r matches Ok(p) ==> pattern_view(p) == config_pattern_view(*config),
            r matches Err(e) ==> e.message@ == "Invalid regex pattern: "@ + config_pattern_view(*config).1,
    {
        match config {
            PathPatternConfig::Exact(s) => Ok(PathPattern::Exact(s.clone())),
            PathPatternConfig::Prefix(s) => Ok(PathPattern::Prefix(s.clone())),
            PathPatternConfig::Suffix(s) => Ok(PathPattern::Suffix(s.clone())),
            PathPatternConfig::Regex(s) => PathPattern::regex(s.as_str()),
        }
    }

    /// Position of the first backend of type `t`, if any.
    fn find_backend(&self, t: BackendType) -> (r: Option<usize>)
        ensures
            match r {
                Some(k) => k < self.backends@.len() && self.backends@[k as int].0 == t && forall|j: int|
                    0 <= j < k ==> self.backends@[j].0 != t,
                None => !self.present().contains(t),
            },
    {
        let mut k: usize = 0;
        while k < self.backends.len()
            invariant
                k <= self.backends@.len(),
                forall|j: int| 0 <= j < k ==> self.backends@[j].0 != t,
            decreases self.backends@.len() - k,
        {
            if self.backends[k].0 == t {
                return Some(k);
            }
            k += 1;
        }
        proof {
            if self.present().contains(t) {
                let j = choose|j: int| 0 <= j < self.present().len() && self.present()[j] == t;
                assert(self.backends@[j].0 == t);
            }
        }
        None
    }

    /// Whether a backend of type `t` is present.
    pub fn has_backend(&self, t: BackendType) -> (r: bool)
        ensures
            r == self.present().contains(t),
    {
        match self.find_backend(t) {
            Some(k) => {
                assert(self.present()[k as int] == t);
                true
            },
            None => false,
        }
    }

    /// The backend type that serves `path`: that of the first rule, in priority order, whose
    /// pattern matches and whose backend is present; otherwise the default backend type.
    pub fn route_type(&self, path: &str) -> (r: Option<BackendType>)
        ensures
            r == route_target(self.rules_view(), self.present(), self.default_type(), path@),
    {
        let mut k: usize = 0;
        assert(self.rules_view().subrange(0, self.rules@.len() as int) =~= self.rules_view());
        while k < self.rules.len()
            invariant
                k <= self.rules@.len(),
                self.rules_view().len() == self.rules@.len(),
                first_route(self.rules_view(), self.present(), path@) == first_route(
                    self.rules_view().subrange(k as int, self.rules@.len() as int),
                    self.present(),
                    path@,
                ),
            decreases self.rules@.len() - k,
        {
            let ghost rest = self.rules_view().subrange(k as int, self.rules@.len() as int);
            assert(rest[0] == compiled_rule_view(self.rules@[k as int]));
            assert(rest.drop_first() =~= self.rules_view().subrange(k + 1, self.rules@.len() as int));
            let rule = &self.rules[k];
            if rule.pattern.matches(path) && self.has_backend(rule.backend_type) {
                return Some(rule.backend_type);
            }
            k += 1;
        }
        if self.has_backend(self.default_backend) {
            Some(self.default_backend)
        } else {
            None
        }
    }

    /// The backend that serves `path` (see `route_type`); the first backend given for that
    /// type. A path served by no rule needs the default backend to be present.
    pub fn route(&self, path: &str) -> (r: &B)
        requires
            route_target(self.rules_view(), self.present(), self.default_type(), path@) is Some,
        ensures
            exists|k: int|
                0 <= k < self.backends_view().len() && self.backends_view()[k].0 == route_target(
                    self.rules_view(),
                    self.present(),
                    self.default_type(),
                    path@,
                ).unwrap() && (forall|j: int| 0 <= j < k ==> self.backends_view()[j].0 != self.backends_view()[k].0)
                    && *r == self.backends_view()[k].1,
    {
        let t = self.route_type(path);
        let t = t.unwrap();
        let k = self.find_backend(t);
        match k {
            Some(k) => {
                assert(self.backends_view()[k as int].0 == t);
                &self.backends[k].1
            },
            None => {
                proof {
                    lemma_route_target_present(self.rules_view(), self.present(), self.default_type(), path@);
                }
                &self.backends[0].1
            },
        }
    }

    /// The backends with their types.
    pub fn backends(&self) -> (r: &Vec<(BackendType, B)>)
        ensures
            r@ == self.backends_view(),
    {
        &self.backends
    }

    /// Each rule, in the order tried, as its description ("prefix:/api/*" and the like),
    /// backend type and priority.
    pub fn rules(&self) -> (r: Vec<(String, BackendType, u32)>)
        ensures
            r@.len() == self.rules_view().len(),
            forall|k: int|
                0 <= k < r@.len() ==> (#[trigger] r@[k]).0@ == rule_description(self.rules_view()[k].0)
                    && r@[k].1 == self.rules_view()[k].1 && r@[k].2 == self.rules_view()[k].2,
    {
        let mut out: Vec<(String, BackendType, u32)> = Vec::new();
        let mut k: usize = 0;
        while k < self.rules.len()
            invariant
                k <= self.rules@.len(),
                out@.len() == k,
                forall|j: int|
                    0 <= j < k ==> (#[trigger] out@[j]).0@ == rule_description(self.rules_view()[j].0)
                        && out@[j].1 == self.rules_view()[j].1 && out@[j].2 == self.rules_view()[j].2,
            decreases self.rules@.len() - k,
        {
            let rule = &self.rules[k];
            let desc = match &rule.pattern {
                PathPattern::Exact(s) => prefixed_message("exact:", s.as_str()),
                PathPattern::Prefix(s) => prefixed_message("prefix:", s.as_str()),
                PathPattern::Suffix(s) => prefixed_message("suffix:", s.as_str()),
                PathPattern::Regex(re) => prefixed_message("regex:", re.as_str()),
            };
            out.push((desc, rule.backend_type, rule.priority));
            k += 1;
        }
        out
    }
}

/// The rule found first names a present backend type.
pub proof fn lemma_first_route_present(rules: Seq<RuleView>, present: Seq<BackendType>, path: Seq<char>)
    ensures
        first_route(rules, present, path) matches Some(t) ==> present.contains(t),
    decreases rules.len(),
{
    if rules.len() > 0 {
        lemma_first_route_present(rules.drop_first(), present, path);
    }
}

/// When a route exists, the backend type it names is present.
pub proof fn lemma_route_target_present(
    rules: Seq<RuleView>,
    present: Seq<BackendType>,
    default_backend: BackendType,
    path: Seq<char>,
)
    ensures
        route_target(rules, present, default_backend, path) matches Some(t) ==> present.contains(t),
{
    lemma_first_route_present(rules, present, path);
}

} // verus!

verus! {

/// A rule can serve `path`: its pattern matches and its backend is present.
pub open spec fn eligible(rule: RuleView, present: Seq<BackendType>, path: Seq<char>) -> bool {
    view_matches(rule.0, path) && present.contains(rule.1)
}

/// Index of the first rule that can serve `path`.
pub open spec fn first_eligible(rules: Seq<RuleView>, present: Seq<BackendType>, path: Seq<char>) -> Option<int>
    decreases rules.len(),
{
    if rules.len() == 0 {
        None
    } else if eligible(rules[0], present, path) {
        Some(0)
    } else {
        match first_eligible(rules.drop_first(), present, path) {
            Some(i) => Some(i + 1),
            None => None,
        }
    }
}

/// Index of the configured rule that should serve `path`: among the rules that can, one of
/// highest priority, and the earliest of those.
pub open spec fn best_rule(rules: Seq<RuleView>, present: Seq<BackendType>, path: Seq<char>) -> Option<int>
    decreases rules.len(),
{
    if rules.len() == 0 {
        None
    } else {
        let b = best_rule(rules.drop_last(), present, path);
        let x = rules.last();
        if eligible(x, present, path) && (b is None || rules[b.unwrap()].2 < x.2) {
            Some(rules.len() - 1)
        } else {
            b
        }
    }
}

/// The priorities never increase along `s`.
pub open spec fn priorities_descend(s: Seq<RuleView>) -> bool {
    forall|i: int, j: int| 0 <= i < j < s.len() ==> s[i].2 >= s[j].2
}

proof fn lemma_first_eligible_bounds(rules: Seq<RuleView>, present: Seq<BackendType>, path: Seq<char>)
    ensures
        match first_eligible(rules, present, path) {
            Some(q) => 0 <= q < rules.len() && eligible(rules[q], present, path) && forall|j: int|
                0 <= j < q ==> !eligible(#[trigger] rules[j], present, path),
            None => forall|j: int| 0 <= j < rules.len() ==> !eligible(#[trigger] rules[j], present, path),
        },
    decreases rules.len(),
{
    if rules.len() > 0 {
        lemma_first_eligible_bounds(rules.drop_first(), present, path);
        if !eligible(rules[0], present, path) {
            assert forall|j: int| 0 < j < rules.len() implies rules[j] == rules.drop_first()[j - 1] by {}
        }
    }
}

proof fn lemma_first_eligible_unique(rules: Seq<RuleView>, present: Seq<BackendType>, path: Seq<char>, q: int)
    requires
        0 <= q < rules.len(),
        eligible(rules[q], present, path),
        forall|j: int| 0 <= j < q ==> !eligible(#[trigger] rules[j], present, path),
    ensures
        first_eligible(rules, present, path) == Some(q),
{
    lemma_first_eligible_bounds(rules, present, path);
    match first_eligible(rules, present, path) {
        Some(p) => {
            if p < q {
                assert(!eligible(rules[p], present, path));
            }
            if q < p {
                assert(!eligible(rules[q], present, path));
            }
        },
        None => {
            assert(!eligible(rules[q], present, path));
        },
    }
}

proof fn lemma_first_eligible_none(rules: Seq<RuleView>, present: Seq<BackendType>, path: Seq<char>)
    requires
        forall|j: int| 0 <= j < rules.len() ==> !eligible(#[trigger] rules[j], present, path),
    ensures
        first_eligible(rules, present, path) is None,
{
    lemma_first_eligible_bounds(rules, present, path);
}

/// The rule found first by the router is the first rule that can serve `path`.
proof fn lemma_first_route_is_first_eligible(rules: Seq<RuleView>, present: Seq<BackendType>, path: Seq<char>)
    ensures
        first_route(rules, present, path) == match first_eligible(rules, present, path) {
            Some(q) => Some(rules[q].1),
            None => None,
        },
    decreases rules.len(),
{
    if rules.len() > 0 {
        lemma_first_route_is_first_eligible(rules.drop_first(), present, path);
        match first_eligible(rules.drop_first(), present, path) {
            Some(q) => {
                lemma_first_eligible_bounds(rules.drop_first(), present, path);
                assert(rules.drop_first()[q] == rules[q + 1]);
            },
            None => {},
        }
    }
}

proof fn lemma_insertion_point(sorted: Seq<RuleView>, p: u32)
    requires
        priorities_descend(sorted),
    ensures
        0 <= insertion_point(sorted, p) <= sorted.len(),
        forall|j: int| 0 <= j < insertion_point(sorted, p) ==> sorted[j].2 >= p,
        forall|j: int| insertion_point(sorted, p) <= j < sorted.len() ==> sorted[j].2 < p,
    decreases sorted.len(),
{
    if sorted.len() > 0 {
        let rest = sorted.drop_first();
        assert(priorities_descend(rest)) by {
            assert forall|i: int, j: int| 0 <= i < j < rest.len() implies rest[i].2 >= rest[j].2 by {
                assert(rest[i] == sorted[i + 1] && rest[j] == sorted[j + 1]);
            }
        }
        lemma_insertion_point(rest, p);
        if sorted[0].2 >= p {
            assert forall|j: int| 1 <= j < sorted.len() implies sorted[j] == rest[j - 1] by {}
        } else {
            assert forall|j: int| 0 <= j < sorted.len() implies sorted[j].2 < p by {
                if j > 0 {
                    assert(sorted[0].2 >= sorted[j].2);
                }
            }
        }
    }
}

/// Sorting by priority yields non-increasing priorities.
proof fn lemma_sort_descends(rules: Seq<RuleView>)
    ensures
        priorities_descend(sort_by_priority(rules)),
        sort_by_priority(rules).len() == rules.len(),
    decreases rules.len(),
{
    if rules.len() > 0 {
        let sorted = sort_by_priority(rules.drop_last());
        lemma_sort_descends(rules.drop_last());
        let x = rules.last();
        let ip = insertion_point(sorted, x.2);
        lemma_insertion_point(sorted, x.2);
        let s2 = sorted.insert(ip, x);
        assert forall|i: int, j: int| 0 <= i < j < s2.len() implies s2[i].2 >= s2[j].2 by {
            if j < ip {
            } else if j == ip {
            } else if i < ip {
                assert(s2[j] == sorted[j - 1]);
            } else if i == ip {
                assert(s2[j] == sorted[j - 1]);
            } else {
                assert(s2[i] == sorted[i - 1] && s2[j] == sorted[j - 1]);
            }
        }
    }
}

/// The first rule in priority order that can serve `path` is the best configured rule.
proof fn lemma_sorted_first_is_best(rules: Seq<RuleView>, present: Seq<BackendType>, path: Seq<char>)
    ensures
        match best_rule(rules, present, path) {
            Some(i) => 0 <= i < rules.len() && (first_eligible(sort_by_priority(rules), present, path) matches Some(q)
                && sort_by_priority(rules)[q] == rules[i]),
            None => first_eligible(sort_by_priority(rules), present, path) is None,
        },
    decreases rules.len(),
{
    if rules.len() > 0 {
        let init = rules.drop_last();
        let sorted = sort_by_priority(init);
        lemma_sorted_first_is_best(init, present, path);
        lemma_sort_descends(init);
        let x = rules.last();
        let ip = insertion_point(sorted, x.2);
        lemma_insertion_point(sorted, x.2);
        let s2 = sorted.insert(ip, x);
        assert(sort_by_priority(rules) == s2);
        lemma_first_eligible_bounds(sorted, present, path);
        let b = best_rule(init, present, path);
        match first_eligible(sorted, present, path) {
            Some(q) => {
                let i = b.unwrap();
                assert(init[i] == rules[i]);
                if q < ip {
                    assert(s2[q] == sorted[q]);
                    assert forall|j: int| 0 <= j < q implies !eligible(#[trigger] s2[j], present, path) by {
                        assert(s2[j] == sorted[j]);
                    }
                    lemma_first_eligible_unique(s2, present, path, q);
                    assert(sorted[q].2 >= x.2);
                } else {
                    assert(sorted[q].2 < x.2);
                    if eligible(x, present, path) {
                        assert forall|j: int| 0 <= j < ip implies !eligible(#[trigger] s2[j], present, path) by {
                            assert(s2[j] == sorted[j]);
                        }
                        lemma_first_eligible_unique(s2, present, path, ip);
                    } else {
                        assert(s2[q + 1] == sorted[q]);
                        assert forall|j: int| 0 <= j < q + 1 implies !eligible(#[trigger] s2[j], present, path) by {
                            if j < ip {
                                assert(s2[j] == sorted[j]);
                            } else if j > ip {
                                assert(s2[j] == sorted[j - 1]);
                            }
                        }
                        lemma_first_eligible_unique(s2, present, path, q + 1);
                    }
                }
            },
            None => {
                if eligible(x, present, path) {
                    assert forall|j: int| 0 <= j < ip implies !eligible(#[trigger] s2[j], present, path) by {
                        assert(s2[j] == sorted[j]);
                    }
                    lemma_first_eligible_unique(s2, present, path, ip);
                } else {
                    assert forall|j: int| 0 <= j < s2.len() implies !eligible(#[trigger] s2[j], present, path) by {
                        if j < ip {
                            assert(s2[j] == sorted[j]);
                        } else if j > ip {
                            assert(s2[j] == sorted[j - 1]);
                        }
                    }
                    lemma_first_eligible_none(s2, present, path);
                }
            },
        }
    }
}

/// What the best configured rule is: one that can serve `path`, of priority no lower than
/// any other that can, and the earliest among those of its priority; none when no rule can.
proof fn lemma_best_rule_characterized(rules: Seq<RuleView>, present: Seq<BackendType>, path: Seq<char>)
    ensures
        match best_rule(rules, present, path) {
            Some(i) => 0 <= i < rules.len() && eligible(rules[i], present, path) && forall|j: int|
                0 <= j < rules.len() && eligible(#[trigger] rules[j], present, path) ==> rules[j].2 <= rules[i].2
                    && (rules[j].2 == rules[i].2 ==> i <= j),
            None => forall|j: int| 0 <= j < rules.len() ==> !eligible(#[trigger] rules[j], present, path),
        },
    decreases rules.len(),
{
    if rules.len() > 0 {
        let init = rules.drop_last();
        lemma_best_rule_characterized(init, present, path);
        assert forall|j: int| 0 <= j < init.len() implies init[j] == rules[j] by {}
    }
}

/// Routing law: the router sends `path` to the backend of the configured rule of highest
/// priority among those whose pattern matches and whose backend is present, the earliest
/// configured of them on a tie; and when there is no such rule, to the default backend if
/// it is present.
pub proof fn lemma_route_prefers_priority(
    rules: Seq<RuleView>,
    present: Seq<BackendType>,
    default_backend: BackendType,
    path: Seq<char>,
)
    ensures
        match best_rule(rules, present, path) {
            Some(i) => {
                &&& 0 <= i < rules.len()
                &&& eligible(rules[i], present, path)
                &&& forall|j: int| 0 <= j < rules.len() && eligible(#[trigger] rules[j], present, path)
                    ==> rules[j].2 <= rules[i].2 && (rules[j].2 == rules[i].2 ==> i <= j)
                &&& route_target(sort_by_priority(rules), present, default_backend, path) == Some(rules[i].1)
            },
            None => {
                &&& forall|j: int| 0 <= j < rules.len() ==> !eligible(#[trigger] rules[j], present, path)
                &&& route_target(sort_by_priority(rules), present, default_backend, path) == if present.contains(
                    default_backend,
                ) {
                    Some(default_backend)
                } else {
                    None
                }
            },
        },
{
    lemma_best_rule_characterized(rules, present, path);
    lemma_sorted_first_is_best(rules, present, path);
    lemma_first_route_is_first_eligible(sort_by_priority(rules), present, path);
}

} // verus!
