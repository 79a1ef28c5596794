//! Splitting traffic between deployment variants by weight, optionally keeping each user
//! on the variant first chosen for them.
use vstd::prelude::*;
use crate::config::VariantConfig;
use crate::error::ParseError;
use crate::string_map::StringMap;

verus! {

broadcast use vstd::string::group_string_axioms;

/// Sum of the weights.
pub open spec fn weight_sum(ws: Seq<u32>) -> int
    decreases ws.len(),
{
    if ws.len() == 0 {
        0
    } else {
        weight_sum(ws.drop_last()) + ws.last()
    }
}

/// The weights of the variants, in order.
pub open spec fn weights_of(vs: Seq<VariantConfig>) -> Seq<u32> {
    vs.map_values(|v: VariantConfig| v.weight)
}

/// The variant a target value falls on when the variants take consecutive ranges of the
/// targets, each as wide as its weight.
pub open spec fn weighted_index(ws: Seq<u32>, target: int) -> Option<int>
    decreases ws.len(),
{
    if ws.len() == 0 {
        None
    } else if target < ws[0] {
        Some(0)
    } else {
        match weighted_index(ws.drop_first(), target - ws[0]) {
            Some(i) => Some(i + 1),
            None => None,
        }
    }
}

/// The variant chosen for a target: the one it falls on, or the first.
pub open spec fn weighted_choice(ws: Seq<u32>, target: int) -> int {
    match weighted_index(ws, target) {
        Some(i) => i,
        None => 0,
    }
}

/// The target used for a selection counter: the counter truncated to 32 bits, modulo the
/// total weight.
pub open spec fn target_for(counter: usize, total: u32) -> int {
    (counter as u32) as int % (total as int)
}

/// Index of the first variant called `name`.
pub open spec fn variant_named(vs: Seq<VariantConfig>, name: Seq<char>) -> Option<int>
    decreases vs.len(),
{
    if vs.len() == 0 {
        None
    } else if vs[0].name@ == name {
        Some(0)
    } else {
        match variant_named(vs.drop_first(), name) {
            Some(i) => Some(i + 1),
            None => None,
        }
    }
}

/// The identity a request is kept sticky by: the user id, else the client address.
pub open spec fn sticky_identity(user_id: Option<Seq<char>>, ip_addr: Option<Seq<char>>) -> Option<Seq<char>> {
    match user_id {
        Some(u) => Some(u),
        None => ip_addr,
    }
}

/// The variant kept for `key` by an earlier assignment: the first variant carrying the
/// assigned name, if any does.
pub open spec fn kept_variant(vs: Seq<VariantConfig>, assignments: Map<Seq<char>, Seq<char>>, key: Seq<char>) -> Option<int> {
    if assignments.dom().contains(key) {
        variant_named(vs, assignments[key])
    } else {
        None
    }
}

/// One selection: the chosen variant's index, the counter after it and the assignments after
/// it. A sticky request with an identity keeps the variant it was assigned; otherwise the
/// variant is chosen by weight, the counter advances (wrapping), and a sticky request's
/// identity is assigned the chosen variant's name.
pub open spec fn selection(
    vs: Seq<VariantConfig>,
    counter: usize,
    total: u32,
    sticky: bool,
    assignments: Map<Seq<char>, Seq<char>>,
    id: Option<Seq<char>>,
) -> (int, usize, Map<Seq<char>, Seq<char>>) {
    let by_weight = weighted_choice(weights_of(vs), target_for(counter, total));
    if sticky && id is Some {
        match kept_variant(vs, assignments, id->0) {
            Some(k) => (k, counter, assignments),
            None => (by_weight, counter.wrapping_add(1), assignments.insert(id->0, vs[by_weight].name@)),
        }
    } else {
        (by_weight, counter.wrapping_add(1), assignments)
    }
}

/// Splits traffic between variants in proportion to their weights.
pub struct TrafficSplitter {
    variants: Vec<VariantConfig>,
    total_weight: u32,
    round_robin_counter: usize,
    sticky_sessions: bool,
    user_assignments: StringMap,
}

impl TrafficSplitter {
    /// The variants, in order.
    pub closed spec fn variants_view(&self) -> Seq<VariantConfig> {
        self.variants@
    }

    /// The sum of the variants' weights.
    pub closed spec fn total(&self) -> u32 {
        self.total_weight
    }

    /// The selection counter.
    pub closed spec fn counter(&self) -> usize {
        self.round_robin_counter
    }

    /// Whether users are kept on the variant first chosen for them.
    pub closed spec fn sticky(&self) -> bool {
        self.sticky_sessions
    }

    /// The variant name assigned to each user or client address.
    pub closed spec fn assignments(&self) -> Map<Seq<char>, Seq<char>> {
        self.user_assignments@
    }

    /// The total weight is the sum of the variants' weights.
    pub closed spec fn wf(&self) -> bool {
        self.total_weight as int == weight_sum(weights_of(self.variants@))
    }

    /// A splitter over `variants`. Fails when their weights sum to 0. The weights must sum
    /// to at most `u32::MAX`, as the sum is computed in a `u32`.
    pub fn new(variants: Vec<VariantConfig>, sticky_sessions: bool) -> (r: Result<TrafficSplitter, ParseError>)
        requires
            weight_sum(weights_of(variants@)) <= u32::MAX,
        ensures
            weight_sum(weights_of(variants@)) == 0 <==> r is Err,
            r matches Err(e) ==> e.message@ == "Total weight of variants must be greater than 0"@,
            r matches Ok(s) ==> {
                &&& s.wf()
                &&& s.variants_view() == variants@
                &&& s.total() > 0
                &&& s.counter() == 0
                &&& s.sticky() == sticky_sessions
                &&& s.assignments() == Map::<Seq<char>, Seq<char>>::empty()
            },
    {
        let total_weight = sum_weights(&variants);
        if total_weight == 0 {
            return Err(ParseError { message: "Total weight of variants must be greater than 0".to_string() });
        }
        Ok(TrafficSplitter {
            variants,
            total_weight,
            round_robin_counter: 0,
            sticky_sessions,
            user_assignments: StringMap::new(),
        })
    }

    /// Chooses the next variant by weight: the counter (truncated to 32 bits) modulo the
    /// total weight picks the variant whose range it falls in; the counter then advances,
    /// wrapping around.
    pub fn select_by_weight(&mut self) -> (r: usize)
        requires
            old(self).wf(),
            old(self).total() > 0,
        ensures
            final(self).wf(),
            r == weighted_choice(weights_of(old(self).variants_view()), target_for(old(self).counter(), old(self).total())),
            r < old(self).variants_view().len(),
            final(self).variants_view() == old(self).variants_view(),
            final(self).total() == old(self).total(),
            final(self).sticky() == old(self).sticky(),
            final(self).assignments() == old(self).assignments(),
            final(self).counter() == old(self).counter().wrapping_add(1),
    {
        let counter = self.round_robin_counter;
        self.round_robin_counter = counter.wrapping_add(1);
        let target: u32 = (counter as u32) % self.total_weight;
        let ws = variant_weights(&self.variants);
        weighted_pick(&ws, target)
    }

    /// Chooses a variant for a request. With sticky sessions and an identity (the user id,
    /// else the client address): a user already assigned to an existing variant gets it
    /// again; anyone else gets the next variant by weight, which is then recorded as theirs.
    /// Without stickiness or identity the next variant by weight is chosen.
    pub fn select_variant(&mut self, user_id: Option<&str>, ip_addr: Option<&str>) -> (r: &VariantConfig)
        requires
            old(self).wf(),
            old(self).total() > 0,
        ensures
            final(self).wf(),
            final(self).variants_view() == old(self).variants_view(),
            final(self).total() == old(self).total(),
            final(self).sticky() == old(self).sticky(),
            ({
                let id = sticky_identity(
                    match user_id {
                        Some(u) => Some(u@),
                        None => None,
                    },
                    match ip_addr {
                        Some(a) => Some(a@),
                        None => None,
                    },
                );
                let (k, counter, assignments) = selection(
                    old(self).variants_view(),
                    old(self).counter(),
                    old(self).total(),
                    old(self).sticky(),
                    old(self).assignments(),
                    id,
                );
                &&& *r == old(self).variants_view()[k]
                &&& final(self).counter() == counter
                &&& final(self).assignments() == assignments
            }),
    {
        if self.sticky_sessions {
            let identifier: Option<String> = match user_id {
                Some(u) => Some(u.to_string()),
                None => match ip_addr {
                    Some(a) => Some(a.to_string()),
                    None => None,
                },
            };
            if let Some(id) = identifier {
                if let Some(variant_name) = self.user_assignments.get(id.as_str()) {
                    if let Some(k) = find_variant(&self.variants, variant_name.as_str()) {
                        return &self.variants[k];
                    }
                }
                let k = self.select_by_weight();
                let name = self.variants[k].name.clone();
                self.user_assignments.insert(id, name);
                return &self.variants[k];
            }
        }
        let k = self.select_by_weight();
        &self.variants[k]
    }

    /// Sets the weight of every variant named in `new_weights` (the first entry for a name
    /// counts) and recomputes the total, which must stay within `u32::MAX`: the new total is
    /// the sum of the new weights.
    pub fn update_weights(&mut self, new_weights: &Vec<(String, u32)>)
        requires
            old(self).wf(),
            weight_sum(updated_weights(old(self).variants_view(), new_weights@)) <= u32::MAX,
        ensures
            final(self).wf(),
            final(self).variants_view().len() == old(self).variants_view().len(),
            weights_of(final(self).variants_view()) == updated_weights(old(self).variants_view(), new_weights@),
            final(self).total() as int == weight_sum(updated_weights(old(self).variants_view(), new_weights@)),
            forall|i: int| 0 <= i < final(self).variants_view().len() ==>
                (#[trigger] final(self).variants_view()[i]).name == old(self).variants_view()[i].name,
            final(self).counter() == old(self).counter(),
            final(self).sticky() == old(self).sticky(),
            final(self).assignments() == old(self).assignments(),
    {
        let ghost old_vs = self.variants@;
        let ghost old_counter = self.round_robin_counter;
        let ghost old_sticky = self.sticky_sessions;
        let ghost old_assignments = self.user_assignments@;
        let mut i: usize = 0;
        while i < self.variants.len()
            invariant
                self.round_robin_counter == old_counter,
                self.sticky_sessions == old_sticky,
                self.user_assignments@ == old_assignments,
                i <= self.variants@.len(),
                self.variants@.len() == old_vs.len(),
                forall|j: int| 0 <= j < self.variants@.len() ==> (#[trigger] self.variants@[j]).name == old_vs[j].name,
                forall|j: int| 0 <= j < i ==> (#[trigger] self.variants@[j]).weight == updated_weights(old_vs, new_weights@)[j],
                forall|j: int| i <= j < self.variants@.len() ==> (#[trigger] self.variants@[j]).weight == old_vs[j].weight,
            decreases self.variants@.len() - i,
        {
            match find_weight(new_weights, self.variants[i].name.as_str()) {
                Some(w) => {
                    let mut v = self.variants[i].clone_variant();
                    v.weight = w;
                    self.variants.set(i, v);
                },
                None => {},
            }
            i += 1;
        }
        proof {
            assert(weights_of(self.variants@) =~= updated_weights(old_vs, new_weights@));
        }
        self.total_weight = sum_weights(&self.variants);
    }

    /// Each variant's name and weight.
    pub fn get_weights(&self) -> (r: Vec<(String, u32)>)
        ensures
            r@.len() == self.variants_view().len(),
            forall|i: int| 0 <= i < r@.len() ==> (#[trigger] r@[i]).0@ == self.variants_view()[i].name@
                && r@[i].1 == self.variants_view()[i].weight,
    {
        let mut out: Vec<(String, u32)> = Vec::new();
        let mut i: usize = 0;
        while i < self.variants.len()
            invariant
                i <= self.variants@.len(),
                out@.len() == i,
                forall|j: int| 0 <= j < i ==> (#[trigger] out@[j]).0@ == self.variants@[j].name@ && out@[j].1
                    == self.variants@[j].weight,
            decreases self.variants@.len() - i,
        {
            out.push((self.variants[i].name.clone(), self.variants[i].weight));
            i += 1;
        }
        out
    }

    /// Forgets every sticky assignment.
    pub fn clear_sticky_sessions(&mut self)
        ensures
            final(self).assignments() == Map::<Seq<char>, Seq<char>>::empty(),
            final(self).variants_view() == old(self).variants_view(),
            final(self).total() == old(self).total(),
            final(self).counter() == old(self).counter(),
            final(self).sticky() == old(self).sticky(),
            old(self).wf() ==> final(self).wf(),
    {
        self.user_assignments.clear();
    }

    /// Number of users and addresses with a sticky assignment.
    pub fn sticky_session_count(&self) -> (r: usize)
        ensures
            r == self.assignments().dom().len(),
    {
        self.user_assignments.len()
    }
}

/// The weights after an update: a variant named in `updates` takes the first weight listed
/// for its name; the others keep theirs.
pub open spec fn updated_weights(vs: Seq<VariantConfig>, updates: Seq<(String, u32)>) -> Seq<u32> {
    Seq::new(
        vs.len(),
        |i: int|
            match first_weight(updates, vs[i].name@) {
                Some(w) => w,
                None => vs[i].weight,
            },
    )
}

/// The first weight listed for `name`.
pub open spec fn first_weight(updates: Seq<(String, u32)>, name: Seq<char>) -> Option<u32>
    decreases updates.len(),
{
    if updates.len() == 0 {
        None
    } else if updates[0].0@ == name {
        Some(updates[0].1)
    } else {
        first_weight(updates.drop_first(), name)
    }
}

impl VariantConfig {
    /// A copy of the variant.
    pub fn clone_variant(&self) -> (r: VariantConfig)
        ensures
            r == *self,
    {
        VariantConfig {
            name: self.name.clone(),
            weight: self.weight,
            upstream: self.upstream.clone(),
            metrics_tracking: self.metrics_tracking,
        }
    }
}

/// Index of the entry whose range of targets holds `target`, the entries taking
/// consecutive ranges as wide as their weights; the first entry when none does.
pub fn weighted_pick(ws: &Vec<u32>, target: u32) -> (r: usize)
    requires
        weight_sum(ws@) > 0,
    ensures
        r == weighted_choice(ws@, target as int),
        r < ws@.len(),
{
    let mut rest_target: u32 = target;
    let mut i: usize = 0;
    proof {
        lemma_weight_sum_positive_nonempty(ws@);
        assert(ws@.subrange(0, ws@.len() as int) =~= ws@);
    }
    while i < ws.len()
        invariant
            i <= ws@.len(),
            ws@.len() > 0,
            weighted_index(ws@, target as int) == match weighted_index(
                ws@.subrange(i as int, ws@.len() as int),
                rest_target as int,
            ) {
                Some(k) => Some(k + i),
                None => None,
            },
        decreases ws@.len() - i,
    {
        let w = ws[i];
        let ghost rest = ws@.subrange(i as int, ws@.len() as int);
        assert(rest[0] == w);
        assert(rest.drop_first() =~= ws@.subrange(i + 1, ws@.len() as int));
        if rest_target < w {
            return i;
        }
        rest_target = rest_target - w;
        i += 1;
    }
    proof {
        assert(ws@.subrange(ws@.len() as int, ws@.len() as int) =~= Seq::<u32>::empty());
    }
    0
}

/// The weights of the variants, in order.
fn variant_weights(variants: &Vec<VariantConfig>) -> (r: Vec<u32>)
    ensures
        r@ == weights_of(variants@),
{
    let mut out: Vec<u32> = Vec::new();
    let mut i: usize = 0;
    while i < variants.len()
        invariant
            i <= variants@.len(),
            out@ == weights_of(variants@).subrange(0, i as int),
        decreases variants@.len() - i,
    {
        out.push(variants[i].weight);
        i += 1;
    }
    assert(weights_of(variants@).subrange(0, variants@.len() as int) =~= weights_of(variants@));
    out
}

/// The first weight listed for `name`.
fn find_weight(updates: &Vec<(String, u32)>, name: &str) -> (r: Option<u32>)
    ensures
        r == first_weight(updates@, name@),
{
    let key = name.to_string();
    let mut i: usize = 0;
    assert(updates@.subrange(0, updates@.len() as int) =~= updates@);
    while i < updates.len()
        invariant
            i <= updates@.len(),
            key@ == name@,
            first_weight(updates@, name@) == first_weight(updates@.subrange(i as int, updates@.len() as int), name@),
        decreases updates@.len() - i,
    {
        let ghost rest = updates@.subrange(i as int, updates@.len() as int);
        assert(rest.drop_first() =~= updates@.subrange(i + 1, updates@.len() as int));
        if updates[i].0 == key {
            return Some(updates[i].1);
        }
        i += 1;
    }
    None
}

/// Index of the first variant called `name`.
pub fn find_variant(variants: &Vec<VariantConfig>, name: &str) -> (r: Option<usize>)
    ensures
        match r {
            Some(k) => variant_named(variants@, name@) == Some(k as int) && k < variants@.len(),
            None => variant_named(variants@, name@) is None,
        },
{
    let key = name.to_string();
    let mut i: usize = 0;
    assert(variants@.subrange(0, variants@.len() as int) =~= variants@);
    while i < variants.len()
        invariant
            i <= variants@.len(),
            key@ == name@,
            variant_named(variants@, name@) == match variant_named(variants@.subrange(i as int, variants@.len() as int), name@) {
                Some(k) => Some(k + i),
                None => None,
            },
        decreases variants@.len() - i,
    {
        let ghost rest = variants@.subrange(i as int, variants@.len() as int);
        assert(rest.drop_first() =~= variants@.subrange(i + 1, variants@.len() as int));
        if variants[i].name == key {
            return Some(i);
        }
        i += 1;
    }
    None
}

/// Sum of the variants' weights.
fn sum_weights(variants: &Vec<VariantConfig>) -> (r: u32)
    requires
        weight_sum(weights_of(variants@)) <= u32::MAX,
    ensures
        r as int == weight_sum(weights_of(variants@)),
{
    let mut total: u32 = 0;
    let mut i: usize = 0;
    while i < variants.len()
        invariant
            i <= variants@.len(),
            weight_sum(weights_of(variants@)) <= u32::MAX,
            total as int == weight_sum(weights_of(variants@).subrange(0, i as int)),
        decreases variants@.len() - i,
    {
        let ghost ws = weights_of(variants@);
        assert(ws.subrange(0, i + 1).drop_last() =~= ws.subrange(0, i as int));
        proof {
            lemma_weight_sum_prefix_bound(ws, i + 1);
        }
        total = total + variants[i].weight;
        i += 1;
    }
    assert(weights_of(variants@).subrange(0, variants@.len() as int) =~= weights_of(variants@));
    total
}

/// A prefix never weighs more than the whole.
pub proof fn lemma_weight_sum_prefix_bound(ws: Seq<u32>, k: int)
    requires
        0 <= k <= ws.len(),
    ensures
        weight_sum(ws.subrange(0, k)) <= weight_sum(ws),
        weight_sum(ws.subrange(0, k)) >= 0,
    decreases ws.len(),
{
    if k == ws.len() {
        assert(ws.subrange(0, k) =~= ws);
        lemma_weight_sum_nonneg(ws);
    } else {
        assert(ws.subrange(0, k) =~= ws.drop_last().subrange(0, k));
        lemma_weight_sum_prefix_bound(ws.drop_last(), k);
    }
}

/// Weights never sum below zero.
pub proof fn lemma_weight_sum_nonneg(ws: Seq<u32>)
    ensures
        weight_sum(ws) >= 0,
    decreases ws.len(),
{
    if ws.len() > 0 {
        lemma_weight_sum_nonneg(ws.drop_last());
    }
}

/// Positive total weight means there is a variant.
pub proof fn lemma_weight_sum_positive_nonempty(ws: Seq<u32>)
    ensures
        weight_sum(ws) > 0 ==> ws.len() > 0,
{
}

/// Sum of the first `k` weights: where the range of variant `k` begins.
pub open spec fn weight_prefix(ws: Seq<u32>, k: int) -> int {
    weight_sum(ws.subrange(0, k))
}

/// The sum splits into the first weight and the sum of the rest.
pub proof fn lemma_weight_sum_first(ws: Seq<u32>)
    requires
        ws.len() > 0,
    ensures
        weight_sum(ws) == ws[0] + weight_sum(ws.drop_first()),
    decreases ws.len(),
{
    if ws.len() > 1 {
        lemma_weight_sum_first(ws.drop_last());
        assert(ws.drop_last().drop_first() =~= ws.drop_first().drop_last());
    } else {
        assert(ws.drop_first() =~= Seq::<u32>::empty());
        assert(ws.drop_last() =~= Seq::<u32>::empty());
    }
}

/// A target falls on variant `i` exactly when it lies in that variant's range, from the sum
/// of the weights before it up to (not including) that sum plus its own weight.
pub proof fn lemma_weighted_index_range(ws: Seq<u32>, target: int, i: int)
    requires
        0 <= i < ws.len(),
        0 <= target,
    ensures
        weighted_index(ws, target) == Some(i) <==> weight_prefix(ws, i) <= target < weight_prefix(ws, i + 1),
        weight_prefix(ws, i + 1) == weight_prefix(ws, i) + ws[i],
    decreases ws.len(),
{
    assert(ws.subrange(0, i + 1).drop_last() =~= ws.subrange(0, i));
    assert(ws.subrange(0, 1).drop_last() =~= Seq::<u32>::empty());
    if target >= ws[0] {
        lemma_weighted_index_bounds(ws.drop_first(), target - ws[0]);
    }
    if i > 0 {
        let rest = ws.drop_first();
        lemma_weight_sum_first(ws.subrange(0, i));
        lemma_weight_sum_first(ws.subrange(0, i + 1));
        assert(ws.subrange(0, i).drop_first() =~= rest.subrange(0, i - 1));
        assert(ws.subrange(0, i + 1).drop_first() =~= rest.subrange(0, i));
        lemma_weight_sum_nonneg(rest.subrange(0, i - 1));
        if target >= ws[0] {
            lemma_weighted_index_range(rest, target - ws[0], i - 1);
        }
    }
}

/// Every target below the total falls on some variant.
pub proof fn lemma_weighted_index_total(ws: Seq<u32>, target: int)
    requires
        0 <= target < weight_sum(ws),
    ensures
        weighted_index(ws, target) matches Some(i) && 0 <= i < ws.len(),
    decreases ws.len(),
{
    lemma_weight_sum_positive_nonempty(ws);
    lemma_weight_sum_first(ws);
    if target >= ws[0] {
        lemma_weighted_index_total(ws.drop_first(), target - ws[0]);
    }
}

/// The choice by weight is always a valid index.
pub proof fn lemma_weighted_choice_in_range(ws: Seq<u32>, target: int)
    requires
        ws.len() > 0,
    ensures
        0 <= weighted_choice(ws, target) < ws.len(),
{
    lemma_weighted_index_bounds(ws, target);
}

/// A variant found for a target is a valid index.
pub proof fn lemma_weighted_index_bounds(ws: Seq<u32>, target: int)
    ensures
        weighted_index(ws, target) matches Some(i) ==> 0 <= i < ws.len(),
    decreases ws.len(),
{
    if ws.len() > 0 && target >= ws[0] {
        lemma_weighted_index_bounds(ws.drop_first(), target - ws[0]);
    }
}

/// Over one round of targets `0 .. total`, each variant is chosen for exactly as many
/// targets as its weight: the split follows the weights.
pub proof fn lemma_weighted_share(ws: Seq<u32>, i: int)
    requires
        0 <= i < ws.len(),
    ensures
        Set::new(|t: int| 0 <= t < weight_sum(ws) && weighted_choice(ws, t) == i).finite(),
        Set::new(|t: int| 0 <= t < weight_sum(ws) && weighted_choice(ws, t) == i).len() == ws[i] as nat,
{
    let chosen = Set::new(|t: int| 0 <= t < weight_sum(ws) && weighted_choice(ws, t) == i);
    let lo = weight_prefix(ws, i);
    let hi = weight_prefix(ws, i + 1);
    lemma_weighted_index_range(ws, 0, i);
    lemma_weight_sum_prefix_bound(ws, i);
    lemma_weight_sum_prefix_bound(ws, i + 1);
    assert forall|t: int| chosen.contains(t) <==> vstd::set_lib::set_int_range(lo, hi).contains(t) by {
        if 0 <= t < weight_sum(ws) {
            lemma_weighted_index_total(ws, t);
            lemma_weighted_index_range(ws, t, i);
        }
        if lo <= t < hi {
            lemma_weighted_index_range(ws, t, i);
        }
    }
    assert(chosen =~= vstd::set_lib::set_int_range(lo, hi));
    vstd::set_lib::lemma_int_range(lo, hi);
}

/// The first variant with a name carries that name.
pub proof fn lemma_variant_named(vs: Seq<VariantConfig>, name: Seq<char>)
    ensures
        variant_named(vs, name) matches Some(j) ==> 0 <= j < vs.len() && vs[j].name@ == name,
        (exists|j: int| 0 <= j < vs.len() && vs[j].name@ == name) ==> variant_named(vs, name) is Some,
    decreases vs.len(),
{
    if vs.len() > 0 {
        lemma_variant_named(vs.drop_first(), name);
        if exists|j: int| 0 <= j < vs.len() && vs[j].name@ == name {
            let j = choose|j: int| 0 <= j < vs.len() && vs[j].name@ == name;
            if j > 0 {
                assert(vs.drop_first()[j - 1] == vs[j]);
            }
        }
    }
}

/// With sticky sessions, once a request with an identity has been answered, the next request
/// with that identity is answered by a variant of the same name, without moving the counter
/// or changing any assignment.
pub proof fn lemma_sticky_selection_repeats(
    vs: Seq<VariantConfig>,
    counter: usize,
    total: u32,
    assignments: Map<Seq<char>, Seq<char>>,
    id: Seq<char>,
)
    requires
        vs.len() > 0,
    ensures
        ({
            let (k1, c1, a1) = selection(vs, counter, total, true, assignments, Some(id));
            let (k2, c2, a2) = selection(vs, c1, total, true, a1, Some(id));
            &&& 0 <= k1 < vs.len()
            &&& 0 <= k2 < vs.len()
            &&& vs[k2].name@ == vs[k1].name@
            &&& c2 == c1
            &&& a2 == a1
        }),
{
    let (k1, c1, a1) = selection(vs, counter, total, true, assignments, Some(id));
    lemma_weighted_choice_in_range(weights_of(vs), target_for(counter, total));
    if assignments.dom().contains(id) {
        lemma_variant_named(vs, assignments[id]);
    }
    lemma_variant_named(vs, a1[id]);
    assert(0 <= k1 < vs.len() && vs[k1].name@ == a1[id]);
}

/// The variants' names, in order.
pub open spec fn names_of(vs: Seq<VariantConfig>) -> Seq<Seq<char>> {
    vs.map_values(|v: VariantConfig| v.name@)
}

/// A series of sticky selections: each event gives the variants as they stand at that
/// time (weights may have been updated), their total weight and the request's identity.
/// The result is the counter and the assignments after all of them.
pub open spec fn sticky_run(
    counter: usize,
    assignments: Map<Seq<char>, Seq<char>>,
    events: Seq<(Seq<VariantConfig>, u32, Option<Seq<char>>)>,
) -> (usize, Map<Seq<char>, Seq<char>>)
    decreases events.len(),
{
    if events.len() == 0 {
        (counter, assignments)
    } else {
        let (c0, a0) = sticky_run(counter, assignments, events.drop_last());
        let e = events.last();
        let (k, c, a) = selection(e.0, c0, e.1, true, a0, e.2);
        (c, a)
    }
}

/// The identities of the requests of a series of events.
pub open spec fn identities_of(events: Seq<(Seq<VariantConfig>, u32, Option<Seq<char>>)>) -> Set<Seq<char>>
    decreases events.len(),
{
    if events.len() == 0 {
        Set::empty()
    } else {
        let rest = identities_of(events.drop_last());
        match events.last().2 {
            Some(id) => rest.insert(id),
            None => rest,
        }
    }
}

/// Variants with the same names find the same variant for a name.
proof fn lemma_variant_named_by_names(vs1: Seq<VariantConfig>, vs2: Seq<VariantConfig>, name: Seq<char>)
    requires
        names_of(vs1) == names_of(vs2),
    ensures
        variant_named(vs1, name) == variant_named(vs2, name),
    decreases vs1.len(),
{
    assert(vs1.len() == names_of(vs1).len());
    assert(vs2.len() == names_of(vs2).len());
    if vs1.len() > 0 {
        assert(names_of(vs1)[0] == vs1[0].name@);
        assert(names_of(vs2)[0] == vs2[0].name@);
        assert(names_of(vs1.drop_first()) =~= names_of(vs1).drop_first());
        assert(names_of(vs2.drop_first()) =~= names_of(vs2).drop_first());
        lemma_variant_named_by_names(vs1.drop_first(), vs2.drop_first(), name);
    }
}

/// Sticky-session law: once an identity has been assigned a variant, every later series of
/// selections (for any identities, with weights updated in between but the variants' names
/// kept) leaves that assignment as it is, and the next request with that identity is
/// answered by a variant of the assigned name without moving the counter or changing any
/// assignment. The identities assigned are those assigned before plus every identity seen,
/// so after clearing, the count of sticky sessions is the number of distinct identities
/// seen. Assigned names are always names of variants.
pub proof fn lemma_sticky_across_calls(
    names: Seq<Seq<char>>,
    counter: usize,
    assignments: Map<Seq<char>, Seq<char>>,
    events: Seq<(Seq<VariantConfig>, u32, Option<Seq<char>>)>,
    key: Seq<char>,
    vs: Seq<VariantConfig>,
    total: u32,
)
    requires
        names.len() > 0,
        forall|i: int| 0 <= i < events.len() ==> names_of(#[trigger] events[i].0) == names,
        forall|n: Seq<char>| #[trigger] assignments.dom().contains(n) ==> names.contains(assignments[n]),
        names_of(vs) == names,
    ensures
        ({
            let (c, a) = sticky_run(counter, assignments, events);
            &&& a.dom() == assignments.dom().union(identities_of(events))
            &&& forall|n: Seq<char>| #[trigger] a.dom().contains(n) ==> names.contains(a[n])
            &&& assignments.dom().contains(key) ==> a[key] == assignments[key]
            &&& a.dom().contains(key) ==> {
                let (k, c2, a2) = selection(vs, c, total, true, a, Some(key));
                &&& 0 <= k < vs.len()
                &&& vs[k].name@ == a[key]
                &&& c2 == c
                &&& a2 == a
            }
        }),
    decreases events.len(),
{
    let (c, a) = sticky_run(counter, assignments, events);
    if events.len() > 0 {
        let init = events.drop_last();
        assert forall|i: int| 0 <= i < init.len() implies names_of(#[trigger] init[i].0) == names by {
            assert(init[i] == events[i]);
        }
        lemma_sticky_across_calls(names, counter, assignments, init, key, vs, total);
        let (c0, a0) = sticky_run(counter, assignments, init);
        let e = events.last();
        assert(names_of(e.0) == names);
        assert(e.0.len() == names.len());
        match e.2 {
            Some(id) => {
                if a0.dom().contains(id) {
                    lemma_variant_named(e.0, a0[id]);
                    let j = choose|j: int| 0 <= j < names.len() && names[j] == a0[id];
                    assert(names_of(e.0)[j] == e.0[j].name@);
                }
                match kept_variant(e.0, a0, id) {
                    Some(k) => {},
                    None => {
                        let b = weighted_choice(weights_of(e.0), target_for(c0, e.1));
                        lemma_weighted_choice_in_range(weights_of(e.0), target_for(c0, e.1));
                        assert(names_of(e.0)[b] == e.0[b].name@);
                        assert(names.contains(e.0[b].name@));
                    },
                }
                assert(a.dom() =~= assignments.dom().union(identities_of(events)));
            },
            None => {
                assert(a.dom() =~= assignments.dom().union(identities_of(events)));
            },
        }
    } else {
        assert(a.dom() =~= assignments.dom().union(identities_of(events)));
    }
    if a.dom().contains(key) {
        let j = choose|j: int| 0 <= j < names.len() && names[j] == a[key];
        assert(names_of(vs)[j] == vs[j].name@);
        lemma_variant_named(vs, a[key]);
    }
}

} // verus!
