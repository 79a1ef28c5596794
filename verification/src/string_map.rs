//! Maps from names to values that keep the order in which names were first set.
use vstd::prelude::*;

verus! {

broadcast use vstd::string::group_string_axioms;

/// The map a list of insertions leaves: a later insertion of a name replaces the value of an
/// earlier one.
pub open spec fn assoc_map(s: Seq<(String, String)>) -> Map<Seq<char>, Seq<char>>
    decreases s.len(),
{
    if s.len() == 0 {
        Map::empty()
    } else {
        assoc_map(s.drop_last()).insert(s.last().0@, s.last().1@)
    }
}

/// No name occurs twice in the list.
pub open spec fn names_unique(s: Seq<(String, String)>) -> bool {
    forall|i: int, j: int| 0 <= i < j < s.len() ==> s[i].0@ != s[j].0@
}

/// A map from names to values; each name occurs once, in the order it was first set.
#[derive(Debug)]
pub struct StringMap {
    entries: Vec<(String, String)>,
}

impl View for StringMap {
    type V = Map<Seq<char>, Seq<char>>;

    closed spec fn view(&self) -> Map<Seq<char>, Seq<char>> {
        assoc_map(self.entries@)
    }
}

impl StringMap {
    #[verifier::type_invariant]
    closed spec fn inv(self) -> bool {
        names_unique(self.entries@)
    }

    /// The names and values, in the order the names were first set.
    pub closed spec fn entries_view(self) -> Seq<(String, String)> {
        self.entries@
    }

    /// No headers.
    pub fn new() -> (r: StringMap)
        ensures
            r@ == Map::<Seq<char>, Seq<char>>::empty(),
            r.entries_view().len() == 0,
    {
        StringMap { entries: Vec::new() }
    }

    /// Position of `name` in the list, if present.
    fn position(&self, name: &str) -> (r: Option<usize>)
        ensures
            match r {
                Some(k) => k < self.entries@.len() && self.entries@[k as int].0@ == name@,
                None => forall|j: int| 0 <= j < self.entries@.len() ==> (#[trigger] self.entries@[j]).0@ != name@,
            },
    {
        let key = name.to_string();
        let mut k: usize = 0;
        while k < self.entries.len()
            invariant
                k <= self.entries@.len(),
                key@ == name@,
                forall|j: int| 0 <= j < k ==> (#[trigger] self.entries@[j]).0@ != name@,
            decreases self.entries@.len() - k,
        {
            if self.entries[k].0 == key {
                return Some(k);
            }
            k += 1;
        }
        None
    }

    /// Sets `name` to `value`, replacing any value it had.
    pub fn insert(&mut self, name: String, value: String)
        ensures
            final(self)@ == old(self)@.insert(name@, value@),
            old(self)@.dom().contains(name@) ==> final(self).entries_view().len() == old(self).entries_view().len(),
            !old(self)@.dom().contains(name@) ==> final(self).entries_view() == old(self).entries_view().push((name, value)),
    {
        proof {
            use_type_invariant(&*self);
        }
        let ghost old_entries = self.entries@;
        match self.position(name.as_str()) {
            Some(k) => {
                proof {
                    lemma_assoc_map_update(old_entries, k as int, name, value);
                }
                let mut entries: Vec<(String, String)> = Vec::new();
                std::mem::swap(&mut entries, &mut self.entries);
                entries.set(k, (name, value));
                self.entries = entries;
                proof {
                    lemma_assoc_map_contains(old_entries, name@);
                }
            },
            None => {
                proof {
                    lemma_assoc_map_contains(old_entries, name@);
                }
                assert(names_unique(old_entries.push((name, value)))) by {
                    let t = old_entries.push((name, value));
                    assert forall|a: int, b: int| 0 <= a < b < t.len() implies t[a].0@ != t[b].0@ by {
                        if b == old_entries.len() {
                            assert(t[a] == old_entries[a]);
                        }
                    }
                }
                let mut entries: Vec<(String, String)> = Vec::new();
                std::mem::swap(&mut entries, &mut self.entries);
                entries.push((name, value));
                self.entries = entries;
                assert(self.entries@.drop_last() =~= old_entries);
            },
        }
    }

    /// Whether `name` has a value.
    pub fn contains_key(&self, name: &str) -> (r: bool)
        ensures
            r == self@.dom().contains(name@),
    {
        proof {
            lemma_assoc_map_contains(self.entries@, name@);
        }
        self.position(name).is_some()
    }

    /// The value of `name`, if any.
    pub fn get(&self, name: &str) -> (r: Option<String>)
        ensures
            match r {
                Some(v) => self@.dom().contains(name@) && self@[name@] == v@,
                None => !self@.dom().contains(name@),
            },
    {
        proof {
            use_type_invariant(self);
            lemma_assoc_map_contains(self.entries@, name@);
        }
        match self.position(name) {
            Some(k) => {
                proof {
                    lemma_assoc_map_unique_value(self.entries@, k as int);
                }
                Some(self.entries[k].1.clone())
            },
            None => None,
        }
    }

    /// Number of names with a value.
    pub fn len(&self) -> (r: usize)
        ensures
            r == self@.dom().len(),
            r == self.entries_view().len(),
    {
        proof {
            use_type_invariant(self);
            lemma_assoc_map_len(self.entries@);
        }
        self.entries.len()
    }

    /// Removes every name.
    pub fn clear(&mut self)
        ensures
            final(self)@ == Map::<Seq<char>, Seq<char>>::empty(),
            final(self).entries_view().len() == 0,
    {
        self.entries = Vec::new();
    }

    /// The names and values, in the order the names were first set.
    pub fn entries(&self) -> (r: &Vec<(String, String)>)
        ensures
            r@ == self.entries_view(),
            assoc_map(r@) == self@,
            names_unique(r@),
    {
        proof {
            use_type_invariant(self);
        }
        &self.entries
    }
}

impl Clone for StringMap {
    /// The same names with copies of the same values.
    fn clone(&self) -> (r: Self)
        ensures
            r@ == self@,
    {
        proof {
            use_type_invariant(self);
        }
        let mut r = StringMap::new();
        let mut i: usize = 0;
        while i < self.entries.len()
            invariant
                i <= self.entries@.len(),
                r@ == assoc_map(self.entries@.subrange(0, i as int)),
            decreases self.entries@.len() - i,
        {
            let ghost pre = self.entries@.subrange(0, i as int);
            assert(self.entries@.subrange(0, i + 1).drop_last() =~= pre);
            r.insert(self.entries[i].0.clone(), self.entries[i].1.clone());
            i += 1;
        }
        assert(self.entries@.subrange(0, self.entries@.len() as int) =~= self.entries@);
        r
    }
}

/// With unique names, the map has as many names as the list has entries.
pub proof fn lemma_assoc_map_len(s: Seq<(String, String)>)
    requires
        names_unique(s),
    ensures
        assoc_map(s).dom().finite(),
        assoc_map(s).dom().len() == s.len(),
    decreases s.len(),
{
    if s.len() > 0 {
        let init = s.drop_last();
        assert(names_unique(init)) by {
            assert forall|a: int, b: int| 0 <= a < b < init.len() implies init[a].0@ != init[b].0@ by {
                assert(init[a] == s[a] && init[b] == s[b]);
            }
        }
        lemma_assoc_map_len(init);
        lemma_assoc_map_contains(init, s.last().0@);
        assert forall|j: int| 0 <= j < init.len() implies (#[trigger] init[j]).0@ != s.last().0@ by {
            assert(init[j] == s[j]);
        }
        assert(assoc_map(s).dom() =~= assoc_map(init).dom().insert(s.last().0@));
    }
}

/// A name has a value exactly when some insertion set it.
pub proof fn lemma_assoc_map_contains(s: Seq<(String, String)>, k: Seq<char>)
    ensures
        assoc_map(s).dom().contains(k) <==> exists|j: int| 0 <= j < s.len() && (#[trigger] s[j]).0@ == k,
    decreases s.len(),
{
    if s.len() > 0 {
        lemma_assoc_map_contains(s.drop_last(), k);
        if exists|j: int| 0 <= j < s.len() && (#[trigger] s[j]).0@ == k {
            let j = choose|j: int| 0 <= j < s.len() && (#[trigger] s[j]).0@ == k;
            if j < s.len() - 1 {
                assert(s.drop_last()[j] == s[j]);
            }
        }
        if exists|j: int| 0 <= j < s.drop_last().len() && (#[trigger] s.drop_last()[j]).0@ == k {
            let j = choose|j: int| 0 <= j < s.drop_last().len() && (#[trigger] s.drop_last()[j]).0@ == k;
            assert(s[j] == s.drop_last()[j]);
        }
    }
}

/// With unique names, the map gives each listed name its listed value.
pub proof fn lemma_assoc_map_unique_value(s: Seq<(String, String)>, i: int)
    requires
        names_unique(s),
        0 <= i < s.len(),
    ensures
        assoc_map(s).dom().contains(s[i].0@),
        assoc_map(s)[s[i].0@] == s[i].1@,
    decreases s.len(),
{
    if i < s.len() - 1 {
        let init = s.drop_last();
        assert(names_unique(init)) by {
            assert forall|a: int, b: int| 0 <= a < b < init.len() implies init[a].0@ != init[b].0@ by {
                assert(init[a] == s[a] && init[b] == s[b]);
            }
        }
        assert(init[i] == s[i]);
        lemma_assoc_map_unique_value(init, i);
    }
}

/// Replacing the value of a listed name sets that name in the map and keeps names unique.
pub proof fn lemma_assoc_map_update(s: Seq<(String, String)>, i: int, name: String, value: String)
    requires
        names_unique(s),
        0 <= i < s.len(),
        s[i].0@ == name@,
    ensures
        assoc_map(s.update(i, (name, value))) == assoc_map(s).insert(name@, value@),
        names_unique(s.update(i, (name, value))),
    decreases s.len(),
{
    let t = s.update(i, (name, value));
    assert(names_unique(t)) by {
        assert forall|a: int, b: int| 0 <= a < b < t.len() implies t[a].0@ != t[b].0@ by {
            if a == i {
                assert(s[b].0@ != s[i].0@);
            } else if b == i {
                assert(s[a].0@ != s[i].0@);
            }
        }
    }
    let init = s.drop_last();
    assert(names_unique(init)) by {
        assert forall|a: int, b: int| 0 <= a < b < init.len() implies init[a].0@ != init[b].0@ by {
            assert(init[a] == s[a] && init[b] == s[b]);
        }
    }
    if i == s.len() - 1 {
        assert(t.drop_last() =~= init);
        lemma_assoc_map_contains(init, name@);
        assert forall|j: int| 0 <= j < init.len() implies (#[trigger] init[j]).0@ != name@ by {
            assert(init[j] == s[j]);
        }
        assert(assoc_map(t) =~= assoc_map(s).insert(name@, value@));
    } else {
        assert(init[i] == s[i]);
        lemma_assoc_map_update(init, i, name, value);
        assert(t.drop_last() =~= init.update(i, (name, value)));
        assert(t.last() == s.last());
        assert(s.last().0@ != name@);
        assert(assoc_map(t) =~= assoc_map(s).insert(name@, value@));
    }
}

/// Reading a name back after setting it gives the value set; every other name keeps its
/// value.
pub proof fn lemma_read_after_write(m: Map<Seq<char>, Seq<char>>, name: Seq<char>, value: Seq<char>, other: Seq<char>)
    requires
        other != name,
    ensures
        m.insert(name, value).dom().contains(name),
        m.insert(name, value)[name] == value,
        m.insert(name, value).dom().contains(other) == m.dom().contains(other),
        m.dom().contains(other) ==> m.insert(name, value)[other] == m[other],
{
}

} // verus!
