//! Slash-separated file-system paths, compared and taken apart as `std::path::Path` does
//! on Unix.
use vstd::prelude::*;
use crate::text::{append_chars, chars_of, chars_equal, copy_range, string_of};

verus! {

broadcast use vstd::string::group_string_axioms;

/// The pieces of `s` between '/' characters (empty pieces included).
pub open spec fn split_slash(s: Seq<char>) -> Seq<Seq<char>>
    decreases s.len(),
{
    if s.len() == 0 {
        seq![Seq::empty()]
    } else {
        let prev = split_slash(s.drop_last());
        if s.last() == '/' {
            prev.push(Seq::empty())
        } else {
            prev.update(prev.len() - 1, prev.last().push(s.last()))
        }
    }
}

/// Whether the `i`-th piece of a path is one of its components: empty pieces and "." are
/// dropped, except a "." that begins a relative path.
pub open spec fn kept_piece(pieces: Seq<Seq<char>>, i: int, absolute: bool) -> bool {
    pieces[i].len() > 0 && (pieces[i] != seq!['.'] || (i == 0 && !absolute))
}

/// The components among the first `n` pieces, in order.
pub open spec fn kept_pieces(pieces: Seq<Seq<char>>, n: int, absolute: bool) -> Seq<Seq<char>>
    decreases n,
{
    if n <= 0 {
        Seq::empty()
    } else if kept_piece(pieces, n - 1, absolute) {
        kept_pieces(pieces, n - 1, absolute).push(pieces[n - 1])
    } else {
        kept_pieces(pieces, n - 1, absolute)
    }
}

/// The named components of `s` (the root excluded).
pub open spec fn components(s: Seq<char>) -> Seq<Seq<char>> {
    let pieces = split_slash(s);
    kept_pieces(pieces, pieces.len() as int, is_absolute(s))
}

/// `s` starts at the root.
pub open spec fn is_absolute(s: Seq<char>) -> bool {
    s.len() > 0 && s[0] == '/'
}

/// `path` lies under `base`: both are absolute or both relative, and the components of
/// `base` begin those of `path` (what `Path::starts_with` tests).
pub open spec fn path_starts_with(path: Seq<char>, base: Seq<char>) -> bool {
    is_absolute(path) == is_absolute(base) && crate::text::seq_starts_with(components(path), components(base))
}

/// The final component of `s`, when it is a name (not ".", "..", or the root).
pub open spec fn file_name(s: Seq<char>) -> Option<Seq<char>> {
    let c = components(s);
    if c.len() == 0 {
        None
    } else if c.last() == seq!['.'] || c.last() == seq!['.', '.'] {
        None
    } else {
        Some(c.last())
    }
}

/// The extension of a file name: the text after its last '.', unless that '.' is its first
/// character.
pub open spec fn name_extension(name: Seq<char>) -> Option<Seq<char>> {
    match last_dot(name) {
        Some(i) => if i == 0 {
            None
        } else {
            Some(name.subrange(i + 1, name.len() as int))
        },
        None => None,
    }
}

/// Index of the last '.' in `s`.
pub open spec fn last_dot(s: Seq<char>) -> Option<int>
    decreases s.len(),
{
    if s.len() == 0 {
        None
    } else if s.last() == '.' {
        Some(s.len() - 1)
    } else {
        last_dot(s.drop_last())
    }
}

/// The extension of the file `s` names (what `Path::extension` returns).
pub open spec fn extension(s: Seq<char>) -> Option<Seq<char>> {
    match file_name(s) {
        Some(n) => name_extension(n),
        None => None,
    }
}

/// `base` joined with the relative path `rel` (what `Path::join` gives for a relative
/// argument): a '/' is put between them unless `base` is empty or already ends with one.
pub open spec fn join_relative(base: Seq<char>, rel: Seq<char>) -> Seq<char> {
    if base.len() == 0 || base.last() == '/' {
        base + rel
    } else {
        base + seq!['/'] + rel
    }
}

/// `base` joined with `p` (what `Path::join` gives): an absolute `p` replaces `base`.
pub open spec fn join_path(base: Seq<char>, p: Seq<char>) -> Seq<char> {
    if is_absolute(p) {
        p
    } else {
        join_relative(base, p)
    }
}

/// The pieces of `s` between '/' characters.
fn split_slash_exec(s: &[char]) -> (r: Vec<Vec<char>>)
    ensures
        r@.len() == split_slash(s@).len(),
        forall|i: int| 0 <= i < r@.len() ==> (#[trigger] r@[i])@ == split_slash(s@)[i],
{
    let mut out: Vec<Vec<char>> = Vec::new();
    let mut cur: Vec<char> = Vec::new();
    let mut i: usize = 0;
    assert(s@.subrange(0, 0) =~= Seq::<char>::empty());
    while i < s.len()
        invariant
            i <= s@.len(),
            split_slash(s@.subrange(0, i as int)).len() == out@.len() + 1,
            forall|j: int| 0 <= j < out@.len() ==> (#[trigger] out@[j])@ == split_slash(s@.subrange(0, i as int))[j],
            cur@ == split_slash(s@.subrange(0, i as int)).last(),
        decreases s@.len() - i,
    {
        let ghost pre = s@.subrange(0, i as int);
        let ghost next = s@.subrange(0, i + 1);
        assert(next.drop_last() =~= pre);
        let c = s[i];
        if c == '/' {
            let done = cur;
            out.push(done);
            cur = Vec::new();
            assert(cur@ =~= Seq::<char>::empty());
        } else {
            cur.push(c);
        }
        i += 1;
    }
    out.push(cur);
    assert(s@.subrange(0, s@.len() as int) =~= s@);
    out
}

/// Whether a piece is the single character '.'.
fn is_dot(p: &[char]) -> (r: bool)
    ensures
        r == (p@ == seq!['.']),
{
    if p.len() == 1 && p[0] == '.' {
        assert(p@ =~= seq!['.']);
        true
    } else {
        false
    }
}

/// The named components of `s`.
pub fn components_of(s: &[char]) -> (r: Vec<Vec<char>>)
    ensures
        r@.len() == components(s@).len(),
        forall|i: int| 0 <= i < r@.len() ==> (#[trigger] r@[i])@ == components(s@)[i],
{
    let pieces = split_slash_exec(s);
    let absolute = s.len() > 0 && s[0] == '/';
    let ghost sp = split_slash(s@);
    let mut out: Vec<Vec<char>> = Vec::new();
    let mut i: usize = 0;
    while i < pieces.len()
        invariant
            i <= pieces@.len(),
            pieces@.len() == sp.len(),
            sp == split_slash(s@),
            absolute == is_absolute(s@),
            forall|j: int| 0 <= j < pieces@.len() ==> (#[trigger] pieces@[j])@ == sp[j],
            out@.len() == kept_pieces(sp, i as int, absolute).len(),
            forall|j: int| 0 <= j < out@.len() ==> (#[trigger] out@[j])@ == kept_pieces(sp, i as int, absolute)[j],
        decreases pieces@.len() - i,
    {
        let p = &pieces[i];
        let keep = p.len() > 0 && (!is_dot(p) || (i == 0 && !absolute));
        if keep {
            let q = copy_range(p, 0, p.len());
            assert(q@ =~= p@);
            out.push(q);
        }
        i += 1;
    }
    out
}

/// Whether the components of `base` begin those of `path`.
fn components_prefix(path: &Vec<Vec<char>>, base: &Vec<Vec<char>>, pc: Ghost<Seq<Seq<char>>>, bc: Ghost<Seq<Seq<char>>>) -> (r: bool)
    requires
        path@.len() == pc@.len(),
        forall|i: int| 0 <= i < path@.len() ==> (#[trigger] path@[i])@ == pc@[i],
        base@.len() == bc@.len(),
        forall|i: int| 0 <= i < base@.len() ==> (#[trigger] base@[i])@ == bc@[i],
    ensures
        r == crate::text::seq_starts_with(pc@, bc@),
{
    if base.len() > path.len() {
        return false;
    }
    let mut i: usize = 0;
    while i < base.len()
        invariant
            base@.len() <= path@.len(),
            path@.len() == pc@.len(),
            forall|k: int| 0 <= k < path@.len() ==> (#[trigger] path@[k])@ == pc@[k],
            base@.len() == bc@.len(),
            forall|k: int| 0 <= k < base@.len() ==> (#[trigger] base@[k])@ == bc@[k],
            i <= base@.len(),
            forall|j: int| 0 <= j < i ==> pc@[j] == bc@[j],
        decreases base@.len() - i,
    {
        if !chars_equal(&path[i], &base[i]) {
            assert(pc@.subrange(0, bc@.len() as int)[i as int] != bc@[i as int]);
            return false;
        }
        i += 1;
    }
    assert(pc@.subrange(0, bc@.len() as int) =~= bc@);
    true
}

/// Whether `path` lies under `base` (see `path_starts_with`).
pub fn path_within(path: &str, base: &str) -> (r: bool)
    ensures
        r == path_starts_with(path@, base@),
{
    let p = chars_of(path);
    let b = chars_of(base);
    let pa = p.len() > 0 && p[0] == '/';
    let ba = b.len() > 0 && b[0] == '/';
    if pa != ba {
        return false;
    }
    let pc = components_of(&p);
    let bc = components_of(&b);
    components_prefix(&pc, &bc, Ghost(components(p@)), Ghost(components(b@)))
}

/// Index of the last '.' in `s`.
fn last_dot_exec(s: &[char]) -> (r: Option<usize>)
    ensures
        match last_dot(s@) {
            Some(i) => r == Some(i as usize) && 0 <= i < s@.len(),
            None => r is None,
        },
{
    let mut k: usize = s.len();
    assert(s@.subrange(0, k as int) =~= s@);
    while k > 0
        invariant
            k <= s@.len(),
            last_dot(s@) == last_dot(s@.subrange(0, k as int)),
        decreases k,
    {
        let ghost pre = s@.subrange(0, k as int);
        assert(pre.drop_last() =~= s@.subrange(0, k - 1));
        if s[k - 1] == '.' {
            return Some(k - 1);
        }
        k -= 1;
    }
    None
}

/// The extension of the file `path` names, if any.
pub fn extension_of(path: &str) -> (r: Option<Vec<char>>)
    ensures
        match extension(path@) {
            Some(e) => r matches Some(v) && v@ == e,
            None => r is None,
        },
{
    let p = chars_of(path);
    let comps = components_of(&p);
    if comps.len() == 0 {
        return None;
    }
    let last = &comps[comps.len() - 1];
    if is_dot(last) {
        return None;
    }
    if last.len() == 2 && last[0] == '.' && last[1] == '.' {
        assert(last@ =~= seq!['.', '.']);
        return None;
    }
    proof {
        assert(!(last@ =~= seq!['.', '.']));
    }
    match last_dot_exec(last) {
        Some(i) => {
            if i == 0 {
                None
            } else {
                Some(copy_range(last, i + 1, last.len()))
            }
        },
        None => None,
    }
}

/// `base` joined with the relative path `rel`.
pub fn join_relative_path(base: &str, rel: &[char]) -> (r: String)
    ensures
        r@ == join_relative(base@, rel@),
{
    let mut v = chars_of(base);
    if v.len() > 0 && v[v.len() - 1] != '/' {
        v.push('/');
    }
    append_chars(&mut v, rel);
    string_of(&v)
}

/// `base` joined with `p`; an absolute `p` replaces `base`.
pub fn join(base: &str, p: &str) -> (r: String)
    ensures
        r@ == join_path(base@, p@),
{
    let pc = chars_of(p);
    if pc.len() > 0 && pc[0] == '/' {
        return string_of(&pc);
    }
    join_relative_path(base, &pc)
}

} // verus!
