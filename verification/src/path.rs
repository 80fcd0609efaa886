//! Unix path strings: components, joining, and the component order that paths sort by.
use vstd::prelude::*;

use crate::text::chars_of;

verus! {

/// One component of a path, as `std::path::Path::components` yields it on Unix.
pub enum Comp {
    Root,
    Cur,
    Parent,
    Normal(Seq<char>),
}

/// The component named by one `/`-separated segment: empty and `.` segments name none.
pub open spec fn segment_comps(seg: Seq<char>) -> Seq<Comp> {
    if seg.len() == 0 || seg == seq!['.'] {
        seq![]
    } else if seg == seq!['.', '.'] {
        seq![Comp::Parent]
    } else {
        seq![Comp::Normal(seg)]
    }
}

/// Components of `s[start..]`, where the segment being read began at `start` and
/// `s[start..i]` holds no separator.
pub open spec fn body_comps(s: Seq<char>, start: int, i: int) -> Seq<Comp>
    decreases s.len() - i,
{
    if i < start || i >= s.len() {
        segment_comps(s.subrange(start, s.len() as int))
    } else if s[i] == '/' {
        segment_comps(s.subrange(start, i)) + body_comps(s, i + 1, i + 1)
    } else {
        body_comps(s, start, i + 1)
    }
}

/// Whether the path starts with a `.` component (`.` alone, or `./`).
pub open spec fn starts_with_cur(s: Seq<char>) -> bool {
    s.len() > 0 && s[0] == '.' && (s.len() == 1 || s[1] == '/')
}

/// The components of a path: a leading `/` is the root, a leading `.` component is kept,
/// repeated separators and later `.` segments are dropped.
pub open spec fn components(s: Seq<char>) -> Seq<Comp> {
    if s.len() > 0 && s[0] == '/' {
        seq![Comp::Root] + body_comps(s, 1, 1)
    } else if starts_with_cur(s) {
        seq![Comp::Cur] + body_comps(s, 1, 1)
    } else {
        body_comps(s, 0, 0)
    }
}

/// An executable path component.
#[derive(Debug, PartialEq, Eq)]
pub enum PathComponent {
    RootDir,
    CurDir,
    ParentDir,
    Normal(String),
}

impl View for PathComponent {
    type V = Comp;

    open spec fn view(&self) -> Comp {
        match self {
            PathComponent::RootDir => Comp::Root,
            PathComponent::CurDir => Comp::Cur,
            PathComponent::ParentDir => Comp::Parent,
            PathComponent::Normal(n) => Comp::Normal(n@),
        }
    }
}

/// The views of a list of components.
pub open spec fn comps_view(v: Seq<PathComponent>) -> Seq<Comp> {
    v.map_values(|c: PathComponent| c@)
}

fn push_segment(out: &mut Vec<PathComponent>, seg: &Vec<char>)
    ensures
        comps_view(final(out)@) == comps_view(old(out)@) + segment_comps(seg@),
{
    let ghost before = comps_view(out@);
    if seg.len() == 0 || (seg.len() == 1 && seg[0] == '.') {
        proof {
            if seg@.len() == 1 {
                assert(seg@ =~= seq!['.']);
            }
        }
        assert(comps_view(out@) =~= before + segment_comps(seg@));
    } else if seg.len() == 2 && seg[0] == '.' && seg[1] == '.' {
        assert(seg@ =~= seq!['.', '.']);
        out.push(PathComponent::ParentDir);
        assert(comps_view(out@) =~= before + segment_comps(seg@));
    } else {
        proof {
            if seg@ == seq!['.'] {
                assert(seg@.len() == 1);
            }
            if seg@ == seq!['.', '.'] {
                assert(seg@.len() == 2 && seg@[0] == '.' && seg@[1] == '.');
            }
        }
        let name = crate::text::string_from_chars(seg.as_slice());
        out.push(PathComponent::Normal(name));
        assert(comps_view(out@) =~= before + segment_comps(seg@));
    }
}

/// Splits a path into its components (`Path::components` on Unix).
pub fn path_components(path: &str) -> (out: Vec<PathComponent>)
    ensures
        comps_view(out@) == components(path@),
{
    let s = chars_of(path);
    let ghost sv = s@;
    let mut out: Vec<PathComponent> = Vec::new();
    let mut start: usize = 0;
    if s.len() > 0 && s[0] == '/' {
        out.push(PathComponent::RootDir);
        start = 1;
    } else if s.len() > 0 && s[0] == '.' && (s.len() == 1 || s[1] == '/') {
        out.push(PathComponent::CurDir);
        start = 1;
    }
    let ghost first = start as int;
    assert(comps_view(out@) + body_comps(sv, first, first) == components(sv));
    let mut seg: Vec<char> = Vec::new();
    let mut i: usize = start;
    while i < s.len()
        invariant
            sv == s@,
            sv == path@,
            start <= i <= sv.len(),
            seg@ == sv.subrange(start as int, i as int),
            comps_view(out@) + body_comps(sv, start as int, i as int) == components(sv),
        decreases sv.len() - i,
    {
        if s[i] == '/' {
            let ghost before = comps_view(out@);
            push_segment(&mut out, &seg);
            assert(comps_view(out@) + body_comps(sv, (i + 1) as int, (i + 1) as int)
                =~= before + body_comps(sv, start as int, i as int));
            seg = Vec::new();
            i += 1;
            start = i;
            assert(seg@ =~= sv.subrange(start as int, i as int));
        } else {
            seg.push(s[i]);
            i += 1;
            assert(seg@ =~= sv.subrange(start as int, i as int));
        }
    }
    let ghost before = comps_view(out@);
    push_segment(&mut out, &seg);
    assert(comps_view(out@) =~= before + body_comps(sv, start as int, i as int));
    out
}

/// `root.join(path)` on Unix: an absolute `path` replaces `root`; otherwise a separator
/// is inserted unless `root` is empty or already ends with one.
pub open spec fn join_spec(root: Seq<char>, path: Seq<char>) -> Seq<char> {
    if path.len() > 0 && path[0] == '/' {
        path
    } else if root.len() == 0 || root.last() == '/' {
        root + path
    } else {
        root + seq!['/'] + path
    }
}

/// Resolves `path` against `root` (`Path::join`).
pub fn resolve_path(root: &str, path: &str) -> (out: String)
    ensures
        out@ == join_spec(root@, path@),
{
    let p = chars_of(path);
    if p.len() > 0 && p[0] == '/' {
        return path.to_owned();
    }
    let mut out = chars_of(root);
    if !(out.len() == 0 || out[out.len() - 1] == '/') {
        out.push('/');
    }
    crate::text::append_chars(&mut out, p.as_slice());
    proof {
        if !(root@.len() == 0 || root@.last() == '/') {
            assert(out@ =~= root@ + seq!['/'] + path@);
        } else {
            assert(out@ =~= root@ + path@);
        }
    }
    crate::text::string_from_chars(out.as_slice())
}

/// The text of one component as `Component::as_os_str` gives it.
pub open spec fn comp_text(c: Comp) -> Seq<char> {
    match c {
        Comp::Root => seq!['/'],
        Comp::Cur => seq!['.'],
        Comp::Parent => seq!['.', '.'],
        Comp::Normal(n) => n,
    }
}

/// Component texts joined with `/`.
pub open spec fn join_comps(cs: Seq<Comp>) -> Seq<char>
    decreases cs.len(),
{
    if cs.len() == 0 {
        seq![]
    } else if cs.len() == 1 {
        comp_text(cs[0])
    } else {
        join_comps(cs.drop_last()) + seq!['/'] + comp_text(cs.last())
    }
}

/// A path written back from its components, joined with `/`.
pub open spec fn normalized_spec(s: Seq<char>) -> Seq<char> {
    join_comps(components(s))
}

fn append_comp(out: &mut Vec<char>, c: &PathComponent)
    ensures
        final(out)@ == old(out)@ + comp_text(c@),
{
    match c {
        PathComponent::RootDir => {
            out.push('/');
        },
        PathComponent::CurDir => {
            out.push('.');
        },
        PathComponent::ParentDir => {
            out.push('.');
            out.push('.');
        },
        PathComponent::Normal(n) => {
            crate::text::append_str(out, n.as_str());
        },
    }
    proof {
        match c@ {
            Comp::Root => { assert(final(out)@ =~= old(out)@ + seq!['/']); },
            Comp::Cur => { assert(final(out)@ =~= old(out)@ + seq!['.']); },
            Comp::Parent => { assert(final(out)@ =~= old(out)@ + seq!['.', '.']); },
            Comp::Normal(_) => {},
        }
    }
}

/// The path's components joined with `/` (how relative paths are displayed and matched).
pub fn normalize_relative_path(path: &str) -> (out: String)
    ensures
        out@ == normalized_spec(path@),
{
    let comps = path_components(path);
    let ghost cs = comps_view(comps@);
    let mut out: Vec<char> = Vec::new();
    let mut k: usize = 0;
    while k < comps.len()
        invariant
            cs == comps_view(comps@),
            cs.len() == comps@.len(),
            0 <= k <= cs.len(),
            out@ == join_comps(cs.subrange(0, k as int)),
        decreases cs.len() - k,
    {
        let ghost before = out@;
        if k > 0 {
            out.push('/');
        }
        append_comp(&mut out, &comps[k]);
        proof {
            let pre = cs.subrange(0, k as int);
            let next = cs.subrange(0, k + 1);
            assert(next.drop_last() =~= pre);
            assert(next.last() == comps@[k as int]@);
            if k == 0 {
                assert(out@ =~= comp_text(next[0]));
            } else {
                assert(out@ =~= before + seq!['/'] + comp_text(next.last()));
            }
        }
        k += 1;
    }
    assert(cs.subrange(0, cs.len() as int) =~= cs);
    crate::text::string_from_chars(out.as_slice())
}

} // verus!

verus! {

/// The sort code of one component: a tag for its kind, and for a normal component its
/// characters (shifted past the tags) and a terminator below every character.
pub open spec fn comp_key(c: Comp) -> Seq<u64> {
    match c {
        Comp::Root => seq![2u64],
        Comp::Cur => seq![3u64],
        Comp::Parent => seq![4u64],
        Comp::Normal(n) => seq![5u64] + n.map_values(|ch: char| ((ch as u32) as u64 + 6) as u64) + seq![1u64],
    }
}

/// The sort code of a component list; comparing codes lexicographically compares the
/// component lists lexicographically (root < `.` < `..` < names, names by code point).
pub open spec fn comps_key(cs: Seq<Comp>) -> Seq<u64>
    decreases cs.len(),
{
    if cs.len() == 0 {
        seq![]
    } else {
        comps_key(cs.drop_last()) + comp_key(cs.last())
    }
}

/// The sort code of a path string.
pub open spec fn path_key(s: Seq<char>) -> Seq<u64> {
    comps_key(components(s))
}

/// Lexicographic "less than" on codes.
pub open spec fn lex_lt(a: Seq<u64>, b: Seq<u64>) -> bool
    decreases a.len(),
{
    if a.len() == 0 {
        b.len() > 0
    } else if b.len() == 0 {
        false
    } else if a[0] < b[0] {
        true
    } else if a[0] > b[0] {
        false
    } else {
        lex_lt(a.drop_first(), b.drop_first())
    }
}

/// Exactly one of `a < b`, `a == b`, `b < a` holds.
pub proof fn lemma_lex_trichotomy(a: Seq<u64>, b: Seq<u64>)
    ensures
        lex_lt(a, b) || a == b || lex_lt(b, a),
        !(lex_lt(a, b) && lex_lt(b, a)),
        a == b ==> !lex_lt(a, b),
    decreases a.len(),
{
    if a.len() > 0 && b.len() > 0 && a[0] == b[0] {
        lemma_lex_trichotomy(a.drop_first(), b.drop_first());
        if a.drop_first() == b.drop_first() {
            assert(a =~= seq![a[0]] + a.drop_first());
            assert(b =~= seq![b[0]] + b.drop_first());
        }
    } else if a.len() == 0 && b.len() == 0 {
        assert(a =~= b);
    }
}

/// `<` on codes is transitive.
pub proof fn lemma_lex_transitive(a: Seq<u64>, b: Seq<u64>, c: Seq<u64>)
    requires
        lex_lt(a, b),
        lex_lt(b, c),
    ensures
        lex_lt(a, c),
    decreases a.len(),
{
    if a.len() > 0 && b.len() > 0 && c.len() > 0 && a[0] == b[0] && b[0] == c[0] {
        lemma_lex_transitive(a.drop_first(), b.drop_first(), c.drop_first());
    }
}

/// `<=` on codes: not greater.
pub open spec fn lex_le(a: Seq<u64>, b: Seq<u64>) -> bool {
    !lex_lt(b, a)
}

/// `<=` on codes is total and transitive.
pub proof fn lemma_lex_le_order(a: Seq<u64>, b: Seq<u64>, c: Seq<u64>)
    ensures
        lex_le(a, b) || lex_le(b, a),
        lex_le(a, b) && lex_le(b, c) ==> lex_le(a, c),
        lex_lt(a, b) && lex_le(b, c) ==> lex_lt(a, c),
        lex_le(a, b) && lex_lt(b, c) ==> lex_lt(a, c),
        lex_le(a, a),
{
    lemma_lex_trichotomy(a, b);
    lemma_lex_trichotomy(b, c);
    lemma_lex_trichotomy(a, c);
    lemma_lex_trichotomy(a, a);
    if lex_lt(c, a) && lex_lt(a, b) {
        lemma_lex_transitive(c, a, b);
    }
    if lex_lt(b, c) && lex_lt(c, a) {
        lemma_lex_transitive(b, c, a);
    }
    if lex_lt(a, b) && lex_lt(b, c) {
        lemma_lex_transitive(a, b, c);
    }
}

/// Compares two codes lexicographically.
pub fn lex_less(a: &[u64], b: &[u64]) -> (r: bool)
    ensures
        r == lex_lt(a@, b@),
{
    let mut i: usize = 0;
    assert(a@.skip(0) =~= a@ && b@.skip(0) =~= b@);
    while i < a.len() && i < b.len()
        invariant
            0 <= i <= a@.len(),
            i <= b@.len(),
            lex_lt(a@, b@) == lex_lt(a@.skip(i as int), b@.skip(i as int)),
        decreases a@.len() - i,
    {
        if a[i] < b[i] {
            return true;
        }
        if a[i] > b[i] {
            return false;
        }
        proof {
            let x = a@.skip(i as int);
            let y = b@.skip(i as int);
            assert(x.drop_first() =~= a@.skip(i + 1));
            assert(y.drop_first() =~= b@.skip(i + 1));
        }
        i += 1;
    }
    i < b.len()
}

fn push_comp_key(key: &mut Vec<u64>, c: &PathComponent)
    ensures
        final(key)@ == old(key)@ + comp_key(c@),
{
    let ghost before = key@;
    match c {
        PathComponent::RootDir => {
            key.push(2);
            assert(key@ =~= before + comp_key(c@));
        },
        PathComponent::CurDir => {
            key.push(3);
            assert(key@ =~= before + comp_key(c@));
        },
        PathComponent::ParentDir => {
            key.push(4);
            assert(key@ =~= before + comp_key(c@));
        },
        PathComponent::Normal(n) => {
            key.push(5);
            let chars = chars_of(n.as_str());
            let ghost mid = key@;
            let mut i: usize = 0;
            while i < chars.len()
                invariant
                    0 <= i <= chars@.len(),
                    chars@ == n@,
                    key@ == mid + chars@.subrange(0, i as int).map_values(|ch: char| ((ch as u32) as u64 + 6) as u64),
                decreases chars@.len() - i,
            {
                let v: u32 = chars[i] as u32;
                key.push(v as u64 + 6);
                proof {
                    let f = |ch: char| ((ch as u32) as u64 + 6) as u64;
                    assert(chars@.subrange(0, i + 1).map_values(f) =~= chars@.subrange(0, i as int).map_values(f).push(f(chars@[i as int])));
                }
                i += 1;
            }
            key.push(1);
            assert(chars@.subrange(0, chars@.len() as int) =~= chars@);
            assert(key@ =~= before + comp_key(c@));
        },
    }
}

/// The sort code of a path string.
pub fn path_sort_key(path: &str) -> (key: Vec<u64>)
    ensures
        key@ == path_key(path@),
{
    let comps = path_components(path);
    let ghost cs = comps_view(comps@);
    let mut key: Vec<u64> = Vec::new();
    let mut k: usize = 0;
    while k < comps.len()
        invariant
            cs == comps_view(comps@),
            cs.len() == comps@.len(),
            cs == components(path@),
            0 <= k <= cs.len(),
            key@ == comps_key(cs.subrange(0, k as int)),
        decreases cs.len() - k,
    {
        push_comp_key(&mut key, &comps[k]);
        proof {
            let next = cs.subrange(0, k + 1);
            assert(next.drop_last() =~= cs.subrange(0, k as int));
        }
        k += 1;
    }
    assert(cs.subrange(0, cs.len() as int) =~= cs);
    key
}

} // verus!

verus! {

/// The last component of a path when it is a name (`Path::file_name`).
pub open spec fn file_name_spec(path: Seq<char>) -> Option<Seq<char>> {
    let cs = components(path);
    if cs.len() > 0 && cs.last() is Normal {
        Some(cs.last()->Normal_0)
    } else {
        None
    }
}

/// The file name of a path, if its last component is a name.
pub fn file_name_of(path: &str) -> (r: Option<String>)
    ensures
        match r {
            Some(n) => file_name_spec(path@) == Some(n@),
            None => file_name_spec(path@) is None,
        },
{
    let comps = path_components(path);
    let ghost cs = comps_view(comps@);
    if comps.len() == 0 {
        return None;
    }
    assert(cs.last() == comps@[comps@.len() - 1]@);
    match &comps[comps.len() - 1] {
        PathComponent::Normal(n) => Some(n.clone()),
        _ => None,
    }
}

/// Two paths are equal component by component (`Path` equality).
pub open spec fn same_path(a: Seq<char>, b: Seq<char>) -> bool {
    components(a) == components(b)
}

fn comp_equal(a: &PathComponent, b: &PathComponent) -> (r: bool)
    ensures
        r == (a@ == b@),
{
    match (a, b) {
        (PathComponent::RootDir, PathComponent::RootDir) => true,
        (PathComponent::CurDir, PathComponent::CurDir) => true,
        (PathComponent::ParentDir, PathComponent::ParentDir) => true,
        (PathComponent::Normal(x), PathComponent::Normal(y)) => crate::text::str_eq(x.as_str(), y.as_str()),
        _ => false,
    }
}

/// Whether two paths are equal component by component.
pub fn paths_equal(a: &str, b: &str) -> (r: bool)
    ensures
        r == same_path(a@, b@),
{
    let ac = path_components(a);
    let bc = path_components(b);
    let ghost av = comps_view(ac@);
    let ghost bv = comps_view(bc@);
    if ac.len() != bc.len() {
        assert(av.len() != bv.len());
        return false;
    }
    let mut i: usize = 0;
    while i < ac.len()
        invariant
            av == comps_view(ac@),
            bv == comps_view(bc@),
            av == components(a@),
            bv == components(b@),
            ac@.len() == bc@.len(),
            0 <= i <= ac@.len(),
            forall|k: int| 0 <= k < i ==> av[k] == bv[k],
        decreases ac@.len() - i,
    {
        if !comp_equal(&ac[i], &bc[i]) {
            assert(av[i as int] != bv[i as int]);
            return false;
        }
        i += 1;
    }
    assert(av =~= bv);
    true
}

/// The parent of a path as its components joined with `/` (empty when there is none).
pub open spec fn parent_scope_spec(path: Seq<char>) -> Seq<char> {
    let cs = components(path);
    if cs.len() == 0 || cs.last() is Root {
        seq![]
    } else {
        join_comps(cs.drop_last())
    }
}

/// The directory a change belongs to: the path's parent, or the root (empty) when none.
pub fn parent_scope(path: &str) -> (out: String)
    ensures
        out@ == parent_scope_spec(path@),
{
    let comps = path_components(path);
    let ghost cs = comps_view(comps@);
    if comps.len() == 0 {
        return String::new();
    }
    let is_root = match &comps[comps.len() - 1] {
        PathComponent::RootDir => true,
        _ => false,
    };
    assert(cs.last() == comps@[comps@.len() - 1]@);
    if is_root {
        return String::new();
    }
    let n = comps.len() - 1;
    let ghost pre = cs.drop_last();
    let mut out: Vec<char> = Vec::new();
    let mut k: usize = 0;
    while k < n
        invariant
            cs == comps_view(comps@),
            n == cs.len() - 1,
            pre == cs.drop_last(),
            0 <= k <= n,
            out@ == join_comps(pre.subrange(0, k as int)),
        decreases n - k,
    {
        let ghost before = out@;
        if k > 0 {
            out.push('/');
        }
        append_comp(&mut out, &comps[k]);
        proof {
            let next = pre.subrange(0, k + 1);
            assert(next.drop_last() =~= pre.subrange(0, k as int));
            assert(next.last() == comps@[k as int]@);
            if k == 0 {
                assert(out@ =~= comp_text(next[0]));
            } else {
                assert(out@ =~= before + seq!['/'] + comp_text(next.last()));
            }
        }
        k += 1;
    }
    assert(pre.subrange(0, n as int) =~= pre);
    crate::text::string_from_chars(out.as_slice())
}

} // verus!
