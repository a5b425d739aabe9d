//! Unix paths as text: joining, components, comparison and prefixes, with
//! the meaning `std::path` gives them.
use crate::text::{
    bufs, chars_of, push_str, split_char, split_char_of, starts_with, string_of, text_le,
    text_le_exec, owned, join, join_strings, strs, lemma_join_push,
};
use vstd::prelude::*;

verus! {

/// `Path::join` / `PathBuf::push`: an absolute `child` replaces `base`;
/// otherwise a `/` is put between them unless `base` is empty or ends in one.
pub open spec fn spec_path_join(base: Seq<char>, child: Seq<char>) -> Seq<char> {
    if child.len() > 0 && child[0] == '/' {
        child
    } else if base.len() == 0 || base.last() == '/' {
        base + child
    } else {
        base + "/"@ + child
    }
}

/// The segments that remain after the first: empty and `.` ones vanish.
pub open spec fn normal_segments(segs: Seq<Seq<char>>) -> Seq<Seq<char>>
    decreases segs.len(),
{
    if segs.len() == 0 {
        seq![]
    } else {
        let rest = normal_segments(segs.drop_last());
        let s = segs.last();
        if s.len() == 0 || s == "."@ {
            rest
        } else {
            rest.push(s)
        }
    }
}

/// `Path::components` of a Unix path, each written as text: the root as
/// `/`, a leading current directory as `.`, a parent directory as `..`.
pub open spec fn components(p: Seq<char>) -> Seq<Seq<char>> {
    let segs = split_char(p, '/');
    if p.len() == 0 {
        seq![]
    } else if segs[0].len() == 0 {
        seq!["/"@] + normal_segments(segs.drop_first())
    } else if segs[0] == "."@ {
        seq!["."@] + normal_segments(segs.drop_first())
    } else {
        normal_segments(segs)
    }
}

/// Rank of a component in `Component`'s order: root, current directory,
/// parent directory, then names.
pub open spec fn component_rank(c: Seq<char>) -> nat {
    if c == "/"@ {
        0
    } else if c == "."@ {
        1
    } else if c == ".."@ {
        2
    } else {
        3
    }
}

pub open spec fn component_le(a: Seq<char>, b: Seq<char>) -> bool {
    component_rank(a) < component_rank(b) || (component_rank(a) == component_rank(b) && text_le(a, b))
}

/// Lexicographic order of component lists: the order of `Path`.
pub open spec fn components_le(a: Seq<Seq<char>>, b: Seq<Seq<char>>) -> bool
    decreases a.len(),
{
    if a.len() == 0 {
        true
    } else if b.len() == 0 {
        false
    } else if a[0] != b[0] {
        component_le(a[0], b[0])
    } else {
        components_le(a.drop_first(), b.drop_first())
    }
}

/// `Path == Path`: equal components.
pub open spec fn path_eq(a: Seq<char>, b: Seq<char>) -> bool {
    components(a) == components(b)
}

/// `Path::starts_with`: the components of `base` begin those of `p`.
pub open spec fn path_starts_with(p: Seq<char>, base: Seq<char>) -> bool {
    let c = components(p);
    let d = components(base);
    d.len() <= c.len() && c.take(d.len() as int) == d
}

// ---------------------------------------------------------------------------

/// `Path::join`.
pub fn path_join(base: &str, child: &str) -> (r: String)
    ensures
        r@ == spec_path_join(base@, child@),
{
    let b = chars_of(base);
    let c = chars_of(child);
    if c.len() > 0 && c[0] == '/' {
        return owned(child);
    }
    if b.len() == 0 || b[b.len() - 1] == '/' {
        let mut r = owned(base);
        push_str(&mut r, child);
        r
    } else {
        let mut r = owned(base);
        push_str(&mut r, "/");
        push_str(&mut r, child);
        r
    }
}

fn is_dot(s: &[char]) -> (r: bool)
    ensures
        r == (s@ == "."@),
{
    let r = s.len() == 1 && s[0] == '.';
    proof {
        reveal_strlit(".");
        if r {
            assert(s@ =~= "."@);
        }
    }
    r
}

fn is_dot_dot(s: &[char]) -> (r: bool)
    ensures
        r == (s@ == ".."@),
{
    let r = s.len() == 2 && s[0] == '.' && s[1] == '.';
    proof {
        reveal_strlit("..");
        if r {
            assert(s@ =~= ".."@);
        }
    }
    r
}

/// The components of a path, each as text (see `components`).
pub fn components_of(p: &str) -> (r: Vec<Vec<char>>)
    ensures
        bufs(r@) == components(p@),
{
    let v = chars_of(p);
    let mut r: Vec<Vec<char>> = Vec::new();
    if v.len() == 0 {
        return r;
    }
    let segs = split_char_of(&v, '/');
    let ghost sv = bufs(segs@);
    proof {
        // `split_char` always yields at least one piece.
        reveal_with_fuel(split_char, 1);
        crate::text::lemma_index_of_char_bounds(v@, '/');
    }
    assert(sv.len() > 0);
    let first_empty = segs[0].len() == 0;
    let first_dot = is_dot(segs[0].as_slice());
    if first_empty {
        r.push(chars_of("/"));
    } else if first_dot {
        r.push(chars_of("."));
    }
    let start: usize = if first_empty || first_dot {
        1
    } else {
        0
    };
    let ghost head = bufs(r@);
    let mut i = start;
    assert(sv.subrange(start as int, start as int) =~= Seq::<Seq<char>>::empty());
    while i < segs.len()
        invariant
            start <= i <= segs@.len(),
            sv == bufs(segs@),
            bufs(r@) == head + normal_segments(sv.subrange(start as int, i as int)),
        decreases segs.len() - i,
    {
        proof {
            let t = sv.subrange(start as int, i + 1);
            assert(t.drop_last() =~= sv.subrange(start as int, i as int));
            assert(t.last() == segs@[i as int]@);
        }
        let ghost before = bufs(r@);
        if segs[i].len() == 0 || is_dot(segs[i].as_slice()) {
        } else {
            let seg = crate::text::slice_range(segs[i].as_slice(), 0, segs[i].len());
            assert(seg@ =~= segs@[i as int]@);
            r.push(seg);
            assert(bufs(r@) =~= before.push(seg@));
        }
        i += 1;
    }
    proof {
        if start == 1 {
            assert(sv.subrange(1, sv.len() as int) =~= sv.drop_first());
        } else {
            assert(sv.subrange(0, sv.len() as int) =~= sv);
            assert(head =~= Seq::<Seq<char>>::empty());
        }
        assert(bufs(r@) =~= components(p@));
    }
    r
}

fn component_rank_of(c: &[char]) -> (r: u8)
    ensures
        r as nat == component_rank(c@),
{
    let root = c.len() == 1 && c[0] == '/';
    proof {
        reveal_strlit("/");
        if root {
            assert(c@ =~= "/"@);
        }
    }
    if root {
        0
    } else if is_dot(c) {
        1
    } else if is_dot_dot(c) {
        2
    } else {
        3
    }
}

fn bufs_eq(a: &[char], b: &[char]) -> (r: bool)
    ensures
        r == (a@ == b@),
{
    if a.len() != b.len() {
        return false;
    }
    let mut i: usize = 0;
    while i < a.len()
        invariant
            a.len() == b.len(),
            i <= a.len(),
            forall|j: int| 0 <= j < i ==> a@[j] == b@[j],
        decreases a.len() - i,
    {
        if a[i] != b[i] {
            return false;
        }
        i += 1;
    }
    assert(a@ =~= b@);
    true
}

/// `Path <= Path`.
pub fn path_le(a: &str, b: &str) -> (r: bool)
    ensures
        r == components_le(components(a@), components(b@)),
{
    let x = components_of(a);
    let y = components_of(b);
    let ghost xs = bufs(x@);
    let ghost ys = bufs(y@);
    let mut i: usize = 0;
    assert(xs.skip(0) =~= xs);
    assert(ys.skip(0) =~= ys);
    while i < x.len()
        invariant
            i <= x.len(),
            i <= y.len(),
            xs == bufs(x@),
            ys == bufs(y@),
            xs == components(a@),
            ys == components(b@),
            components_le(xs, ys) == components_le(xs.skip(i as int), ys.skip(i as int)),
        decreases x.len() - i,
    {
        if i >= y.len() {
            return false;
        }
        assert(xs.skip(i as int)[0] == x@[i as int]@);
        assert(ys.skip(i as int)[0] == y@[i as int]@);
        if !bufs_eq(x[i].as_slice(), y[i].as_slice()) {
            let ra = component_rank_of(x[i].as_slice());
            let rb = component_rank_of(y[i].as_slice());
            if ra < rb {
                return true;
            } else if ra == rb {
                return text_le_exec(x[i].as_slice(), y[i].as_slice());
            } else {
                return false;
            }
        }
        assert(xs.skip(i as int).drop_first() =~= xs.skip(i + 1));
        assert(ys.skip(i as int).drop_first() =~= ys.skip(i + 1));
        i += 1;
    }
    true
}

/// `Path == Path`.
pub fn path_eq_exec(a: &str, b: &str) -> (r: bool)
    ensures
        r == path_eq(a@, b@),
{
    let x = components_of(a);
    let y = components_of(b);
    if x.len() != y.len() {
        assert(bufs(x@).len() != bufs(y@).len());
        return false;
    }
    let mut i: usize = 0;
    while i < x.len()
        invariant
            bufs(x@) == components(a@),
            bufs(y@) == components(b@),
            x.len() == y.len(),
            i <= x.len(),
            forall|j: int| 0 <= j < i ==> x@[j]@ == y@[j]@,
        decreases x.len() - i,
    {
        if !bufs_eq(x[i].as_slice(), y[i].as_slice()) {
            assert(bufs(x@)[i as int] != bufs(y@)[i as int]);
            return false;
        }
        i += 1;
    }
    assert(bufs(x@) =~= bufs(y@));
    true
}

/// `Path::starts_with`.
pub fn path_starts_with_exec(p: &str, base: &str) -> (r: bool)
    ensures
        r == path_starts_with(p@, base@),
{
    let x = components_of(p);
    let y = components_of(base);
    if y.len() > x.len() {
        return false;
    }
    let mut i: usize = 0;
    while i < y.len()
        invariant
            bufs(x@) == components(p@),
            bufs(y@) == components(base@),
            y.len() <= x.len(),
            i <= y.len(),
            forall|j: int| 0 <= j < i ==> x@[j]@ == y@[j]@,
        decreases y.len() - i,
    {
        if !bufs_eq(x[i].as_slice(), y[i].as_slice()) {
            assert(bufs(x@).take(y.len() as int)[i as int] != bufs(y@)[i as int]);
            return false;
        }
        i += 1;
    }
    assert(bufs(x@).take(y.len() as int) =~= bufs(y@));
    true
}

/// The components of `p` after those of `base`, joined by `/`, when `p`
/// starts with `base` (the text `Path::strip_prefix` leaves, normalized).
pub open spec fn spec_strip_path_prefix(p: Seq<char>, base: Seq<char>) -> Option<Seq<char>> {
    if path_starts_with(p, base) {
        let c = components(p);
        Some(join(c.skip(components(base).len() as int), "/"@))
    } else {
        None
    }
}

/// `Path::strip_prefix`, normalized to components joined by `/`.
pub fn strip_path_prefix(p: &str, base: &str) -> (r: Option<String>)
    ensures
        crate::text::opt_view(r) == spec_strip_path_prefix(p@, base@),
{
    if !path_starts_with_exec(p, base) {
        return None;
    }
    let x = components_of(p);
    let y = components_of(base);
    let mut parts: Vec<String> = Vec::new();
    let mut i = y.len();
    let ghost xs = bufs(x@);
    assert(xs.subrange(y.len() as int, y.len() as int) =~= Seq::<Seq<char>>::empty());
    while i < x.len()
        invariant
            y.len() <= i <= x.len(),
            xs == bufs(x@),
            strs(parts@) == xs.subrange(y.len() as int, i as int),
        decreases x.len() - i,
    {
        let s = string_of(x[i].as_slice());
        let ghost before = strs(parts@);
        parts.push(s);
        assert(strs(parts@) =~= before.push(s@));
        assert(xs[i as int] == x@[i as int]@);
        i += 1;
        assert(strs(parts@) =~= xs.subrange(y.len() as int, i as int));
    }
    assert(xs.subrange(y.len() as int, x.len() as int) =~= xs.skip(y.len() as int));
    Some(join_strings(&parts, "/"))
}

} // verus!
