//! The Git reference checked out: a branch, a symbolic reference, or a
//! commit that a tag points at. Finding `.git` and reading its files is
//! left to the caller, step by step.
use crate::model::{str_eq, GitContext};
use crate::path::{path_join, spec_path_join};
use crate::text::{
    bufs, chars_of, is_digit, lines, lines_of, opt_view, owned, replace_char, starts_with, string_of,
    string_of_range, strip_prefix, strip_prefix_str, trim, trim_bounds, trim_str, words, words_of,
};
use vstd::prelude::*;

verus! {

/// How many directories, from the working one upwards, are searched.
pub const MAX_DEPTH: usize = 8;

pub open spec fn is_hex(c: char) -> bool {
    is_digit(c) || ('a' <= c && c <= 'f') || ('A' <= c && c <= 'F')
}

pub fn is_hex_char(c: char) -> (r: bool)
    ensures
        r == is_hex(c),
{
    ('0' <= c && c <= '9') || ('a' <= c && c <= 'f') || ('A' <= c && c <= 'F')
}

/// Whether `head` reads as a commit id: at least seven hex digits.
pub open spec fn is_oid(head: Seq<char>) -> bool {
    head.len() >= 7 && forall|i: int| 0 <= i < head.len() ==> is_hex(#[trigger] head[i])
}

fn all_hex(v: &Vec<char>) -> (r: bool)
    ensures
        r == forall|i: int| 0 <= i < v@.len() ==> is_hex(#[trigger] v@[i]),
{
    let mut i: usize = 0;
    while i < v.len()
        invariant
            i <= v.len(),
            forall|k: int| 0 <= k < i ==> is_hex(#[trigger] v@[k]),
        decreases v.len() - i,
    {
        if !is_hex_char(v[i]) {
            return false;
        }
        i += 1;
    }
    true
}

/// The branch a `HEAD` names, when it points into `refs/heads/`.
pub open spec fn spec_branch(head: Seq<char>) -> Option<Seq<char>> {
    match strip_prefix(head, "ref: refs/heads/"@) {
        Some(b) => if b.len() > 0 {
            Some(b)
        } else {
            None
        },
        None => None,
    }
}

fn branch_of(head: &str) -> (r: Option<String>)
    ensures
        opt_view(r) == spec_branch(head@),
{
    match strip_prefix_str(head, "ref: refs/heads/") {
        Some(b) => if b.unicode_len() > 0 {
            Some(b)
        } else {
            None
        },
        None => None,
    }
}

pub open spec fn named_after(r: Seq<char>, prefix: Seq<char>) -> Option<Seq<char>> {
    match strip_prefix(r, prefix) {
        Some(n) => if n.len() > 0 {
            Some(n)
        } else {
            None
        },
        None => None,
    }
}

/// The short name of a symbolic reference.
pub open spec fn spec_reference_name(r: Seq<char>) -> Option<Seq<char>> {
    match named_after(r, "refs/tags/"@) {
        Some(n) => Some(n),
        None => match named_after(r, "refs/remotes/"@) {
            Some(n) => Some(n),
            None => match named_after(r, "refs/"@) {
                Some(n) => Some(n),
                None => if r.len() > 0 {
                    Some(r)
                } else {
                    None
                },
            },
        },
    }
}

/// A reference without its `refs/tags/`, `refs/remotes/` or `refs/`
/// prefix; `None` for an empty one.
pub fn reference_name(reference: &str) -> (r: Option<String>)
    ensures
        opt_view(r) == spec_reference_name(reference@),
{
    if let Some(n) = strip_prefix_str(reference, "refs/tags/") {
        if n.unicode_len() > 0 {
            return Some(n);
        }
    }
    if let Some(n) = strip_prefix_str(reference, "refs/remotes/") {
        if n.unicode_len() > 0 {
            return Some(n);
        }
    }
    if let Some(n) = strip_prefix_str(reference, "refs/") {
        if n.unicode_len() > 0 {
            return Some(n);
        }
    }
    if reference.unicode_len() > 0 {
        Some(owned(reference))
    } else {
        None
    }
}

/// What a `HEAD` file (trimmed) says.
#[derive(Debug, Clone)]
pub enum HeadRef {
    /// A branch or another named reference.
    Named(String),
    /// A commit id: its name, if any, is a tag that points at it.
    Detached(String),
    /// Nothing that names the checkout.
    Unresolved,
}

pub open spec fn head_ref_view(h: HeadRef) -> (nat, Seq<char>) {
    match h {
        HeadRef::Named(n) => (0, n@),
        HeadRef::Detached(o) => (1, o@),
        HeadRef::Unresolved => (2, seq![]),
    }
}

pub open spec fn spec_head_ref(head: Seq<char>) -> (nat, Seq<char>) {
    match spec_branch(head) {
        Some(b) => (0, b),
        None => match strip_prefix(head, "ref: "@) {
            Some(reference) => match spec_reference_name(reference) {
                Some(n) => (0, n),
                None => (2, seq![]),
            },
            None => if is_oid(head) {
                (1, head)
            } else {
                (2, seq![])
            },
        },
    }
}

/// Reads a trimmed `HEAD`.
pub fn head_ref(head: &str) -> (r: HeadRef)
    ensures
        head_ref_view(r) == spec_head_ref(head@),
{
    if let Some(b) = branch_of(head) {
        return HeadRef::Named(b);
    }
    if let Some(reference) = strip_prefix_str(head, "ref: ") {
        return match reference_name(reference.as_str()) {
            Some(n) => HeadRef::Named(n),
            None => HeadRef::Unresolved,
        };
    }
    let v = chars_of(head);
    if all_hex(&v) && v.len() >= 7 {
        HeadRef::Detached(owned(head))
    } else {
        HeadRef::Unresolved
    }
}

pub open spec fn spec_resolved_ref(head: Seq<char>, tag: Option<Seq<char>>) -> Option<Seq<char>> {
    let (k, name) = spec_head_ref(head);
    if k == 0 {
        Some(name)
    } else if k == 1 {
        tag
    } else {
        None
    }
}

/// The name of the checkout for a trimmed `HEAD`: its branch or reference,
/// or for a commit id the tag that points at it (`tag`, as the lookup found
/// it).
pub fn resolved_ref(head: &str, tag: Option<&str>) -> (r: Option<String>)
    ensures
        opt_view(r) == spec_resolved_ref(
            head@,
            match tag {
                Some(t) => Some(t@),
                None => None,
            },
        ),
{
    match head_ref(head) {
        HeadRef::Named(n) => Some(n),
        HeadRef::Detached(_) => match tag {
            Some(t) => Some(owned(t)),
            None => None,
        },
        HeadRef::Unresolved => None,
    }
}

pub open spec fn spec_head_name_fast(head: Seq<char>) -> Option<Seq<char>> {
    match spec_branch(head) {
        Some(b) => Some(b),
        None => if is_oid(head) {
            Some(
                head.take(
                    if head.len() < 12 {
                        head.len() as int
                    } else {
                        12
                    },
                ),
            )
        } else {
            None
        },
    }
}

/// The name of the checkout without looking up tags: the branch, or the
/// first twelve digits of a commit id.
pub fn head_name_fast(head: &str) -> (r: Option<String>)
    ensures
        opt_view(r) == spec_head_name_fast(head@),
{
    if let Some(b) = branch_of(head) {
        return Some(b);
    }
    let v = chars_of(head);
    if !all_hex(&v) || v.len() < 7 {
        return None;
    }
    let n = if v.len() < 12 {
        v.len()
    } else {
        12
    };
    let r = string_of_range(&v, 0, n);
    assert(v@.subrange(0, n as int) =~= v@.take(n as int));
    Some(r)
}

/// The tag for a commit: a loose tag file that holds it, else an entry of
/// `packed-refs` (`packed`, when that file could be read).
pub fn tag_for_oid(loose: Option<&str>, packed: Option<&str>, oid: &str) -> (r: Option<String>)
    ensures
        opt_view(r) == match loose {
            Some(t) => Some(t@),
            None => match packed {
                Some(raw) => spec_packed_tag(raw@, oid@),
                None => None,
            },
        },
{
    match loose {
        Some(t) => Some(owned(t)),
        None => match packed {
            Some(raw) => packed_tag_for_oid(raw, oid),
            None => None,
        },
    }
}

/// Whether a loose tag file holds the commit: its contents, without the
/// surrounding whitespace, are the commit id.
pub fn loose_tag_holds(contents: &str, oid: &str) -> (r: bool)
    ensures
        r == (trim(contents@) == oid@),
{
    let t = trim_str(contents);
    str_eq(t.as_str(), oid)
}

/// A loose tag's name from its file's path below `refs/tags`, with `/`
/// between the parts whatever separator the path used.
pub fn loose_tag_name(relative: &str) -> (r: String)
    ensures
        r@ == replace_char(relative@, '\\', '/'),
{
    let v = chars_of(relative);
    let mut out: Vec<char> = Vec::new();
    let mut i: usize = 0;
    while i < v.len()
        invariant
            i <= v.len(),
            v@ == relative@,
            out@ == replace_char(v@.take(i as int), '\\', '/'),
        decreases v.len() - i,
    {
        let c = if v[i] == '\\' {
            '/'
        } else {
            v[i]
        };
        out.push(c);
        i += 1;
        assert(out@ =~= replace_char(v@.take(i as int), '\\', '/'));
    }
    assert(v@.take(v@.len() as int) =~= v@);
    string_of(out.as_slice())
}

/// Scans `packed-refs` lines; `pending` is the tag of the line before, for
/// a `^` line that peels it.
pub open spec fn packed_scan(ls: Seq<Seq<char>>, oid: Seq<char>, pending: Option<Seq<char>>) -> Option<
    Seq<char>,
>
    decreases ls.len(),
{
    if ls.len() == 0 {
        None
    } else {
        let line = trim(ls[0]);
        let rest = ls.drop_first();
        if line.len() == 0 || starts_with(line, "#"@) {
            packed_scan(rest, oid, pending)
        } else if starts_with(line, "^"@) {
            if line.skip(1) == oid {
                pending
            } else {
                packed_scan(rest, oid, None)
            }
        } else {
            let ws = words(line);
            if ws.len() < 2 {
                None
            } else {
                match strip_prefix(ws[1], "refs/tags/"@) {
                    Some(tag) => if ws[0] == oid {
                        Some(tag)
                    } else {
                        packed_scan(rest, oid, Some(tag))
                    },
                    None => packed_scan(rest, oid, None),
                }
            }
        }
    }
}

pub open spec fn spec_packed_tag(raw: Seq<char>, oid: Seq<char>) -> Option<Seq<char>> {
    packed_scan(lines(raw), oid, None)
}

fn chars_eq(a: &Vec<char>, b: &Vec<char>) -> (r: bool)
    ensures
        r == (a@ == b@),
{
    if a.len() != b.len() {
        return false;
    }
    let mut i: usize = 0;
    while i < a.len()
        invariant
            i <= a.len(),
            a.len() == b.len(),
            forall|k: int| 0 <= k < i ==> a@[k] == b@[k],
        decreases a.len() - i,
    {
        if a[i] != b[i] {
            return false;
        }
        i += 1;
    }
    assert(a@ =~= b@);
    true
}

/// The tag that `packed-refs` gives for a commit: a tag line for it, or the
/// tag line just before a `^` line that peels to it.
pub fn packed_tag_for_oid(raw: &str, oid: &str) -> (r: Option<String>)
    ensures
        opt_view(r) == spec_packed_tag(raw@, oid@),
{
    proof {
        reveal_strlit("#");
        reveal_strlit("^");
    }
    let v = chars_of(raw);
    let ls = lines_of(&v);
    let ghost lv = bufs(ls@);
    let o = chars_of(oid);
    let mut pending: Option<String> = None;
    let mut i: usize = 0;
    assert(lv.skip(0) =~= lv);
    while i < ls.len()
        invariant
            i <= ls.len(),
            lv == bufs(ls@),
            lv == lines(raw@),
            o@ == oid@,
            spec_packed_tag(raw@, oid@) == packed_scan(lv.skip(i as int), oid@, opt_view(pending)),
        decreases ls.len() - i,
    {
        proof {
            reveal_strlit("#");
            reveal_strlit("^");
        }
        let line_buf = &ls[i];
        assert(lv.skip(i as int)[0] == line_buf@);
        assert(lv.skip(i as int).drop_first() =~= lv.skip(i + 1));
        let (a, b) = trim_bounds(line_buf.as_slice(), 0, line_buf.len());
        assert(line_buf@.subrange(0, line_buf@.len() as int) =~= line_buf@);
        let line = crate::text::slice_range(line_buf.as_slice(), a, b);
        let ghost t = line@;
        assert(t == trim(lv.skip(i as int)[0]));
        if line.len() == 0 || line[0] == '#' {
            proof {
                if line.len() > 0 {
                    assert(t.subrange(0, 1) =~= "#"@);
                }
            }
            i += 1;
            continue;
        }
        proof {
            assert(!starts_with(t, "#"@)) by {
                if starts_with(t, "#"@) {
                    assert(t[0] == t.subrange(0, 1)[0]);
                }
            }
        }
        if line[0] == '^' {
            let peeled = crate::text::slice_range(line.as_slice(), 1, line.len());
            assert(peeled@ =~= t.skip(1));
            assert(t.subrange(0, 1) =~= "^"@);
            if chars_eq(&peeled, &o) {
                return pending;
            }
            pending = None;
            i += 1;
            continue;
        }
        proof {
            assert(!starts_with(t, "^"@)) by {
                if starts_with(t, "^"@) {
                    assert(t[0] == t.subrange(0, 1)[0]);
                }
            }
        }
        pending = None;
        let ws = words_of(line.as_slice());
        if ws.len() < 2 {
            return None;
        }
        assert(bufs(ws@)[1] == ws@[1]@);
        assert(bufs(ws@)[0] == ws@[0]@);
        let second = string_of(ws[1].as_slice());
        match strip_prefix_str(second.as_str(), "refs/tags/") {
            Some(tag) => {
                if chars_eq(&ws[0], &o) {
                    return Some(tag);
                }
                pending = Some(tag);
            },
            None => {},
        }
        i += 1;
    }
    None
}

/// Where a `.git` file points (`gitdir: <path>`), if it says so.
pub open spec fn spec_gitdir_pointer(content: Seq<char>) -> Option<Seq<char>> {
    strip_prefix(trim(content), "gitdir: "@)
}

/// The path a `.git` file points at.
pub fn gitdir_pointer(content: &str) -> (r: Option<String>)
    ensures
        opt_view(r) == spec_gitdir_pointer(content@),
{
    let t = trim_str(content);
    strip_prefix_str(t.as_str(), "gitdir: ")
}

/// What was found at `<dir>/.git`.
#[derive(Debug, Clone)]
pub enum GitEntry {
    /// Nothing.
    Missing,
    /// A directory.
    Directory,
    /// A file, with its contents when it could be read.
    File(Option<String>),
}

/// The next step of the search for the Git directory.
#[derive(Debug, Clone)]
pub enum GitSearch {
    /// This is the Git directory.
    Found(String),
    /// The Git directory, if this path holds a `HEAD`.
    CheckGitdir(String),
    /// There is none.
    Stop,
    /// Look in the parent directory.
    Parent,
}

pub open spec fn search_view(s: GitSearch) -> (nat, Seq<char>) {
    match s {
        GitSearch::Found(p) => (0, p@),
        GitSearch::CheckGitdir(p) => (1, p@),
        GitSearch::Stop => (2, seq![]),
        GitSearch::Parent => (3, seq![]),
    }
}

pub open spec fn spec_git_step(dir: Seq<char>, entry: GitEntry, at_home: bool) -> (nat, Seq<char>) {
    match entry {
        GitEntry::Directory => (0, spec_path_join(dir, ".git"@)),
        GitEntry::File(Some(c)) => match spec_gitdir_pointer(c@) {
            Some(g) => (1, spec_path_join(dir, g)),
            None => (2, seq![]),
        },
        GitEntry::File(None) => (2, seq![]),
        GitEntry::Missing => if at_home {
            (2, seq![])
        } else {
            (3, seq![])
        },
    }
}

/// One step of the search from `dir` upwards: a `.git` directory is the
/// answer, a `.git` file points at it, and the search stops at the home
/// directory (`at_home`).
pub fn git_search_step(dir: &str, entry: &GitEntry, at_home: bool) -> (r: GitSearch)
    ensures
        search_view(r) == spec_git_step(dir@, *entry, at_home),
{
    match entry {
        GitEntry::Directory => GitSearch::Found(path_join(dir, ".git")),
        GitEntry::File(Some(c)) => match gitdir_pointer(c.as_str()) {
            Some(g) => GitSearch::CheckGitdir(path_join(dir, g.as_str())),
            None => GitSearch::Stop,
        },
        GitEntry::File(None) => GitSearch::Stop,
        GitEntry::Missing => if at_home {
            GitSearch::Stop
        } else {
            GitSearch::Parent
        },
    }
}

/// The Git context for a resolved name.
pub fn git_context(branch: Option<String>) -> (r: Option<GitContext>)
    ensures
        match branch {
            Some(b) => r matches Some(g) && g.branch@ == b@,
            None => r is None,
        },
{
    match branch {
        Some(b) => Some(GitContext { branch: b }),
        None => None,
    }
}

/// Fast mode names a branch checkout exactly as normal mode does; the two
/// differ only for a detached commit (a short id instead of a tag).
pub proof fn lemma_fast_agrees_on_branches(head: Seq<char>, tag: Option<Seq<char>>)
    requires
        spec_branch(head) is Some,
    ensures
        spec_head_name_fast(head) == spec_resolved_ref(head, tag),
        spec_head_name_fast(head) == spec_branch(head),
{
}

/// A `HEAD` that points at a branch names the checkout by the branch's
/// whole name, however long, in the full and the fast lookup alike and
/// whatever the tag lookup found.
pub proof fn lemma_branch_name_is_whole(b: Seq<char>, tag: Option<Seq<char>>)
    requires
        b.len() > 0,
    ensures
        spec_resolved_ref("ref: refs/heads/"@ + b, tag) == Some(b),
        spec_head_name_fast("ref: refs/heads/"@ + b) == Some(b),
{
    let p = "ref: refs/heads/"@;
    let h = p + b;
    assert(h.subrange(0, p.len() as int) =~= p);
    assert(h.subrange(p.len() as int, h.len() as int) =~= b);
}

} // verus!
