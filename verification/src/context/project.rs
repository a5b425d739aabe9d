//! Project kinds: their fixed display order and the order of their details.
use crate::model::{str_eq, ProjectContext};
use crate::sort::{insert_by, lemma_insert_by_at, lemma_sort_by_map, lemma_sort_by_push, sort_by};
use crate::text::{opt_view, strs};
use crate::text::{text_le, text_le_exec, chars_of};
use vstd::prelude::*;

verus! {

/// Display rank of a project kind; unknown kinds come last.
pub open spec fn spec_project_priority(kind: Seq<char>) -> usize {
    if kind == "rust"@ {
        0
    } else if kind == "node"@ {
        1
    } else if kind == "python"@ {
        2
    } else if kind == "go"@ {
        3
    } else if kind == "java"@ {
        4
    } else if kind == "ruby"@ {
        5
    } else if kind == "csharp"@ {
        6
    } else if kind == "swift"@ {
        7
    } else if kind == "php"@ {
        8
    } else if kind == "lua"@ {
        9
    } else if kind == "r"@ {
        10
    } else if kind == "c/cpp"@ {
        11
    } else {
        usize::MAX
    }
}

/// Rank of a project detail; details with a higher rank are shown first.
pub open spec fn spec_detail_priority(detail: Seq<char>) -> usize {
    if detail == ".venv"@ {
        100
    } else if detail == "venv"@ {
        99
    } else if detail == "pnpm"@ {
        90
    } else if detail == "yarn"@ {
        89
    } else if detail == "npm"@ {
        88
    } else if detail == "turbo"@ {
        80
    } else if detail == "nx"@ {
        79
    } else if detail == "gradle"@ {
        70
    } else if detail == "maven"@ {
        69
    } else {
        0
    }
}

/// Projects are ordered by rank, then by kind.
pub open spec fn project_le(a: ProjectContext, b: ProjectContext) -> bool {
    let pa = spec_project_priority(a.kind@);
    let pb = spec_project_priority(b.kind@);
    pa < pb || (pa == pb && text_le(a.kind@, b.kind@))
}

pub open spec fn project_order() -> spec_fn(ProjectContext, ProjectContext) -> bool {
    |a: ProjectContext, b: ProjectContext| project_le(a, b)
}

/// Details are ordered by decreasing rank.
pub open spec fn detail_order() -> spec_fn(String, String) -> bool {
    |a: String, b: String| spec_detail_priority(a@) >= spec_detail_priority(b@)
}

/// Display rank of a project kind.
pub fn project_priority(kind: &str) -> (r: usize)
    ensures
        r == spec_project_priority(kind@),
{
    if str_eq(kind, "rust") {
        0
    } else if str_eq(kind, "node") {
        1
    } else if str_eq(kind, "python") {
        2
    } else if str_eq(kind, "go") {
        3
    } else if str_eq(kind, "java") {
        4
    } else if str_eq(kind, "ruby") {
        5
    } else if str_eq(kind, "csharp") {
        6
    } else if str_eq(kind, "swift") {
        7
    } else if str_eq(kind, "php") {
        8
    } else if str_eq(kind, "lua") {
        9
    } else if str_eq(kind, "r") {
        10
    } else if str_eq(kind, "c/cpp") {
        11
    } else {
        usize::MAX
    }
}

/// Rank of a project detail.
pub fn detail_priority(detail: &str) -> (r: usize)
    ensures
        r == spec_detail_priority(detail@),
{
    if str_eq(detail, ".venv") {
        100
    } else if str_eq(detail, "venv") {
        99
    } else if str_eq(detail, "pnpm") {
        90
    } else if str_eq(detail, "yarn") {
        89
    } else if str_eq(detail, "npm") {
        88
    } else if str_eq(detail, "turbo") {
        80
    } else if str_eq(detail, "nx") {
        79
    } else if str_eq(detail, "gradle") {
        70
    } else if str_eq(detail, "maven") {
        69
    } else {
        0
    }
}

/// Whether `a` goes no later than `b`.
pub fn project_le_exec(a: &ProjectContext, b: &ProjectContext) -> (r: bool)
    ensures
        r == project_le(*a, *b),
{
    let pa = project_priority(a.kind.as_str());
    let pb = project_priority(b.kind.as_str());
    if pa < pb {
        true
    } else if pa == pb {
        let x = chars_of(a.kind.as_str());
        let y = chars_of(b.kind.as_str());
        text_le_exec(&x, &y)
    } else {
        false
    }
}

/// Sorts projects into display order (stable).
pub fn sort_projects(v: Vec<ProjectContext>) -> (r: Vec<ProjectContext>)
    ensures
        r@ == sort_by(v@, project_order()),
{
    let ghost orig = v@;
    let mut v = v;
    let mut r: Vec<ProjectContext> = Vec::new();
    let n = v.len();
    let mut i: usize = 0;
    assert(orig.skip(0) =~= orig);
    assert(orig.take(0) =~= Seq::<ProjectContext>::empty());
    while i < n
        invariant
            i <= n,
            n == orig.len(),
            v@ == orig.skip(i as int),
            r@ == sort_by(orig.take(i as int), project_order()),
        decreases n - i,
    {
        let x = v.remove(0);
        assert(x == orig[i as int]);
        let mut k: usize = 0;
        while k < r.len() && project_le_exec(&r[k], &x)
            invariant
                k <= r.len(),
                forall|j: int| 0 <= j < k ==> project_le(#[trigger] r@[j], x),
            decreases r.len() - k,
        {
            k += 1;
        }
        proof {
            let ord = project_order();
            assert forall|j: int| 0 <= j < k implies ord(#[trigger] r@[j], x) by {
                assert(project_le(r@[j], x));
            }
            lemma_insert_by_at(x, r@, ord, k as int);
            lemma_sort_by_push(orig.take(i as int), x, ord);
            assert(orig.take(i as int).push(x) =~= orig.take(i + 1));
            assert(v@ =~= orig.skip(i + 1));
        }
        r.insert(k, x);
        i += 1;
    }
    assert(orig.take(n as int) =~= orig);
    r
}

/// Positions of `v`'s projects in display order: reading `v` at the
/// returned indices gives the stably sorted projects.
pub fn sorted_project_indices(v: &Vec<ProjectContext>) -> (r: Vec<usize>)
    ensures
        r@.len() == v@.len(),
        forall|j: int| 0 <= j < r@.len() ==> r@[j] < v@.len(),
        r@.map_values(|j: usize| v@[j as int]) == sort_by(v@, project_order()),
{
    let mut r: Vec<usize> = Vec::new();
    let n = v.len();
    let mut i: usize = 0;
    assert(v@.take(0) =~= Seq::<ProjectContext>::empty());
    while i < n
        invariant
            i <= n,
            n == v@.len(),
            r@.len() == i,
            forall|j: int| 0 <= j < r@.len() ==> r@[j] < i,
            r@.map_values(|j: usize| v@[j as int]) == sort_by(v@.take(i as int), project_order()),
        decreases n - i,
    {
        let ghost shown = r@.map_values(|j: usize| v@[j as int]);
        let mut k: usize = 0;
        while k < r.len() && project_le_exec(&v[r[k]], &v[i])
            invariant
                k <= r.len(),
                i < v@.len(),
                forall|j: int| 0 <= j < r@.len() ==> r@[j] < i,
                shown == r@.map_values(|j: usize| v@[j as int]),
                forall|j: int| 0 <= j < k ==> project_le(#[trigger] shown[j], v@[i as int]),
            decreases r.len() - k,
        {
            assert(shown[k as int] == v@[r@[k as int] as int]);
            k += 1;
        }
        proof {
            let ord = project_order();
            let x = v@[i as int];
            assert forall|j: int| 0 <= j < k implies ord(#[trigger] shown[j], x) by {
                assert(project_le(shown[j], x));
            }
            if k < r.len() {
                assert(shown[k as int] == v@[r@[k as int] as int]);
            }
            lemma_insert_by_at(x, shown, ord, k as int);
            lemma_sort_by_push(v@.take(i as int), x, ord);
            assert(v@.take(i as int).push(x) =~= v@.take(i + 1));
        }
        let ghost before = r@;
        r.insert(k, i);
        proof {
            assert(r@.map_values(|j: usize| v@[j as int]) =~= shown.insert(
                k as int,
                v@[i as int],
            ));
        }
        i += 1;
    }
    assert(v@.take(n as int) =~= v@);
    r
}

/// Sorts details by decreasing rank (stable).
pub fn sort_details(v: Vec<String>) -> (r: Vec<String>)
    ensures
        r@ == sort_by(v@, detail_order()),
{
    let ghost orig = v@;
    let mut v = v;
    let mut r: Vec<String> = Vec::new();
    let n = v.len();
    let mut i: usize = 0;
    assert(orig.skip(0) =~= orig);
    assert(orig.take(0) =~= Seq::<String>::empty());
    while i < n
        invariant
            i <= n,
            n == orig.len(),
            v@ == orig.skip(i as int),
            r@ == sort_by(orig.take(i as int), detail_order()),
        decreases n - i,
    {
        let x = v.remove(0);
        assert(x == orig[i as int]);
        let px = detail_priority(x.as_str());
        let mut k: usize = 0;
        while k < r.len() && detail_priority(r[k].as_str()) >= px
            invariant
                k <= r.len(),
                px == spec_detail_priority(x@),
                forall|j: int| 0 <= j < k ==> spec_detail_priority(#[trigger] r@[j]@) >= px,
            decreases r.len() - k,
        {
            k += 1;
        }
        proof {
            let ord = detail_order();
            assert forall|j: int| 0 <= j < k implies ord(#[trigger] r@[j], x) by {
                assert(spec_detail_priority(r@[j]@) >= px);
            }
            lemma_insert_by_at(x, r@, ord, k as int);
            lemma_sort_by_push(orig.take(i as int), x, ord);
            assert(orig.take(i as int).push(x) =~= orig.take(i + 1));
            assert(v@ =~= orig.skip(i + 1));
        }
        r.insert(k, x);
        i += 1;
    }
    assert(orig.take(n as int) =~= orig);
    r
}

/// A project entry with its details in display order.
pub fn project_context(kind: &str, version: Option<String>, details: Vec<String>) -> (r:
    ProjectContext)
    ensures
        r.kind@ == kind@,
        r.version == version,
        r.project_name is None,
        r.service_count is None,
        r.details@ == sort_by(details@, detail_order()),
        strs(r.details@) == sort_by(strs(details@), detail_view_order()),
{
    proof {
        lemma_details_view(details@);
    }
    ProjectContext {
        kind: crate::text::owned(kind),
        version,
        project_name: None,
        service_count: None,
        details: sort_details(details),
    }
}

/// A project as plain values: kind, version, compose project name,
/// service count, details.
pub type ProjectView = (Seq<char>, Option<Seq<char>>, Option<Seq<char>>, Option<usize>, Seq<Seq<char>>);

pub open spec fn project_view(p: ProjectContext) -> ProjectView {
    (p.kind@, opt_view(p.version), opt_view(p.project_name), p.service_count, strs(p.details@))
}

pub open spec fn project_views(s: Seq<ProjectContext>) -> Seq<ProjectView> {
    s.map_values(|p: ProjectContext| project_view(p))
}

/// The display order on project views: by rank, then by kind.
pub open spec fn view_le(a: ProjectView, b: ProjectView) -> bool {
    let pa = spec_project_priority(a.0);
    let pb = spec_project_priority(b.0);
    pa < pb || (pa == pb && text_le(a.0, b.0))
}

pub open spec fn view_order() -> spec_fn(ProjectView, ProjectView) -> bool {
    |a: ProjectView, b: ProjectView| view_le(a, b)
}

/// Details by decreasing rank.
pub open spec fn detail_view_order() -> spec_fn(Seq<char>, Seq<char>) -> bool {
    |a: Seq<char>, b: Seq<char>| spec_detail_priority(a) >= spec_detail_priority(b)
}

/// Sorting details and then viewing them is viewing and then sorting.
pub proof fn lemma_details_view(v: Seq<String>)
    ensures
        strs(sort_by(v, detail_order())) == sort_by(strs(v), detail_view_order()),
{
    let f = |s: String| s@;
    assert forall|a: String, b: String| #[trigger] detail_order()(a, b) == detail_view_order()(
        f(a),
        f(b),
    ) by {}
    lemma_sort_by_map(v, detail_order(), f, detail_view_order());
    assert(strs(sort_by(v, detail_order())) =~= sort_by(v, detail_order()).map_values(f));
    assert(strs(v) =~= v.map_values(f));
}

/// Sorting projects and then viewing them is viewing and then sorting.
pub proof fn lemma_projects_view(v: Seq<ProjectContext>)
    ensures
        project_views(sort_by(v, project_order())) == sort_by(project_views(v), view_order()),
{
    let f = |p: ProjectContext| project_view(p);
    assert forall|a: ProjectContext, b: ProjectContext| #[trigger] project_order()(a, b)
        == view_order()(f(a), f(b)) by {}
    lemma_sort_by_map(v, project_order(), f, view_order());
}

} // verus!
