//! The project detectors: which files in the working directory signal which
//! kind of project, and what each reports. Listing the directory and
//! running the tools for their versions is left to the caller.
use crate::context::compose::{compose_file, compose_summary, spec_compose_file, spec_compose_summary};
use crate::context::project::{
    lemma_projects_view, project_context, project_order, project_view, project_views,
    sort_projects, view_order, detail_view_order, ProjectView,
};
use crate::context::version::spec_major_version;
use crate::model::{str_eq, ProjectContext};
use crate::output::semantics::{file_name, spec_file_name};
use crate::sort::{lemma_sort_by_permutation, lemma_sort_by_sorted, sort_by, sorted_by, total_preorder};
use crate::context::project::{spec_project_priority, view_le};
use crate::text::{lemma_text_le_total, lemma_text_le_transitive};
use crate::text::{chars_of, opt_view, owned, string_of_range, strs};
use vstd::prelude::*;

verus! {

/// The versions the tools reported (`command_version` results), `None`
/// where a tool was not run or printed nothing.
#[derive(Debug, Clone)]
pub struct ToolVersions {
    pub rustc: Option<String>,
    pub node: Option<String>,
    pub python3: Option<String>,
    pub python: Option<String>,
    pub go: Option<String>,
    pub java: Option<String>,
}

/// What the detectors look at in the working directory.
#[derive(Debug, Clone)]
pub struct ProjectDir {
    /// The names of the directory's entries.
    pub entries: Vec<String>,
    /// The value of `VIRTUAL_ENV`.
    pub virtual_env: Option<String>,
    /// The tools' versions.
    pub versions: ToolVersions,
    /// The contents of the compose file that `compose_file` picks, when it
    /// could be read.
    pub compose_contents: Option<String>,
}

/// Whether the directory has an entry of this name.
pub open spec fn has(dir: ProjectDir, name: Seq<char>) -> bool {
    exists|k: int| 0 <= k < dir.entries@.len() && (#[trigger] dir.entries@[k])@ == name
}

/// `Path::extension` of a file name: what follows the last dot, unless the
/// name has no dot or only a leading one.
pub open spec fn spec_extension(name: Seq<char>) -> Option<Seq<char>>
    decreases name.len(),
{
    if name.len() == 0 {
        None
    } else if name.last() == '.' && name.len() > 1 {
        Some(seq![])
    } else if name.last() == '.' {
        None
    } else {
        match spec_extension(name.drop_last()) {
            Some(e) => Some(e.push(name.last())),
            None => None,
        }
    }
}

/// Whether some entry has this extension.
pub open spec fn has_ext(dir: ProjectDir, ext: Seq<char>) -> bool {
    exists|k: int| 0 <= k < dir.entries@.len() && spec_extension((#[trigger] dir.entries@[k])@) == Some(ext)
}

fn extension_of(name: &str) -> (r: Option<String>)
    ensures
        opt_view(r) == spec_extension(name@),
{
    let v = chars_of(name);
    let n = v.len();
    let mut k = n;
    while k > 0 && v[k - 1] != '.'
        invariant
            k <= n,
            n == v@.len(),
            forall|j: int| k <= j < n ==> v@[j] != '.',
        decreases k,
    {
        k -= 1;
    }
    proof {
        lemma_extension_at(v@, k as int);
    }
    if k <= 1 {
        None
    } else {
        Some(string_of_range(&v, k, n))
    }
}

/// The extension of a name whose last dot is just before `k` (`k == 0`:
/// no dot).
proof fn lemma_extension_at(s: Seq<char>, k: int)
    requires
        0 <= k <= s.len(),
        forall|j: int| k <= j < s.len() ==> s[j] != '.',
        k > 0 ==> s[k - 1] == '.',
    ensures
        spec_extension(s) == (if k <= 1 {
            None::<Seq<char>>
        } else {
            Some(s.subrange(k, s.len() as int))
        }),
    decreases s.len(),
{
    if s.len() == 0 {
    } else if k == s.len() {
        if k > 1 {
            assert(s.subrange(k, s.len() as int) =~= Seq::<char>::empty());
        }
    } else {
        let t = s.drop_last();
        assert forall|j: int| k <= j < t.len() implies t[j] != '.' by {
            assert(t[j] == s[j]);
        }
        if k > 0 {
            assert(t[k - 1] == s[k - 1]);
        }
        lemma_extension_at(t, k);
        if k > 1 {
            assert(t.subrange(k, t.len() as int).push(s.last()) =~= s.subrange(k, s.len() as int));
        }
    }
}

fn has_entry(dir: &ProjectDir, name: &str) -> (r: bool)
    ensures
        r == has(*dir, name@),
{
    let mut i: usize = 0;
    while i < dir.entries.len()
        invariant
            i <= dir.entries.len(),
            forall|k: int| 0 <= k < i ==> (#[trigger] dir.entries@[k])@ != name@,
        decreases dir.entries.len() - i,
    {
        if str_eq(dir.entries[i].as_str(), name) {
            return true;
        }
        i += 1;
    }
    false
}

fn has_extension(dir: &ProjectDir, ext: &str) -> (r: bool)
    ensures
        r == has_ext(*dir, ext@),
{
    let mut i: usize = 0;
    while i < dir.entries.len()
        invariant
            i <= dir.entries.len(),
            forall|k: int| 0 <= k < i ==> spec_extension((#[trigger] dir.entries@[k])@) != Some(ext@),
        decreases dir.entries.len() - i,
    {
        match extension_of(dir.entries[i].as_str()) {
            Some(e) => {
                if str_eq(e.as_str(), ext) {
                    return true;
                }
            },
            None => {},
        }
        i += 1;
    }
    false
}

/// One project entry as plain values, with no compose fields.
pub open spec fn plain_project(kind: Seq<char>, version: Option<Seq<char>>, details: Seq<Seq<char>>) -> ProjectView {
    (kind, version, None, None, sort_by(details, detail_view_order()))
}

/// A version that is looked up only outside fast mode.
pub open spec fn unless_fast(fast: bool, v: Option<String>) -> Option<Seq<char>> {
    if fast {
        None
    } else {
        opt_view(v)
    }
}

fn version_unless_fast(fast: bool, v: &Option<String>) -> (r: Option<String>)
    ensures
        opt_view(r) == unless_fast(fast, *v),
{
    if fast {
        None
    } else {
        match v {
            Some(s) => Some(s.clone()),
            None => None,
        }
    }
}

/// What a detector finds: zero or one project.
pub trait ProjectDetector {
    /// The projects this detector reports, as plain values.
    spec fn reports(&self, dir: ProjectDir, fast: bool) -> Seq<ProjectView>;

    /// Detects this kind of project in the directory; `fast` skips running
    /// tools and reading files.
    fn detect(&self, dir: &ProjectDir, fast: bool) -> (r: Vec<ProjectContext>)
        ensures
            project_views(r@) == self.reports(*dir, fast),
    ;
}

fn one(p: ProjectContext) -> (r: Vec<ProjectContext>)
    ensures
        r@ == seq![p],
{
    let mut r: Vec<ProjectContext> = Vec::new();
    r.push(p);
    r
}

/// Rust: a `Cargo.toml`.
pub struct RustDetector;

impl ProjectDetector for RustDetector {
    open spec fn reports(&self, dir: ProjectDir, fast: bool) -> Seq<ProjectView> {
        if has(dir, "Cargo.toml"@) {
            seq![plain_project("rust"@, unless_fast(fast, dir.versions.rustc), seq![])]
        } else {
            seq![]
        }
    }

    fn detect(&self, dir: &ProjectDir, fast: bool) -> (r: Vec<ProjectContext>) {
        if !has_entry(dir, "Cargo.toml") {
            return Vec::new();
        }
        let p = project_context("rust", version_unless_fast(fast, &dir.versions.rustc), Vec::new());
        let r = one(p);
        assert(project_views(r@) =~= self.reports(*dir, fast));
        r
    }
}

pub open spec fn spec_node_details(dir: ProjectDir) -> Seq<Seq<char>> {
    let manager = if has(dir, "pnpm-lock.yaml"@) {
        seq!["pnpm"@]
    } else if has(dir, "yarn.lock"@) {
        seq!["yarn"@]
    } else if has(dir, "package-lock.json"@) {
        seq!["npm"@]
    } else {
        seq![]
    };
    let turbo = if has(dir, "turbo.json"@) {
        seq!["turbo"@]
    } else {
        seq![]
    };
    let nx = if has(dir, "nx.json"@) {
        seq!["nx"@]
    } else {
        seq![]
    };
    manager + turbo + nx
}

/// The package manager (from its lock file) and the monorepo tools of a
/// Node project.
pub fn node_details(dir: &ProjectDir) -> (r: Vec<String>)
    ensures
        strs(r@) == spec_node_details(*dir),
{
    let mut r: Vec<String> = Vec::new();
    if has_entry(dir, "pnpm-lock.yaml") {
        r.push(owned("pnpm"));
    } else if has_entry(dir, "yarn.lock") {
        r.push(owned("yarn"));
    } else if has_entry(dir, "package-lock.json") {
        r.push(owned("npm"));
    }
    let ghost a = strs(r@);
    if has_entry(dir, "turbo.json") {
        r.push(owned("turbo"));
    }
    let ghost b = strs(r@);
    if has_entry(dir, "nx.json") {
        r.push(owned("nx"));
    }
    assert(strs(r@) =~= spec_node_details(*dir));
    r
}

/// Node: a `package.json`.
pub struct NodeDetector;

impl ProjectDetector for NodeDetector {
    open spec fn reports(&self, dir: ProjectDir, fast: bool) -> Seq<ProjectView> {
        if has(dir, "package.json"@) {
            seq![plain_project("node"@, unless_fast(fast, dir.versions.node), spec_node_details(dir))]
        } else {
            seq![]
        }
    }

    fn detect(&self, dir: &ProjectDir, fast: bool) -> (r: Vec<ProjectContext>) {
        if !has_entry(dir, "package.json") {
            return Vec::new();
        }
        let p = project_context("node", version_unless_fast(fast, &dir.versions.node), node_details(dir));
        let r = one(p);
        assert(project_views(r@) =~= self.reports(*dir, fast));
        r
    }
}

pub open spec fn spec_python_signal(dir: ProjectDir) -> bool {
    has(dir, "pyproject.toml"@) || has(dir, "poetry.lock"@) || has(dir, "Pipfile"@) || has(
        dir,
        "requirements.txt"@,
    )
}

/// Whether the directory is a Python project.
pub fn python_signal(dir: &ProjectDir) -> (r: bool)
    ensures
        r == spec_python_signal(*dir),
{
    has_entry(dir, "pyproject.toml") || has_entry(dir, "poetry.lock") || has_entry(dir, "Pipfile")
        || has_entry(dir, "requirements.txt")
}

pub open spec fn spec_python_version(v: ToolVersions) -> Option<Seq<char>> {
    match v.python3 {
        Some(s) => Some(s@),
        None => opt_view(v.python),
    }
}

/// The version `python3` reports, else the one `python` reports.
pub fn resolve_python_version(v: &ToolVersions) -> (r: Option<String>)
    ensures
        opt_view(r) == spec_python_version(*v),
{
    match &v.python3 {
        Some(s) => Some(s.clone()),
        None => match &v.python {
            Some(s) => Some(s.clone()),
            None => None,
        },
    }
}

pub open spec fn spec_python_details(dir: ProjectDir) -> Seq<Seq<char>> {
    match dir.virtual_env {
        Some(venv) => match spec_file_name(venv@) {
            Some(n) => seq![n],
            None => if has(dir, ".venv"@) {
                seq![".venv"@]
            } else if has(dir, "venv"@) {
                seq!["venv"@]
            } else {
                seq![]
            },
        },
        None => if has(dir, ".venv"@) {
            seq![".venv"@]
        } else if has(dir, "venv"@) {
            seq!["venv"@]
        } else {
            seq![]
        },
    }
}

/// The virtualenv of a Python project: the active one's directory name,
/// else a `.venv` or `venv` directory.
pub fn python_details(dir: &ProjectDir) -> (r: Vec<String>)
    ensures
        strs(r@) == spec_python_details(*dir),
{
    let mut r: Vec<String> = Vec::new();
    if let Some(venv) = &dir.virtual_env {
        if let Some(n) = file_name(venv.as_str()) {
            r.push(n);
            assert(strs(r@) =~= spec_python_details(*dir));
            return r;
        }
    }
    if has_entry(dir, ".venv") {
        r.push(owned(".venv"));
    } else if has_entry(dir, "venv") {
        r.push(owned("venv"));
    }
    assert(strs(r@) =~= spec_python_details(*dir));
    r
}

/// Python: `pyproject.toml`, `poetry.lock`, `Pipfile` or `requirements.txt`.
pub struct PythonDetector;

impl ProjectDetector for PythonDetector {
    open spec fn reports(&self, dir: ProjectDir, fast: bool) -> Seq<ProjectView> {
        if spec_python_signal(dir) {
            seq![
                plain_project(
                    "python"@,
                    if fast {
                        None
                    } else {
                        spec_python_version(dir.versions)
                    },
                    spec_python_details(dir),
                ),
            ]
        } else {
            seq![]
        }
    }

    fn detect(&self, dir: &ProjectDir, fast: bool) -> (r: Vec<ProjectContext>) {
        if !python_signal(dir) {
            return Vec::new();
        }
        let version = if fast {
            None
        } else {
            resolve_python_version(&dir.versions)
        };
        let p = project_context("python", version, python_details(dir));
        let r = one(p);
        assert(project_views(r@) =~= self.reports(*dir, fast));
        r
    }
}

/// Go: a `go.mod` or a `main.go`.
pub struct GoDetector;

impl ProjectDetector for GoDetector {
    open spec fn reports(&self, dir: ProjectDir, fast: bool) -> Seq<ProjectView> {
        if has(dir, "go.mod"@) || has(dir, "main.go"@) {
            seq![plain_project("go"@, unless_fast(fast, dir.versions.go), seq![])]
        } else {
            seq![]
        }
    }

    fn detect(&self, dir: &ProjectDir, fast: bool) -> (r: Vec<ProjectContext>) {
        if !has_entry(dir, "go.mod") && !has_entry(dir, "main.go") {
            return Vec::new();
        }
        let p = project_context("go", version_unless_fast(fast, &dir.versions.go), Vec::new());
        let r = one(p);
        assert(project_views(r@) =~= self.reports(*dir, fast));
        r
    }
}

pub open spec fn spec_java_build_tool(dir: ProjectDir) -> Option<Seq<char>> {
    if has(dir, "build.gradle"@) || has(dir, "build.gradle.kts"@) || has(dir, "settings.gradle"@)
        || has(dir, "settings.gradle.kts"@) {
        Some("gradle"@)
    } else if has(dir, "pom.xml"@) {
        Some("maven"@)
    } else {
        None
    }
}

/// The build tool of a Java project: Gradle before Maven.
pub fn java_build_tool(dir: &ProjectDir) -> (r: Option<&'static str>)
    ensures
        match r {
            Some(t) => spec_java_build_tool(*dir) == Some(t@),
            None => spec_java_build_tool(*dir) is None,
        },
{
    if has_entry(dir, "build.gradle") || has_entry(dir, "build.gradle.kts") || has_entry(
        dir,
        "settings.gradle",
    ) || has_entry(dir, "settings.gradle.kts") {
        return Some("gradle");
    }
    if has_entry(dir, "pom.xml") {
        return Some("maven");
    }
    None
}

/// Java: a Gradle or Maven build; the version shown is the major one.
pub struct JavaDetector;

impl ProjectDetector for JavaDetector {
    open spec fn reports(&self, dir: ProjectDir, fast: bool) -> Seq<ProjectView> {
        match spec_java_build_tool(dir) {
            Some(tool) => seq![
                plain_project(
                    "java"@,
                    match unless_fast(fast, dir.versions.java) {
                        Some(v) => Some(spec_major_version(v)),
                        None => None,
                    },
                    seq![tool],
                ),
            ],
            None => seq![],
        }
    }

    fn detect(&self, dir: &ProjectDir, fast: bool) -> (r: Vec<ProjectContext>) {
        let tool = match java_build_tool(dir) {
            Some(t) => t,
            None => {
                return Vec::new();
            },
        };
        let version = match version_unless_fast(fast, &dir.versions.java) {
            Some(v) => Some(crate::context::version::major_version(v.as_str())),
            None => None,
        };
        let mut details: Vec<String> = Vec::new();
        details.push(owned(tool));
        assert(strs(details@) =~= seq![tool@]);
        let p = project_context("java", version, details);
        let r = one(p);
        assert(project_views(r@) =~= self.reports(*dir, fast));
        r
    }
}

/// A detector that only looks for one file name.
fn marker_project(dir: &ProjectDir, marker: &str, kind: &str) -> (r: Vec<ProjectContext>)
    ensures
        project_views(r@) == (if has(*dir, marker@) {
            seq![plain_project(kind@, None, seq![])]
        } else {
            seq![]
        }),
{
    if !has_entry(dir, marker) {
        return Vec::new();
    }
    let r = one(project_context(kind, None, Vec::new()));
    assert(project_views(r@) =~= seq![plain_project(kind@, None, seq![])]);
    r
}

/// Ruby: a `Gemfile`.
pub struct RubyDetector;

impl ProjectDetector for RubyDetector {
    open spec fn reports(&self, dir: ProjectDir, fast: bool) -> Seq<ProjectView> {
        if has(dir, "Gemfile"@) {
            seq![plain_project("ruby"@, None, seq![])]
        } else {
            seq![]
        }
    }

    fn detect(&self, dir: &ProjectDir, fast: bool) -> (r: Vec<ProjectContext>) {
        marker_project(dir, "Gemfile", "ruby")
    }
}

/// PHP: a `composer.json`.
pub struct PhpDetector;

impl ProjectDetector for PhpDetector {
    open spec fn reports(&self, dir: ProjectDir, fast: bool) -> Seq<ProjectView> {
        if has(dir, "composer.json"@) {
            seq![plain_project("php"@, None, seq![])]
        } else {
            seq![]
        }
    }

    fn detect(&self, dir: &ProjectDir, fast: bool) -> (r: Vec<ProjectContext>) {
        marker_project(dir, "composer.json", "php")
    }
}

/// Swift: a `Package.swift`.
pub struct SwiftDetector;

impl ProjectDetector for SwiftDetector {
    open spec fn reports(&self, dir: ProjectDir, fast: bool) -> Seq<ProjectView> {
        if has(dir, "Package.swift"@) {
            seq![plain_project("swift"@, None, seq![])]
        } else {
            seq![]
        }
    }

    fn detect(&self, dir: &ProjectDir, fast: bool) -> (r: Vec<ProjectContext>) {
        marker_project(dir, "Package.swift", "swift")
    }
}

/// C and C++: a build file (CMake, Make or Meson), not sources alone.
pub struct CCppDetector;

impl ProjectDetector for CCppDetector {
    open spec fn reports(&self, dir: ProjectDir, fast: bool) -> Seq<ProjectView> {
        if has(dir, "CMakeLists.txt"@) || has(dir, "Makefile"@) || has(dir, "meson.build"@) {
            seq![plain_project("c/cpp"@, None, seq![])]
        } else {
            seq![]
        }
    }

    fn detect(&self, dir: &ProjectDir, fast: bool) -> (r: Vec<ProjectContext>) {
        if !has_entry(dir, "CMakeLists.txt") && !has_entry(dir, "Makefile") && !has_entry(
            dir,
            "meson.build",
        ) {
            return Vec::new();
        }
        let r = one(project_context("c/cpp", None, Vec::new()));
        assert(project_views(r@) =~= self.reports(*dir, fast));
        r
    }
}

/// C#: a `.csproj` or `.sln` file.
pub struct CSharpDetector;

impl ProjectDetector for CSharpDetector {
    open spec fn reports(&self, dir: ProjectDir, fast: bool) -> Seq<ProjectView> {
        if has_ext(dir, "csproj"@) || has_ext(dir, "sln"@) {
            seq![plain_project("csharp"@, None, seq![])]
        } else {
            seq![]
        }
    }

    fn detect(&self, dir: &ProjectDir, fast: bool) -> (r: Vec<ProjectContext>) {
        if !has_extension(dir, "csproj") && !has_extension(dir, "sln") {
            return Vec::new();
        }
        let r = one(project_context("csharp", None, Vec::new()));
        assert(project_views(r@) =~= self.reports(*dir, fast));
        r
    }
}

/// Lua: a `.rockspec` file.
pub struct LuaDetector;

impl ProjectDetector for LuaDetector {
    open spec fn reports(&self, dir: ProjectDir, fast: bool) -> Seq<ProjectView> {
        if has_ext(dir, "rockspec"@) {
            seq![plain_project("lua"@, None, seq![])]
        } else {
            seq![]
        }
    }

    fn detect(&self, dir: &ProjectDir, fast: bool) -> (r: Vec<ProjectContext>) {
        if !has_extension(dir, "rockspec") {
            return Vec::new();
        }
        let r = one(project_context("lua", None, Vec::new()));
        assert(project_views(r@) =~= self.reports(*dir, fast));
        r
    }
}

/// R: a `DESCRIPTION` file or an `.Rproj` project.
pub struct RDetector;

impl ProjectDetector for RDetector {
    open spec fn reports(&self, dir: ProjectDir, fast: bool) -> Seq<ProjectView> {
        if has(dir, "DESCRIPTION"@) || has_ext(dir, "Rproj"@) {
            seq![plain_project("r"@, None, seq![])]
        } else {
            seq![]
        }
    }

    fn detect(&self, dir: &ProjectDir, fast: bool) -> (r: Vec<ProjectContext>) {
        if !has_entry(dir, "DESCRIPTION") && !has_extension(dir, "Rproj") {
            return Vec::new();
        }
        let r = one(project_context("r", None, Vec::new()));
        assert(project_views(r@) =~= self.reports(*dir, fast));
        r
    }
}

/// Docker Compose: a compose file; outside fast mode its project name and
/// number of services are read.
pub struct ComposeDetector;

impl ProjectDetector for ComposeDetector {
    open spec fn reports(&self, dir: ProjectDir, fast: bool) -> Seq<ProjectView> {
        match spec_compose_file(strs(dir.entries@)) {
            Some(_) => {
                let (name, count) = if fast {
                    (None, None)
                } else {
                    spec_compose_summary(opt_view(dir.compose_contents))
                };
                seq![("docker compose"@, None, name, count, seq![])]
            },
            None => seq![],
        }
    }

    fn detect(&self, dir: &ProjectDir, fast: bool) -> (r: Vec<ProjectContext>) {
        if compose_file(&dir.entries).is_none() {
            return Vec::new();
        }
        let (project_name, service_count) = if fast {
            (None, None)
        } else {
            match &dir.compose_contents {
                Some(c) => compose_summary(Some(c.as_str())),
                None => compose_summary(None),
            }
        };
        let p = ProjectContext {
            kind: owned("docker compose"),
            version: None,
            project_name,
            service_count,
            details: Vec::new(),
        };
        let r = one(p);
        assert(strs(r@[0].details@) =~= Seq::<Seq<char>>::empty());
        assert(project_views(r@) =~= self.reports(*dir, fast));
        r
    }
}

/// What every detector reports, in the order of the registry.
pub open spec fn all_reports(dir: ProjectDir, fast: bool) -> Seq<ProjectView> {
    RustDetector.reports(dir, fast) + NodeDetector.reports(dir, fast) + PythonDetector.reports(
        dir,
        fast,
    ) + GoDetector.reports(dir, fast) + JavaDetector.reports(dir, fast) + RubyDetector.reports(
        dir,
        fast,
    ) + CCppDetector.reports(dir, fast) + PhpDetector.reports(dir, fast) + LuaDetector.reports(
        dir,
        fast,
    ) + SwiftDetector.reports(dir, fast) + RDetector.reports(dir, fast) + CSharpDetector.reports(
        dir,
        fast,
    ) + ComposeDetector.reports(dir, fast)
}

fn append_all(acc: &mut Vec<ProjectContext>, more: Vec<ProjectContext>)
    ensures
        final(acc)@ == old(acc)@ + more@,
        project_views(final(acc)@) == project_views(old(acc)@) + project_views(more@),
{
    let ghost a = acc@;
    let mut more = more;
    let ghost m = more@;
    acc.append(&mut more);
    assert(project_views(a + m) =~= project_views(a) + project_views(m));
}

/// Every project found in the directory, in display order: by the fixed
/// rank of its kind, not by the order of detection.
#[verifier::rlimit(40)]
pub fn detect_in(dir: &ProjectDir, fast: bool) -> (r: Vec<ProjectContext>)
    ensures
        project_views(r@) == sort_by(all_reports(*dir, fast), view_order()),
{
    let mut found: Vec<ProjectContext> = Vec::new();
    assert(project_views(found@) =~= Seq::<ProjectView>::empty());
    append_all(&mut found, RustDetector.detect(dir, fast));
    append_all(&mut found, NodeDetector.detect(dir, fast));
    append_all(&mut found, PythonDetector.detect(dir, fast));
    append_all(&mut found, GoDetector.detect(dir, fast));
    append_all(&mut found, JavaDetector.detect(dir, fast));
    append_all(&mut found, RubyDetector.detect(dir, fast));
    append_all(&mut found, CCppDetector.detect(dir, fast));
    append_all(&mut found, PhpDetector.detect(dir, fast));
    append_all(&mut found, LuaDetector.detect(dir, fast));
    append_all(&mut found, SwiftDetector.detect(dir, fast));
    append_all(&mut found, RDetector.detect(dir, fast));
    append_all(&mut found, CSharpDetector.detect(dir, fast));
    append_all(&mut found, ComposeDetector.detect(dir, fast));
    proof {
        assert(Seq::<ProjectView>::empty() + RustDetector.reports(*dir, fast) =~= RustDetector.reports(*dir, fast));
        assert(project_views(found@) == all_reports(*dir, fast));
        lemma_projects_view(found@);
    }
    sort_projects(found)
}

/// A tool whose version a detector reports.
#[derive(Debug, Clone, Copy, PartialEq, Eq, Structural)]
pub enum Tool {
    Rustc,
    Node,
    Python,
    Go,
    Java,
}

/// Whether a tool's version is shown, so that it is worth running.
pub fn tool_needed(tool: Tool, dir: &ProjectDir, fast: bool) -> (r: bool)
    ensures
        r == (!fast && match tool {
            Tool::Rustc => has(*dir, "Cargo.toml"@),
            Tool::Node => has(*dir, "package.json"@),
            Tool::Python => spec_python_signal(*dir),
            Tool::Go => has(*dir, "go.mod"@) || has(*dir, "main.go"@),
            Tool::Java => spec_java_build_tool(*dir) is Some,
        }),
{
    if fast {
        return false;
    }
    match tool {
        Tool::Rustc => has_entry(dir, "Cargo.toml"),
        Tool::Node => has_entry(dir, "package.json"),
        Tool::Python => python_signal(dir),
        Tool::Go => has_entry(dir, "go.mod") || has_entry(dir, "main.go"),
        Tool::Java => java_build_tool(dir).is_some(),
    }
}

/// Ranking projects by kind is a total preorder.
pub proof fn lemma_view_order_total_preorder()
    ensures
        total_preorder(view_order()),
{
    let le = view_order();
    assert forall|a: ProjectView, b: ProjectView| #[trigger] le(a, b) || le(b, a) by {
        lemma_text_le_total(a.0, b.0);
    }
    assert forall|a: ProjectView, b: ProjectView, c: ProjectView|
        #[trigger] le(a, b) && #[trigger] le(b, c) implies le(a, c) by {
        if view_le(a, b) && view_le(b, c) {
            if spec_project_priority(a.0) == spec_project_priority(b.0) && spec_project_priority(b.0)
                == spec_project_priority(c.0) {
                lemma_text_le_transitive(a.0, b.0, c.0);
            }
        }
    }
}

/// The projects found in a directory come in the fixed order of their
/// kinds, not in the order the detectors ran, and every project a detector
/// reports is shown exactly once.
pub proof fn lemma_detected_projects_ordered(dir: ProjectDir, fast: bool)
    ensures
        ({
            let shown = sort_by(all_reports(dir, fast), view_order());
            &&& sorted_by(shown, view_order())
            &&& forall|i: int, j: int|
                0 <= i < j < shown.len() ==> spec_project_priority(#[trigger] shown[i].0)
                    <= spec_project_priority(#[trigger] shown[j].0)
            &&& shown.to_multiset() == all_reports(dir, fast).to_multiset()
        }),
{
    lemma_view_order_total_preorder();
    lemma_sort_by_sorted(all_reports(dir, fast), view_order());
    lemma_sort_by_permutation(all_reports(dir, fast), view_order());
    let shown = sort_by(all_reports(dir, fast), view_order());
    assert forall|i: int, j: int| 0 <= i < j < shown.len() implies spec_project_priority(
        #[trigger] shown[i].0,
    ) <= spec_project_priority(#[trigger] shown[j].0) by {
        assert(view_order()(shown[i], shown[j]));
    }
}

/// What fast mode keeps of a project: its kind and details, without the
/// version and the compose summary.
pub open spec fn without_slow_parts(v: ProjectView) -> ProjectView {
    (v.0, None, None, None, v.4)
}

pub open spec fn fast_view(s: Seq<ProjectView>) -> Seq<ProjectView> {
    s.map_values(|v: ProjectView| without_slow_parts(v))
}

proof fn lemma_fast_view_concat(a: Seq<ProjectView>, b: Seq<ProjectView>)
    ensures
        fast_view(a + b) == fast_view(a) + fast_view(b),
{
    assert(fast_view(a + b) =~= fast_view(a) + fast_view(b));
}

/// Fast mode finds the same projects, in the same order and with the same
/// details; it only leaves out what needs running a tool or reading a file.
pub proof fn lemma_fast_finds_the_same_projects(dir: ProjectDir)
    ensures
        all_reports(dir, true) == fast_view(all_reports(dir, false)),
{
    let p0 = RustDetector.reports(dir, false);
    let p1 = NodeDetector.reports(dir, false);
    let p2 = PythonDetector.reports(dir, false);
    let p3 = GoDetector.reports(dir, false);
    let p4 = JavaDetector.reports(dir, false);
    let p5 = RubyDetector.reports(dir, false);
    let p6 = CCppDetector.reports(dir, false);
    let p7 = PhpDetector.reports(dir, false);
    let p8 = LuaDetector.reports(dir, false);
    let p9 = SwiftDetector.reports(dir, false);
    let p10 = RDetector.reports(dir, false);
    let p11 = CSharpDetector.reports(dir, false);
    let p12 = ComposeDetector.reports(dir, false);
    assert(RustDetector.reports(dir, true) =~= fast_view(p0));
    assert(NodeDetector.reports(dir, true) =~= fast_view(p1));
    assert(PythonDetector.reports(dir, true) =~= fast_view(p2));
    assert(GoDetector.reports(dir, true) =~= fast_view(p3));
    assert(JavaDetector.reports(dir, true) =~= fast_view(p4));
    assert(RubyDetector.reports(dir, true) =~= fast_view(p5));
    assert(CCppDetector.reports(dir, true) =~= fast_view(p6));
    assert(PhpDetector.reports(dir, true) =~= fast_view(p7));
    assert(LuaDetector.reports(dir, true) =~= fast_view(p8));
    assert(SwiftDetector.reports(dir, true) =~= fast_view(p9));
    assert(RDetector.reports(dir, true) =~= fast_view(p10));
    assert(CSharpDetector.reports(dir, true) =~= fast_view(p11));
    assert(ComposeDetector.reports(dir, true) =~= fast_view(p12));
    let s1 = p0 + p1;
    lemma_fast_view_concat(p0, p1);
    let s2 = s1 + p2;
    lemma_fast_view_concat(s1, p2);
    let s3 = s2 + p3;
    lemma_fast_view_concat(s2, p3);
    let s4 = s3 + p4;
    lemma_fast_view_concat(s3, p4);
    let s5 = s4 + p5;
    lemma_fast_view_concat(s4, p5);
    let s6 = s5 + p6;
    lemma_fast_view_concat(s5, p6);
    let s7 = s6 + p7;
    lemma_fast_view_concat(s6, p7);
    let s8 = s7 + p8;
    lemma_fast_view_concat(s7, p8);
    let s9 = s8 + p9;
    lemma_fast_view_concat(s8, p9);
    let s10 = s9 + p10;
    lemma_fast_view_concat(s9, p10);
    let s11 = s10 + p11;
    lemma_fast_view_concat(s10, p11);
    lemma_fast_view_concat(s11, p12);
}

} // verus!
