//! `me update`: where the running binary came from, whether a release is
//! newer, which artifact to fetch, and how a download is checked against
//! the published SHA-256 manifest. Running commands and touching files is
//! left to the caller.
use crate::error::MeError;
use crate::model::str_eq;
use crate::output::semantics::{file_name, spec_file_name};
use crate::path::{
    path_eq, path_eq_exec, path_join, path_starts_with, path_starts_with_exec, spec_path_join,
};
use crate::text::{
    all_digits, ascii_lower, chars_of, contains, contains_str, digits_value, ends_with, ends_with_str,
    eq_ignore_ascii_case, eq_ignore_ascii_case_str, is_digit, lines, lines_of, lower_ascii,
    lower_char, opt_view, owned, parse_u64, parse_u64_str, push_char, push_str, split_char,
    split_char_of, starts_with, starts_with_str, string_of, string_of_range, trim, trim_str, bufs,
    words, words_of,
};
use vstd::prelude::*;

verus! {

// ---------------------------------------------------------------------------
// Install source
// ---------------------------------------------------------------------------

/// How the running binary was installed.
#[derive(Debug, Clone)]
pub enum InstallSource {
    Homebrew,
    ReleaseBinary(String),
    Unknown(String),
}

pub open spec fn source_view(s: InstallSource) -> (nat, Seq<char>) {
    match s {
        InstallSource::Homebrew => (0, seq![]),
        InstallSource::ReleaseBinary(p) => (1, p@),
        InstallSource::Unknown(p) => (2, p@),
    }
}

pub open spec fn spec_source_label(s: InstallSource) -> Seq<char> {
    match s {
        InstallSource::Homebrew => "homebrew"@,
        InstallSource::ReleaseBinary(_) => "release binary"@,
        InstallSource::Unknown(_) => "unknown"@,
    }
}

impl InstallSource {
    /// The name shown for the source.
    pub fn label(&self) -> (r: &'static str)
        ensures
            r@ == spec_source_label(*self),
    {
        match self {
            InstallSource::Homebrew => "homebrew",
            InstallSource::ReleaseBinary(_) => "release binary",
            InstallSource::Unknown(_) => "unknown",
        }
    }

    /// The binary's path, for the sources that have one.
    pub fn path(&self) -> (r: Option<String>)
        ensures
            opt_view(r) == match *self {
                InstallSource::Homebrew => None,
                InstallSource::ReleaseBinary(p) => Some(p@),
                InstallSource::Unknown(p) => Some(p@),
            },
    {
        match self {
            InstallSource::Homebrew => None,
            InstallSource::ReleaseBinary(p) => Some(p.clone()),
            InstallSource::Unknown(p) => Some(p.clone()),
        }
    }
}

/// The source named by `ME_UPDATE_SOURCE`: `homebrew`, `release`, or
/// anything else for unknown.
pub fn source_override(value: &str, exe: &str) -> (r: InstallSource)
    ensures
        source_view(r) == (if value@ == "homebrew"@ {
            (0nat, Seq::<char>::empty())
        } else if value@ == "release"@ {
            (1nat, exe@)
        } else {
            (2nat, exe@)
        }),
{
    if str_eq(value, "homebrew") {
        InstallSource::Homebrew
    } else if str_eq(value, "release") {
        InstallSource::ReleaseBinary(owned(exe))
    } else {
        InstallSource::Unknown(owned(exe))
    }
}

pub open spec fn spec_layout(p: Seq<char>) -> bool {
    ||| p == "/opt/homebrew/bin/me"@
    ||| p == "/usr/local/bin/me"@
    ||| starts_with(p, "/opt/homebrew/Cellar/me/"@)
    ||| starts_with(p, "/usr/local/Cellar/me/"@)
    ||| starts_with(p, "/opt/homebrew/opt/me/"@)
    ||| starts_with(p, "/usr/local/opt/me/"@)
}

/// Whether a path is where Homebrew puts `me` under its standard prefixes.
pub fn matches_homebrew_layout(path: &str) -> (r: bool)
    ensures
        r == spec_layout(path@),
{
    str_eq(path, "/opt/homebrew/bin/me") || str_eq(path, "/usr/local/bin/me") || starts_with_str(
        path,
        "/opt/homebrew/Cellar/me/",
    ) || starts_with_str(path, "/usr/local/Cellar/me/") || starts_with_str(
        path,
        "/opt/homebrew/opt/me/",
    ) || starts_with_str(path, "/usr/local/opt/me/")
}

pub open spec fn spec_binary_name(os: Seq<char>) -> Seq<char> {
    if os == "windows"@ {
        "me.exe"@
    } else {
        "me"@
    }
}

/// The binary's file name on a platform.
pub fn binary_name(os: &str) -> (r: &'static str)
    ensures
        r@ == spec_binary_name(os@),
{
    if str_eq(os, "windows") {
        "me.exe"
    } else {
        "me"
    }
}

pub open spec fn spec_is_homebrew_path(
    exe: Seq<char>,
    canonical: Seq<char>,
    prefix: Option<Seq<char>>,
    binary: Seq<char>,
) -> bool {
    ||| spec_layout(exe)
    ||| spec_layout(canonical)
    ||| match prefix {
        None => false,
        Some(p) => {
            let bin = spec_path_join(spec_path_join(p, "bin"@), binary);
            let opt = spec_path_join(spec_path_join(p, "opt"@), "me"@);
            let cellar = spec_path_join(spec_path_join(p, "Cellar"@), "me"@);
            ||| path_eq(exe, bin)
            ||| path_eq(canonical, bin)
            ||| path_starts_with(exe, opt)
            ||| path_starts_with(canonical, opt)
            ||| path_starts_with(exe, cellar)
            ||| path_starts_with(canonical, cellar)
        },
    }
}

/// Whether the binary (or the file it resolves to) lies where Homebrew
/// installs `me`.
pub fn is_homebrew_path(exe: &str, canonical: &str, brew_prefix: Option<&str>, binary: &str) -> (r:
    bool)
    ensures
        r == spec_is_homebrew_path(
            exe@,
            canonical@,
            match brew_prefix {
                Some(p) => Some(p@),
                None => None,
            },
            binary@,
        ),
{
    if matches_homebrew_layout(exe) || matches_homebrew_layout(canonical) {
        return true;
    }
    match brew_prefix {
        None => false,
        Some(prefix) => {
            let bin_dir = path_join(prefix, "bin");
            let bin = path_join(bin_dir.as_str(), binary);
            let opt_dir = path_join(prefix, "opt");
            let opt = path_join(opt_dir.as_str(), "me");
            let cellar_dir = path_join(prefix, "Cellar");
            let cellar = path_join(cellar_dir.as_str(), "me");
            path_eq_exec(exe, bin.as_str()) || path_eq_exec(canonical, bin.as_str())
                || path_starts_with_exec(exe, opt.as_str()) || path_starts_with_exec(
                canonical,
                opt.as_str(),
            ) || path_starts_with_exec(exe, cellar.as_str()) || path_starts_with_exec(
                canonical,
                cellar.as_str(),
            )
        },
    }
}

pub open spec fn is_me_binary_name(n: Seq<char>) -> bool {
    n == "me"@ || n == "me.exe"@
}

/// Whether a file name is that of the `me` binary.
pub fn is_binary_file_name(name: &str) -> (r: bool)
    ensures
        r == is_me_binary_name(name@),
{
    str_eq(name, "me") || str_eq(name, "me.exe")
}

pub open spec fn spec_looks_like_release(exe: Seq<char>) -> bool {
    &&& spec_file_name(exe) matches Some(n) && is_me_binary_name(n)
    &&& !contains(exe, "/target/"@)
    &&& !contains(exe, "\\target\\"@)
    &&& !contains(exe, ".cargo"@)
}

/// Whether a path looks like an installed release binary rather than a
/// build from a source tree.
pub fn looks_like_release_binary(exe: &str) -> (r: bool)
    ensures
        r == spec_looks_like_release(exe@),
{
    match file_name(exe) {
        None => false,
        Some(n) => is_binary_file_name(n.as_str()) && !contains_str(exe, "/target/")
            && !contains_str(exe, "\\target\\") && !contains_str(exe, ".cargo"),
    }
}

pub open spec fn spec_looks_like_release_for(exe: Seq<char>, os: Seq<char>, exe_is_regular: bool) -> bool {
    if !spec_looks_like_release(exe) {
        false
    } else if os != "macos"@ {
        true
    } else if ends_with(exe, "/.local/bin/me"@) {
        true
    } else if exe == "/usr/local/bin/me"@ {
        exe_is_regular
    } else {
        false
    }
}

/// Whether a path is a release binary on a platform. On macOS only
/// `~/.local/bin/me`, and `/usr/local/bin/me` when it is a file of its own
/// rather than a link (`exe_is_regular`), count.
pub fn looks_like_release_binary_for(exe: &str, os: &str, exe_is_regular: bool) -> (r: bool)
    ensures
        r == spec_looks_like_release_for(exe@, os@, exe_is_regular),
{
    if !looks_like_release_binary(exe) {
        return false;
    }
    if !str_eq(os, "macos") {
        return true;
    }
    if ends_with_str(exe, "/.local/bin/me") {
        return true;
    }
    if str_eq(exe, "/usr/local/bin/me") {
        return exe_is_regular;
    }
    false
}

pub open spec fn spec_detect_source(
    exe: Seq<char>,
    os: Seq<char>,
    prefix: Option<Seq<char>>,
    canonical: Seq<char>,
    exe_is_regular: bool,
) -> (nat, Seq<char>) {
    if os == "macos"@ && spec_is_homebrew_path(exe, canonical, prefix, spec_binary_name(os)) {
        (0, seq![])
    } else if spec_looks_like_release_for(exe, os, exe_is_regular) {
        (1, exe)
    } else {
        (2, exe)
    }
}

/// Where the binary at `exe` came from. `canonical` is the path it resolves
/// to (or `exe` itself when that fails), and `exe_is_regular` whether `exe`
/// is not a symbolic link.
pub fn detect_source_for(
    exe: &str,
    os: &str,
    brew_prefix: Option<&str>,
    canonical: &str,
    exe_is_regular: bool,
) -> (r: InstallSource)
    ensures
        source_view(r) == spec_detect_source(
            exe@,
            os@,
            match brew_prefix {
                Some(p) => Some(p@),
                None => None,
            },
            canonical@,
            exe_is_regular,
        ),
{
    if str_eq(os, "macos") && is_homebrew_path(exe, canonical, brew_prefix, binary_name(os)) {
        return InstallSource::Homebrew;
    }
    if looks_like_release_binary_for(exe, os, exe_is_regular) {
        InstallSource::ReleaseBinary(owned(exe))
    } else {
        InstallSource::Unknown(owned(exe))
    }
}

// ---------------------------------------------------------------------------
// Versions
// ---------------------------------------------------------------------------

/// `s` without any leading `c`.
pub open spec fn strip_leading(s: Seq<char>, c: char) -> Seq<char>
    decreases s.len(),
{
    if s.len() > 0 && s[0] == c {
        strip_leading(s.drop_first(), c)
    } else {
        s
    }
}

/// A version as written, without surrounding space and leading `v`s.
pub open spec fn spec_clean_version(v: Seq<char>) -> Seq<char> {
    strip_leading(trim(v), 'v')
}

/// Removes surrounding whitespace and every leading `v`.
pub fn clean_version(version: &str) -> (r: String)
    ensures
        r@ == spec_clean_version(version@),
{
    let t = trim_str(version);
    let v = chars_of(t.as_str());
    let mut i: usize = 0;
    assert(v@.skip(0) =~= v@);
    while i < v.len() && v[i] == 'v'
        invariant
            i <= v.len(),
            strip_leading(v@, 'v') == strip_leading(v@.skip(i as int), 'v'),
        decreases v.len() - i,
    {
        assert(v@.skip(i as int).drop_first() =~= v@.skip(i + 1));
        i += 1;
    }
    assert(v@.subrange(i as int, v@.len() as int) =~= v@.skip(i as int));
    string_of_range(&v, i, v.len())
}

/// Length of the run of ASCII digits at the start of `s`.
pub open spec fn digit_run(s: Seq<char>) -> nat
    decreases s.len(),
{
    if s.len() == 0 || !is_digit(s[0]) {
        0
    } else {
        1 + digit_run(s.drop_first())
    }
}

pub proof fn lemma_digit_run_bounds(s: Seq<char>)
    ensures
        digit_run(s) <= s.len(),
        s.len() > 0 && is_digit(s[0]) ==> digit_run(s) >= 1,
        forall|i: int| 0 <= i < digit_run(s) ==> is_digit(#[trigger] s[i]),
        digit_run(s) < s.len() ==> !is_digit(s[digit_run(s) as int]),
    decreases s.len(),
{
    if s.len() == 0 || !is_digit(s[0]) {
    } else {
        lemma_digit_run_bounds(s.drop_first());
        assert forall|i: int| 0 <= i < digit_run(s) implies is_digit(#[trigger] s[i]) by {
            if i > 0 {
                assert(s[i] == s.drop_first()[i - 1]);
            }
        }
    }
}

pub proof fn lemma_digit_run_exact(s: Seq<char>, k: int)
    requires
        0 <= k <= s.len(),
        forall|i: int| 0 <= i < k ==> is_digit(#[trigger] s[i]),
        k == s.len() || !is_digit(s[k]),
    ensures
        digit_run(s) == k,
    decreases k,
{
    if k > 0 {
        let t = s.drop_first();
        assert forall|i: int| 0 <= i < k - 1 implies is_digit(#[trigger] t[i]) by {
            assert(t[i] == s[i + 1]);
        }
        if k - 1 < t.len() {
            assert(t[k - 1] == s[k]);
        }
        lemma_digit_run_exact(t, k - 1);
    }
}

/// The maximal runs of ASCII digits, in order.
pub open spec fn digit_runs(s: Seq<char>) -> Seq<Seq<char>>
    decreases s.len(),
{
    if s.len() == 0 {
        seq![]
    } else if !is_digit(s[0]) {
        digit_runs(s.drop_first())
    } else {
        proof {
            lemma_digit_run_bounds(s);
        }
        seq![s.take(digit_run(s) as int)] + digit_runs(s.skip(digit_run(s) as int))
    }
}

/// A run's number; one too large for `u64` counts as 0.
pub open spec fn part_value(run: Seq<char>) -> u64 {
    if digits_value(run) <= u64::MAX {
        digits_value(run) as u64
    } else {
        0
    }
}

/// The numbers of a version, read from its runs of digits.
pub open spec fn version_parts(v: Seq<char>) -> Seq<u64> {
    digit_runs(v).map_values(|r: Seq<char>| part_value(r))
}

/// The numeric parts of a version string: each run of ASCII digits, in
/// order, with 0 for a run too large for `u64`.
pub fn parse_version(version: &str) -> (r: Vec<u64>)
    ensures
        r@ == version_parts(version@),
{
    let v = chars_of(version);
    let mut r: Vec<u64> = Vec::new();
    let mut i: usize = 0;
    assert(v@.skip(0) =~= v@);
    while i < v.len()
        invariant
            i <= v.len(),
            v@ == version@,
            version_parts(v@) == r@ + version_parts(v@.skip(i as int)),
        decreases v.len() - i,
    {
        let ghost rest = v@.skip(i as int);
        if !('0' <= v[i] && v[i] <= '9') {
            assert(rest.drop_first() =~= v@.skip(i + 1));
            i += 1;
        } else {
            let mut j = i + 1;
            while j < v.len() && '0' <= v[j] && v[j] <= '9'
                invariant
                    i < j <= v.len(),
                    forall|k: int| i <= k < j ==> is_digit(#[trigger] v@[k]),
                decreases v.len() - j,
            {
                j += 1;
            }
            let run = string_of_range(&v, i, j);
            proof {
                assert forall|k: int| 0 <= k < j - i implies is_digit(#[trigger] rest[k]) by {
                    assert(rest[k] == v@[i + k]);
                }
                if j < v.len() {
                    assert(rest[j - i] == v@[j as int]);
                }
                lemma_digit_run_exact(rest, j - i);
                assert(rest.take(j - i) =~= run@);
                assert(rest.skip(j - i) =~= v@.skip(j as int));
                assert(all_digits(run@)) by {
                    assert forall|k: int| 0 <= k < run@.len() implies is_digit(#[trigger] run@[k]) by {
                        assert(run@[k] == v@[i + k]);
                    }
                }
                assert(run@[0] != '+');
            }
            let n = match parse_u64_str(run.as_str()) {
                Some(n) => n,
                None => 0,
            };
            let ghost before = r@;
            r.push(n);
            proof {
                assert(n == part_value(run@));
                assert(version_parts(rest) =~= seq![n] + version_parts(v@.skip(j as int)));
                assert(before + version_parts(rest) =~= r@ + version_parts(v@.skip(j as int)));
            }
            i = j;
        }
    }
    proof {
        assert(v@.skip(i as int) =~= Seq::<char>::empty());
        assert(r@ + seq![] =~= r@);
    }
    r
}

/// Lexicographic order on version numbers, as `Vec<u64>` compares: a
/// proper prefix comes first.
pub open spec fn parts_less(a: Seq<u64>, b: Seq<u64>) -> bool
    decreases a.len(),
{
    if b.len() == 0 {
        false
    } else if a.len() == 0 {
        true
    } else if a[0] != b[0] {
        a[0] < b[0]
    } else {
        parts_less(a.drop_first(), b.drop_first())
    }
}

fn parts_less_exec(a: &Vec<u64>, b: &Vec<u64>) -> (r: bool)
    ensures
        r == parts_less(a@, b@),
{
    let mut i: usize = 0;
    assert(a@.skip(0) =~= a@);
    assert(b@.skip(0) =~= b@);
    while i < a.len() && i < b.len() && a[i] == b[i]
        invariant
            i <= a.len(),
            i <= b.len(),
            parts_less(a@, b@) == parts_less(a@.skip(i as int), b@.skip(i as int)),
        decreases a.len() - i,
    {
        assert(a@.skip(i as int).drop_first() =~= a@.skip(i + 1));
        assert(b@.skip(i as int).drop_first() =~= b@.skip(i + 1));
        i += 1;
    }
    if i == b.len() {
        false
    } else if i == a.len() {
        true
    } else {
        a[i] < b[i]
    }
}

pub open spec fn spec_is_newer(latest: Seq<char>, current: Seq<char>) -> bool {
    parts_less(version_parts(current), version_parts(latest))
}

/// Whether `latest` is a later version than `current`, comparing their
/// numeric parts in order.
pub fn is_newer(latest: &str, current: &str) -> (r: bool)
    ensures
        r == spec_is_newer(latest@, current@),
{
    let l = parse_version(latest);
    let c = parse_version(current);
    parts_less_exec(&c, &l)
}

/// No version is newer than itself.
pub proof fn lemma_parts_less_irreflexive(a: Seq<u64>)
    ensures
        !parts_less(a, a),
    decreases a.len(),
{
    if a.len() > 0 {
        lemma_parts_less_irreflexive(a.drop_first());
    }
}

/// Of two versions at most one is newer than the other.
pub proof fn lemma_parts_less_asymmetric(a: Seq<u64>, b: Seq<u64>)
    ensures
        parts_less(a, b) ==> !parts_less(b, a),
    decreases a.len(),
{
    if a.len() > 0 && b.len() > 0 && a[0] == b[0] {
        lemma_parts_less_asymmetric(a.drop_first(), b.drop_first());
    }
}

/// Newer-than is transitive.
pub proof fn lemma_parts_less_transitive(a: Seq<u64>, b: Seq<u64>, c: Seq<u64>)
    requires
        parts_less(a, b),
        parts_less(b, c),
    ensures
        parts_less(a, c),
    decreases a.len(),
{
    if a.len() > 0 && a[0] == b[0] && b[0] == c[0] {
        lemma_parts_less_transitive(a.drop_first(), b.drop_first(), c.drop_first());
    }
}

/// `is_newer` orders versions strictly: never a version over itself, never
/// both ways, and transitively.
pub proof fn lemma_is_newer_strict_order(x: Seq<char>, y: Seq<char>, z: Seq<char>)
    ensures
        !spec_is_newer(x, x),
        spec_is_newer(x, y) ==> !spec_is_newer(y, x),
        spec_is_newer(x, y) && spec_is_newer(y, z) ==> spec_is_newer(x, z),
{
    lemma_parts_less_irreflexive(version_parts(x));
    lemma_parts_less_asymmetric(version_parts(y), version_parts(x));
    if spec_is_newer(x, y) && spec_is_newer(y, z) {
        lemma_parts_less_transitive(version_parts(z), version_parts(y), version_parts(x));
    }
}

proof fn lemma_parts_less_first_difference(a: Seq<u64>, b: Seq<u64>)
    ensures
        parts_less(a, b) <==> exists|k: int|
            0 <= k <= a.len() && k < b.len() && a.take(k) == b.take(k) && (k == a.len() || a[k]
                < b[k]),
    decreases a.len(),
{
    if b.len() == 0 {
    } else if a.len() == 0 {
        assert(a.take(0) =~= b.take(0));
    } else if a[0] != b[0] {
        if a[0] < b[0] {
            assert(a.take(0) =~= b.take(0));
        } else {
            assert forall|k: int|
                0 <= k <= a.len() && k < b.len() && a.take(k) == b.take(k) implies !(k == a.len()
                || a[k] < b[k]) by {
                if k > 0 {
                    assert(a.take(k)[0] == b.take(k)[0]);
                }
            }
        }
    } else {
        let a1 = a.drop_first();
        let b1 = b.drop_first();
        lemma_parts_less_first_difference(a1, b1);
        if parts_less(a1, b1) {
            let k = choose|k: int|
                0 <= k <= a1.len() && k < b1.len() && a1.take(k) == b1.take(k) && (k == a1.len()
                    || a1[k] < b1[k]);
            assert(a.take(k + 1) =~= seq![a[0]] + a1.take(k));
            assert(b.take(k + 1) =~= seq![b[0]] + b1.take(k));
            assert(k + 1 == a.len() || a[k + 1] < b[k + 1]);
        } else {
            assert forall|k: int|
                0 <= k <= a.len() && k < b.len() && a.take(k) == b.take(k) implies !(k == a.len()
                || a[k] < b[k]) by {
                if k > 0 && (k == a.len() || a[k] < b[k]) {
                    assert(a1.take(k - 1) =~= a.take(k).drop_first());
                    assert(b1.take(k - 1) =~= b.take(k).drop_first());
                    assert(k - 1 == a1.len() || a1[k - 1] < b1[k - 1]);
                }
            }
        }
    }
}

/// `latest` is newer than `current` exactly when their numeric parts agree
/// up to some position where `latest` has a larger part, or where
/// `current` has run out of parts and `latest` has more: the order in which
/// `Vec<u64>` compares. So the first part that differs decides, and a major
/// release is newer than every version of the major release before it.
pub proof fn lemma_is_newer_first_difference(latest: Seq<char>, current: Seq<char>)
    ensures
        spec_is_newer(latest, current) <==> ({
            let l = version_parts(latest);
            let c = version_parts(current);
            exists|k: int|
                0 <= k <= c.len() && k < l.len() && c.take(k) == l.take(k) && (k == c.len()
                    || c[k] < l[k])
        }),
        ({
            let l = version_parts(latest);
            let c = version_parts(current);
            l.len() > 0 && c.len() > 0 && l[0] != c[0] ==> (spec_is_newer(latest, current) <==> l[0]
                > c[0])
        }),
{
    let l = version_parts(latest);
    let c = version_parts(current);
    lemma_parts_less_first_difference(c, l);
    if l.len() > 0 && c.len() > 0 && l[0] != c[0] {
        if c[0] < l[0] {
            assert(c.take(0) =~= l.take(0));
        } else {
            assert forall|k: int|
                0 <= k <= c.len() && k < l.len() && c.take(k) == l.take(k) implies !(k == c.len()
                || c[k] < l[k]) by {
                if k > 0 {
                    assert(c.take(k)[0] == l.take(k)[0]);
                }
            }
        }
    }
}

/// A version that starts with a number followed by a dot has that number
/// as its first part.
proof fn lemma_leading_number(d: Seq<char>, rest: Seq<char>)
    requires
        d.len() > 0,
        all_digits(d),
        digits_value(d) <= u64::MAX,
    ensures
        version_parts(d + "."@ + rest).len() > 0,
        version_parts(d + "."@ + rest)[0] == digits_value(d),
{
    reveal_strlit(".");
    let s = d + "."@ + rest;
    assert forall|i: int| 0 <= i < d.len() implies is_digit(#[trigger] s[i]) by {
        assert(s[i] == d[i]);
    }
    assert(s[d.len() as int] == '.');
    lemma_digit_run_exact(s, d.len() as int);
    assert(s.take(d.len() as int) =~= d);
    let runs = digit_runs(s);
    assert(runs[0] == d);
    assert(version_parts(s)[0] == part_value(runs[0]));
}

/// Between two versions that begin with different numbers before a dot,
/// the one with the larger leading number is the newer, whatever follows:
/// `1.0.0` is newer than `0.9.9`.
pub proof fn lemma_leading_number_decides(d1: Seq<char>, r1: Seq<char>, d2: Seq<char>, r2: Seq<char>)
    requires
        d1.len() > 0,
        d2.len() > 0,
        all_digits(d1),
        all_digits(d2),
        digits_value(d1) <= u64::MAX,
        digits_value(d2) <= u64::MAX,
        digits_value(d1) != digits_value(d2),
    ensures
        spec_is_newer(d1 + "."@ + r1, d2 + "."@ + r2) == (digits_value(d1) > digits_value(d2)),
{
    lemma_leading_number(d1, r1);
    lemma_leading_number(d2, r2);
    lemma_is_newer_first_difference(d1 + "."@ + r1, d2 + "."@ + r2);
}

pub open spec fn spec_version_from_url(url: Seq<char>) -> Option<Seq<char>> {
    let last = split_char(trim(url), '/').last();
    if last.len() == 0 {
        None
    } else {
        Some(spec_clean_version(last))
    }
}

/// The version at the end of the URL that `releases/latest` redirects to.
pub fn version_from_release_url(effective: &str) -> (r: Option<String>)
    ensures
        opt_view(r) == spec_version_from_url(effective@),
{
    let t = trim_str(effective);
    let v = chars_of(t.as_str());
    let parts = split_char_of(&v, '/');
    let n = parts.len();
    proof {
        assert(bufs(parts@).len() >= 1);
    }
    let last = string_of(parts[n - 1].as_slice());
    assert(last@ == split_char(trim(effective@), '/').last());
    if last.unicode_len() == 0 {
        return None;
    }
    Some(clean_version(last.as_str()))
}

// ---------------------------------------------------------------------------
// Release artifacts
// ---------------------------------------------------------------------------

pub open spec fn spec_artifact_name(tag: Seq<char>, os: Seq<char>, arch: Seq<char>) -> Option<Seq<char>> {
    if os == "macos"@ && arch == "aarch64"@ {
        Some("me-"@ + tag + "-macos-arm64.tar.gz"@)
    } else if os == "macos"@ && arch == "x86_64"@ {
        Some("me-"@ + tag + "-macos-x64.tar.gz"@)
    } else if os == "linux"@ && arch == "x86_64"@ {
        Some("me-"@ + tag + "-linux-x64.tar.gz"@)
    } else if os == "linux"@ && arch == "aarch64"@ {
        Some("me-"@ + tag + "-linux-arm64.tar.gz"@)
    } else if os == "windows"@ && arch == "x86_64"@ {
        Some("me-"@ + tag + "-windows-x64.zip"@)
    } else if os == "windows"@ && arch == "aarch64"@ {
        Some("me-"@ + tag + "-windows-arm64.zip"@)
    } else {
        None
    }
}

/// The release archive for a platform, if one is published.
pub fn artifact_name(tag: &str, os: &str, arch: &str) -> (r: Option<String>)
    ensures
        opt_view(r) == spec_artifact_name(tag@, os@, arch@),
{
    let suffix = if str_eq(os, "macos") && str_eq(arch, "aarch64") {
        "-macos-arm64.tar.gz"
    } else if str_eq(os, "macos") && str_eq(arch, "x86_64") {
        "-macos-x64.tar.gz"
    } else if str_eq(os, "linux") && str_eq(arch, "x86_64") {
        "-linux-x64.tar.gz"
    } else if str_eq(os, "linux") && str_eq(arch, "aarch64") {
        "-linux-arm64.tar.gz"
    } else if str_eq(os, "windows") && str_eq(arch, "x86_64") {
        "-windows-x64.zip"
    } else if str_eq(os, "windows") && str_eq(arch, "aarch64") {
        "-windows-arm64.zip"
    } else {
        return None;
    };
    let mut r = owned("me-");
    push_str(&mut r, tag);
    push_str(&mut r, suffix);
    Some(r)
}

/// The URL of a file published with a release.
pub fn release_download_url(tag: &str, file: &str) -> (r: String)
    ensures
        r@ == "https://github.com/harveyTon/me/releases/download/"@ + tag@ + "/"@ + file@,
{
    let mut r = owned("https://github.com/harveyTon/me/releases/download/");
    push_str(&mut r, tag);
    push_str(&mut r, "/");
    push_str(&mut r, file);
    r
}

// ---------------------------------------------------------------------------
// Checksums
// ---------------------------------------------------------------------------

/// `s` without any leading copies of `p`.
pub open spec fn strip_leading_all(s: Seq<char>, p: Seq<char>) -> Seq<char>
    decreases s.len(),
{
    if p.len() > 0 && starts_with(s, p) {
        strip_leading_all(s.skip(p.len() as int), p)
    } else {
        s
    }
}

/// The checksum that one manifest line gives for `name`: the line's first
/// word, when its second word, without leading `./`, is `name`.
pub open spec fn line_checksum(line: Seq<char>, name: Seq<char>) -> Option<Seq<char>> {
    let ws = words(line);
    if ws.len() >= 2 && strip_leading_all(ws[1], "./"@) == name {
        Some(ws[0])
    } else {
        None
    }
}

/// The checksum of the first line that names `name`.
pub open spec fn checksum_in_lines(ls: Seq<Seq<char>>, name: Seq<char>) -> Option<Seq<char>>
    decreases ls.len(),
{
    if ls.len() == 0 {
        None
    } else {
        match line_checksum(ls[0], name) {
            Some(c) => Some(c),
            None => checksum_in_lines(ls.drop_first(), name),
        }
    }
}

/// Where the checksum for a file comes from: the first manifest line whose
/// second word, without leading `./`, is the file's name character for
/// character; the checksum is that line's first word. A line that names
/// another file, even one of the same length, is passed over, and when no
/// line names the file there is no checksum.
pub proof fn lemma_checksum_from_naming_line(ls: Seq<Seq<char>>, name: Seq<char>)
    ensures
        match checksum_in_lines(ls, name) {
            Some(c) => exists|i: int|
                0 <= i < ls.len() && words(ls[i]).len() >= 2 && strip_leading_all(
                    words(ls[i])[1],
                    "./"@,
                ) == name && words(ls[i])[0] == c && forall|j: int|
                    0 <= j < i ==> !(words(#[trigger] ls[j]).len() >= 2 && strip_leading_all(
                        words(ls[j])[1],
                        "./"@,
                    ) == name),
            None => forall|i: int|
                0 <= i < ls.len() ==> !(words(#[trigger] ls[i]).len() >= 2 && strip_leading_all(
                    words(ls[i])[1],
                    "./"@,
                ) == name),
        },
    decreases ls.len(),
{
    if ls.len() > 0 {
        let rest = ls.drop_first();
        lemma_checksum_from_naming_line(rest, name);
        match line_checksum(ls[0], name) {
            Some(c) => {
                assert(forall|j: int| 0 <= j < 0 ==> !(words(#[trigger] ls[j]).len() >= 2));
            },
            None => {
                match checksum_in_lines(rest, name) {
                    Some(c) => {
                        let i = choose|i: int|
                            0 <= i < rest.len() && words(rest[i]).len() >= 2 && strip_leading_all(
                                words(rest[i])[1],
                                "./"@,
                            ) == name && words(rest[i])[0] == c && forall|j: int|
                                0 <= j < i ==> !(words(#[trigger] rest[j]).len() >= 2
                                    && strip_leading_all(words(rest[j])[1], "./"@) == name);
                        assert(ls[i + 1] == rest[i]);
                        assert forall|j: int| 0 <= j < i + 1 implies !(words(#[trigger] ls[j]).len()
                            >= 2 && strip_leading_all(words(ls[j])[1], "./"@) == name) by {
                            if j > 0 {
                                assert(ls[j] == rest[j - 1]);
                            }
                        }
                    },
                    None => {
                        assert forall|i: int| 0 <= i < ls.len() implies !(words(#[trigger] ls[i]).len()
                            >= 2 && strip_leading_all(words(ls[i])[1], "./"@) == name) by {
                            if i > 0 {
                                assert(ls[i] == rest[i - 1]);
                            }
                        }
                    },
                }
            },
        }
    }
}

fn strip_dot_slash(w: &Vec<char>) -> (r: Vec<char>)
    ensures
        r@ == strip_leading_all(w@, "./"@),
{
    proof {
        reveal_strlit("./");
    }
    let mut i: usize = 0;
    assert(w@.skip(0) =~= w@);
    while w.len() - i >= 2 && w[i] == '.' && w[i + 1] == '/'
        invariant
            i <= w.len(),
            strip_leading_all(w@, "./"@) == strip_leading_all(w@.skip(i as int), "./"@),
        decreases w.len() - i,
    {
        proof {
            reveal_strlit("./");
            let s = w@.skip(i as int);
            assert(s[0] == w@[i as int]);
            assert(s[1] == w@[i + 1]);
            assert(s.subrange(0, 2) =~= "./"@);
            assert(s.skip(2) =~= w@.skip(i + 2));
        }
        i += 2;
    }
    proof {
        reveal_strlit("./");
        let s = w@.skip(i as int);
        if starts_with(s, "./"@) {
            assert(s[0] == s.subrange(0, 2)[0]);
            assert(s[1] == s.subrange(0, 2)[1]);
            assert(s[0] == w@[i as int]);
            assert(s[1] == w@[i + 1]);
        }
    }
    let mut r: Vec<char> = Vec::new();
    let mut k = i;
    while k < w.len()
        invariant
            i <= k <= w.len(),
            r@ == w@.subrange(i as int, k as int),
        decreases w.len() - k,
    {
        r.push(w[k]);
        k += 1;
        assert(r@ =~= w@.subrange(i as int, k as int));
    }
    assert(r@ =~= w@.skip(i as int));
    r
}

/// The checksum a manifest lists for a file name.
pub fn expected_checksum(manifest: &str, name: &str) -> (r: Option<String>)
    ensures
        opt_view(r) == checksum_in_lines(lines(manifest@), name@),
{
    let v = chars_of(manifest);
    let ls = lines_of(&v);
    let ghost lv = bufs(ls@);
    let target = chars_of(name);
    let mut i: usize = 0;
    assert(lv.skip(0) =~= lv);
    while i < ls.len()
        invariant
            i <= ls.len(),
            lv == bufs(ls@),
            lv == lines(manifest@),
            target@ == name@,
            checksum_in_lines(lv, name@) == checksum_in_lines(lv.skip(i as int), name@),
        decreases ls.len() - i,
    {
        let ws = words_of(ls[i].as_slice());
        assert(lv.skip(i as int)[0] == ls@[i as int]@);
        if ws.len() >= 2 {
            let stripped = strip_dot_slash(&ws[1]);
            let same = stripped.len() == target.len() && chars_equal(&stripped, &target);
            if same {
                assert(stripped@ =~= target@);
                return Some(string_of(ws[0].as_slice()));
            }
        }
        assert(lv.skip(i as int).drop_first() =~= lv.skip(i + 1));
        i += 1;
    }
    None
}

fn chars_equal(a: &Vec<char>, b: &Vec<char>) -> (r: bool)
    requires
        a.len() == b.len(),
    ensures
        r == (a@ == b@),
{
    let mut i: usize = 0;
    while i < a.len()
        invariant
            i <= a.len(),
            a.len() == b.len(),
            forall|k: int| 0 <= k < i ==> a@[k] == b@[k],
        decreases a.len() - i,
    {
        if a[i] != b[i] {
            return false;
        }
        i += 1;
    }
    assert(a@ =~= b@);
    true
}

/// What SHA-256 gives for a message (`sha2::Sha256`): a 32-byte digest.
pub uninterp spec fn sha256_digest(data: Seq<u8>) -> Seq<u8>;

/// `sha2::Sha256::digest`: the SHA-256 digest of `data`, which the crate
/// returns as 32 bytes. Nothing else about the digest is claimed.
#[verifier::external_body]
fn sha256(data: &[u8]) -> (r: Vec<u8>)
    ensures
        r@ == sha256_digest(data@),
        r@.len() == 32,
{
    <sha2::Sha256 as sha2::Digest>::digest(data).to_vec()
}

/// The lowercase hexadecimal digit for `n < 16`.
pub open spec fn hex_digit(n: nat) -> char {
    if n < 10 {
        (48 + n) as char
    } else {
        (87 + n) as char
    }
}

/// Bytes as lowercase hexadecimal, two digits each, as `{:x}` prints a
/// digest.
pub open spec fn hex_lower(b: Seq<u8>) -> Seq<char>
    decreases b.len(),
{
    if b.len() == 0 {
        seq![]
    } else {
        hex_lower(b.drop_last()) + seq![
            hex_digit((b.last() / 16) as nat),
            hex_digit((b.last() % 16) as nat),
        ]
    }
}

fn hex_char(n: u8) -> (r: char)
    requires
        n < 16,
    ensures
        r == hex_digit(n as nat),
{
    if n < 10 {
        let b: u8 = 48 + n;
        b as char
    } else {
        let b: u8 = 87 + n;
        b as char
    }
}

/// Lowercase hexadecimal of bytes.
pub fn to_hex(bytes: &[u8]) -> (r: String)
    ensures
        r@ == hex_lower(bytes@),
{
    let mut r = String::new();
    let mut i: usize = 0;
    while i < bytes.len()
        invariant
            i <= bytes.len(),
            r@ == hex_lower(bytes@.take(i as int)),
        decreases bytes.len() - i,
    {
        let b = bytes[i];
        proof {
            assert(bytes@.take(i + 1).drop_last() =~= bytes@.take(i as int));
            assert(bytes@.take(i + 1).last() == b);
        }
        push_char(&mut r, hex_char(b / 16));
        push_char(&mut r, hex_char(b % 16));
        i += 1;
    }
    assert(bytes@.take(bytes@.len() as int) =~= bytes@);
    r
}

/// The SHA-256 digest of `data`, in lowercase hexadecimal.
pub fn sha256_hex(data: &[u8]) -> (r: String)
    ensures
        r@ == hex_lower(sha256_digest(data@)),
{
    let digest = sha256(data);
    to_hex(digest.as_slice())
}

/// The checksum the manifest lists for the artifact's file name.
pub fn expected_checksum_for(artifact: &str, manifest: &str) -> (r: Result<String, MeError>)
    ensures
        match spec_file_name(artifact@) {
            None => r matches Err(MeError::Message(m)) && m@
                == "artifact path has no valid file name"@,
            Some(n) => match checksum_in_lines(lines(manifest@), n) {
                Some(c) => r matches Ok(s) && s@ == c,
                None => r matches Err(MeError::Message(m)) && m@
                    == "checksum manifest did not include the downloaded artifact"@,
            },
        },
{
    let name = match file_name(artifact) {
        Some(n) => n,
        None => {
            return Err(MeError::message("artifact path has no valid file name"));
        },
    };
    match expected_checksum(manifest, name.as_str()) {
        Some(c) => Ok(c),
        None => Err(MeError::message("checksum manifest did not include the downloaded artifact")),
    }
}

/// Compares the digest of the downloaded bytes with the expected checksum,
/// ignoring ASCII case.
pub fn check_digest(artifact: &str, expected: &str, data: &[u8]) -> (r: Result<(), MeError>)
    ensures
        eq_ignore_ascii_case(hex_lower(sha256_digest(data@)), expected@) ==> r is Ok,
        !eq_ignore_ascii_case(hex_lower(sha256_digest(data@)), expected@) ==> (r matches Err(
            MeError::Message(m),
        ) && m@ == "checksum verification failed for "@ + artifact@),
{
    let actual = sha256_hex(data);
    if eq_ignore_ascii_case_str(actual.as_str(), expected) {
        Ok(())
    } else {
        let mut m = owned("checksum verification failed for ");
        push_str(&mut m, artifact);
        Err(MeError::Message(m))
    }
}

/// Whether the manifest accepts `data` as the artifact: it lists a checksum
/// for the artifact's file name, and that checksum is the data's digest up
/// to ASCII case.
pub open spec fn manifest_accepts(artifact: Seq<char>, manifest: Seq<char>, data: Seq<u8>) -> bool {
    match spec_file_name(artifact) {
        Some(n) => match checksum_in_lines(lines(manifest), n) {
            Some(c) => eq_ignore_ascii_case(hex_lower(sha256_digest(data)), c),
            None => false,
        },
        None => false,
    }
}

/// Checks downloaded bytes against the manifest entry for the artifact.
pub fn verify_checksum_manifest(artifact: &str, manifest: &str, data: &[u8]) -> (r: Result<
    (),
    MeError,
>)
    ensures
        (r is Ok) == manifest_accepts(artifact@, manifest@, data@),
        match spec_file_name(artifact@) {
            None => r matches Err(MeError::Message(m)) && m@
                == "artifact path has no valid file name"@,
            Some(n) => match checksum_in_lines(lines(manifest@), n) {
                None => r matches Err(MeError::Message(m)) && m@
                    == "checksum manifest did not include the downloaded artifact"@,
                Some(c) => if eq_ignore_ascii_case(hex_lower(sha256_digest(data@)), c) {
                    r is Ok
                } else {
                    r matches Err(MeError::Message(m)) && m@ == "checksum verification failed for "@
                        + artifact@
                },
            },
        },
{
    let expected = expected_checksum_for(artifact, manifest)?;
    check_digest(artifact, expected.as_str(), data)
}

/// A manifest that lists, for the artifact's file name, the digest of the
/// downloaded bytes in hexadecimal, whether in lower or upper case, accepts
/// those bytes.
pub proof fn lemma_listed_digest_accepted(artifact: Seq<char>, manifest: Seq<char>, data: Seq<u8>)
    requires
        spec_file_name(artifact) matches Some(n) && checksum_in_lines(lines(manifest), n) matches Some(
            c,
        ) && lower_ascii(c) == hex_lower(sha256_digest(data)),
    ensures
        manifest_accepts(artifact, manifest, data),
{
    let n = spec_file_name(artifact)->0;
    let c = checksum_in_lines(lines(manifest), n)->0;
    let h = hex_lower(sha256_digest(data));
    assert(h.len() == c.len());
    assert forall|i: int| 0 <= i < h.len() implies ascii_lower(#[trigger] h[i]) == ascii_lower(c[i]) by {
        assert(h[i] == ascii_lower(c[i]));
    }
}

/// Downloaded bytes are accepted only through a manifest line that names
/// the artifact's own file name, character for character (after leading
/// `./`), and whose checksum is the bytes' digest up to ASCII case.
pub proof fn lemma_accepted_through_naming_line(artifact: Seq<char>, manifest: Seq<char>, data: Seq<u8>)
    requires
        manifest_accepts(artifact, manifest, data),
    ensures
        exists|i: int|
            0 <= i < lines(manifest).len() && words(#[trigger] lines(manifest)[i]).len() >= 2
                && spec_file_name(artifact) == Some(
                strip_leading_all(words(lines(manifest)[i])[1], "./"@),
            ) && eq_ignore_ascii_case(
                hex_lower(sha256_digest(data)),
                words(lines(manifest)[i])[0],
            ),
{
    let n = spec_file_name(artifact)->0;
    lemma_checksum_from_naming_line(lines(manifest), n);
}

// ---------------------------------------------------------------------------
// The update flow
// ---------------------------------------------------------------------------

/// What `me update` does once the versions are known.
#[derive(Debug, Clone, Copy, PartialEq, Eq, Structural)]
pub enum UpdateStep {
    /// Nothing newer is published.
    UpToDate,
    /// A newer release exists; `--check` stops here.
    CheckOnly,
    /// Ask before upgrading.
    Confirm,
    /// Upgrade without asking.
    Upgrade,
}

/// The next step for the versions and flags.
pub fn update_step(latest: &str, current: &str, check: bool, non_interactive: bool) -> (r: UpdateStep)
    ensures
        r == (if !spec_is_newer(latest@, current@) {
            UpdateStep::UpToDate
        } else if check {
            UpdateStep::CheckOnly
        } else if !non_interactive {
            UpdateStep::Confirm
        } else {
            UpdateStep::Upgrade
        }),
{
    if !is_newer(latest, current) {
        UpdateStep::UpToDate
    } else if check {
        UpdateStep::CheckOnly
    } else if !non_interactive {
        UpdateStep::Confirm
    } else {
        UpdateStep::Upgrade
    }
}

pub open spec fn spec_update_confirmed(answer: Seq<char>) -> bool {
    let a = lower_ascii(trim(answer));
    a.len() == 0 || a == "y"@ || a == "yes"@
}

/// Whether the answer to "Upgrade now? [Y/n]" is yes; an empty answer is.
pub fn update_confirmed(answer: &str) -> (r: bool)
    ensures
        r == spec_update_confirmed(answer@),
{
    let t = trim_str(answer);
    let v = chars_of(t.as_str());
    let mut lower = String::new();
    let mut i: usize = 0;
    while i < v.len()
        invariant
            i <= v.len(),
            lower@ == lower_ascii(v@.take(i as int)),
        decreases v.len() - i,
    {
        push_char(&mut lower, lower_char(v[i]));
        i += 1;
        assert(lower_ascii(v@.take(i as int)) =~= lower_ascii(v@.take(i - 1)).push(
            crate::text::ascii_lower(v@[i - 1]),
        ));
    }
    assert(v@.take(v@.len() as int) =~= v@);
    lower.unicode_len() == 0 || str_eq(lower.as_str(), "y") || str_eq(lower.as_str(), "yes")
}

/// The lines `me update` prints first.
pub fn update_header(current: &str, latest: &str, source: &InstallSource) -> (r: Vec<String>)
    ensures
        r@.map_values(|s: String| s@) == seq![
            "me update"@,
            "current: "@ + current@,
            "latest: "@ + latest@,
            "install source: "@ + spec_source_label(*source),
        ] + match *source {
            InstallSource::Homebrew => seq![],
            InstallSource::ReleaseBinary(p) => seq!["path: "@ + p@],
            InstallSource::Unknown(p) => seq!["path: "@ + p@],
        },
{
    let mut r: Vec<String> = Vec::new();
    r.push(owned("me update"));
    let mut a = owned("current: ");
    push_str(&mut a, current);
    r.push(a);
    let mut b = owned("latest: ");
    push_str(&mut b, latest);
    r.push(b);
    let mut c = owned("install source: ");
    push_str(&mut c, source.label());
    r.push(c);
    if let Some(p) = source.path() {
        let mut d = owned("path: ");
        push_str(&mut d, p.as_str());
        r.push(d);
    }
    assert(r@.map_values(|s: String| s@) =~= seq![
        "me update"@,
        "current: "@ + current@,
        "latest: "@ + latest@,
        "install source: "@ + spec_source_label(*source),
    ] + match *source {
        InstallSource::Homebrew => seq![],
        InstallSource::ReleaseBinary(p) => seq!["path: "@ + p@],
        InstallSource::Unknown(p) => seq!["path: "@ + p@],
    });
    r
}

/// How an upgrade is carried out.
#[derive(Debug, Clone)]
pub enum UpgradeTarget {
    /// `brew update` and `brew upgrade me`.
    Homebrew,
    /// Replace the binary at this path.
    ReleaseBinary(String),
}

/// The upgrade for a source; an unknown source is refused.
pub fn upgrade_target(source: &InstallSource) -> (r: Result<UpgradeTarget, MeError>)
    ensures
        match *source {
            InstallSource::Homebrew => r matches Ok(UpgradeTarget::Homebrew),
            InstallSource::ReleaseBinary(p) => r matches Ok(UpgradeTarget::ReleaseBinary(q)) && q@
                == p@,
            InstallSource::Unknown(_) => r matches Err(MeError::Message(m)) && m@
                == "unsupported or unknown install source; please update me manually"@,
        },
{
    match source {
        InstallSource::Homebrew => Ok(UpgradeTarget::Homebrew),
        InstallSource::ReleaseBinary(p) => Ok(UpgradeTarget::ReleaseBinary(p.clone())),
        InstallSource::Unknown(_) => Err(
            MeError::message("unsupported or unknown install source; please update me manually"),
        ),
    }
}

} // verus!
