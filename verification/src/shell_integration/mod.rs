//! `me install` / `me uninstall`: which shell files are touched, the managed
//! block written into them, and how existing blocks are found, replaced and
//! removed.
use crate::cli::{InstallArgs, InteractiveMode, LoginMode, Shell};
use crate::model::str_eq;
use crate::output::semantics::{file_name, spec_file_name};
use crate::path::{
    components, components_le, path_eq, path_eq_exec, path_join, path_le, spec_path_join,
    spec_strip_path_prefix, strip_path_prefix,
};
use crate::text::{
    bufs, chars_of, contains, contains_str, count_from, count_matches, count_matches_str, find,
    find_from, find_from_exec, join, join_strings, lemma_find_from_bounds, lemma_join_push, lines,
    lines_of, occurs_at, opt_view, owned, push_char, push_str, starts_with, starts_with_at,
    string_of, string_of_range, strip_prefix, strip_prefix_str, strs, trim, trim_bounds, words,
    words_of,
};
use vstd::prelude::*;

pub mod laws;
pub mod plan;

verus! {

/// First line of a managed block.
pub const START_MARKER: &'static str = "# >>> me install >>>";

/// Last line of a managed block.
pub const END_MARKER: &'static str = "# <<< me install <<<";

/// Start of the line that records how a block was installed.
pub const SIGNATURE_PREFIX: &'static str = "# me-managed:";

/// Version recorded in installed blocks.
pub const PKG_VERSION: &'static str = "0.4.0";

pub open spec fn start_marker() -> Seq<char> {
    "# >>> me install >>>"@
}

pub open spec fn end_marker() -> Seq<char> {
    "# <<< me install <<<"@
}

pub open spec fn signature_prefix() -> Seq<char> {
    "# me-managed:"@
}

/// Why a file is a target.
#[derive(Debug, Clone, Copy, PartialEq, Eq, Structural)]
pub enum TargetRole {
    Login,
    Interactive,
}

/// A shell file to write, with the roles it serves.
#[derive(Debug, Clone)]
pub struct TargetFile {
    pub shell: Shell,
    pub path: String,
    pub login: bool,
    pub interactive: bool,
}

impl TargetFile {
    /// Whether the file serves `role`.
    pub fn has_role(&self, role: TargetRole) -> (r: bool)
        ensures
            r == match role {
                TargetRole::Login => self.login,
                TargetRole::Interactive => self.interactive,
            },
    {
        match role {
            TargetRole::Login => self.login,
            TargetRole::Interactive => self.interactive,
        }
    }
}

/// What an upsert did.
#[derive(Debug, Clone, Copy, PartialEq, Eq, Structural)]
pub enum BlockChange {
    Added,
    Updated,
    Unchanged,
}

/// A file that already holds something of `me`.
#[derive(Debug, Clone)]
pub struct ExistingIntegration {
    pub shell: Option<Shell>,
    pub path: String,
    pub full_blocks: usize,
    pub partial_or_ambiguous: bool,
}

/// Answer to the question about integrations of other shells.
#[derive(Debug, Clone, Copy, PartialEq, Eq, Structural)]
pub enum CrossShellChoice {
    Keep,
    Remove,
    Abort,
}

// ---------------------------------------------------------------------------
// Names
// ---------------------------------------------------------------------------

pub open spec fn spec_shell_name(s: Shell) -> Seq<char> {
    match s {
        Shell::Zsh => "zsh"@,
        Shell::Bash => "bash"@,
        Shell::Fish => "fish"@,
        Shell::Nushell => "nushell"@,
    }
}

pub open spec fn spec_shell_from_name(n: Seq<char>) -> Option<Shell> {
    if n == "zsh"@ {
        Some(Shell::Zsh)
    } else if n == "bash"@ {
        Some(Shell::Bash)
    } else if n == "fish"@ {
        Some(Shell::Fish)
    } else if n == "nu"@ || n == "nushell"@ {
        Some(Shell::Nushell)
    } else {
        None
    }
}

pub open spec fn spec_login_name(m: LoginMode) -> Seq<char> {
    match m {
        LoginMode::Off => "none"@,
        LoginMode::Full => "full"@,
        LoginMode::Compact => "compact"@,
    }
}

pub open spec fn spec_interactive_name(m: InteractiveMode) -> Seq<char> {
    match m {
        InteractiveMode::Off => "none"@,
        InteractiveMode::Compact => "compact"@,
        InteractiveMode::Prompt => "prompt"@,
    }
}

impl Shell {
    /// The shell's name.
    pub fn name(self) -> (r: &'static str)
        ensures
            r@ == spec_shell_name(self),
    {
        match self {
            Shell::Zsh => "zsh",
            Shell::Bash => "bash",
            Shell::Fish => "fish",
            Shell::Nushell => "nushell",
        }
    }

    /// The shell a name stands for; `nu` is nushell.
    pub fn from_name(name: &str) -> (r: Option<Shell>)
        ensures
            r == spec_shell_from_name(name@),
    {
        if str_eq(name, "zsh") {
            Some(Shell::Zsh)
        } else if str_eq(name, "bash") {
            Some(Shell::Bash)
        } else if str_eq(name, "fish") {
            Some(Shell::Fish)
        } else if str_eq(name, "nu") || str_eq(name, "nushell") {
            Some(Shell::Nushell)
        } else {
            None
        }
    }
}

impl LoginMode {
    /// The mode's name.
    pub fn name(self) -> (r: &'static str)
        ensures
            r@ == spec_login_name(self),
    {
        match self {
            LoginMode::Off => "none",
            LoginMode::Full => "full",
            LoginMode::Compact => "compact",
        }
    }
}

impl InteractiveMode {
    /// The mode's name.
    pub fn name(self) -> (r: &'static str)
        ensures
            r@ == spec_interactive_name(self),
    {
        match self {
            InteractiveMode::Off => "none",
            InteractiveMode::Compact => "compact",
            InteractiveMode::Prompt => "prompt",
        }
    }
}

// ---------------------------------------------------------------------------
// Target files
// ---------------------------------------------------------------------------

pub open spec fn spec_login_path(
    home: Seq<char>,
    config_dir: Seq<char>,
    shell: Shell,
    bash_profile_exists: bool,
    profile_exists: bool,
) -> Seq<char> {
    match shell {
        Shell::Zsh => spec_path_join(home, ".zprofile"@),
        Shell::Bash => if bash_profile_exists || !profile_exists {
            spec_path_join(home, ".bash_profile"@)
        } else {
            spec_path_join(home, ".profile"@)
        },
        Shell::Fish => spec_path_join(config_dir, "fish/config.fish"@),
        Shell::Nushell => spec_path_join(config_dir, "nushell/config.nu"@),
    }
}

pub open spec fn spec_interactive_path(home: Seq<char>, config_dir: Seq<char>, shell: Shell) -> Seq<char> {
    match shell {
        Shell::Zsh => spec_path_join(home, ".zshrc"@),
        Shell::Bash => spec_path_join(home, ".bashrc"@),
        Shell::Fish => spec_path_join(config_dir, "fish/config.fish"@),
        Shell::Nushell => spec_path_join(config_dir, "nushell/config.nu"@),
    }
}

/// The login file of a shell. For bash it is `~/.bash_profile`, unless only
/// `~/.profile` exists; the caller says which of the two exist.
pub fn login_path(
    home: &str,
    config_dir: &str,
    shell: Shell,
    bash_profile_exists: bool,
    profile_exists: bool,
) -> (r: String)
    ensures
        r@ == spec_login_path(home@, config_dir@, shell, bash_profile_exists, profile_exists),
{
    match shell {
        Shell::Zsh => path_join(home, ".zprofile"),
        Shell::Bash => if bash_profile_exists || !profile_exists {
            path_join(home, ".bash_profile")
        } else {
            path_join(home, ".profile")
        },
        Shell::Fish => path_join(config_dir, "fish/config.fish"),
        Shell::Nushell => path_join(config_dir, "nushell/config.nu"),
    }
}

/// The interactive-shell file of a shell.
pub fn interactive_path(home: &str, config_dir: &str, shell: Shell) -> (r: String)
    ensures
        r@ == spec_interactive_path(home@, config_dir@, shell),
{
    match shell {
        Shell::Zsh => path_join(home, ".zshrc"),
        Shell::Bash => path_join(home, ".bashrc"),
        Shell::Fish => path_join(config_dir, "fish/config.fish"),
        Shell::Nushell => path_join(config_dir, "nushell/config.nu"),
    }
}

pub open spec fn known_path_list(home: Seq<char>, config_dir: Seq<char>) -> Seq<(Shell, Seq<char>)> {
    seq![
        (Shell::Zsh, spec_path_join(home, ".zprofile"@)),
        (Shell::Zsh, spec_path_join(home, ".zshrc"@)),
        (Shell::Bash, spec_path_join(home, ".bash_profile"@)),
        (Shell::Bash, spec_path_join(home, ".profile"@)),
        (Shell::Bash, spec_path_join(home, ".bashrc"@)),
        (Shell::Fish, spec_path_join(config_dir, "fish/config.fish"@)),
        (Shell::Nushell, spec_path_join(config_dir, "nushell/config.nu"@)),
    ]
}

/// Every file `me` may have been installed into.
pub fn known_paths(home: &str, config_dir: &str) -> (r: Vec<(Shell, String)>)
    ensures
        r@.map_values(|e: (Shell, String)| (e.0, e.1@)) == known_path_list(home@, config_dir@),
{
    let r = vec![
        (Shell::Zsh, path_join(home, ".zprofile")),
        (Shell::Zsh, path_join(home, ".zshrc")),
        (Shell::Bash, path_join(home, ".bash_profile")),
        (Shell::Bash, path_join(home, ".profile")),
        (Shell::Bash, path_join(home, ".bashrc")),
        (Shell::Fish, path_join(config_dir, "fish/config.fish")),
        (Shell::Nushell, path_join(config_dir, "nushell/config.nu")),
    ];
    assert(r@.map_values(|e: (Shell, String)| (e.0, e.1@)) =~= known_path_list(home@, config_dir@));
    r
}

pub open spec fn target_view(t: TargetFile) -> (Shell, Seq<char>, bool, bool) {
    (t.shell, t.path@, t.login, t.interactive)
}

/// The files to write, ordered by path; one file serving both roles when
/// the login and interactive files are the same path.
pub open spec fn spec_resolve_targets(
    login_file: Seq<char>,
    interactive_file: Seq<char>,
    shell: Shell,
    login: LoginMode,
    interactive: InteractiveMode,
) -> Seq<(Shell, Seq<char>, bool, bool)> {
    let wl = login != LoginMode::Off;
    let wi = interactive != InteractiveMode::Off;
    if wl && wi {
        if path_eq(login_file, interactive_file) {
            seq![(shell, login_file, true, true)]
        } else if components_le(components(login_file), components(interactive_file)) {
            seq![(shell, login_file, true, false), (shell, interactive_file, false, true)]
        } else {
            seq![(shell, interactive_file, false, true), (shell, login_file, true, false)]
        }
    } else if wl {
        seq![(shell, login_file, true, false)]
    } else if wi {
        seq![(shell, interactive_file, false, true)]
    } else {
        seq![]
    }
}

/// The files to write for the chosen modes. `override_file` replaces both
/// the login and the interactive file.
pub fn resolve_targets(
    home: &str,
    config_dir: &str,
    shell: Shell,
    override_file: Option<&str>,
    login: LoginMode,
    interactive: InteractiveMode,
    bash_profile_exists: bool,
    profile_exists: bool,
) -> (r: Vec<TargetFile>)
    ensures
        r@.map_values(|t: TargetFile| target_view(t)) == spec_resolve_targets(
            match override_file {
                Some(f) => f@,
                None => spec_login_path(home@, config_dir@, shell, bash_profile_exists, profile_exists),
            },
            match override_file {
                Some(f) => f@,
                None => spec_interactive_path(home@, config_dir@, shell),
            },
            shell,
            login,
            interactive,
        ),
{
    let lp = match override_file {
        Some(f) => owned(f),
        None => login_path(home, config_dir, shell, bash_profile_exists, profile_exists),
    };
    let ip = match override_file {
        Some(f) => owned(f),
        None => interactive_path(home, config_dir, shell),
    };
    let wl = login != LoginMode::Off;
    let wi = interactive != InteractiveMode::Off;
    let mut r: Vec<TargetFile> = Vec::new();
    if wl && wi {
        if path_eq_exec(lp.as_str(), ip.as_str()) {
            r.push(TargetFile { shell, path: lp, login: true, interactive: true });
        } else if path_le(lp.as_str(), ip.as_str()) {
            r.push(TargetFile { shell, path: lp, login: true, interactive: false });
            r.push(TargetFile { shell, path: ip, login: false, interactive: true });
        } else {
            r.push(TargetFile { shell, path: ip, login: false, interactive: true });
            r.push(TargetFile { shell, path: lp, login: true, interactive: false });
        }
    } else if wl {
        r.push(TargetFile { shell, path: lp, login: true, interactive: false });
    } else if wi {
        r.push(TargetFile { shell, path: ip, login: false, interactive: true });
    }
    proof {
        let expected = spec_resolve_targets(
            lp@,
            ip@,
            shell,
            login,
            interactive,
        );
        assert(r@.map_values(|t: TargetFile| target_view(t)) =~= expected);
    }
    r
}

// ---------------------------------------------------------------------------
// The managed block
// ---------------------------------------------------------------------------

pub open spec fn spec_prompt_lines(shell: Shell) -> Seq<Seq<char>> {
    match shell {
        Shell::Zsh => seq![
            "setopt PROMPT_SUBST"@,
            "PROMPT='$(me --compact --fast | tr -d \"\\n\") '${PROMPT:-'%n@%m %~ %# '}"@,
        ],
        Shell::Bash => seq!["PS1='$(me --compact --fast | tr -d \"\\n\") '${PS1:-'\\u@\\h:\\w\\$ '}"@],
        Shell::Fish => seq![
            "function fish_prompt"@,
            "    me --compact --fast | string trim"@,
            "    echo -n ' '"@,
            "end"@,
        ],
        Shell::Nushell => seq!["$env.PROMPT_COMMAND = { || me --compact --fast | str trim }"@],
    }
}

/// The lines a prompt integration adds for a shell.
pub fn prompt_lines(shell: Shell) -> (r: Vec<String>)
    ensures
        strs(r@) == spec_prompt_lines(shell),
{
    let r = match shell {
        Shell::Zsh => vec![
            owned("setopt PROMPT_SUBST"),
            owned("PROMPT='$(me --compact --fast | tr -d \"\\n\") '${PROMPT:-'%n@%m %~ %# '}"),
        ],
        Shell::Bash => vec![
            owned("PS1='$(me --compact --fast | tr -d \"\\n\") '${PS1:-'\\u@\\h:\\w\\$ '}"),
        ],
        Shell::Fish => vec![
            owned("function fish_prompt"),
            owned("    me --compact --fast | string trim"),
            owned("    echo -n ' '"),
            owned("end"),
        ],
        Shell::Nushell => vec![owned("$env.PROMPT_COMMAND = { || me --compact --fast | str trim }")],
    };
    assert(strs(r@) =~= spec_prompt_lines(shell));
    r
}

pub open spec fn signature_line(shell: Shell, login: LoginMode, interactive: InteractiveMode) -> Seq<char> {
    signature_prefix() + " shell="@ + spec_shell_name(shell) + " login="@ + spec_login_name(login)
        + " interactive="@ + spec_interactive_name(interactive) + " version=v"@ + "0.4.0"@
}

pub open spec fn block_lines(shell: Shell, login: LoginMode, interactive: InteractiveMode) -> Seq<
    Seq<char>,
> {
    seq![start_marker(), signature_line(shell, login, interactive)] + match login {
        LoginMode::Off => seq![],
        LoginMode::Full => seq!["me"@],
        LoginMode::Compact => seq!["me --compact"@],
    } + match interactive {
        InteractiveMode::Off => seq![],
        InteractiveMode::Compact => seq!["me --compact"@],
        InteractiveMode::Prompt => spec_prompt_lines(shell),
    } + seq![end_marker()]
}

pub open spec fn spec_render_block(shell: Shell, login: LoginMode, interactive: InteractiveMode) -> Seq<
    char,
> {
    join(block_lines(shell, login, interactive), "\n"@) + "\n"@
}

/// The managed block: markers around a signature line and the commands.
pub fn render_block(shell: Shell, login: LoginMode, interactive: InteractiveMode) -> (r: String)
    ensures
        r@ == spec_render_block(shell, login, interactive),
{
    let mut lines: Vec<String> = Vec::new();
    lines.push(owned(START_MARKER));
    let mut sig = owned(SIGNATURE_PREFIX);
    push_str(&mut sig, " shell=");
    push_str(&mut sig, shell.name());
    push_str(&mut sig, " login=");
    push_str(&mut sig, login.name());
    push_str(&mut sig, " interactive=");
    push_str(&mut sig, interactive.name());
    push_str(&mut sig, " version=v");
    push_str(&mut sig, PKG_VERSION);
    lines.push(sig);
    let ghost head = strs(lines@);
    match login {
        LoginMode::Off => {},
        LoginMode::Full => lines.push(owned("me")),
        LoginMode::Compact => lines.push(owned("me --compact")),
    }
    let ghost mid = strs(lines@);
    match interactive {
        InteractiveMode::Off => {},
        InteractiveMode::Compact => lines.push(owned("me --compact")),
        InteractiveMode::Prompt => {
            let extra = prompt_lines(shell);
            let mut i: usize = 0;
            while i < extra.len()
                invariant
                    i <= extra.len(),
                    strs(lines@) == mid + strs(extra@).take(i as int),
                decreases extra.len() - i,
            {
                let ghost before = strs(lines@);
                let x = extra[i].clone();
                lines.push(x);
                assert(strs(lines@) =~= before.push(x@));
                assert(strs(extra@).take(i + 1) =~= strs(extra@).take(i as int).push(x@));
                i += 1;
            }
            assert(strs(extra@).take(extra@.len() as int) =~= strs(extra@));
        },
    }
    let ghost tail = strs(lines@);
    lines.push(owned(END_MARKER));
    proof {
        assert(strs(lines@) =~= tail.push(end_marker()));
        assert(strs(lines@) =~= block_lines(shell, login, interactive));
    }
    let mut r = join_strings(&lines, "\n");
    push_str(&mut r, "\n");
    r
}

// ---------------------------------------------------------------------------
// Finding, replacing and removing blocks
// ---------------------------------------------------------------------------

/// End of the block whose end marker starts at `j`: after the marker and
/// one newline that follows it, if any.
pub open spec fn block_end(e: Seq<char>, j: int) -> int {
    let m = j + end_marker().len();
    if m < e.len() && e[m] == '\n' {
        m + 1
    } else {
        m
    }
}

/// The first start marker and the first end marker after it.
pub open spec fn spec_first_full_block(e: Seq<char>) -> Option<(int, int)> {
    match find(e, start_marker()) {
        None => None,
        Some(s) => match find_from(e, end_marker(), s) {
            None => None,
            Some(j) => Some((s, block_end(e, j))),
        },
    }
}

pub proof fn lemma_markers_len()
    ensures
        start_marker().len() == 20,
        end_marker().len() == 20,
        signature_prefix().len() == 13,
{
    reveal_strlit("# >>> me install >>>");
    reveal_strlit("# <<< me install <<<");
    reveal_strlit("# me-managed:");
}

pub proof fn lemma_first_full_block_bounds(e: Seq<char>)
    ensures
        spec_first_full_block(e) matches Some((s, t)) ==> 0 <= s < t <= e.len(),
{
    lemma_markers_len();
    lemma_find_from_bounds(e, start_marker(), 0);
    if let Some(s) = find(e, start_marker()) {
        lemma_find_from_bounds(e, end_marker(), s);
    }
}

/// Text before and after the first full block, and the block, glued back.
pub open spec fn spec_upsert_block(e: Seq<char>, block: Seq<char>) -> (Seq<char>, BlockChange) {
    match spec_first_full_block(e) {
        Some((s, t)) => {
            let u = e.take(s) + block + e.skip(t);
            (u, if u == e {
                BlockChange::Unchanged
            } else {
                BlockChange::Updated
            })
        },
        None => {
            let u = if e.len() == 0 {
                block
            } else if e.last() == '\n' {
                e + "\n"@ + block
            } else {
                e + "\n\n"@ + block
            };
            (u, BlockChange::Added)
        },
    }
}

/// Removes every full block, scanning left to right.
pub open spec fn spec_remove_full_blocks(e: Seq<char>) -> (Seq<char>, nat)
    decreases e.len(),
{
    match find(e, start_marker()) {
        None => (e, 0),
        Some(s) => match find_from(e, end_marker(), s) {
            None => (e, 0),
            Some(j) => {
                proof {
                    lemma_markers_len();
                    lemma_find_from_bounds(e, start_marker(), 0);
                    lemma_find_from_bounds(e, end_marker(), s);
                }
                let t = block_end(e, j);
                let (rest, n) = spec_remove_full_blocks(e.skip(t));
                (e.take(s) + rest, n + 1)
            },
        },
    }
}

/// Number of full blocks, scanning left to right.
pub open spec fn spec_count_full_blocks(e: Seq<char>) -> nat
    decreases e.len(),
{
    match find(e, start_marker()) {
        None => 0,
        Some(s) => match find_from(e, end_marker(), s) {
            None => 0,
            Some(j) => {
                proof {
                    lemma_markers_len();
                    lemma_find_from_bounds(e, start_marker(), 0);
                    lemma_find_from_bounds(e, end_marker(), s);
                }
                1 + spec_count_full_blocks(e.skip(j + end_marker().len()))
            },
        },
    }
}

/// Position of the first full block within `e[from..]`, as absolute indices.
fn first_full_block_from(e: &[char], from: usize, start: &[char], end: &[char]) -> (r: Option<
    (usize, usize),
>)
    requires
        from <= e.len(),
        start@ == start_marker(),
        end@ == end_marker(),
    ensures
        match r {
            Some((s, t)) => spec_first_full_block(e@.skip(from as int)) == Some(
                (s - from, t - from),
            ) && from <= s < t <= e.len(),
            None => spec_first_full_block(e@.skip(from as int)) is None,
        },
{
    let ghost x = e@.skip(from as int);
    proof {
        lemma_markers_len();
        lemma_find_shift(e@, start@, from as int, 0);
    }
    match find_from_exec(e, start, from) {
        None => None,
        Some(s) => {
            proof {
                lemma_find_from_bounds(e@, start@, from as int);
                lemma_find_shift(e@, end@, from as int, s - from);
            }
            match find_from_exec(e, end, s) {
                None => None,
                Some(j) => {
                    proof {
                        lemma_find_from_bounds(e@, end@, s as int);
                    }
                    let m = j + END_MARKER_LEN;
                    let t = if m < e.len() && e[m] == '\n' {
                        m + 1
                    } else {
                        m
                    };
                    proof {
                        if m < e.len() {
                            assert(x[m - from] == e@[m as int]);
                        }
                    }
                    Some((s, t))
                },
            }
        },
    }
}

/// Length of the end marker.
pub const END_MARKER_LEN: usize = 20;

/// Searching a suffix is searching the whole from the suffix's start.
pub proof fn lemma_find_shift(e: Seq<char>, p: Seq<char>, from: int, i: int)
    requires
        0 <= from <= e.len(),
        0 <= i,
    ensures
        find_from(e.skip(from), p, i) == match find_from(e, p, from + i) {
            Some(j) => Some(j - from),
            None => None,
        },
    decreases e.len() + 1 - from - i,
{
    let x = e.skip(from);
    if i + p.len() > x.len() {
    } else {
        assert(x.subrange(i, i + p.len()) =~= e.subrange(from + i, from + i + p.len()));
        if occurs_at(x, p, i) {
        } else {
            lemma_find_shift(e, p, from, i + 1);
        }
    }
}

/// The first full block of `existing`, as character offsets.
pub fn find_first_full_block(existing: &str) -> (r: Option<(usize, usize)>)
    ensures
        match r {
            Some((s, t)) => spec_first_full_block(existing@) == Some((s as int, t as int)),
            None => spec_first_full_block(existing@) is None,
        },
{
    let e = chars_of(existing);
    let start = chars_of(START_MARKER);
    let end = chars_of(END_MARKER);
    assert(e@.skip(0) =~= e@);
    first_full_block_from(&e, 0, &start, &end)
}

/// Replaces the first full block with `block`, or appends `block` after a
/// blank line when there is none.
pub fn upsert_block(existing: &str, block: &str) -> (r: (String, BlockChange))
    ensures
        (r.0@, r.1) == spec_upsert_block(existing@, block@),
{
    let e = chars_of(existing);
    let start = chars_of(START_MARKER);
    let end = chars_of(END_MARKER);
    assert(e@.skip(0) =~= e@);
    match first_full_block_from(&e, 0, &start, &end) {
        Some((s, t)) => {
            let mut updated = string_of_range(&e, 0, s);
            push_str(&mut updated, block);
            let tail = string_of_range(&e, t, e.len());
            push_str(&mut updated, tail.as_str());
            assert(e@.subrange(0, s as int) =~= e@.take(s as int));
            assert(e@.subrange(t as int, e@.len() as int) =~= e@.skip(t as int));
            let change = if str_eq(updated.as_str(), existing) {
                BlockChange::Unchanged
            } else {
                BlockChange::Updated
            };
            (updated, change)
        },
        None => {
            let mut updated = owned(existing);
            if e.len() > 0 && e[e.len() - 1] != '\n' {
                push_char(&mut updated, '\n');
            }
            if e.len() > 0 {
                push_char(&mut updated, '\n');
            }
            push_str(&mut updated, block);
            proof {
                reveal_strlit("\n");
                reveal_strlit("\n\n");
                if e@.len() > 0 {
                    assert(e@.last() == e@[e@.len() - 1]);
                }
            }
            assert(updated@ =~= spec_upsert_block(existing@, block@).0);
            (updated, BlockChange::Added)
        },
    }
}

/// Removes every full block; returns the rest and how many were removed.
pub fn remove_full_blocks(existing: &str) -> (r: (String, usize))
    ensures
        (r.0@, r.1 as nat) == spec_remove_full_blocks(existing@),
{
    let e = chars_of(existing);
    let start = chars_of(START_MARKER);
    let end = chars_of(END_MARKER);
    let mut updated = String::new();
    let mut removed: usize = 0;
    let mut pos: usize = 0;
    assert(e@.skip(0) =~= e@);
    while pos <= e.len()
        invariant
            pos <= e.len(),
            start@ == start_marker(),
            end@ == end_marker(),
            e@ == existing@,
            removed <= pos,
            ({
                let (rest, n) = spec_remove_full_blocks(e@.skip(pos as int));
                (updated@ + rest, (removed + n) as nat) == spec_remove_full_blocks(existing@)
            }),
        decreases e.len() + 1 - pos,
    {
        let ghost x = e@.skip(pos as int);
        proof {
            lemma_markers_len();
        }
        match first_full_block_from(&e, pos, &start, &end) {
            None => {
                let tail = string_of_range(&e, pos, e.len());
                proof {
                    assert(tail@ =~= x);
                    lemma_no_block_no_removal(x);
                }
                push_str(&mut updated, tail.as_str());
                return (updated, removed);
            },
            Some((s, t)) => {
                let head = string_of_range(&e, pos, s);
                proof {
                    lemma_remove_step(x, (s - pos) as int, (t - pos) as int);
                    assert(head@ =~= x.take(s - pos));
                    assert(x.skip(t - pos) =~= e@.skip(t as int));
                }
                push_str(&mut updated, head.as_str());
                removed += 1;
                pos = t;
            },
        }
    }
    (updated, removed)
}

/// When there is no full block, nothing is removed.
proof fn lemma_no_block_no_removal(x: Seq<char>)
    requires
        spec_first_full_block(x) is None,
    ensures
        spec_remove_full_blocks(x) == (x, 0nat),
{
}

/// One removal step: the text before the first block, then the rest.
proof fn lemma_remove_step(x: Seq<char>, s: int, t: int)
    requires
        spec_first_full_block(x) == Some((s, t)),
    ensures
        spec_remove_full_blocks(x) == ({
            let (rest, n) = spec_remove_full_blocks(x.skip(t));
            (x.take(s) + rest, n + 1)
        }),
{
}

/// Number of full blocks.
pub fn count_full_blocks(contents: &str) -> (r: usize)
    ensures
        r as nat == spec_count_full_blocks(contents@),
{
    let e = chars_of(contents);
    let start = chars_of(START_MARKER);
    let end = chars_of(END_MARKER);
    let mut count: usize = 0;
    let mut pos: usize = 0;
    assert(e@.skip(0) =~= e@);
    while pos <= e.len()
        invariant
            pos <= e.len(),
            start@ == start_marker(),
            end@ == end_marker(),
            e@ == contents@,
            count <= pos,
            count + spec_count_full_blocks(e@.skip(pos as int)) == spec_count_full_blocks(contents@),
        decreases e.len() + 1 - pos,
    {
        let ghost x = e@.skip(pos as int);
        proof {
            lemma_markers_len();
            lemma_find_shift(e@, start@, pos as int, 0);
        }
        match find_from_exec(&e, &start, pos) {
            None => {
                return count;
            },
            Some(s) => {
                proof {
                    lemma_find_from_bounds(e@, start@, pos as int);
                    lemma_find_shift(e@, end@, pos as int, s - pos);
                }
                match find_from_exec(&e, &end, s) {
                    None => {
                        return count;
                    },
                    Some(j) => {
                        proof {
                            lemma_find_from_bounds(e@, end@, s as int);
                            assert(x.skip(j - pos + end_marker().len()) =~= e@.skip(
                                j + end_marker().len(),
                            ));
                        }
                        count += 1;
                        pos = j + END_MARKER_LEN;
                    },
                }
            },
        }
    }
    count
}

// ---------------------------------------------------------------------------
// Recognizing partial or foreign integrations
// ---------------------------------------------------------------------------

/// Whether a line is exactly `me` once trimmed.
pub open spec fn is_me_line(line: Seq<char>) -> bool {
    trim(line) == "me"@
}

pub open spec fn has_me_line(ls: Seq<Seq<char>>) -> bool {
    exists|i: int| 0 <= i < ls.len() && is_me_line(#[trigger] ls[i])
}

pub open spec fn spec_has_partial(c: Seq<char>) -> bool {
    ||| count_matches(c, start_marker()) != count_matches(c, end_marker())
    ||| (contains(c, signature_prefix()) && spec_count_full_blocks(c) == 0)
    ||| (!contains(c, start_marker()) && !contains(c, signature_prefix()) && (contains(
        c,
        "me --compact --fast"@,
    ) || contains(c, "me --compact"@) || has_me_line(lines(c))))
}

/// Whether a line trims to exactly `me`.
fn is_me_line_exec(line: &[char]) -> (r: bool)
    ensures
        r == is_me_line(line@),
{
    let (a, b) = trim_bounds(line, 0, line.len());
    assert(line@.subrange(0, line@.len() as int) =~= line@);
    let r = b - a == 2 && line[a] == 'm' && line[a + 1] == 'e';
    proof {
        reveal_strlit("me");
        let t = line@.subrange(a as int, b as int);
        assert(t == trim(line@));
        if b - a == 2 {
            assert(t[0] == line@[a as int]);
            assert(t[1] == line@[a + 1]);
        }
        if r {
            assert(t =~= "me"@);
        }
        if t == "me"@ {
            assert("me"@.len() == 2);
            assert(t[0] == 'm' && t[1] == 'e');
        }
    }
    r
}

fn any_me_line(ls: &Vec<Vec<char>>) -> (r: bool)
    ensures
        r == has_me_line(bufs(ls@)),
{
    let mut i: usize = 0;
    while i < ls.len()
        invariant
            i <= ls.len(),
            forall|j: int| 0 <= j < i ==> !is_me_line(#[trigger] bufs(ls@)[j]),
        decreases ls.len() - i,
    {
        if is_me_line_exec(ls[i].as_slice()) {
            assert(is_me_line(bufs(ls@)[i as int]));
            return true;
        }
        i += 1;
    }
    false
}

/// Whether a file holds `me` in a form that is not exactly full blocks:
/// unbalanced markers, a signature without a full block, or `me` commands
/// outside any block.
pub fn has_partial_or_ambiguous_me_snippet(contents: &str) -> (r: bool)
    ensures
        r == spec_has_partial(contents@),
{
    proof {
        lemma_markers_len();
    }
    let start_count = count_matches_str(contents, START_MARKER);
    let end_count = count_matches_str(contents, END_MARKER);
    if start_count != end_count {
        return true;
    }
    if contains_str(contents, SIGNATURE_PREFIX) && count_full_blocks(contents) == 0 {
        return true;
    }
    if !contains_str(contents, START_MARKER) && !contains_str(contents, SIGNATURE_PREFIX) {
        if contains_str(contents, "me --compact --fast") || contains_str(contents, "me --compact") {
            return true;
        }
        let v = chars_of(contents);
        let ls = lines_of(&v);
        return any_me_line(&ls);
    }
    false
}

/// Whether a line is where a partial integration shows itself.
pub open spec fn is_snippet_line(line: Seq<char>) -> bool {
    ||| contains(line, start_marker())
    ||| contains(line, end_marker())
    ||| contains(line, signature_prefix())
    ||| contains(line, "me --compact --fast"@)
    ||| contains(line, "me --compact"@)
    ||| is_me_line(line)
}

/// Up to six lines from the first line that shows `me`.
pub open spec fn spec_partial_snippet(c: Seq<char>) -> Option<Seq<char>> {
    let ls = lines(c);
    if exists|i: int| 0 <= i < ls.len() && is_snippet_line(#[trigger] ls[i]) {
        let start = choose|i: int|
            0 <= i < ls.len() && is_snippet_line(#[trigger] ls[i]) && forall|k: int|
                0 <= k < i ==> !is_snippet_line(#[trigger] ls[k]);
        let end = if start + 6 < ls.len() {
            start + 6
        } else {
            ls.len() as int
        };
        Some(join(ls.subrange(start, end), "\n"@))
    } else {
        None
    }
}

fn is_snippet_line_exec(line: &Vec<char>) -> (r: bool)
    ensures
        r == is_snippet_line(line@),
{
    let s = string_of(line.as_slice());
    contains_str(s.as_str(), START_MARKER) || contains_str(s.as_str(), END_MARKER) || contains_str(
        s.as_str(),
        SIGNATURE_PREFIX,
    ) || contains_str(s.as_str(), "me --compact --fast") || contains_str(s.as_str(), "me --compact")
        || is_me_line_exec(line.as_slice())
}

/// The lines around a suspected partial integration, for the user to see.
pub fn partial_me_snippet(contents: &str) -> (r: Option<String>)
    ensures
        opt_view(r) == spec_partial_snippet(contents@),
{
    let v = chars_of(contents);
    let ls = lines_of(&v);
    let ghost lv = bufs(ls@);
    let mut i: usize = 0;
    while i < ls.len()
        invariant
            i <= ls.len(),
            lv == bufs(ls@),
            lv == lines(contents@),
            forall|k: int| 0 <= k < i ==> !is_snippet_line(#[trigger] lv[k]),
        decreases ls.len() - i,
    {
        if is_snippet_line_exec(&ls[i]) {
            let end = if ls.len() - i > 6 {
                i + 6
            } else {
                ls.len()
            };
            let mut picked: Vec<String> = Vec::new();
            let mut k = i;
            while k < end
                invariant
                    i <= k <= end <= ls.len(),
                    lv == bufs(ls@),
                    strs(picked@) == lv.subrange(i as int, k as int),
                decreases end - k,
            {
                let s = string_of(ls[k].as_slice());
                let ghost before = strs(picked@);
                picked.push(s);
                assert(strs(picked@) =~= before.push(s@));
                assert(lv[k as int] == ls@[k as int]@);
                assert(lv.subrange(i as int, k + 1) =~= lv.subrange(i as int, k as int).push(
                    s@,
                ));
                k += 1;
            }
            proof {
                assert(is_snippet_line(lv[i as int]));
                let chosen = choose|j: int|
                    0 <= j < lv.len() && is_snippet_line(#[trigger] lv[j]) && forall|k: int|
                        0 <= k < j ==> !is_snippet_line(#[trigger] lv[k]);
                assert(0 <= chosen < lv.len() && is_snippet_line(lv[chosen]) && forall|k: int|
                    0 <= k < chosen ==> !is_snippet_line(#[trigger] lv[k]));
                if chosen < i {
                    assert(!is_snippet_line(lv[chosen]));
                }
                if chosen > i {
                    assert(!is_snippet_line(lv[i as int]));
                }
                assert(chosen == i);
            }
            return Some(join_strings(&picked, "\n"));
        }
        i += 1;
    }
    None
}

/// The `shell=` value of a signature line's words, if one is there.
pub open spec fn shell_in_words(ws: Seq<Seq<char>>) -> Option<Option<Shell>>
    decreases ws.len(),
{
    if ws.len() == 0 {
        None
    } else {
        match strip_prefix(ws[0], "shell="@) {
            Some(v) => Some(spec_shell_from_name(v)),
            None => shell_in_words(ws.drop_first()),
        }
    }
}

/// The shell named by the first signature line that has a `shell=` word.
pub open spec fn shell_in_lines(ls: Seq<Seq<char>>) -> Option<Shell>
    decreases ls.len(),
{
    if ls.len() == 0 {
        None
    } else {
        let t = trim(ls[0]);
        if starts_with(t, signature_prefix()) {
            match shell_in_words(words(t)) {
                Some(found) => found,
                None => shell_in_lines(ls.drop_first()),
            }
        } else {
            shell_in_lines(ls.drop_first())
        }
    }
}

fn shell_in_words_exec(ws: &Vec<Vec<char>>) -> (r: Option<Option<Shell>>)
    ensures
        r == shell_in_words(bufs(ws@)),
{
    let ghost wv = bufs(ws@);
    let mut i: usize = 0;
    assert(wv.skip(0) =~= wv);
    while i < ws.len()
        invariant
            i <= ws.len(),
            wv == bufs(ws@),
            shell_in_words(wv) == shell_in_words(wv.skip(i as int)),
        decreases ws.len() - i,
    {
        let part = string_of(ws[i].as_slice());
        assert(wv.skip(i as int)[0] == part@);
        if let Some(value) = strip_prefix_str(part.as_str(), "shell=") {
            return Some(Shell::from_name(value.as_str()));
        }
        assert(wv.skip(i as int).drop_first() =~= wv.skip(i + 1));
        i += 1;
    }
    None
}

/// The shell recorded in a block's signature line.
pub fn detect_shell_from_contents(contents: &str) -> (r: Option<Shell>)
    ensures
        r == shell_in_lines(lines(contents@)),
{
    let v = chars_of(contents);
    let ls = lines_of(&v);
    let ghost lv = bufs(ls@);
    let sig = chars_of(SIGNATURE_PREFIX);
    let mut i: usize = 0;
    assert(lv.skip(0) =~= lv);
    while i < ls.len()
        invariant
            i <= ls.len(),
            lv == bufs(ls@),
            lv == lines(contents@),
            sig@ == signature_prefix(),
            shell_in_lines(lv) == shell_in_lines(lv.skip(i as int)),
        decreases ls.len() - i,
    {
        let line = &ls[i];
        let (a, b) = trim_bounds(line.as_slice(), 0, line.len());
        assert(line@.subrange(0, line@.len() as int) =~= line@);
        assert(lv.skip(i as int)[0] == line@);
        let t = crate::text::slice_range(line.as_slice(), a, b);
        let is_sig = starts_with_at(&t, &sig, 0);
        assert(t@.subrange(0, t@.len() as int) =~= t@);
        proof {
            assert(t@ == trim(lv.skip(i as int)[0]));
            assert(is_sig == starts_with(t@, signature_prefix()));
        }
        if is_sig {
            let ws = words_of(&t);
            if let Some(found) = shell_in_words_exec(&ws) {
                assert(shell_in_words(words(t@)) == Some(found));
                assert(shell_in_lines(lv.skip(i as int)) == found);
                return found;
            }
        }
        assert(lv.skip(i as int).drop_first() =~= lv.skip(i + 1));
        i += 1;
    }
    None
}

pub open spec fn spec_infer_shell(path: Seq<char>) -> Option<Shell> {
    match spec_file_name(path) {
        None => None,
        Some(n) => if n == ".zprofile"@ || n == ".zshrc"@ {
            Some(Shell::Zsh)
        } else if n == ".bash_profile"@ || n == ".bashrc"@ || n == ".profile"@ {
            Some(Shell::Bash)
        } else if n == "config.fish"@ {
            Some(Shell::Fish)
        } else if n == "config.nu"@ {
            Some(Shell::Nushell)
        } else {
            None
        },
    }
}

/// The shell a well-known file name belongs to.
pub fn infer_shell_from_path(path: &str) -> (r: Option<Shell>)
    ensures
        r == spec_infer_shell(path@),
{
    let name = file_name(path)?;
    let n = name.as_str();
    if str_eq(n, ".zprofile") || str_eq(n, ".zshrc") {
        Some(Shell::Zsh)
    } else if str_eq(n, ".bash_profile") || str_eq(n, ".bashrc") || str_eq(n, ".profile") {
        Some(Shell::Bash)
    } else if str_eq(n, "config.fish") {
        Some(Shell::Fish)
    } else if str_eq(n, "config.nu") {
        Some(Shell::Nushell)
    } else {
        None
    }
}

pub open spec fn spec_looks_complex_prompt(shell: Shell, c: Seq<char>) -> bool {
    ||| contains(c, "starship init"@)
    ||| contains(c, "oh-my-zsh"@)
    ||| contains(c, "powerlevel10k"@)
    ||| contains(c, "p10k"@)
    ||| contains(c, "oh-my-posh"@)
    ||| contains(c, "atuin init"@)
    ||| match shell {
        Shell::Zsh => contains(c, "PROMPT="@) || contains(c, "RPROMPT="@),
        Shell::Bash => contains(c, "PS1="@) || contains(c, "PROMPT_COMMAND"@),
        Shell::Fish => contains(c, "fish_prompt"@),
        Shell::Nushell => contains(c, "PROMPT_COMMAND"@) || contains(c, "PROMPT_INDICATOR"@),
    }
}

/// Whether a file already customizes the prompt, so that a prompt
/// integration could clash with it.
pub fn looks_complex_prompt(shell: Shell, contents: &str) -> (r: bool)
    ensures
        r == spec_looks_complex_prompt(shell, contents@),
{
    if contains_str(contents, "starship init") || contains_str(contents, "oh-my-zsh")
        || contains_str(contents, "powerlevel10k") || contains_str(contents, "p10k")
        || contains_str(contents, "oh-my-posh") || contains_str(contents, "atuin init") {
        return true;
    }
    match shell {
        Shell::Zsh => contains_str(contents, "PROMPT=") || contains_str(contents, "RPROMPT="),
        Shell::Bash => contains_str(contents, "PS1=") || contains_str(contents, "PROMPT_COMMAND"),
        Shell::Fish => contains_str(contents, "fish_prompt"),
        Shell::Nushell => contains_str(contents, "PROMPT_COMMAND") || contains_str(
            contents,
            "PROMPT_INDICATOR",
        ),
    }
}

} // verus!
