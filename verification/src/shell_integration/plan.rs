//! The decisions of `me install` and `me uninstall`: which modes apply,
//! what each answer to a question means, which files to scan and change,
//! and the lines reported to the user. Reading and writing the files is
//! left to the caller.
use crate::cli::{InstallArgs, InteractiveMode, LoginMode, Shell, UninstallArgs};
use crate::error::MeError;
use crate::model::str_eq;
use crate::output::semantics::{file_name, spec_file_name};
use crate::path::{path_eq, path_eq_exec, spec_strip_path_prefix, strip_path_prefix};
use crate::shell_integration::{
    count_full_blocks, detect_shell_from_contents, has_partial_or_ambiguous_me_snippet,
    infer_shell_from_path, looks_complex_prompt, render_block, shell_in_lines, spec_count_full_blocks,
    spec_has_partial, spec_infer_shell, spec_interactive_name, spec_login_name,
    spec_looks_complex_prompt, spec_render_block, spec_shell_from_name, spec_shell_name,
    BlockChange, CrossShellChoice, ExistingIntegration, TargetFile, TargetRole,
};
use crate::text::{dec, dec_string, lines, opt_view, owned, push_str, trim, trim_str};
use vstd::prelude::*;

verus! {

// ---------------------------------------------------------------------------
// Shell and modes
// ---------------------------------------------------------------------------

/// The shell named by the value of `$SHELL`: the file name of that path.
pub open spec fn spec_shell_from_env(value: Option<Seq<char>>) -> Option<Shell> {
    match value {
        None => None,
        Some(v) => match spec_file_name(v) {
            None => None,
            Some(n) => spec_shell_from_name(n),
        },
    }
}

/// The shell that `$SHELL` names, if it is one `me` supports.
pub fn shell_from_env(value: Option<&str>) -> (r: Option<Shell>)
    ensures
        r == spec_shell_from_env(match value {
            Some(v) => Some(v@),
            None => None,
        }),
{
    let v = value?;
    let name = file_name(v)?;
    Shell::from_name(name.as_str())
}

/// The shell to install for: the one asked for, else the one `$SHELL` names.
pub fn choose_shell(requested: Option<Shell>, shell_env: Option<&str>) -> (r: Result<Shell, MeError>)
    ensures
        match requested {
            Some(s) => r == Ok::<Shell, MeError>(s),
            None => match spec_shell_from_env(
                match shell_env {
                    Some(v) => Some(v@),
                    None => None,
                },
            ) {
                Some(s) => r == Ok::<Shell, MeError>(s),
                None => r matches Err(MeError::Message(m))
                    && m@ == "could not detect shell; pass --shell <zsh|bash|fish|nushell>"@,
            },
        },
{
    match requested {
        Some(s) => Ok(s),
        None => match shell_from_env(shell_env) {
            Some(s) => Ok(s),
            None => Err(MeError::message("could not detect shell; pass --shell <zsh|bash|fish|nushell>")),
        },
    }
}

/// The login mode to install, or `None` when the user is to be asked.
pub fn choose_login_mode(args: &InstallArgs) -> (r: Option<LoginMode>)
    ensures
        r == (if args.non_interactive {
            Some(
                match args.login {
                    Some(m) => m,
                    None => LoginMode::Full,
                },
            )
        } else {
            args.login
        }),
{
    if args.non_interactive {
        return Some(
            match args.login {
                Some(m) => m,
                None => LoginMode::Full,
            },
        );
    }
    args.login
}

/// The interactive mode to install, or `None` when the user is to be asked.
pub fn choose_interactive_mode(args: &InstallArgs) -> (r: Option<InteractiveMode>)
    ensures
        r == (if args.non_interactive {
            Some(
                match args.interactive {
                    Some(m) => m,
                    None => InteractiveMode::Off,
                },
            )
        } else {
            args.interactive
        }),
{
    if args.non_interactive {
        return Some(
            match args.interactive {
                Some(m) => m,
                None => InteractiveMode::Off,
            },
        );
    }
    args.interactive
}

pub open spec fn err_view<T>(r: Result<T, MeError>) -> Result<T, Seq<char>> {
    match r {
        Ok(v) => Ok(v),
        Err(MeError::Message(m)) => Err(m@),
    }
}

pub open spec fn spec_login_choice(answer: Seq<char>) -> Result<LoginMode, Seq<char>> {
    let t = trim(answer);
    if t == ""@ || t == "1"@ || t == "full"@ {
        Ok(LoginMode::Full)
    } else if t == "2"@ || t == "compact"@ {
        Ok(LoginMode::Compact)
    } else if t == "3"@ || t == "none"@ {
        Ok(LoginMode::Off)
    } else {
        Err("unknown login mode: "@ + t)
    }
}

/// The login mode an answer to the login question picks; an empty answer
/// takes the recommended `full`.
pub fn parse_login_choice(answer: &str) -> (r: Result<LoginMode, MeError>)
    ensures
        err_view(r) == spec_login_choice(answer@),
{
    let t = trim_str(answer);
    let v = t.as_str();
    if str_eq(v, "") || str_eq(v, "1") || str_eq(v, "full") {
        Ok(LoginMode::Full)
    } else if str_eq(v, "2") || str_eq(v, "compact") {
        Ok(LoginMode::Compact)
    } else if str_eq(v, "3") || str_eq(v, "none") {
        Ok(LoginMode::Off)
    } else {
        let mut m = owned("unknown login mode: ");
        push_str(&mut m, v);
        Err(MeError::Message(m))
    }
}

pub open spec fn spec_interactive_choice(answer: Seq<char>) -> Result<InteractiveMode, Seq<char>> {
    let t = trim(answer);
    if t == ""@ || t == "1"@ || t == "compact"@ {
        Ok(InteractiveMode::Compact)
    } else if t == "2"@ || t == "prompt"@ {
        Ok(InteractiveMode::Prompt)
    } else if t == "3"@ || t == "none"@ {
        Ok(InteractiveMode::Off)
    } else {
        Err("unknown interactive mode: "@ + t)
    }
}

/// The interactive mode an answer picks; an empty answer takes `compact`.
pub fn parse_interactive_choice(answer: &str) -> (r: Result<InteractiveMode, MeError>)
    ensures
        err_view(r) == spec_interactive_choice(answer@),
{
    let t = trim_str(answer);
    let v = t.as_str();
    if str_eq(v, "") || str_eq(v, "1") || str_eq(v, "compact") {
        Ok(InteractiveMode::Compact)
    } else if str_eq(v, "2") || str_eq(v, "prompt") {
        Ok(InteractiveMode::Prompt)
    } else if str_eq(v, "3") || str_eq(v, "none") {
        Ok(InteractiveMode::Off)
    } else {
        let mut m = owned("unknown interactive mode: ");
        push_str(&mut m, v);
        Err(MeError::Message(m))
    }
}

pub open spec fn spec_cross_shell_choice(answer: Seq<char>) -> Result<CrossShellChoice, Seq<char>> {
    let t = trim(answer);
    if t == ""@ || t == "1"@ {
        Ok(CrossShellChoice::Keep)
    } else if t == "2"@ {
        Ok(CrossShellChoice::Remove)
    } else if t == "3"@ {
        Ok(CrossShellChoice::Abort)
    } else {
        Err("unknown choice: "@ + t)
    }
}

/// What to do with integrations of other shells, from the user's answer;
/// an empty answer keeps them.
pub fn parse_cross_shell_choice(answer: &str) -> (r: Result<CrossShellChoice, MeError>)
    ensures
        err_view(r) == spec_cross_shell_choice(answer@),
{
    let t = trim_str(answer);
    let v = t.as_str();
    if str_eq(v, "") || str_eq(v, "1") {
        Ok(CrossShellChoice::Keep)
    } else if str_eq(v, "2") {
        Ok(CrossShellChoice::Remove)
    } else if str_eq(v, "3") {
        Ok(CrossShellChoice::Abort)
    } else {
        let mut m = owned("unknown choice: ");
        push_str(&mut m, v);
        Err(MeError::Message(m))
    }
}

pub open spec fn spec_confirmed(answer: Seq<char>) -> bool {
    let t = trim(answer);
    t == "y"@ || t == "Y"@ || t == "yes"@ || t == "YES"@
}

/// Whether an answer to a yes/no question is yes.
pub fn confirm_answer(answer: &str) -> (r: bool)
    ensures
        r == spec_confirmed(answer@),
{
    let t = trim_str(answer);
    let v = t.as_str();
    str_eq(v, "y") || str_eq(v, "Y") || str_eq(v, "yes") || str_eq(v, "YES")
}

// ---------------------------------------------------------------------------
// Per-file plan
// ---------------------------------------------------------------------------

/// Whether an existing file makes a prompt integration unsafe; `None` when
/// the file could not be read.
pub fn prompt_looks_unsafe(shell: Shell, contents: Option<&str>) -> (r: bool)
    ensures
        r == match contents {
            Some(c) => spec_looks_complex_prompt(shell, c@),
            None => false,
        },
{
    match contents {
        Some(c) => looks_complex_prompt(shell, c),
        None => false,
    }
}

/// Whether a prompt integration would go into a file that already
/// customizes its prompt.
pub fn prompt_conflict(target: &TargetFile, interactive: InteractiveMode, prompt_unsafe: bool) -> (r:
    bool)
    ensures
        r == (target.interactive && interactive == InteractiveMode::Prompt && prompt_unsafe),
{
    target.interactive && interactive == InteractiveMode::Prompt && prompt_unsafe
}

pub open spec fn spec_effective_modes(
    target_login: bool,
    target_interactive: bool,
    login: LoginMode,
    interactive: InteractiveMode,
    prompt_unsafe: bool,
) -> (LoginMode, InteractiveMode) {
    let i = if target_interactive && interactive == InteractiveMode::Prompt && prompt_unsafe {
        InteractiveMode::Compact
    } else if target_interactive {
        interactive
    } else {
        InteractiveMode::Off
    };
    let l = if target_login {
        login
    } else {
        LoginMode::Off
    };
    (l, i)
}

/// The modes written into one file: a role the file does not serve is off,
/// and an unsafe prompt integration falls back to `compact`.
pub fn effective_modes(
    target: &TargetFile,
    login: LoginMode,
    interactive: InteractiveMode,
    prompt_unsafe: bool,
) -> (r: (LoginMode, InteractiveMode))
    ensures
        r == spec_effective_modes(target.login, target.interactive, login, interactive, prompt_unsafe),
{
    let i = if prompt_conflict(target, interactive, prompt_unsafe) {
        InteractiveMode::Compact
    } else if target.interactive {
        interactive
    } else {
        InteractiveMode::Off
    };
    let l = if target.login {
        login
    } else {
        LoginMode::Off
    };
    (l, i)
}

/// What is written into one file.
#[derive(Debug, Clone)]
pub struct TargetPlan {
    pub shell: Shell,
    pub path: String,
    pub login: LoginMode,
    pub interactive: InteractiveMode,
    pub block: String,
}

/// The block for one file, or `None` when both modes end up off there.
pub fn plan_target(
    target: &TargetFile,
    login: LoginMode,
    interactive: InteractiveMode,
    prompt_unsafe: bool,
) -> (r: Option<TargetPlan>)
    ensures
        ({
            let (l, i) = spec_effective_modes(
                target.login,
                target.interactive,
                login,
                interactive,
                prompt_unsafe,
            );
            if l == LoginMode::Off && i == InteractiveMode::Off {
                r is None
            } else {
                r matches Some(p) && p.shell == target.shell && p.path@ == target.path@ && p.login
                    == l && p.interactive == i && p.block@ == spec_render_block(target.shell, l, i)
            }
        }),
{
    let (l, i) = effective_modes(target, login, interactive, prompt_unsafe);
    if l == LoginMode::Off && i == InteractiveMode::Off {
        return None;
    }
    let block = render_block(target.shell, l, i);
    Some(TargetPlan { shell: target.shell, path: target.path.clone(), login: l, interactive: i, block })
}

// ---------------------------------------------------------------------------
// Messages
// ---------------------------------------------------------------------------

pub open spec fn spec_display_path(path: Seq<char>, home: Option<Seq<char>>) -> Seq<char> {
    match home {
        Some(h) => match spec_strip_path_prefix(path, h) {
            Some(rest) => "~/"@ + rest,
            None => path,
        },
        None => path,
    }
}

/// A path as shown to the user: under the home directory it starts with `~/`.
pub fn display_path(path: &str, home: Option<&str>) -> (r: String)
    ensures
        r@ == spec_display_path(
            path@,
            match home {
                Some(h) => Some(h@),
                None => None,
            },
        ),
{
    if let Some(h) = home {
        if let Some(rest) = strip_path_prefix(path, h) {
            let mut r = owned("~/");
            push_str(&mut r, rest.as_str());
            return r;
        }
    }
    owned(path)
}

pub open spec fn spec_change_verb(c: BlockChange) -> Seq<char> {
    match c {
        BlockChange::Added => "installed"@,
        BlockChange::Updated => "updated"@,
        BlockChange::Unchanged => "unchanged"@,
    }
}

/// The line reported after writing one file.
pub fn install_report(change: BlockChange, shown_path: &str, shell: Shell) -> (r: String)
    ensures
        r@ == "me install: "@ + spec_change_verb(change) + " "@ + shown_path@ + " ("@
            + spec_shell_name(shell) + ")"@,
{
    let mut r = owned("me install: ");
    push_str(
        &mut r,
        match change {
            BlockChange::Added => "installed",
            BlockChange::Updated => "updated",
            BlockChange::Unchanged => "unchanged",
        },
    );
    push_str(&mut r, " ");
    push_str(&mut r, shown_path);
    push_str(&mut r, " (");
    push_str(&mut r, shell.name());
    push_str(&mut r, ")");
    r
}

/// The message that refuses an unsafe prompt integration.
pub fn prompt_unsafe_error(shown_path: &str) -> (r: MeError)
    ensures
        r matches MeError::Message(m) && m@ == "prompt integration looks unsafe in "@ + shown_path@
            + "; choose --interactive compact or edit manually"@,
{
    let mut m = owned("prompt integration looks unsafe in ");
    push_str(&mut m, shown_path);
    push_str(&mut m, "; choose --interactive compact or edit manually");
    MeError::Message(m)
}

/// The warning printed when a prompt integration falls back to `compact`.
pub fn prompt_unsafe_warning(shown_path: &str) -> (r: String)
    ensures
        r@ == "me: prompt integration looks unsafe in "@ + shown_path@ + "; using compact instead"@,
{
    let mut m = owned("me: prompt integration looks unsafe in ");
    push_str(&mut m, shown_path);
    push_str(&mut m, "; using compact instead");
    m
}

/// One line of the install summary: a role, its mode and the file.
#[derive(Debug, Clone)]
pub struct SummaryEntry {
    pub role: TargetRole,
    pub mode: String,
    pub shown_path: String,
}

/// The summary entries of one planned file: a line per role that is on.
pub fn summary_entries(plan: &TargetPlan, shown_path: &str) -> (r: Vec<SummaryEntry>)
    ensures
        r@.len() == (if plan.login != LoginMode::Off { 1int } else { 0 }) + (if plan.interactive
            != InteractiveMode::Off {
            1int
        } else {
            0
        }),
        plan.login != LoginMode::Off ==> r@[0].role == TargetRole::Login && r@[0].mode@
            == spec_login_name(plan.login) && r@[0].shown_path@ == shown_path@,
        plan.interactive != InteractiveMode::Off ==> ({
            let e = r@[r@.len() - 1];
            e.role == TargetRole::Interactive && e.mode@ == spec_interactive_name(plan.interactive)
                && e.shown_path@ == shown_path@
        }),
{
    let mut r: Vec<SummaryEntry> = Vec::new();
    if plan.login != LoginMode::Off {
        r.push(
            SummaryEntry {
                role: TargetRole::Login,
                mode: owned(plan.login.name()),
                shown_path: owned(shown_path),
            },
        );
    }
    if plan.interactive != InteractiveMode::Off {
        r.push(
            SummaryEntry {
                role: TargetRole::Interactive,
                mode: owned(plan.interactive.name()),
                shown_path: owned(shown_path),
            },
        );
    }
    r
}

pub open spec fn role_label(role: TargetRole) -> Seq<char> {
    match role {
        TargetRole::Login => "login"@,
        TargetRole::Interactive => "interactive"@,
    }
}

pub open spec fn summary_line(e: SummaryEntry) -> Seq<char> {
    "- "@ + role_label(e.role) + ": "@ + e.mode@ + " ("@ + e.shown_path@ + ")"@
}

pub open spec fn spec_install_summary(shell: Shell, entries: Seq<SummaryEntry>) -> Seq<Seq<char>> {
    seq![""@, "Installed me shell integration for "@ + spec_shell_name(shell)] + entries.map_values(
        |e: SummaryEntry| summary_line(e),
    ) + seq![""@, "Restart or reopen your shell to start using it."@]
}

/// The lines printed after an install.
pub fn install_summary(shell: Shell, entries: &Vec<SummaryEntry>) -> (r: Vec<String>)
    ensures
        r@.map_values(|s: String| s@) == spec_install_summary(shell, entries@),
{
    let mut r: Vec<String> = Vec::new();
    r.push(owned(""));
    let mut head = owned("Installed me shell integration for ");
    push_str(&mut head, shell.name());
    r.push(head);
    let mut i: usize = 0;
    while i < entries.len()
        invariant
            i <= entries.len(),
            r@.map_values(|s: String| s@) == seq![""@, "Installed me shell integration for "@
                + spec_shell_name(shell)] + entries@.take(i as int).map_values(
                |e: SummaryEntry| summary_line(e),
            ),
        decreases entries.len() - i,
    {
        let e = &entries[i];
        let mut line = owned("- ");
        push_str(
            &mut line,
            match e.role {
                TargetRole::Login => "login",
                TargetRole::Interactive => "interactive",
            },
        );
        push_str(&mut line, ": ");
        push_str(&mut line, e.mode.as_str());
        push_str(&mut line, " (");
        push_str(&mut line, e.shown_path.as_str());
        push_str(&mut line, ")");
        let ghost before = r@.map_values(|s: String| s@);
        r.push(line);
        proof {
            assert(r@.map_values(|s: String| s@) =~= before.push(line@));
            assert(entries@.take(i + 1).map_values(|e: SummaryEntry| summary_line(e))
                =~= entries@.take(i as int).map_values(|e: SummaryEntry| summary_line(e)).push(
                summary_line(entries@[i as int]),
            ));
        }
        i += 1;
    }
    r.push(owned(""));
    r.push(owned("Restart or reopen your shell to start using it."));
    proof {
        assert(entries@.take(entries@.len() as int) =~= entries@);
        assert(r@.map_values(|s: String| s@) =~= spec_install_summary(shell, entries@));
    }
    r
}

// ---------------------------------------------------------------------------
// Existing integrations
// ---------------------------------------------------------------------------

/// An integration as plain values: shell, path, full blocks, partial.
pub open spec fn integration_view(i: ExistingIntegration) -> (Option<Shell>, Seq<char>, nat, bool) {
    (i.shell, i.path@, i.full_blocks as nat, i.partial_or_ambiguous)
}

pub open spec fn integration_views(v: Seq<ExistingIntegration>) -> Seq<
    (Option<Shell>, Seq<char>, nat, bool),
> {
    v.map_values(|i: ExistingIntegration| integration_view(i))
}

/// What a file holds of `me`, if anything: its shell comes from a
/// signature line, else from the file's name.
pub open spec fn spec_scan_file(path: Seq<char>, c: Seq<char>) -> Option<
    (Option<Shell>, Seq<char>, nat, bool),
> {
    let full = spec_count_full_blocks(c);
    let partial = spec_has_partial(c);
    if full > 0 || partial {
        Some(
            (
                match shell_in_lines(lines(c)) {
                    Some(s) => Some(s),
                    None => spec_infer_shell(path),
                },
                path,
                full,
                partial,
            ),
        )
    } else {
        None
    }
}

/// The integration found in one file's contents.
pub fn scan_file(path: &str, contents: &str) -> (r: Option<ExistingIntegration>)
    ensures
        match r {
            Some(i) => spec_scan_file(path@, contents@) == Some(integration_view(i)),
            None => spec_scan_file(path@, contents@) is None,
        },
{
    let full_blocks = count_full_blocks(contents);
    let partial = has_partial_or_ambiguous_me_snippet(contents);
    if full_blocks > 0 || partial {
        let shell = match detect_shell_from_contents(contents) {
            Some(s) => Some(s),
            None => infer_shell_from_path(path),
        };
        Some(
            ExistingIntegration {
                shell,
                path: owned(path),
                full_blocks,
                partial_or_ambiguous: partial,
            },
        )
    } else {
        None
    }
}

pub open spec fn files_view(files: Seq<(String, Option<String>)>) -> Seq<
    (Seq<char>, Option<Seq<char>>),
> {
    files.map_values(|f: (String, Option<String>)| (f.0@, opt_view(f.1)))
}

/// Whether the path at `i` already came earlier in the list.
pub open spec fn seen_before(files: Seq<(Seq<char>, Option<Seq<char>>)>, i: int) -> bool {
    exists|j: int| 0 <= j < i && path_eq(#[trigger] files[j].0, files[i].0)
}

/// The integrations among files, in order; a path is scanned once, and a
/// file that does not exist (`None`) is skipped.
pub open spec fn spec_scan_paths(files: Seq<(Seq<char>, Option<Seq<char>>)>) -> Seq<
    (Option<Shell>, Seq<char>, nat, bool),
>
    decreases files.len(),
{
    if files.len() == 0 {
        seq![]
    } else {
        let i = files.len() - 1;
        let prev = spec_scan_paths(files.drop_last());
        if seen_before(files, i) {
            prev
        } else {
            match files[i].1 {
                None => prev,
                Some(c) => match spec_scan_file(files[i].0, c) {
                    Some(x) => prev.push(x),
                    None => prev,
                },
            }
        }
    }
}

/// Scans files given as paths with their contents (`None` for a file that
/// does not exist).
pub fn scan_paths(files: &Vec<(String, Option<String>)>) -> (r: Vec<ExistingIntegration>)
    ensures
        integration_views(r@) == spec_scan_paths(files_view(files@)),
{
    let ghost fv = files_view(files@);
    let mut r: Vec<ExistingIntegration> = Vec::new();
    let mut i: usize = 0;
    while i < files.len()
        invariant
            i <= files.len(),
            fv == files_view(files@),
            integration_views(r@) == spec_scan_paths(fv.take(i as int)),
        decreases files.len() - i,
    {
        let mut seen = false;
        let mut j: usize = 0;
        while j < i
            invariant
                j <= i < files.len(),
                fv == files_view(files@),
                seen == exists|k: int| 0 <= k < j && path_eq(#[trigger] fv[k].0, fv[i as int].0),
            decreases i - j,
        {
            let same = path_eq_exec(files[j].0.as_str(), files[i].0.as_str());
            proof {
                assert(fv[j as int].0 == files@[j as int].0@);
                assert(fv[i as int].0 == files@[i as int].0@);
                if same {
                    assert(path_eq(fv[j as int].0, fv[i as int].0));
                }
            }
            if same {
                seen = true;
            }
            j += 1;
        }
        let ghost before = r@;
        if !seen {
            match &files[i].1 {
                Some(c) => {
                    match scan_file(files[i].0.as_str(), c.as_str()) {
                        Some(x) => {
                            r.push(x);
                        },
                        None => {},
                    }
                },
                None => {},
            }
        }
        proof {
            let t = fv.take(i + 1);
            assert(t.drop_last() =~= fv.take(i as int));
            assert(t[i as int] == fv[i as int]);
            assert(fv[i as int] == (files@[i as int].0@, opt_view(files@[i as int].1)));
            assert(seen_before(t, i as int) == seen) by {
                if seen {
                    let k = choose|k: int| 0 <= k < i && path_eq(#[trigger] fv[k].0, fv[i as int].0);
                    assert(t[k] == fv[k]);
                }
                if seen_before(t, i as int) {
                    let k = choose|k: int| 0 <= k < i && path_eq(#[trigger] t[k].0, t[i as int].0);
                    assert(t[k] == fv[k]);
                }
            }
            if r@.len() > before.len() {
                assert(integration_views(r@) =~= integration_views(before).push(
                    integration_view(r@[before.len() as int]),
                ));
            } else {
                assert(r@ == before);
            }
        }
        i += 1;
    }
    proof {
        assert(fv.take(files@.len() as int) =~= fv);
    }
    r
}

/// Which integrations a filter keeps.
pub enum Pick {
    /// Those whose shell is known and is not this one.
    OtherShell(Shell),
    /// Those with at least one full block.
    Removable,
    /// Those with a partial or ambiguous snippet.
    Partial,
}

pub open spec fn picked(p: Pick, i: (Option<Shell>, Seq<char>, nat, bool)) -> bool {
    match p {
        Pick::OtherShell(cur) => i.0 matches Some(s) && s != cur,
        Pick::Removable => i.2 > 0,
        Pick::Partial => i.3,
    }
}

/// The integrations that a filter keeps, in order.
pub open spec fn spec_pick(p: Pick, v: Seq<(Option<Shell>, Seq<char>, nat, bool)>) -> Seq<
    (Option<Shell>, Seq<char>, nat, bool),
>
    decreases v.len(),
{
    if v.len() == 0 {
        seq![]
    } else {
        let prev = spec_pick(p, v.drop_last());
        if picked(p, v.last()) {
            prev.push(v.last())
        } else {
            prev
        }
    }
}

fn copy_integration(i: &ExistingIntegration) -> (r: ExistingIntegration)
    ensures
        integration_view(r) == integration_view(*i),
{
    ExistingIntegration {
        shell: i.shell,
        path: i.path.clone(),
        full_blocks: i.full_blocks,
        partial_or_ambiguous: i.partial_or_ambiguous,
    }
}

/// The integrations that `p` keeps, in order.
pub fn pick_integrations(p: Pick, v: &Vec<ExistingIntegration>) -> (r: Vec<ExistingIntegration>)
    ensures
        integration_views(r@) == spec_pick(p, integration_views(v@)),
{
    let ghost iv = integration_views(v@);
    let mut r: Vec<ExistingIntegration> = Vec::new();
    let mut i: usize = 0;
    while i < v.len()
        invariant
            i <= v.len(),
            iv == integration_views(v@),
            integration_views(r@) == spec_pick(p, iv.take(i as int)),
        decreases v.len() - i,
    {
        let x = &v[i];
        let keep = match p {
            Pick::OtherShell(cur) => match x.shell {
                Some(s) => s != cur,
                None => false,
            },
            Pick::Removable => x.full_blocks > 0,
            Pick::Partial => x.partial_or_ambiguous,
        };
        let ghost before = r@;
        if keep {
            r.push(copy_integration(x));
        }
        proof {
            let t = iv.take(i + 1);
            assert(t.drop_last() =~= iv.take(i as int));
            assert(t.last() == integration_view(v@[i as int]));
            if keep {
                assert(integration_views(r@) =~= integration_views(before).push(
                    integration_view(v@[i as int]),
                ));
            }
        }
        i += 1;
    }
    proof {
        assert(iv.take(v@.len() as int) =~= iv);
    }
    r
}

/// The integrations that belong to a shell other than `current_shell`.
pub fn existing_for_other_shells(existing: &Vec<ExistingIntegration>, current_shell: Shell) -> (r:
    Vec<ExistingIntegration>)
    ensures
        integration_views(r@) == spec_pick(Pick::OtherShell(current_shell), integration_views(existing@)),
{
    pick_integrations(Pick::OtherShell(current_shell), existing)
}

// ---------------------------------------------------------------------------
// Uninstall
// ---------------------------------------------------------------------------

/// Which files an uninstall scans.
#[derive(Debug, Clone)]
pub enum UninstallScope {
    /// Only the file given with `--file`.
    File(String),
    /// Every well-known shell file.
    Known,
}

/// The files an uninstall scans; a global uninstall without questions must
/// be confirmed with `--yes`.
pub fn uninstall_scope(args: &UninstallArgs) -> (r: Result<UninstallScope, MeError>)
    ensures
        match args.file {
            Some(f) => r matches Ok(UninstallScope::File(p)) && p@ == f@,
            None => if args.non_interactive && !args.yes {
                r matches Err(MeError::Message(m)) && m@
                    == "global non-interactive uninstall requires --yes or --file"@
            } else {
                r matches Ok(UninstallScope::Known)
            },
        },
{
    match &args.file {
        Some(f) => Ok(UninstallScope::File(f.clone())),
        None => if args.non_interactive && !args.yes {
            Err(MeError::message("global non-interactive uninstall requires --yes or --file"))
        } else {
            Ok(UninstallScope::Known)
        },
    }
}

/// The warning about a file that holds a partial integration.
pub fn partial_warning(shown_path: &str) -> (r: String)
    ensures
        r@ == "me: possible partial me integration in "@ + shown_path@
            + "; manual cleanup required"@,
{
    let mut m = owned("me: possible partial me integration in ");
    push_str(&mut m, shown_path);
    push_str(&mut m, "; manual cleanup required");
    m
}

/// The line reported after removing blocks from one file.
pub fn removal_report(removed: usize, shown_path: &str) -> (r: String)
    ensures
        r@ == "me uninstall: removed "@ + dec(removed as nat) + " block(s) from "@ + shown_path@,
{
    let mut m = owned("me uninstall: removed ");
    let n = dec_string(removed as u64);
    push_str(&mut m, n.as_str());
    push_str(&mut m, " block(s) from ");
    push_str(&mut m, shown_path);
    m
}

pub open spec fn total_removed(counts: Seq<usize>) -> nat
    decreases counts.len(),
{
    if counts.len() == 0 {
        0
    } else {
        total_removed(counts.drop_last()) + counts.last() as nat
    }
}

pub open spec fn files_changed(counts: Seq<usize>) -> nat
    decreases counts.len(),
{
    if counts.len() == 0 {
        0
    } else {
        files_changed(counts.drop_last()) + if counts.last() > 0 {
            1nat
        } else {
            0
        }
    }
}

/// The closing lines of an uninstall, from the number of blocks removed
/// from each file.
pub fn uninstall_summary(counts: &Vec<usize>) -> (r: Vec<String>)
    requires
        total_removed(counts@) <= u64::MAX,
    ensures
        r@.map_values(|s: String| s@) == seq![
            "Removed "@ + dec(total_removed(counts@)) + " managed block(s)."@,
            "Removed me shell integration from "@ + dec(files_changed(counts@)) + " file(s)."@,
            "Restart or reopen your shell to finish uninstalling."@,
        ],
{
    let mut total: u64 = 0;
    let mut files: u64 = 0;
    let mut i: usize = 0;
    while i < counts.len()
        invariant
            i <= counts.len(),
            total_removed(counts@) <= u64::MAX,
            total == total_removed(counts@.take(i as int)),
            files == files_changed(counts@.take(i as int)),
            files <= i,
        decreases counts.len() - i,
    {
        proof {
            let t = counts@.take(i + 1);
            assert(t.drop_last() =~= counts@.take(i as int));
            lemma_total_removed_prefix(counts@, i + 1);
        }
        total = total + counts[i] as u64;
        if counts[i] > 0 {
            files = files + 1;
        }
        i += 1;
    }
    proof {
        assert(counts@.take(counts@.len() as int) =~= counts@);
    }
    let mut a = owned("Removed ");
    push_str(&mut a, dec_string(total).as_str());
    push_str(&mut a, " managed block(s).");
    let mut b = owned("Removed me shell integration from ");
    push_str(&mut b, dec_string(files).as_str());
    push_str(&mut b, " file(s).");
    let r = vec![a, b, owned("Restart or reopen your shell to finish uninstalling.")];
    assert(r@.map_values(|s: String| s@) =~= seq![
        "Removed "@ + dec(total_removed(counts@)) + " managed block(s)."@,
        "Removed me shell integration from "@ + dec(files_changed(counts@)) + " file(s)."@,
        "Restart or reopen your shell to finish uninstalling."@,
    ]);
    r
}

/// A prefix removes no more blocks than the whole.
pub proof fn lemma_total_removed_prefix(counts: Seq<usize>, n: int)
    requires
        0 <= n <= counts.len(),
    ensures
        total_removed(counts.take(n)) <= total_removed(counts),
    decreases counts.len(),
{
    if n < counts.len() {
        assert(counts.drop_last().take(n) =~= counts.take(n));
        lemma_total_removed_prefix(counts.drop_last(), n);
    } else {
        assert(counts.take(n) =~= counts);
    }
}

} // verus!
