//! Command-line arguments, as plain values, and the fields they select.
use crate::model::Field;
use vstd::prelude::*;

verus! {

/// Parsed command-line arguments.
#[derive(Debug, Clone)]
pub struct Cli {
    pub command: Option<Command>,
    pub help: Option<bool>,
    pub compact: bool,
    pub json: bool,
    pub format: OutputFormat,
    pub plain: bool,
    pub no_color: bool,
    pub full: bool,
    pub watch: bool,
    pub interval: Option<u64>,
    pub fast: bool,
    pub copy: Option<Option<String>>,
    pub fields: Vec<Field>,
    pub user: bool,
    pub host: bool,
    pub shell: bool,
    pub pid: bool,
    pub ppid: bool,
    pub tty: bool,
    pub groups: bool,
    pub ids: bool,
    pub network: bool,
}

/// Subcommands.
#[derive(Debug, Clone)]
pub enum Command {
    Install(InstallArgs),
    Uninstall(UninstallArgs),
    Update(UpdateArgs),
}

/// `me install`.
#[derive(Debug, Clone)]
pub struct InstallArgs {
    pub help: Option<bool>,
    pub non_interactive: bool,
    pub login: Option<LoginMode>,
    pub interactive: Option<InteractiveMode>,
    pub shell: Option<Shell>,
    pub file: Option<String>,
}

/// `me uninstall`.
#[derive(Debug, Clone)]
pub struct UninstallArgs {
    pub help: Option<bool>,
    pub non_interactive: bool,
    pub yes: bool,
    pub shell: Option<Shell>,
    pub file: Option<String>,
}

/// `me update`.
#[derive(Debug, Clone)]
pub struct UpdateArgs {
    pub help: Option<bool>,
    pub check: bool,
    pub non_interactive: bool,
}

/// What runs in login shells.
#[derive(Debug, Clone, Copy, PartialEq, Eq, Structural)]
pub enum LoginMode {
    /// Nothing runs (`none` on the command line).
    Off,
    Full,
    Compact,
}

/// What runs in interactive shells.
#[derive(Debug, Clone, Copy, PartialEq, Eq, Structural)]
pub enum InteractiveMode {
    /// Nothing runs (`none` on the command line).
    Off,
    Compact,
    Prompt,
}

/// Supported shells.
#[derive(Debug, Clone, Copy, PartialEq, Eq, Hash, Structural)]
pub enum Shell {
    Zsh,
    Bash,
    Fish,
    Nushell,
}

/// `--format`.
#[derive(Debug, Clone, Copy, PartialEq, Eq, Structural)]
pub enum OutputFormat {
    Labeled,
    Config,
}

/// `s` with a later copy of any element left out.
pub open spec fn dedupe_spec(s: Seq<Field>) -> Seq<Field>
    decreases s.len(),
{
    if s.len() == 0 {
        seq![]
    } else {
        let d = dedupe_spec(s.drop_last());
        if d.contains(s.last()) {
            d
        } else {
            d.push(s.last())
        }
    }
}

pub open spec fn flag(b: bool, f: Field) -> Seq<Field> {
    if b {
        seq![f]
    } else {
        seq![]
    }
}

/// `--field` values followed by the short selectors, in flag order.
pub open spec fn requested_fields(cli: Cli) -> Seq<Field> {
    cli.fields@ + flag(cli.user, Field::User) + flag(cli.host, Field::Host) + flag(
        cli.shell,
        Field::Shell,
    ) + flag(cli.pid, Field::Pid) + flag(cli.ppid, Field::Ppid) + flag(cli.tty, Field::Tty)
        + flag(cli.groups, Field::Groups) + (if cli.ids {
        seq![Field::Uid, Field::Gid]
    } else {
        seq![]
    }) + flag(cli.network, Field::Network)
}

impl Cli {
    /// The selected fields, first mention first, each once.
    pub fn selected_fields(&self) -> (r: Vec<Field>)
        ensures
            r@ == dedupe_spec(requested_fields(*self)),
    {
        let mut fields: Vec<Field> = Vec::new();
        let mut i: usize = 0;
        while i < self.fields.len()
            invariant
                i <= self.fields.len(),
                fields@ == self.fields@.take(i as int),
            decreases self.fields.len() - i,
        {
            fields.push(self.fields[i]);
            i += 1;
            assert(fields@ =~= self.fields@.take(i as int));
        }
        assert(self.fields@.take(self.fields@.len() as int) =~= self.fields@);
        push_if(&mut fields, self.user, Field::User);
        push_if(&mut fields, self.host, Field::Host);
        push_if(&mut fields, self.shell, Field::Shell);
        push_if(&mut fields, self.pid, Field::Pid);
        push_if(&mut fields, self.ppid, Field::Ppid);
        push_if(&mut fields, self.tty, Field::Tty);
        push_if(&mut fields, self.groups, Field::Groups);
        let ghost s7 = fields@;
        if self.ids {
            fields.push(Field::Uid);
            fields.push(Field::Gid);
        }
        assert(fields@ =~= s7 + if self.ids {
            seq![Field::Uid, Field::Gid]
        } else {
            seq![]
        });
        push_if(&mut fields, self.network, Field::Network);
        dedupe(fields)
    }
}

/// Appends `f` when `b` holds.
fn push_if(v: &mut Vec<Field>, b: bool, f: Field)
    ensures
        final(v)@ == old(v)@ + flag(b, f),
{
    if b {
        v.push(f);
        assert(final(v)@ =~= old(v)@ + flag(b, f));
    } else {
        assert(old(v)@ =~= old(v)@ + flag(b, f));
    }
}

/// Keeps the first occurrence of each field.
pub fn dedupe(fields: Vec<Field>) -> (r: Vec<Field>)
    ensures
        r@ == dedupe_spec(fields@),
{
    let mut out: Vec<Field> = Vec::new();
    let mut i: usize = 0;
    assert(fields@.take(0) =~= Seq::<Field>::empty());
    while i < fields.len()
        invariant
            i <= fields.len(),
            out@ == dedupe_spec(fields@.take(i as int)),
        decreases fields.len() - i,
    {
        let f = fields[i];
        proof {
            assert(fields@.take(i + 1).drop_last() =~= fields@.take(i as int));
            assert(fields@.take(i + 1).last() == f);
        }
        if !crate::output::compact::fields_contain(out.as_slice(), f) {
            out.push(f);
        }
        i += 1;
    }
    assert(fields@.take(fields@.len() as int) =~= fields@);
    out
}

/// Every field of the result occurs in the input.
pub proof fn lemma_dedupe_subset(s: Seq<Field>, f: Field)
    ensures
        dedupe_spec(s).contains(f) <==> s.contains(f),
    decreases s.len(),
{
    if s.len() > 0 {
        lemma_dedupe_subset(s.drop_last(), f);
        let d = dedupe_spec(s.drop_last());
        if s.contains(f) && !s.drop_last().contains(f) {
            let k = choose|k: int| 0 <= k < s.len() && s[k] == f;
            if k < s.len() - 1 {
                assert(s.drop_last()[k] == f);
            }
            assert(s.last() == f);
            if !d.contains(f) {
                assert(d.push(f)[d.len() as int] == f);
            }
        }
        if s.drop_last().contains(f) {
            let k = choose|k: int| 0 <= k < s.drop_last().len() && s.drop_last()[k] == f;
            assert(s[k] == f);
        }
        if dedupe_spec(s).contains(f) && !d.contains(f) {
            let k = choose|k: int| 0 <= k < dedupe_spec(s).len() && dedupe_spec(s)[k] == f;
            assert(d.push(s.last())[k] == f);
            assert(k == d.len());
            assert(s[s.len() - 1] == f);
        }
        if d.contains(f) && !d.contains(s.last()) {
            let k = choose|k: int| 0 <= k < d.len() && d[k] == f;
            assert(d.push(s.last())[k] == f);
        }
    }
}

/// The result never holds a field twice.
pub proof fn lemma_dedupe_unique(s: Seq<Field>)
    ensures
        dedupe_spec(s).no_duplicates(),
    decreases s.len(),
{
    if s.len() > 0 {
        lemma_dedupe_unique(s.drop_last());
        let d = dedupe_spec(s.drop_last());
        if !d.contains(s.last()) {
            let e = d.push(s.last());
            assert forall|i: int, j: int| 0 <= i < e.len() && 0 <= j < e.len() && i != j implies e[i]
                != e[j] by {
                if i < d.len() && j < d.len() {
                    assert(e[i] == d[i] && e[j] == d[j]);
                } else if i == d.len() {
                    assert(e[j] == d[j]);
                } else {
                    assert(e[i] == d[i]);
                }
            }
        }
    }
}

} // verus!
