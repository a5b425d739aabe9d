//! The information `me` reports, and the fields a user can select.
use crate::text::{chars_of, lower_ascii, lower_char, owned, push_str, replace_char, string_of, trim, trim_str};
use vstd::prelude::*;

verus! {

/// A selectable piece of output.
#[derive(Debug, Clone, Copy, PartialEq, Eq, Hash, Structural)]
pub enum Field {
    User,
    Uid,
    Gid,
    Groups,
    Host,
    Shell,
    Pid,
    Ppid,
    Tty,
    Privilege,
    Sudo,
    Ssh,
    Network,
    Pwd,
    Context,
}

/// The fields shown when nothing is selected, in display order.
pub open spec fn default_fields() -> Seq<Field> {
    seq![
        Field::User,
        Field::Uid,
        Field::Gid,
        Field::Groups,
        Field::Host,
        Field::Shell,
        Field::Pid,
        Field::Ppid,
        Field::Tty,
        Field::Privilege,
        Field::Sudo,
        Field::Ssh,
        Field::Network,
        Field::Pwd,
        Field::Context,
    ]
}

/// The name under which a field is printed.
pub open spec fn field_key(f: Field) -> Seq<char> {
    match f {
        Field::User => "user"@,
        Field::Uid => "uid"@,
        Field::Gid => "gid"@,
        Field::Groups => "groups"@,
        Field::Host => "host"@,
        Field::Shell => "shell"@,
        Field::Pid => "pid"@,
        Field::Ppid => "ppid"@,
        Field::Tty => "tty"@,
        Field::Privilege => "privilege"@,
        Field::Sudo => "sudo"@,
        Field::Ssh => "ssh"@,
        Field::Network => "network"@,
        Field::Pwd => "pwd"@,
        Field::Context => "context"@,
    }
}

/// The field a normalized name stands for (names and their aliases).
pub open spec fn field_named(n: Seq<char>) -> Option<Field> {
    if n == "user"@ {
        Some(Field::User)
    } else if n == "uid"@ {
        Some(Field::Uid)
    } else if n == "gid"@ {
        Some(Field::Gid)
    } else if n == "groups"@ || n == "group"@ {
        Some(Field::Groups)
    } else if n == "host"@ || n == "hostname"@ {
        Some(Field::Host)
    } else if n == "shell"@ {
        Some(Field::Shell)
    } else if n == "pid"@ {
        Some(Field::Pid)
    } else if n == "ppid"@ {
        Some(Field::Ppid)
    } else if n == "tty"@ {
        Some(Field::Tty)
    } else if n == "privilege"@ {
        Some(Field::Privilege)
    } else if n == "sudo"@ {
        Some(Field::Sudo)
    } else if n == "ssh"@ {
        Some(Field::Ssh)
    } else if n == "network"@ || n == "ip"@ {
        Some(Field::Network)
    } else if n == "pwd"@ {
        Some(Field::Pwd)
    } else if n == "context"@ {
        Some(Field::Context)
    } else {
        None
    }
}

/// How a user-typed field name is normalized before it is looked up:
/// trimmed, ASCII lower-cased, and `-` read as `_`.
pub open spec fn normalize_field_name(raw: Seq<char>) -> Seq<char> {
    replace_char(lower_ascii(trim(raw)), '-', '_')
}

impl Field {
    /// All fields in their default display order.
    pub fn defaults() -> (r: Vec<Field>)
        ensures
            r@ == default_fields(),
    {
        let r = vec![
            Field::User,
            Field::Uid,
            Field::Gid,
            Field::Groups,
            Field::Host,
            Field::Shell,
            Field::Pid,
            Field::Ppid,
            Field::Tty,
            Field::Privilege,
            Field::Sudo,
            Field::Ssh,
            Field::Network,
            Field::Pwd,
            Field::Context,
        ];
        assert(r@ =~= default_fields());
        r
    }

    /// The printed name of the field.
    pub fn key(self) -> (r: &'static str)
        ensures
            r@ == field_key(self),
    {
        match self {
            Field::User => "user",
            Field::Uid => "uid",
            Field::Gid => "gid",
            Field::Groups => "groups",
            Field::Host => "host",
            Field::Shell => "shell",
            Field::Pid => "pid",
            Field::Ppid => "ppid",
            Field::Tty => "tty",
            Field::Privilege => "privilege",
            Field::Sudo => "sudo",
            Field::Ssh => "ssh",
            Field::Network => "network",
            Field::Pwd => "pwd",
            Field::Context => "context",
        }
    }

    /// Parses a field name as typed on the command line or in the config:
    /// case, surrounding whitespace and `-` versus `_` do not matter.
    pub fn from_name(value: &str) -> (r: Result<Field, String>)
        ensures
            match field_named(normalize_field_name(value@)) {
                Some(f) => r == Ok::<Field, String>(f),
                None => r matches Err(msg) && msg@ == "unknown field '"@ + normalize_field_name(
                    value@,
                ) + "'"@,
            },
    {
        let name = normalize_name(value);
        let n = name.as_str();
        let found = if str_eq(n, "user") {
            Some(Field::User)
        } else if str_eq(n, "uid") {
            Some(Field::Uid)
        } else if str_eq(n, "gid") {
            Some(Field::Gid)
        } else if str_eq(n, "groups") || str_eq(n, "group") {
            Some(Field::Groups)
        } else if str_eq(n, "host") || str_eq(n, "hostname") {
            Some(Field::Host)
        } else if str_eq(n, "shell") {
            Some(Field::Shell)
        } else if str_eq(n, "pid") {
            Some(Field::Pid)
        } else if str_eq(n, "ppid") {
            Some(Field::Ppid)
        } else if str_eq(n, "tty") {
            Some(Field::Tty)
        } else if str_eq(n, "privilege") {
            Some(Field::Privilege)
        } else if str_eq(n, "sudo") {
            Some(Field::Sudo)
        } else if str_eq(n, "ssh") {
            Some(Field::Ssh)
        } else if str_eq(n, "network") || str_eq(n, "ip") {
            Some(Field::Network)
        } else if str_eq(n, "pwd") {
            Some(Field::Pwd)
        } else if str_eq(n, "context") {
            Some(Field::Context)
        } else {
            None
        };
        match found {
            Some(f) => Ok(f),
            None => {
                let mut msg = owned("unknown field '");
                push_str(&mut msg, n);
                push_str(&mut msg, "'");
                Err(msg)
            },
        }
    }
}

/// The normalized form of a field name (see `normalize_field_name`).
pub fn normalize_name(value: &str) -> (r: String)
    ensures
        r@ == normalize_field_name(value@),
{
    let trimmed = trim_str(value);
    let v = chars_of(trimmed.as_str());
    let mut out: Vec<char> = Vec::new();
    let mut i: usize = 0;
    while i < v.len()
        invariant
            i <= v.len(),
            out@ == replace_char(lower_ascii(v@.take(i as int)), '-', '_'),
        decreases v.len() - i,
    {
        let c = lower_char(v[i]);
        let c = if c == '-' {
            '_'
        } else {
            c
        };
        out.push(c);
        i += 1;
        assert(out@ =~= replace_char(lower_ascii(v@.take(i as int)), '-', '_'));
    }
    assert(v@.take(v@.len() as int) =~= v@);
    string_of(&out)
}

impl core::str::FromStr for Field {
    type Err = String;

    fn from_str(value: &str) -> (r: Result<Field, String>)
        ensures
            match field_named(normalize_field_name(value@)) {
                Some(f) => r == Ok::<Field, String>(f),
                None => r matches Err(msg) && msg@ == "unknown field '"@ + normalize_field_name(
                    value@,
                ) + "'"@,
            },
    {
        Field::from_name(value)
    }
}

/// Who the user is on this machine.
#[derive(Debug, Clone)]
pub struct SystemIdentity {
    pub user: String,
    pub uid: u32,
    pub gid: u32,
    pub groups: Vec<String>,
    pub host: String,
}

/// The running process and its terminal.
#[derive(Debug, Clone)]
pub struct RuntimeInfo {
    pub shell: Option<String>,
    pub pid: u32,
    pub ppid: Option<u32>,
    pub tty: Option<String>,
}

/// Local addresses, split by family, sorted and without repeats.
#[derive(Debug, Clone)]
pub struct NetworkInfo {
    pub ipv4_local_ips: Vec<String>,
    pub ipv6_local_ips: Vec<String>,
}

impl Default for NetworkInfo {
    fn default() -> (r: NetworkInfo)
        ensures
            r.ipv4_local_ips@.len() == 0,
            r.ipv6_local_ips@.len() == 0,
    {
        NetworkInfo { ipv4_local_ips: Vec::new(), ipv6_local_ips: Vec::new() }
    }
}

/// The working directory, as found and as shown.
#[derive(Debug, Clone)]
pub struct PwdInfo {
    pub raw: String,
    pub display: String,
}

/// Whether the session is remote, and how.
#[derive(Debug, Clone)]
pub struct SshContext {
    pub remote: bool,
    pub connection: Option<String>,
}

/// The container the process runs in.
#[derive(Debug, Clone)]
pub struct ContainerContext {
    pub kind: String,
    pub id: Option<String>,
}

/// One kind of project found in the working directory.
#[derive(Debug, Clone)]
pub struct ProjectContext {
    pub kind: String,
    pub version: Option<String>,
    pub project_name: Option<String>,
    pub service_count: Option<usize>,
    pub details: Vec<String>,
}

/// The checked-out branch, tag or commit.
#[derive(Debug, Clone)]
pub struct GitContext {
    pub branch: String,
}

/// Everything detected about the surroundings.
#[derive(Debug, Clone)]
pub struct ContextInfo {
    pub ssh: Option<SshContext>,
    pub container: Option<ContainerContext>,
    pub projects: Vec<ProjectContext>,
    pub git: Option<GitContext>,
}

impl Default for ContextInfo {
    fn default() -> (r: ContextInfo)
        ensures
            r.ssh is None,
            r.container is None,
            r.projects@.len() == 0,
            r.git is None,
    {
        ContextInfo { ssh: None, container: None, projects: Vec::new(), git: None }
    }
}

/// The full report.
#[derive(Debug, Clone)]
pub struct MeInfo {
    pub identity: SystemIdentity,
    pub runtime: RuntimeInfo,
    pub privilege: String,
    pub sudo: bool,
    pub ssh: bool,
    pub network: NetworkInfo,
    pub pwd: Option<PwdInfo>,
    pub context: ContextInfo,
}

/// Whether two string slices hold the same characters.
pub fn str_eq(a: &str, b: &str) -> (r: bool)
    ensures
        r == (a@ == b@),
{
    let x = chars_of(a);
    let y = chars_of(b);
    if x.len() != y.len() {
        return false;
    }
    let mut i: usize = 0;
    while i < x.len()
        invariant
            x@ == a@,
            y@ == b@,
            x.len() == y.len(),
            i <= x.len(),
            forall|k: int| 0 <= k < i ==> x@[k] == y@[k],
        decreases x.len() - i,
    {
        if x[i] != y[i] {
            return false;
        }
        i += 1;
    }
    assert(x@ =~= y@);
    true
}

/// A copy of a list of strings.
pub fn clone_strings(v: &Vec<String>) -> (r: Vec<String>)
    ensures
        r@ == v@,
{
    let mut r: Vec<String> = Vec::new();
    let mut i: usize = 0;
    while i < v.len()
        invariant
            i <= v.len(),
            r@ == v@.take(i as int),
        decreases v.len() - i,
    {
        r.push(v[i].clone());
        i += 1;
        assert(r@ =~= v@.take(i as int));
    }
    assert(v@.take(v@.len() as int) =~= v@);
    r
}

/// A copy of an optional string.
pub fn clone_opt(v: &Option<String>) -> (r: Option<String>)
    ensures
        r == *v,
{
    match v {
        Some(s) => Some(s.clone()),
        None => None,
    }
}

} // verus!
