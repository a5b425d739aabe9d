//! Whether the session is remote: from the SSH variables, or, under sudo,
//! from an `sshd` among the ancestor processes.
use crate::model::{str_eq, SshContext};
use crate::text::{
    all_digits, bufs, chars_of, digits_value, opt_view, owned, parse_u64, parse_u64_str,
    split_char, split_char_of, starts_with, string_of, string_of_range, strip_prefix,
    strip_prefix_str, trim, trim_str, words, words_of,
};
use vstd::prelude::*;

verus! {

/// The environment variables that tell of a remote session.
#[derive(Debug, Clone)]
pub struct SshEnv {
    pub ssh_connection: Option<String>,
    pub ssh_client: Option<String>,
    pub ssh_tty: Option<String>,
    pub sudo_user: Option<String>,
    pub sudo_uid: Option<String>,
}

/// The first SSH variable that is set, in the order `SSH_CONNECTION`,
/// `SSH_CLIENT`, `SSH_TTY`.
pub open spec fn ssh_value(env: SshEnv) -> Option<Seq<char>> {
    match env.ssh_connection {
        Some(v) => Some(v@),
        None => match env.ssh_client {
            Some(v) => Some(v@),
            None => opt_view(env.ssh_tty),
        },
    }
}

/// Whether the process runs under sudo.
pub open spec fn spec_sudo_context(env: SshEnv) -> bool {
    env.sudo_user is Some || env.sudo_uid is Some
}

/// Whether the session runs under sudo, so that the ancestors decide.
pub fn sudo_context(env: &SshEnv) -> (r: bool)
    ensures
        r == spec_sudo_context(*env),
{
    env.sudo_user.is_some() || env.sudo_uid.is_some()
}

/// The program of a process's command line: the last `/`-separated part of
/// its first word.
pub open spec fn command_base(name: Seq<char>) -> Option<Seq<char>> {
    let ws = words(name);
    if ws.len() == 0 {
        None
    } else {
        Some(split_char(ws[0], '/').last())
    }
}

pub open spec fn spec_is_sshd(name: Seq<char>) -> bool {
    match command_base(name) {
        None => false,
        Some(base) => base == "sshd"@ || match strip_prefix(base, "sshd"@) {
            Some(rest) => rest.len() > 0 && (rest[0] == ' ' || rest[0] == ':' || rest[0] == '-'),
            None => false,
        },
    }
}

/// Whether a process name is the SSH daemon: `sshd`, a path to it, or a
/// session name such as `sshd: user@pts/0`.
pub fn is_sshd_command(name: &str) -> (r: bool)
    ensures
        r == spec_is_sshd(name@),
{
    let v = chars_of(name);
    let ws = words_of(&v);
    if ws.len() == 0 {
        return false;
    }
    assert(bufs(ws@)[0] == ws@[0]@);
    let parts = split_char_of(ws[0].as_slice(), '/');
    assert(bufs(parts@).len() >= 1);
    let n = parts.len();
    let base = string_of(parts[n - 1].as_slice());
    assert(base@ == split_char(ws@[0]@, '/').last());
    if str_eq(base.as_str(), "sshd") {
        return true;
    }
    match strip_prefix_str(base.as_str(), "sshd") {
        Some(rest) => {
            let r = chars_of(rest.as_str());
            r.len() > 0 && (r[0] == ' ' || r[0] == ':' || r[0] == '-')
        },
        None => false,
    }
}

pub open spec fn any_sshd(names: Seq<String>) -> bool {
    exists|i: int| 0 <= i < names.len() && spec_is_sshd(#[trigger] names[i]@)
}

pub open spec fn ssh_view(r: Option<SshContext>) -> Option<(bool, Option<Seq<char>>)> {
    match r {
        Some(c) => Some((c.remote, opt_view(c.connection))),
        None => None,
    }
}

pub open spec fn spec_detect_ssh(env: SshEnv, ancestors: Option<Seq<String>>) -> Option<
    (bool, Option<Seq<char>>),
> {
    match ssh_value(env) {
        Some(v) => Some((true, Some(v))),
        None => if spec_sudo_context(env) && match ancestors {
            Some(a) => any_sshd(a),
            None => false,
        } {
            Some((true, None))
        } else {
            None
        },
    }
}

/// The SSH context of the session. `ancestors` are the command names of
/// the parent processes, nearest first (`None` when they could not be
/// listed); they are consulted only under sudo.
pub fn detect_with(env: &SshEnv, ancestors: Option<Vec<String>>) -> (r: Option<SshContext>)
    ensures
        ssh_view(r) == spec_detect_ssh(
            *env,
            match ancestors {
                Some(a) => Some(a@),
                None => None,
            },
        ),
{
    let value = match &env.ssh_connection {
        Some(v) => Some(v.clone()),
        None => match &env.ssh_client {
            Some(v) => Some(v.clone()),
            None => match &env.ssh_tty {
                Some(v) => Some(v.clone()),
                None => None,
            },
        },
    };
    if let Some(v) = value {
        return Some(SshContext { remote: true, connection: Some(v) });
    }
    if !sudo_context(env) {
        return None;
    }
    let ghost anc = match &ancestors {
        Some(a) => Some(a@),
        None => None,
    };
    let names = match ancestors {
        Some(a) => a,
        None => Vec::new(),
    };
    let mut i: usize = 0;
    while i < names.len()
        invariant
            i <= names.len(),
            ssh_value(*env) is None,
            spec_sudo_context(*env),
            anc == match ancestors {
                Some(a) => Some(a@),
                None => None::<Seq<String>>,
            },
            match anc {
                Some(a) => names@ == a,
                None => names@.len() == 0,
            },
            forall|k: int| 0 <= k < i ==> !spec_is_sshd(#[trigger] names@[k]@),
        decreases names.len() - i,
    {
        if is_sshd_command(names[i].as_str()) {
            assert(spec_is_sshd(names@[i as int]@));
            assert(any_sshd(names@));
            return Some(SshContext { remote: true, connection: None });
        }
        i += 1;
    }
    None
}

/// What `<i32 as FromStr>::from_str` accepts: an optional sign, then
/// decimal digits whose value fits.
pub open spec fn spec_parse_i32(s: Seq<char>) -> Option<i32> {
    if s.len() > 0 && s[0] == '-' {
        let b = s.drop_first();
        if b.len() > 0 && all_digits(b) && digits_value(b) <= 2147483648 {
            Some((0 - digits_value(b)) as i32)
        } else {
            None
        }
    } else {
        match parse_u64(s) {
            Some(n) => if n <= 2147483647 {
                Some(n as i32)
            } else {
                None
            },
            None => None,
        }
    }
}

/// The process id in the output of `ps -o ppid=`.
pub fn parse_pid(output: &str) -> (r: Option<i32>)
    ensures
        r == spec_parse_i32(trim(output@)),
{
    let t = trim_str(output);
    let v = chars_of(t.as_str());
    if v.len() > 0 && v[0] == '-' {
        let body = string_of_range(&v, 1, v.len());
        assert(body@ =~= v@.drop_first());
        if body.unicode_len() == 0 {
            return None;
        }
        let b = chars_of(body.as_str());
        if b[0] == '+' {
            proof {
                assert(!crate::text::is_digit(b@[0]));
            }
            return None;
        }
        return match parse_u64_str(body.as_str()) {
            Some(n) => if n <= 2147483648 {
                let m: i64 = 0 - (n as i64);
                Some(m as i32)
            } else {
                None
            },
            None => None,
        };
    }
    match parse_u64_str(t.as_str()) {
        Some(n) => if n <= 2147483647 {
            Some(n as i32)
        } else {
            None
        },
        None => None,
    }
}

/// The command name in the output of `ps -o comm=`, when `ps` succeeded
/// and printed one.
pub fn process_command(success: bool, output: &str) -> (r: Option<String>)
    ensures
        opt_view(r) == (if success && trim(output@).len() > 0 {
            Some(trim(output@))
        } else {
            None
        }),
{
    let t = trim_str(output);
    if success && t.unicode_len() > 0 {
        Some(t)
    } else {
        None
    }
}

/// At most this many ancestors are listed.
pub const MAX_ANCESTORS: usize = 8;

} // verus!
