//! The running process: its shell, parent and terminal.
use crate::model::PwdInfo;
use crate::output::semantics::{file_name, spec_file_name};
use crate::path::{spec_strip_path_prefix, strip_path_prefix};
use crate::text::{owned, push_str};
use crate::text::{chars_of, opt_view, starts_with, string_of_range};
use vstd::prelude::*;

verus! {

pub open spec fn spec_shell_name(shell: Option<Seq<char>>, comspec: Option<Seq<char>>) -> Option<Seq<char>> {
    match shell {
        Some(s) => spec_file_name(s),
        None => match comspec {
            Some(c) => spec_file_name(c),
            None => None,
        },
    }
}

/// The shell's name: the file name of `SHELL`, else of `ComSpec`.
pub fn shell_name(shell: Option<&str>, comspec: Option<&str>) -> (r: Option<String>)
    ensures
        opt_view(r) == spec_shell_name(
            match shell {
                Some(s) => Some(s@),
                None => None,
            },
            match comspec {
                Some(c) => Some(c@),
                None => None,
            },
        ),
{
    match shell {
        Some(s) => file_name(s),
        None => match comspec {
            Some(c) => file_name(c),
            None => None,
        },
    }
}

/// The parent's pid as `getppid` gave it, when positive.
pub fn parent_pid_from(pid: i32) -> (r: Option<u32>)
    ensures
        r == (if pid > 0 {
            Some(pid as u32)
        } else {
            None
        }),
{
    if pid > 0 {
        Some(pid as u32)
    } else {
        None
    }
}

/// `s` without any leading `/dev/`.
pub open spec fn strip_dev(s: Seq<char>) -> Seq<char>
    decreases s.len(),
{
    if starts_with(s, "/dev/"@) {
        proof {
            reveal_strlit("/dev/");
        }
        strip_dev(s.skip(5))
    } else {
        s
    }
}

/// The terminal's name from its device path, without the `/dev/` prefix.
pub fn tty_name(path: &str) -> (r: String)
    ensures
        r@ == strip_dev(path@),
{
    proof {
        reveal_strlit("/dev/");
    }
    let v = chars_of(path);
    let mut i: usize = 0;
    assert(v@.skip(0) =~= v@);
    while v.len() - i >= 5 && v[i] == '/' && v[i + 1] == 'd' && v[i + 2] == 'e' && v[i + 3] == 'v'
        && v[i + 4] == '/'
        invariant
            i <= v.len(),
            strip_dev(v@) == strip_dev(v@.skip(i as int)),
        decreases v.len() - i,
    {
        proof {
            reveal_strlit("/dev/");
            let s = v@.skip(i as int);
            assert(s.subrange(0, 5) =~= "/dev/"@);
            assert(s.skip(5) =~= v@.skip(i + 5));
        }
        i += 5;
    }
    proof {
        reveal_strlit("/dev/");
        let s = v@.skip(i as int);
        if starts_with(s, "/dev/"@) {
            let p = s.subrange(0, 5);
            assert(p[0] == s[0] && p[1] == s[1] && p[2] == s[2] && p[3] == s[3] && p[4] == s[4]);
            assert(s[0] == v@[i as int] && s[1] == v@[i + 1] && s[2] == v@[i + 2] && s[3] == v@[i
                + 3] && s[4] == v@[i + 4]);
        }
    }
    assert(v@.subrange(i as int, v@.len() as int) =~= v@.skip(i as int));
    string_of_range(&v, i, v.len())
}

pub open spec fn spec_pwd_display(raw: Seq<char>, home: Option<Seq<char>>) -> Seq<char> {
    match home {
        Some(h) => match spec_strip_path_prefix(raw, h) {
            Some(rest) => if rest.len() == 0 {
                "~"@
            } else {
                "~/"@ + rest
            },
            None => raw,
        },
        None => raw,
    }
}

/// The working directory as found and as shown: under the home directory
/// it is shown from `~`.
pub fn pwd_info(raw: &str, home: Option<&str>) -> (r: PwdInfo)
    ensures
        r.raw@ == raw@,
        r.display@ == spec_pwd_display(
            raw@,
            match home {
                Some(h) => Some(h@),
                None => None,
            },
        ),
{
    let display = match home {
        Some(h) => match strip_path_prefix(raw, h) {
            Some(rest) => if rest.unicode_len() == 0 {
                owned("~")
            } else {
                let mut d = owned("~/");
                push_str(&mut d, rest.as_str());
                d
            },
            None => owned(raw),
        },
        None => owned(raw),
    };
    PwdInfo { raw: owned(raw), display }
}

} // verus!
