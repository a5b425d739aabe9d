//! `--copy`: which value a target names, and the interactive choice.
use crate::error::MeError;
use crate::model::{str_eq, MeInfo};
use crate::text::{opt_view, owned, parse_u64, parse_u64_str, push_str, strs, trim, trim_str};
use vstd::prelude::*;

verus! {

/// The targets offered by the prompt, in order.
pub open spec fn copy_choices() -> Seq<Seq<char>> {
    seq!["user"@, "host"@, "ssh-target"@]
}

pub open spec fn spec_copy_value(info: MeInfo, target: Seq<char>) -> Result<Seq<char>, Seq<char>> {
    if target == "user"@ {
        Ok(info.identity.user@)
    } else if target == "host"@ {
        Ok(info.identity.host@)
    } else if target == "ssh-target"@ || target == "ssh_target"@ {
        Ok(info.identity.user@ + "@"@ + info.identity.host@)
    } else if target == "public-ip"@ || target == "public_ip"@ {
        Err("public IP copy is intentionally not implemented in this local-first pass"@)
    } else {
        Err("unsupported copy target '"@ + target + "'"@)
    }
}

pub open spec fn err_text(r: Result<String, MeError>) -> Result<Seq<char>, Seq<char>> {
    match r {
        Ok(s) => Ok(s@),
        Err(MeError::Message(m)) => Err(m@),
    }
}

/// The value a copy target names.
pub fn copy_value(info: &MeInfo, target: &str) -> (r: Result<String, MeError>)
    ensures
        err_text(r) == spec_copy_value(*info, target@),
{
    if str_eq(target, "user") {
        Ok(info.identity.user.clone())
    } else if str_eq(target, "host") {
        Ok(info.identity.host.clone())
    } else if str_eq(target, "ssh-target") || str_eq(target, "ssh_target") {
        let mut r = info.identity.user.clone();
        push_str(&mut r, "@");
        push_str(&mut r, info.identity.host.as_str());
        Ok(r)
    } else if str_eq(target, "public-ip") || str_eq(target, "public_ip") {
        Err(
            MeError::message(
                "public IP copy is intentionally not implemented in this local-first pass",
            ),
        )
    } else {
        let mut m = owned("unsupported copy target '");
        push_str(&mut m, target);
        push_str(&mut m, "'");
        Err(MeError::Message(m))
    }
}

pub open spec fn spec_prompt_choice(input: Seq<char>) -> Result<Seq<char>, Seq<char>> {
    match parse_u64(trim(input)) {
        None => Err("selection must be a number"@),
        Some(n) => {
            let index = if n == 0 {
                0
            } else {
                n - 1
            };
            if index < copy_choices().len() {
                Ok(copy_choices()[index as int])
            } else {
                Err("selection out of range"@)
            }
        },
    }
}

/// The target picked by a typed menu number (1-based).
pub fn prompt_choice(input: &str) -> (r: Result<String, MeError>)
    ensures
        err_text(r) == spec_prompt_choice(input@),
{
    let t = trim_str(input);
    match parse_u64_str(t.as_str()) {
        None => Err(MeError::message("selection must be a number")),
        Some(n) => {
            let index = if n == 0 {
                0
            } else {
                n - 1
            };
            if index == 0 {
                Ok(owned("user"))
            } else if index == 1 {
                Ok(owned("host"))
            } else if index == 2 {
                Ok(owned("ssh-target"))
            } else {
                Err(MeError::message("selection out of range"))
            }
        },
    }
}

/// The target given on the command line, unless it is missing or empty, in
/// which case the user is asked.
pub fn given_target(target: Option<String>) -> (r: Option<String>)
    ensures
        opt_view(r) == match opt_view(target) {
            Some(t) => if t.len() > 0 {
                Some(t)
            } else {
                None
            },
            None => None,
        },
{
    match target {
        Some(t) => if t.unicode_len() > 0 {
            Some(t)
        } else {
            None
        },
        None => None,
    }
}

/// A program that takes text on its standard input into the clipboard.
#[derive(Debug, Clone)]
pub struct ClipboardBackend {
    pub program: String,
    pub args: Vec<String>,
}

pub open spec fn backend_view(b: ClipboardBackend) -> (Seq<char>, Seq<Seq<char>>) {
    (b.program@, strs(b.args@))
}

/// The clipboard program for a platform: `pbcopy` on macOS; on Linux
/// `wl-copy` if installed, else `xclip`; none elsewhere.
pub fn clipboard_backend(os: &str, has_wl_copy: bool, has_xclip: bool) -> (r: Result<
    ClipboardBackend,
    MeError,
>)
    ensures
        os@ == "macos"@ ==> (r matches Ok(b) && backend_view(b) == (
            "pbcopy"@,
            Seq::<Seq<char>>::empty(),
        )),
        os@ == "linux"@ && has_wl_copy ==> (r matches Ok(b) && backend_view(b) == (
            "wl-copy"@,
            Seq::<Seq<char>>::empty(),
        )),
        os@ == "linux"@ && !has_wl_copy && has_xclip ==> (r matches Ok(b) && backend_view(b) == (
            "xclip"@,
            seq!["-selection"@, "clipboard"@],
        )),
        os@ == "linux"@ && !has_wl_copy && !has_xclip ==> (r matches Err(MeError::Message(m)) && m@
            == "no clipboard backend found; install wl-copy or xclip on Linux"@),
        os@ != "macos"@ && os@ != "linux"@ ==> (r matches Err(MeError::Message(m)) && m@
            == "clipboard is not supported on this platform"@),
{
    proof {
        reveal_strlit("macos");
        reveal_strlit("linux");
        assert("macos"@[0] != "linux"@[0]);
    }
    if str_eq(os, "macos") {
        let b = ClipboardBackend { program: owned("pbcopy"), args: Vec::new() };
        assert(strs(b.args@) =~= Seq::<Seq<char>>::empty());
        return Ok(b);
    }
    if str_eq(os, "linux") {
        if has_wl_copy {
            let b = ClipboardBackend { program: owned("wl-copy"), args: Vec::new() };
            assert(strs(b.args@) =~= Seq::<Seq<char>>::empty());
            return Ok(b);
        }
        if has_xclip {
            let b = ClipboardBackend {
                program: owned("xclip"),
                args: vec![owned("-selection"), owned("clipboard")],
            };
            assert(strs(b.args@) =~= seq!["-selection"@, "clipboard"@]);
            return Ok(b);
        }
        return Err(MeError::message("no clipboard backend found; install wl-copy or xclip on Linux"));
    }
    Err(MeError::message("clipboard is not supported on this platform"))
}

} // verus!
