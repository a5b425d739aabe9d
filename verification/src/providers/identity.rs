//! Who runs the process: names for the user and groups, with the numeric
//! ids where no name is known.
use crate::model::{ContextInfo, MeInfo, NetworkInfo, PwdInfo, RuntimeInfo, SystemIdentity};
use crate::text::{dec, dec_string, opt_view, owned, strs};
use vstd::prelude::*;

verus! {

/// A name, or the id in decimal when there is none.
pub open spec fn name_or_id(name: Option<Seq<char>>, id: u32) -> Seq<char> {
    match name {
        Some(n) => n,
        None => dec(id as nat),
    }
}

fn name_or_id_exec(name: Option<String>, id: u32) -> (r: String)
    ensures
        r@ == name_or_id(opt_view(name), id),
{
    match name {
        Some(n) => n,
        None => dec_string(id as u64),
    }
}

/// The identity from the ids and what the system databases gave: the
/// user's name (else the uid), each group's name (else its gid), and the
/// host name (else `unknown-host`).
pub fn identity_from(
    uid: u32,
    gid: u32,
    user_name: Option<String>,
    groups: Vec<(u32, Option<String>)>,
    host: Option<String>,
) -> (r: SystemIdentity)
    ensures
        r.uid == uid,
        r.gid == gid,
        r.user@ == name_or_id(opt_view(user_name), uid),
        strs(r.groups@) == groups@.map_values(
            |g: (u32, Option<String>)| name_or_id(opt_view(g.1), g.0),
        ),
        r.host@ == match host {
            Some(h) => h@,
            None => "unknown-host"@,
        },
{
    let ghost gv = groups@;
    let mut names: Vec<String> = Vec::new();
    let mut rest = groups;
    let mut i: usize = 0;
    let n = rest.len();
    while i < n
        invariant
            i <= n,
            n == gv.len(),
            rest@ == gv.skip(i as int),
            strs(names@) == gv.take(i as int).map_values(
                |g: (u32, Option<String>)| name_or_id(opt_view(g.1), g.0),
            ),
        decreases n - i,
    {
        let (id, name) = rest.remove(0);
        assert(gv[i as int] == (id, name));
        let s = name_or_id_exec(name, id);
        let ghost before = strs(names@);
        names.push(s);
        proof {
            assert(strs(names@) =~= before.push(s@));
            assert(gv.take(i + 1).map_values(
                |g: (u32, Option<String>)| name_or_id(opt_view(g.1), g.0),
            ) =~= gv.take(i as int).map_values(
                |g: (u32, Option<String>)| name_or_id(opt_view(g.1), g.0),
            ).push(name_or_id(opt_view(gv[i as int].1), gv[i as int].0)));
            assert(rest@ =~= gv.skip(i + 1));
        }
        i += 1;
    }
    assert(gv.take(n as int) =~= gv);
    SystemIdentity {
        user: name_or_id_exec(user_name, uid),
        uid,
        gid,
        groups: names,
        host: match host {
            Some(h) => h,
            None => owned("unknown-host"),
        },
    }
}

/// The whole report: root when the uid is 0, sudo when `SUDO_USER` or
/// `SUDO_UID` is set, and SSH when a remote session was detected.
pub fn me_info(
    identity: SystemIdentity,
    runtime: RuntimeInfo,
    context: ContextInfo,
    sudo_set: bool,
    network: NetworkInfo,
    pwd: Option<PwdInfo>,
) -> (r: MeInfo)
    ensures
        r.identity == identity,
        r.runtime == runtime,
        r.context == context,
        r.network == network,
        r.pwd == pwd,
        r.privilege@ == (if identity.uid == 0 {
            "root"@
        } else {
            "user"@
        }),
        r.sudo == sudo_set,
        r.ssh == context.ssh is Some,
{
    let privilege = if identity.uid == 0 {
        owned("root")
    } else {
        owned("user")
    };
    let ssh = context.ssh.is_some();
    MeInfo { identity, runtime, privilege, sudo: sudo_set, ssh, network, pwd, context }
}

} // verus!
