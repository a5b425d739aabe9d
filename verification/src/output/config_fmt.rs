//! `key = value` output, and the single-line value of each field.
use crate::model::{Field, MeInfo, field_key};
use crate::output::semantics::{
    compact_list, context_text, display_host, network_summary, spec_compact_list,
    spec_context_text, spec_display_host, spec_network_summary, ContextTextStyle,
};
use crate::output::RenderOptions;
use crate::text::{dec, dec_string, join, join_strings, lemma_join_push, opt_view, owned, push_str, strs};
use vstd::prelude::*;

verus! {

pub open spec fn yes_no(b: bool) -> Seq<char> {
    if b {
        "yes"@
    } else {
        "no"@
    }
}

/// The one-line value of a field, if it has one.
pub open spec fn spec_value_for(info: MeInfo, field: Field) -> Option<Seq<char>> {
    match field {
        Field::User => Some(info.identity.user@),
        Field::Uid => Some(dec(info.identity.uid as nat)),
        Field::Gid => Some(dec(info.identity.gid as nat)),
        Field::Groups => spec_compact_list(strs(info.identity.groups@), 3),
        Field::Host => Some(spec_display_host(info.identity.host@)),
        Field::Shell => opt_view(info.runtime.shell),
        Field::Pid => Some(dec(info.runtime.pid as nat)),
        Field::Ppid => match info.runtime.ppid {
            Some(p) => Some(dec(p as nat)),
            None => None,
        },
        Field::Tty => opt_view(info.runtime.tty),
        Field::Privilege => Some(info.privilege@),
        Field::Sudo => Some(yes_no(info.sudo)),
        Field::Ssh => Some(yes_no(info.ssh)),
        Field::Network => spec_network_summary(info.network, 1),
        Field::Pwd => match info.pwd {
            Some(p) => Some(p.display@),
            None => None,
        },
        Field::Context => spec_context_text(info, ContextTextStyle::Config),
    }
}

/// One `key = value` line per field that has a value, in the given order.
pub open spec fn config_lines(info: MeInfo, fields: Seq<Field>) -> Seq<Seq<char>>
    decreases fields.len(),
{
    if fields.len() == 0 {
        seq![]
    } else {
        let f = fields.last();
        config_lines(info, fields.drop_last()) + match spec_value_for(info, f) {
            Some(v) => seq![field_key(f) + " = "@ + v],
            None => seq![],
        }
    }
}

/// Lines joined by newlines, with a final newline; nothing when empty.
pub open spec fn spec_finish(lines: Seq<Seq<char>>) -> Seq<char> {
    if lines.len() == 0 {
        seq![]
    } else {
        join(lines, "\n"@) + "\n"@
    }
}

pub open spec fn spec_render_config(info: MeInfo, fields: Seq<Field>) -> Seq<char> {
    spec_finish(config_lines(info, fields))
}

/// `--format config`: one `key = value` line per selected field that has a value.
pub fn render_config(info: &MeInfo, fields: &[Field], _options: &RenderOptions) -> (r: String)
    ensures
        r@ == spec_render_config(*info, fields@),
{
    let mut lines: Vec<String> = Vec::new();
    let mut i: usize = 0;
    while i < fields.len()
        invariant
            i <= fields.len(),
            strs(lines@) == config_lines(*info, fields@.take(i as int)),
        decreases fields.len() - i,
    {
        let field = fields[i];
        let ghost before = strs(lines@);
        proof {
            assert(fields@.take(i + 1).drop_last() =~= fields@.take(i as int));
            assert(fields@.take(i + 1).last() == field);
        }
        if let Some(value) = value_for(info, field) {
            let mut line = owned(field.key());
            push_str(&mut line, " = ");
            push_str(&mut line, value.as_str());
            lines.push(line);
            assert(strs(lines@) =~= before.push(line@));
        } else {
            assert(before + seq![] =~= before);
        }
        i += 1;
    }
    assert(fields@.take(fields@.len() as int) =~= fields@);
    finish(lines)
}

/// The one-line value of a field, if it has one.
pub fn value_for(info: &MeInfo, field: Field) -> (r: Option<String>)
    ensures
        opt_view(r) == spec_value_for(*info, field),
{
    match field {
        Field::User => Some(info.identity.user.clone()),
        Field::Uid => Some(dec_string(info.identity.uid as u64)),
        Field::Gid => Some(dec_string(info.identity.gid as u64)),
        Field::Groups => compact_list(&info.identity.groups, 3),
        Field::Host => Some(display_host(info.identity.host.as_str())),
        Field::Shell => match &info.runtime.shell {
            Some(s) => Some(s.clone()),
            None => None,
        },
        Field::Pid => Some(dec_string(info.runtime.pid as u64)),
        Field::Ppid => match info.runtime.ppid {
            Some(p) => Some(dec_string(p as u64)),
            None => None,
        },
        Field::Tty => match &info.runtime.tty {
            Some(s) => Some(s.clone()),
            None => None,
        },
        Field::Privilege => Some(info.privilege.clone()),
        Field::Sudo => Some(
            if info.sudo {
                owned("yes")
            } else {
                owned("no")
            },
        ),
        Field::Ssh => Some(
            if info.ssh {
                owned("yes")
            } else {
                owned("no")
            },
        ),
        Field::Network => network_summary(&info.network, 1),
        Field::Pwd => match &info.pwd {
            Some(p) => Some(p.display.clone()),
            None => None,
        },
        Field::Context => context_text(info, ContextTextStyle::Config),
    }
}

/// Lines joined by newlines, with a final newline; nothing when empty.
pub fn finish(lines: Vec<String>) -> (r: String)
    ensures
        r@ == spec_finish(strs(lines@)),
{
    if lines.len() == 0 {
        String::new()
    } else {
        let mut r = join_strings(&lines, "\n");
        push_str(&mut r, "\n");
        r
    }
}

} // verus!
