//! One-line output joined by ` · `.
use crate::model::{default_fields, Field, MeInfo};
use crate::output::config_fmt::{spec_value_for, value_for};
use crate::output::semantics::{
    compact_cwd_name, compact_env_label, compact_project_parts, display_host, display_user,
    spec_compact_cwd_name, spec_compact_env_label, spec_compact_project_parts, spec_display_host,
    spec_display_user,
};
use crate::text::{join, join_strings, push_str, strs};
use vstd::prelude::*;

verus! {

/// Whether `f` is among `fields`.
pub fn fields_contain(fields: &[Field], f: Field) -> (r: bool)
    ensures
        r == fields@.contains(f),
{
    let mut i: usize = 0;
    while i < fields.len()
        invariant
            i <= fields.len(),
            forall|j: int| 0 <= j < i ==> fields@[j] != f,
        decreases fields.len() - i,
    {
        if fields[i] == f {
            assert(fields@[i as int] == f);
            return true;
        }
        i += 1;
    }
    false
}

/// Whether two field lists are equal.
pub fn fields_eq(a: &[Field], b: &[Field]) -> (r: bool)
    ensures
        r == (a@ == b@),
{
    if a.len() != b.len() {
        return false;
    }
    let mut i: usize = 0;
    while i < a.len()
        invariant
            a.len() == b.len(),
            i <= a.len(),
            forall|j: int| 0 <= j < i ==> a@[j] == b@[j],
        decreases a.len() - i,
    {
        if a[i] != b[i] {
            return false;
        }
        i += 1;
    }
    assert(a@ =~= b@);
    true
}

pub open spec fn is_identity_field(f: Field) -> bool {
    f is User || f is Host
}

/// Values of the selected fields, skipping user and host when they are
/// already shown together.
pub open spec fn subset_parts(info: MeInfo, fields: Seq<Field>, combined: bool) -> Seq<Seq<char>>
    decreases fields.len(),
{
    if fields.len() == 0 {
        seq![]
    } else {
        let f = fields.last();
        subset_parts(info, fields.drop_last(), combined) + if combined && is_identity_field(f) {
            seq![]
        } else {
            match spec_value_for(info, f) {
                Some(v) => seq![v],
                None => seq![],
            }
        }
    }
}

pub open spec fn spec_compact_identity(info: MeInfo) -> Seq<char> {
    spec_display_user(info) + "@"@ + spec_display_host(info.identity.host@)
}

pub open spec fn compact_parts(info: MeInfo, fields: Seq<Field>) -> Seq<Seq<char>> {
    if fields != default_fields() {
        let combined = fields.contains(Field::User) && fields.contains(Field::Host);
        (if combined {
            seq![info.identity.user@ + "@"@ + spec_display_host(info.identity.host@)]
        } else {
            seq![]
        }) + subset_parts(info, fields, combined)
    } else {
        seq![spec_compact_identity(info), spec_compact_env_label(info)]
            + spec_compact_project_parts(info) + match spec_compact_cwd_name(info) {
            Some(c) => seq![c],
            None => seq![],
        }
    }
}

pub open spec fn spec_render_compact(info: MeInfo, fields: Seq<Field>) -> Seq<char> {
    join(compact_parts(info, fields), " · "@) + "\n"@
}

/// Compact output. With the default fields: identity, environment, project
/// items and the working directory's name; with a selection: the selected
/// values, user and host joined as `user@host` when both are selected.
pub fn render_compact(info: &MeInfo, fields: &[Field]) -> (r: String)
    ensures
        r@ == spec_render_compact(*info, fields@),
{
    let defaults = Field::defaults();
    let requested_subset = !fields_eq(fields, defaults.as_slice());
    let mut parts: Vec<String> = Vec::new();
    if requested_subset {
        let combined_identity = fields_contain(fields, Field::User) && fields_contain(
            fields,
            Field::Host,
        );
        if combined_identity {
            let mut id = info.identity.user.clone();
            push_str(&mut id, "@");
            let h = display_host(info.identity.host.as_str());
            push_str(&mut id, h.as_str());
            parts.push(id);
        }
        let ghost head = strs(parts@);
        let mut i: usize = 0;
        while i < fields.len()
            invariant
                i <= fields.len(),
                strs(parts@) == head + subset_parts(*info, fields@.take(i as int), combined_identity),
            decreases fields.len() - i,
        {
            let field = fields[i];
            let ghost before = strs(parts@);
            proof {
                assert(fields@.take(i + 1).drop_last() =~= fields@.take(i as int));
                assert(fields@.take(i + 1).last() == field);
            }
            if combined_identity && (field == Field::User || field == Field::Host) {
                assert(before + seq![] =~= before);
            } else if let Some(value) = value_for(info, field) {
                parts.push(value);
                assert(strs(parts@) =~= before.push(value@));
            } else {
                assert(before + seq![] =~= before);
            }
            i += 1;
        }
        assert(fields@.take(fields@.len() as int) =~= fields@);
        assert(strs(parts@) =~= compact_parts(*info, fields@));
    } else {
        parts.push(compact_identity(info));
        parts.push(compact_env_label(info));
        let projects = compact_project_parts(info);
        let mut i: usize = 0;
        let ghost head = strs(parts@);
        while i < projects.len()
            invariant
                i <= projects.len(),
                strs(parts@) == head + strs(projects@).take(i as int),
            decreases projects.len() - i,
        {
            let ghost before = strs(parts@);
            let item = projects[i].clone();
            parts.push(item);
            assert(strs(parts@) =~= before.push(item@));
            assert(strs(projects@).take(i + 1) =~= strs(projects@).take(i as int).push(item@));
            assert(strs(parts@) =~= head + strs(projects@).take(i + 1));
            i += 1;
        }
        assert(strs(projects@).take(projects@.len() as int) =~= strs(projects@));
        let ghost mid = strs(parts@);
        if let Some(cwd) = compact_cwd_name(info) {
            parts.push(cwd);
            assert(strs(parts@) =~= mid.push(cwd@));
        } else {
            assert(mid + seq![] =~= mid);
        }
        assert(strs(parts@) =~= compact_parts(*info, fields@));
    }
    let mut out = join_strings(&parts, " · ");
    push_str(&mut out, "\n");
    out
}

/// `user@host` with `root` for uid 0 and without `.local`.
pub fn compact_identity(info: &MeInfo) -> (r: String)
    ensures
        r@ == spec_compact_identity(*info),
{
    let mut r = display_user(info);
    push_str(&mut r, "@");
    let h = display_host(info.identity.host.as_str());
    push_str(&mut r, h.as_str());
    r
}

} // verus!
