//! Grouped multi-line output: identity, system, session, network, location.
use crate::model::{clone_strings, field_key, Field, MeInfo};
use crate::output::compact::fields_contain;
use crate::output::config_fmt::{spec_value_for, value_for};
use crate::output::semantics::{
    compact_list, context_text, spec_compact_list, spec_context_text, ContextTextStyle,
};
use crate::output::RenderOptions;
use crate::text::{
    join, join_strings, lemma_join_push, opt_view, owned, pad_right, push_char, push_str, spaces,
    strs, trim_end, trim_end_str,
};
use owo_colors::OwoColorize;
use vstd::prelude::*;

verus! {

/// One row as the spec sees it: key, whether it spans several lines, values.
pub type RowText = (Seq<char>, bool, Seq<Seq<char>>);

/// A group as the spec sees it: heading key and rows.
pub type GroupText = (Seq<char>, Seq<RowText>);

/// The value of a row: one line, or one line per item.
pub enum RowValue {
    Single(String),
    Multi(Vec<String>),
}

/// A labelled row of a group.
pub struct Row {
    pub key: String,
    pub value: RowValue,
}

/// A titled group of rows.
pub struct Group {
    pub key: String,
    pub rows: Vec<Row>,
}

pub open spec fn row_view(r: Row) -> RowText {
    match r.value {
        RowValue::Single(v) => (r.key@, false, seq![v@]),
        RowValue::Multi(vs) => (r.key@, true, strs(vs@)),
    }
}

pub open spec fn rows_view(rs: Seq<Row>) -> Seq<RowText> {
    rs.map_values(|r: Row| row_view(r))
}

/// The ANSI escape that starts faint text.
pub open spec fn faint_on() -> Seq<char> {
    seq!['\u{1b}', '[', '2', 'm']
}

/// The ANSI escape that resets text attributes.
pub open spec fn reset() -> Seq<char> {
    seq!['\u{1b}', '[', '0', 'm']
}

pub open spec fn dim(s: Seq<char>) -> Seq<char> {
    faint_on() + s + reset()
}

/// `OwoColorize::dimmed` displayed: the text between the escape that turns
/// on faint text and the one that resets attributes, as owo-colors writes them.
#[verifier::external_body]
pub(crate) fn dimmed(s: &str) -> (r: String)
    ensures
        r@ == dim(s@),
{
    s.dimmed().to_string()
}

// ---------------------------------------------------------------------------
// Rows of each group
// ---------------------------------------------------------------------------

/// A single-line row for each listed field that has a value.
pub open spec fn value_rows(info: MeInfo, fs: Seq<Field>) -> Seq<RowText>
    decreases fs.len(),
{
    if fs.len() == 0 {
        seq![]
    } else {
        value_rows(info, fs.drop_last()) + match spec_value_for(info, fs.last()) {
            Some(v) => seq![(field_key(fs.last()), false, seq![v])],
            None => seq![],
        }
    }
}

pub open spec fn identity_fields() -> Seq<Field> {
    seq![Field::User, Field::Host, Field::Shell]
}

pub open spec fn system_fields() -> Seq<Field> {
    seq![Field::Uid, Field::Gid, Field::Groups, Field::Pid, Field::Ppid, Field::Tty]
}

pub open spec fn session_fields() -> Seq<Field> {
    seq![Field::Privilege, Field::Sudo, Field::Ssh]
}

pub open spec fn network_fields() -> Seq<Field> {
    seq![Field::Network]
}

pub open spec fn location_fields() -> Seq<Field> {
    seq![Field::Pwd, Field::Context]
}

pub open spec fn groups_rows(info: MeInfo, fields: Seq<Field>, full: bool) -> Seq<RowText> {
    if !fields.contains(Field::Groups) {
        seq![]
    } else if full {
        if info.identity.groups@.len() > 0 {
            seq![("groups"@, true, strs(info.identity.groups@))]
        } else {
            seq![]
        }
    } else {
        match spec_compact_list(strs(info.identity.groups@), 3) {
            Some(g) => seq![("groups"@, false, seq![g])],
            None => seq![],
        }
    }
}

pub open spec fn family_rows(key: Seq<char>, ips: Seq<Seq<char>>, full: bool) -> Seq<RowText> {
    if ips.len() == 0 {
        seq![]
    } else if full {
        seq![(key, true, ips)]
    } else {
        match spec_compact_list(ips, 1) {
            Some(s) => seq![(key, false, seq![s])],
            None => seq![],
        }
    }
}

pub open spec fn identity_rows(info: MeInfo) -> Seq<RowText> {
    value_rows(info, identity_fields())
}

pub open spec fn system_rows(info: MeInfo, fields: Seq<Field>, full: bool) -> Seq<RowText> {
    value_rows(info, seq![Field::Uid, Field::Gid]) + groups_rows(info, fields, full) + value_rows(
        info,
        seq![Field::Pid, Field::Ppid, Field::Tty],
    )
}

pub open spec fn session_rows(info: MeInfo) -> Seq<RowText> {
    value_rows(info, session_fields())
}

pub open spec fn network_rows(info: MeInfo, full: bool) -> Seq<RowText> {
    family_rows("ipv4"@, strs(info.network.ipv4_local_ips@), full) + family_rows(
        "ipv6"@,
        strs(info.network.ipv6_local_ips@),
        full,
    )
}

pub open spec fn location_rows(info: MeInfo, fields: Seq<Field>) -> Seq<RowText> {
    value_rows(info, seq![Field::Pwd]) + if fields.contains(Field::Context) {
        match spec_context_text(info, ContextTextStyle::Block) {
            Some(c) => seq![("context"@, false, seq![c])],
            None => seq![],
        }
    } else {
        seq![]
    }
}

pub open spec fn any_requested(fields: Seq<Field>, group_fields: Seq<Field>) -> bool {
    exists|i: int| 0 <= i < group_fields.len() && fields.contains(#[trigger] group_fields[i])
}

/// A group is shown when one of its fields is requested and it has rows.
pub open spec fn spec_filter_group(
    key: Seq<char>,
    rows: Seq<RowText>,
    fields: Seq<Field>,
    group_fields: Seq<Field>,
) -> Option<GroupText> {
    if any_requested(fields, group_fields) && rows.len() > 0 {
        Some((key, rows))
    } else {
        None
    }
}

/// The five groups in their fixed order.
pub open spec fn spec_groups(info: MeInfo, fields: Seq<Field>, options: RenderOptions) -> Seq<
    Option<GroupText>,
> {
    seq![
        spec_filter_group("identity"@, identity_rows(info), fields, identity_fields()),
        spec_filter_group("system"@, system_rows(info, fields, options.full), fields, system_fields()),
        spec_filter_group("session"@, session_rows(info), fields, session_fields()),
        if fields.contains(Field::Network) {
            spec_filter_group("network"@, network_rows(info, options.full), fields, network_fields())
        } else {
            None
        },
        spec_filter_group("location"@, location_rows(info, fields), fields, location_fields()),
    ]
}

// ---------------------------------------------------------------------------
// Rendering
// ---------------------------------------------------------------------------

/// The widest non-empty row key.
pub open spec fn max_key_len(rows: Seq<RowText>) -> nat
    decreases rows.len(),
{
    if rows.len() == 0 {
        0
    } else {
        let m = max_key_len(rows.drop_last());
        let k = rows.last().0.len();
        if k > m {
            k
        } else {
            m
        }
    }
}

/// Each value on its own line after `prefix`.
pub open spec fn prefixed_lines(prefix: Seq<char>, vals: Seq<Seq<char>>) -> Seq<char>
    decreases vals.len(),
{
    if vals.len() == 0 {
        seq![]
    } else {
        prefixed_lines(prefix, vals.drop_last()) + prefix + vals.last() + "\n"@
    }
}

pub open spec fn maybe_dim(s: Seq<char>, color: bool) -> Seq<char> {
    if color {
        dim(s)
    } else {
        s
    }
}

pub open spec fn row_text(row: RowText, width: nat, color: bool) -> Seq<char> {
    let (key, multi, vals) = row;
    if !multi {
        maybe_dim("  "@ + pad_right(key + ":"@, width + 1), color) + "  "@ + vals[0] + "\n"@
    } else if key.len() == 0 {
        prefixed_lines("  "@, vals)
    } else {
        maybe_dim("  "@ + key + ":"@, color) + "\n"@ + prefixed_lines("    "@, vals)
    }
}

pub open spec fn rows_text(rows: Seq<RowText>, width: nat, color: bool) -> Seq<char>
    decreases rows.len(),
{
    if rows.len() == 0 {
        seq![]
    } else {
        rows_text(rows.drop_last(), width, color) + row_text(rows.last(), width, color)
    }
}

pub open spec fn spec_render_group(group: GroupText, color: bool) -> Seq<char> {
    let (key, rows) = group;
    trim_end(maybe_dim(key + ":"@, color) + "\n"@ + rows_text(rows, max_key_len(rows), color))
}

/// The rendered groups that are shown, in order.
pub open spec fn rendered_groups(groups: Seq<Option<GroupText>>, color: bool) -> Seq<Seq<char>>
    decreases groups.len(),
{
    if groups.len() == 0 {
        seq![]
    } else {
        rendered_groups(groups.drop_last(), color) + match groups.last() {
            Some(g) => seq![spec_render_group(g, color)],
            None => seq![],
        }
    }
}

pub open spec fn spec_render_block(info: MeInfo, fields: Seq<Field>, options: RenderOptions) -> Seq<char> {
    let rendered = rendered_groups(spec_groups(info, fields, options), options.color);
    if rendered.len() == 0 {
        seq![]
    } else {
        join(rendered, "\n\n"@) + "\n"@
    }
}

/// Block output: the shown groups separated by blank lines.
pub fn render_block(info: &MeInfo, fields: &[Field], options: &RenderOptions) -> (r: String)
    ensures
        r@ == spec_render_block(*info, fields@, *options),
{
    let groups = [
        identity_group(info, fields),
        system_group(info, fields, options),
        session_group(info, fields),
        network_group(info, fields, options),
        location_group(info, fields),
    ];
    let ghost gs = spec_groups(*info, fields@, *options);
    let mut rendered: Vec<String> = Vec::new();
    let mut i: usize = 0;
    while i < 5
        invariant
            i <= 5,
            gs == spec_groups(*info, fields@, *options),
            forall|j: int| 0 <= j < 5 ==> #[trigger] group_opt_view(groups@[j]) == gs[j],
            strs(rendered@) == rendered_groups(gs.take(i as int), options.color),
        decreases 5 - i,
    {
        let ghost before = strs(rendered@);
        proof {
            assert(gs.take(i + 1).drop_last() =~= gs.take(i as int));
            assert(gs.take(i + 1).last() == gs[i as int]);
        }
        assert(group_opt_view(groups@[i as int]) == gs[i as int]);
        match &groups[i] {
            Some(g) => {
                assert(gs[i as int] == Some((g.key@, rows_view(g.rows@))));
                let t = render_group(g, options);
                rendered.push(t);
                assert(strs(rendered@) =~= before.push(t@));
            },
            None => {
                assert(before + seq![] =~= before);
            },
        }
        i += 1;
    }
    assert(gs.take(5) =~= gs);
    if rendered.len() == 0 {
        String::new()
    } else {
        let mut r = join_strings(&rendered, "\n\n");
        push_str(&mut r, "\n");
        r
    }
}

pub open spec fn group_opt_view(g: Option<Group>) -> Option<GroupText> {
    match g {
        Some(g) => Some((g.key@, rows_view(g.rows@))),
        None => None,
    }
}

/// Appends a row for `field` when it has a value.
fn push_value_row(rows: &mut Vec<Row>, info: &MeInfo, field: Field)
    ensures
        rows_view(final(rows)@) == rows_view(old(rows)@) + match spec_value_for(*info, field) {
            Some(v) => seq![(field_key(field), false, seq![v])],
            None => seq![],
        },
{
    let ghost before = rows_view(rows@);
    if let Some(value) = value_for(info, field) {
        rows.push(Row { key: owned(field.key()), value: RowValue::Single(value) });
        assert(rows_view(rows@) =~= before.push((field_key(field), false, seq![value@])));
    } else {
        assert(rows_view(rows@) =~= before + seq![]);
    }
}

/// Whether any of the group's fields is requested.
fn any_field_requested(fields: &[Field], group_fields: &[Field]) -> (r: bool)
    ensures
        r == any_requested(fields@, group_fields@),
{
    let mut i: usize = 0;
    while i < group_fields.len()
        invariant
            i <= group_fields.len(),
            forall|j: int| 0 <= j < i ==> !fields@.contains(#[trigger] group_fields@[j]),
        decreases group_fields.len() - i,
    {
        if fields_contain(fields, group_fields[i]) {
            return true;
        }
        i += 1;
    }
    false
}

/// The group, when one of its fields is requested and it has rows.
fn filter_group(key: &str, rows: Vec<Row>, fields: &[Field], group_fields: &[Field]) -> (r: Option<
    Group,
>)
    ensures
        group_opt_view(r) == spec_filter_group(key@, rows_view(rows@), fields@, group_fields@),
{
    if any_field_requested(fields, group_fields) && rows.len() > 0 {
        Some(Group { key: owned(key), rows })
    } else {
        None
    }
}

fn identity_group(info: &MeInfo, fields: &[Field]) -> (r: Option<Group>)
    ensures
        group_opt_view(r) == spec_filter_group("identity"@, identity_rows(*info), fields@, identity_fields()),
{
    let mut rows: Vec<Row> = Vec::new();
    push_value_row(&mut rows, info, Field::User);
    push_value_row(&mut rows, info, Field::Host);
    push_value_row(&mut rows, info, Field::Shell);
    proof {
        reveal_with_fuel(value_rows, 4);
        assert(identity_fields().drop_last() =~= seq![Field::User, Field::Host]);
        assert(seq![Field::User, Field::Host].drop_last() =~= seq![Field::User]);
        assert(seq![Field::User].drop_last() =~= Seq::<Field>::empty());
        assert(rows_view(rows@) =~= identity_rows(*info));
    }
    let gf = [Field::User, Field::Host, Field::Shell];
    assert(gf@ =~= identity_fields());
    filter_group("identity", rows, fields, &gf)
}

fn system_group(info: &MeInfo, fields: &[Field], options: &RenderOptions) -> (r: Option<Group>)
    ensures
        group_opt_view(r) == spec_filter_group(
            "system"@,
            system_rows(*info, fields@, options.full),
            fields@,
            system_fields(),
        ),
{
    let mut rows: Vec<Row> = Vec::new();
    push_value_row(&mut rows, info, Field::Uid);
    push_value_row(&mut rows, info, Field::Gid);
    let ghost first = rows_view(rows@);
    proof {
        reveal_with_fuel(value_rows, 3);
        assert(seq![Field::Uid, Field::Gid].drop_last() =~= seq![Field::Uid]);
        assert(seq![Field::Uid].drop_last() =~= Seq::<Field>::empty());
        assert(first =~= value_rows(*info, seq![Field::Uid, Field::Gid]));
    }
    if fields_contain(fields, Field::Groups) {
        if options.full {
            if info.identity.groups.len() > 0 {
                rows.push(
                    Row {
                        key: owned("groups"),
                        value: RowValue::Multi(clone_strings(&info.identity.groups)),
                    },
                );
            }
        } else if let Some(groups) = compact_list(&info.identity.groups, 3) {
            rows.push(Row { key: owned("groups"), value: RowValue::Single(groups) });
        }
    }
    proof {
        assert(rows_view(rows@) =~= first + groups_rows(*info, fields@, options.full));
    }
    let ghost second = rows_view(rows@);
    push_value_row(&mut rows, info, Field::Pid);
    push_value_row(&mut rows, info, Field::Ppid);
    push_value_row(&mut rows, info, Field::Tty);
    proof {
        reveal_with_fuel(value_rows, 4);
        let tail = seq![Field::Pid, Field::Ppid, Field::Tty];
        assert(tail.drop_last() =~= seq![Field::Pid, Field::Ppid]);
        assert(seq![Field::Pid, Field::Ppid].drop_last() =~= seq![Field::Pid]);
        assert(seq![Field::Pid].drop_last() =~= Seq::<Field>::empty());
        assert(rows_view(rows@) =~= second + value_rows(*info, tail));
        assert(rows_view(rows@) =~= system_rows(*info, fields@, options.full));
    }
    let gf = [Field::Uid, Field::Gid, Field::Groups, Field::Pid, Field::Ppid, Field::Tty];
    assert(gf@ =~= system_fields());
    filter_group("system", rows, fields, &gf)
}

fn session_group(info: &MeInfo, fields: &[Field]) -> (r: Option<Group>)
    ensures
        group_opt_view(r) == spec_filter_group("session"@, session_rows(*info), fields@, session_fields()),
{
    let mut rows: Vec<Row> = Vec::new();
    push_value_row(&mut rows, info, Field::Privilege);
    push_value_row(&mut rows, info, Field::Sudo);
    push_value_row(&mut rows, info, Field::Ssh);
    proof {
        reveal_with_fuel(value_rows, 4);
        assert(session_fields().drop_last() =~= seq![Field::Privilege, Field::Sudo]);
        assert(seq![Field::Privilege, Field::Sudo].drop_last() =~= seq![Field::Privilege]);
        assert(seq![Field::Privilege].drop_last() =~= Seq::<Field>::empty());
        assert(rows_view(rows@) =~= session_rows(*info));
    }
    let gf = [Field::Privilege, Field::Sudo, Field::Ssh];
    assert(gf@ =~= session_fields());
    filter_group("session", rows, fields, &gf)
}

/// Appends the row of one address family, when it has addresses.
fn push_family_row(rows: &mut Vec<Row>, key: &str, ips: &Vec<String>, full: bool)
    ensures
        rows_view(final(rows)@) == rows_view(old(rows)@) + family_rows(key@, strs(ips@), full),
{
    let ghost before = rows_view(rows@);
    if ips.len() == 0 {
        assert(rows_view(rows@) =~= before + seq![]);
    } else if full {
        rows.push(Row { key: owned(key), value: RowValue::Multi(clone_strings(ips)) });
        assert(rows_view(rows@) =~= before + family_rows(key@, strs(ips@), full));
    } else {
        match compact_list(ips, 1) {
            Some(s) => {
                rows.push(Row { key: owned(key), value: RowValue::Single(s) });
                assert(rows_view(rows@) =~= before + family_rows(key@, strs(ips@), full));
            },
            None => {
                assert(rows_view(rows@) =~= before + seq![]);
            },
        }
    }
}

fn network_group(info: &MeInfo, fields: &[Field], options: &RenderOptions) -> (r: Option<Group>)
    ensures
        group_opt_view(r) == if fields@.contains(Field::Network) {
            spec_filter_group("network"@, network_rows(*info, options.full), fields@, network_fields())
        } else {
            None
        },
{
    if !fields_contain(fields, Field::Network) {
        return None;
    }
    let mut rows: Vec<Row> = Vec::new();
    push_family_row(&mut rows, "ipv4", &info.network.ipv4_local_ips, options.full);
    push_family_row(&mut rows, "ipv6", &info.network.ipv6_local_ips, options.full);
    assert(rows_view(rows@) =~= network_rows(*info, options.full));
    let gf = [Field::Network];
    assert(gf@ =~= network_fields());
    filter_group("network", rows, fields, &gf)
}

fn location_group(info: &MeInfo, fields: &[Field]) -> (r: Option<Group>)
    ensures
        group_opt_view(r) == spec_filter_group("location"@, location_rows(*info, fields@), fields@, location_fields()),
{
    let mut rows: Vec<Row> = Vec::new();
    push_value_row(&mut rows, info, Field::Pwd);
    let ghost first = rows_view(rows@);
    proof {
        reveal_with_fuel(value_rows, 2);
        assert(seq![Field::Pwd].drop_last() =~= Seq::<Field>::empty());
        assert(first =~= value_rows(*info, seq![Field::Pwd]));
    }
    if fields_contain(fields, Field::Context) {
        if let Some(context) = context_text(info, ContextTextStyle::Block) {
            rows.push(Row { key: owned("context"), value: RowValue::Single(context) });
        }
    }
    assert(rows_view(rows@) =~= location_rows(*info, fields@));
    let gf = [Field::Pwd, Field::Context];
    assert(gf@ =~= location_fields());
    filter_group("location", rows, fields, &gf)
}

/// Appends each value on its own line after `prefix`.
fn push_prefixed_lines(out: &mut String, prefix: &str, vals: &Vec<String>)
    ensures
        final(out)@ == old(out)@ + prefixed_lines(prefix@, strs(vals@)),
{
    let mut i: usize = 0;
    let ghost start = out@;
    assert(strs(vals@).take(0) =~= Seq::<Seq<char>>::empty());
    while i < vals.len()
        invariant
            i <= vals.len(),
            out@ == start + prefixed_lines(prefix@, strs(vals@).take(i as int)),
        decreases vals.len() - i,
    {
        proof {
            let t = strs(vals@).take(i + 1);
            assert(t.drop_last() =~= strs(vals@).take(i as int));
            assert(t.last() == vals@[i as int]@);
        }
        push_str(out, prefix);
        push_str(out, vals[i].as_str());
        push_str(out, "\n");
        i += 1;
    }
    assert(strs(vals@).take(vals@.len() as int) =~= strs(vals@));
}

/// Appends `s`, faint when colored.
fn push_maybe_dim(out: &mut String, s: &str, color: bool)
    ensures
        final(out)@ == old(out)@ + maybe_dim(s@, color),
{
    if color {
        let d = dimmed(s);
        push_str(out, d.as_str());
    } else {
        push_str(out, s);
    }
}

/// `key:` padded to `width + 1` characters.
fn pad_label(key: &str, width: usize) -> (r: String)
    requires
        key@.len() <= width,
    ensures
        r@ == pad_right(key@ + ":"@, width as nat + 1),
{
    let mut label = owned(key);
    push_str(&mut label, ":");
    let n = key.unicode_len();
    let mut k = n;
    proof {
        reveal_strlit(":");
        assert(label@ =~= key@ + ":"@ + spaces(0));
    }
    while k < width
        invariant
            n == key@.len(),
            n <= k <= width,
            label@ == key@ + ":"@ + spaces((k - n) as nat),
        decreases width - k,
    {
        push_char(&mut label, ' ');
        k += 1;
        assert(label@ =~= key@ + ":"@ + spaces((k - n) as nat));
    }
    proof {
        reveal_strlit(":");
        let l = key@ + ":"@;
        assert(l.len() == n + 1);
        if l.len() < width + 1 {
            assert(label@ =~= l + spaces((width + 1 - l.len()) as nat));
        } else {
            assert(label@ =~= l);
        }
    }
    label
}

/// Every row key fits within the widest.
proof fn lemma_max_key_len(rows: Seq<RowText>, j: int)
    requires
        0 <= j < rows.len(),
    ensures
        rows[j].0.len() <= max_key_len(rows),
    decreases rows.len(),
{
    if j < rows.len() - 1 {
        lemma_max_key_len(rows.drop_last(), j);
        assert(rows.drop_last()[j] == rows[j]);
    }
}

fn push_row(out: &mut String, row: &Row, width: usize, color: bool)
    requires
        row.key@.len() <= width,
    ensures
        final(out)@ == old(out)@ + row_text(row_view(*row), width as nat, color),
{
    match &row.value {
        RowValue::Single(value) => {
            let padded_label = pad_label(row.key.as_str(), width);
            let mut padded = owned("  ");
            push_str(&mut padded, padded_label.as_str());
            push_maybe_dim(out, padded.as_str(), color);
            push_str(out, "  ");
            push_str(out, value.as_str());
            push_str(out, "\n");
        },
        RowValue::Multi(values) => {
            if row.key.unicode_len() == 0 {
                push_prefixed_lines(out, "  ", values);
            } else {
                let mut label = owned("  ");
                push_str(&mut label, row.key.as_str());
                push_str(&mut label, ":");
                push_maybe_dim(out, label.as_str(), color);
                push_str(out, "\n");
                push_prefixed_lines(out, "    ", values);
            }
        },
    }
}

/// One group: its heading, then its rows with labels aligned.
fn render_group(group: &Group, options: &RenderOptions) -> (r: String)
    ensures
        r@ == spec_render_group((group.key@, rows_view(group.rows@)), options.color),
{
    let mut out = String::new();
    let mut heading = group.key.clone();
    push_str(&mut heading, ":");
    push_maybe_dim(&mut out, heading.as_str(), options.color);
    push_str(&mut out, "\n");
    let ghost rv = rows_view(group.rows@);
    let mut width: usize = 0;
    let mut i: usize = 0;
    while i < group.rows.len()
        invariant
            i <= group.rows.len(),
            rv == rows_view(group.rows@),
            width as nat == max_key_len(rv.take(i as int)),
        decreases group.rows.len() - i,
    {
        proof {
            assert(rv.take(i + 1).drop_last() =~= rv.take(i as int));
            assert(rv.take(i + 1).last() == row_view(group.rows@[i as int]));
        }
        let k = group.rows[i].key.unicode_len();
        if k > width {
            width = k;
        }
        i += 1;
    }
    assert(rv.take(group.rows@.len() as int) =~= rv);
    let ghost head = out@;
    let mut j: usize = 0;
    while j < group.rows.len()
        invariant
            j <= group.rows.len(),
            rv == rows_view(group.rows@),
            width as nat == max_key_len(rv),
            out@ == head + rows_text(rv.take(j as int), width as nat, options.color),
        decreases group.rows.len() - j,
    {
        proof {
            assert(rv.take(j + 1).drop_last() =~= rv.take(j as int));
            assert(rv.take(j + 1).last() == row_view(group.rows@[j as int]));
        }
        proof {
            lemma_max_key_len(rv, j as int);
        }
        push_row(&mut out, &group.rows[j], width, options.color);
        j += 1;
    }
    assert(rv.take(group.rows@.len() as int) =~= rv);
    trim_end_str(out.as_str())
}

/// The keys of rows, in order.
pub open spec fn row_keys(rows: Seq<RowText>) -> Seq<Seq<char>> {
    rows.map_values(|r: RowText| r.0)
}

/// Which groups are shown, in order, and the keys of their rows.
pub open spec fn layout(groups: Seq<Option<GroupText>>) -> Seq<Option<(Seq<char>, Seq<Seq<char>>)>> {
    groups.map_values(
        |g: Option<GroupText>|
            match g {
                Some(x) => Some((x.0, row_keys(x.1))),
                None => None,
            },
    )
}

proof fn lemma_row_keys_concat(a: Seq<RowText>, b: Seq<RowText>)
    ensures
        row_keys(a + b) == row_keys(a) + row_keys(b),
{
    assert(row_keys(a + b) =~= row_keys(a) + row_keys(b));
}

/// `--full` keeps the grouped layout: the same groups, in the same order,
/// with the same rows; only how much of each value is shown changes.
pub proof fn lemma_full_keeps_layout(info: MeInfo, fields: Seq<Field>, options: RenderOptions)
    ensures
        layout(spec_groups(info, fields, RenderOptions { full: true, ..options })) == layout(
            spec_groups(info, fields, RenderOptions { full: false, ..options }),
        ),
{
    let full = RenderOptions { full: true, ..options };
    let dense = RenderOptions { full: false, ..options };
    let head = value_rows(info, seq![Field::Uid, Field::Gid]);
    let tail = value_rows(info, seq![Field::Pid, Field::Ppid, Field::Tty]);
    lemma_row_keys_concat(head, groups_rows(info, fields, true));
    lemma_row_keys_concat(head + groups_rows(info, fields, true), tail);
    lemma_row_keys_concat(head, groups_rows(info, fields, false));
    lemma_row_keys_concat(head + groups_rows(info, fields, false), tail);
    assert(row_keys(groups_rows(info, fields, true)) =~= row_keys(groups_rows(info, fields, false)));
    assert(row_keys(system_rows(info, fields, true)) == row_keys(system_rows(info, fields, false)));
    let v4 = strs(info.network.ipv4_local_ips@);
    let v6 = strs(info.network.ipv6_local_ips@);
    lemma_row_keys_concat(family_rows("ipv4"@, v4, true), family_rows("ipv6"@, v6, true));
    lemma_row_keys_concat(family_rows("ipv4"@, v4, false), family_rows("ipv6"@, v6, false));
    assert(row_keys(family_rows("ipv4"@, v4, true)) =~= row_keys(family_rows("ipv4"@, v4, false)));
    assert(row_keys(family_rows("ipv6"@, v6, true)) =~= row_keys(family_rows("ipv6"@, v6, false)));
    assert(row_keys(network_rows(info, true)) == row_keys(network_rows(info, false)));
    assert(system_rows(info, fields, true).len() == row_keys(system_rows(info, fields, true)).len());
    assert(system_rows(info, fields, false).len() == row_keys(system_rows(info, fields, false)).len());
    assert(network_rows(info, true).len() == row_keys(network_rows(info, true)).len());
    assert(network_rows(info, false).len() == row_keys(network_rows(info, false)).len());
    assert(layout(spec_groups(info, fields, full)) =~= layout(spec_groups(info, fields, dense)));
}

} // verus!
