//! `--json`: the selected fields as one JSON object, with absent values left
//! out rather than written as `null`.
use crate::model::{
    ContainerContext, ContextInfo, Field, GitContext, MeInfo, NetworkInfo, ProjectContext, PwdInfo,
    SshContext,
};
use crate::output::semantics::{display_host, spec_display_host};
use crate::text::{owned, push_char};
use vstd::prelude::*;

verus! {

/// A JSON value as the library builds it; an object keeps its members in
/// the order they were added.
#[derive(Debug)]
pub enum JsonValue {
    Null,
    Bool(bool),
    Num(u64),
    Str(String),
    Arr(Vec<JsonValue>),
    Obj(Vec<(String, JsonValue)>),
}

/// A JSON value with its strings as character sequences.
pub enum JsonView {
    Null,
    Bool(bool),
    Num(u64),
    Str(Seq<char>),
    Arr(Seq<JsonView>),
    Obj(Seq<(Seq<char>, JsonView)>),
}

/// The plain value that a `JsonValue` holds.
pub open spec fn json_view(v: JsonValue) -> JsonView
    decreases v,
{
    match v {
        JsonValue::Null => JsonView::Null,
        JsonValue::Bool(b) => JsonView::Bool(b),
        JsonValue::Num(n) => JsonView::Num(n),
        JsonValue::Str(s) => JsonView::Str(s@),
        JsonValue::Arr(items) => JsonView::Arr(items_view(items@)),
        JsonValue::Obj(members) => JsonView::Obj(members_view(members@)),
    }
}

/// The views of array items.
pub open spec fn items_view(s: Seq<JsonValue>) -> Seq<JsonView>
    decreases s,
{
    if s.len() == 0 {
        seq![]
    } else {
        items_view(s.drop_last()).push(json_view(s.last()))
    }
}

/// The views of object members.
pub open spec fn members_view(s: Seq<(String, JsonValue)>) -> Seq<(Seq<char>, JsonView)>
    decreases s,
{
    if s.len() == 0 {
        seq![]
    } else {
        members_view(s.drop_last()).push((s.last().0@, json_view(s.last().1)))
    }
}


// ---------------------------------------------------------------------------
// What the object holds
// ---------------------------------------------------------------------------

/// An array of strings.
pub open spec fn spec_str_array(s: Seq<String>) -> JsonView {
    JsonView::Arr(s.map_values(|x: String| JsonView::Str(x@)))
}

/// A string member when the value is present, nothing otherwise.
pub open spec fn opt_str_member(key: Seq<char>, v: Option<String>) -> Seq<(Seq<char>, JsonView)> {
    match v {
        Some(x) => seq![(key, JsonView::Str(x@))],
        None => seq![],
    }
}

/// The addresses of each family.
pub open spec fn spec_network_json(n: NetworkInfo) -> JsonView {
    JsonView::Obj(
        seq![
            ("ipv4_local_ips"@, spec_str_array(n.ipv4_local_ips@)),
            ("ipv6_local_ips"@, spec_str_array(n.ipv6_local_ips@)),
        ],
    )
}

/// The working directory as found and as shown.
pub open spec fn spec_pwd_json(p: PwdInfo) -> JsonView {
    JsonView::Obj(seq![("raw"@, JsonView::Str(p.raw@)), ("display"@, JsonView::Str(p.display@))])
}

/// Whether the session is remote, and the connection when known.
pub open spec fn spec_ssh_json(s: SshContext) -> JsonView {
    JsonView::Obj(seq![("remote"@, JsonView::Bool(s.remote))] + opt_str_member("connection"@, s.connection))
}

/// The container's kind, and its id when known.
pub open spec fn spec_container_json(c: ContainerContext) -> JsonView {
    JsonView::Obj(seq![("kind"@, JsonView::Str(c.kind@))] + opt_str_member("id"@, c.id))
}

/// One project: its kind, then what is known of it.
pub open spec fn spec_project_json(p: ProjectContext) -> JsonView {
    JsonView::Obj(
        seq![("kind"@, JsonView::Str(p.kind@))] + opt_str_member("version"@, p.version)
            + opt_str_member("project_name"@, p.project_name) + match p.service_count {
            Some(n) => seq![("service_count"@, JsonView::Num(n as u64))],
            None => seq![],
        } + if p.details@.len() > 0 {
            seq![("details"@, spec_str_array(p.details@))]
        } else {
            seq![]
        },
    )
}

/// The checked-out branch, tag or commit.
pub open spec fn spec_git_json(g: GitContext) -> JsonView {
    JsonView::Obj(seq![("branch"@, JsonView::Str(g.branch@))])
}

/// The members of the context object: each part that was detected.
pub open spec fn context_members(c: ContextInfo) -> Seq<(Seq<char>, JsonView)> {
    let ssh: Seq<(Seq<char>, JsonView)> = match c.ssh {
        Some(s) => seq![("ssh"@, spec_ssh_json(s))],
        None => seq![],
    };
    let container: Seq<(Seq<char>, JsonView)> = match c.container {
        Some(x) => seq![("container"@, spec_container_json(x))],
        None => seq![],
    };
    let projects: Seq<(Seq<char>, JsonView)> = if c.projects@.len() > 0 {
        seq![
            ("projects"@, JsonView::Arr(
                c.projects@.map_values(|p: ProjectContext| spec_project_json(p)),
            )),
        ]
    } else {
        seq![]
    };
    let git: Seq<(Seq<char>, JsonView)> = match c.git {
        Some(g) => seq![("git"@, spec_git_json(g))],
        None => seq![],
    };
    ssh + container + projects + git
}

/// The context object, left out when nothing was detected.
pub open spec fn spec_context_json(c: ContextInfo) -> Option<JsonView> {
    if context_members(c).len() == 0 {
        None
    } else {
        Some(JsonView::Obj(context_members(c)))
    }
}

/// The member a field contributes: none when its value is absent.
pub open spec fn field_member(info: MeInfo, f: Field) -> Seq<(Seq<char>, JsonView)> {
    match f {
        Field::User => seq![("user"@, JsonView::Str(info.identity.user@))],
        Field::Uid => seq![("uid"@, JsonView::Num(info.identity.uid as u64))],
        Field::Gid => seq![("gid"@, JsonView::Num(info.identity.gid as u64))],
        Field::Groups => seq![("groups"@, spec_str_array(info.identity.groups@))],
        Field::Host => seq![("host"@, JsonView::Str(spec_display_host(info.identity.host@)))],
        Field::Shell => opt_str_member("shell"@, info.runtime.shell),
        Field::Pid => seq![("pid"@, JsonView::Num(info.runtime.pid as u64))],
        Field::Ppid => match info.runtime.ppid {
            Some(p) => seq![("ppid"@, JsonView::Num(p as u64))],
            None => seq![],
        },
        Field::Tty => opt_str_member("tty"@, info.runtime.tty),
        Field::Privilege => seq![("privilege"@, JsonView::Str(info.privilege@))],
        Field::Sudo => seq![("sudo"@, JsonView::Bool(info.sudo))],
        Field::Ssh => seq![("ssh"@, JsonView::Bool(info.ssh))],
        Field::Network => seq![("network"@, spec_network_json(info.network))],
        Field::Pwd => match info.pwd {
            Some(p) => seq![("pwd"@, spec_pwd_json(p))],
            None => seq![],
        },
        Field::Context => match spec_context_json(info.context) {
            Some(c) => seq![("context"@, c)],
            None => seq![],
        },
    }
}

/// The members for the selected fields, in their order.
pub open spec fn json_members(info: MeInfo, fields: Seq<Field>) -> Seq<(Seq<char>, JsonView)>
    decreases fields.len(),
{
    if fields.len() == 0 {
        seq![]
    } else {
        json_members(info, fields.drop_last()) + field_member(info, fields.last())
    }
}

/// The JSON object for the selected fields.
pub open spec fn spec_json_object(info: MeInfo, fields: Seq<Field>) -> JsonView {
    JsonView::Obj(json_members(info, fields))
}

// ---------------------------------------------------------------------------
// Building it
// ---------------------------------------------------------------------------

fn push_member(out: &mut Vec<(String, JsonValue)>, key: &str, value: JsonValue)
    ensures
        members_view(final(out)@) == members_view(old(out)@) + seq![(key@, value@)],
{
    out.push((owned(key), value));
    proof {
        assert(out@.drop_last() =~= old(out)@);
        assert(members_view(old(out)@).push((key@, value@)) =~= members_view(old(out)@) + seq![
            (key@, value@),
        ]);
    }
}

fn push_str_member(out: &mut Vec<(String, JsonValue)>, key: &str, v: &Option<String>)
    ensures
        members_view(final(out)@) == members_view(old(out)@) + opt_str_member(key@, *v),
{
    match v {
        Some(x) => push_member(out, key, JsonValue::Str(x.clone())),
        None => {
            assert(members_view(out@) + seq![] =~= members_view(out@));
        },
    }
}

fn str_array(v: &Vec<String>) -> (r: JsonValue)
    ensures
        r@ == spec_str_array(v@),
{
    let mut items: Vec<JsonValue> = Vec::new();
    let mut i: usize = 0;
    while i < v.len()
        invariant
            i <= v.len(),
            items_view(items@) == v@.take(i as int).map_values(|x: String| JsonView::Str(x@)),
        decreases v.len() - i,
    {
        let ghost before = items@;
        let s = v[i].clone();
        let e = JsonValue::Str(s);
        assert(e@ == JsonView::Str(v@[i as int]@));
        items.push(e);
        proof {
            assert(items@.drop_last() =~= before);
            assert(items_view(items@) == items_view(before).push(JsonView::Str(v@[i as int]@)));
            assert(v@.take(i + 1).map_values(|x: String| JsonView::Str(x@)) =~= v@.take(
                i as int,
            ).map_values(|x: String| JsonView::Str(x@)).push(JsonView::Str(v@[i as int]@)));
        }
        i += 1;
    }
    assert(v@.take(v@.len() as int) =~= v@);
    JsonValue::Arr(items)
}

fn network_json(n: &NetworkInfo) -> (r: JsonValue)
    ensures
        r@ == spec_network_json(*n),
{
    let mut out: Vec<(String, JsonValue)> = Vec::new();
    push_member(&mut out, "ipv4_local_ips", str_array(&n.ipv4_local_ips));
    push_member(&mut out, "ipv6_local_ips", str_array(&n.ipv6_local_ips));
    assert(members_view(out@) =~= seq![
        ("ipv4_local_ips"@, spec_str_array(n.ipv4_local_ips@)),
        ("ipv6_local_ips"@, spec_str_array(n.ipv6_local_ips@)),
    ]);
    JsonValue::Obj(out)
}

fn pwd_json(p: &PwdInfo) -> (r: JsonValue)
    ensures
        r@ == spec_pwd_json(*p),
{
    let mut out: Vec<(String, JsonValue)> = Vec::new();
    push_member(&mut out, "raw", JsonValue::Str(p.raw.clone()));
    push_member(&mut out, "display", JsonValue::Str(p.display.clone()));
    assert(members_view(out@) =~= seq![
        ("raw"@, JsonView::Str(p.raw@)),
        ("display"@, JsonView::Str(p.display@)),
    ]);
    JsonValue::Obj(out)
}

fn ssh_json(s: &SshContext) -> (r: JsonValue)
    ensures
        r@ == spec_ssh_json(*s),
{
    let mut out: Vec<(String, JsonValue)> = Vec::new();
    push_member(&mut out, "remote", JsonValue::Bool(s.remote));
    push_str_member(&mut out, "connection", &s.connection);
    assert(members_view(out@) =~= seq![("remote"@, JsonView::Bool(s.remote))] + opt_str_member(
        "connection"@,
        s.connection,
    ));
    JsonValue::Obj(out)
}

fn container_json(c: &ContainerContext) -> (r: JsonValue)
    ensures
        r@ == spec_container_json(*c),
{
    let mut out: Vec<(String, JsonValue)> = Vec::new();
    push_member(&mut out, "kind", JsonValue::Str(c.kind.clone()));
    push_str_member(&mut out, "id", &c.id);
    assert(members_view(out@) =~= seq![("kind"@, JsonView::Str(c.kind@))] + opt_str_member(
        "id"@,
        c.id,
    ));
    JsonValue::Obj(out)
}

fn project_json(p: &ProjectContext) -> (r: JsonValue)
    ensures
        r@ == spec_project_json(*p),
{
    let mut out: Vec<(String, JsonValue)> = Vec::new();
    push_member(&mut out, "kind", JsonValue::Str(p.kind.clone()));
    push_str_member(&mut out, "version", &p.version);
    push_str_member(&mut out, "project_name", &p.project_name);
    let ghost a = members_view(out@);
    match p.service_count {
        Some(n) => push_member(&mut out, "service_count", JsonValue::Num(n as u64)),
        None => {},
    }
    let ghost b = members_view(out@);
    assert(b =~= a + match p.service_count {
        Some(n) => seq![("service_count"@, JsonView::Num(n as u64))],
        None => seq![],
    });
    if p.details.len() > 0 {
        push_member(&mut out, "details", str_array(&p.details));
    }
    assert(members_view(out@) =~= b + if p.details@.len() > 0 {
        seq![("details"@, spec_str_array(p.details@))]
    } else {
        seq![]
    });
    JsonValue::Obj(out)
}

fn projects_json(ps: &Vec<ProjectContext>) -> (r: JsonValue)
    ensures
        r@ == JsonView::Arr(ps@.map_values(|p: ProjectContext| spec_project_json(p))),
{
    let mut items: Vec<JsonValue> = Vec::new();
    let mut i: usize = 0;
    while i < ps.len()
        invariant
            i <= ps.len(),
            items_view(items@) == ps@.take(i as int).map_values(
                |p: ProjectContext| spec_project_json(p),
            ),
        decreases ps.len() - i,
    {
        let ghost before = items@;
        items.push(project_json(&ps[i]));
        proof {
            assert(items@.drop_last() =~= before);
            assert(ps@.take(i + 1).map_values(|p: ProjectContext| spec_project_json(p)) =~= ps@.take(
                i as int,
            ).map_values(|p: ProjectContext| spec_project_json(p)).push(spec_project_json(ps@[i as int])));
        }
        i += 1;
    }
    assert(ps@.take(ps@.len() as int) =~= ps@);
    JsonValue::Arr(items)
}

/// The view of an optional JSON value.
pub open spec fn opt_json_view(v: Option<JsonValue>) -> Option<JsonView> {
    match v {
        Some(x) => Some(x@),
        None => None,
    }
}

fn context_json(c: &ContextInfo) -> (r: Option<JsonValue>)
    ensures
        opt_json_view(r) == spec_context_json(*c),
{
    let mut out: Vec<(String, JsonValue)> = Vec::new();
    match &c.ssh {
        Some(s) => push_member(&mut out, "ssh", ssh_json(s)),
        None => {},
    }
    match &c.container {
        Some(x) => push_member(&mut out, "container", container_json(x)),
        None => {},
    }
    if c.projects.len() > 0 {
        push_member(&mut out, "projects", projects_json(&c.projects));
    }
    match &c.git {
        Some(g) => {
            let mut value: Vec<(String, JsonValue)> = Vec::new();
            push_member(&mut value, "branch", JsonValue::Str(g.branch.clone()));
            assert(members_view(value@) =~= seq![("branch"@, JsonView::Str(g.branch@))]);
            push_member(&mut out, "git", JsonValue::Obj(value));
        },
        None => {},
    }
    assert(members_view(out@) =~= context_members(*c));
    if out.len() == 0 {
        None
    } else {
        Some(JsonValue::Obj(out))
    }
}

fn push_field(out: &mut Vec<(String, JsonValue)>, info: &MeInfo, f: Field)
    ensures
        members_view(final(out)@) == members_view(old(out)@) + field_member(*info, f),
{
    match f {
        Field::User => push_member(out, "user", JsonValue::Str(info.identity.user.clone())),
        Field::Uid => push_member(out, "uid", JsonValue::Num(info.identity.uid as u64)),
        Field::Gid => push_member(out, "gid", JsonValue::Num(info.identity.gid as u64)),
        Field::Groups => push_member(out, "groups", str_array(&info.identity.groups)),
        Field::Host => push_member(out, "host", JsonValue::Str(display_host(&info.identity.host))),
        Field::Shell => push_str_member(out, "shell", &info.runtime.shell),
        Field::Pid => push_member(out, "pid", JsonValue::Num(info.runtime.pid as u64)),
        Field::Ppid => match info.runtime.ppid {
            Some(p) => push_member(out, "ppid", JsonValue::Num(p as u64)),
            None => {
                assert(members_view(out@) + seq![] =~= members_view(out@));
            },
        },
        Field::Tty => push_str_member(out, "tty", &info.runtime.tty),
        Field::Privilege => push_member(out, "privilege", JsonValue::Str(info.privilege.clone())),
        Field::Sudo => push_member(out, "sudo", JsonValue::Bool(info.sudo)),
        Field::Ssh => push_member(out, "ssh", JsonValue::Bool(info.ssh)),
        Field::Network => push_member(out, "network", network_json(&info.network)),
        Field::Pwd => match &info.pwd {
            Some(p) => push_member(out, "pwd", pwd_json(p)),
            None => {
                assert(members_view(out@) + seq![] =~= members_view(out@));
            },
        },
        Field::Context => match context_json(&info.context) {
            Some(c) => push_member(out, "context", c),
            None => {
                assert(members_view(out@) + seq![] =~= members_view(out@));
            },
        },
    }
}

/// The JSON object for the selected fields: one member per field in their
/// order, for each field whose value is present.
pub fn json_object(info: &MeInfo, fields: &[Field]) -> (r: JsonValue)
    ensures
        r@ == spec_json_object(*info, fields@),
{
    let mut out: Vec<(String, JsonValue)> = Vec::new();
    let mut i: usize = 0;
    while i < fields.len()
        invariant
            i <= fields.len(),
            members_view(out@) == json_members(*info, fields@.take(i as int)),
        decreases fields.len() - i,
    {
        push_field(&mut out, info, fields[i]);
        proof {
            assert(fields@.take(i + 1).drop_last() =~= fields@.take(i as int));
        }
        i += 1;
    }
    assert(fields@.take(fields@.len() as int) =~= fields@);
    JsonValue::Obj(out)
}

// ---------------------------------------------------------------------------
// Printing it
// ---------------------------------------------------------------------------

#[verifier::external_type_specification]
#[verifier::external_body]
pub struct ExSerdeJsonValue(serde_json::Value);

/// The `serde_json::Value` for a value of the library, variant for variant:
/// numbers through `Value::from(u64)`, object members inserted in order into
/// a `serde_json::Map`. Nothing is claimed of the result.
#[verifier::external_body]
fn serde_value(v: &JsonValue) -> serde_json::Value {
    match v {
        JsonValue::Null => serde_json::Value::Null,
        JsonValue::Bool(b) => serde_json::Value::Bool(*b),
        JsonValue::Num(n) => serde_json::Value::from(*n),
        JsonValue::Str(s) => serde_json::Value::String(s.clone()),
        JsonValue::Arr(items) => serde_json::Value::Array(items.iter().map(serde_value).collect()),
        JsonValue::Obj(members) => serde_json::Value::Object(
            members.iter().map(|(k, x)| (k.clone(), serde_value(x))).collect(),
        ),
    }
}

/// The text that `serde_json::to_string_pretty` writes for a value:
/// two-space indentation, object keys in the order `serde_json::Map` keeps.
pub uninterp spec fn json_pretty_text(v: JsonView) -> Seq<char>;

/// The text that `serde_json::to_string` writes for a value, on one line.
pub uninterp spec fn json_line_text(v: JsonView) -> Seq<char>;

/// `serde_json::to_string_pretty` on the value converted by `serde_value`.
/// Writing a `Value` into memory does not fail (its keys are strings), so
/// the empty default is never taken. The result is named, not described.
#[verifier::external_body]
fn json_pretty(v: &JsonValue) -> (r: String)
    ensures
        r@ == json_pretty_text(v@),
{
    serde_json::to_string_pretty(&serde_value(v)).unwrap_or_default()
}

/// `serde_json::to_string` on the value converted by `serde_value`; as for
/// `json_pretty`, the error case does not occur. The result is named.
#[verifier::external_body]
fn json_line(v: &JsonValue) -> (r: String)
    ensures
        r@ == json_line_text(v@),
{
    serde_json::to_string(&serde_value(v)).unwrap_or_default()
}

/// `--json`: the object for the selected fields, pretty-printed, then a
/// newline.
pub fn render_json(info: &MeInfo, fields: &[Field]) -> (r: String)
    ensures
        r@ == json_pretty_text(spec_json_object(*info, fields@)) + "\n"@,
{
    let v = json_object(info, fields);
    let mut s = json_pretty(&v);
    push_char(&mut s, '\n');
    proof {
        reveal_strlit("\n");
    }
    s
}

/// `--watch --json`: the object on one line, then a newline.
pub fn render_json_line(info: &MeInfo, fields: &[Field]) -> (r: String)
    ensures
        r@ == json_line_text(spec_json_object(*info, fields@)) + "\n"@,
{
    let v = json_object(info, fields);
    let mut s = json_line(&v);
    push_char(&mut s, '\n');
    proof {
        reveal_strlit("\n");
    }
    s
}

// ---------------------------------------------------------------------------
// No nulls
// ---------------------------------------------------------------------------

/// Whether no value inside `v`, at any depth, is `null`.
pub open spec fn null_free(v: JsonView) -> bool
    decreases v,
{
    match v {
        JsonView::Null => false,
        JsonView::Arr(items) => forall|i: int| 0 <= i < items.len() ==> null_free(#[trigger] items[i]),
        JsonView::Obj(members) => forall|i: int|
            0 <= i < members.len() ==> null_free(#[trigger] members[i].1),
        _ => true,
    }
}

/// Whether no member's value holds a `null`.
pub open spec fn members_null_free(s: Seq<(Seq<char>, JsonView)>) -> bool {
    forall|i: int| 0 <= i < s.len() ==> null_free(#[trigger] s[i].1)
}

proof fn lemma_str_array_null_free(s: Seq<String>)
    ensures
        null_free(spec_str_array(s)),
{
    let items = s.map_values(|x: String| JsonView::Str(x@));
    assert forall|i: int| 0 <= i < items.len() implies null_free(#[trigger] items[i]) by {
        assert(items[i] == JsonView::Str(s[i]@));
    }
}

proof fn lemma_opt_member_null_free(key: Seq<char>, v: Option<String>)
    ensures
        members_null_free(opt_str_member(key, v)),
{
}

proof fn lemma_project_null_free(p: ProjectContext)
    ensures
        null_free(spec_project_json(p)),
{
    lemma_str_array_null_free(p.details@);
    let m = spec_project_json(p)->Obj_0;
    assert forall|i: int| 0 <= i < m.len() implies null_free(#[trigger] m[i].1) by {
        lemma_opt_member_null_free("version"@, p.version);
        lemma_opt_member_null_free("project_name"@, p.project_name);
    }
}

proof fn lemma_obj_null_free(m: Seq<(Seq<char>, JsonView)>)
    requires
        members_null_free(m),
    ensures
        null_free(JsonView::Obj(m)),
{
}

proof fn lemma_one_null_free(key: Seq<char>, v: JsonView)
    requires
        null_free(v),
    ensures
        members_null_free(seq![(key, v)]),
{
    assert forall|i: int| 0 <= i < 1 implies null_free(#[trigger] seq![(key, v)][i].1) by {
        assert(seq![(key, v)][i] == (key, v));
    }
}

proof fn lemma_concat_null_free(a: Seq<(Seq<char>, JsonView)>, b: Seq<(Seq<char>, JsonView)>)
    requires
        members_null_free(a),
        members_null_free(b),
    ensures
        members_null_free(a + b),
{
    assert forall|i: int| 0 <= i < (a + b).len() implies null_free(#[trigger] (a + b)[i].1) by {
        if i < a.len() {
            assert((a + b)[i] == a[i]);
            assert(null_free(a[i].1));
        } else {
            assert((a + b)[i] == b[i - a.len()]);
            assert(null_free(b[i - a.len()].1));
        }
    }
}

proof fn lemma_context_null_free(c: ContextInfo)
    ensures
        members_null_free(context_members(c)),
{
    let projects = c.projects@.map_values(|p: ProjectContext| spec_project_json(p));
    assert forall|i: int| 0 <= i < projects.len() implies null_free(#[trigger] projects[i]) by {
        lemma_project_null_free(c.projects@[i]);
    }
    let ssh: Seq<(Seq<char>, JsonView)> = match c.ssh {
        Some(s) => seq![("ssh"@, spec_ssh_json(s))],
        None => seq![],
    };
    let container: Seq<(Seq<char>, JsonView)> = match c.container {
        Some(x) => seq![("container"@, spec_container_json(x))],
        None => seq![],
    };
    let ps: Seq<(Seq<char>, JsonView)> = if c.projects@.len() > 0 {
        seq![("projects"@, JsonView::Arr(projects))]
    } else {
        seq![]
    };
    let git: Seq<(Seq<char>, JsonView)> = match c.git {
        Some(g) => seq![("git"@, spec_git_json(g))],
        None => seq![],
    };
    match c.ssh {
        Some(s) => {
            lemma_one_null_free("remote"@, JsonView::Bool(s.remote));
            lemma_opt_member_null_free("connection"@, s.connection);
            lemma_concat_null_free(
                seq![("remote"@, JsonView::Bool(s.remote))],
                opt_str_member("connection"@, s.connection),
            );
            lemma_one_null_free("ssh"@, spec_ssh_json(s));
        },
        None => {},
    }
    match c.container {
        Some(x) => {
            lemma_one_null_free("kind"@, JsonView::Str(x.kind@));
            lemma_opt_member_null_free("id"@, x.id);
            lemma_concat_null_free(seq![("kind"@, JsonView::Str(x.kind@))], opt_str_member("id"@, x.id));
            lemma_one_null_free("container"@, spec_container_json(x));
        },
        None => {},
    }
    if c.projects@.len() > 0 {
        lemma_one_null_free("projects"@, JsonView::Arr(projects));
    }
    match c.git {
        Some(g) => {
            lemma_one_null_free("branch"@, JsonView::Str(g.branch@));
            lemma_one_null_free("git"@, spec_git_json(g));
        },
        None => {},
    }
    lemma_concat_null_free(ssh, container);
    lemma_concat_null_free(ssh + container, ps);
    lemma_concat_null_free(ssh + container + ps, git);
}

proof fn lemma_field_null_free(info: MeInfo, f: Field)
    ensures
        members_null_free(field_member(info, f)),
{
    match f {
        Field::Groups => {
            lemma_str_array_null_free(info.identity.groups@);
            lemma_one_null_free("groups"@, spec_str_array(info.identity.groups@));
        },
        Field::Network => {
            lemma_str_array_null_free(info.network.ipv4_local_ips@);
            lemma_str_array_null_free(info.network.ipv6_local_ips@);
            let m = spec_network_json(info.network)->Obj_0;
            assert forall|i: int| 0 <= i < m.len() implies null_free(#[trigger] m[i].1) by {}
            lemma_one_null_free("network"@, spec_network_json(info.network));
        },
        Field::Pwd => match info.pwd {
            Some(p) => {
                let m = spec_pwd_json(p)->Obj_0;
                assert forall|i: int| 0 <= i < m.len() implies null_free(#[trigger] m[i].1) by {}
                lemma_one_null_free("pwd"@, spec_pwd_json(p));
            },
            None => {},
        },
        Field::Context => {
            lemma_context_null_free(info.context);
            match spec_context_json(info.context) {
                Some(c) => lemma_one_null_free("context"@, c),
                None => {},
            }
        },
        _ => {
            match f {
                Field::Ppid => {},
                Field::Shell => lemma_opt_member_null_free("shell"@, info.runtime.shell),
                Field::Tty => lemma_opt_member_null_free("tty"@, info.runtime.tty),
                _ => {
                    let m = field_member(info, f);
                    assert(m.len() == 1);
                    lemma_one_null_free(m[0].0, m[0].1);
                    assert(seq![(m[0].0, m[0].1)] =~= m);
                },
            }
        },
    }
}

/// The members for the selected fields hold no `null`.
proof fn lemma_members_null_free(info: MeInfo, fields: Seq<Field>)
    ensures
        members_null_free(json_members(info, fields)),
    decreases fields.len(),
{
    if fields.len() > 0 {
        lemma_members_null_free(info, fields.drop_last());
        lemma_field_null_free(info, fields.last());
        lemma_concat_null_free(
            json_members(info, fields.drop_last()),
            field_member(info, fields.last()),
        );
    }
}

/// The JSON output never holds `null`: a field whose value is absent is
/// left out, and so is every absent member inside the nested objects.
pub proof fn lemma_json_null_free(info: MeInfo, fields: Seq<Field>)
    ensures
        null_free(spec_json_object(info, fields)),
{
    lemma_members_null_free(info, fields);
    lemma_obj_null_free(json_members(info, fields));
}

impl View for JsonValue {
    type V = JsonView;

    open spec fn view(&self) -> JsonView {
        json_view(*self)
    }
}

} // verus!
