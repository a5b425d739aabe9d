//! Shared wording of the text outputs: hosts, lists, context summaries.
use crate::context::project::{project_order, sorted_project_indices};
use crate::model::{clone_strings, str_eq, ContextInfo, GitContext, MeInfo, NetworkInfo, ProjectContext};
use crate::sort::{lemma_sort_by_len, sort_by};
use crate::text::{
    bufs, chars_of, dec, dec_string, join, join_prefix, join_strings, lemma_join_push, opt_view,
    owned, push_str, split_char, split_char_of, string_of, strip_suffix, strip_suffix_str, strs,
};
use vstd::prelude::*;

verus! {

/// Where context text is shown.
#[derive(Debug, Clone, Copy, PartialEq, Eq, Structural)]
pub enum ContextTextStyle {
    Block,
    Config,
}

/// How dense context text may be.
#[derive(Debug, Clone, Copy, PartialEq, Eq, Structural)]
pub enum ContextDisplayStyle {
    Block,
    Compact,
    Config,
}

/// At most this many project-related items are shown in block and compact text.
pub const MAX_TEXT_CONTEXT_ITEMS: usize = 3;

/// At most this many node details are shown in block and compact text.
pub const MAX_NODE_DETAILS: usize = 2;

pub open spec fn limits_density(style: ContextDisplayStyle) -> bool {
    style is Block || style is Compact
}

impl ContextDisplayStyle {
    /// Block and compact text bound the number of items; config text does not.
    pub fn limits_density(self) -> (r: bool)
        ensures
            r == limits_density(self),
    {
        match self {
            ContextDisplayStyle::Block | ContextDisplayStyle::Compact => true,
            ContextDisplayStyle::Config => false,
        }
    }
}

// ---------------------------------------------------------------------------
// Specifications
// ---------------------------------------------------------------------------

pub open spec fn spec_display_host(host: Seq<char>) -> Seq<char> {
    match strip_suffix(host, ".local"@) {
        Some(h) => h,
        None => host,
    }
}

/// `(+n)`, with a leading space.
pub open spec fn more(n: nat) -> Seq<char> {
    " (+"@ + dec(n) + ")"@
}

pub open spec fn spec_compact_list(values: Seq<Seq<char>>, keep: nat) -> Option<Seq<char>> {
    if values.len() == 0 {
        None
    } else if values.len() <= keep {
        Some(join(values, ", "@))
    } else {
        Some(join(values.take(keep as int), ", "@) + more((values.len() - keep) as nat))
    }
}

/// ` (a, b)`, or nothing when there are no items.
pub open spec fn parenthesized(items: Seq<Seq<char>>) -> Seq<char> {
    if items.len() == 0 {
        seq![]
    } else {
        " ("@ + join(items, ", "@) + ")"@
    }
}

pub open spec fn is_compose(p: ProjectContext) -> bool {
    p.kind@ == "docker compose"@
}

/// The name and service count of a compose project, where known.
pub open spec fn compose_parts(p: ProjectContext) -> Seq<Seq<char>> {
    let name: Seq<Seq<char>> = match p.project_name {
        Some(n) => seq![n@],
        None => seq![],
    };
    let count: Seq<Seq<char>> = match p.service_count {
        Some(c) => seq![dec(c as nat) + " services"@],
        None => seq![],
    };
    name + count
}

pub open spec fn spec_project_details(p: ProjectContext, style: ContextDisplayStyle) -> Seq<
    Seq<char>,
> {
    if p.kind@ == "node"@ && limits_density(style) && p.details@.len() > MAX_NODE_DETAILS {
        strs(p.details@).take(MAX_NODE_DETAILS as int)
    } else {
        strs(p.details@)
    }
}

pub open spec fn project_base(p: ProjectContext) -> Seq<char> {
    match p.version {
        Some(v) => p.kind@ + " "@ + v@,
        None => p.kind@,
    }
}

pub open spec fn spec_project_text(p: ProjectContext, style: ContextDisplayStyle) -> Seq<char> {
    if is_compose(p) {
        if style is Compact {
            "docker-compose"@ + match p.project_name {
                Some(n) => ":"@ + n@,
                None => seq![],
            }
        } else {
            project_base(p) + parenthesized(compose_parts(p))
        }
    } else {
        project_base(p) + parenthesized(spec_project_details(p, style))
    }
}

pub open spec fn spec_project_text_items(projects: Seq<ProjectContext>, style: ContextDisplayStyle) -> Seq<
    Seq<char>,
> {
    sort_by(projects, project_order()).map_values(|p: ProjectContext| spec_project_text(p, style))
}

pub open spec fn spec_git_text(git: GitContext, style: ContextDisplayStyle) -> Seq<char> {
    if style is Block {
        "git("@ + git.branch@ + ")"@
    } else {
        "git:"@ + git.branch@
    }
}

/// Project texts in display order, then the git text.
pub open spec fn all_related_items(ctx: ContextInfo, style: ContextDisplayStyle) -> Seq<Seq<char>> {
    spec_project_text_items(ctx.projects@, style) + match ctx.git {
        Some(g) => seq![spec_git_text(g, style)],
        None => seq![],
    }
}

/// The visible project-related items and how many were folded away.
pub open spec fn spec_related_items(ctx: ContextInfo, style: ContextDisplayStyle) -> (Seq<Seq<char>>, nat) {
    let items = all_related_items(ctx, style);
    if !limits_density(style) || items.len() <= MAX_TEXT_CONTEXT_ITEMS {
        (items, 0)
    } else {
        (items.take(MAX_TEXT_CONTEXT_ITEMS as int), (items.len() - MAX_TEXT_CONTEXT_ITEMS) as nat)
    }
}

pub open spec fn spec_join_visible(items: Seq<Seq<char>>, overflow: nat, sep: Seq<char>) -> Seq<char> {
    join(items, sep) + if overflow > 0 {
        more(overflow)
    } else {
        seq![]
    }
}

pub open spec fn spec_container_text(info: MeInfo, style: ContextTextStyle) -> Option<Seq<char>> {
    match info.context.container {
        None => None,
        Some(c) => Some(
            if style is Config {
                match c.id {
                    Some(id) => c.kind@ + ":"@ + id@,
                    None => c.kind@,
                }
            } else {
                c.kind@
            },
        ),
    }
}

pub open spec fn display_style_of(style: ContextTextStyle) -> ContextDisplayStyle {
    if style is Block {
        ContextDisplayStyle::Block
    } else {
        ContextDisplayStyle::Config
    }
}

pub open spec fn spec_project_group_text(info: MeInfo, style: ContextTextStyle) -> Option<Seq<char>> {
    let (visible, overflow) = spec_related_items(info.context, display_style_of(style));
    if visible.len() == 0 {
        None
    } else if style is Block {
        Some(spec_join_visible(visible, overflow, " · "@))
    } else {
        Some(join(visible, ", "@))
    }
}

pub open spec fn opt_seq(o: Option<Seq<char>>) -> Seq<Seq<char>> {
    match o {
        Some(s) => seq![s],
        None => seq![],
    }
}

pub open spec fn spec_context_text(info: MeInfo, style: ContextTextStyle) -> Option<Seq<char>> {
    let sections = opt_seq(spec_container_text(info, style)) + opt_seq(
        spec_project_group_text(info, style),
    );
    let text = join(sections, ", "@);
    if text.len() == 0 {
        None
    } else {
        Some(text)
    }
}

pub open spec fn spec_compact_env_label(info: MeInfo) -> Seq<char> {
    if info.ssh {
        "ssh"@
    } else {
        match info.context.container {
            Some(c) => c.kind@,
            None => "local"@,
        }
    }
}

/// The last meaningful `/`-separated segment: empty and `.` segments are
/// skipped, as path components normalize them away.
pub open spec fn last_segment(segs: Seq<Seq<char>>) -> Option<Seq<char>>
    decreases segs.len(),
{
    if segs.len() == 0 {
        None
    } else if segs.last().len() == 0 || segs.last() == "."@ {
        last_segment(segs.drop_last())
    } else {
        Some(segs.last())
    }
}

/// `Path::file_name` of a Unix path.
pub open spec fn spec_file_name(path: Seq<char>) -> Option<Seq<char>> {
    match last_segment(split_char(path, '/')) {
        Some(s) => if s == ".."@ {
            None
        } else {
            Some(s)
        },
        None => None,
    }
}

pub open spec fn spec_compact_cwd_name(info: MeInfo) -> Option<Seq<char>> {
    match info.pwd {
        Some(p) => match spec_file_name(p.raw@) {
            Some(n) => if n.len() > 0 {
                Some(n)
            } else {
                None
            },
            None => None,
        },
        None => None,
    }
}

pub open spec fn spec_display_user(info: MeInfo) -> Seq<char> {
    if info.identity.uid == 0 {
        "root"@
    } else {
        info.identity.user@
    }
}

pub open spec fn spec_compact_project_parts(info: MeInfo) -> Seq<Seq<char>> {
    let (visible, overflow) = spec_related_items(info.context, ContextDisplayStyle::Compact);
    if overflow > 0 && visible.len() > 0 {
        visible.update(visible.len() - 1, visible.last() + more(overflow))
    } else {
        visible
    }
}

pub open spec fn spec_network_summary(net: NetworkInfo, keep: nat) -> Option<Seq<char>> {
    let parts = opt_seq(spec_compact_list(strs(net.ipv4_local_ips@), keep)) + opt_seq(
        spec_compact_list(strs(net.ipv6_local_ips@), keep),
    );
    if parts.len() == 0 {
        None
    } else {
        Some(join(parts, ", "@))
    }
}

// ---------------------------------------------------------------------------
// Executable functions
// ---------------------------------------------------------------------------

/// The host name without a trailing `.local`.
pub fn display_host(host: &str) -> (r: String)
    ensures
        r@ == spec_display_host(host@),
{
    match strip_suffix_str(host, ".local") {
        Some(h) => h,
        None => owned(host),
    }
}

/// ` (+n)`.
pub fn more_text(n: usize) -> (r: String)
    ensures
        r@ == more(n as nat),
{
    let mut r = owned(" (+");
    let d = dec_string(n as u64);
    push_str(&mut r, d.as_str());
    push_str(&mut r, ")");
    r
}

/// The first `keep` values joined by `, `, with `(+n)` for the rest.
pub fn compact_list(values: &Vec<String>, keep: usize) -> (r: Option<String>)
    ensures
        opt_view(r) == spec_compact_list(strs(values@), keep as nat),
{
    if values.len() == 0 {
        return None;
    }
    if values.len() <= keep {
        Some(join_strings(values, ", "))
    } else {
        let mut r = join_prefix(values, keep, ", ");
        let m = more_text(values.len() - keep);
        push_str(&mut r, m.as_str());
        Some(r)
    }
}

/// Appends ` (a, b)` for non-empty `items`.
pub fn push_parenthesized(out: &mut String, items: &Vec<String>)
    ensures
        final(out)@ == old(out)@ + parenthesized(strs(items@)),
{
    if items.len() > 0 {
        push_str(out, " (");
        let j = join_strings(items, ", ");
        push_str(out, j.as_str());
        push_str(out, ")");
    } else {
        assert(old(out)@ + parenthesized(strs(items@)) =~= old(out)@);
    }
}

/// The details shown for a project.
pub fn project_details(project: &ProjectContext, style: ContextDisplayStyle) -> (r: Vec<String>)
    ensures
        strs(r@) == spec_project_details(*project, style),
{
    if str_eq(project.kind.as_str(), "node") && style.limits_density() && project.details.len()
        > MAX_NODE_DETAILS {
        let mut r: Vec<String> = Vec::new();
        let mut i: usize = 0;
        while i < MAX_NODE_DETAILS
            invariant
                i <= MAX_NODE_DETAILS < project.details@.len(),
                r@ == project.details@.take(i as int),
            decreases MAX_NODE_DETAILS - i,
        {
            r.push(project.details[i].clone());
            i += 1;
            assert(r@ =~= project.details@.take(i as int));
        }
        assert(strs(r@) =~= strs(project.details@).take(MAX_NODE_DETAILS as int));
        r
    } else {
        clone_strings(&project.details)
    }
}

/// Text for one project.
pub fn project_text(project: &ProjectContext, style: ContextDisplayStyle) -> (r: String)
    ensures
        r@ == spec_project_text(*project, style),
{
    if str_eq(project.kind.as_str(), "docker compose") {
        if style == ContextDisplayStyle::Compact {
            let mut r = owned("docker-compose");
            match &project.project_name {
                Some(n) => {
                    push_str(&mut r, ":");
                    push_str(&mut r, n.as_str());
                },
                None => {
                    assert(r@ + seq![] =~= r@);
                },
            }
            return r;
        }
        let mut r = project_base_text(project);
        let mut parts: Vec<String> = Vec::new();
        if let Some(n) = &project.project_name {
            parts.push(n.clone());
        }
        if let Some(c) = project.service_count {
            let mut t = dec_string(c as u64);
            push_str(&mut t, " services");
            parts.push(t);
        }
        assert(strs(parts@) =~= compose_parts(*project));
        push_parenthesized(&mut r, &parts);
        r
    } else {
        let mut r = project_base_text(project);
        let details = project_details(project, style);
        push_parenthesized(&mut r, &details);
        r
    }
}

/// `kind` or `kind version`.
pub fn project_base_text(project: &ProjectContext) -> (r: String)
    ensures
        r@ == project_base(*project),
{
    let mut r = project.kind.clone();
    if let Some(v) = &project.version {
        push_str(&mut r, " ");
        push_str(&mut r, v.as_str());
    }
    r
}

/// Project texts in display order.
pub fn project_text_items(projects: &Vec<ProjectContext>, style: ContextDisplayStyle) -> (r: Vec<
    String,
>)
    ensures
        strs(r@) == spec_project_text_items(projects@, style),
{
    let order = sorted_project_indices(projects);
    let ghost sorted = sort_by(projects@, project_order());
    proof {
        lemma_sort_by_len(projects@, project_order());
        assert forall|j: int| 0 <= j < order@.len() implies #[trigger] sorted[j] == projects@[order@[j] as int] by {
            assert(order@.map_values(|k: usize| projects@[k as int])[j] == projects@[order@[j] as int]);
        }
    }
    let mut r: Vec<String> = Vec::new();
    let mut i: usize = 0;
    while i < order.len()
        invariant
            i <= order@.len(),
            order@.len() == projects@.len(),
            sorted.len() == projects@.len(),
            forall|j: int| 0 <= j < order@.len() ==> order@[j] < projects@.len(),
            forall|j: int| 0 <= j < order@.len() ==> #[trigger] sorted[j] == projects@[order@[j] as int],
            strs(r@) == sorted.take(i as int).map_values(|p: ProjectContext| spec_project_text(p, style)),
        decreases order@.len() - i,
    {
        let t = project_text(&projects[order[i]], style);
        let ghost before = strs(r@);
        assert(sorted[i as int] == projects@[order@[i as int] as int]);
        r.push(t);
        assert(strs(r@) =~= before.push(t@));
        i += 1;
        assert(strs(r@) =~= sorted.take(i as int).map_values(
            |p: ProjectContext| spec_project_text(p, style),
        ));
    }
    assert(sorted.take(i as int) =~= sorted);
    r
}

/// `git(branch)` in block text, `git:branch` elsewhere.
pub fn git_text(git: &GitContext, style: ContextDisplayStyle) -> (r: String)
    ensures
        r@ == spec_git_text(*git, style),
{
    if style == ContextDisplayStyle::Block {
        let mut r = owned("git(");
        push_str(&mut r, git.branch.as_str());
        push_str(&mut r, ")");
        r
    } else {
        let mut r = owned("git:");
        push_str(&mut r, git.branch.as_str());
        r
    }
}

/// Project-related items that are shown, and how many were folded away.
pub struct ContextItemSummary {
    pub visible: Vec<String>,
    pub overflow: usize,
}

/// The project and git items of a context, bounded for dense styles.
pub fn project_related_items(ctx: &ContextInfo, style: ContextDisplayStyle) -> (r:
    ContextItemSummary)
    ensures
        (strs(r.visible@), r.overflow as nat) == spec_related_items(*ctx, style),
{
    let mut items = project_text_items(&ctx.projects, style);
    let ghost texts = strs(items@);
    if let Some(git) = &ctx.git {
        let g = git_text(git, style);
        items.push(g);
        assert(strs(items@) =~= texts.push(g@));
    }
    assert(strs(items@) =~= all_related_items(*ctx, style));
    if !style.limits_density() || items.len() <= MAX_TEXT_CONTEXT_ITEMS {
        return ContextItemSummary { visible: items, overflow: 0 };
    }
    let overflow = items.len() - MAX_TEXT_CONTEXT_ITEMS;
    items.truncate(MAX_TEXT_CONTEXT_ITEMS);
    assert(strs(items@) =~= all_related_items(*ctx, style).take(MAX_TEXT_CONTEXT_ITEMS as int));
    ContextItemSummary { visible: items, overflow }
}

/// Items joined by `sep`, with ` (+n)` when some were folded away.
pub fn join_visible_items(items: &Vec<String>, overflow: usize, sep: &str) -> (r: String)
    ensures
        r@ == spec_join_visible(strs(items@), overflow as nat, sep@),
{
    let mut joined = join_strings(items, sep);
    if overflow > 0 {
        let m = more_text(overflow);
        push_str(&mut joined, m.as_str());
    } else {
        assert(joined@ + seq![] =~= joined@);
    }
    joined
}

/// The container part of the context text.
pub fn container_text(info: &MeInfo, style: ContextTextStyle) -> (r: Option<String>)
    ensures
        opt_view(r) == spec_container_text(*info, style),
{
    match &info.context.container {
        None => None,
        Some(c) => {
            if style == ContextTextStyle::Config {
                match &c.id {
                    Some(id) => {
                        let mut r = c.kind.clone();
                        push_str(&mut r, ":");
                        push_str(&mut r, id.as_str());
                        Some(r)
                    },
                    None => Some(c.kind.clone()),
                }
            } else {
                Some(c.kind.clone())
            }
        },
    }
}

/// The project part of the context text.
pub fn project_group_text(info: &MeInfo, style: ContextTextStyle) -> (r: Option<String>)
    ensures
        opt_view(r) == spec_project_group_text(*info, style),
{
    let dstyle = if style == ContextTextStyle::Block {
        ContextDisplayStyle::Block
    } else {
        ContextDisplayStyle::Config
    };
    let summary = project_related_items(&info.context, dstyle);
    if summary.visible.len() == 0 {
        return None;
    }
    if style == ContextTextStyle::Block {
        Some(join_visible_items(&summary.visible, summary.overflow, " · "))
    } else {
        Some(join_strings(&summary.visible, ", "))
    }
}

/// The context line: container, then projects and git.
pub fn context_text(info: &MeInfo, style: ContextTextStyle) -> (r: Option<String>)
    ensures
        opt_view(r) == spec_context_text(*info, style),
{
    let mut sections: Vec<String> = Vec::new();
    let c = container_text(info, style);
    let p = project_group_text(info, style);
    if let Some(container) = c {
        sections.push(container);
    }
    let ghost first = strs(sections@);
    if let Some(group) = p {
        sections.push(group);
    }
    proof {
        assert(strs(sections@) =~= opt_seq(spec_container_text(*info, style)) + opt_seq(
            spec_project_group_text(*info, style),
        ));
    }
    let text = join_strings(&sections, ", ");
    if text.unicode_len() == 0 {
        None
    } else {
        Some(text)
    }
}

/// `ssh`, the container kind, or `local`.
pub fn compact_env_label(info: &MeInfo) -> (r: String)
    ensures
        r@ == spec_compact_env_label(*info),
{
    if info.ssh {
        owned("ssh")
    } else if let Some(c) = &info.context.container {
        c.kind.clone()
    } else {
        owned("local")
    }
}

/// `Path::file_name` of a Unix path.
pub fn file_name(path: &str) -> (r: Option<String>)
    ensures
        opt_view(r) == spec_file_name(path@),
{
    let v = chars_of(path);
    let segs = split_char_of(&v, '/');
    let mut n = segs.len();
    assert(bufs(segs@).take(n as int) =~= bufs(segs@));
    while n > 0
        invariant
            n <= segs@.len(),
            bufs(segs@) == split_char(path@, '/'),
            last_segment(bufs(segs@)) == last_segment(bufs(segs@).take(n as int)),
        decreases n,
    {
        let seg = &segs[n - 1];
        let ghost prefix = bufs(segs@).take(n as int);
        assert(prefix.last() == seg@);
        assert(prefix.drop_last() =~= bufs(segs@).take(n - 1));
        let dot = seg.len() == 1 && seg[0] == '.';
        assert(dot == (seg@ == "."@)) by {
            reveal_strlit(".");
            if seg@ == "."@ {
                assert(seg@[0] == '.');
            }
            if dot {
                assert(seg@ =~= "."@);
            }
        }
        if seg.len() == 0 || dot {
            n -= 1;
        } else {
            let dots = seg.len() == 2 && seg[0] == '.' && seg[1] == '.';
            assert(dots == (seg@ == ".."@)) by {
                reveal_strlit("..");
                if seg@ == ".."@ {
                    assert(seg@[0] == '.' && seg@[1] == '.');
                }
                if dots {
                    assert(seg@ =~= ".."@);
                }
            }
            if dots {
                return None;
            }
            return Some(string_of(seg.as_slice()));
        }
    }
    assert(bufs(segs@).take(0) =~= Seq::<Seq<char>>::empty());
    None
}

/// The base name of the working directory.
pub fn compact_cwd_name(info: &MeInfo) -> (r: Option<String>)
    ensures
        opt_view(r) == spec_compact_cwd_name(*info),
{
    match &info.pwd {
        None => None,
        Some(p) => match file_name(p.raw.as_str()) {
            Some(n) => if n.unicode_len() > 0 {
                Some(n)
            } else {
                None
            },
            None => None,
        },
    }
}

/// `root` for uid 0, the user name otherwise.
pub fn display_user(info: &MeInfo) -> (r: String)
    ensures
        r@ == spec_display_user(*info),
{
    if info.identity.uid == 0 {
        owned("root")
    } else {
        info.identity.user.clone()
    }
}

/// The project-related items of compact text, the fold count on the last.
pub fn compact_project_parts(info: &MeInfo) -> (r: Vec<String>)
    ensures
        strs(r@) == spec_compact_project_parts(*info),
{
    let summary = project_related_items(&info.context, ContextDisplayStyle::Compact);
    let mut visible = summary.visible;
    if summary.overflow > 0 && visible.len() > 0 {
        let last = visible.len() - 1;
        let mut t = visible[last].clone();
        let m = more_text(summary.overflow);
        push_str(&mut t, m.as_str());
        let ghost before = visible@;
        visible.set(last, t);
        assert(strs(visible@) =~= strs(before).update(last as int, strs(before).last() + more(
            summary.overflow as nat,
        )));
    }
    visible
}

/// Both address families condensed to `keep` entries each.
pub fn network_summary(net: &NetworkInfo, keep: usize) -> (r: Option<String>)
    ensures
        opt_view(r) == spec_network_summary(*net, keep as nat),
{
    let mut parts: Vec<String> = Vec::new();
    let a = compact_list(&net.ipv4_local_ips, keep);
    let b = compact_list(&net.ipv6_local_ips, keep);
    if let Some(x) = a {
        parts.push(x);
    }
    if let Some(y) = b {
        parts.push(y);
    }
    assert(strs(parts@) =~= opt_seq(spec_compact_list(strs(net.ipv4_local_ips@), keep as nat))
        + opt_seq(spec_compact_list(strs(net.ipv6_local_ips@), keep as nat)));
    if parts.len() == 0 {
        None
    } else {
        Some(join_strings(&parts, ", "))
    }
}

/// Text output stays bounded: block and compact text show at most three
/// project-related items, the first ones in order, and count the rest in
/// the `(+n)` suffix; nothing is lost or invented.
pub proof fn lemma_related_items_bounded(ctx: ContextInfo, style: ContextDisplayStyle)
    ensures
        ({
            let (visible, overflow) = spec_related_items(ctx, style);
            let all = all_related_items(ctx, style);
            &&& visible == all.take(visible.len() as int)
            &&& visible.len() + overflow == all.len()
            &&& limits_density(style) ==> visible.len() <= MAX_TEXT_CONTEXT_ITEMS
            &&& !limits_density(style) ==> overflow == 0
        }),
{
    let all = all_related_items(ctx, style);
    if !limits_density(style) || all.len() <= MAX_TEXT_CONTEXT_ITEMS {
        assert(all.take(all.len() as int) =~= all);
    }
}

} // verus!
