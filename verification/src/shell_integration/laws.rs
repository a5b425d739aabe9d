//! What installing and removing managed blocks guarantees.
use crate::cli::{InteractiveMode, LoginMode, Shell};
use crate::shell_integration::{
    block_end, block_lines, end_marker, signature_line, signature_prefix, spec_first_full_block,
    spec_interactive_name, spec_login_name, spec_prompt_lines, spec_remove_full_blocks,
    spec_render_block, spec_shell_name, spec_upsert_block, start_marker, BlockChange,
    spec_count_full_blocks, lemma_find_shift,
};
use crate::text::{
    contains, count_from, count_matches, ends_with, find, find_from, join, lemma_find_from_first,
    lemma_find_from_none, occurs_at, starts_with,
};
use vstd::prelude::*;

verus! {

/// `c` does not occur in `s`.
pub open spec fn lacks(s: Seq<char>, c: char) -> bool {
    forall|i: int| 0 <= i < s.len() ==> s[i] != c
}

proof fn lemma_lacks_concat(a: Seq<char>, b: Seq<char>, c: char)
    requires
        lacks(a, c),
        lacks(b, c),
    ensures
        lacks(a + b, c),
{
    assert forall|i: int| 0 <= i < (a + b).len() implies (a + b)[i] != c by {
        if i < a.len() {
            assert((a + b)[i] == a[i]);
        } else {
            assert((a + b)[i] == b[i - a.len()]);
        }
    }
}

proof fn lemma_marker_chars()
    ensures
        start_marker().len() == 20,
        end_marker().len() == 20,
        start_marker()[0] == '#',
        forall|k: int| 1 <= k < 20 ==> start_marker()[k] != '#',
        lacks(start_marker(), '\n'),
        lacks(end_marker(), '\n'),
        lacks(start_marker(), '<'),
        end_marker()[2] == '<',
{
    reveal_strlit("# >>> me install >>>");
    reveal_strlit("# <<< me install <<<");
}

proof fn lemma_signature_lacks(shell: Shell, login: LoginMode, interactive: InteractiveMode, c: char)
    requires
        c == '<' || c == '>',
    ensures
        lacks(signature_line(shell, login, interactive), c),
{
    reveal_strlit("# me-managed:");
    reveal_strlit(" shell=");
    reveal_strlit(" login=");
    reveal_strlit(" interactive=");
    reveal_strlit(" version=v");
    reveal_strlit("0.4.0");
    reveal_strlit("zsh");
    reveal_strlit("bash");
    reveal_strlit("fish");
    reveal_strlit("nushell");
    reveal_strlit("none");
    reveal_strlit("full");
    reveal_strlit("compact");
    reveal_strlit("prompt");
    let p1 = signature_prefix() + " shell="@;
    lemma_lacks_concat(signature_prefix(), " shell="@, c);
    let p2 = p1 + spec_shell_name(shell);
    lemma_lacks_concat(p1, spec_shell_name(shell), c);
    let p3 = p2 + " login="@;
    lemma_lacks_concat(p2, " login="@, c);
    let p4 = p3 + spec_login_name(login);
    lemma_lacks_concat(p3, spec_login_name(login), c);
    let p5 = p4 + " interactive="@;
    lemma_lacks_concat(p4, " interactive="@, c);
    let p6 = p5 + spec_interactive_name(interactive);
    lemma_lacks_concat(p5, spec_interactive_name(interactive), c);
    let p7 = p6 + " version=v"@;
    lemma_lacks_concat(p6, " version=v"@, c);
    lemma_lacks_concat(p7, "0.4.0"@, c);
}

proof fn lemma_commands_lack(shell: Shell, login: LoginMode, interactive: InteractiveMode, c: char)
    requires
        c == '<' || c == '>',
    ensures
        forall|i: int|
            1 <= i < block_lines(shell, login, interactive).len() - 1 ==> lacks(
                #[trigger] block_lines(shell, login, interactive)[i],
                c,
            ),
{
    reveal_strlit("me");
    reveal_strlit("me --compact");
    reveal_strlit("setopt PROMPT_SUBST");
    reveal_strlit("PROMPT='$(me --compact --fast | tr -d \"\\n\") '${PROMPT:-'%n@%m %~ %# '}");
    reveal_strlit("PS1='$(me --compact --fast | tr -d \"\\n\") '${PS1:-'\\u@\\h:\\w\\$ '}");
    reveal_strlit("function fish_prompt");
    reveal_strlit("    me --compact --fast | string trim");
    reveal_strlit("    echo -n ' '");
    reveal_strlit("end");
    reveal_strlit("$env.PROMPT_COMMAND = { || me --compact --fast | str trim }");
    lemma_marker_chars();
    lemma_signature_lacks(shell, login, interactive, c);
    let ls = block_lines(shell, login, interactive);
    let head = seq![start_marker(), signature_line(shell, login, interactive)];
    let x: Seq<Seq<char>> = match login {
        LoginMode::Off => seq![],
        LoginMode::Full => seq!["me"@],
        LoginMode::Compact => seq!["me --compact"@],
    };
    let y: Seq<Seq<char>> = match interactive {
        InteractiveMode::Off => seq![],
        InteractiveMode::Compact => seq!["me --compact"@],
        InteractiveMode::Prompt => spec_prompt_lines(shell),
    };
    assert(ls == head + x + y + seq![end_marker()]);
    assert forall|i: int| 1 <= i < ls.len() - 1 implies lacks(#[trigger] ls[i], c) by {
        if i < 2 {
            assert(ls[i] == head[i]);
        } else if i < 2 + x.len() {
            assert(ls[i] == x[i - 2]);
        } else {
            assert(ls[i] == y[i - 2 - x.len()]);
        }
    }
}

proof fn lemma_join_lacks(list: Seq<Seq<char>>, sep: Seq<char>, c: char)
    requires
        lacks(sep, c),
        forall|i: int| 0 <= i < list.len() ==> lacks(#[trigger] list[i], c),
    ensures
        lacks(join(list, sep), c),
    decreases list.len(),
{
    if list.len() == 0 {
    } else if list.len() == 1 {
        assert(lacks(list[0], c));
    } else {
        let d = list.drop_last();
        assert forall|i: int| 0 <= i < d.len() implies lacks(#[trigger] d[i], c) by {
            assert(d[i] == list[i]);
        }
        lemma_join_lacks(d, sep, c);
        lemma_lacks_concat(join(d, sep), sep, c);
        assert(lacks(list.last(), c));
        lemma_lacks_concat(join(d, sep) + sep, list.last(), c);
    }
}

proof fn lemma_join_starts_with_first(list: Seq<Seq<char>>, sep: Seq<char>)
    requires
        list.len() >= 1,
    ensures
        list[0].len() <= join(list, sep).len(),
        join(list, sep).subrange(0, list[0].len() as int) == list[0],
    decreases list.len(),
{
    if list.len() > 1 {
        let d = list.drop_last();
        lemma_join_starts_with_first(d, sep);
        assert(d[0] == list[0]);
        let j = join(d, sep);
        assert((j + sep + list.last()).subrange(0, list[0].len() as int) =~= j.subrange(
            0,
            list[0].len() as int,
        ));
    }
}

/// The part of a block before its end marker: the start marker, the
/// signature and the commands, each followed by a newline.
pub open spec fn block_head(shell: Shell, login: LoginMode, interactive: InteractiveMode) -> Seq<char> {
    join(block_lines(shell, login, interactive).drop_last(), "\n"@) + "\n"@
}

/// A block is its head, the end marker and a newline; the head starts with
/// the start marker, ends with a newline, and holds no `<`.
proof fn lemma_block_shape(shell: Shell, login: LoginMode, interactive: InteractiveMode)
    ensures
        ({
            let h = block_head(shell, login, interactive);
            &&& spec_render_block(shell, login, interactive) == h + end_marker() + "\n"@
            &&& h.len() >= 21
            &&& h.subrange(0, 20) == start_marker()
            &&& h[h.len() - 1] == '\n'
            &&& lacks(h, '<')
        }),
{
    reveal_strlit("\n");
    lemma_marker_chars();
    let ls = block_lines(shell, login, interactive);
    let d = ls.drop_last();
    assert(ls.len() >= 3);
    assert(ls.last() == end_marker());
    assert(join(ls, "\n"@) == join(d, "\n"@) + "\n"@ + end_marker());
    let h = block_head(shell, login, interactive);
    assert(spec_render_block(shell, login, interactive) =~= h + end_marker() + "\n"@);
    assert(d[0] == start_marker());
    lemma_join_starts_with_first(d, "\n"@);
    assert(h.subrange(0, 20) =~= join(d, "\n"@).subrange(0, 20));
    lemma_commands_lack(shell, login, interactive, '<');
    assert forall|i: int| 0 <= i < d.len() implies lacks(#[trigger] d[i], '<') by {
        assert(d[i] == ls[i]);
        if i == 0 {
            assert(lacks(start_marker(), '<'));
        }
    }
    lemma_join_lacks(d, "\n"@, '<');
    lemma_lacks_concat(join(d, "\n"@), "\n"@, '<');
}

proof fn lemma_occurs_char(s: Seq<char>, p: Seq<char>, j: int, pos: int)
    requires
        occurs_at(s, p, j),
        j <= pos < j + p.len(),
    ensures
        s[pos] == p[pos - j],
{
    assert(s.subrange(j, j + p.len())[pos - j] == s[pos]);
}

proof fn lemma_find_from_at(s: Seq<char>, p: Seq<char>, i: int, k: int)
    requires
        0 <= i <= k,
        occurs_at(s, p, k),
        forall|j: int| i <= j < k ==> !occurs_at(s, p, j),
    ensures
        find_from(s, p, i) == Some(k),
    decreases k - i,
{
    if i < k {
        lemma_find_from_at(s, p, i + 1, k);
    }
}

/// When a rendered block sits at `q` and no start marker begins before it,
/// that block is the first full block.
proof fn lemma_first_block_is(
    u: Seq<char>,
    q: int,
    shell: Shell,
    login: LoginMode,
    interactive: InteractiveMode,
)
    requires
        0 <= q,
        q + spec_render_block(shell, login, interactive).len() <= u.len(),
        u.subrange(q, q + spec_render_block(shell, login, interactive).len()) == spec_render_block(
            shell,
            login,
            interactive,
        ),
        forall|j: int| 0 <= j < q ==> !occurs_at(u, start_marker(), j),
    ensures
        spec_first_full_block(u) == Some((q, q + spec_render_block(shell, login, interactive).len())),
{
    lemma_marker_chars();
    lemma_block_shape(shell, login, interactive);
    let b = spec_render_block(shell, login, interactive);
    let h = block_head(shell, login, interactive);
    let e = end_marker();
    let m = q + h.len();
    assert forall|k: int| 0 <= k < b.len() implies u[q + k] == b[k] by {
        assert(u.subrange(q, q + b.len())[k] == u[q + k]);
    }
    assert(u.subrange(q, q + 20) =~= start_marker()) by {
        assert forall|k: int| 0 <= k < 20 implies u.subrange(q, q + 20)[k] == start_marker()[k] by {
            assert(b[k] == h[k]);
            assert(h.subrange(0, 20)[k] == h[k]);
        }
    }
    lemma_find_from_at(u, start_marker(), 0, q);
    assert(u.subrange(m, m + 20) =~= e) by {
        assert forall|k: int| 0 <= k < 20 implies u.subrange(m, m + 20)[k] == e[k] by {
            assert(b[h.len() + k] == e[k]);
        }
    }
    assert forall|j: int| q <= j < m implies !occurs_at(u, e, j) by {
        if occurs_at(u, e, j) {
            if j + 2 < m {
                lemma_occurs_char(u, e, j, j + 2);
                assert(u[j + 2] == b[j + 2 - q]);
                assert(b[j + 2 - q] == h[j + 2 - q]);
            } else {
                lemma_occurs_char(u, e, j, m - 1);
                assert(u[m - 1] == b[h.len() - 1]);
                assert(b[h.len() - 1] == h[h.len() - 1]);
            }
        }
    }
    lemma_find_from_at(u, e, q, m);
    reveal_strlit("\n");
    assert(b.len() == h.len() + 21);
    assert(u[m + 20] == b[h.len() + 20int]);
    assert(b[h.len() + 20int] == '\n');
    assert(block_end(u, m) == q + b.len());
}

/// Installing the same block twice changes nothing the second time: the
/// first upsert leaves the block in place, and upserting it again finds it
/// unchanged. This holds whenever the file either already has a full block
/// or holds no start marker (a lone start marker would be taken as the
/// start of the appended block).
pub proof fn lemma_upsert_idempotent(
    e: Seq<char>,
    shell: Shell,
    login: LoginMode,
    interactive: InteractiveMode,
)
    requires
        spec_first_full_block(e) is Some || !contains(e, start_marker()),
    ensures
        ({
            let b = spec_render_block(shell, login, interactive);
            let u = spec_upsert_block(e, b).0;
            spec_upsert_block(u, b) == (u, BlockChange::Unchanged)
        }),
{
    lemma_marker_chars();
    lemma_block_shape(shell, login, interactive);
    crate::shell_integration::lemma_first_full_block_bounds(e);
    let b = spec_render_block(shell, login, interactive);
    let u = spec_upsert_block(e, b).0;
    reveal_strlit("\n");
    reveal_strlit("\n\n");
    let q = match spec_first_full_block(e) {
        Some((s, t)) => s,
        None => if e.len() == 0 {
            0int
        } else if e.last() == '\n' {
            e.len() + 1int
        } else {
            e.len() + 2int
        },
    };
    assert(u.subrange(q, q + b.len()) =~= b);
    assert forall|j: int| 0 <= j < q implies !occurs_at(u, start_marker(), j) by {
        match spec_first_full_block(e) {
            Some((s, t)) => {
                assert(find(e, start_marker()) == Some(s));
                if j + 20 <= s {
                    lemma_find_from_first(e, start_marker(), 0, j);
                    assert(u.subrange(j, j + 20) =~= e.subrange(j, j + 20));
                } else if occurs_at(u, start_marker(), j) {
                    lemma_occurs_char(u, start_marker(), j, s);
                    assert(u[s] == b[0]);
                    assert(b[0] == start_marker()[0]) by {
                        let h = block_head(shell, login, interactive);
                        assert(b[0] == h[0]);
                        assert(h.subrange(0, 20)[0] == h[0]);
                    }
                }
            },
            None => {
                assert(find(e, start_marker()) is None);
                if j + 20 <= e.len() {
                    lemma_find_from_none(e, start_marker(), 0, j);
                    assert(u.subrange(j, j + 20) =~= e.subrange(j, j + 20));
                } else if occurs_at(u, start_marker(), j) {
                    let pos = if j <= e.len() {
                        e.len() as int
                    } else {
                        j
                    };
                    lemma_occurs_char(u, start_marker(), j, pos);
                    assert(u[pos] == '\n');
                }
            },
        }
    }
    lemma_first_block_is(u, q, shell, login, interactive);
    assert(u.take(q) + b + u.skip(q + b.len()) =~= u);
}

/// Uninstalling removes exactly the managed block and keeps every other
/// line: text before and after a block, neither holding a start marker,
/// comes back joined, with one block removed.
pub proof fn lemma_remove_keeps_unmanaged(
    x: Seq<char>,
    y: Seq<char>,
    shell: Shell,
    login: LoginMode,
    interactive: InteractiveMode,
)
    requires
        !contains(x, start_marker()),
        !contains(y, start_marker()),
    ensures
        spec_remove_full_blocks(x + spec_render_block(shell, login, interactive) + y) == (x + y, 1nat),
{
    lemma_marker_chars();
    lemma_block_shape(shell, login, interactive);
    let b = spec_render_block(shell, login, interactive);
    let u = x + b + y;
    let q = x.len() as int;
    assert(u.subrange(q, q + b.len()) =~= b);
    assert forall|j: int| 0 <= j < q implies !occurs_at(u, start_marker(), j) by {
        if j + 20 <= q {
            lemma_find_from_none(x, start_marker(), 0, j);
            assert(u.subrange(j, j + 20) =~= x.subrange(j, j + 20));
        } else if occurs_at(u, start_marker(), j) {
            lemma_occurs_char(u, start_marker(), j, q);
            assert(u[q] == b[0]);
            let h = block_head(shell, login, interactive);
            assert(b[0] == h[0]);
            assert(h.subrange(0, 20)[0] == h[0]);
        }
    }
    lemma_first_block_is(u, q, shell, login, interactive);
    crate::shell_integration::lemma_markers_len();
    crate::text::lemma_find_from_bounds(u, start_marker(), 0);
    let s = find(u, start_marker()).unwrap();
    assert(s == q);
    let j = find_from(u, end_marker(), s).unwrap();
    crate::text::lemma_find_from_bounds(u, end_marker(), s);
    assert(block_end(u, j) == q + b.len());
    assert(u.skip(q + b.len()) =~= y);
    assert(u.take(q) =~= x);
    assert(spec_remove_full_blocks(y) == (y, 0nat));
}

/// The text an install leaves before a block it appends: the file itself,
/// then a blank line to separate it from the block when the file is not
/// empty.
pub open spec fn text_before_appended(e: Seq<char>) -> Seq<char> {
    if e.len() == 0 {
        e
    } else if e.last() == '\n' {
        e + "\n"@
    } else {
        e + "\n\n"@
    }
}

/// The newlines an install adds hold no start marker.
proof fn lemma_before_appended_lacks_marker(e: Seq<char>)
    requires
        !contains(e, start_marker()),
    ensures
        !contains(text_before_appended(e), start_marker()),
{
    lemma_marker_chars();
    reveal_strlit("\n");
    reveal_strlit("\n\n");
    let x = text_before_appended(e);
    assert(!contains(x, start_marker())) by {
        crate::text::lemma_find_from_bounds(x, start_marker(), 0);
        if let Some(j) = find(x, start_marker()) {
            if j + 20 <= e.len() {
                assert(x.subrange(j, j + 20) =~= e.subrange(j, j + 20));
                lemma_find_from_none(e, start_marker(), 0, j);
            } else {
                let pos = if j < e.len() {
                    e.len() as int
                } else {
                    j
                };
                lemma_occurs_char(x, start_marker(), j, pos);
                assert(x[pos] == '\n');
            }
        }
    }
}

/// Uninstalling undoes installing: in a file that holds no start marker,
/// installing a block and then removing the full blocks gives back the file
/// with only the separating newlines that the install added, and one block
/// removed.
pub proof fn lemma_remove_undoes_install(
    e: Seq<char>,
    shell: Shell,
    login: LoginMode,
    interactive: InteractiveMode,
)
    requires
        !contains(e, start_marker()),
    ensures
        ({
            let u = spec_upsert_block(e, spec_render_block(shell, login, interactive)).0;
            spec_remove_full_blocks(u) == (text_before_appended(e), 1nat)
        }),
{
    lemma_marker_chars();
    reveal_strlit("\n");
    reveal_strlit("\n\n");
    let b = spec_render_block(shell, login, interactive);
    let x = text_before_appended(e);
    assert(spec_upsert_block(e, b).0 =~= x + b + seq![]);
    lemma_before_appended_lacks_marker(e);
    assert(!contains(seq![], start_marker()));
    lemma_remove_keeps_unmanaged(x, seq![], shell, login, interactive);
    assert(x + seq![] =~= x);
}

/// What follows the first line of a list joined by `sep` holds no `c`
/// when the separator and the other lines hold none.
proof fn lemma_join_tail_lacks(list: Seq<Seq<char>>, sep: Seq<char>, c: char)
    requires
        list.len() >= 1,
        lacks(sep, c),
        forall|i: int| 1 <= i < list.len() ==> lacks(#[trigger] list[i], c),
    ensures
        list[0].len() <= join(list, sep).len(),
        lacks(join(list, sep).skip(list[0].len() as int), c),
    decreases list.len(),
{
    lemma_join_starts_with_first(list, sep);
    if list.len() == 1 {
        assert(join(list, sep).skip(list[0].len() as int) =~= seq![]);
    } else {
        let d = list.drop_last();
        assert forall|i: int| 1 <= i < d.len() implies lacks(#[trigger] d[i], c) by {
            assert(d[i] == list[i]);
        }
        lemma_join_tail_lacks(d, sep, c);
        assert(d[0] == list[0]);
        let n = list[0].len() as int;
        let j = join(d, sep);
        assert(join(list, sep).skip(n) =~= j.skip(n) + sep + list.last());
        assert(lacks(list.last(), c));
        lemma_lacks_concat(j.skip(n), sep, c);
        lemma_lacks_concat(j.skip(n) + sep, list.last(), c);
    }
}

/// After its start marker, a rendered block holds no `>`.
proof fn lemma_block_tail_lacks_gt(shell: Shell, login: LoginMode, interactive: InteractiveMode)
    ensures
        spec_render_block(shell, login, interactive).len() >= 20,
        lacks(spec_render_block(shell, login, interactive).skip(20), '>'),
{
    lemma_marker_chars();
    lemma_block_shape(shell, login, interactive);
    reveal_strlit("\n");
    reveal_strlit("# <<< me install <<<");
    let ls = block_lines(shell, login, interactive);
    let d = ls.drop_last();
    assert(d[0] == start_marker());
    lemma_commands_lack(shell, login, interactive, '>');
    assert forall|i: int| 1 <= i < d.len() implies lacks(#[trigger] d[i], '>') by {
        assert(d[i] == ls[i]);
    }
    lemma_join_tail_lacks(d, "\n"@, '>');
    let j = join(d, "\n"@);
    let b = spec_render_block(shell, login, interactive);
    assert(b =~= j + "\n"@ + end_marker() + "\n"@);
    assert(b.skip(20) =~= j.skip(20) + "\n"@ + end_marker() + "\n"@);
    lemma_lacks_concat(j.skip(20), "\n"@, '>');
    lemma_lacks_concat(j.skip(20) + "\n"@, end_marker(), '>');
    lemma_lacks_concat(j.skip(20) + "\n"@ + end_marker(), "\n"@, '>');
}

proof fn lemma_find_none_after(s: Seq<char>, p: Seq<char>, i: int)
    requires
        forall|k: int| i <= k ==> !occurs_at(s, p, k),
    ensures
        find_from(s, p, i) is None,
    decreases s.len() + 1 - i,
{
    if !(i < 0 || i + p.len() > s.len()) {
        assert(!occurs_at(s, p, i));
        lemma_find_none_after(s, p, i + 1);
    }
}

/// Installing into a file that holds no start marker keeps the file's text
/// at the front and appends the block at the end, so that the result holds
/// exactly one start marker; installing once more then changes nothing.
pub proof fn lemma_install_appends_one_block(
    e: Seq<char>,
    shell: Shell,
    login: LoginMode,
    interactive: InteractiveMode,
)
    requires
        !contains(e, start_marker()),
    ensures
        ({
            let b = spec_render_block(shell, login, interactive);
            let (u, change) = spec_upsert_block(e, b);
            &&& change == BlockChange::Added
            &&& starts_with(u, e)
            &&& ends_with(u, b)
            &&& count_matches(u, start_marker()) == 1
            &&& spec_upsert_block(u, b) == (u, BlockChange::Unchanged)
        }),
{
    lemma_marker_chars();
    lemma_block_shape(shell, login, interactive);
    lemma_block_tail_lacks_gt(shell, login, interactive);
    lemma_upsert_idempotent(e, shell, login, interactive);
    lemma_before_appended_lacks_marker(e);
    reveal_strlit("\n");
    reveal_strlit("\n\n");
    reveal_strlit("# >>> me install >>>");
    let sm = start_marker();
    let b = spec_render_block(shell, login, interactive);
    let h = block_head(shell, login, interactive);
    let x = text_before_appended(e);
    let u = x + b;
    let q = x.len() as int;
    assert(spec_upsert_block(e, b).0 =~= u);
    assert(u.subrange(0, e.len() as int) =~= e);
    assert(u.subrange(u.len() - b.len(), u.len() as int) =~= b);
    assert forall|j: int| 0 <= j < q implies !occurs_at(u, sm, j) by {
        if j + 20 <= q {
            lemma_find_from_none(x, sm, 0, j);
            assert(u.subrange(j, j + 20) =~= x.subrange(j, j + 20));
        } else if occurs_at(u, sm, j) {
            lemma_occurs_char(u, sm, j, q);
            assert(u[q] == b[0]);
            assert(b[0] == h[0]);
            assert(h.subrange(0, 20)[0] == h[0]);
        }
    }
    assert(u.subrange(q, q + 20) =~= sm) by {
        assert forall|k: int| 0 <= k < 20 implies u.subrange(q, q + 20)[k] == sm[k] by {
            assert(u[q + k] == b[k]);
            assert(b[k] == h[k]);
            assert(h.subrange(0, 20)[k] == h[k]);
        }
    }
    lemma_find_from_at(u, sm, 0, q);
    assert forall|k: int| q + 20 <= k implies !occurs_at(u, sm, k) by {
        if occurs_at(u, sm, k) {
            lemma_occurs_char(u, sm, k, k + 2);
            assert(u[k + 2] == b[k + 2 - q]);
            assert(b[k + 2 - q] == b.skip(20)[k + 2 - q - 20]);
        }
    }
    lemma_find_none_after(u, sm, q + 20);
    assert(count_from(u, sm, 0) == 1 + count_from(u, sm, q + 20));
}

/// A leading newline does not change how many full blocks a text holds.
proof fn lemma_count_skips_newline(x: Seq<char>)
    requires
        x.len() > 0,
        x[0] == '\n',
    ensures
        spec_count_full_blocks(x) == spec_count_full_blocks(x.drop_first()),
{
    lemma_marker_chars();
    crate::shell_integration::lemma_markers_len();
    let y = x.drop_first();
    assert(x.skip(1) =~= y);
    assert(!occurs_at(x, start_marker(), 0)) by {
        if occurs_at(x, start_marker(), 0) {
            lemma_occurs_char(x, start_marker(), 0, 0);
        }
    }
    assert(find(x, start_marker()) == find_from(x, start_marker(), 1));
    lemma_find_shift(x, start_marker(), 1, 0);
    match find(y, start_marker()) {
        None => {},
        Some(s) => {
            crate::text::lemma_find_from_bounds(y, start_marker(), 0);
            lemma_find_shift(x, end_marker(), 1, s);
            match find_from(y, end_marker(), s) {
                None => {},
                Some(j) => {
                    crate::text::lemma_find_from_bounds(y, end_marker(), s);
                    assert(y.skip(j + 20) =~= x.skip(j + 21));
                },
            }
        },
    }
}

/// Uninstalling removes exactly as many blocks as scanning the file
/// counted.
pub proof fn lemma_removed_matches_count(e: Seq<char>)
    ensures
        spec_remove_full_blocks(e).1 == spec_count_full_blocks(e),
    decreases e.len(),
{
    lemma_marker_chars();
    crate::shell_integration::lemma_markers_len();
    match find(e, start_marker()) {
        None => {},
        Some(s) => {
            crate::text::lemma_find_from_bounds(e, start_marker(), 0);
            match find_from(e, end_marker(), s) {
                None => {},
                Some(j) => {
                    crate::text::lemma_find_from_bounds(e, end_marker(), s);
                    let t = block_end(e, j);
                    lemma_removed_matches_count(e.skip(t));
                    if t == j + 21 {
                        let x = e.skip(j + 20);
                        assert(x[0] == e[j + 20]);
                        lemma_count_skips_newline(x);
                        assert(x.drop_first() =~= e.skip(t));
                    }
                },
            }
        },
    }
}

} // verus!
