//! Reading a tool's version out of what its `--version` prints.
use crate::text::{
    opt_view,
    chars_of, is_digit, is_ws_char, owned, split_char, split_char_of, starts_with, string_of,
    string_of_range, trim, trim_str, words, words_of, bufs,
};
use vstd::prelude::*;

verus! {

/// Characters stripped from both ends of a token: quotes, commas, brackets.
pub open spec fn is_token_edge(c: char) -> bool {
    c == '"' || c == '\'' || c == ',' || c == '(' || c == ')' || c == '[' || c == ']'
}

pub open spec fn strip_edges_start(s: Seq<char>) -> Seq<char>
    decreases s.len(),
{
    if s.len() > 0 && is_token_edge(s[0]) {
        strip_edges_start(s.drop_first())
    } else {
        s
    }
}

pub open spec fn strip_edges_end(s: Seq<char>) -> Seq<char>
    decreases s.len(),
{
    if s.len() > 0 && is_token_edge(s.last()) {
        strip_edges_end(s.drop_last())
    } else {
        s
    }
}

/// A token without the quotes, commas and brackets around it.
pub open spec fn spec_trim_token(s: Seq<char>) -> Seq<char> {
    strip_edges_end(strip_edges_start(s))
}

fn is_token_edge_char(c: char) -> (r: bool)
    ensures
        r == is_token_edge(c),
{
    c == '"' || c == '\'' || c == ',' || c == '(' || c == ')' || c == '[' || c == ']'
}

/// Removes quotes, commas and brackets from both ends of a token.
pub fn trim_token(part: &str) -> (r: String)
    ensures
        r@ == spec_trim_token(part@),
{
    let v = chars_of(part);
    let n = v.len();
    let mut a: usize = 0;
    assert(v@.skip(0) =~= v@);
    while a < n && is_token_edge_char(v[a])
        invariant
            a <= n,
            n == v@.len(),
            strip_edges_start(v@) == strip_edges_start(v@.skip(a as int)),
        decreases n - a,
    {
        assert(v@.skip(a as int).drop_first() =~= v@.skip(a + 1));
        a += 1;
    }
    let mut b: usize = n;
    assert(v@.skip(a as int) =~= v@.subrange(a as int, n as int));
    while b > a && is_token_edge_char(v[b - 1])
        invariant
            a <= b <= n,
            n == v@.len(),
            strip_edges_start(v@) == v@.skip(a as int),
            strip_edges_end(v@.skip(a as int)) == strip_edges_end(v@.subrange(a as int, b as int)),
        decreases b - a,
    {
        assert(v@.subrange(a as int, b as int).drop_last() =~= v@.subrange(a as int, b - 1));
        b -= 1;
    }
    string_of_range(&v, a, b)
}

pub open spec fn starts_digit(s: Seq<char>) -> bool {
    s.len() > 0 && is_digit(s[0])
}

/// A token read as a version: one that starts with a digit, or with `v` or
/// `go` followed by a digit (without that prefix).
pub open spec fn spec_normalize_token(p: Seq<char>) -> Option<Seq<char>> {
    if starts_digit(p) {
        Some(p)
    } else if starts_with(p, "v"@) && starts_digit(p.skip(1)) {
        Some(p.skip(1))
    } else if starts_with(p, "go"@) && starts_digit(p.skip(2)) {
        Some(p.skip(2))
    } else {
        None
    }
}

/// The version a token holds, if it holds one.
pub fn normalize_version_token(part: &str) -> (r: Option<String>)
    ensures
        match r {
            Some(s) => spec_normalize_token(part@) == Some(s@),
            None => spec_normalize_token(part@) is None,
        },
{
    proof {
        reveal_strlit("v");
        reveal_strlit("go");
    }
    let v = chars_of(part);
    let n = v.len();
    if n > 0 && '0' <= v[0] && v[0] <= '9' {
        return Some(owned(part));
    }
    if n > 1 && v[0] == 'v' && '0' <= v[1] && v[1] <= '9' {
        proof {
            assert(v@.subrange(0, 1) =~= "v"@);
            assert(v@.skip(1)[0] == v@[1]);
        }
        return Some(string_of_range(&v, 1, n));
    }
    proof {
        if starts_with(v@, "v"@) && starts_digit(v@.skip(1)) {
            assert(v@[0] == v@.subrange(0, 1)[0]);
            assert(v@.skip(1)[0] == v@[1]);
        }
    }
    if n > 2 && v[0] == 'g' && v[1] == 'o' && '0' <= v[2] && v[2] <= '9' {
        proof {
            assert(v@.subrange(0, 2) =~= "go"@);
            assert(v@.skip(2)[0] == v@[2]);
        }
        return Some(string_of_range(&v, 2, n));
    }
    proof {
        if starts_with(v@, "go"@) && starts_digit(v@.skip(2)) {
            assert(v@[0] == v@.subrange(0, 2)[0]);
            assert(v@[1] == v@.subrange(0, 2)[1]);
            assert(v@.skip(2)[0] == v@[2]);
        }
    }
    None
}

/// The first token of `ws` that holds a version.
pub open spec fn first_version(ws: Seq<Seq<char>>) -> Option<Seq<char>>
    decreases ws.len(),
{
    if ws.len() == 0 {
        None
    } else {
        match spec_normalize_token(spec_trim_token(ws[0])) {
            Some(v) => Some(v),
            None => first_version(ws.drop_first()),
        }
    }
}

pub open spec fn spec_extract_version(raw: Seq<char>) -> Seq<char> {
    match first_version(words(raw)) {
        Some(v) => v,
        None => raw,
    }
}

/// The version in a tool's output: the first word that reads as one, else
/// the whole output.
pub fn extract_version(raw: &str) -> (r: String)
    ensures
        r@ == spec_extract_version(raw@),
{
    let v = chars_of(raw);
    let ws = words_of(&v);
    let ghost wv = bufs(ws@);
    let mut i: usize = 0;
    assert(wv.skip(0) =~= wv);
    while i < ws.len()
        invariant
            i <= ws.len(),
            wv == bufs(ws@),
            wv == words(raw@),
            first_version(wv) == first_version(wv.skip(i as int)),
        decreases ws.len() - i,
    {
        let w = string_of(ws[i].as_slice());
        assert(wv.skip(i as int)[0] == w@);
        let t = trim_token(w.as_str());
        if let Some(found) = normalize_version_token(t.as_str()) {
            return found;
        }
        assert(wv.skip(i as int).drop_first() =~= wv.skip(i + 1));
        i += 1;
    }
    owned(raw)
}

pub open spec fn spec_major_version(raw: Seq<char>) -> Seq<char> {
    split_char(raw, '.')[0]
}

/// The part of a version before its first dot.
pub fn major_version(raw: &str) -> (r: String)
    ensures
        r@ == spec_major_version(raw@),
{
    let v = chars_of(raw);
    let parts = split_char_of(&v, '.');
    assert(bufs(parts@).len() >= 1);
    assert(bufs(parts@)[0] == parts@[0]@);
    string_of(parts[0].as_slice())
}

pub open spec fn spec_version_from_output(success: bool, stdout: Seq<char>, stderr: Seq<char>) -> Option<
    Seq<char>,
> {
    let out = trim(stdout);
    let raw = if out.len() > 0 {
        out
    } else {
        trim(stderr)
    };
    if success && raw.len() > 0 {
        Some(spec_extract_version(raw))
    } else {
        None
    }
}

/// The version a successful command printed, on standard output or else on
/// standard error.
pub fn version_from_output(success: bool, stdout: &str, stderr: &str) -> (r: Option<String>)
    ensures
        opt_view(r) == spec_version_from_output(success, stdout@, stderr@),
{
    let out = trim_str(stdout);
    let raw = if out.unicode_len() > 0 {
        out
    } else {
        trim_str(stderr)
    };
    if success && raw.unicode_len() > 0 {
        Some(extract_version(raw.as_str()))
    } else {
        None
    }
}

} // verus!
