//! Character-level text primitives with exact specifications.
//!
//! Strings are reasoned about through their `Seq<char>` views. Most routines
//! work on `[char]` buffers so that indexing is constant time and every
//! loop invariant can be stated over subranges.
use vstd::prelude::*;

verus! {

// ---------------------------------------------------------------------------
// Specifications
// ---------------------------------------------------------------------------

/// Unicode `White_Space`, exactly the set that `char::is_whitespace` accepts.
pub open spec fn is_ws(c: char) -> bool {
    ||| ('\u{9}' <= c && c <= '\u{d}')
    ||| c == ' '
    ||| c == '\u{85}'
    ||| c == '\u{a0}'
    ||| c == '\u{1680}'
    ||| ('\u{2000}' <= c && c <= '\u{200a}')
    ||| c == '\u{2028}'
    ||| c == '\u{2029}'
    ||| c == '\u{202f}'
    ||| c == '\u{205f}'
    ||| c == '\u{3000}'
}

pub open spec fn trim_start(s: Seq<char>) -> Seq<char>
    decreases s.len(),
{
    if s.len() > 0 && is_ws(s[0]) {
        trim_start(s.drop_first())
    } else {
        s
    }
}

pub open spec fn trim_end(s: Seq<char>) -> Seq<char>
    decreases s.len(),
{
    if s.len() > 0 && is_ws(s.last()) {
        trim_end(s.drop_last())
    } else {
        s
    }
}

/// What `str::trim` leaves of `s`.
pub open spec fn trim(s: Seq<char>) -> Seq<char> {
    trim_end(trim_start(s))
}

pub open spec fn starts_with(s: Seq<char>, p: Seq<char>) -> bool {
    p.len() <= s.len() && s.subrange(0, p.len() as int) == p
}

pub open spec fn ends_with(s: Seq<char>, p: Seq<char>) -> bool {
    p.len() <= s.len() && s.subrange(s.len() - p.len(), s.len() as int) == p
}

/// `str::strip_prefix`.
pub open spec fn strip_prefix(s: Seq<char>, p: Seq<char>) -> Option<Seq<char>> {
    if starts_with(s, p) {
        Some(s.subrange(p.len() as int, s.len() as int))
    } else {
        None
    }
}

/// `str::strip_suffix`.
pub open spec fn strip_suffix(s: Seq<char>, p: Seq<char>) -> Option<Seq<char>> {
    if ends_with(s, p) {
        Some(s.subrange(0, s.len() - p.len()))
    } else {
        None
    }
}

pub open spec fn occurs_at(s: Seq<char>, p: Seq<char>, i: int) -> bool {
    0 <= i && i + p.len() <= s.len() && s.subrange(i, i + p.len()) == p
}

/// Leftmost occurrence of `p` in `s` at or after index `i`.
pub open spec fn find_from(s: Seq<char>, p: Seq<char>, i: int) -> Option<int>
    decreases s.len() + 1 - i,
{
    if i < 0 || i + p.len() > s.len() {
        None
    } else if occurs_at(s, p, i) {
        Some(i)
    } else {
        find_from(s, p, i + 1)
    }
}

/// `str::find`.
pub open spec fn find(s: Seq<char>, p: Seq<char>) -> Option<int> {
    find_from(s, p, 0)
}

/// `str::contains`.
pub open spec fn contains(s: Seq<char>, p: Seq<char>) -> bool {
    find(s, p) is Some
}

/// Number of non-overlapping occurrences of `p` at or after `i`, scanning
/// left to right: `str::matches(..).count()` for a non-empty pattern.
pub open spec fn count_from(s: Seq<char>, p: Seq<char>, i: int) -> nat
    decreases s.len() + 1 - i,
{
    if p.len() == 0 || i < 0 {
        0
    } else {
        match find_from(s, p, i) {
            None => 0,
            Some(j) => {
                proof {
                    lemma_find_from_bounds(s, p, i);
                }
                1 + count_from(s, p, j + p.len())
            },
        }
    }
}

pub open spec fn count_matches(s: Seq<char>, p: Seq<char>) -> nat {
    count_from(s, p, 0)
}

/// Length of the maximal run of non-whitespace characters that starts `s`.
pub open spec fn run_len(s: Seq<char>) -> nat
    decreases s.len(),
{
    if s.len() == 0 || is_ws(s[0]) {
        0
    } else {
        1 + run_len(s.drop_first())
    }
}

/// `str::split_whitespace`.
pub open spec fn words(s: Seq<char>) -> Seq<Seq<char>>
    decreases s.len(),
{
    if s.len() == 0 {
        seq![]
    } else if is_ws(s[0]) {
        words(s.drop_first())
    } else {
        proof {
            lemma_run_len_bounds(s);
        }
        seq![s.take(run_len(s) as int)] + words(s.skip(run_len(s) as int))
    }
}

/// Index of the first `c` in `s`, or `s.len()` when there is none.
pub open spec fn index_of_char(s: Seq<char>, c: char) -> nat
    decreases s.len(),
{
    if s.len() == 0 || s[0] == c {
        0
    } else {
        1 + index_of_char(s.drop_first(), c)
    }
}

/// `str::lines`: split at `\n`, drop a `\r` that precedes a `\n`, and
/// produce no final empty line.
pub open spec fn lines(s: Seq<char>) -> Seq<Seq<char>>
    decreases s.len(),
{
    if s.len() == 0 {
        seq![]
    } else {
        let k = index_of_char(s, '\n');
        proof {
            lemma_index_of_char_bounds(s, '\n');
        }
        if k < s.len() {
            let line = s.take(k as int);
            let line = if line.len() > 0 && line.last() == '\r' {
                line.drop_last()
            } else {
                line
            };
            seq![line] + lines(s.skip((k + 1) as int))
        } else {
            seq![s]
        }
    }
}

/// `split` on one character: every piece between separators, empty ones kept.
pub open spec fn split_char(s: Seq<char>, c: char) -> Seq<Seq<char>>
    decreases s.len(),
{
    let k = index_of_char(s, c);
    proof {
        lemma_index_of_char_bounds(s, c);
    }
    if k < s.len() {
        seq![s.take(k as int)] + split_char(s.skip((k + 1) as int), c)
    } else {
        seq![s]
    }
}

/// `slice::join` with a separator.
pub open spec fn join(list: Seq<Seq<char>>, sep: Seq<char>) -> Seq<char>
    decreases list.len(),
{
    if list.len() == 0 {
        seq![]
    } else if list.len() == 1 {
        list[0]
    } else {
        join(list.drop_last(), sep) + sep + list.last()
    }
}

/// Views of a sequence of strings.
pub open spec fn strs(v: Seq<String>) -> Seq<Seq<char>> {
    v.map_values(|s: String| s@)
}

/// `n` spaces.
pub open spec fn spaces(n: nat) -> Seq<char> {
    Seq::new(n, |i: int| ' ')
}

/// `s` padded with spaces on the right to at least `w` characters, as
/// `format!("{s:<w$}")` writes it.
pub open spec fn pad_right(s: Seq<char>, w: nat) -> Seq<char> {
    if s.len() < w {
        s + spaces((w - s.len()) as nat)
    } else {
        s
    }
}

/// View of an optional string.
pub open spec fn opt_view(o: Option<String>) -> Option<Seq<char>> {
    match o {
        Some(s) => Some(s@),
        None => None,
    }
}

/// Views of a sequence of character buffers.
pub open spec fn bufs(v: Seq<Vec<char>>) -> Seq<Seq<char>> {
    v.map_values(|s: Vec<char>| s@)
}

pub open spec fn digit(d: nat) -> char {
    if d == 0 {
        '0'
    } else if d == 1 {
        '1'
    } else if d == 2 {
        '2'
    } else if d == 3 {
        '3'
    } else if d == 4 {
        '4'
    } else if d == 5 {
        '5'
    } else if d == 6 {
        '6'
    } else if d == 7 {
        '7'
    } else if d == 8 {
        '8'
    } else {
        '9'
    }
}

/// Decimal notation of `n`, as `Display` writes an unsigned integer.
pub open spec fn dec(n: nat) -> Seq<char>
    decreases n,
{
    if n < 10 {
        seq![digit(n)]
    } else {
        dec(n / 10).push(digit(n % 10))
    }
}

pub open spec fn is_digit(c: char) -> bool {
    '0' <= c && c <= '9'
}

pub open spec fn digit_value(c: char) -> nat {
    (c as u32 - '0' as u32) as nat
}

/// Value of a string of decimal digits (most significant first).
pub open spec fn digits_value(s: Seq<char>) -> nat
    decreases s.len(),
{
    if s.len() == 0 {
        0
    } else {
        digits_value(s.drop_last()) * 10 + digit_value(s.last())
    }
}

pub open spec fn all_digits(s: Seq<char>) -> bool {
    forall|i: int| 0 <= i < s.len() ==> is_digit(#[trigger] s[i])
}

/// What `<u64 as FromStr>::from_str` accepts: an optional `+`, then one
/// or more decimal digits whose value fits.
pub open spec fn parse_u64(s: Seq<char>) -> Option<u64> {
    let body = if s.len() > 0 && s[0] == '+' {
        s.drop_first()
    } else {
        s
    };
    if body.len() > 0 && all_digits(body) && digits_value(body) <= u64::MAX {
        Some(digits_value(body) as u64)
    } else {
        None
    }
}

/// Lexicographic order on code points, which is the order of `str`.
pub open spec fn text_le(a: Seq<char>, b: Seq<char>) -> bool
    decreases a.len(),
{
    if a.len() == 0 {
        true
    } else if b.len() == 0 {
        false
    } else if a[0] != b[0] {
        a[0] < b[0]
    } else {
        text_le(a.drop_first(), b.drop_first())
    }
}

/// ASCII lower-casing of one character.
pub open spec fn ascii_lower(c: char) -> char {
    if 'A' <= c && c <= 'Z' {
        ((c as u32) + 32) as char
    } else {
        c
    }
}

/// `str::eq_ignore_ascii_case`.
pub open spec fn eq_ignore_ascii_case(a: Seq<char>, b: Seq<char>) -> bool {
    a.len() == b.len() && forall|i: int|
        0 <= i < a.len() ==> ascii_lower(#[trigger] a[i]) == ascii_lower(b[i])
}

/// `str::to_ascii_lowercase`.
pub open spec fn lower_ascii(s: Seq<char>) -> Seq<char> {
    s.map_values(|c: char| ascii_lower(c))
}

/// Every `from` replaced by `to`.
pub open spec fn replace_char(s: Seq<char>, from: char, to: char) -> Seq<char> {
    s.map_values(|c: char| if c == from { to } else { c })
}

// ---------------------------------------------------------------------------
// Lemmas
// ---------------------------------------------------------------------------

pub proof fn lemma_find_from_bounds(s: Seq<char>, p: Seq<char>, i: int)
    ensures
        find_from(s, p, i) matches Some(j) ==> i <= j && occurs_at(s, p, j)
            && j + p.len() <= s.len(),
    decreases s.len() + 1 - i,
{
    if i < 0 || i + p.len() > s.len() {
    } else if occurs_at(s, p, i) {
    } else {
        lemma_find_from_bounds(s, p, i + 1);
    }
}

pub proof fn lemma_find_from_none(s: Seq<char>, p: Seq<char>, i: int, k: int)
    requires
        0 <= i <= k,
        find_from(s, p, i) is None,
    ensures
        !occurs_at(s, p, k),
    decreases s.len() + 1 - i,
{
    if i + p.len() > s.len() {
    } else if occurs_at(s, p, i) {
    } else if i < k {
        lemma_find_from_none(s, p, i + 1, k);
    }
}

pub proof fn lemma_find_from_first(s: Seq<char>, p: Seq<char>, i: int, k: int)
    requires
        0 <= i <= k,
        find_from(s, p, i) matches Some(j) && k < j,
    ensures
        !occurs_at(s, p, k),
    decreases s.len() + 1 - i,
{
    if i + p.len() > s.len() {
    } else if occurs_at(s, p, i) {
    } else if i < k {
        lemma_find_from_first(s, p, i + 1, k);
    }
}

pub proof fn lemma_run_len_bounds(s: Seq<char>)
    ensures
        run_len(s) <= s.len(),
        s.len() > 0 && !is_ws(s[0]) ==> run_len(s) >= 1,
        forall|i: int| 0 <= i < run_len(s) ==> !is_ws(#[trigger] s[i]),
        run_len(s) < s.len() ==> is_ws(s[run_len(s) as int]),
    decreases s.len(),
{
    if s.len() == 0 || is_ws(s[0]) {
    } else {
        lemma_run_len_bounds(s.drop_first());
        assert forall|i: int| 0 <= i < run_len(s) implies !is_ws(#[trigger] s[i]) by {
            if i > 0 {
                assert(s[i] == s.drop_first()[i - 1]);
            }
        }
    }
}

/// A run of non-whitespace characters of length `k`, closed by the end or a
/// whitespace character, is exactly what `run_len` measures.
pub proof fn lemma_run_len_exact(s: Seq<char>, k: int)
    requires
        0 <= k <= s.len(),
        forall|i: int| 0 <= i < k ==> !is_ws(#[trigger] s[i]),
        k == s.len() || is_ws(s[k]),
    ensures
        run_len(s) == k,
    decreases k,
{
    if k == 0 {
    } else {
        let t = s.drop_first();
        assert forall|i: int| 0 <= i < k - 1 implies !is_ws(#[trigger] t[i]) by {
            assert(t[i] == s[i + 1]);
        }
        if k - 1 < t.len() {
            assert(t[k - 1] == s[k]);
        }
        lemma_run_len_exact(t, k - 1);
    }
}

pub proof fn lemma_index_of_char_bounds(s: Seq<char>, c: char)
    ensures
        index_of_char(s, c) <= s.len(),
        forall|i: int| 0 <= i < index_of_char(s, c) ==> #[trigger] s[i] != c,
        index_of_char(s, c) < s.len() ==> s[index_of_char(s, c) as int] == c,
    decreases s.len(),
{
    if s.len() == 0 || s[0] == c {
    } else {
        lemma_index_of_char_bounds(s.drop_first(), c);
        assert forall|i: int| 0 <= i < index_of_char(s, c) implies #[trigger] s[i] != c by {
            if i > 0 {
                assert(s[i] == s.drop_first()[i - 1]);
            }
        }
    }
}

pub proof fn lemma_index_of_char_exact(s: Seq<char>, c: char, k: int)
    requires
        0 <= k <= s.len(),
        forall|i: int| 0 <= i < k ==> #[trigger] s[i] != c,
        k == s.len() || s[k] == c,
    ensures
        index_of_char(s, c) == k,
    decreases k,
{
    if k == 0 {
    } else {
        let t = s.drop_first();
        assert forall|i: int| 0 <= i < k - 1 implies #[trigger] t[i] != c by {
            assert(t[i] == s[i + 1]);
        }
        if k - 1 < t.len() {
            assert(t[k - 1] == s[k]);
        }
        lemma_index_of_char_exact(t, c, k - 1);
    }
}

pub proof fn lemma_trim_start_skip(s: Seq<char>, k: int)
    requires
        0 <= k <= s.len(),
        forall|i: int| 0 <= i < k ==> is_ws(#[trigger] s[i]),
    ensures
        trim_start(s) == trim_start(s.skip(k)),
    decreases k,
{
    if k > 0 {
        let t = s.drop_first();
        assert forall|i: int| 0 <= i < k - 1 implies is_ws(#[trigger] t[i]) by {
            assert(t[i] == s[i + 1]);
        }
        lemma_trim_start_skip(t, k - 1);
        assert(t.skip(k - 1) =~= s.skip(k));
    } else {
        assert(s.skip(0) =~= s);
    }
}

pub proof fn lemma_trim_end_take(s: Seq<char>, k: int)
    requires
        0 <= k <= s.len(),
        forall|i: int| k <= i < s.len() ==> is_ws(#[trigger] s[i]),
    ensures
        trim_end(s) == trim_end(s.take(k)),
    decreases s.len() - k,
{
    if k < s.len() {
        let t = s.drop_last();
        assert forall|i: int| k <= i < t.len() implies is_ws(#[trigger] t[i]) by {
            assert(t[i] == s[i]);
        }
        lemma_trim_end_take(t, k);
        assert(t.take(k) =~= s.take(k));
    } else {
        assert(s.take(k) =~= s);
    }
}

pub proof fn lemma_join_push(list: Seq<Seq<char>>, sep: Seq<char>, x: Seq<char>)
    ensures
        join(list.push(x), sep) == if list.len() == 0 {
            x
        } else {
            join(list, sep) + sep + x
        },
{
    assert(list.push(x).drop_last() =~= list);
}

pub proof fn lemma_digits_value_push(s: Seq<char>, c: char)
    ensures
        digits_value(s.push(c)) == digits_value(s) * 10 + digit_value(c),
{
    assert(s.push(c).drop_last() =~= s);
}

// ---------------------------------------------------------------------------
// Executable primitives
// ---------------------------------------------------------------------------

/// `String::push`: appends one character; the string afterwards holds the
/// old characters followed by `c`, as std documents.
#[verifier::external_body]
pub(crate) fn push_char(s: &mut String, c: char)
    ensures
        final(s)@ == old(s)@.push(c),
{
    s.push(c);
}

/// Appends a string slice.
pub fn push_str(s: &mut String, t: &str)
    ensures
        final(s)@ == old(s)@ + t@,
{
    s.append(t);
}

/// An owned copy of a string slice.
pub fn owned(t: &str) -> (s: String)
    ensures
        s@ == t@,
{
    String::from_str(t)
}

/// The characters of a string slice, in order.
pub fn chars_of(s: &str) -> (v: Vec<char>)
    ensures
        v@ == s@,
{
    let mut v: Vec<char> = Vec::new();
    let n = s.unicode_len();
    let mut i: usize = 0;
    while i < n
        invariant
            n == s@.len(),
            i <= n,
            v@ == s@.subrange(0, i as int),
        decreases n - i,
    {
        v.push(s.get_char(i));
        i += 1;
        assert(v@ =~= s@.subrange(0, i as int));
    }
    assert(v@ =~= s@);
    v
}

/// A string holding exactly the given characters.
pub fn string_of(v: &[char]) -> (s: String)
    ensures
        s@ == v@,
{
    let mut s = String::new();
    let mut i: usize = 0;
    while i < v.len()
        invariant
            i <= v.len(),
            s@ == v@.subrange(0, i as int),
        decreases v.len() - i,
    {
        push_char(&mut s, v[i]);
        i += 1;
        assert(s@ =~= v@.subrange(0, i as int));
    }
    assert(s@ =~= v@);
    s
}

/// A string holding the characters `v[lo..hi]`.
pub fn string_of_range(v: &[char], lo: usize, hi: usize) -> (s: String)
    requires
        lo <= hi <= v.len(),
    ensures
        s@ == v@.subrange(lo as int, hi as int),
{
    let mut s = String::new();
    let mut i: usize = lo;
    while i < hi
        invariant
            lo <= i <= hi <= v.len(),
            s@ == v@.subrange(lo as int, i as int),
        decreases hi - i,
    {
        push_char(&mut s, v[i]);
        i += 1;
        assert(s@ =~= v@.subrange(lo as int, i as int));
    }
    s
}

/// The characters `v[lo..hi]` as a new buffer.
pub fn slice_range(v: &[char], lo: usize, hi: usize) -> (r: Vec<char>)
    requires
        lo <= hi <= v.len(),
    ensures
        r@ == v@.subrange(lo as int, hi as int),
{
    let mut r: Vec<char> = Vec::new();
    let mut i: usize = lo;
    while i < hi
        invariant
            lo <= i <= hi <= v.len(),
            r@ == v@.subrange(lo as int, i as int),
        decreases hi - i,
    {
        r.push(v[i]);
        i += 1;
        assert(r@ =~= v@.subrange(lo as int, i as int));
    }
    r
}

/// `char::is_whitespace`.
pub fn is_ws_char(c: char) -> (b: bool)
    ensures
        b == is_ws(c),
{
    ('\u{9}' <= c && c <= '\u{d}') || c == ' ' || c == '\u{85}' || c == '\u{a0}' || c
        == '\u{1680}' || ('\u{2000}' <= c && c <= '\u{200a}') || c == '\u{2028}' || c
        == '\u{2029}' || c == '\u{202f}' || c == '\u{205f}' || c == '\u{3000}'
}

/// Bounds of the trimmed part of `v[lo..hi]`.
pub fn trim_bounds(v: &[char], lo: usize, hi: usize) -> (r: (usize, usize))
    requires
        lo <= hi <= v.len(),
    ensures
        lo <= r.0 <= r.1 <= hi,
        v@.subrange(r.0 as int, r.1 as int) == trim(v@.subrange(lo as int, hi as int)),
{
    let ghost s = v@.subrange(lo as int, hi as int);
    let mut a = lo;
    while a < hi && is_ws_char(v[a])
        invariant
            lo <= a <= hi <= v.len(),
            s == v@.subrange(lo as int, hi as int),
            forall|i: int| lo <= i < a ==> is_ws(#[trigger] v@[i]),
        decreases hi - a,
    {
        a += 1;
    }
    proof {
        assert forall|i: int| 0 <= i < a - lo implies is_ws(#[trigger] s[i]) by {
            assert(s[i] == v@[lo + i]);
        }
        lemma_trim_start_skip(s, a - lo);
        assert(s.skip(a - lo) =~= v@.subrange(a as int, hi as int));
        assert(trim_start(v@.subrange(a as int, hi as int)) == v@.subrange(a as int, hi as int));
    }
    let mut b = hi;
    while b > a && is_ws_char(v[b - 1])
        invariant
            lo <= a <= b <= hi <= v.len(),
            forall|i: int| b <= i < hi ==> is_ws(#[trigger] v@[i]),
        decreases b,
    {
        b -= 1;
    }
    proof {
        let t = v@.subrange(a as int, hi as int);
        assert forall|i: int| b - a <= i < t.len() implies is_ws(#[trigger] t[i]) by {
            assert(t[i] == v@[a + i]);
        }
        lemma_trim_end_take(t, b - a);
        assert(t.take(b - a) =~= v@.subrange(a as int, b as int));
        let u = v@.subrange(a as int, b as int);
        if u.len() > 0 {
            assert(u.last() == v@[b - 1]);
        }
    }
    (a, b)
}

/// `str::trim`, returning an owned string.
pub fn trim_str(s: &str) -> (r: String)
    ensures
        r@ == trim(s@),
{
    let v = chars_of(s);
    let (a, b) = trim_bounds(&v, 0, v.len());
    assert(v@.subrange(0, v@.len() as int) =~= v@);
    string_of_range(&v, a, b)
}

/// `str::trim_end`, returning an owned string.
pub fn trim_end_str(s: &str) -> (r: String)
    ensures
        r@ == trim_end(s@),
{
    let v = chars_of(s);
    let mut b = v.len();
    while b > 0 && is_ws_char(v[b - 1])
        invariant
            b <= v.len(),
            forall|i: int| b <= i < v.len() ==> is_ws(#[trigger] v@[i]),
        decreases b,
    {
        b -= 1;
    }
    proof {
        lemma_trim_end_take(v@, b as int);
        let u = v@.take(b as int);
        if u.len() > 0 {
            assert(u.last() == v@[b - 1]);
        }
    }
    assert(v@.subrange(0, b as int) =~= v@.take(b as int));
    string_of_range(&v, 0, b)
}

/// Whether `p` occurs in `v` at index `i`.
pub fn occurs_at_exec(v: &[char], p: &[char], i: usize) -> (b: bool)
    ensures
        b == occurs_at(v@, p@, i as int),
{
    if i > v.len() || p.len() > v.len() - i {
        return false;
    }
    let mut k: usize = 0;
    while k < p.len()
        invariant
            i + p.len() <= v.len(),
            k <= p.len(),
            forall|j: int| 0 <= j < k ==> v@[i + j] == p@[j],
        decreases p.len() - k,
    {
        if v[i + k] != p[k] {
            proof {
                assert(v@.subrange(i as int, i + p.len())[k as int] == v@[i + k]);
            }
            return false;
        }
        k += 1;
    }
    assert(v@.subrange(i as int, i + p.len()) =~= p@);
    true
}

/// `find` starting at index `from`.
pub fn find_from_exec(v: &[char], p: &[char], from: usize) -> (r: Option<usize>)
    ensures
        match r {
            Some(j) => find_from(v@, p@, from as int) == Some(j as int),
            None => find_from(v@, p@, from as int) is None,
        },
{
    if from > v.len() {
        return None;
    }
    let mut i = from;
    while p.len() <= v.len() - i
        invariant
            from <= i <= v.len(),
            find_from(v@, p@, from as int) == find_from(v@, p@, i as int),
        decreases v.len() + 1 - i,
    {
        if occurs_at_exec(v, p, i) {
            return Some(i);
        }
        if i == v.len() {
            assert(find_from(v@, p@, i as int + 1) is None);
            return None;
        }
        i += 1;
    }
    None
}

/// `str::starts_with` on buffers, at an offset.
pub fn starts_with_at(v: &[char], p: &[char], i: usize) -> (b: bool)
    requires
        i <= v.len(),
    ensures
        b == starts_with(v@.subrange(i as int, v@.len() as int), p@),
{
    let r = occurs_at_exec(v, p, i);
    proof {
        let t = v@.subrange(i as int, v@.len() as int);
        if p@.len() <= t.len() {
            assert(t.subrange(0, p@.len() as int) =~= v@.subrange(i as int, i + p@.len()));
        }
    }
    r
}

/// `str::starts_with`.
pub fn starts_with_str(s: &str, p: &str) -> (b: bool)
    ensures
        b == starts_with(s@, p@),
{
    let v = chars_of(s);
    let q = chars_of(p);
    let b = starts_with_at(&v, &q, 0);
    assert(v@.subrange(0, v@.len() as int) =~= v@);
    b
}

/// `str::ends_with`.
pub fn ends_with_str(s: &str, p: &str) -> (b: bool)
    ensures
        b == ends_with(s@, p@),
{
    let v = chars_of(s);
    let q = chars_of(p);
    if q.len() > v.len() {
        return false;
    }
    occurs_at_exec(&v, &q, v.len() - q.len())
}

/// `str::contains`.
pub fn contains_str(s: &str, p: &str) -> (b: bool)
    ensures
        b == contains(s@, p@),
{
    let v = chars_of(s);
    let q = chars_of(p);
    find_from_exec(&v, &q, 0).is_some()
}

/// `str::find`.
pub fn find_str(s: &str, p: &str) -> (r: Option<usize>)
    ensures
        match r {
            Some(j) => find(s@, p@) == Some(j as int),
            None => find(s@, p@) is None,
        },
{
    let v = chars_of(s);
    let q = chars_of(p);
    find_from_exec(&v, &q, 0)
}

/// `str::strip_prefix`, returning an owned remainder.
pub fn strip_prefix_str(s: &str, p: &str) -> (r: Option<String>)
    ensures
        match r {
            Some(t) => strip_prefix(s@, p@) == Some(t@),
            None => strip_prefix(s@, p@) is None,
        },
{
    let v = chars_of(s);
    let q = chars_of(p);
    if starts_with_at(&v, &q, 0) {
        assert(v@.subrange(0, v@.len() as int) =~= v@);
        Some(string_of_range(&v, q.len(), v.len()))
    } else {
        assert(v@.subrange(0, v@.len() as int) =~= v@);
        None
    }
}

/// `str::strip_suffix`, returning an owned remainder.
pub fn strip_suffix_str(s: &str, p: &str) -> (r: Option<String>)
    ensures
        match r {
            Some(t) => strip_suffix(s@, p@) == Some(t@),
            None => strip_suffix(s@, p@) is None,
        },
{
    let v = chars_of(s);
    let q = chars_of(p);
    if q.len() <= v.len() && occurs_at_exec(&v, &q, v.len() - q.len()) {
        Some(string_of_range(&v, 0, v.len() - q.len()))
    } else {
        None
    }
}

/// `str::matches(p).count()` for a non-empty `p`.
pub fn count_matches_str(s: &str, p: &str) -> (n: usize)
    requires
        p@.len() > 0,
    ensures
        n == count_matches(s@, p@),
{
    let v = chars_of(s);
    let q = chars_of(p);
    let mut i: usize = 0;
    let mut n: usize = 0;
    while i <= v.len()
        invariant
            q@.len() > 0,
            v@ == s@,
            q@ == p@,
            n <= i,
            n + count_from(v@, q@, i as int) == count_from(v@, q@, 0),
        decreases v.len() + 1 - i,
    {
        match find_from_exec(&v, &q, i) {
            None => {
                return n;
            },
            Some(j) => {
                proof {
                    lemma_find_from_bounds(v@, q@, i as int);
                }
                n += 1;
                i = j + q.len();
            },
        }
    }
    n
}

/// The words of `v` (`split_whitespace`), as character buffers.
pub fn words_of(v: &[char]) -> (r: Vec<Vec<char>>)
    ensures
        bufs(r@) == words(v@),
{
    let mut r: Vec<Vec<char>> = Vec::new();
    let mut i: usize = 0;
    assert(v@.skip(0) =~= v@);
    while i < v.len()
        invariant
            i <= v.len(),
            words(v@) == bufs(r@) + words(v@.skip(i as int)),
        decreases v.len() - i,
    {
        let ghost rest = v@.skip(i as int);
        if is_ws_char(v[i]) {
            assert(rest.drop_first() =~= v@.skip(i + 1));
            i += 1;
        } else {
            let mut j = i + 1;
            while j < v.len() && !is_ws_char(v[j])
                invariant
                    i < j <= v.len(),
                    forall|k: int| i <= k < j ==> !is_ws(#[trigger] v@[k]),
                decreases v.len() - j,
            {
                j += 1;
            }
            proof {
                assert forall|k: int| 0 <= k < j - i implies !is_ws(#[trigger] rest[k]) by {
                    assert(rest[k] == v@[i + k]);
                }
                if j < v.len() {
                    assert(rest[j - i] == v@[j as int]);
                }
                lemma_run_len_exact(rest, j - i);
                assert(rest.take(j - i) =~= v@.subrange(i as int, j as int));
                assert(rest.skip(j - i) =~= v@.skip(j as int));
            }
            let w = slice_range(v, i, j);
            let ghost before = r@;
            r.push(w);
            proof {
                assert(bufs(r@) =~= bufs(before).push(w@));
                assert(words(rest) == seq![v@.subrange(i as int, j as int)] + words(
                    v@.skip(j as int),
                ));
                assert(bufs(before) + words(rest) =~= bufs(r@) + words(v@.skip(j as int)));
            }
            i = j;
        }
    }
    proof {
        assert(v@.skip(i as int) =~= Seq::<char>::empty());
        assert(bufs(r@) + seq![] =~= bufs(r@));
    }
    r
}

/// The lines of `v` (`str::lines`), as character buffers.
pub fn lines_of(v: &[char]) -> (r: Vec<Vec<char>>)
    ensures
        bufs(r@) == lines(v@),
{
    let mut r: Vec<Vec<char>> = Vec::new();
    let mut i: usize = 0;
    assert(v@.skip(0) =~= v@);
    while i < v.len()
        invariant
            i <= v.len(),
            lines(v@) == bufs(r@) + lines(v@.skip(i as int)),
        decreases v.len() - i,
    {
        let ghost rest = v@.skip(i as int);
        let mut j = i;
        while j < v.len() && v[j] != '\n'
            invariant
                i <= j <= v.len(),
                forall|k: int| i <= k < j ==> #[trigger] v@[k] != '\n',
            decreases v.len() - j,
        {
            j += 1;
        }
        proof {
            assert forall|k: int| 0 <= k < j - i implies #[trigger] rest[k] != '\n' by {
                assert(rest[k] == v@[i + k]);
            }
            if j < v.len() {
                assert(rest[j - i] == v@[j as int]);
            }
            lemma_index_of_char_exact(rest, '\n', j - i);
            assert(rest.take(j - i) =~= v@.subrange(i as int, j as int));
        }
        let ghost before = r@;
        if j < v.len() {
            let end = if j > i && v[j - 1] == '\r' {
                j - 1
            } else {
                j
            };
            proof {
                let line = v@.subrange(i as int, j as int);
                if line.len() > 0 {
                    assert(line.last() == v@[j - 1]);
                    assert(line.drop_last() =~= v@.subrange(i as int, j - 1));
                }
                assert(rest.skip(j - i + 1) =~= v@.skip(j + 1));
            }
            let w = slice_range(v, i, end);
            r.push(w);
            proof {
                assert(bufs(r@) =~= bufs(before).push(w@));
                assert(bufs(before) + lines(rest) =~= bufs(r@) + lines(v@.skip(j + 1)));
            }
            i = j + 1;
        } else {
            let w = slice_range(v, i, j);
            r.push(w);
            proof {
                assert(rest =~= v@.subrange(i as int, j as int));
                assert(bufs(r@) =~= bufs(before).push(w@));
                assert(v@.skip(j as int) =~= Seq::<char>::empty());
                assert(bufs(before) + lines(rest) =~= bufs(r@) + lines(v@.skip(j as int)));
            }
            i = j;
        }
    }
    proof {
        assert(v@.skip(i as int) =~= Seq::<char>::empty());
        assert(bufs(r@) + seq![] =~= bufs(r@));
    }
    r
}

/// The pieces of `v` between occurrences of `c` (`str::split(c)`).
pub fn split_char_of(v: &[char], c: char) -> (r: Vec<Vec<char>>)
    ensures
        bufs(r@) == split_char(v@, c),
{
    let mut r: Vec<Vec<char>> = Vec::new();
    let mut i: usize = 0;
    assert(v@.skip(0) =~= v@);
    loop
        invariant
            i <= v.len(),
            split_char(v@, c) == bufs(r@) + split_char(v@.skip(i as int), c),
        decreases v.len() - i,
    {
        let ghost rest = v@.skip(i as int);
        let mut j = i;
        while j < v.len() && v[j] != c
            invariant
                i <= j <= v.len(),
                forall|k: int| i <= k < j ==> #[trigger] v@[k] != c,
            decreases v.len() - j,
        {
            j += 1;
        }
        proof {
            assert forall|k: int| 0 <= k < j - i implies #[trigger] rest[k] != c by {
                assert(rest[k] == v@[i + k]);
            }
            if j < v.len() {
                assert(rest[j - i] == v@[j as int]);
            }
            lemma_index_of_char_exact(rest, c, j - i);
            assert(rest.take(j - i) =~= v@.subrange(i as int, j as int));
        }
        let ghost before = r@;
        let w = slice_range(v, i, j);
        r.push(w);
        proof {
            assert(bufs(r@) =~= bufs(before).push(w@));
        }
        if j < v.len() {
            proof {
                assert(rest.skip(j - i + 1) =~= v@.skip(j + 1));
                assert(bufs(before) + split_char(rest, c) =~= bufs(r@) + split_char(
                    v@.skip(j + 1),
                    c,
                ));
            }
            i = j + 1;
        } else {
            proof {
                assert(rest =~= v@.subrange(i as int, j as int));
                assert(bufs(before) + split_char(rest, c) =~= bufs(r@));
            }
            return r;
        }
    }
}

/// `slice::join` of strings with a separator.
pub fn join_strings(list: &Vec<String>, sep: &str) -> (r: String)
    ensures
        r@ == join(strs(list@), sep@),
{
    let r = join_prefix(list, list.len(), sep);
    assert(strs(list@).take(list@.len() as int) =~= strs(list@));
    r
}

/// `slice::join` of the first `n` strings.
pub fn join_prefix(list: &Vec<String>, n: usize, sep: &str) -> (r: String)
    requires
        n <= list@.len(),
    ensures
        r@ == join(strs(list@).take(n as int), sep@),
{
    let mut r = String::new();
    let mut i: usize = 0;
    while i < n
        invariant
            i <= n <= list.len(),
            r@ == join(strs(list@).take(i as int), sep@),
        decreases n - i,
    {
        proof {
            lemma_join_push(strs(list@).take(i as int), sep@, list@[i as int]@);
            assert(strs(list@).take(i as int).push(list@[i as int]@) =~= strs(list@).take(
                i + 1,
            ));
        }
        if i > 0 {
            push_str(&mut r, sep);
        }
        push_str(&mut r, list[i].as_str());
        i += 1;
    }
    r
}

/// `format!("{s:<w$}")`: `s` padded with spaces to `w` characters.
pub fn pad_right_str(s: &str, w: usize) -> (r: String)
    ensures
        r@ == pad_right(s@, w as nat),
{
    let mut r = owned(s);
    let n = s.unicode_len();
    let mut k = n;
    assert(r@ =~= s@ + spaces(0));
    while k < w
        invariant
            n == s@.len(),
            k >= n,
            n >= w ==> k == n,
            n < w ==> k <= w,
            r@ == s@ + spaces((k - n) as nat),
        decreases w - k,
    {
        push_char(&mut r, ' ');
        k += 1;
        assert(r@ =~= s@ + spaces((k - n) as nat));
    }
    if n >= w {
        assert(r@ =~= s@);
    }
    r
}

/// The character for a decimal digit.
pub fn digit_char(d: u64) -> (c: char)
    requires
        d < 10,
    ensures
        c == digit(d as nat),
{
    if d == 0 {
        '0'
    } else if d == 1 {
        '1'
    } else if d == 2 {
        '2'
    } else if d == 3 {
        '3'
    } else if d == 4 {
        '4'
    } else if d == 5 {
        '5'
    } else if d == 6 {
        '6'
    } else if d == 7 {
        '7'
    } else if d == 8 {
        '8'
    } else {
        '9'
    }
}

/// Decimal notation of an unsigned integer.
pub fn dec_string(n: u64) -> (s: String)
    ensures
        s@ == dec(n as nat),
    decreases n,
{
    if n < 10 {
        let mut s = String::new();
        push_char(&mut s, digit_char(n));
        assert(s@ =~= seq![digit(n as nat)]);
        s
    } else {
        let mut s = dec_string(n / 10);
        push_char(&mut s, digit_char(n % 10));
        s
    }
}

/// `<u64 as FromStr>::from_str(..).ok()`.
pub fn parse_u64_str(s: &str) -> (r: Option<u64>)
    ensures
        r == parse_u64(s@),
{
    let v = chars_of(s);
    let start: usize = if v.len() > 0 && v[0] == '+' {
        1
    } else {
        0
    };
    let ghost body = v@.subrange(start as int, v@.len() as int);
    proof {
        if start == 1 {
            assert(body =~= v@.drop_first());
        } else {
            assert(body =~= v@);
        }
    }
    if start >= v.len() {
        return None;
    }
    let mut acc: u64 = 0;
    let mut i = start;
    while i < v.len()
        invariant
            start <= i <= v.len(),
            v@ == s@,
            body == v@.subrange(start as int, v@.len() as int),
            body == (if s@.len() > 0 && s@[0] == '+' {
                s@.drop_first()
            } else {
                s@
            }),
            forall|k: int| start <= k < i ==> is_digit(#[trigger] v@[k]),
            acc as nat == digits_value(v@.subrange(start as int, i as int)),
        decreases v.len() - i,
    {
        let c = v[i];
        if !('0' <= c && c <= '9') {
            proof {
                assert(body[i - start] == c);
                assert(!is_digit(body[i - start]));
            }
            return None;
        }
        let d = (c as u32 - '0' as u32) as u64;
        proof {
            lemma_digits_value_push(v@.subrange(start as int, i as int), c);
            assert(v@.subrange(start as int, i as int).push(c) =~= v@.subrange(
                start as int,
                i + 1,
            ));
        }
        if acc > (u64::MAX - d) / 10 {
            proof {
                assert(digits_value(v@.subrange(start as int, i + 1)) > u64::MAX) by (
                nonlinear_arith)
                    requires
                        acc > (u64::MAX - d) / 10,
                        digits_value(v@.subrange(start as int, i + 1)) == acc * 10 + d,
                ;
                lemma_digits_value_prefix_le(body, i + 1 - start);
                assert(body.take(i + 1 - start) =~= v@.subrange(start as int, i + 1));
            }
            return None;
        }
        assert(acc * 10 + d <= u64::MAX) by (nonlinear_arith)
            requires
                acc <= (u64::MAX - d) / 10,
                d < 10,
        ;
        acc = acc * 10 + d;
        i += 1;
    }
    proof {
        assert(v@.subrange(start as int, i as int) =~= body);
        assert forall|k: int| 0 <= k < body.len() implies is_digit(#[trigger] body[k]) by {
            assert(body[k] == v@[start + k]);
        }
    }
    Some(acc)
}

/// A prefix of a digit string never has a larger value than the whole.
pub proof fn lemma_digits_value_prefix_le(s: Seq<char>, k: int)
    requires
        0 <= k <= s.len(),
    ensures
        digits_value(s.take(k)) <= digits_value(s),
    decreases s.len() - k,
{
    if k < s.len() {
        lemma_digits_value_prefix_le(s.drop_last(), k);
        assert(s.drop_last().take(k) =~= s.take(k));
    } else {
        assert(s.take(k) =~= s);
    }
}

/// Lexicographic `<=` on two character buffers.
pub fn text_le_exec(a: &[char], b: &[char]) -> (r: bool)
    ensures
        r == text_le(a@, b@),
{
    let mut i: usize = 0;
    proof {
        assert(a@.skip(0) =~= a@);
        assert(b@.skip(0) =~= b@);
    }
    while i < a.len()
        invariant
            i <= a.len(),
            i <= b.len(),
            a@.subrange(0, i as int) == b@.subrange(0, i as int),
            text_le(a@, b@) == text_le(a@.skip(i as int), b@.skip(i as int)),
        decreases a.len() - i,
    {
        if i >= b.len() {
            return false;
        }
        if a[i] != b[i] {
            return a[i] < b[i];
        }
        proof {
            assert(a@.skip(i as int).drop_first() =~= a@.skip(i + 1));
            assert(b@.skip(i as int).drop_first() =~= b@.skip(i + 1));
            assert(a@.subrange(0, i + 1) =~= a@.subrange(0, i as int).push(a@[i as int]));
            assert(b@.subrange(0, i + 1) =~= b@.subrange(0, i as int).push(b@[i as int]));
        }
        i += 1;
    }
    true
}

/// `str::eq_ignore_ascii_case`.
pub fn eq_ignore_ascii_case_str(a: &str, b: &str) -> (r: bool)
    ensures
        r == eq_ignore_ascii_case(a@, b@),
{
    let x = chars_of(a);
    let y = chars_of(b);
    if x.len() != y.len() {
        return false;
    }
    let mut i: usize = 0;
    while i < x.len()
        invariant
            x@ == a@,
            y@ == b@,
            x.len() == y.len(),
            i <= x.len(),
            forall|k: int| 0 <= k < i ==> ascii_lower(#[trigger] x@[k]) == ascii_lower(y@[k]),
        decreases x.len() - i,
    {
        if lower_char(x[i]) != lower_char(y[i]) {
            return false;
        }
        i += 1;
    }
    true
}

/// `char::to_ascii_lowercase`.
pub fn lower_char(c: char) -> (r: char)
    ensures
        r == ascii_lower(c),
{
    if 'A' <= c && c <= 'Z' {
        let code = c as u32 + 32;
        lower_from_code(code, c)
    } else {
        c
    }
}

fn lower_from_code(code: u32, c: char) -> (r: char)
    requires
        'A' <= c <= 'Z',
        code == c as u32 + 32,
    ensures
        r == ((c as u32) + 32) as char,
{
    // ASCII upper-case letters map to lower-case letters 32 code points on.
    let b = code as u8;
    b as char
}

/// `text_le` is a total order: any two texts compare one way or the other.
pub proof fn lemma_text_le_total(a: Seq<char>, b: Seq<char>)
    ensures
        text_le(a, b) || text_le(b, a),
    decreases a.len(),
{
    if a.len() > 0 && b.len() > 0 && a[0] == b[0] {
        lemma_text_le_total(a.drop_first(), b.drop_first());
    }
}

/// Texts that compare both ways are equal.
pub proof fn lemma_text_le_antisymmetric(a: Seq<char>, b: Seq<char>)
    requires
        text_le(a, b),
        text_le(b, a),
    ensures
        a == b,
    decreases a.len(),
{
    if a.len() == 0 {
        assert(b.len() == 0);
        assert(a =~= b);
    } else {
        lemma_text_le_antisymmetric(a.drop_first(), b.drop_first());
        assert(a =~= seq![a[0]] + a.drop_first());
        assert(b =~= seq![b[0]] + b.drop_first());
    }
}

pub proof fn lemma_text_le_transitive(a: Seq<char>, b: Seq<char>, c: Seq<char>)
    requires
        text_le(a, b),
        text_le(b, c),
    ensures
        text_le(a, c),
    decreases a.len(),
{
    if a.len() > 0 && b.len() > 0 && c.len() > 0 && a[0] == b[0] && b[0] == c[0] {
        lemma_text_le_transitive(a.drop_first(), b.drop_first(), c.drop_first());
    }
}

} // verus!
