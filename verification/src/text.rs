//! Small verified text utilities over characters and bytes.

use vstd::prelude::*;

verus! {

/// The characters of a string slice, in order.
pub fn chars_of(s: &str) -> (r: Vec<char>)
    ensures
        r@ == s@,
{
    let mut r: Vec<char> = Vec::new();
    for c in it: s.chars()
        invariant
            r@ == it.seq().take(it.index() as int),
            it.seq() == s@,
    {
        r.push(c);
    }
    r
}

/// Whether `a` and `b` hold the same characters.
pub fn str_eq(a: &str, b: &str) -> (r: bool)
    ensures
        r == (a@ == b@),
{
    let x = chars_of(a);
    let y = chars_of(b);
    if x.len() != y.len() {
        return false;
    }
    let mut i: usize = 0;
    while i < x.len()
        invariant
            x@ == a@,
            y@ == b@,
            x.len() == y.len(),
            i <= x.len(),
            forall|k: int| 0 <= k < i ==> x@[k] == y@[k],
        decreases x.len() - i,
    {
        if x[i] != y[i] {
            return false;
        }
        i += 1;
    }
    assert(x@ =~= y@);
    true
}

/// Whether `needle` occurs as a contiguous run inside `hay`.
pub open spec fn has_window<A>(hay: Seq<A>, needle: Seq<A>) -> bool {
    exists|k: int|
        0 <= k && k + needle.len() <= hay.len() && #[trigger] hay.subrange(k, k + needle.len())
            == needle
}

/// Whether the run of `hay` starting at `k` equals `needle`.
fn matches_at_bytes(hay: &[u8], needle: &[u8], k: usize) -> (r: bool)
    requires
        k + needle@.len() <= hay@.len(),
    ensures
        r == (hay@.subrange(k as int, k + needle@.len()) == needle@),
{
    let mut j: usize = 0;
    while j < needle.len()
        invariant
            k + needle@.len() <= hay@.len(),
            hay@.len() == hay.len(),
            j <= needle@.len(),
            forall|t: int| 0 <= t < j ==> hay@[k + t] == needle@[t],
        decreases needle.len() - j,
    {
        if hay[k + j] != needle[j] {
            assert(hay@.subrange(k as int, k + needle@.len())[j as int] != needle@[j as int]);
            return false;
        }
        j += 1;
    }
    assert(hay@.subrange(k as int, k + needle@.len()) =~= needle@);
    true
}

/// Whether the byte string `needle` occurs inside `hay`.
pub fn contains_bytes(hay: &[u8], needle: &[u8]) -> (r: bool)
    ensures
        r == has_window(hay@, needle@),
{
    if needle.len() == 0 {
        assert(hay@.subrange(0, 0int + needle@.len()) =~= needle@);
        return true;
    }
    if needle.len() > hay.len() {
        return false;
    }
    let last = hay.len() - needle.len();
    let mut k: usize = 0;
    while k <= last
        invariant
            last + needle@.len() == hay@.len(),
            needle@.len() > 0,
            last < hay.len(),
            forall|m: int|
                0 <= m < k ==> #[trigger] hay@.subrange(m, m + needle@.len()) != needle@,
        decreases last + 1 - k,
    {
        if matches_at_bytes(hay, needle, k) {
            return true;
        }
        k += 1;
    }
    false
}

/// Whether the run of `hay` starting at `k` equals `needle`.
fn matches_at_chars(hay: &Vec<char>, needle: &Vec<char>, k: usize) -> (r: bool)
    requires
        k + needle@.len() <= hay@.len(),
    ensures
        r == (hay@.subrange(k as int, k + needle@.len()) == needle@),
{
    let mut j: usize = 0;
    while j < needle.len()
        invariant
            k + needle@.len() <= hay@.len(),
            hay@.len() == hay.len(),
            j <= needle@.len(),
            forall|t: int| 0 <= t < j ==> hay@[k + t] == needle@[t],
        decreases needle.len() - j,
    {
        if hay[k + j] != needle[j] {
            assert(hay@.subrange(k as int, k + needle@.len())[j as int] != needle@[j as int]);
            return false;
        }
        j += 1;
    }
    assert(hay@.subrange(k as int, k + needle@.len()) =~= needle@);
    true
}

/// Whether the character string `needle` occurs inside `hay`.
pub fn contains_chars(hay: &Vec<char>, needle: &Vec<char>) -> (r: bool)
    ensures
        r == has_window(hay@, needle@),
{
    if needle.len() == 0 {
        assert(hay@.subrange(0, 0int + needle@.len()) =~= needle@);
        return true;
    }
    if needle.len() > hay.len() {
        return false;
    }
    let last = hay.len() - needle.len();
    let mut k: usize = 0;
    while k <= last
        invariant
            last + needle@.len() == hay@.len(),
            needle@.len() > 0,
            last < hay.len(),
            forall|m: int|
                0 <= m < k ==> #[trigger] hay@.subrange(m, m + needle@.len()) != needle@,
        decreases last + 1 - k,
    {
        if matches_at_chars(hay, needle, k) {
            return true;
        }
        k += 1;
    }
    false
}

/// Whether two character lists are equal.
pub fn chars_eq(x: &Vec<char>, y: &Vec<char>) -> (r: bool)
    ensures
        r == (x@ == y@),
{
    if x.len() != y.len() {
        return false;
    }
    let mut i: usize = 0;
    while i < x.len()
        invariant
            x.len() == y.len(),
            i <= x.len(),
            forall|k: int| 0 <= k < i ==> x@[k] == y@[k],
        decreases x.len() - i,
    {
        if x[i] != y[i] {
            return false;
        }
        i += 1;
    }
    assert(x@ =~= y@);
    true
}

/// Whether `c` has the Unicode `White_Space` property, which `str::trim` removes.
pub open spec fn is_white_space(c: char) -> bool {
    ('\u{9}' <= c <= '\u{d}') || c == ' ' || c == '\u{85}' || c == '\u{a0}' || c == '\u{1680}'
        || ('\u{2000}' <= c <= '\u{200a}') || c == '\u{2028}' || c == '\u{2029}' || c
        == '\u{202f}' || c == '\u{205f}' || c == '\u{3000}'
}

fn white_space(c: char) -> (r: bool)
    ensures
        r == is_white_space(c),
{
    ('\u{9}' <= c && c <= '\u{d}') || c == ' ' || c == '\u{85}' || c == '\u{a0}' || c == '\u{1680}'
        || ('\u{2000}' <= c && c <= '\u{200a}') || c == '\u{2028}' || c == '\u{2029}' || c
        == '\u{202f}' || c == '\u{205f}' || c == '\u{3000}'
}

/// Number of white-space characters at the start of `s`.
pub open spec fn leading_ws(s: Seq<char>) -> int
    decreases s.len(),
{
    if s.len() > 0 && is_white_space(s[0]) {
        1 + leading_ws(s.drop_first())
    } else {
        0
    }
}

/// Number of white-space characters at the end of `s`.
pub open spec fn trailing_ws(s: Seq<char>) -> int
    decreases s.len(),
{
    if s.len() > 0 && is_white_space(s.last()) {
        1 + trailing_ws(s.drop_last())
    } else {
        0
    }
}

/// `s` without its leading and trailing white space.
pub open spec fn trimmed(s: Seq<char>) -> Seq<char> {
    let lo = leading_ws(s);
    if lo == s.len() {
        Seq::empty()
    } else {
        s.subrange(lo, s.len() - trailing_ws(s))
    }
}

proof fn lemma_leading_ws(s: Seq<char>)
    ensures
        0 <= leading_ws(s) <= s.len(),
        forall|j: int| 0 <= j < leading_ws(s) ==> is_white_space(#[trigger] s[j]),
        leading_ws(s) < s.len() ==> !is_white_space(s[leading_ws(s)]),
    decreases s.len(),
{
    if s.len() > 0 && is_white_space(s[0]) {
        lemma_leading_ws(s.drop_first());
        assert forall|j: int| 0 <= j < leading_ws(s) implies is_white_space(#[trigger] s[j]) by {
            if j > 0 {
                assert(s[j] == s.drop_first()[j - 1]);
            }
        }
    }
}

proof fn lemma_trailing_ws(s: Seq<char>)
    ensures
        0 <= trailing_ws(s) <= s.len(),
        forall|j: int| s.len() - trailing_ws(s) <= j < s.len() ==> is_white_space(#[trigger] s[j]),
        trailing_ws(s) < s.len() ==> !is_white_space(s[s.len() - 1 - trailing_ws(s)]),
    decreases s.len(),
{
    if s.len() > 0 && is_white_space(s.last()) {
        lemma_trailing_ws(s.drop_last());
        assert forall|j: int|
            s.len() - trailing_ws(s) <= j < s.len() implies is_white_space(#[trigger] s[j]) by {
            if j < s.len() - 1 {
                assert(s[j] == s.drop_last()[j]);
            }
        }
    }
}

/// A count of `k` white-space characters, stopped by a non-white one, is `leading_ws`.
proof fn lemma_leading_ws_is(s: Seq<char>, k: int)
    requires
        0 <= k <= s.len(),
        forall|j: int| 0 <= j < k ==> is_white_space(#[trigger] s[j]),
        k < s.len() ==> !is_white_space(s[k]),
    ensures
        leading_ws(s) == k,
    decreases k,
{
    if k > 0 {
        assert forall|j: int| 0 <= j < k - 1 implies is_white_space(#[trigger] s.drop_first()[j]) by {
            assert(s.drop_first()[j] == s[j + 1]);
        }
        if k - 1 < s.drop_first().len() {
            assert(s.drop_first()[k - 1] == s[k]);
        }
        lemma_leading_ws_is(s.drop_first(), k - 1);
    }
}

/// A count of `k` trailing white-space characters, stopped by a non-white one, is `trailing_ws`.
proof fn lemma_trailing_ws_is(s: Seq<char>, k: int)
    requires
        0 <= k <= s.len(),
        forall|j: int| s.len() - k <= j < s.len() ==> is_white_space(#[trigger] s[j]),
        k < s.len() ==> !is_white_space(s[s.len() - 1 - k]),
    ensures
        trailing_ws(s) == k,
    decreases k,
{
    if k > 0 {
        assert forall|j: int| s.drop_last().len() - (k - 1) <= j < s.drop_last().len() implies is_white_space(#[trigger] s.drop_last()[j]) by {
            assert(s.drop_last()[j] == s[j]);
        }
        if k - 1 < s.drop_last().len() {
            assert(s.drop_last()[s.drop_last().len() - 1 - (k - 1)] == s[s.len() - 1 - k]);
        }
        lemma_trailing_ws_is(s.drop_last(), k - 1);
    }
}

/// `s` with its leading and trailing white space removed, as `str::trim` does.
pub fn trim(s: &str) -> (r: Vec<char>)
    ensures
        r@ == trimmed(s@),
{
    let c = chars_of(s);
    let n = c.len();
    let mut lo: usize = 0;
    while lo < n && white_space(c[lo])
        invariant
            n == c@.len(),
            c@ == s@,
            lo <= n,
            forall|j: int| 0 <= j < lo ==> is_white_space(#[trigger] c@[j]),
        decreases n - lo,
    {
        lo += 1;
    }
    proof {
        lemma_leading_ws_is(s@, lo as int);
    }
    let mut r: Vec<char> = Vec::new();
    if lo == n {
        assert(r@ =~= trimmed(s@));
        return r;
    }
    let mut hi: usize = n;
    while hi > lo && white_space(c[hi - 1])
        invariant
            n == c@.len(),
            c@ == s@,
            lo < n,
            !is_white_space(c@[lo as int]),
            lo <= hi <= n,
            forall|j: int| hi <= j < n ==> is_white_space(#[trigger] c@[j]),
        decreases hi,
    {
        hi -= 1;
    }
    proof {
        lemma_trailing_ws_is(s@, (n - hi) as int);
    }
    let mut k: usize = lo;
    while k < hi
        invariant
            c@ == s@,
            lo <= k <= hi <= c@.len(),
            r@ == c@.subrange(lo as int, k as int),
        decreases hi - k,
    {
        r.push(c[k]);
        k += 1;
        assert(c@.subrange(lo as int, k as int) =~= c@.subrange(lo as int, k - 1) + seq![c@[k - 1]]);
    }
    r
}

/// Trimming twice is trimming once.
pub proof fn law_trim_idempotent(s: Seq<char>)
    ensures
        trimmed(trimmed(s)) == trimmed(s),
{
    lemma_leading_ws(s);
    lemma_trailing_ws(s);
    let t = trimmed(s);
    if leading_ws(s) == s.len() {
        lemma_leading_ws_is(t, 0);
    } else {
        let lo = leading_ws(s);
        let hi = s.len() - trailing_ws(s);
        assert(hi > lo) by {
            if hi <= lo {
                assert(is_white_space(s[lo]));
            }
        }
        assert(t[0] == s[lo]);
        lemma_leading_ws_is(t, 0);
        assert(t[t.len() - 1] == s[hi - 1]);
        lemma_trailing_ws_is(t, 0);
        assert(t.subrange(0, t.len() as int) =~= t);
    }
}

/// The part of `s` before the first occurrence of `sep` (all of `s` when
/// there is none), as the first item of `str::split` gives it.
pub open spec fn before_first(s: Seq<char>, sep: char) -> Seq<char> {
    s.take(first_index(s, sep))
}

/// Index of the first `sep` in `s`, or the length when there is none.
pub open spec fn first_index(s: Seq<char>, sep: char) -> int
    decreases s.len(),
{
    if s.len() == 0 {
        0
    } else if s[0] == sep {
        0
    } else {
        1 + first_index(s.drop_first(), sep)
    }
}

proof fn lemma_first_index_is(s: Seq<char>, sep: char, k: int)
    requires
        0 <= k <= s.len(),
        forall|j: int| 0 <= j < k ==> #[trigger] s[j] != sep,
        k < s.len() ==> s[k] == sep,
    ensures
        first_index(s, sep) == k,
    decreases k,
{
    if k > 0 {
        assert forall|j: int| 0 <= j < k - 1 implies #[trigger] s.drop_first()[j] != sep by {
            assert(s.drop_first()[j] == s[j + 1]);
        }
        if k < s.len() {
            assert(s.drop_first()[k - 1] == s[k]);
        }
        lemma_first_index_is(s.drop_first(), sep, k - 1);
    }
}

/// Position of the first `sep` in `c`, or the length of `c`.
fn find_char(c: &Vec<char>, sep: char) -> (k: usize)
    ensures
        k as int == first_index(c@, sep),
        k <= c@.len(),
{
    let mut k: usize = 0;
    while k < c.len() && c[k] != sep
        invariant
            k <= c@.len(),
            forall|j: int| 0 <= j < k ==> #[trigger] c@[j] != sep,
        decreases c.len() - k,
    {
        k += 1;
    }
    proof {
        lemma_first_index_is(c@, sep, k as int);
    }
    k
}

/// The first item that `s.split(sep)` yields.
pub fn split_first(s: &str, sep: char) -> (r: String)
    ensures
        r@ == before_first(s@, sep),
{
    let c = chars_of(s);
    let k = find_char(&c, sep);
    s.substring_char(0, k).to_owned()
}

/// The first line of `s` as `str::lines` yields it: the text before the
/// first `\n`, without a `\r` just before that `\n`; `None` for empty text.
pub open spec fn spec_first_line(s: Seq<char>) -> Option<Seq<char>> {
    if s.len() == 0 {
        None
    } else {
        let k = first_index(s, '\n');
        if k < s.len() && k > 0 && s[k - 1] == '\r' {
            Some(s.take(k - 1))
        } else {
            Some(s.take(k))
        }
    }
}

/// The first line of `s`, as `s.lines().next()` gives it.
pub fn first_line(s: &str) -> (r: Option<String>)
    ensures
        match r {
            Some(l) => spec_first_line(s@) == Some(l@),
            None => spec_first_line(s@) is None,
        },
{
    let c = chars_of(s);
    if c.len() == 0 {
        return None;
    }
    let k = find_char(&c, '\n');
    if k < c.len() && k > 0 && c[k - 1] == '\r' {
        Some(s.substring_char(0, k - 1).to_owned())
    } else {
        Some(s.substring_char(0, k).to_owned())
    }
}

/// The first line never holds a line break.
pub proof fn law_first_line_has_no_newline(s: Seq<char>)
    ensures
        spec_first_line(s) matches Some(l) ==> !l.contains('\n'),
{
    if s.len() > 0 {
        lemma_first_index_bounds(s, '\n');
    }
}

pub proof fn lemma_first_index_bounds(s: Seq<char>, sep: char)
    ensures
        0 <= first_index(s, sep) <= s.len(),
        forall|j: int| 0 <= j < first_index(s, sep) ==> #[trigger] s[j] != sep,
    decreases s.len(),
{
    if s.len() > 0 && s[0] != sep {
        lemma_first_index_bounds(s.drop_first(), sep);
        assert forall|j: int| 0 <= j < first_index(s, sep) implies #[trigger] s[j] != sep by {
            if j > 0 {
                assert(s[j] == s.drop_first()[j - 1]);
            }
        }
    }
}

/// When `first_index` stops before the end, it stops at `sep`.
pub proof fn lemma_first_index_hit(s: Seq<char>, sep: char)
    ensures
        first_index(s, sep) < s.len() ==> s[first_index(s, sep)] == sep,
    decreases s.len(),
{
    if s.len() > 0 && s[0] != sep {
        lemma_first_index_hit(s.drop_first(), sep);
        lemma_first_index_bounds(s.drop_first(), sep);
        if first_index(s, sep) < s.len() {
            assert(s[first_index(s, sep)] == s.drop_first()[first_index(s.drop_first(), sep)]);
        }
    }
}

/// Trimming removes only white space, and only from the ends: the result is
/// a run of `s` with nothing but white space before and after it, and it
/// neither starts nor ends with white space.
pub proof fn law_trim_characterized(s: Seq<char>)
    ensures
        exists|lo: int, hi: int|
            0 <= lo <= hi <= s.len() && trimmed(s) == s.subrange(lo, hi) && (forall|j: int|
                0 <= j < lo ==> is_white_space(#[trigger] s[j])) && (forall|j: int|
                hi <= j < s.len() ==> is_white_space(#[trigger] s[j])),
        trimmed(s).len() > 0 ==> !is_white_space(trimmed(s)[0]) && !is_white_space(
            trimmed(s).last(),
        ),
{
    lemma_leading_ws(s);
    lemma_trailing_ws(s);
    let lo = leading_ws(s);
    if lo == s.len() {
        assert(trimmed(s) == s.subrange(lo, lo));
        assert(trimmed(s) =~= s.subrange(lo, lo));
    } else {
        let hi = s.len() - trailing_ws(s);
        assert(hi > lo) by {
            if hi <= lo {
                assert(is_white_space(s[lo]));
            }
        }
        assert(trimmed(s) == s.subrange(lo, hi));
        assert(trimmed(s)[0] == s[lo]);
        assert(trimmed(s).last() == s[hi - 1]);
    }
}

/// The first line of text that goes on past a line break is the text before
/// that break, whether the break is `\n` or `\r\n`.
pub proof fn law_first_line_of_lines(line: Seq<char>, rest: Seq<char>)
    requires
        !line.contains('\n'),
        line.len() == 0 || line.last() != '\r',
    ensures
        spec_first_line(line + seq!['\n'] + rest) == Some(line),
        spec_first_line(line + seq!['\r', '\n'] + rest) == Some(line),
{
    let a = line + seq!['\n'] + rest;
    assert forall|j: int| 0 <= j < line.len() implies #[trigger] a[j] != '\n' by {
        assert(a[j] == line[j]);
    }
    lemma_first_index_is(a, '\n', line.len() as int);
    assert(a.take(line.len() as int) =~= line);
    let b = line + seq!['\r', '\n'] + rest;
    assert forall|j: int| 0 <= j < line.len() + 1int implies #[trigger] b[j] != '\n' by {
        if j < line.len() {
            assert(b[j] == line[j]);
        }
    }
    lemma_first_index_is(b, '\n', line.len() + 1int);
    assert(b.take(line.len() as int) =~= line);
}

} // verus!
