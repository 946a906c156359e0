//! Judging the console output of a test run: the first line that carries a
//! failure marker, or an error-coloured line that is not a directory notice,
//! decides the verdict.

use vstd::prelude::*;
use vstd::slice::slice_subrange;
use vstd::utf8::{decode_utf8, valid_utf8};
use crate::text::{chars_of, contains_bytes, contains_chars, has_window};

verus! {

/// The marker printed for a failed test: `ESC[41mFAIL ESC[0m`.
pub open spec fn fail_marker() -> Seq<u8> {
    seq![0x1bu8, 0x5bu8, 0x34u8, 0x31u8, 0x6du8, 0x46u8, 0x41u8, 0x49u8, 0x4cu8, 0x1bu8, 0x5bu8, 0x30u8, 0x6du8]
}

/// The colour escape that starts an error line: `ESC[31m`.
pub open spec fn error_colour() -> Seq<u8> {
    seq![0x1bu8, 0x5bu8, 0x33u8, 0x31u8, 0x6du8]
}

/// The notice that makes an error-coloured line harmless.
pub open spec fn directory_notice() -> Seq<char> {
    seq!['I', 's', ' ', 'a', ' ', 'd', 'i', 'r', 'e', 'c', 't', 'o', 'r', 'y']
}

/// The colour reset appended to a reported error line: `ESC[m`.
pub open spec fn colour_reset() -> Seq<char> {
    seq!['\x1b', '[', 'm']
}

/// What `String::from_utf8_lossy` makes of a byte string.
pub uninterp spec fn utf8_lossy(bytes: Seq<u8>) -> Seq<char>;

/// `String::from_utf8_lossy`, turned into an owned `String`.
/// Claimed: the result is `utf8_lossy` of the bytes, and bytes that are
/// valid UTF-8 come back as the characters they encode.
#[verifier::external_body]
fn lossy_string(bytes: &[u8]) -> (r: String)
    ensures
        r@ == utf8_lossy(bytes@),
        valid_utf8(bytes@) ==> r@ == decode_utf8(bytes@),
{
    String::from_utf8_lossy(bytes).into_owned()
}

/// The text of a line as reported: the characters it encodes when it is
/// valid UTF-8, and otherwise what `from_utf8_lossy` makes of it.
pub open spec fn line_text(bytes: Seq<u8>) -> Seq<char> {
    if valid_utf8(bytes) {
        decode_utf8(bytes)
    } else {
        utf8_lossy(bytes)
    }
}

/// Index of the first `\n` at or after `from`, or the length when there is none.
pub open spec fn next_newline(s: Seq<u8>, from: int) -> int
    decreases s.len() - from,
{
    if from >= s.len() {
        s.len() as int
    } else if s[from] == 10u8 {
        from
    } else {
        next_newline(s, from + 1)
    }
}

/// The verdict on one complete (newline-terminated) line, if it decides one.
pub open spec fn judge_line(line: Seq<u8>) -> Option<Seq<char>> {
    if has_window(line, fail_marker()) {
        Some(line_text(line))
    } else if has_window(line, error_colour()) && !has_window(line_text(line), directory_notice()) {
        Some(line_text(line) + colour_reset())
    } else {
        None
    }
}

/// The verdict on the unterminated last line: only a failure marker counts there.
pub open spec fn judge_tail(tail: Seq<u8>) -> Option<Seq<char>> {
    if tail.len() > 0 && has_window(tail, fail_marker()) {
        Some(line_text(tail))
    } else {
        None
    }
}

/// The verdict on `s` read from position `start` on.
pub open spec fn judge_from(s: Seq<u8>, start: int) -> Option<Seq<char>>
    decreases s.len() - start,
{
    if start < 0 || start >= s.len() {
        None
    } else {
        let nl = next_newline(s, start);
        proof {
            lemma_next_newline_bounds(s, start);
        }
        if nl >= s.len() {
            judge_tail(s.subrange(start, s.len() as int))
        } else {
            match judge_line(s.subrange(start, nl)) {
                Some(v) => Some(v),
                None => judge_from(s, nl + 1),
            }
        }
    }
}

/// The verdict on a whole console output.
pub open spec fn spec_test_judge(s: Seq<u8>) -> Option<Seq<char>> {
    judge_from(s, 0)
}

/// `next_newline` lies between `from` and the length.
pub proof fn lemma_next_newline_bounds(s: Seq<u8>, from: int)
    requires
        0 <= from,
    ensures
        from <= next_newline(s, from) <= s.len() || (from > s.len() && next_newline(s, from)
            == s.len()),
        next_newline(s, from) < s.len() ==> s[next_newline(s, from)] == 10u8,
    decreases s.len() - from,
{
    if from < s.len() && s[from] != 10u8 {
        lemma_next_newline_bounds(s, from + 1);
    }
}

/// A newline-free run ending at a newline (or at the end) is found by `next_newline`.
pub proof fn lemma_next_newline_at(s: Seq<u8>, from: int, i: int)
    requires
        0 <= from <= i <= s.len(),
        forall|k: int| from <= k < i ==> s[k] != 10u8,
        i == s.len() || s[i] == 10u8,
    ensures
        next_newline(s, from) == i,
    decreases i - from,
{
    if from < i {
        lemma_next_newline_at(s, from + 1, i);
    }
}

fn fail_marker_bytes() -> (r: Vec<u8>)
    ensures
        r@ == fail_marker(),
{
    let r = vec![0x1bu8, 0x5bu8, 0x34u8, 0x31u8, 0x6du8, 0x46u8, 0x41u8, 0x49u8, 0x4cu8, 0x1bu8, 0x5bu8, 0x30u8, 0x6du8];
    assert(r@ =~= fail_marker());
    r
}

fn error_colour_bytes() -> (r: Vec<u8>)
    ensures
        r@ == error_colour(),
{
    let r = vec![0x1bu8, 0x5bu8, 0x33u8, 0x31u8, 0x6du8];
    assert(r@ =~= error_colour());
    r
}

fn directory_notice_chars() -> (r: Vec<char>)
    ensures
        r@ == directory_notice(),
{
    let r = vec!['I', 's', ' ', 'a', ' ', 'd', 'i', 'r', 'e', 'c', 't', 'o', 'r', 'y'];
    assert(r@ =~= directory_notice());
    r
}

/// Judges a complete line; `None` when the line decides nothing.
fn judge_complete_line(line: &[u8]) -> (r: Option<String>)
    ensures
        match r {
            Some(v) => judge_line(line@) == Some(v@),
            None => judge_line(line@) is None,
        },
{
    if contains_bytes(line, fail_marker_bytes().as_slice()) {
        return Some(lossy_string(line));
    }
    if contains_bytes(line, error_colour_bytes().as_slice()) {
        let text = lossy_string(line);
        let text_chars = chars_of(text.as_str());
        if !contains_chars(&text_chars, &directory_notice_chars()) {
            let reset = "\x1b[m";
            proof {
                reveal_strlit("\x1b[m");
            }
            assert(reset@ =~= colour_reset());
            return Some(text.concat(reset));
        }
    }
    None
}

/// Scans the output of a test run line by line and returns the line that
/// reports a failure: the first complete line holding the failure marker,
/// or holding the error colour without the directory notice (then with the
/// colour reset appended); failing both, an unterminated last line holding
/// the failure marker. `None` when the run passed.
pub fn test_judge(stdout: &[u8]) -> (r: Option<String>)
    ensures
        match r {
            Some(v) => spec_test_judge(stdout@) == Some(v@),
            None => spec_test_judge(stdout@) is None,
        },
{
    let n = stdout.len();
    let mut start: usize = 0;
    let mut i: usize = 0;
    while i < n
        invariant
            n == stdout@.len(),
            start <= i <= n,
            forall|k: int| start <= k < i ==> stdout@[k] != 10u8,
            spec_test_judge(stdout@) == judge_from(stdout@, start as int),
        decreases n - i,
    {
        if stdout[i] == 10u8 {
            proof {
                lemma_next_newline_at(stdout@, start as int, i as int);
            }
            let line = slice_subrange(stdout, start, i);
            let verdict = judge_complete_line(line);
            if verdict.is_some() {
                return verdict;
            }
            start = i + 1;
        }
        i += 1;
    }
    proof {
        lemma_next_newline_at(stdout@, start as int, n as int);
    }
    if start < n {
        let tail = slice_subrange(stdout, start, n);
        if contains_bytes(tail, fail_marker_bytes().as_slice()) {
            return Some(lossy_string(tail));
        }
    }
    None
}

/// `next_newline` does not look past a newline that ends `s`.
proof fn lemma_next_newline_extend(s: Seq<u8>, t: Seq<u8>, from: int)
    requires
        0 <= from < s.len(),
        s.last() == 10u8,
    ensures
        next_newline(s + t, from) == next_newline(s, from),
        next_newline(s, from) < s.len(),
    decreases s.len() - from,
{
    assert((s + t)[from] == s[from]);
    if s[from] != 10u8 {
        lemma_next_newline_extend(s, t, from + 1);
    }
}

/// Judging `s + t` from `start` agrees with judging `s`, and goes on past `s`
/// only when `s` decided nothing.
proof fn lemma_judge_from_extend(s: Seq<u8>, t: Seq<u8>, start: int)
    requires
        0 <= start <= s.len(),
        s.len() > 0,
        s.last() == 10u8,
    ensures
        judge_from(s + t, start) == match judge_from(s, start) {
            Some(v) => Some(v),
            None => judge_from(s + t, s.len() as int),
        },
    decreases s.len() - start,
{
    if start < s.len() {
        lemma_next_newline_extend(s, t, start);
        lemma_next_newline_bounds(s, start);
        let nl = next_newline(s, start);
        assert((s + t).subrange(start, nl) =~= s.subrange(start, nl));
        lemma_judge_from_extend(s, t, nl + 1);
    }
}

/// Past the bytes of `s`, newlines in `s + t` are those of `t`, shifted.
proof fn lemma_next_newline_shift(s: Seq<u8>, t: Seq<u8>, k: int)
    requires
        0 <= k,
    ensures
        next_newline(s + t, s.len() + k) == s.len() + next_newline(t, k),
    decreases t.len() - k,
{
    if k < t.len() {
        assert((s + t)[s.len() + k] == t[k]);
        if t[k] != 10u8 {
            lemma_next_newline_shift(s, t, k + 1);
        }
    }
}

/// Judging `s + t` from past `s` is judging `t` alone.
proof fn lemma_judge_from_shift(s: Seq<u8>, t: Seq<u8>, k: int)
    requires
        0 <= k,
    ensures
        judge_from(s + t, s.len() + k) == judge_from(t, k),
    decreases t.len() - k,
{
    if k < t.len() {
        lemma_next_newline_shift(s, t, k);
        lemma_next_newline_bounds(t, k);
        let nl = next_newline(t, k);
        if nl >= t.len() {
            assert((s + t).subrange(s.len() + k, (s + t).len() as int) =~= t.subrange(
                k,
                t.len() as int,
            ));
        } else {
            assert((s + t).subrange(s.len() + k, s.len() + nl) =~= t.subrange(k, nl));
            lemma_judge_from_shift(s, t, nl + 1);
        }
    }
}

/// Output that arrives after a complete line never changes a verdict already
/// reached, and when no verdict was reached the judging simply resumes at the
/// new bytes: the verdict on `s + t` is that on `s`, or else that on `t` alone.
pub proof fn law_judge_streams(s: Seq<u8>, t: Seq<u8>)
    requires
        s.len() > 0,
        s.last() == 10u8,
    ensures
        spec_test_judge(s + t) == match spec_test_judge(s) {
            Some(v) => Some(v),
            None => spec_test_judge(t),
        },
{
    lemma_judge_from_extend(s, t, 0);
    lemma_judge_from_shift(s, t, 0);
}

/// A run of a subrange is a run of the whole.
proof fn lemma_window_in_subrange<A>(s: Seq<A>, lo: int, hi: int, needle: Seq<A>)
    requires
        0 <= lo <= hi <= s.len(),
        has_window(s.subrange(lo, hi), needle),
    ensures
        has_window(s, needle),
{
    let k = choose|k: int|
        0 <= k && k + needle.len() <= hi - lo && #[trigger] s.subrange(lo, hi).subrange(
            k,
            k + needle.len(),
        ) == needle;
    assert(s.subrange(lo + k, lo + k + needle.len()) =~= s.subrange(lo, hi).subrange(
        k,
        k + needle.len(),
    ));
}

proof fn lemma_judge_from_needs_marker(s: Seq<u8>, start: int)
    requires
        0 <= start,
        judge_from(s, start) is Some,
    ensures
        has_window(s, fail_marker()) || has_window(s, error_colour()),
    decreases s.len() - start,
{
    lemma_next_newline_bounds(s, start);
    let nl = next_newline(s, start);
    if nl >= s.len() {
        lemma_window_in_subrange(s, start, s.len() as int, fail_marker());
    } else {
        let line = s.subrange(start, nl);
        if has_window(line, fail_marker()) {
            lemma_window_in_subrange(s, start, nl, fail_marker());
        } else if judge_line(line) is Some {
            lemma_window_in_subrange(s, start, nl, error_colour());
        } else {
            lemma_judge_from_needs_marker(s, nl + 1);
        }
    }
}

/// A run is only ever judged failed when its output holds the failure marker
/// or the error colour somewhere; output with neither always passes.
pub proof fn law_judge_needs_marker(s: Seq<u8>)
    ensures
        spec_test_judge(s) is Some ==> has_window(s, fail_marker()) || has_window(s, error_colour()),
{
    if spec_test_judge(s) is Some {
        lemma_judge_from_needs_marker(s, 0);
    }
}

/// Whether every byte of `s` is ASCII.
pub open spec fn is_ascii_bytes(s: Seq<u8>) -> bool {
    forall|i: int| 0 <= i < s.len() ==> #[trigger] s[i] < 128
}

/// The characters that ASCII bytes stand for.
pub open spec fn ascii_chars(b: Seq<u8>) -> Seq<char> {
    Seq::new(b.len(), |i: int| b[i] as char)
}

/// ASCII bytes are valid UTF-8 and decode to the characters they stand for.
proof fn lemma_ascii_decode(b: Seq<u8>)
    requires
        is_ascii_bytes(b),
    ensures
        valid_utf8(b),
        decode_utf8(b) == ascii_chars(b),
{
    let chars = ascii_chars(b);
    assert forall|i: int| 0 <= i < chars.len() implies '\0' <= #[trigger] chars[i] <= '\u{7f}' by {
        let x = b[i];
        assert(x < 128);
        assert((x as char) as u32 == x as u32);
    }
    assert(vstd::utf8::is_ascii_chars(chars));
    vstd::utf8::is_ascii_chars_encode_utf8(chars);
    assert forall|i: int| 0 <= i < b.len() implies #[trigger] vstd::utf8::encode_utf8(chars)[i] == b[i] by {
        let x = b[i];
        assert((x as char) as u8 == x);
    }
    assert(vstd::utf8::encode_utf8(chars) =~= b);
    vstd::utf8::encode_utf8_valid_utf8(chars);
    vstd::utf8::encode_utf8_decode_utf8(chars);
}

/// A run of ASCII bytes is a run of their characters.
proof fn lemma_ascii_window(b: Seq<u8>, m: Seq<u8>)
    requires
        has_window(b, m),
    ensures
        has_window(ascii_chars(b), ascii_chars(m)),
{
    let k = choose|k: int|
        0 <= k && k + m.len() <= b.len() && #[trigger] b.subrange(k, k + m.len()) == m;
    assert(ascii_chars(b).subrange(k, k + m.len()) =~= ascii_chars(m)) by {
        assert forall|j: int| 0 <= j < m.len() implies #[trigger] ascii_chars(b).subrange(
            k,
            k + m.len(),
        )[j] == ascii_chars(m)[j] by {
            assert(b.subrange(k, k + m.len())[j] == b[k + j]);
        }
    }
}

/// The characters of bytes without a newline hold no newline.
proof fn lemma_ascii_no_newline(b: Seq<u8>)
    requires
        forall|i: int| 0 <= i < b.len() ==> #[trigger] b[i] != 10u8,
    ensures
        !ascii_chars(b).contains('\n'),
{
    assert forall|i: int| 0 <= i < ascii_chars(b).len() implies #[trigger] ascii_chars(b)[i] != '\n' by {
        let x = b[i];
        assert(x != 10u8);
        assert((x as char) as u32 == x as u32);
    }
}

proof fn lemma_reported_ascii_from(s: Seq<u8>, start: int)
    requires
        0 <= start,
        is_ascii_bytes(s),
        judge_from(s, start) is Some,
    ensures
        judge_from(s, start) matches Some(v) && !v.contains('\n') && (has_window(
            v,
            ascii_chars(fail_marker()),
        ) || has_window(v, ascii_chars(error_colour()))),
    decreases s.len() - start,
{
    lemma_next_newline_bounds(s, start);
    let nl = next_newline(s, start);
    let end = if nl >= s.len() { s.len() as int } else { nl };
    let line = s.subrange(start, end);
    assert(is_ascii_bytes(line));
    lemma_ascii_decode(line);
    assert forall|i: int| 0 <= i < line.len() implies #[trigger] line[i] != 10u8 by {
        lemma_next_newline_at_most(s, start, start + i);
    }
    lemma_ascii_no_newline(line);
    if nl >= s.len() {
        lemma_ascii_window(line, fail_marker());
    } else if has_window(line, fail_marker()) {
        lemma_ascii_window(line, fail_marker());
    } else if judge_line(line) is Some {
        lemma_ascii_window(line, error_colour());
        let text = ascii_chars(line);
        let v = text + colour_reset();
        assert(!v.contains('\n')) by {
            assert forall|i: int| 0 <= i < v.len() implies #[trigger] v[i] != '\n' by {
                if i >= text.len() {
                    assert(v[i] == colour_reset()[i - text.len()]);
                } else {
                    assert(v[i] == text[i]);
                }
            }
        }
        let m = ascii_chars(error_colour());
        let k = choose|k: int|
            0 <= k && k + m.len() <= text.len() && #[trigger] text.subrange(k, k + m.len()) == m;
        assert(v.subrange(k, k + m.len()) =~= text.subrange(k, k + m.len()));
    } else {
        lemma_reported_ascii_from(s, nl + 1);
    }
}

/// No newline lies between `from` and `next_newline(s, from)`.
proof fn lemma_next_newline_at_most(s: Seq<u8>, from: int, i: int)
    requires
        0 <= from <= i < next_newline(s, from),
    ensures
        s[i] != 10u8,
    decreases i - from,
{
    if s[from] == 10u8 {
    } else if from < i {
        lemma_next_newline_at_most(s, from + 1, i);
    }
}

/// On ASCII output, a reported failure line is one line: it holds no newline,
/// and it holds the failure marker or the error colour it was picked for.
pub proof fn law_reported_line_is_marked(s: Seq<u8>)
    requires
        is_ascii_bytes(s),
    ensures
        spec_test_judge(s) matches Some(v) ==> !v.contains('\n') && (has_window(
            v,
            ascii_chars(fail_marker()),
        ) || has_window(v, ascii_chars(error_colour()))),
{
    if spec_test_judge(s) is Some {
        lemma_reported_ascii_from(s, 0);
    }
}

/// An output made of one complete line is judged by that line alone.
proof fn lemma_single_line(line: Seq<u8>)
    requires
        forall|i: int| 0 <= i < line.len() ==> #[trigger] line[i] != 10u8,
    ensures
        spec_test_judge(line.push(10u8)) == judge_line(line),
{
    let s = line.push(10u8);
    assert forall|k: int| 0 <= k < line.len() implies #[trigger] s[k] != 10u8 by {
        assert(s[k] == line[k]);
    }
    assert(s[line.len() as int] == 10u8);
    lemma_next_newline_at(s, 0, line.len() as int);
    assert(next_newline(s, 0) == line.len());
    assert(s.subrange(0, line.len() as int) =~= line);
    assert(judge_from(s, line.len() + 1int) is None);
    assert(judge_from(s, 0) == match judge_line(line) {
        Some(v) => Some(v),
        None => judge_from(s, line.len() + 1int),
    });
}

/// A complete line in the error colour and without the failure marker fails
/// the run, reported with the colour reset appended, unless its text holds
/// the whole notice "Is a directory"; only then does it pass.
pub proof fn law_error_line_verdict(line: Seq<u8>)
    requires
        forall|i: int| 0 <= i < line.len() ==> #[trigger] line[i] != 10u8,
        !has_window(
            line,
            seq![0x1bu8, 0x5bu8, 0x34u8, 0x31u8, 0x6du8, 0x46u8, 0x41u8, 0x49u8, 0x4cu8, 0x1bu8, 0x5bu8, 0x30u8, 0x6du8],
        ),
        has_window(line, seq![0x1bu8, 0x5bu8, 0x33u8, 0x31u8, 0x6du8]),
    ensures
        spec_test_judge(line.push(10u8)) == if has_window(
            line_text(line),
            seq!['I', 's', ' ', 'a', ' ', 'd', 'i', 'r', 'e', 'c', 't', 'o', 'r', 'y'],
        ) {
            None
        } else {
            Some(line_text(line) + seq!['\x1b', '[', 'm'])
        },
{
    lemma_single_line(line);
    assert(fail_marker() =~= seq![0x1bu8, 0x5bu8, 0x34u8, 0x31u8, 0x6du8, 0x46u8, 0x41u8, 0x49u8, 0x4cu8, 0x1bu8, 0x5bu8, 0x30u8, 0x6du8]);
    assert(error_colour() =~= seq![0x1bu8, 0x5bu8, 0x33u8, 0x31u8, 0x6du8]);
    assert(directory_notice() =~= seq!['I', 's', ' ', 'a', ' ', 'd', 'i', 'r', 'e', 'c', 't', 'o', 'r', 'y']);
    assert(colour_reset() =~= seq!['\x1b', '[', 'm']);
}

/// A complete line holding the failure marker fails the run, reported as
/// the line's text, whatever else the line holds.
pub proof fn law_fail_line_verdict(line: Seq<u8>)
    requires
        forall|i: int| 0 <= i < line.len() ==> #[trigger] line[i] != 10u8,
        has_window(
            line,
            seq![0x1bu8, 0x5bu8, 0x34u8, 0x31u8, 0x6du8, 0x46u8, 0x41u8, 0x49u8, 0x4cu8, 0x1bu8, 0x5bu8, 0x30u8, 0x6du8],
        ),
    ensures
        spec_test_judge(line.push(10u8)) == Some(line_text(line)),
{
    lemma_single_line(line);
    assert(fail_marker() =~= seq![0x1bu8, 0x5bu8, 0x34u8, 0x31u8, 0x6du8, 0x46u8, 0x41u8, 0x49u8, 0x4cu8, 0x1bu8, 0x5bu8, 0x30u8, 0x6du8]);
}

/// Output that is a single unterminated line fails the run exactly when the
/// line holds the failure marker; the error colour alone does not count there.
pub proof fn law_unterminated_line_verdict(line: Seq<u8>)
    requires
        line.len() > 0,
        forall|i: int| 0 <= i < line.len() ==> #[trigger] line[i] != 10u8,
    ensures
        spec_test_judge(line) == if has_window(
            line,
            seq![0x1bu8, 0x5bu8, 0x34u8, 0x31u8, 0x6du8, 0x46u8, 0x41u8, 0x49u8, 0x4cu8, 0x1bu8, 0x5bu8, 0x30u8, 0x6du8],
        ) {
            Some(line_text(line))
        } else {
            None
        },
{
    lemma_next_newline_at(line, 0, line.len() as int);
    assert(line.subrange(0, line.len() as int) =~= line);
    assert(fail_marker() =~= seq![0x1bu8, 0x5bu8, 0x34u8, 0x31u8, 0x6du8, 0x46u8, 0x41u8, 0x49u8, 0x4cu8, 0x1bu8, 0x5bu8, 0x30u8, 0x6du8]);
}

} // verus!
