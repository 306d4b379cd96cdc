//! Text for operator-facing error reports: a code block cut to fit a length
//! limit.

use vstd::prelude::*;
use vstd::string::StrSliceExecFns;
use vstd::utf8::encode_utf8;
use crate::text::{decimal, push_char, push_decimal, push_text};

verus! {

/// The most characters a message may hold.
pub const MESSAGE_CODE_LIMIT: usize = 2000;

/// Characters that a truncated code block adds around the shown text:
/// the length of "```\n\n```\n(999999 bytes truncated)\n".
pub const PADDING_LEN: usize = 34;

/// Whether `c` has the Unicode `White_Space` property.
pub open spec fn white_space(c: char) -> bool {
    let u = c as u32;
    ||| 0x09 <= u <= 0x0d
    ||| u == 0x20
    ||| u == 0x85
    ||| u == 0xa0
    ||| u == 0x1680
    ||| 0x2000 <= u <= 0x200a
    ||| u == 0x2028
    ||| u == 0x2029
    ||| u == 0x202f
    ||| u == 0x205f
    ||| u == 0x3000
}

/// Whether `c` has the Unicode `White_Space` property, as `char::is_whitespace`
/// decides it.
pub fn is_whitespace(c: char) -> (r: bool)
    ensures
        r == white_space(c),
{
    let u = c as u32;
    (0x09 <= u && u <= 0x0d) || u == 0x20 || u == 0x85 || u == 0xa0 || u == 0x1680 || (0x2000 <= u
        && u <= 0x200a) || u == 0x2028 || u == 0x2029 || u == 0x202f || u == 0x205f || u == 0x3000
}

/// Index of the last line break among the first `n` characters of `t`.
pub open spec fn last_line_break(t: Seq<char>, n: int) -> Option<int>
    decreases n,
{
    if n <= 0 {
        None
    } else if t[n - 1] == '\n' {
        Some(n - 1)
    } else {
        last_line_break(t, n - 1)
    }
}

/// Where `t` is cut when at most `n` characters may be shown: nowhere if it
/// fits; else just before the line break at `n`, or before the last line
/// break ahead of it, or at `n` within a line.
pub open spec fn cut_point(t: Seq<char>, n: int) -> int {
    if t.len() <= n {
        t.len() as int
    } else if t[n] == '\n' {
        n
    } else {
        match last_line_break(t, n) {
            Some(j) => j,
            None => n,
        }
    }
}

/// `s` without its trailing white space.
pub open spec fn trim_end(s: Seq<char>) -> Seq<char>
    decreases s.len(),
{
    if s.len() > 0 && white_space(s.last()) {
        trim_end(s.drop_last())
    } else {
        s
    }
}

/// Whether `s` holds nothing but white space.
pub open spec fn blank(s: Seq<char>) -> bool {
    forall|i: int| 0 <= i < s.len() ==> white_space(#[trigger] s[i])
}

/// The code block that shows `t` within `limit` characters, followed by a
/// note of how many bytes were cut, unless only white space was cut.
pub open spec fn code_block(limit: int, t: Seq<char>) -> Seq<char> {
    let k = cut_point(t, limit - PADDING_LEN);
    let shown = t.subrange(0, k);
    let hidden = t.subrange(k, t.len() as int);
    let block = "```\n"@ + trim_end(shown) + "\n```\n"@;
    if blank(hidden) {
        block
    } else {
        // A string's byte length always fits in `usize`.
        block + "("@ + decimal((encode_utf8(hidden).len() as usize) as nat) + " bytes truncated)\n"@
    }
}

proof fn lemma_line_break_before(t: Seq<char>, n: int)
    requires
        n <= t.len(),
    ensures
        last_line_break(t, n) matches Some(j) ==> 0 <= j < n && t[j] == '\n',
    decreases n,
{
    if n > 0 && t[n - 1] != '\n' {
        lemma_line_break_before(t, n - 1);
    }
}

fn find_line_break_before(t: &str, n: usize) -> (r: Option<usize>)
    requires
        n <= t@.len(),
    ensures
        match last_line_break(t@, n as int) {
            Some(j) => r == Some(j as usize),
            None => r is None,
        },
{
    let mut k = n;
    while k > 0
        invariant
            k <= n <= t@.len(),
            last_line_break(t@, n as int) == last_line_break(t@, k as int),
        decreases k,
    {
        if t.get_char(k - 1) == '\n' {
            return Some(k - 1);
        }
        k = k - 1;
    }
    None
}

fn trimmed_end_len(s: &str) -> (r: usize)
    ensures
        r <= s@.len(),
        trim_end(s@) == s@.subrange(0, r as int),
{
    let mut k = s.unicode_len();
    assert(s@.subrange(0, k as int) =~= s@);
    while k > 0 && is_whitespace(s.get_char(k - 1))
        invariant
            k <= s@.len(),
            trim_end(s@) == trim_end(s@.subrange(0, k as int)),
        decreases k,
    {
        assert(s@.subrange(0, k as int).drop_last() =~= s@.subrange(0, k - 1));
        k = k - 1;
    }
    k
}

fn is_blank(s: &str) -> (r: bool)
    ensures
        r == blank(s@),
{
    let n = s.unicode_len();
    let mut i: usize = 0;
    while i < n
        invariant
            n == s@.len(),
            i <= n,
            forall|j: int| 0 <= j < i ==> white_space(#[trigger] s@[j]),
        decreases n - i,
    {
        if !is_whitespace(s.get_char(i)) {
            return false;
        }
        i = i + 1;
    }
    true
}

/// Appends to `w` a code block that shows at most `limit - PADDING_LEN`
/// characters of `text`, cut before a line break where there is one, and a
/// note of how many bytes were left out unless they were only white space.
pub fn write_code_block_truncated(w: &mut String, limit: usize, text: &str)
    requires
        limit >= PADDING_LEN,
    ensures
        final(w)@ == old(w)@ + code_block(limit as int, text@),
{
    let n = limit - PADDING_LEN;
    let len = text.unicode_len();
    let cut = if len <= n {
        len
    } else if text.get_char(n) == '\n' {
        n
    } else {
        match find_line_break_before(text, n) {
            Some(j) => j,
            None => n,
        }
    };
    proof {
        if len > n {
            lemma_line_break_before(text@, n as int);
        }
    }
    assert(cut == cut_point(text@, n as int));
    let shown = text.substring_char(0, cut);
    let hidden = text.substring_char(cut, len);
    let kept = trimmed_end_len(shown);
    push_text(w, "```\n");
    push_text(w, shown.substring_char(0, kept));
    push_text(w, "\n```\n");
    if !is_blank(hidden) {
        push_char(w, '(');
        push_decimal(w, hidden.len() as u64);
        push_text(w, " bytes truncated)\n");
        proof {
            reveal_strlit("(");
        }
        assert(hidden@ == text@.subrange(cut as int, text@.len() as int));
        assert(shown@ == text@.subrange(0, cut as int));
        assert(w@ =~= old(w)@ + code_block(limit as int, text@));
    } else {
        assert(hidden@ == text@.subrange(cut as int, text@.len() as int));
        assert(blank(hidden@));
        assert(shown@ == text@.subrange(0, cut as int));
        assert(trim_end(shown@) == shown@.subrange(0, kept as int));
        assert(w@ =~= old(w)@ + code_block(limit as int, text@));
    }
}

} // verus!
