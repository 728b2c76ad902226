//! Reading a yes/no answer: only "y" and "yes" count as consent.

use vstd::prelude::*;
use vstd::string::StrSliceExecFns;

verus! {

/// Characters that Unicode classes as white space.
pub open spec fn is_space(c: char) -> bool {
    let n = c as u32;
    ||| 0x09 <= n <= 0x0d
    ||| n == 0x20
    ||| n == 0x85
    ||| n == 0xa0
    ||| n == 0x1680
    ||| 0x2000 <= n <= 0x200a
    ||| n == 0x2028
    ||| n == 0x2029
    ||| n == 0x202f
    ||| n == 0x205f
    ||| n == 0x3000
}

/// `s` without its leading white space.
pub open spec fn trim_start(s: Seq<char>) -> Seq<char>
    decreases s.len(),
{
    if s.len() > 0 && is_space(s[0]) {
        trim_start(s.drop_first())
    } else {
        s
    }
}

/// `s` without its trailing white space.
pub open spec fn trim_end(s: Seq<char>) -> Seq<char>
    decreases s.len(),
{
    if s.len() > 0 && is_space(s.last()) {
        trim_end(s.drop_last())
    } else {
        s
    }
}

/// `s` without leading and trailing white space.
pub open spec fn trimmed(s: Seq<char>) -> Seq<char> {
    trim_end(trim_start(s))
}

/// `c` is the letter `lower` in either case.
pub open spec fn is_letter(c: char, lower: char) -> bool {
    c == lower || (c as u32) + 32 == lower as u32
}

/// The answer, once trimmed, reads "y" or "yes" in any mix of cases.
pub open spec fn affirmative(answer: Seq<char>) -> bool {
    let t = trimmed(answer);
    ||| t.len() == 1 && is_letter(t[0], 'y')
    ||| t.len() == 3 && is_letter(t[0], 'y') && is_letter(t[1], 'e') && is_letter(t[2], 's')
}

/// Tells whether `c` is white space.
pub fn is_whitespace(c: char) -> (space: bool)
    ensures
        space == is_space(c),
{
    let n: u32 = c as u32;
    (0x09 <= n && n <= 0x0d) || n == 0x20 || n == 0x85 || n == 0xa0 || n == 0x1680 || (0x2000 <= n
        && n <= 0x200a) || n == 0x2028 || n == 0x2029 || n == 0x202f || n == 0x205f || n == 0x3000
}

fn matches_letter(c: char, lower: char) -> (same: bool)
    requires
        'a' <= lower <= 'z',
    ensures
        same == is_letter(c, lower),
{
    let n: u32 = c as u32;
    let l: u32 = lower as u32;
    n == l || n + 32 == l
}

/// Reads the character at `at`; in constant time where the text is known to
/// be ASCII.
fn char_at(text: &str, at: usize, ascii: bool) -> (c: char)
    requires
        at < text@.len(),
        ascii ==> text.is_ascii(),
    ensures
        c == text@[at as int],
{
    if ascii {
        text.get_ascii(at) as char
    } else {
        text.get_char(at)
    }
}

/// Tells whether an operator's answer gives consent. A blank answer, and any
/// answer other than "y" or "yes", does not.
pub fn is_affirmative(answer: &str) -> (yes: bool)
    ensures
        yes == affirmative(answer@),
{
    let len = answer.unicode_len();
    let ascii = answer.is_ascii();
    let mut start: usize = 0;
    proof {
        assert(answer@.skip(0) =~= answer@);
    }
    while start < len && is_whitespace(char_at(answer, start, ascii))
        invariant
            start <= len == answer@.len(),
            ascii ==> answer.is_ascii(),
            trim_start(answer@) == trim_start(answer@.skip(start as int)),
        decreases len - start,
    {
        proof {
            let rest = answer@.skip(start as int);
            assert(rest[0] == answer@[start as int]);
            assert(rest.drop_first() =~= answer@.skip(start + 1));
        }
        start += 1;
    }
    proof {
        let rest = answer@.skip(start as int);
        if start < len {
            assert(rest[0] == answer@[start as int]);
        }
        assert(trim_start(answer@) == rest);
    }
    let mut end: usize = len;
    while end > start && is_whitespace(char_at(answer, end - 1, ascii))
        invariant
            start <= end <= len == answer@.len(),
            ascii ==> answer.is_ascii(),
            trimmed(answer@) == trim_end(answer@.subrange(start as int, end as int)),
        decreases end - start,
    {
        proof {
            let cur = answer@.subrange(start as int, end as int);
            assert(cur.last() == answer@[end - 1]);
            assert(cur.drop_last() =~= answer@.subrange(start as int, end - 1));
        }
        end -= 1;
    }
    proof {
        let cur = answer@.subrange(start as int, end as int);
        if end > start {
            assert(cur.last() == answer@[end - 1]);
        }
        assert(trimmed(answer@) == cur);
    }
    if end - start == 1 {
        matches_letter(char_at(answer, start, ascii), 'y')
    } else if end - start == 3 {
        matches_letter(char_at(answer, start, ascii), 'y') && matches_letter(
            char_at(answer, start + 1, ascii),
            'e',
        ) && matches_letter(char_at(answer, start + 2, ascii), 's')
    } else {
        false
    }
}

} // verus!
