//! The selector between the population and the sample form of a statistic,
//! and its reading from text.

use crate::error::StatsError;
use vstd::prelude::*;
use vstd::string::StrSliceExecFns;

verus! {

/// Which divisor a variance, a standard deviation or a covariance takes: the
/// count for a whole population, one less for a sample of it.
#[derive(Clone, Copy, Debug, PartialEq, Eq, Structural)]
pub enum Method {
    Population,
    Sample,
}

/// Whether a character is white space: the characters of the Unicode
/// property `White_Space`.
pub open spec fn is_space(c: char) -> bool {
    let u = c as u32;
    ||| 0x09 <= u <= 0x0D
    ||| u == 0x20
    ||| u == 0x85
    ||| u == 0xA0
    ||| u == 0x1680
    ||| 0x2000 <= u <= 0x200A
    ||| u == 0x2028
    ||| u == 0x2029
    ||| u == 0x202F
    ||| u == 0x205F
    ||| u == 0x3000
}

/// The text without the white space at its two ends.
pub open spec fn trimmed(s: Seq<char>) -> Seq<char>
    decreases s.len(),
{
    if s.len() == 0 {
        s
    } else if is_space(s.first()) {
        trimmed(s.drop_first())
    } else if is_space(s.last()) {
        trimmed(s.drop_last())
    } else {
        s
    }
}

/// Whether a character is the given small letter, in either case.
pub open spec fn is_letter(c: char, small: char) -> bool {
    c == small || ('A' <= c <= 'Z' && c as u32 + 32 == small as u32)
}

/// Whether the text spells the given word of small letters, whatever the
/// case of its own letters.
pub open spec fn spells(s: Seq<char>, word: Seq<char>) -> bool {
    &&& s.len() == word.len()
    &&& forall|i: int| 0 <= i < s.len() ==> is_letter(#[trigger] s[i], word[i])
}

/// The method that a text names: `population` or `pop`, `sample` or `samp`,
/// in any case and with any white space around it.
pub open spec fn method_of(s: Seq<char>) -> Option<Method> {
    let word = trimmed(s);
    if spells(word, "population"@) || spells(word, "pop"@) {
        Some(Method::Population)
    } else if spells(word, "sample"@) || spells(word, "samp"@) {
        Some(Method::Sample)
    } else {
        None
    }
}

fn is_space_exec(c: char) -> (r: bool)
    ensures
        r == is_space(c),
{
    let u: u32 = c as u32;
    (0x09 <= u && u <= 0x0D) || u == 0x20 || u == 0x85 || u == 0xA0 || u == 0x1680 || (0x2000 <= u
        && u <= 0x200A) || u == 0x2028 || u == 0x2029 || u == 0x202F || u == 0x205F || u == 0x3000
}

fn is_letter_exec(c: char, small: char) -> (r: bool)
    ensures
        r == is_letter(c, small),
{
    c == small || ('A' <= c && c <= 'Z' && c as u32 + 32 == small as u32)
}

/// Whether the characters of `text` from `start` up to `end` spell `word`.
fn spells_exec(text: &str, start: usize, end: usize, word: &str) -> (r: bool)
    requires
        start <= end <= text@.len(),
    ensures
        r == spells(text@.subrange(start as int, end as int), word@),
{
    let n: usize = word.unicode_len();
    if end - start != n {
        return false;
    }
    let ghost part: Seq<char> = text@.subrange(start as int, end as int);
    let mut i: usize = 0;
    while i < n
        invariant
            i <= n,
            n == word@.len(),
            n == end - start,
            start <= end <= text@.len(),
            part == text@.subrange(start as int, end as int),
            forall|j: int| 0 <= j < i ==> is_letter(#[trigger] part[j], word@[j]),
        decreases n - i,
    {
        let c: char = text.get_char(start + i);
        let w: char = word.get_char(i);
        assert(part[i as int] == c);
        if !is_letter_exec(c, w) {
            return false;
        }
        i = i + 1;
    }
    true
}

/// Reads a method selector. Returns `None` for a text that names no method.
pub fn as_method(method: &str) -> (r: Option<Method>)
    ensures
        r == method_of(method@),
{
    let len: usize = method.unicode_len();
    let mut start: usize = 0;
    assert(method@.subrange(0, len as int) =~= method@);
    while start < len && is_space_exec(method.get_char(start))
        invariant
            start <= len,
            len == method@.len(),
            trimmed(method@) == trimmed(method@.subrange(start as int, len as int)),
        decreases len - start,
    {
        proof {
            let here: Seq<char> = method@.subrange(start as int, len as int);
            assert(here.drop_first() =~= method@.subrange(start + 1, len as int));
        }
        start = start + 1;
    }
    let mut end: usize = len;
    while end > start && is_space_exec(method.get_char(end - 1))
        invariant
            start <= end <= len,
            len == method@.len(),
            start < len ==> !is_space(method@[start as int]),
            trimmed(method@) == trimmed(method@.subrange(start as int, end as int)),
        decreases end - start,
    {
        proof {
            let here: Seq<char> = method@.subrange(start as int, end as int);
            assert(here.drop_last() =~= method@.subrange(start as int, end - 1));
        }
        end = end - 1;
    }
    proof {
        let word: Seq<char> = method@.subrange(start as int, end as int);
        assert(trimmed(word) == word);
    }
    if spells_exec(method, start, end, "population") || spells_exec(method, start, end, "pop") {
        Some(Method::Population)
    } else if spells_exec(method, start, end, "sample") || spells_exec(method, start, end, "samp") {
        Some(Method::Sample)
    } else {
        None
    }
}

/// Reads a method selector, and rejects a text that names no method.
pub fn method_kind(method: &str) -> (r: Result<Method, StatsError>)
    ensures
        r == match method_of(method@) {
            Some(m) => Ok::<Method, StatsError>(m),
            None => Err::<Method, StatsError>(StatsError::InvalidMethod),
        },
{
    match as_method(method) {
        Some(m) => Ok(m),
        None => Err(StatsError::InvalidMethod),
    }
}

} // verus!
