//! Literal text operations: comparison of string slices, decimal numerals
//! and the replacement of a pattern.

use vstd::prelude::*;
use vstd::std_specs::iter::IteratorSpec;

verus! {

/// Tells whether two string slices hold the same characters.
pub fn same_text(a: &str, b: &str) -> (same: bool)
    ensures
        same == (a@ == b@),
{
    let mut left = a.chars();
    let mut right = b.chars();
    let ghost mut done: int = 0;
    loop
        invariant
            left.obeys_prophetic_iter_laws(),
            right.obeys_prophetic_iter_laws(),
            0 <= done <= a@.len(),
            done <= b@.len(),
            left.remaining() == a@.skip(done),
            right.remaining() == b@.skip(done),
            a@.take(done) == b@.take(done),
        decreases a@.len() - done,
    {
        match (left.next(), right.next()) {
            (Some(x), Some(y)) => {
                if x != y {
                    assert(a@[done] != b@[done]);
                    return false;
                }
                proof {
                    assert(a@.take(done + 1) == a@.take(done).push(x));
                    assert(b@.take(done + 1) == b@.take(done).push(y));
                    done = done + 1;
                }
            },
            (None, None) => {
                assert(a@ == a@.take(done));
                assert(b@ == b@.take(done));
                return true;
            },
            _ => {
                assert(a@.len() != b@.len());
                return false;
            },
        }
    }
}

/// The characters of a string slice, in order.
pub fn chars_of(s: &str) -> (chars: Vec<char>)
    ensures
        chars@ == s@,
{
    let mut chars: Vec<char> = Vec::new();
    for c in it: s.chars()
        invariant
            it.seq() == s@,
            chars@ == s@.take(it.index()),
    {
        chars.push(c);
    }
    chars
}

/// The decimal digit for a value below ten.
pub open spec fn digit(d: nat) -> char
    recommends
        d < 10,
{
    (('0' as u8) + d) as char
}

/// The decimal numeral of a natural number, without leading zeros.
pub open spec fn decimal(n: nat) -> Seq<char>
    decreases n,
{
    if n < 10 {
        seq![digit(n)]
    } else {
        decimal(n / 10).push(digit(n % 10))
    }
}

fn digit_text(d: usize) -> (text: &'static str)
    requires
        d < 10,
    ensures
        text@ == seq![digit(d as nat)],
{
    proof {
        reveal_strlit("0");
        reveal_strlit("1");
        reveal_strlit("2");
        reveal_strlit("3");
        reveal_strlit("4");
        reveal_strlit("5");
        reveal_strlit("6");
        reveal_strlit("7");
        reveal_strlit("8");
        reveal_strlit("9");
    }
    match d {
        0 => "0",
        1 => "1",
        2 => "2",
        3 => "3",
        4 => "4",
        5 => "5",
        6 => "6",
        7 => "7",
        8 => "8",
        _ => "9",
    }
}

/// Writes a number as its decimal numeral.
pub fn decimal_text(n: usize) -> (text: String)
    ensures
        text@ == decimal(n as nat),
    decreases n,
{
    if n < 10 {
        String::from_str(digit_text(n))
    } else {
        let mut text = decimal_text(n / 10);
        text.append(digit_text(n % 10));
        text
    }
}

/// A numeral is not empty and holds digits only.
pub proof fn lemma_decimal_shape(n: nat)
    ensures
        decimal(n).len() >= 1,
        n >= 10 ==> decimal(n).len() >= 2,
        forall|k: int| 0 <= k < decimal(n).len() ==> '0' <= #[trigger] decimal(n)[k] <= '9',
    decreases n,
{
    if n >= 10 {
        lemma_decimal_shape(n / 10);
    }
}

/// Different numbers have different numerals.
pub proof fn lemma_decimal_injective(a: nat, b: nat)
    requires
        decimal(a) == decimal(b),
    ensures
        a == b,
    decreases a,
{
    lemma_decimal_shape(a);
    lemma_decimal_shape(b);
    if a >= 10 {
        assert(b >= 10);
        assert(decimal(a).drop_last() == decimal(a / 10));
        assert(decimal(b).drop_last() == decimal(b / 10));
        lemma_decimal_injective(a / 10, b / 10);
        assert(decimal(a).last() == digit(a % 10));
        assert(decimal(b).last() == digit(b % 10));
    } else {
        assert(b < 10);
        assert(decimal(a)[0] == digit(a));
        assert(decimal(b)[0] == digit(b));
    }
}

/// The text in which every occurrence of `pattern` has been replaced by
/// `with`. Occurrences are found from left to right and do not overlap; the
/// replacement text is not searched again. With an empty pattern the text
/// stays as it is.
pub open spec fn replace_all(text: Seq<char>, pattern: Seq<char>, with: Seq<char>) -> Seq<char>
    decreases text.len(),
{
    if text.len() == 0 || pattern.len() == 0 {
        text
    } else if pattern.is_prefix_of(text) {
        with + replace_all(text.skip(pattern.len() as int), pattern, with)
    } else {
        seq![text[0]] + replace_all(text.skip(1), pattern, with)
    }
}

/// Tells whether `pattern` occurs in `text` at position `at`.
fn occurs_at(text: &Vec<char>, at: usize, pattern: &Vec<char>) -> (found: bool)
    requires
        at <= text.len(),
    ensures
        found == pattern@.is_prefix_of(text@.skip(at as int)),
{
    let m = pattern.len();
    if m > text.len() - at {
        return false;
    }
    let mut j: usize = 0;
    while j < m
        invariant
            j <= m,
            m == pattern.len(),
            at + m <= text.len(),
            forall|k: int| 0 <= k < j ==> text@[at + k] == pattern@[k],
        decreases m - j,
    {
        if text[at + j] != pattern[j] {
            assert(text@.skip(at as int).take(m as int)[j as int] != pattern@[j as int]);
            return false;
        }
        j = j + 1;
    }
    assert(pattern@ =~= text@.skip(at as int).take(m as int));
    true
}

/// Replaces every occurrence of `pattern` in `text` by `with`.
pub fn replace(text: &str, pattern: &str, with: &str) -> (out: String)
    ensures
        out@ == replace_all(text@, pattern@, with@),
{
    let chars = chars_of(text);
    let pat = chars_of(pattern);
    let n = chars.len();
    let m = pat.len();
    if m == 0 || n == 0 {
        return String::from_str(text);
    }
    let mut out = String::new();
    // `copied` is where the stretch of plain text not yet written out begins.
    let mut copied: usize = 0;
    let mut at: usize = 0;
    assert(text@.skip(0) == text@);
    assert(out@ + text@.subrange(0, 0) == Seq::<char>::empty());
    while at < n
        invariant
            chars@ == text@,
            pat@ == pattern@,
            n == chars.len(),
            m == pat.len(),
            m > 0,
            copied <= at <= n,
            replace_all(text@, pattern@, with@) == out@ + text@.subrange(copied as int, at as int)
                + replace_all(text@.skip(at as int), pattern@, with@),
        decreases n - at,
    {
        let ghost rest = text@.skip(at as int);
        if occurs_at(&chars, at, &pat) {
            assert(rest.skip(m as int) == text@.skip(at + m));
            out.append(text.substring_char(copied, at));
            out.append(with);
            at = at + m;
            copied = at;
            assert(text@.subrange(copied as int, at as int) == Seq::<char>::empty());
        } else {
            assert(rest.skip(1) == text@.skip(at + 1));
            assert(text@.subrange(copied as int, at as int) + seq![rest[0]] == text@.subrange(
                copied as int,
                at + 1,
            ));
            at = at + 1;
        }
    }
    out.append(text.substring_char(copied, n));
    out
}

/// Tells whether `pattern` occurs somewhere in `text`.
pub open spec fn occurs_in(pattern: Seq<char>, text: Seq<char>) -> bool {
    exists|at: int| 0 <= at <= text.len() && #[trigger] pattern.is_prefix_of(text.skip(at))
}

/// Replacing a pattern that does not occur changes nothing.
pub proof fn lemma_replace_without_occurrence(
    text: Seq<char>,
    pattern: Seq<char>,
    with: Seq<char>,
)
    requires
        !occurs_in(pattern, text),
    ensures
        replace_all(text, pattern, with) == text,
    decreases text.len(),
{
    if text.len() > 0 && pattern.len() > 0 {
        assert(text.skip(0) == text);
        assert(!pattern.is_prefix_of(text.skip(0)));
        let rest = text.skip(1);
        assert forall|at: int| 0 <= at <= rest.len() implies !#[trigger] pattern.is_prefix_of(
            rest.skip(at),
        ) by {
            assert(rest.skip(at) == text.skip(at + 1));
            assert(!pattern.is_prefix_of(text.skip(at + 1)));
        }
        lemma_replace_without_occurrence(rest, pattern, with);
        assert(seq![text[0]] + rest == text);
    }
}

/// Text before the first character with which the pattern begins is copied
/// as it is.
pub proof fn lemma_replace_keeps_start(text: Seq<char>, pattern: Seq<char>, with: Seq<char>, n: int)
    requires
        pattern.len() > 0,
        0 <= n <= text.len(),
        forall|k: int| 0 <= k < n ==> text[k] != pattern[0],
    ensures
        replace_all(text, pattern, with).len() >= n,
        replace_all(text, pattern, with).take(n) == text.take(n),
    decreases n,
{
    if n > 0 {
        assert(!pattern.is_prefix_of(text)) by {
            if pattern.is_prefix_of(text) {
                assert(text.subrange(0, pattern.len() as int)[0] == pattern[0]);
            }
        }
        let rest = text.skip(1);
        assert forall|k: int| 0 <= k < n - 1 implies rest[k] != pattern[0] by {
            assert(rest[k] == text[k + 1]);
        }
        lemma_replace_keeps_start(rest, pattern, with, n - 1);
        let replaced = replace_all(rest, pattern, with);
        assert((seq![text[0]] + replaced).take(n) == seq![text[0]] + replaced.take(n - 1));
        assert(seq![text[0]] + rest.take(n - 1) == text.take(n));
    } else {
        assert(replace_all(text, pattern, with).take(0) == text.take(0));
    }
}

} // verus!
