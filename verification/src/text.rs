//! Characters and decimal numbers: what the lexers and the printer share.

use vstd::prelude::*;
use vstd::string::StrSliceExecFns;

verus! {

/// Whether `c` has the Unicode property `Alphabetic`.
pub uninterp spec fn unicode_alphabetic(c: char) -> bool;

/// Whether `c` has the Unicode property `White_Space`.
pub uninterp spec fn unicode_whitespace(c: char) -> bool;

/// `char::is_alphabetic` of the standard library: it tells whether the
/// character has the Unicode property `Alphabetic`. The property is a table
/// of the Unicode standard, so the contract only names the answer.
pub assume_specification[ char::is_alphabetic ](c: char) -> (r: bool)
    ensures
        r == unicode_alphabetic(c),
;

/// `char::is_whitespace` of the standard library: it tells whether the
/// character has the Unicode property `White_Space`. The property is a
/// table of the Unicode standard, so the contract only names the answer.
pub assume_specification[ char::is_whitespace ](c: char) -> (r: bool)
    ensures
        r == unicode_whitespace(c),
;

/// `String::push` of the standard library: it appends one character to the
/// end of the string.
pub assume_specification[ String::push ](s: &mut String, c: char)
    ensures
        final(s)@ == old(s)@.push(c),
;

/// Whether `c` is one of the ten decimal digits.
pub open spec fn is_digit(c: char) -> bool {
    '0' <= c <= '9'
}

/// Whether `c` is one of the ten decimal digits.
pub fn digit(c: char) -> (r: bool)
    ensures
        r == is_digit(c),
{
    c >= '0' && c <= '9'
}

/// The value of the decimal digit `c`.
pub open spec fn digit_value(c: char) -> nat {
    (c as int - '0' as int) as nat
}

/// The number that a string of decimal digits writes.
pub open spec fn decimal_value(digits: Seq<char>) -> nat
    decreases digits.len(),
{
    if digits.len() == 0 {
        0
    } else {
        decimal_value(digits.drop_last()) * 10 + digit_value(digits.last())
    }
}

/// Whether every character of `text` is a decimal digit.
pub open spec fn all_digits(text: Seq<char>) -> bool {
    forall|k: int| 0 <= k < text.len() ==> is_digit(#[trigger] text[k])
}

/// The characters of `code`, one by one.
pub fn characters(code: &str) -> (chars: Vec<char>)
    ensures
        chars@ == code@,
{
    broadcast use vstd::string::axiom_spec_iter;

    let mut chars: Vec<char> = Vec::new();
    for c in it: code.chars()
        invariant
            it.seq() == code@,
            chars@ == it.history(),
    {
        chars.push(c);
    }
    assert(chars@ =~= code@);
    chars
}

/// The characters of `chars` from `start` up to `end`, as a string.
pub fn text_between(chars: &Vec<char>, start: usize, end: usize) -> (text: String)
    requires
        start <= end <= chars.len(),
    ensures
        text@ == chars@.subrange(start as int, end as int),
{
    let mut text = String::new();
    let mut k = start;
    while k < end
        invariant
            start <= k <= end <= chars.len(),
            text@ == chars@.subrange(start as int, k as int),
        decreases end - k,
    {
        text.push(chars[k]);
        k += 1;
        assert(text@ =~= chars@.subrange(start as int, k as int));
    }
    text
}

/// Whether two texts hold the same characters.
pub fn same_text(a: &str, b: &str) -> (r: bool)
    ensures
        r == (a@ == b@),
{
    let n = a.unicode_len();
    if n != b.unicode_len() {
        return false;
    }
    let mut k: usize = 0;
    while k < n
        invariant
            n == a@.len(),
            n == b@.len(),
            k <= n,
            forall|j: int| 0 <= j < k ==> a@[j] == b@[j],
        decreases n - k,
    {
        if a.get_char(k) != b.get_char(k) {
            return false;
        }
        k += 1;
    }
    assert(a@ =~= b@);
    true
}

/// The number that the decimal digits of `chars` from `start` up to `end`
/// write, if it is no more than the largest `i32`.
pub fn create_number(chars: &Vec<char>, start: usize, end: usize) -> (r: Option<i32>)
    requires
        start <= end <= chars.len(),
        all_digits(chars@.subrange(start as int, end as int)),
    ensures
        r == if decimal_value(chars@.subrange(start as int, end as int)) <= i32::MAX {
            Some(decimal_value(chars@.subrange(start as int, end as int)) as i32)
        } else {
            None
        },
{
    let mut value: i32 = 0;
    let mut k = start;
    assert(chars@.subrange(start as int, start as int) =~= Seq::empty());
    while k < end
        invariant
            start <= k <= end <= chars.len(),
            all_digits(chars@.subrange(start as int, end as int)),
            value == decimal_value(chars@.subrange(start as int, k as int)),
        decreases end - k,
    {
        let c = chars[k];
        assert(c == chars@.subrange(start as int, end as int)[k - start]);
        let d: i32 = (c as u32 - '0' as u32) as i32;
        proof {
            let upto = chars@.subrange(start as int, k + 1);
            assert(upto.drop_last() =~= chars@.subrange(start as int, k as int));
            assert(upto.last() == c);
            lemma_decimal_grows(chars@.subrange(start as int, end as int), k + 1 - start);
            assert(chars@.subrange(start as int, end as int).take(k + 1 - start) =~= upto);
        }
        if value > (i32::MAX - d) / 10 {
            return None;
        }
        value = value * 10 + d;
        k += 1;
    }
    assert(chars@.subrange(start as int, k as int) =~= chars@.subrange(start as int, end as int));
    Some(value)
}

/// A prefix of a number writes no more than the number.
pub proof fn lemma_decimal_grows(digits: Seq<char>, n: int)
    requires
        0 <= n <= digits.len(),
    ensures
        decimal_value(digits.take(n)) <= decimal_value(digits),
    decreases digits.len() - n,
{
    if n < digits.len() {
        lemma_decimal_grows(digits, n + 1);
        assert(digits.take(n + 1).drop_last() =~= digits.take(n));
    } else {
        assert(digits.take(n) =~= digits);
    }
}

} // verus!
