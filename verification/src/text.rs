//! Small verified helpers on text: the views are sequences of characters.

use vstd::prelude::*;
use vstd::std_specs::iter::IteratorSpec;

verus! {

/// The characters of `s`, in order.
pub fn chars_of(s: &str) -> (out: Vec<char>)
    ensures
        out@ == s@,
{
    let mut out: Vec<char> = Vec::new();
    let chars = s.chars();
    for c in it: chars
        invariant
            out@ == it.seq().take(it.index() as int),
            it.seq() == s@,
    {
        out.push(c);
    }
    out
}

/// Whether two texts hold the same characters.
pub fn same_text(a: &str, b: &str) -> (same: bool)
    ensures
        same == (a@ == b@),
{
    String::from_str(a) == String::from_str(b)
}

/// Whether `needle` stands in `hay` at position `at`.
pub open spec fn occurs_at(hay: Seq<char>, needle: Seq<char>, at: int) -> bool {
    0 <= at && at + needle.len() <= hay.len() && hay.subrange(at, at + needle.len()) == needle
}

/// Whether `needle` stands somewhere in `hay`.
pub open spec fn contains_text(hay: Seq<char>, needle: Seq<char>) -> bool {
    exists|at: int| occurs_at(hay, needle, at)
}

/// Where `needle` stands first in `hay`, if anywhere.
pub open spec fn first_occurrence(hay: Seq<char>, needle: Seq<char>, found: Option<usize>) -> bool {
    match found {
        Some(at) => occurs_at(hay, needle, at as int) && forall|before: int|
            0 <= before < at ==> !occurs_at(hay, needle, before),
        None => !contains_text(hay, needle),
    }
}

/// The first position of `needle` in `hay`, if it stands there at all.
pub open spec fn first_index(hay: Seq<char>, needle: Seq<char>) -> Option<usize> {
    if contains_text(hay, needle) {
        Some(choose|at: usize| first_occurrence(hay, needle, Some(at)))
    } else {
        None
    }
}

/// There is one first position at most.
pub proof fn first_index_is(hay: Seq<char>, needle: Seq<char>, found: Option<usize>)
    requires
        first_occurrence(hay, needle, found),
    ensures
        first_index(hay, needle) == found,
{
    match found {
        Some(at) => {
            assert(occurs_at(hay, needle, at as int));
            let other = choose|other: usize| first_occurrence(hay, needle, Some(other));
            assert(first_occurrence(hay, needle, Some(other)));
            if other < at {
                assert(!occurs_at(hay, needle, other as int));
            }
            if at < other {
                assert(!occurs_at(hay, needle, at as int));
            }
        },
        None => {},
    }
}

fn stands_at(hay: &Vec<char>, needle: &Vec<char>, at: usize) -> (found: bool)
    requires
        at + needle.len() <= hay.len(),
    ensures
        found == occurs_at(hay@, needle@, at as int),
{
    let mut i: usize = 0;
    while i < needle.len()
        invariant
            i <= needle.len(),
            at + needle.len() <= hay.len(),
            forall|j: int| 0 <= j < i ==> hay@[at + j] == needle@[j],
        decreases needle.len() - i,
    {
        if hay[at + i] != needle[i] {
            assert(hay@.subrange(at as int, at + needle.len())[i as int] != needle@[i as int]);
            return false;
        }
        i = i + 1;
    }
    assert(hay@.subrange(at as int, at + needle.len()) =~= needle@);
    true
}

/// The first position of `needle` in `hay`, counted in characters.
pub fn find_text(hay: &str, needle: &str) -> (found: Option<usize>)
    ensures
        first_occurrence(hay@, needle@, found),
        found == first_index(hay@, needle@),
        found matches Some(at) ==> at + needle@.len() <= hay@.len(),
{
    let hay_chars = chars_of(hay);
    let needle_chars = chars_of(needle);
    if needle_chars.len() > hay_chars.len() {
        proof {
            first_index_is(hay@, needle@, None);
        }
        return None;
    }
    let last: usize = hay_chars.len() - needle_chars.len();
    let mut at: usize = 0;
    loop
        invariant
            at <= last,
            last == hay_chars.len() - needle_chars.len(),
            needle_chars.len() <= hay_chars.len(),
            hay_chars@ == hay@,
            needle_chars@ == needle@,
            forall|before: int| 0 <= before < at ==> !occurs_at(hay@, needle@, before),
        decreases last - at,
    {
        if stands_at(&hay_chars, &needle_chars, at) {
            proof {
                first_index_is(hay@, needle@, Some(at));
            }
            return Some(at);
        }
        if at == last {
            proof {
                first_index_is(hay@, needle@, None);
            }
            return None;
        }
        at = at + 1;
    }
}

/// Whether `needle` stands somewhere in `hay`.
pub fn has_text(hay: &str, needle: &str) -> (found: bool)
    ensures
        found == contains_text(hay@, needle@),
{
    find_text(hay, needle).is_some()
}

/// The character of a decimal digit.
pub open spec fn digit_char(digit: nat) -> char {
    if digit == 0 {
        '0'
    } else if digit == 1 {
        '1'
    } else if digit == 2 {
        '2'
    } else if digit == 3 {
        '3'
    } else if digit == 4 {
        '4'
    } else if digit == 5 {
        '5'
    } else if digit == 6 {
        '6'
    } else if digit == 7 {
        '7'
    } else if digit == 8 {
        '8'
    } else {
        '9'
    }
}

/// A number in decimal digits, without leading zeros.
pub open spec fn decimal(n: nat) -> Seq<char>
    decreases n,
{
    if n < 10 {
        seq![digit_char(n)]
    } else {
        decimal(n / 10).push(digit_char(n % 10))
    }
}

fn digit_text(digit: u64) -> (text: &'static str)
    requires
        digit < 10,
    ensures
        text@ == seq![digit_char(digit as nat)],
{
    proof {
        reveal_strlit("0");
        reveal_strlit("1");
        reveal_strlit("2");
        reveal_strlit("3");
        reveal_strlit("4");
        reveal_strlit("5");
        reveal_strlit("6");
        reveal_strlit("7");
        reveal_strlit("8");
        reveal_strlit("9");
    }
    let text = if digit == 0 {
        "0"
    } else if digit == 1 {
        "1"
    } else if digit == 2 {
        "2"
    } else if digit == 3 {
        "3"
    } else if digit == 4 {
        "4"
    } else if digit == 5 {
        "5"
    } else if digit == 6 {
        "6"
    } else if digit == 7 {
        "7"
    } else if digit == 8 {
        "8"
    } else {
        "9"
    };
    assert(text@ =~= seq![digit_char(digit as nat)]);
    text
}

/// Writes a number in decimal digits.
pub fn decimal_text(n: u64) -> (text: String)
    ensures
        text@ == decimal(n as nat),
    decreases n,
{
    if n < 10 {
        String::from_str(digit_text(n))
    } else {
        let mut text = decimal_text(n / 10);
        text.append(digit_text(n % 10));
        assert(text@ =~= decimal((n / 10) as nat).push(digit_char((n % 10) as nat)));
        text
    }
}

/// The value of a decimal digit, if the character is one.
pub open spec fn digit_value(c: char) -> Option<int> {
    if c == '0' {
        Some(0)
    } else if c == '1' {
        Some(1)
    } else if c == '2' {
        Some(2)
    } else if c == '3' {
        Some(3)
    } else if c == '4' {
        Some(4)
    } else if c == '5' {
        Some(5)
    } else if c == '6' {
        Some(6)
    } else if c == '7' {
        Some(7)
    } else if c == '8' {
        Some(8)
    } else if c == '9' {
        Some(9)
    } else {
        None
    }
}

/// Whether every character is a decimal digit.
pub open spec fn all_digits(digits: Seq<char>) -> bool {
    forall|i: int| 0 <= i < digits.len() ==> digit_value(#[trigger] digits[i]) is Some
}

/// The number that decimal digits stand for; characters that are no digits
/// count as zero.
pub open spec fn digits_value(digits: Seq<char>) -> int
    decreases digits.len(),
{
    if digits.len() == 0 {
        0
    } else {
        10 * digits_value(digits.drop_last()) + match digit_value(digits.last()) {
            Some(d) => d,
            None => 0,
        }
    }
}

/// The count that a text stands for: an optional sign and at least one
/// decimal digit, nothing else, with a value that a 64-bit counter can hold.
pub open spec fn count_value(text: Seq<char>) -> Option<i64> {
    let signed = text.len() > 0 && (text[0] == '-' || text[0] == '+');
    let digits = if signed {
        text.subrange(1, text.len() as int)
    } else {
        text
    };
    let value = if text.len() > 0 && text[0] == '-' {
        -digits_value(digits)
    } else {
        digits_value(digits)
    };
    if digits.len() > 0 && all_digits(digits) && i64::MIN <= value <= i64::MAX {
        Some(value as i64)
    } else {
        None
    }
}

proof fn lemma_digits_grow(digits: Seq<char>, upto: int)
    requires
        0 <= upto <= digits.len(),
    ensures
        0 <= digits_value(digits.take(upto)) <= digits_value(digits),
    decreases digits.len() - upto,
{
    if upto == 0 {
        lemma_digits_nonnegative(digits);
        assert(digits.take(0).len() == 0);
    } else if upto < digits.len() {
        lemma_digits_grow(digits, upto + 1);
        assert(digits.take(upto + 1).drop_last() == digits.take(upto));
        lemma_digits_nonnegative(digits.take(upto));
    } else {
        assert(digits.take(upto) == digits);
        lemma_digits_nonnegative(digits);
    }
}

proof fn lemma_digits_nonnegative(digits: Seq<char>)
    ensures
        digits_value(digits) >= 0,
    decreases digits.len(),
{
    if digits.len() > 0 {
        lemma_digits_nonnegative(digits.drop_last());
    }
}

fn digit_of(c: char) -> (digit: Option<u8>)
    ensures
        match digit {
            Some(d) => digit_value(c) == Some(d as int),
            None => digit_value(c) is None,
        },
{
    if c == '0' {
        Some(0)
    } else if c == '1' {
        Some(1)
    } else if c == '2' {
        Some(2)
    } else if c == '3' {
        Some(3)
    } else if c == '4' {
        Some(4)
    } else if c == '5' {
        Some(5)
    } else if c == '6' {
        Some(6)
    } else if c == '7' {
        Some(7)
    } else if c == '8' {
        Some(8)
    } else if c == '9' {
        Some(9)
    } else {
        None
    }
}

/// Reads a count as the shared store writes it.
pub fn parse_count(text: &str) -> (count: Option<i64>)
    ensures
        count == count_value(text@),
{
    let chars = chars_of(text);
    if chars.len() == 0 {
        return None;
    }
    let negative = chars[0] == '-';
    let start: usize = if chars[0] == '-' || chars[0] == '+' {
        1
    } else {
        0
    };
    if start == chars.len() {
        return None;
    }
    let ghost digits = if start == 1 {
        text@.subrange(1, text@.len() as int)
    } else {
        text@
    };
    assert(text@.subrange(0, text@.len() as int) == text@);
    let limit: i128 = 0x8000_0000_0000_0000;
    let mut value: i128 = 0;
    let mut i: usize = start;
    assert(digits.take(0).len() == 0);
    while i < chars.len()
        invariant
            start <= i <= chars.len(),
            start <= 1,
            chars@ == text@,
            text@.len() > 0,
            start == 1 <==> text@[0] == '-' || text@[0] == '+',
            text@.subrange(0, text@.len() as int) == text@,
            digits == text@.subrange(start as int, text@.len() as int),
            limit == 0x8000_0000_0000_0000,
            0 <= value <= limit,
            value == digits_value(digits.take(i - start)),
            all_digits(digits.take(i - start)),
        decreases chars.len() - i,
    {
        assert(digits[i - start] == chars@[i as int]);
        assert(digits.take(i - start + 1).drop_last() == digits.take(i - start));
        match digit_of(chars[i]) {
            Some(d) => {
                let next: i128 = value * 10 + d as i128;
                if next > limit {
                    proof {
                        lemma_digits_grow(digits, i - start + 1);
                        assert(digits.take(i - start + 1).last() == digits[i - start]);
                        assert(digits_value(digits.take(i - start + 1)) == next);
                    }
                    return None;
                }
                value = next;
                assert forall|j: int| 0 <= j < i - start + 1 implies digit_value(
                    #[trigger] digits.take(i - start + 1)[j],
                ) is Some by {
                    if j < i - start {
                        assert(digits.take(i - start)[j] == digits[j]);
                    }
                }
            },
            None => {
                assert(digit_value(digits[i - start]) is None);
                return None;
            },
        }
        i = i + 1;
    }
    assert(digits.take(i - start) == digits);
    if negative {
        Some((-value) as i64)
    } else if value < limit {
        Some(value as i64)
    } else {
        None
    }
}

} // verus!
