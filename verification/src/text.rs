//! Text: integers written in decimal and read from it, prefixes, and fields
//! between white space.

use vstd::prelude::*;
use vstd::std_specs::iter::IteratorSpec;
use vstd::string::*;

verus! {

/// One decimal digit as text.
pub open spec fn digit_text(d: nat) -> Seq<char> {
    if d == 0 {
        "0"@
    } else if d == 1 {
        "1"@
    } else if d == 2 {
        "2"@
    } else if d == 3 {
        "3"@
    } else if d == 4 {
        "4"@
    } else if d == 5 {
        "5"@
    } else if d == 6 {
        "6"@
    } else if d == 7 {
        "7"@
    } else if d == 8 {
        "8"@
    } else {
        "9"@
    }
}

/// A natural number in decimal, without leading zeros.
pub open spec fn decimal_text(n: nat) -> Seq<char>
    decreases n,
{
    if n < 10 {
        digit_text(n)
    } else {
        decimal_text(n / 10) + digit_text(n % 10)
    }
}

/// An integer in decimal, with a minus sign before a negative one.
pub open spec fn signed_decimal_text(n: int) -> Seq<char> {
    if n < 0 {
        "-"@ + decimal_text((-n) as nat)
    } else {
        decimal_text(n as nat)
    }
}

fn digit_str(d: u64) -> (text: &'static str)
    requires
        d < 10,
    ensures
        text@ == digit_text(d as nat),
{
    if d == 0 {
        "0"
    } else if d == 1 {
        "1"
    } else if d == 2 {
        "2"
    } else if d == 3 {
        "3"
    } else if d == 4 {
        "4"
    } else if d == 5 {
        "5"
    } else if d == 6 {
        "6"
    } else if d == 7 {
        "7"
    } else if d == 8 {
        "8"
    } else {
        "9"
    }
}

/// Writes a natural number in decimal at the end of `text`.
pub fn append_decimal(text: &mut String, n: u64)
    ensures
        final(text)@ == old(text)@ + decimal_text(n as nat),
    decreases n,
{
    if n >= 10 {
        append_decimal(text, n / 10);
    }
    text.append(digit_str(n % 10));
}

/// Writes an integer in decimal.
pub fn decimal_string(n: i32) -> (text: String)
    ensures
        text@ == signed_decimal_text(n as int),
{
    let mut text = String::new();
    if n < 0 {
        text.append("-");
        append_decimal(&mut text, (0 - n as i64) as u64);
    } else {
        append_decimal(&mut text, n as u64);
    }
    text
}

/// The characters of a text, one by one.
pub fn chars_of(text: &str) -> (chars: Vec<char>)
    ensures
        chars@ == text@,
{
    let mut rest = text.chars();
    let mut chars: Vec<char> = Vec::new();
    loop
        invariant
            rest.obeys_prophetic_iter_laws(),
            rest.decrease() is Some,
            chars@ + rest.remaining() == text@,
        ensures
            chars@ == text@,
        decreases rest.decrease()->0,
    {
        match rest.next() {
            Some(c) => {
                chars.push(c);
            },
            None => {
                break ;
            },
        }
    }
    chars
}

/// Whether `chars` begins with the characters of `prefix`.
pub fn starts_with(chars: &Vec<char>, prefix: &str) -> (yes: bool)
    ensures
        yes == prefix@.is_prefix_of(chars@),
{
    let wanted = chars_of(prefix);
    if wanted.len() > chars.len() {
        return false;
    }
    let mut i: usize = 0;
    while i < wanted.len()
        invariant
            i <= wanted.len() <= chars.len(),
            wanted@ == prefix@,
            forall|k: int| 0 <= k < i ==> wanted@[k] == chars@[k],
        decreases wanted.len() - i,
    {
        if wanted[i] != chars[i] {
            return false;
        }
        i += 1;
    }
    true
}

/// Whether a character is white space, as `char::is_whitespace` says.
pub uninterp spec fn is_white_space(c: char) -> bool;

/// `char::is_whitespace` looks at the character alone: its answer is
/// `is_white_space` of it. Which characters those are is left to it.
pub assume_specification[ char::is_whitespace ](c: char) -> (white: bool)
    ensures
        white == is_white_space(c),
;

/// For each character of a text, whether it is white space.
pub open spec fn white_flags(s: Seq<char>) -> Seq<bool> {
    Seq::new(s.len(), |i: int| is_white_space(s[i]))
}

/// The first position at or after `from` that holds `wanted`; the length of
/// `flags` if there is no such position.
pub open spec fn next_flag(flags: Seq<bool>, from: int, wanted: bool) -> int
    decreases flags.len() - from,
{
    if from < 0 || from >= flags.len() {
        flags.len() as int
    } else if flags[from] == wanted {
        from
    } else {
        next_flag(flags, from + 1, wanted)
    }
}

/// Where the second field lies in a text whose white space `flags` marks, a
/// field being a longest run of characters that are not white space: the
/// position of its first character and the position after its last. `None`
/// where there are fewer than two fields.
pub open spec fn second_field_in(flags: Seq<bool>) -> Option<(int, int)> {
    let first_start = next_flag(flags, 0, false);
    let first_end = next_flag(flags, first_start, true);
    let start = next_flag(flags, first_end, false);
    let end = next_flag(flags, start, true);
    if start < flags.len() {
        Some((start, end))
    } else {
        None
    }
}

/// Where the second field of a text lies.
pub open spec fn second_field_of(s: Seq<char>) -> Option<(int, int)> {
    second_field_in(white_flags(s))
}

/// The value of a decimal digit.
pub open spec fn digit_value(c: char) -> Option<nat> {
    if 48 <= c as u32 <= 57 {
        Some((c as u32 - 48) as nat)
    } else {
        None
    }
}

/// The number that a text of decimal digits stands for: `None` for the empty
/// text and for one that holds anything but digits.
pub open spec fn digits_value(s: Seq<char>) -> Option<nat>
    decreases s.len(),
{
    if s.len() == 0 {
        None
    } else {
        match digit_value(s.last()) {
            Some(d) => if s.len() == 1 {
                Some(d)
            } else {
                match digits_value(s.drop_last()) {
                    Some(v) => Some(v * 10 + d),
                    None => None,
                }
            },
            None => None,
        }
    }
}

/// The index that a text stands for: decimal digits, with or without a plus
/// sign before them, whose value fits the machine's word.
pub open spec fn index_value(s: Seq<char>) -> Option<usize> {
    let digits = if s.len() > 0 && s[0] == '+' {
        s.drop_first()
    } else {
        s
    };
    match digits_value(digits) {
        Some(v) => if v <= usize::MAX {
            Some(v as usize)
        } else {
            None
        },
        None => None,
    }
}

/// A text of digits has digits only, and each of its beginnings stands for a
/// number that is no larger than the whole.
pub proof fn lemma_digits_prefix(s: Seq<char>, k: int)
    requires
        digits_value(s) is Some,
        1 <= k <= s.len(),
    ensures
        digit_value(s[k - 1]) is Some,
        digits_value(s.take(k)) matches Some(v) && v <= digits_value(s)->0,
    decreases s.len(),
{
    if k == s.len() {
        assert(s.take(k) =~= s);
    } else {
        lemma_digits_prefix(s.drop_last(), k);
        assert(s.drop_last().take(k) =~= s.take(k));
    }
}

/// Marks the white space of a text.
pub fn flag_white_space(chars: &Vec<char>) -> (flags: Vec<bool>)
    ensures
        flags@ == white_flags(chars@),
{
    let mut flags: Vec<bool> = Vec::new();
    let mut i: usize = 0;
    while i < chars.len()
        invariant
            i <= chars.len(),
            flags@ == white_flags(chars@.take(i as int)),
        decreases chars.len() - i,
    {
        flags.push(chars[i].is_whitespace());
        i += 1;
    }
    flags
}

fn scan(flags: &Vec<bool>, from: usize, wanted: bool) -> (position: usize)
    requires
        from <= flags.len(),
    ensures
        from <= position <= flags.len(),
        position == next_flag(flags@, from as int, wanted),
        position < flags.len() ==> flags@[position as int] == wanted,
{
    let mut i: usize = from;
    while i < flags.len() && flags[i] != wanted
        invariant
            from <= i <= flags.len(),
            next_flag(flags@, from as int, wanted) == next_flag(flags@, i as int, wanted),
        decreases flags.len() - i,
    {
        i += 1;
    }
    i
}

/// Finds the second field of a text whose white space is marked.
pub fn second_field_by(flags: &Vec<bool>) -> (bounds: Option<(usize, usize)>)
    ensures
        match bounds {
            Some((start, end)) => start < end <= flags.len() && second_field_in(flags@) == Some(
                (start as int, end as int),
            ),
            None => second_field_in(flags@) is None,
        },
{
    let first_start: usize = scan(flags, 0, false);
    let first_end: usize = scan(flags, first_start, true);
    let start: usize = scan(flags, first_end, false);
    let end: usize = scan(flags, start, true);
    if start < flags.len() {
        Some((start, end))
    } else {
        None
    }
}

/// Finds the second field of a text.
pub fn second_field(chars: &Vec<char>) -> (bounds: Option<(usize, usize)>)
    ensures
        match bounds {
            Some((start, end)) => start < end <= chars.len() && second_field_of(chars@) == Some(
                (start as int, end as int),
            ),
            None => second_field_of(chars@) is None,
        },
{
    let flags = flag_white_space(chars);
    second_field_by(&flags)
}

/// Reads the index that a text stands for.
pub fn parse_index(field: &[char]) -> (index: Option<usize>)
    ensures
        index == index_value(field@),
{
    let end: usize = field.len();
    let begin: usize = if 0 < end && field[0] == '+' {
        1
    } else {
        0
    };
    let ghost digits = field@.subrange(begin as int, end as int);
    assert(digits =~= if field@.len() > 0 && field@[0] == '+' {
        field@.drop_first()
    } else {
        field@
    });
    if begin == end {
        return None;
    }
    let mut value: usize = 0;
    let mut i: usize = begin;
    while i < end
        invariant
            begin <= i <= end == field@.len(),
            begin < end,
            digits == field@.subrange(begin as int, end as int),
            index_value(field@) == match digits_value(digits) {
                Some(v) => if v <= usize::MAX {
                    Some(v as usize)
                } else {
                    None
                },
                None => None,
            },
            i == begin ==> value == 0,
            i > begin ==> digits_value(digits.take(i - begin)) == Some(value as nat),
        decreases end - i,
    {
        let c = field[i];
        let code: u32 = c as u32;
        if code < 48 || code > 57 {
            proof {
                if digits_value(digits) is Some {
                    lemma_digits_prefix(digits, i - begin + 1);
                }
            }
            return None;
        }
        let digit: usize = (code - 48) as usize;
        proof {
            let longer = digits.take(i - begin + 1);
            assert(longer.drop_last() =~= digits.take(i - begin));
            if digits_value(digits) is Some {
                lemma_digits_prefix(digits, i - begin + 1);
            }
        }
        let next = match value.checked_mul(10) {
            Some(tens) => tens.checked_add(digit),
            None => None,
        };
        match next {
            Some(v) => {
                value = v;
            },
            None => {
                return None;
            },
        }
        i += 1;
    }
    assert(digits.take(end - begin) =~= digits);
    Some(value)
}

} // verus!
