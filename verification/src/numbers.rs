//! Verified decimal rendering and parsing for the numeric fields the engine
//! reads and writes: event kinds inside coordinate strings and numeric
//! command flags.

use vstd::prelude::*;
use vstd::string::StrSliceExecFns;
use vstd::string::StringExecFns;

verus! {

/// The decimal digit character for a value below ten.
pub open spec fn spec_digit_char(d: int) -> char {
    if d == 0 {
        '0'
    } else if d == 1 {
        '1'
    } else if d == 2 {
        '2'
    } else if d == 3 {
        '3'
    } else if d == 4 {
        '4'
    } else if d == 5 {
        '5'
    } else if d == 6 {
        '6'
    } else if d == 7 {
        '7'
    } else if d == 8 {
        '8'
    } else {
        '9'
    }
}

/// The numeric value of a decimal digit character, or -1 for any other
/// character.
pub open spec fn spec_char_digit(c: char) -> int {
    if c == '0' {
        0
    } else if c == '1' {
        1
    } else if c == '2' {
        2
    } else if c == '3' {
        3
    } else if c == '4' {
        4
    } else if c == '5' {
        5
    } else if c == '6' {
        6
    } else if c == '7' {
        7
    } else if c == '8' {
        8
    } else if c == '9' {
        9
    } else {
        -1
    }
}

/// Whether the character is a decimal digit.
pub open spec fn spec_is_digit(c: char) -> bool {
    spec_char_digit(c) >= 0
}

/// The canonical decimal rendering of a non-negative integer: no sign, no
/// leading zero except for zero itself.
pub open spec fn spec_decimal(n: int) -> Seq<char>
    recommends
        n >= 0,
    decreases n,
{
    if n < 10 {
        seq![spec_digit_char(n)]
    } else {
        spec_decimal(n / 10).push(spec_digit_char(n % 10))
    }
}

/// The single-character string for a decimal digit.
fn digit_str(d: u64) -> (r: &'static str)
    requires
        d < 10,
    ensures
        r@ == seq![spec_digit_char(d as int)],
        r@.len() == 1,
{
    proof {
        reveal_strlit("0");
        reveal_strlit("1");
        reveal_strlit("2");
        reveal_strlit("3");
        reveal_strlit("4");
        reveal_strlit("5");
        reveal_strlit("6");
        reveal_strlit("7");
        reveal_strlit("8");
        reveal_strlit("9");
    }
    if d == 0 {
        "0"
    } else if d == 1 {
        "1"
    } else if d == 2 {
        "2"
    } else if d == 3 {
        "3"
    } else if d == 4 {
        "4"
    } else if d == 5 {
        "5"
    } else if d == 6 {
        "6"
    } else if d == 7 {
        "7"
    } else if d == 8 {
        "8"
    } else {
        "9"
    }
}

/// Renders a number in canonical decimal form.
pub fn u64_to_string(n: u64) -> (r: String)
    ensures
        r@ == spec_decimal(n as int),
    decreases n,
{
    if n < 10 {
        String::from_str(digit_str(n))
    } else {
        let prefix = u64_to_string(n / 10);
        let r = prefix.concat(digit_str(n % 10));
        proof {
            assert(r@ =~= spec_decimal(n as int / 10).push(spec_digit_char(n as int % 10)));
        }
        r
    }
}

/// Renders an event kind in canonical decimal form.
pub fn kind_to_string(kind: u16) -> (r: String)
    ensures
        r@ == spec_decimal(kind as int),
{
    u64_to_string(kind as u64)
}

/// The value of a sequence of decimal digit characters.
pub open spec fn spec_digits_value(s: Seq<char>) -> int
    decreases s.len(),
{
    if s.len() == 0 {
        0
    } else {
        spec_digits_value(s.drop_last()) * 10 + spec_char_digit(s.last())
    }
}

/// Whether every character of the sequence is a decimal digit.
pub open spec fn spec_all_digits(s: Seq<char>) -> bool {
    forall|i: int| 0 <= i < s.len() ==> spec_is_digit(#[trigger] s[i])
}

/// The digit body of a decimal literal: the whole string, or the part after
/// one leading plus sign.
pub open spec fn spec_decimal_body(s: Seq<char>) -> Seq<char> {
    if s.len() > 0 && s[0] == '+' {
        s.drop_first()
    } else {
        s
    }
}

/// The value denoted by a decimal literal: at least one digit after an
/// optional leading plus sign, with no other characters admitted.
pub open spec fn spec_decimal_value(s: Seq<char>) -> Option<int> {
    let body = spec_decimal_body(s);
    if body.len() > 0 && spec_all_digits(body) {
        Some(spec_digits_value(body))
    } else {
        None
    }
}

/// Appending one digit can only grow the value of a digit string.
proof fn lemma_digits_value_grows(s: Seq<char>, i: int)
    requires
        0 <= i <= s.len(),
        spec_all_digits(s),
    ensures
        spec_digits_value(s.take(i)) <= spec_digits_value(s),
        spec_digits_value(s) >= 0,
    decreases s.len(),
{
    if s.len() == 0 {
        assert(s.take(i) =~= s);
    } else {
        assert(spec_all_digits(s.drop_last()));
        lemma_digits_value_grows(s.drop_last(), if i <= s.len() - 1 { i } else { s.len() - 1 });
        assert(spec_char_digit(s.last()) >= 0);
        if i < s.len() {
            assert(s.take(i) =~= s.drop_last().take(i));
            assert(spec_digits_value(s.drop_last()) * 10 >= spec_digits_value(s.drop_last()))
                by (nonlinear_arith)
                requires
                    spec_digits_value(s.drop_last()) >= 0,
            ;
        } else {
            assert(s.take(i) =~= s);
        }
    }
}

/// The digit character of a value below ten evaluates back to that value.
pub proof fn lemma_digit_char_value(d: int)
    requires
        0 <= d < 10,
    ensures
        spec_char_digit(spec_digit_char(d)) == d,
{
}

/// Parses the digit body of a decimal literal, bounding the result by
/// `bound`. Returns the value when the body is non-empty, all digits, and
/// its value does not exceed the bound.
fn parse_digits(s: &str, start: usize, bound: u64) -> (r: Option<u64>)
    requires
        start as int <= s@.len(),
    ensures
        ({
            let body = s@.subrange(start as int, s@.len() as int);
            match r {
                Some(v) => body.len() > 0 && spec_all_digits(body) && spec_digits_value(body)
                    == v as int && v <= bound,
                None => !(body.len() > 0 && spec_all_digits(body) && spec_digits_value(body)
                    <= bound as int),
            }
        }),
{
    let ghost body = s@.subrange(start as int, s@.len() as int);
    let len = s.unicode_len();
    if start >= len {
        proof {
            assert(body.len() == 0);
        }
        return None;
    }
    let mut acc: u64 = 0;
    let mut i: usize = start;
    while i < len
        invariant
            start as int <= i as int <= s@.len(),
            len == s@.len(),
            body == s@.subrange(start as int, s@.len() as int),
            spec_all_digits(body.take(i - start)),
            acc as int == spec_digits_value(body.take(i - start)),
            acc <= bound,
        decreases len - i,
    {
        let c = s.get_char(i);
        let d: u64 = if c == '0' {
            0
        } else if c == '1' {
            1
        } else if c == '2' {
            2
        } else if c == '3' {
            3
        } else if c == '4' {
            4
        } else if c == '5' {
            5
        } else if c == '6' {
            6
        } else if c == '7' {
            7
        } else if c == '8' {
            8
        } else if c == '9' {
            9
        } else {
            proof {
                assert(body[i - start] == s@[i as int]);
                assert(!spec_is_digit(body[i - start]));
            }
            return None;
        };
        proof {
            assert(body[i - start] == s@[i as int]);
            assert(spec_char_digit(body[i - start]) == d as int);
            assert(body.take(i - start + 1) =~= body.take(i - start).push(body[i - start]));
            assert(body.take(i - start + 1).drop_last() =~= body.take(i - start));
        }
        if acc > bound / 10 || (acc == bound / 10 && d > bound % 10) {
            proof {
                let prefix = body.take(i - start + 1);
                assert(spec_digits_value(prefix) == acc as int * 10 + d as int);
                assert(acc as int * 10 + d as int > bound as int) by (nonlinear_arith)
                    requires
                        acc as int > bound as int / 10 || (acc as int == bound as int / 10
                            && d as int > bound as int % 10),
                        0 <= d as int <= 9,
                        acc as int >= 0,
                        bound as int >= 0,
                ;
                if spec_all_digits(body) {
                    lemma_digits_value_grows(body, i - start + 1);
                    assert(spec_digits_value(body) >= spec_digits_value(prefix));
                }
            }
            return None;
        }
        proof {
            assert(acc as int * 10 + d as int <= bound as int) by (nonlinear_arith)
                requires
                    (acc as int) < bound as int / 10 || (acc as int == bound as int / 10
                        && d as int <= bound as int % 10),
                    0 <= d as int <= 9,
                    acc as int >= 0,
                    bound as int >= 0,
            ;
        }
        acc = acc * 10 + d;
        i = i + 1;
    }
    proof {
        assert(body.take(i - start) =~= body);
    }
    Some(acc)
}

/// Parses a decimal literal bounded by `bound`: an optional leading plus
/// sign, then at least one digit, with the value at most the bound.
fn parse_decimal_bounded(s: &str, bound: u64) -> (r: Option<u64>)
    ensures
        match r {
            Some(v) => spec_decimal_value(s@) == Some(v as int) && v <= bound,
            None => match spec_decimal_value(s@) {
                Some(v) => v > bound as int,
                None => true,
            },
        },
{
    let len = s.unicode_len();
    let start: usize = if len > 0 && s.get_char(0) == '+' {
        1
    } else {
        0
    };
    proof {
        assert(spec_decimal_body(s@) =~= s@.subrange(start as int, s@.len() as int));
    }
    parse_digits(s, start, bound)
}

/// Parses a `u16` decimal literal, as a kind discriminator is written inside
/// a coordinate: optional plus sign, then digits, value at most `u16::MAX`.
pub fn parse_u16(s: &str) -> (r: Option<u16>)
    ensures
        match r {
            Some(v) => spec_decimal_value(s@) == Some(v as int),
            None => match spec_decimal_value(s@) {
                Some(v) => v > u16::MAX as int,
                None => true,
            },
        },
{
    match parse_decimal_bounded(s, 65535) {
        Some(v) => Some(v as u16),
        None => None,
    }
}

/// Parses a `usize` decimal literal, as numeric command flags are written.
pub fn parse_usize(s: &str) -> (r: Option<usize>)
    ensures
        match r {
            Some(v) => spec_decimal_value(s@) == Some(v as int),
            None => match spec_decimal_value(s@) {
                Some(v) => v > usize::MAX as int,
                None => true,
            },
        },
{
    match parse_decimal_bounded(s, usize::MAX as u64) {
        Some(v) => Some(v as usize),
        None => None,
    }
}

} // verus!
