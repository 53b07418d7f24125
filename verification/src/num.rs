//! Decimal number parsing for user input and decimal formatting for the
//! task listing.
//!
//! Parsing mirrors how the standard library reads integers from text: the
//! input is trimmed, an optional single sign may lead, and the digits are
//! consumed left to right, reporting the first failing position (a non-digit
//! character, or the accumulator growing past the limit).

use vstd::prelude::*;
use crate::text::trim_spec;

verus! {

/// Why a piece of input could not be read as a number.
#[derive(Clone, Copy, Debug, PartialEq, Eq, Structural)]
pub enum NumParseError {
    /// The trimmed input had no characters at all.
    Empty,
    /// A character that is not a decimal digit stood where a digit belongs.
    InvalidDigit,
    /// The value is larger than the target type can hold.
    TooLarge,
    /// The value is smaller than the target type can hold.
    TooSmall,
}

/// Whether `c` is a decimal digit.
pub open spec fn is_digit(c: char) -> bool {
    c == '0' || c == '1' || c == '2' || c == '3' || c == '4' || c == '5' || c == '6' || c == '7'
        || c == '8' || c == '9'
}

/// The value of the digit `c` (zero for a non-digit).
pub open spec fn digit_val(c: char) -> nat {
    if c == '1' {
        1
    } else if c == '2' {
        2
    } else if c == '3' {
        3
    } else if c == '4' {
        4
    } else if c == '5' {
        5
    } else if c == '6' {
        6
    } else if c == '7' {
        7
    } else if c == '8' {
        8
    } else if c == '9' {
        9
    } else {
        0
    }
}

/// The digit character for a value below ten.
pub open spec fn digit_char(d: nat) -> char {
    if d == 1 {
        '1'
    } else if d == 2 {
        '2'
    } else if d == 3 {
        '3'
    } else if d == 4 {
        '4'
    } else if d == 5 {
        '5'
    } else if d == 6 {
        '6'
    } else if d == 7 {
        '7'
    } else if d == 8 {
        '8'
    } else if d == 9 {
        '9'
    } else {
        '0'
    }
}

/// Reads the digits of `s` left to right into an accumulator that starts at
/// `acc`, never letting it grow past `limit`.  The first failing position
/// decides the error, as it does for the standard integer parser.
pub open spec fn parse_digits(s: Seq<char>, acc: nat, limit: nat) -> Result<nat, NumParseError>
    decreases s.len(),
{
    if s.len() == 0 {
        Ok(acc)
    } else if !is_digit(s[0]) {
        Err(NumParseError::InvalidDigit)
    } else if acc * 10 + digit_val(s[0]) > limit {
        Err(NumParseError::TooLarge)
    } else {
        parse_digits(s.skip(1), acc * 10 + digit_val(s[0]), limit)
    }
}

/// Reading `input` as an unsigned number no greater than `limit`: the input
/// is trimmed, one leading `+` is allowed, and the digits follow.
pub open spec fn parse_unsigned_spec(input: Seq<char>, limit: nat) -> Result<
    nat,
    NumParseError,
> {
    let t = trim_spec(input);
    if t.len() == 0 {
        Err(NumParseError::Empty)
    } else if t[0] == '+' {
        if t.len() == 1 {
            Err(NumParseError::InvalidDigit)
        } else {
            parse_digits(t.skip(1), 0, limit)
        }
    } else {
        parse_digits(t, 0, limit)
    }
}

/// Reading `input` as a signed number in the range of a 32-bit integer: the
/// input is trimmed, one leading `+` or `-` is allowed, and the digits
/// follow.
pub open spec fn parse_signed_spec(input: Seq<char>) -> Result<int, NumParseError> {
    let t = trim_spec(input);
    if t.len() == 0 {
        Err(NumParseError::Empty)
    } else if t[0] == '+' || t[0] == '-' {
        if t.len() == 1 {
            Err(NumParseError::InvalidDigit)
        } else if t[0] == '+' {
            match parse_digits(t.skip(1), 0, 2147483647) {
                Ok(n) => Ok(n as int),
                Err(e) => Err(e),
            }
        } else {
            match parse_digits(t.skip(1), 0, 2147483648) {
                Ok(n) => Ok(-(n as int)),
                Err(NumParseError::TooLarge) => Err(NumParseError::TooSmall),
                Err(e) => Err(e),
            }
        }
    } else {
        match parse_digits(t, 0, 2147483647) {
            Ok(n) => Ok(n as int),
            Err(e) => Err(e),
        }
    }
}

/// The decimal rendering of `n`, most significant digit first, no sign and
/// no padding.
pub open spec fn dec_str_of(n: nat) -> Seq<char>
    decreases n,
{
    if n < 10 {
        seq![digit_char(n)]
    } else {
        dec_str_of(n / 10).push(digit_char(n % 10))
    }
}

/// Whether `c` is a decimal digit.
pub fn is_digit_char(c: char) -> (r: bool)
    ensures
        r == is_digit(c),
{
    c == '0' || c == '1' || c == '2' || c == '3' || c == '4' || c == '5' || c == '6' || c == '7'
        || c == '8' || c == '9'
}

/// The value of the digit `c`.
pub fn digit_of_char(c: char) -> (d: u64)
    requires
        is_digit(c),
    ensures
        d == digit_val(c),
        d <= 9,
{
    if c == '1' {
        1
    } else if c == '2' {
        2
    } else if c == '3' {
        3
    } else if c == '4' {
        4
    } else if c == '5' {
        5
    } else if c == '6' {
        6
    } else if c == '7' {
        7
    } else if c == '8' {
        8
    } else if c == '9' {
        9
    } else {
        0
    }
}

/// The digit character for a value below ten.
pub fn char_of_digit(d: u64) -> (c: char)
    requires
        d < 10,
    ensures
        c == digit_char(d as nat),
{
    if d == 1 {
        '1'
    } else if d == 2 {
        '2'
    } else if d == 3 {
        '3'
    } else if d == 4 {
        '4'
    } else if d == 5 {
        '5'
    } else if d == 6 {
        '6'
    } else if d == 7 {
        '7'
    } else if d == 8 {
        '8'
    } else if d == 9 {
        '9'
    } else {
        '0'
    }
}

/// Reads the digits of `t` from position `from` on, keeping the value at or
/// below `limit`.
fn parse_magnitude(t: &Vec<char>, from: usize, limit: u64) -> (r: Result<u64, NumParseError>)
    requires
        from <= t@.len(),
        limit >= 9,
    ensures
        ({
            let s = parse_digits(t@.skip(from as int), 0, limit as nat);
            match r {
                Ok(n) => s == Ok::<nat, NumParseError>(n as nat) && n <= limit,
                Err(e) => s == Err::<nat, NumParseError>(e),
            }
        }),
{
    let mut acc: u64 = 0;
    let mut i: usize = from;
    while i < t.len()
        invariant
            from <= i <= t@.len(),
            limit >= 9,
            acc <= limit,
            parse_digits(t@.skip(from as int), 0, limit as nat) == parse_digits(
                t@.skip(i as int),
                acc as nat,
                limit as nat,
            ),
        decreases t@.len() - i,
    {
        let c = t[i];
        proof {
            assert(t@.skip(i as int)[0] == t@[i as int]);
        }
        if !is_digit_char(c) {
            return Err(NumParseError::InvalidDigit);
        }
        let d = digit_of_char(c);
        let over: bool = acc > (limit - d) / 10;
        proof {
            assert(over == ((acc * 10 + d) > limit)) by (nonlinear_arith)
                requires
                    d <= 9,
                    limit >= 9,
                    acc <= limit,
                    over == (acc > (limit - d) / 10),
            ;
        }
        if over {
            return Err(NumParseError::TooLarge);
        }
        acc = acc * 10 + d;
        proof {
            assert(t@.skip(i as int).skip(1) =~= t@.skip(i + 1 as int));
        }
        i += 1;
    }
    proof {
        assert(t@.skip(i as int).len() == 0);
    }
    Ok(acc)
}

/// Reads trimmed `input` as an unsigned line number, as the standard
/// library's unsigned parser would, with the machine word's range.
pub fn parse_line_number(input: &str) -> (r: Result<usize, NumParseError>)
    ensures
        ({
            let s = parse_unsigned_spec(input@, usize::MAX as nat);
            match r {
                Ok(n) => s == Ok::<nat, NumParseError>(n as nat),
                Err(e) => s == Err::<nat, NumParseError>(e),
            }
        }),
{
    let cs = crate::text::chars_of(input);
    let t = crate::text::trim_chars(&cs);
    let limit: u64 = usize::MAX as u64;
    if t.len() == 0 {
        return Err(NumParseError::Empty);
    }
    let from: usize = if t[0] == '+' {
        1
    } else {
        0
    };
    if from == 1 && t.len() == 1 {
        return Err(NumParseError::InvalidDigit);
    }
    proof {
        assert(t@.skip(0) =~= t@);
        assert(limit as nat == usize::MAX as nat);
    }
    match parse_magnitude(&t, from, limit) {
        Ok(n) => Ok(n as usize),
        Err(e) => Err(e),
    }
}

/// Reads trimmed `input` as a signed menu number, as the standard library's
/// 32-bit signed parser would.
pub fn parse_menu_number(input: &str) -> (r: Result<i64, NumParseError>)
    ensures
        ({
            let s = parse_signed_spec(input@);
            match r {
                Ok(n) => s == Ok::<int, NumParseError>(n as int),
                Err(e) => s == Err::<int, NumParseError>(e),
            }
        }),
{
    let cs = crate::text::chars_of(input);
    let t = crate::text::trim_chars(&cs);
    if t.len() == 0 {
        return Err(NumParseError::Empty);
    }
    let negative: bool = t[0] == '-';
    let signed: bool = negative || t[0] == '+';
    let from: usize = if signed {
        1
    } else {
        0
    };
    if signed && t.len() == 1 {
        return Err(NumParseError::InvalidDigit);
    }
    let limit: u64 = if negative {
        2147483648
    } else {
        2147483647
    };
    proof {
        assert(t@.skip(0) =~= t@);
    }
    match parse_magnitude(&t, from, limit) {
        Ok(n) => {
            if negative {
                Ok(-(n as i64))
            } else {
                Ok(n as i64)
            }
        },
        Err(NumParseError::TooLarge) => {
            if negative {
                Err(NumParseError::TooSmall)
            } else {
                Err(NumParseError::TooLarge)
            }
        },
        Err(e) => Err(e),
    }
}

/// Appends the decimal rendering of `n` to `out`.
pub fn push_dec(n: u64, out: &mut Vec<char>)
    ensures
        final(out)@ == old(out)@ + dec_str_of(n as nat),
    decreases n,
{
    if n < 10 {
        out.push(char_of_digit(n));
        proof {
            assert(old(out)@ + dec_str_of(n as nat) =~= old(out)@.push(digit_char(n as nat)));
        }
    } else {
        push_dec(n / 10, out);
        out.push(char_of_digit(n % 10));
        proof {
            assert(old(out)@ + dec_str_of(n as nat) =~= (old(out)@ + dec_str_of(
                (n / 10) as nat,
            )).push(digit_char((n % 10) as nat)));
        }
    }
}

} // verus!
