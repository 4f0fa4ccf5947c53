//! Reading and writing whole numbers.

use vstd::prelude::*;

verus! {

/// What a character counts for as a digit, if it is one in this radix.
pub open spec fn digit_value(c: char, radix: int) -> Option<int> {
    let value = if '0' <= c <= '9' {
        c as int - '0' as int
    } else if 'a' <= c <= 'z' {
        c as int - 'a' as int + 10
    } else if 'A' <= c <= 'Z' {
        c as int - 'A' as int + 10
    } else {
        radix
    };
    if value < radix {
        Some(value)
    } else {
        None
    }
}

/// Whether every character is a digit.
pub open spec fn all_digits(s: Seq<char>, radix: int) -> bool {
    forall|i: int| 0 <= i < s.len() ==> digit_value(#[trigger] s[i], radix) is Some
}

/// The number that a row of digits writes, the most significant digit first.
pub open spec fn digits_value(s: Seq<char>, radix: int) -> int
    decreases s.len(),
{
    if s.len() == 0 {
        0
    } else {
        digits_value(s.drop_last(), radix) * radix + digit_value(s.last(), radix)->0
    }
}

/// The number that `s` writes: an optional `+` and then at least one digit, nothing else, the
/// value no larger than `max`.
pub open spec fn parse_unsigned(s: Seq<char>, radix: int, max: int) -> Option<int> {
    let digits = if s.len() > 0 && s[0] == '+' {
        s.skip(1)
    } else {
        s
    };
    if digits.len() > 0 && all_digits(digits, radix) && digits_value(digits, radix) <= max {
        Some(digits_value(digits, radix))
    } else {
        None
    }
}

/// Digits added at the end do not make a number smaller.
pub proof fn lemma_digits_value_grows(s: Seq<char>, n: int, radix: int)
    requires
        0 <= n <= s.len(),
        all_digits(s, radix),
        radix >= 2,
    ensures
        0 <= digits_value(s.take(n), radix) <= digits_value(s, radix),
    decreases s.len(),
{
    if s.len() == 0 {
        assert(s.take(n) =~= s);
    } else {
        let shorter = s.drop_last();
        assert forall|i: int| 0 <= i < shorter.len() implies digit_value(
            #[trigger] shorter[i],
            radix,
        ) is Some by {
            assert(shorter[i] == s[i]);
        }
        assert(s.last() == s[s.len() - 1]);
        if n == s.len() {
            assert(s.take(n) =~= s);
            lemma_digits_value_grows(shorter, 0, radix);
            lemma_digits_value_grows(shorter, shorter.len() as int, radix);
            assert(shorter.take(shorter.len() as int) =~= shorter);
            let v = digits_value(shorter, radix);
            assert(v * radix >= 0) by (nonlinear_arith)
                requires
                    v >= 0,
                    radix >= 2,
            ;
        } else {
            lemma_digits_value_grows(shorter, n, radix);
            assert(shorter.take(n) =~= s.take(n));
            let v = digits_value(shorter, radix);
            assert(v * radix >= v) by (nonlinear_arith)
                requires
                    v >= 0,
                    radix >= 2,
            ;
        }
    }
}

/// What one character counts for as a digit.
fn digit_of(c: char, radix: u32) -> (result: Option<u32>)
    requires
        2 <= radix <= 36,
    ensures
        match result {
            Some(value) => digit_value(c, radix as int) == Some(value as int) && value < radix,
            None => digit_value(c, radix as int) is None,
        },
{
    let value: u32 = if '0' <= c && c <= '9' {
        c as u32 - '0' as u32
    } else if 'a' <= c && c <= 'z' {
        c as u32 - 'a' as u32 + 10
    } else if 'A' <= c && c <= 'Z' {
        c as u32 - 'A' as u32 + 10
    } else {
        radix
    };
    if value < radix {
        Some(value)
    } else {
        None
    }
}

/// Reads an unsigned number of at most `max`.
pub fn parse_number(chars: &Vec<char>, radix: u32, max: u64) -> (result: Option<u64>)
    requires
        2 <= radix <= 36,
    ensures
        match result {
            Some(value) => parse_unsigned(chars@, radix as int, max as int) == Some(value as int),
            None => parse_unsigned(chars@, radix as int, max as int) is None,
        },
{
    let start: usize = if chars.len() > 0 && chars[0] == '+' {
        1
    } else {
        0
    };
    let ghost digits = chars@.skip(start as int);
    proof {
        if start == 0 {
            assert(digits =~= chars@);
        }
    }
    if start == chars.len() {
        return None;
    }
    let mut value: u64 = 0;
    let mut i: usize = start;
    while i < chars.len()
        invariant
            start <= i <= chars.len(),
            2 <= radix <= 36,
            digits == chars@.skip(start as int),
            digits == (if chars@.len() > 0 && chars@[0] == '+' {
                chars@.skip(1)
            } else {
                chars@
            }),
            forall|j: int|
                0 <= j < i - start ==> digit_value(#[trigger] digits[j], radix as int) is Some,
            value == digits_value(digits.take(i - start), radix as int),
            value <= max,
        decreases chars.len() - i,
    {
        let ghost at = i - start;
        assert(digits[at] == chars@[i as int]);
        match digit_of(chars[i], radix) {
            None => {
                return None;
            },
            Some(digit) => {
                proof {
                    assert(digits.take(at + 1).drop_last() =~= digits.take(at));
                    assert(digits.take(at + 1).last() == digits[at]);
                    assert(value as int * radix as int <= 0xffff_ffff_ffff_ffff * 36)
                        by (nonlinear_arith)
                        requires
                            0 <= value <= 0xffff_ffff_ffff_ffff,
                            0 <= radix <= 36,
                    ;
                }
                let next: u128 = (value as u128) * (radix as u128) + digit as u128;
                if next > max as u128 {
                    proof {
                        if all_digits(digits, radix as int) {
                            lemma_digits_value_grows(digits, at + 1, radix as int);
                        }
                    }
                    return None;
                }
                value = next as u64;
            },
        }
        i += 1;
    }
    assert(digits.take(digits.len() as int) =~= digits);
    Some(value)
}

/// The number that `s` writes in decimal, if it fits in 32 bits.
pub open spec fn as_u32(s: Seq<char>) -> Option<int> {
    parse_unsigned(s, 10, u32::MAX as int)
}

/// Reads a decimal number of 32 bits.
pub fn parse_u32(chars: &Vec<char>) -> (result: Option<u32>)
    ensures
        match result {
            Some(value) => as_u32(chars@) == Some(value as int),
            None => as_u32(chars@) is None,
        },
{
    match parse_number(chars, 10, 0xffff_ffff) {
        Some(value) => Some(value as u32),
        None => None,
    }
}

/// The character for a decimal digit.
pub open spec fn digit_char(d: int) -> char {
    ('0' as int + d) as char
}

/// The decimal digits of a number, without leading zeros.
pub open spec fn decimal(n: nat) -> Seq<char>
    decreases n,
{
    if n < 10 {
        seq![digit_char(n as int)]
    } else {
        decimal(n / 10).push(digit_char((n % 10) as int))
    }
}

/// The decimal digits of a number with a `-` in front of a negative one.
pub open spec fn signed_decimal(n: int) -> Seq<char> {
    if n < 0 {
        seq!['-'] + decimal((-n) as nat)
    } else {
        decimal(n as nat)
    }
}

/// The decimal digits of a number, with a `0` in front of a single digit.
pub open spec fn two_digits(n: nat) -> Seq<char> {
    if n < 10 {
        seq!['0'] + decimal(n)
    } else {
        decimal(n)
    }
}

/// Writes a number in decimal.
pub fn decimal_text(n: u64) -> (result: String)
    ensures
        result@ == decimal(n as nat),
    decreases n,
{
    if n < 10 {
        let mut result = String::new();
        result.push((48u8 + n as u8) as char);
        assert(result@ =~= decimal(n as nat));
        result
    } else {
        let mut result = decimal_text(n / 10);
        result.push((48u8 + (n % 10) as u8) as char);
        result
    }
}

/// Writes a number in decimal, with its sign.
pub fn signed_text(n: i64) -> (result: String)
    ensures
        result@ == signed_decimal(n as int),
{
    if n < 0 {
        let mut result = String::new();
        result.push('-');
        let size: u64 = (-(n as i128)) as u64;
        let digits = decimal_text(size);
        result.append(digits.as_str());
        assert(result@ =~= signed_decimal(n as int));
        result
    } else {
        decimal_text(n as u64)
    }
}

/// Writes a number in decimal with at least two digits.
pub fn two_digit_text(n: u32) -> (result: String)
    ensures
        result@ == two_digits(n as nat),
{
    let digits = decimal_text(n as u64);
    if n < 10 {
        let mut result = String::new();
        result.push('0');
        result.append(digits.as_str());
        assert(result@ =~= two_digits(n as nat));
        result
    } else {
        digits
    }
}

} // verus!
