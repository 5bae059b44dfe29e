//! Numbers as text: decimal and hexadecimal digits, written and read back.

use vstd::prelude::*;

use crate::text::to_chars;

verus! {

/// The hexadecimal digit of value `d`, in lower case. Below ten it is the
/// decimal digit.
pub open spec fn digit_char(d: nat) -> char {
    if d < 10 {
        (48 + d) as char
    } else {
        (87 + d) as char
    }
}

/// Whether `c` is a decimal digit.
pub open spec fn is_digit(c: char) -> bool {
    '0' <= c <= '9'
}

/// The value of the decimal digit `c`.
pub open spec fn digit_value(c: char) -> nat {
    (c as u32 - 48) as nat
}

/// Whether every character of `s` is a decimal digit.
pub open spec fn all_digits(s: Seq<char>) -> bool {
    forall|i: int| 0 <= i < s.len() ==> is_digit(#[trigger] s[i])
}

/// The value of the decimal digits `s`.
pub open spec fn digits_value(s: Seq<char>) -> nat
    decreases s.len(),
{
    if s.len() == 0 {
        0
    } else {
        10 * digits_value(s.drop_last()) + digit_value(s.last())
    }
}

/// The decimal digits of `n`, without leading zeros.
pub open spec fn decimal(n: nat) -> Seq<char>
    decreases n,
{
    if n < 10 {
        seq![digit_char(n)]
    } else {
        decimal(n / 10).push(digit_char(n % 10))
    }
}

/// The decimal digits of `n`, after a minus sign where `n` is negative.
pub open spec fn signed_decimal(n: int) -> Seq<char> {
    if n < 0 {
        seq!['-'] + decimal((-n) as nat)
    } else {
        decimal(n as nat)
    }
}

/// The number that the digits `s` write, where it is at most `max`.
pub open spec fn read_digits(s: Seq<char>, max: nat) -> Option<nat> {
    if s.len() > 0 && all_digits(s) && digits_value(s) <= max {
        Some(digits_value(s))
    } else {
        None
    }
}

/// The unsigned number that `s` writes: digits, after an optional plus sign.
pub open spec fn read_unsigned(s: Seq<char>, max: nat) -> Option<nat> {
    if s.len() > 0 && s[0] == '+' {
        read_digits(s.skip(1), max)
    } else {
        read_digits(s, max)
    }
}

/// The number from `-max - 1` to `max` that `s` writes: digits, after an
/// optional sign.
pub open spec fn read_signed(s: Seq<char>, max: nat) -> Option<int> {
    if s.len() > 0 && s[0] == '-' {
        match read_digits(s.skip(1), max + 1) {
            Some(n) => Some(-(n as int)),
            None => None,
        }
    } else {
        match read_unsigned(s, max) {
            Some(n) => Some(n as int),
            None => None,
        }
    }
}

/// `n` in hexadecimal after `0x`, without leading zeros.
pub open spec fn prefixed_hex(n: u8) -> Seq<char> {
    if n < 16 {
        seq!['0', 'x', digit_char(n as nat)]
    } else {
        seq!['0', 'x', digit_char((n / 16) as nat), digit_char((n % 16) as nat)]
    }
}

/// Two hexadecimal digits for each byte, the high half first.
pub open spec fn hex_digits(bytes: Seq<u8>) -> Seq<char> {
    Seq::new(
        2 * bytes.len(),
        |i: int|
            if i % 2 == 0 {
                digit_char((bytes[i / 2] / 16) as nat)
            } else {
                digit_char((bytes[i / 2] % 16) as nat)
            },
    )
}

/// The digits of a number are decimal digits with that number as their value.
pub proof fn lemma_decimal(n: nat)
    ensures
        decimal(n).len() > 0,
        all_digits(decimal(n)),
        digits_value(decimal(n)) == n,
    decreases n,
{
    if n < 10 {
        let s = decimal(n);
        assert(s.drop_last() =~= Seq::<char>::empty());
        assert(digits_value(s.drop_last()) == 0);
    } else {
        lemma_decimal(n / 10);
        let s = decimal(n);
        assert(s.drop_last() =~= decimal(n / 10));
        assert(s.last() == digit_char(n % 10));
    }
}

/// Reading back the decimal digits of a number gives the number.
pub proof fn read_decimal(n: nat, max: nat)
    requires
        n <= max,
    ensures
        read_unsigned(decimal(n), max) == Some(n),
{
    lemma_decimal(n);
    assert(is_digit(decimal(n)[0]));
}

/// Reading back a signed number's text gives the number.
pub proof fn read_signed_decimal(n: int, max: nat)
    requires
        -max - 1 <= n <= max,
    ensures
        read_signed(signed_decimal(n), max) == Some(n),
{
    if n < 0 {
        lemma_decimal((-n) as nat);
        assert(signed_decimal(n).skip(1) =~= decimal((-n) as nat));
    } else {
        lemma_decimal(n as nat);
        assert(is_digit(decimal(n as nat)[0]));
        read_decimal(n as nat, max);
    }
}

/// Further digits do not make a number smaller.
proof fn lemma_digits_grow(s: Seq<char>, n: int)
    requires
        0 <= n <= s.len(),
    ensures
        digits_value(s.take(n)) <= digits_value(s),
    decreases s.len(),
{
    if n < s.len() {
        lemma_digits_grow(s.drop_last(), n);
        assert(s.drop_last().take(n) =~= s.take(n));
    } else {
        assert(s.take(n) =~= s);
    }
}

/// The hexadecimal digit of value `d`.
fn digit(d: u8) -> (c: char)
    requires
        d < 16,
    ensures
        c == digit_char(d as nat),
{
    if d < 10 {
        (48 + d) as char
    } else {
        (87 + d) as char
    }
}

/// `n` in decimal.
pub fn format_decimal(n: u32) -> (s: String)
    ensures
        s@ == decimal(n as nat),
    decreases n,
{
    let mut s: String = if n < 10 {
        String::new()
    } else {
        format_decimal(n / 10)
    };
    s.push(digit((n % 10) as u8));
    proof {
        assert(n < 10 ==> s@ =~= decimal(n as nat));
    }
    s
}

/// `n` in decimal, after a minus sign where it is negative.
pub fn format_signed(n: i32) -> (s: String)
    ensures
        s@ == signed_decimal(n as int),
{
    if n < 0 {
        let mut s: String = String::new();
        s.push('-');
        let size: u32 = (-(n as i64)) as u32;
        s.append(format_decimal(size).as_str());
        proof {
            assert(s@ =~= signed_decimal(n as int));
        }
        s
    } else {
        format_decimal(n as u32)
    }
}

/// `n` in hexadecimal after `0x`.
pub fn format_prefixed_hex(n: u8) -> (s: String)
    ensures
        s@ == prefixed_hex(n),
{
    let mut s: String = String::new();
    s.push('0');
    s.push('x');
    if n >= 16 {
        s.push(digit(n / 16));
    }
    s.push(digit(n % 16));
    proof {
        assert(s@ =~= prefixed_hex(n));
    }
    s
}

/// The number that the digits of `chars` from `from` on write, where it is at
/// most `max`.
fn parse_digits(chars: &Vec<char>, from: usize, max: u64) -> (r: Option<u64>)
    requires
        from <= chars@.len(),
        max <= 0x1_0000_0000,
    ensures
        r is Some <==> read_digits(chars@.skip(from as int), max as nat) is Some,
        r matches Some(n) ==> read_digits(chars@.skip(from as int), max as nat) == Some(n as nat),
{
    let ghost s = chars@.skip(from as int);
    if from == chars.len() {
        return None;
    }
    let mut n: u64 = 0;
    let mut i: usize = from;
    while i < chars.len()
        invariant
            from <= i <= chars@.len(),
            max <= 0x1_0000_0000,
            s == chars@.skip(from as int),
            n <= max,
            forall|j: int| 0 <= j < i - from ==> is_digit(#[trigger] s[j]),
            n == digits_value(s.take(i - from)),
        decreases chars@.len() - i,
    {
        let c: char = chars[i];
        proof {
            assert(s[i - from] == c);
            assert(s.take(i + 1 - from).drop_last() =~= s.take(i - from));
        }
        if c < '0' || c > '9' {
            proof {
                assert(!is_digit(s[i - from]));
            }
            return None;
        }
        n = 10 * n + (c as u32 - 48) as u64;
        i = i + 1;
        if n > max {
            proof {
                lemma_digits_grow(s, i - from);
            }
            return None;
        }
    }
    proof {
        assert(s.take(i - from) =~= s);
    }
    Some(n)
}

/// The unsigned number up to `max` that `chars` write.
fn parse_unsigned(chars: &Vec<char>, max: u64) -> (r: Option<u64>)
    requires
        max <= 0x1_0000_0000,
    ensures
        r is Some <==> read_unsigned(chars@, max as nat) is Some,
        r matches Some(n) ==> read_unsigned(chars@, max as nat) == Some(n as nat),
{
    proof {
        assert(chars@.skip(0) =~= chars@);
    }
    if chars.len() > 0 && chars[0] == '+' {
        parse_digits(chars, 1, max)
    } else {
        parse_digits(chars, 0, max)
    }
}

/// The 16-bit unsigned number that `s` writes.
pub fn parse_u16(s: &str) -> (r: Option<u16>)
    ensures
        r is Some <==> read_unsigned(s@, u16::MAX as nat) is Some,
        r matches Some(n) ==> read_unsigned(s@, u16::MAX as nat) == Some(n as nat),
{
    let chars: Vec<char> = to_chars(s);
    match parse_unsigned(&chars, 0xffff) {
        Some(n) => Some(n as u16),
        None => None,
    }
}

/// The 32-bit signed number that `s` writes.
pub fn parse_i32(s: &str) -> (r: Option<i32>)
    ensures
        r is Some <==> read_signed(s@, i32::MAX as nat) is Some,
        r matches Some(n) ==> read_signed(s@, i32::MAX as nat) == Some(n as int),
{
    let chars: Vec<char> = to_chars(s);
    if chars.len() > 0 && chars[0] == '-' {
        match parse_digits(&chars, 1, 0x8000_0000) {
            Some(n) => Some((0 - n as i64) as i32),
            None => None,
        }
    } else {
        match parse_unsigned(&chars, 0x7fff_ffff) {
            Some(n) => Some(n as i32),
            None => None,
        }
    }
}

} // verus!
