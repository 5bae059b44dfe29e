//! Writing numbers and reading them.

use vstd::arithmetic::power::pow;
use vstd::prelude::*;

use crate::number::{
    all_digits, decimal, digit_char, digit_value, digits_value, format_decimal, format_prefixed_hex,
    format_signed, hex_digits, is_digit, lemma_decimal, parse_i32, parse_u16, prefixed_hex,
    read_decimal, read_signed, read_signed_decimal, read_unsigned, signed_decimal,
};

verus! {

/// The digits, in the order of their values.
pub open spec fn digit_table() -> Seq<char> {
    "0123456789abcdef"@
}

/// Digits have the values of their places in the table.
pub proof fn digits_have_their_places(d: nat)
    requires
        d < 16,
    ensures
        digit_char(d) == digit_table()[d as int],
        is_digit(digit_char(d)) <==> d < 10,
        d < 10 ==> digit_value(digit_char(d)) == d,
{
    reveal_strlit("0123456789abcdef");
}

/// A character is a decimal digit if the table has it among the first ten.
pub proof fn decimal_digits_are_in_the_table(c: char)
    ensures
        is_digit(c) <==> exists|d: int| 0 <= d < 10 && #[trigger] digit_table()[d] == c,
{
    reveal_strlit("0123456789abcdef");
    if is_digit(c) {
        let d = digit_value(c) as int;
        digits_have_their_places(d as nat);
        assert(digit_table()[d] == c);
    }
    if exists|d: int| 0 <= d < 10 && #[trigger] digit_table()[d] == c {
        let d = choose|d: int| 0 <= d < 10 && #[trigger] digit_table()[d] == c;
        digits_have_their_places(d as nat);
    }
}

/// Digits count by their place: what stands further left counts ten times as much
/// for each digit on its right.
pub proof fn digits_count_by_place(a: Seq<char>, b: Seq<char>)
    ensures
        digits_value(Seq::empty()) == 0,
        a.len() == 1 ==> digits_value(a) == digit_value(a[0]),
        digits_value(a + b) == digits_value(a) * pow(10, b.len()) + digits_value(b),
    decreases b.len(),
{
    reveal(pow);
    if a.len() == 1 {
        assert(a.drop_last() =~= Seq::<char>::empty());
        assert(digits_value(a.drop_last()) == 0);
    }
    if b.len() == 0 {
        assert(a + b =~= a);
        assert(digits_value(a) * 1 == digits_value(a));
    } else {
        let r = b.drop_last();
        digits_count_by_place(a, r);
        assert((a + b).drop_last() =~= a + r);
        let v = digits_value(a) as int;
        let p = pow(10, r.len());
        assert(pow(10, b.len()) == 10 * p);
        assert(10 * (v * p) == v * (10 * p)) by (nonlinear_arith);
    }
}

/// A number's decimal form has no leading zero.
pub proof fn decimal_has_no_leading_zero(n: nat)
    ensures
        decimal(n).len() > 0,
        decimal(n).len() > 1 ==> decimal(n)[0] != '0',
        n > 0 ==> decimal(n)[0] != '0',
    decreases n,
{
    if n >= 10 {
        decimal_has_no_leading_zero(n / 10);
    }
}

/// Different numbers have different decimal forms.
pub proof fn decimal_tells_the_number(a: nat, b: nat)
    requires
        decimal(a) == decimal(b),
    ensures
        a == b,
{
    lemma_decimal(a);
    lemma_decimal(b);
}

/// Different signed numbers have different forms.
pub proof fn signed_decimal_tells_the_number(a: i32, b: i32)
    requires
        signed_decimal(a as int) == signed_decimal(b as int),
    ensures
        a == b,
{
    read_signed_decimal(a as int, i32::MAX as nat);
    read_signed_decimal(b as int, i32::MAX as nat);
}

/// What is read as an unsigned number: digits, with a plus sign before them or
/// without, up to the largest number; nothing else.
pub proof fn unsigned_numbers_are_digits(digits: Seq<char>, max: nat, s: Seq<char>, at: int)
    requires
        digits.len() > 0,
        all_digits(digits),
        0 <= at < s.len(),
        !is_digit(s[at]),
        at > 0 || s[at] != '+' || s.len() == 1,
    ensures
        read_unsigned(digits, max) == if digits_value(digits) <= max {
            Some(digits_value(digits))
        } else {
            None
        },
        read_unsigned(seq!['+'] + digits, max) == read_unsigned(digits, max),
        read_unsigned(Seq::empty(), max) is None,
        read_unsigned(s, max) is None,
{
    assert(is_digit(digits[0]));
    assert((seq!['+'] + digits).skip(1) =~= digits);
    if s[0] == '+' && s.len() > 1 {
        assert(s.skip(1)[at - 1] == s[at]);
        assert(!all_digits(s.skip(1)));
    }
}

/// What is read as a signed number: an unsigned number, or digits after a minus
/// sign, down to the smallest number; nothing else.
pub proof fn signed_numbers_are_digits(digits: Seq<char>, max: nat, s: Seq<char>, at: int)
    requires
        digits.len() > 0,
        all_digits(digits),
        0 <= at < s.len(),
        !is_digit(s[at]),
        at > 0 || (s[at] != '+' && s[at] != '-') || s.len() == 1,
    ensures
        read_signed(digits, max) == if digits_value(digits) <= max {
            Some(digits_value(digits) as int)
        } else {
            None
        },
        read_signed(seq!['+'] + digits, max) == read_signed(digits, max),
        read_signed(seq!['-'] + digits, max) == if digits_value(digits) <= max + 1 {
            Some(-(digits_value(digits) as int))
        } else {
            None
        },
        read_signed(Seq::empty(), max) is None,
        read_signed(s, max) is None,
{
    assert(is_digit(digits[0]));
    assert((seq!['+'] + digits).skip(1) =~= digits);
    assert((seq!['-'] + digits).skip(1) =~= digits);
    if (s[0] == '+' || s[0] == '-') && s.len() > 1 {
        assert(s.skip(1)[at - 1] == s[at]);
        assert(!all_digits(s.skip(1)));
    } else if s[0] == '-' {
        assert(s.skip(1).len() == 0);
    }
}

/// A number that is written in decimal has that value, in digits without a leading
/// zero.
pub proof fn written_number_has_its_value(n: u32, s: String)
    requires
        call_ensures(format_decimal, (n,), s),
    ensures
        s@.len() > 0,
        all_digits(s@),
        digits_value(s@) == n,
        s@.len() > 1 ==> s@[0] != '0',
{
    lemma_decimal(n as nat);
    decimal_has_no_leading_zero(n as nat);
}

/// Every port that is written is read back as itself.
pub proof fn written_port_is_read_back(port: u16, s: String, t: &str, r: Option<u16>)
    requires
        call_ensures(format_decimal, (port as u32,), s),
        t@ == s@,
        call_ensures(parse_u16, (t,), r),
    ensures
        r == Some(port),
{
    read_decimal(port as nat, u16::MAX as nat);
}

/// Every signed number that is written is read back as itself.
pub proof fn written_signed_is_read_back(n: i32, s: String, t: &str, r: Option<i32>)
    requires
        call_ensures(format_signed, (n,), s),
        t@ == s@,
        call_ensures(parse_i32, (t,), r),
    ensures
        r == Some(n),
        n >= 0 ==> all_digits(s@) && digits_value(s@) == n,
        n < 0 ==> s@[0] == '-' && all_digits(s@.skip(1)) && digits_value(s@.skip(1)) == -n,
{
    read_signed_decimal(n as int, i32::MAX as nat);
    if n < 0 {
        lemma_decimal((-n) as nat);
        assert(s@.skip(1) =~= decimal((-n) as nat));
    } else {
        lemma_decimal(n as nat);
    }
}

/// A port is read exactly from digits, with a plus sign or without, whose value is
/// a port.
pub proof fn port_is_read_from_its_digits(t: &str, r: Option<u16>)
    requires
        call_ensures(parse_u16, (t,), r),
    ensures
        r matches Some(port) ==> exists|digits: Seq<char>|
            {
                &&& digits.len() > 0
                &&& all_digits(digits)
                &&& #[trigger] digits_value(digits) == port
                &&& t@ == digits || t@ == seq!['+'] + digits
            },
        t@.len() > 0 && all_digits(t@) && digits_value(t@) <= 65535 ==> r is Some,
{
    if r is Some {
        if t@[0] == '+' {
            let d = t@.skip(1);
            assert(t@ =~= seq!['+'] + d);
            assert(digits_value(d) == r->0);
        } else {
            assert(digits_value(t@) == r->0);
        }
    }
    if t@.len() > 0 && all_digits(t@) {
        assert(is_digit(t@[0]));
    }
}

/// A byte in hexadecimal is `0x` and the digits of its two halves, the high half
/// only where it is not zero.
pub proof fn hexadecimal_shows_both_halves(n: u8, s: String)
    requires
        call_ensures(format_prefixed_hex, (n,), s),
    ensures
        exists|high: int, low: int|
            {
                &&& 0 <= high < 16
                &&& 0 <= low < 16
                &&& 16 * high + low == n
                &&& s@ == if high == 0 {
                    "0x"@.push(#[trigger] digit_table()[low])
                } else {
                    "0x"@.push(#[trigger] digit_table()[high]).push(digit_table()[low])
                }
            },
{
    reveal_strlit("0x");
    let high = (n / 16) as int;
    let low = (n % 16) as int;
    digits_have_their_places(high as nat);
    digits_have_their_places(low as nat);
    assert(16 * high + low == n);
    if high == 0 {
        assert(s@ =~= "0x"@.push(digit_table()[low]));
    } else {
        assert(s@ =~= "0x"@.push(digit_table()[high]).push(digit_table()[low]));
    }
}

/// Different bytes have different hexadecimal forms.
pub proof fn hexadecimal_tells_the_byte(a: u8, b: u8)
    requires
        prefixed_hex(a) == prefixed_hex(b),
    ensures
        a == b,
{
    let x = prefixed_hex(a);
    let y = prefixed_hex(b);
    assert(x.len() == y.len());
    assert(x[2] == y[2]);
    assert(x.len() == 4 ==> x[3] == y[3]);
}

/// Whether two characters are the hexadecimal digits of a byte: its high half, then
/// its low half.
pub open spec fn shows_byte(byte: u8, first: char, second: char) -> bool {
    exists|high: int, low: int|
        {
            &&& 0 <= high < 16
            &&& 0 <= low < 16
            &&& 16 * high + low == byte
            &&& first == #[trigger] digit_table()[high]
            &&& second == #[trigger] digit_table()[low]
        }
}

/// The hexadecimal digits of bytes are two for each byte.
pub proof fn hex_digits_show_each_byte(bytes: Seq<u8>, i: int)
    requires
        0 <= i < bytes.len(),
    ensures
        hex_digits(bytes).len() == 2 * bytes.len(),
        shows_byte(bytes[i], hex_digits(bytes)[2 * i], hex_digits(bytes)[2 * i + 1]),
{
    let high = (bytes[i] / 16) as int;
    let low = (bytes[i] % 16) as int;
    digits_have_their_places(high as nat);
    digits_have_their_places(low as nat);
    assert((2 * i) / 2 == i && (2 * i + 1) / 2 == i);
    assert(hex_digits(bytes)[2 * i] == digit_table()[high]);
    assert(hex_digits(bytes)[2 * i + 1] == digit_table()[low]);
}

} // verus!
