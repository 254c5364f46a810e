//! Integers as text: positional notation in bases up to sixteen.
use vstd::prelude::*;

use crate::text::chars_of;

verus! {

/// The character that stands for a digit, in lower case.
pub open spec fn digit_char(d: nat) -> char {
    if d < 10 {
        (48 + d) as char
    } else {
        (87 + d) as char
    }
}

/// The value of a character as a digit of the base, letters in either case.
pub open spec fn digit_value(c: char, base: nat) -> Option<nat> {
    let v: int = if '0' <= c && c <= '9' {
        c as int - 48
    } else if 'a' <= c && c <= 'f' {
        c as int - 87
    } else if 'A' <= c && c <= 'F' {
        c as int - 55
    } else {
        16
    };
    if v < base && v < 16 {
        Some(v as nat)
    } else {
        None
    }
}

/// `n` written in the base without leading zeros.
pub open spec fn digits(n: nat, base: nat) -> Seq<char>
    decreases n,
{
    if base < 2 || n < base {
        seq![digit_char(n)]
    } else {
        proof {
            assert(n / base < n) by (nonlinear_arith)
                requires
                    n >= base,
                    base >= 2,
            ;
        }
        digits(n / base, base).push(digit_char(n % base))
    }
}

/// `n` in decimal notation.
pub open spec fn decimal(n: nat) -> Seq<char> {
    digits(n, 10)
}

/// `n` in decimal notation, with a sign where it is negative.
pub open spec fn signed_decimal(n: int) -> Seq<char> {
    if n < 0 {
        seq!['-'] + decimal((-n) as nat)
    } else {
        decimal(n as nat)
    }
}

/// Whether every character is a digit of the base.
pub open spec fn all_digits(s: Seq<char>, base: nat) -> bool {
    forall|i: int| 0 <= i < s.len() ==> digit_value(#[trigger] s[i], base) is Some
}

/// The number that the digits in `s` stand for.
pub open spec fn digits_value(s: Seq<char>, base: nat) -> nat
    decreases s.len(),
{
    if s.len() == 0 {
        0
    } else {
        digits_value(s.drop_last(), base) * base + digit_value(s.last(), base).unwrap_or(0)
    }
}

/// The text read as a number that is at most `max`: at least one digit, and
/// nothing else.
pub open spec fn read_digits(s: Seq<char>, base: nat, max: nat) -> Option<nat> {
    if s.len() > 0 && all_digits(s, base) && digits_value(s, base) <= max {
        Some(digits_value(s, base))
    } else {
        None
    }
}

/// The text read as an unsigned number: digits, perhaps after a plus sign.
pub open spec fn read_unsigned(s: Seq<char>, base: nat, max: nat) -> Option<nat> {
    if s.len() > 0 && s[0] == '+' {
        read_digits(s.drop_first(), base, max)
    } else {
        read_digits(s, base, max)
    }
}

/// The text read as a 64-bit signed number: digits, perhaps after a sign.
pub open spec fn read_signed(s: Seq<char>, base: nat) -> Option<int> {
    if s.len() > 0 && s[0] == '-' {
        match read_digits(s.drop_first(), base, 0x8000_0000_0000_0000) {
            Some(n) => Some(-(n as int)),
            None => None,
        }
    } else {
        match read_unsigned(s, base, 0x7fff_ffff_ffff_ffff) {
            Some(n) => Some(n as int),
            None => None,
        }
    }
}

proof fn lemma_value_grows(s: Seq<char>, base: nat, k: int)
    requires
        base >= 1,
        0 <= k <= s.len(),
    ensures
        digits_value(s.take(k), base) <= digits_value(s, base),
    decreases s.len() - k,
{
    if k < s.len() {
        lemma_value_grows(s, base, k + 1);
        let longer = s.take(k + 1);
        assert(longer.drop_last() =~= s.take(k));
        let v = digits_value(s.take(k), base);
        assert(v * base >= v) by (nonlinear_arith)
            requires
                base >= 1,
        ;
    } else {
        assert(s.take(k) =~= s);
    }
}

/// A digit's character has the digit's value.
proof fn lemma_digit_round_trip(d: nat, base: nat)
    requires
        d < base <= 16,
    ensures
        digit_value(digit_char(d), base) == Some(d),
{
}

/// Reading what was written in a base gives the number back, and writing
/// yields nothing but digits of that base.
pub proof fn digits_read_back(n: nat, base: nat)
    requires
        2 <= base <= 16,
    ensures
        digits(n, base).len() >= 1,
        all_digits(digits(n, base), base),
        digits_value(digits(n, base), base) == n,
    decreases n,
{
    let s = digits(n, base);
    if n < base {
        lemma_digit_round_trip(n, base);
        assert(s.drop_last() =~= Seq::<char>::empty());
        assert(digits_value(s.drop_last(), base) == 0);
        assert(0 * base == 0);
    } else {
        assert(n / base < n) by (nonlinear_arith)
            requires
                n >= base,
                base >= 2,
        ;
        digits_read_back(n / base, base);
        assert(n % base < base) by (nonlinear_arith)
            requires
                base >= 2,
        ;
        lemma_digit_round_trip(n % base, base);
        assert(s.drop_last() =~= digits(n / base, base));
        assert((n / base) * base + n % base == n) by (nonlinear_arith)
            requires
                base >= 2,
        ;
    }
}

/// An unsigned 64-bit number that was written in decimal or in hexadecimal
/// reads back as the same number.
pub proof fn unsigned_read_back(n: u64, base: nat)
    requires
        2 <= base <= 16,
    ensures
        read_unsigned(digits(n as nat, base), base, 0xffff_ffff_ffff_ffff) == Some(n as nat),
{
    digits_read_back(n as nat, base);
    let s = digits(n as nat, base);
    assert(digit_value(s[0], base) is Some);
}

/// Different numbers are written differently.
pub proof fn digits_injective(m: nat, n: nat, base: nat)
    requires
        2 <= base <= 16,
        digits(m, base) == digits(n, base),
    ensures
        m == n,
{
    digits_read_back(m, base);
    digits_read_back(n, base);
}

fn digit_to_char(d: u8) -> (c: char)
    requires
        d < 16,
    ensures
        c == digit_char(d as nat),
{
    if d < 10 {
        (48 + d) as char
    } else {
        (87 + d) as char
    }
}

fn write_digits(n: u64, base: u64) -> (res: String)
    requires
        2 <= base <= 16,
    ensures
        res@ == digits(n as nat, base as nat),
    decreases n,
{
    if n < base {
        let mut res = String::new();
        res.push(digit_to_char(n as u8));
        assert(res@ =~= seq![digit_char(n as nat)]);
        res
    } else {
        assert(n / base < n) by (nonlinear_arith)
            requires
                n >= base,
                base >= 2,
        ;
        let mut res = write_digits(n / base, base);
        let d: u64 = n % base;
        res.push(digit_to_char(d as u8));
        res
    }
}

/// Writes a number in decimal.
pub fn to_decimal(n: u64) -> (res: String)
    ensures
        res@ == decimal(n as nat),
{
    write_digits(n, 10)
}

/// Writes a number in lower-case hexadecimal.
pub fn to_hex(n: u64) -> (res: String)
    ensures
        res@ == digits(n as nat, 16),
{
    write_digits(n, 16)
}

/// Writes a signed number in decimal.
pub fn to_signed_decimal(n: i64) -> (res: String)
    ensures
        res@ == signed_decimal(n as int),
{
    if n < 0 {
        let mut res = String::new();
        res.push('-');
        assert(res@ =~= seq!['-']);
        let magnitude: u64 = (-(n as i128)) as u64;
        let tail = to_decimal(magnitude);
        res.append(tail.as_str());
        res
    } else {
        to_decimal(n as u64)
    }
}

/// The value of a character as a digit of the base, or 16.
fn char_digit(c: char, base: u64) -> (res: u64)
    requires
        2 <= base <= 16,
    ensures
        match digit_value(c, base as nat) {
            Some(v) => res == v && res < base,
            None => res == 16,
        },
{
    let v: u64 = if '0' <= c && c <= '9' {
        (c as u32 - 48) as u64
    } else if 'a' <= c && c <= 'f' {
        (c as u32 - 87) as u64
    } else if 'A' <= c && c <= 'F' {
        (c as u32 - 55) as u64
    } else {
        16
    };
    if v < base {
        v
    } else {
        16
    }
}

/// Reads `chars[from..to]` as digits of a number that is at most `max`.
pub fn parse_digits(chars: &Vec<char>, from: usize, to: usize, base: u64, max: u64) -> (res: Option<
    u64,
>)
    requires
        from <= to <= chars@.len(),
        2 <= base <= 16,
    ensures
        match read_digits(chars@.subrange(from as int, to as int), base as nat, max as nat) {
            Some(n) => res == Some(n as u64) && n <= u64::MAX,
            None => res is None,
        },
{
    let ghost s = chars@.subrange(from as int, to as int);
    if from == to {
        return None;
    }
    let mut acc: u64 = 0;
    let mut i: usize = from;
    assert(s.take(0) =~= Seq::<char>::empty());
    while i < to
        invariant
            from <= i <= to <= chars@.len(),
            2 <= base <= 16,
            s == chars@.subrange(from as int, to as int),
            acc == digits_value(s.take(i - from), base as nat),
            acc <= max,
            forall|j: int| 0 <= j < i - from ==> digit_value(#[trigger] s[j], base as nat) is Some,
        decreases to - i,
    {
        let c: char = chars[i];
        let d: u64 = char_digit(c, base);
        assert(s[i - from] == c);
        if d == 16 {
            return None;
        }
        assert(0 <= (acc as u128) * (base as u128) <= 0x10_0000_0000_0000_0000) by (nonlinear_arith)
            requires
                2 <= base <= 16,
        ;
        let wide: u128 = (acc as u128) * (base as u128) + (d as u128);
        proof {
            let k = i - from;
            assert(s.take(k + 1).drop_last() =~= s.take(k));
            assert(s.take(k + 1).last() == c);
            lemma_value_grows(s, base as nat, k + 1);
        }
        if wide > max as u128 {
            return None;
        }
        acc = wide as u64;
        i = i + 1;
    }
    assert(s.take(to - from) =~= s);
    Some(acc)
}

/// Reads an unsigned number, as `u64::from_str_radix` does.
pub fn parse_u64(s: &str, base: u64) -> (res: Option<u64>)
    requires
        2 <= base <= 16,
    ensures
        match read_unsigned(s@, base as nat, 0xffff_ffff_ffff_ffff) {
            Some(n) => res == Some(n as u64) && n <= u64::MAX,
            None => res is None,
        },
{
    let chars = chars_of(s);
    if chars.len() > 0 && chars[0] == '+' {
        assert(s@.drop_first() =~= chars@.subrange(1, chars@.len() as int));
        parse_digits(&chars, 1, chars.len(), base, 0xffff_ffff_ffff_ffff)
    } else {
        assert(s@ =~= chars@.subrange(0, chars@.len() as int));
        parse_digits(&chars, 0, chars.len(), base, 0xffff_ffff_ffff_ffff)
    }
}

/// Reads a signed number, as `i64::from_str_radix` does.
pub fn parse_i64(s: &str, base: u64) -> (res: Option<i64>)
    requires
        2 <= base <= 16,
    ensures
        match read_signed(s@, base as nat) {
            Some(n) => res == Some(n as i64) && i64::MIN <= n <= i64::MAX,
            None => res is None,
        },
{
    let chars = chars_of(s);
    if chars.len() > 0 && chars[0] == '-' {
        assert(s@.drop_first() =~= chars@.subrange(1, chars@.len() as int));
        match parse_digits(&chars, 1, chars.len(), base, 0x8000_0000_0000_0000) {
            Some(n) => Some((-(n as i128)) as i64),
            None => None,
        }
    } else if chars.len() > 0 && chars[0] == '+' {
        assert(s@.drop_first() =~= chars@.subrange(1, chars@.len() as int));
        match parse_digits(&chars, 1, chars.len(), base, 0x7fff_ffff_ffff_ffff) {
            Some(n) => Some(n as i64),
            None => None,
        }
    } else {
        assert(s@ =~= chars@.subrange(0, chars@.len() as int));
        match parse_digits(&chars, 0, chars.len(), base, 0x7fff_ffff_ffff_ffff) {
            Some(n) => Some(n as i64),
            None => None,
        }
    }
}

} // verus!
