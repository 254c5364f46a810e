//! Numbers as text.
use vstd::prelude::*;

use crate::number::{
    all_digits, decimal, digit_value, digits, digits_value, read_digits, read_signed,
    read_unsigned, signed_decimal,
};

verus! {

/// A number below ten is written as its digit.
pub proof fn digit_is_written(d: nat)
    requires
        d < 10,
    ensures
        decimal(d) == seq![(0x30 + d) as char],
{
}

/// A number with one more digit is written as the number and the digit.
pub proof fn one_more_digit_is_written(n: nat, d: nat)
    requires
        n > 0,
        d < 10,
    ensures
        decimal(10 * n + d) == decimal(n).push((0x30 + d) as char),
{
    let m = 10 * n + d;
    assert(m / 10 == n && m % 10 == d);
}

/// A number below sixteen is written as its digit in base sixteen.
pub proof fn hex_digit_is_written(d: nat)
    requires
        d < 16,
    ensures
        digits(d, 16) == seq![
            (if d < 10 {
                0x30 + d
            } else {
                0x57 + d
            }) as char,
        ],
{
}

/// A number with one more digit in base sixteen is written as the number and the digit.
pub proof fn one_more_hex_digit_is_written(n: nat, d: nat)
    requires
        n > 0,
        d < 16,
    ensures
        digits(16 * n + d, 16) == digits(n, 16) + digits(d, 16),
{
    let m = 16 * n + d;
    assert(m / 16 == n && m % 16 == d);
    assert(digits(n, 16) + digits(d, 16) =~= digits(n, 16).push(digits(d, 16)[0]));
}

/// A negative number is written as a sign and the number without it.
pub proof fn sign_is_written(n: int)
    requires
        n > 0,
    ensures
        signed_decimal(-n) == seq!['-'] + decimal(n as nat),
        signed_decimal(n) == decimal(n as nat),
        signed_decimal(0) == seq!['0'],
{
}

/// The value of a decimal digit, and no value of any other character.
spec fn decimal_digit(c: char) -> Option<int> {
    if '0' <= c && c <= '9' {
        Some(c as int - 0x30)
    } else {
        None
    }
}

/// A text is read as the number that its decimal digits make up: the number before the
/// last digit, ten times, and that digit.
pub proof fn last_digit_counts_once(s: Seq<char>, c: char, max: nat)
    ensures
        read_digits(Seq::<char>::empty(), 10, max) is None,
        !('0' <= c && c <= '9') ==> read_digits(s.push(c), 10, max) is None,
        '0' <= c && c <= '9' ==> read_digits(seq![c], 10, max) == (if c as int - 0x30 <= max {
            Some((c as int - 0x30) as nat)
        } else {
            None
        }),
        '0' <= c && c <= '9' && s.len() > 0 ==> read_digits(s.push(c), 10, max) == (match read_digits(
            s,
            10,
            max,
        ) {
            Some(n) => if 10 * n + (c as int - 0x30) <= max {
                Some((10 * n + (c as int - 0x30)) as nat)
            } else {
                None
            },
            None => None,
        }),
{
    lemma_push(s, c, 10);
    lemma_push(Seq::<char>::empty(), c, 10);
    assert(Seq::<char>::empty().push(c) =~= seq![c]);
    assert(decimal_digit(c) is Some ==> digit_value(c, 10) == Some((c as int - 0x30) as nat));
}

/// What one more character makes of the digits before it.
proof fn lemma_push(s: Seq<char>, c: char, base: nat)
    ensures
        all_digits(s.push(c), base) == (all_digits(s, base) && digit_value(c, base) is Some),
        digits_value(s.push(c), base) == digits_value(s, base) * base + digit_value(
            c,
            base,
        ).unwrap_or(0),
{
    let t = s.push(c);
    assert(t.drop_last() =~= s);
    if all_digits(t, base) {
        assert forall|i: int| 0 <= i < s.len() implies digit_value(
            #[trigger] s[i],
            base,
        ) is Some by {
            assert(t[i] == s[i]);
        }
        assert(t[s.len() as int] == c);
    }
    if all_digits(s, base) && digit_value(c, base) is Some {
        assert forall|i: int| 0 <= i < t.len() implies digit_value(
            #[trigger] t[i],
            base,
        ) is Some by {
            if i < s.len() {
                assert(t[i] == s[i]);
            }
        }
    }
}

/// A text is read in base sixteen as the number that its digits make up, letters in either
/// case.
pub proof fn last_hex_digit_counts_once(s: Seq<char>, c: char, max: nat)
    ensures
        ({
            let v: Option<int> = if '0' <= c && c <= '9' {
                Some(c as int - 0x30)
            } else if 'a' <= c && c <= 'f' {
                Some(c as int - 0x61 + 10)
            } else if 'A' <= c && c <= 'F' {
                Some(c as int - 0x41 + 10)
            } else {
                None
            };
            match v {
                Some(d) => {
                    &&& read_digits(seq![c], 16, max) == (if d <= max {
                        Some(d as nat)
                    } else {
                        None
                    })
                    &&& s.len() > 0 ==> read_digits(s.push(c), 16, max) == (match read_digits(
                        s,
                        16,
                        max,
                    ) {
                        Some(n) => if 16 * n + d <= max {
                            Some((16 * n + d) as nat)
                        } else {
                            None
                        },
                        None => None,
                    })
                },
                None => read_digits(s.push(c), 16, max) is None,
            }
        }),
{
    lemma_push(s, c, 16);
    lemma_push(Seq::<char>::empty(), c, 16);
    assert(Seq::<char>::empty().push(c) =~= seq![c]);
}

/// A plus sign before a number changes nothing; before a signed one, a minus sign negates
/// it, down to the least that fits.
pub proof fn signs_are_read(s: Seq<char>, base: nat, max: nat)
    requires
        base == 10 || base == 16,
        s.len() == 0 || s[0] != '+' && s[0] != '-',
    ensures
        read_unsigned(seq!['+'] + s, base, max) == read_digits(s, base, max),
        read_unsigned(s, base, max) == read_digits(s, base, max),
        read_unsigned(seq!['-'] + s, base, max) is None,
        read_signed(seq!['+'] + s, base) == read_signed(s, base),
        read_signed(s, base) == (match read_digits(s, base, 0x7fff_ffff_ffff_ffff) {
            Some(n) => Some(n as int),
            None => None,
        }),
        read_signed(seq!['-'] + s, base) == (match read_digits(s, base, 0x8000_0000_0000_0000) {
            Some(n) => Some(-(n as int)),
            None => None,
        }),
{
    let plus = seq!['+'] + s;
    let minus = seq!['-'] + s;
    assert(plus.drop_first() =~= s);
    assert(minus.drop_first() =~= s);
    assert(minus[0] == '-');
    assert(digit_value('-', base) is None);
    assert(!all_digits(minus, base));
}

} // verus!
