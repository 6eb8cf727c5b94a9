//! Numbers as they stand in a source line, in decimal, and in an output
//! line, in binary.
use crate::code::{is_bit, is_bits};
use crate::text::chars_of;
use vstd::prelude::*;

verus! {

/// Whether `c` is one of the decimal digits `0` to `9`.
pub open spec fn is_digit(c: char) -> bool {
    0x30 <= c as u32 <= 0x39
}

/// The number that the decimal digit `c` stands for.
pub open spec fn digit_value(c: char) -> nat {
    if is_digit(c) {
        (c as u32 - 0x30) as nat
    } else {
        0
    }
}

/// Whether `s` is a decimal numeral: one digit or more, and digits only.
pub open spec fn is_decimal(s: Seq<char>) -> bool {
    s.len() > 0 && forall|i: int| 0 <= i < s.len() ==> is_digit(#[trigger] s[i])
}

/// The number that the decimal numeral `s` stands for.
pub open spec fn decimal_value(s: Seq<char>) -> nat
    decreases s.len(),
{
    if s.len() == 0 {
        0
    } else {
        10 * decimal_value(s.drop_last()) + digit_value(s.last())
    }
}

/// `s` without the `+` that may stand before a literal.
pub open spec fn unsigned_part(s: Seq<char>) -> Seq<char> {
    if s.len() > 0 && s[0] == '+' {
        s.drop_first()
    } else {
        s
    }
}

/// The number that `s` stands for where it is an integer literal: a decimal
/// numeral, a `+` before it allowed, of a number that fits in 32 bits.
pub open spec fn literal_value(s: Seq<char>) -> Option<nat> {
    let digits = unsigned_part(s);
    if is_decimal(digits) && decimal_value(digits) <= u32::MAX {
        Some(decimal_value(digits))
    } else {
        None
    }
}

/// The binary digit for `b`, which is 0 or 1.
pub open spec fn bit_char(b: nat) -> char {
    if b == 0 {
        '0'
    } else {
        '1'
    }
}

/// The binary numeral of `n`, most significant digit first, filled up with
/// zeros on the left to `width` digits where it has fewer.
pub open spec fn to_binary(n: nat, width: nat) -> Seq<char>
    decreases n, width,
{
    if n < 2 && width <= 1 {
        seq![bit_char(n)]
    } else {
        to_binary(
            n / 2,
            if width > 0 {
                (width - 1) as nat
            } else {
                0
            },
        ).push(bit_char(n % 2))
    }
}

/// The number that the binary numeral `s` stands for.
pub open spec fn binary_value(s: Seq<char>) -> nat
    decreases s.len(),
{
    if s.len() == 0 {
        0
    } else {
        2 * binary_value(s.drop_last()) + (if s.last() == '1' {
            1nat
        } else {
            0nat
        })
    }
}

/// The least number that has no binary numeral of `width` digits: two to the
/// power of `width`.
pub open spec fn binary_limit(width: nat) -> nat
    decreases width,
{
    if width == 0 {
        1
    } else {
        2 * binary_limit((width - 1) as nat)
    }
}

/// A prefix of a decimal numeral stands for no greater number than the
/// numeral.
pub proof fn lemma_decimal_prefix(s: Seq<char>, k: int)
    requires
        0 <= k <= s.len(),
    ensures
        decimal_value(s.take(k)) <= decimal_value(s),
    decreases s.len(),
{
    if k == s.len() {
        assert(s.take(k) =~= s);
    } else {
        assert(s.drop_last().take(k) =~= s.take(k));
        lemma_decimal_prefix(s.drop_last(), k);
    }
}

/// The binary numeral of a number consists of binary digits, stands for that
/// number, and has `width` digits at least; it has exactly `width` digits
/// where the number is below two to the power of `width`.
pub proof fn lemma_to_binary(n: nat, width: nat)
    ensures
        is_bits(to_binary(n, width)),
        binary_value(to_binary(n, width)) == n,
        to_binary(n, width).len() >= width,
        to_binary(n, width).len() >= 1,
        width >= 1 && n < binary_limit(width) ==> to_binary(n, width).len() == width,
    decreases n, width,
{
    let s = to_binary(n, width);
    if n < 2 && width <= 1 {
        assert(s.drop_last() =~= Seq::<char>::empty());
        assert(binary_value(s) == n) by {
            reveal_with_fuel(binary_value, 2);
        }
        assert(binary_limit(1) == 2) by {
            reveal_with_fuel(binary_limit, 2);
        }
    } else {
        let w: nat = if width > 0 {
            (width - 1) as nat
        } else {
            0
        };
        let rest = to_binary(n / 2, w);
        lemma_to_binary(n / 2, w);
        assert(s.drop_last() =~= rest);
        assert(s.last() == bit_char(n % 2));
        assert forall|i: int| 0 <= i < s.len() implies is_bit(#[trigger] s[i]) by {
            if i < rest.len() {
                assert(s[i] == rest[i]);
            }
        }
        if width >= 1 && n < binary_limit(width) {
            if w == 0 {
                assert(binary_limit(1) == 2) by {
                    reveal_with_fuel(binary_limit, 2);
                }
            }
        }
    }
}

/// The number that the integer literal `text` stands for, or `None` where
/// `text` is no integer literal.
pub fn parse_literal(text: &str) -> (r: Option<u32>)
    ensures
        match r {
            Some(n) => literal_value(text@) == Some(n as nat),
            None => literal_value(text@) is None,
        },
{
    let v = chars_of(text);
    let n = v.len();
    let start: usize = if n > 0 && v[0] == '+' {
        1
    } else {
        0
    };
    let ghost digits = unsigned_part(text@);
    assert(digits =~= v@.skip(start as int));
    if start == n {
        return None;
    }
    let mut value: u64 = 0;
    let mut i: usize = start;
    assert(digits.take(0) =~= Seq::<char>::empty());
    while i < n
        invariant
            start <= i <= n,
            n == v.len(),
            start < n,
            digits == v@.skip(start as int),
            digits == unsigned_part(text@),
            forall|j: int| 0 <= j < i - start ==> is_digit(#[trigger] digits[j]),
            value == decimal_value(digits.take(i - start)),
            value <= u32::MAX,
        decreases n - i,
    {
        let u: u32 = v[i] as u32;
        assert(digits[i - start] == v@[i as int]);
        if u < 0x30 || u > 0x39 {
            assert(!is_digit(digits[i - start]));
            return None;
        }
        proof {
            assert(digits.take(i - start + 1).drop_last() =~= digits.take(i - start));
            assert(digits.take(i - start + 1).last() == digits[i - start]);
        }
        value = value * 10 + (u - 0x30) as u64;
        if value > u32::MAX as u64 {
            proof {
                lemma_decimal_prefix(digits, i - start + 1);
            }
            return None;
        }
        i = i + 1;
    }
    assert(digits.take(n - start) =~= digits);
    Some(value as u32)
}

/// Appends the binary numeral of `n`, of `width` digits at least, to `out`.
pub fn push_binary(out: &mut String, n: u64, width: usize)
    ensures
        final(out)@ == old(out)@ + to_binary(n as nat, width as nat),
    decreases n, width,
{
    if !(n < 2 && width <= 1) {
        push_binary(
            out,
            n / 2,
            if width > 0 {
                width - 1
            } else {
                0
            },
        );
    }
    let ghost before = out@;
    proof {
        reveal_strlit("0");
        reveal_strlit("1");
    }
    if n % 2 == 0 {
        out.append("0");
        assert(out@ =~= before.push('0'));
    } else {
        out.append("1");
        assert(out@ =~= before.push('1'));
    }
    assert(out@ =~= old(out)@ + to_binary(n as nat, width as nat));
}

} // verus!
