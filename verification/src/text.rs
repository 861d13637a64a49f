//! Building human-readable error messages: decimal and hexadecimal numbers
//! appended to strings.

use vstd::prelude::*;
use vstd::string::StringExecFns;

verus! {

/// The character of digit `d` (`0..16`): `0`-`9`, then `a`-`f`.
pub open spec fn digit_char(d: int) -> char {
    if d < 10 {
        ('0' as int + d) as char
    } else {
        ('a' as int + d - 10) as char
    }
}

/// The digits of `n` in base `base` (2 to 16), most significant first; zero
/// is the single digit `0`.
pub open spec fn digits(n: nat, base: nat) -> Seq<char>
    decreases n,
{
    if base < 2 || n < base {
        seq![digit_char(n as int)]
    } else {
        proof {
            assert(n / base < n) by (nonlinear_arith)
                requires
                    base >= 2,
                    n >= base,
            ;
        }
        digits(n / base, base).push(digit_char((n % base) as int))
    }
}

/// The decimal representation of `n`.
pub open spec fn decimal(n: nat) -> Seq<char> {
    digits(n, 10)
}

/// The `{:#x}` representation of `n`: `0x` and the lowercase hexadecimal digits.
pub open spec fn hex(n: nat) -> Seq<char> {
    seq!['0', 'x'] + digits(n, 16)
}

/// The one-character string of digit `d`.
fn digit_str(d: u64) -> (r: &'static str)
    requires
        d < 16,
    ensures
        r@ == seq![digit_char(d as int)],
{
    proof {
        reveal_strlit("0");
        reveal_strlit("1");
        reveal_strlit("2");
        reveal_strlit("3");
        reveal_strlit("4");
        reveal_strlit("5");
        reveal_strlit("6");
        reveal_strlit("7");
        reveal_strlit("8");
        reveal_strlit("9");
        reveal_strlit("a");
        reveal_strlit("b");
        reveal_strlit("c");
        reveal_strlit("d");
        reveal_strlit("e");
        reveal_strlit("f");
    }
    let r = match d {
        0 => "0",
        1 => "1",
        2 => "2",
        3 => "3",
        4 => "4",
        5 => "5",
        6 => "6",
        7 => "7",
        8 => "8",
        9 => "9",
        10 => "a",
        11 => "b",
        12 => "c",
        13 => "d",
        14 => "e",
        _ => "f",
    };
    assert(r@ =~= seq![digit_char(d as int)]);
    r
}

/// Append the digits of `n` in base `base`.
fn push_digits(s: &mut String, n: u64, base: u64)
    requires
        2 <= base <= 16,
    ensures
        final(s)@ == old(s)@ + digits(n as nat, base as nat),
    decreases n,
{
    if n >= base {
        assert(n / base < n) by (nonlinear_arith)
            requires
                base >= 2,
                n >= base,
        ;
        push_digits(s, n / base, base);
    } else {
        assert(n % base == n) by (nonlinear_arith)
            requires
                n < base,
        ;
    }
    s.append(digit_str(n % base));
    proof {
        if n >= base {
            assert(s@ =~= old(s)@ + digits(n as nat, base as nat));
        } else {
            assert(s@ =~= old(s)@ + digits(n as nat, base as nat));
        }
    }
}

/// Append `t`.
pub fn push_str(s: &mut String, t: &str)
    ensures
        final(s)@ == old(s)@ + t@,
{
    s.append(t);
}

/// Append the decimal representation of `n`.
pub fn push_decimal(s: &mut String, n: u64)
    ensures
        final(s)@ == old(s)@ + decimal(n as nat),
{
    push_digits(s, n, 10);
}

/// Append the `{:#x}` representation of `n`.
pub fn push_hex(s: &mut String, n: u64)
    ensures
        final(s)@ == old(s)@ + hex(n as nat),
{
    proof { reveal_strlit("0x"); }
    s.append("0x");
    push_digits(s, n, 16);
    assert(final(s)@ =~= old(s)@ + hex(n as nat));
}

} // verus!
