//! Character-level building blocks: decimal digit strings and repeated
//! character runs, with their exec counterparts.
use vstd::prelude::*;
use vstd::string::*;

verus! {

/// The decimal digit character for `d` (meaningful for `0 <= d <= 9`).
pub open spec fn digit_char(d: nat) -> char {
    if d == 0 {
        '0'
    } else if d == 1 {
        '1'
    } else if d == 2 {
        '2'
    } else if d == 3 {
        '3'
    } else if d == 4 {
        '4'
    } else if d == 5 {
        '5'
    } else if d == 6 {
        '6'
    } else if d == 7 {
        '7'
    } else if d == 8 {
        '8'
    } else {
        '9'
    }
}

/// The decimal digit string of a natural number, most significant digit
/// first, with no leading zeros (a single `0` for zero itself).
pub open spec fn dec_digits(n: nat) -> Seq<char>
    decreases n,
{
    if n < 10 {
        seq![digit_char(n)]
    } else {
        dec_digits(n / 10) + seq![digit_char(n % 10)]
    }
}

/// The canonical decimal string of an integer: its digits, preceded by
/// `-` when it is negative.
pub open spec fn int_text(n: int) -> Seq<char> {
    if n < 0 {
        seq!['-'] + dec_digits((-n) as nat)
    } else {
        dec_digits(n as nat)
    }
}

/// `n` copies of the character `c`.
pub open spec fn repeat_char(c: char, n: nat) -> Seq<char> {
    Seq::new(n, |i: int| c)
}

/// Appends the single decimal digit `d` to `into`.
fn push_digit(d: u64, into: &mut String)
    requires
        d < 10,
    ensures
        final(into)@ == old(into)@ + seq![digit_char(d as nat)],
{
    let s: &str = if d == 0 {
        "0"
    } else if d == 1 {
        "1"
    } else if d == 2 {
        "2"
    } else if d == 3 {
        "3"
    } else if d == 4 {
        "4"
    } else if d == 5 {
        "5"
    } else if d == 6 {
        "6"
    } else if d == 7 {
        "7"
    } else if d == 8 {
        "8"
    } else {
        "9"
    };
    proof {
        reveal_strlit("0");
        reveal_strlit("1");
        reveal_strlit("2");
        reveal_strlit("3");
        reveal_strlit("4");
        reveal_strlit("5");
        reveal_strlit("6");
        reveal_strlit("7");
        reveal_strlit("8");
        reveal_strlit("9");
        assert(s@ =~= seq![digit_char(d as nat)]);
    }
    into.append(s);
}

/// Appends the decimal digit string of `n` to `into`.
pub(crate) fn push_u64(n: u64, into: &mut String)
    ensures
        final(into)@ == old(into)@ + dec_digits(n as nat),
    decreases n,
{
    if n >= 10 {
        push_u64(n / 10, into);
    }
    push_digit(n % 10, into);
    proof {
        if n >= 10 {
            assert(final(into)@ =~= old(into)@ + dec_digits(n as nat));
        }
    }
}

/// Appends the canonical decimal string of `n` to `into`.
pub(crate) fn push_i64(n: i64, into: &mut String)
    ensures
        final(into)@ == old(into)@ + int_text(n as int),
{
    if n < 0 {
        into.append("-");
        let m: u64 = if n == i64::MIN {
            9223372036854775808u64
        } else {
            (-n) as u64
        };
        push_u64(m, into);
        proof {
            reveal_strlit("-");
            assert("-"@ =~= seq!['-']);
            assert(final(into)@ =~= old(into)@ + int_text(n as int));
        }
    } else {
        push_u64(n as u64, into);
    }
}

/// Appends `n` copies of the one-character string `unit` to `into`.
pub(crate) fn push_repeat(unit: &str, n: usize, into: &mut String)
    requires
        unit@.len() == 1,
    ensures
        final(into)@ == old(into)@ + repeat_char(unit@[0], n as nat),
{
    let mut k: usize = 0;
    proof {
        assert(into@ =~= old(into)@ + repeat_char(unit@[0], 0));
    }
    while k < n
        invariant
            unit@.len() == 1,
            k <= n,
            into@ == old(into)@ + repeat_char(unit@[0], k as nat),
        decreases n - k,
    {
        into.append(unit);
        k = k + 1;
        proof {
            assert(repeat_char(unit@[0], k as nat) =~= repeat_char(
                unit@[0],
                (k - 1) as nat,
            ) + unit@);
        }
    }
}

} // verus!
