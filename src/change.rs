//! Percentage changes as signed fixed-width cells.
use vstd::prelude::*;
use crate::digits::{decimal, zero_padded, pow10, lemma_decimal_len, push_decimal, push_zero_padded};
use crate::value::UNIT;

verus! {

/// Width of a change cell.
pub const CHANGE_LEN: usize = 7;

/// Below this many billionths of a percent a change shows as zero.
pub const NEAR_ZERO: u128 = 1_000_000;

/// Magnitude tier from which a change shows as a sentinel.
pub const CHANGE_TIER_LIMIT: usize = 3;

/// The absolute value of `c`.
pub open spec fn abs(c: int) -> nat {
    if c < 0 {
        (-c) as nat
    } else {
        c as nat
    }
}

/// The order of magnitude of a whole amount `w`: its number of digits less one.
pub open spec fn change_tier(w: nat) -> nat {
    (decimal(w).len() - 1) as nat
}

/// Decimal digits shown for a change of tier `t`.
pub open spec fn change_precision(t: nat) -> nat {
    (CHANGE_LEN - 4 - t) as nat
}

/// The shown decimals of a magnitude `a` at tier `t`, truncated.
pub open spec fn change_decimals(a: nat, t: nat) -> nat {
    (a % (UNIT as nat)) / pow10((9 - change_precision(t)) as nat)
}

/// The sign character of a nonzero change.
pub open spec fn sign_char(c: int) -> char {
    if c > 0 {
        '+'
    } else {
        '-'
    }
}

/// The change cell shown for a change that is effectively zero.
pub open spec fn near_zero_text() -> Seq<char> {
    seq![' ', '0', '.', '0', '0', '0', '%']
}

/// The change cell of a change of `c` billionths of a percent.
pub open spec fn change_text(c: int) -> Seq<char> {
    let a = abs(c);
    let w = a / (UNIT as nat);
    let t = change_tier(w);
    if a < NEAR_ZERO {
        near_zero_text()
    } else if t >= CHANGE_TIER_LIMIT {
        if c > 0 {
            "PUMPED!"@
        } else {
            "DUMPED!"@
        }
    } else {
        seq![sign_char(c)] + decimal(w) + seq!['.'] + zero_padded(
            change_decimals(a, t),
            change_precision(t),
        ) + seq!['%']
    }
}

/// The absolute value of `c`, which always fits in a `u128`.
fn magnitude(c: i128) -> (r: u128)
    ensures
        r == abs(c as int),
{
    if c < 0 {
        ((-(c + 1)) as u128) + 1
    } else {
        c as u128
    }
}

/// Formats a change, given in billionths of a percent, as a change cell: a
/// sign, the magnitude with as many truncated decimals as the cell width
/// leaves, and `%`; a blank sign and zero where the change is below a
/// thousandth of a percent; from a thousand percent on the sentinel `PUMPED!`
/// for a gain and `DUMPED!` for a loss.
pub fn format_change(change: i128) -> (r: String)
    ensures
        r@ == change_text(change as int),
{
    let a = magnitude(change);
    let w = a / UNIT;
    proof {
        reveal_with_fuel(pow10, 10);
        reveal_strlit(" 0.000%");
        reveal_strlit("+");
        reveal_strlit("-");
        reveal_strlit(".");
        reveal_strlit("%");
    }
    if a < NEAR_ZERO {
        proof {
            assert(" 0.000%"@ =~= near_zero_text());
        }
        return String::from_str(" 0.000%");
    }
    let t: usize;
    let divisor: u128;
    if w < 10 {
        proof {
            lemma_decimal_len(w as nat, 1);
        }
        t = 0;
        divisor = 1_000_000;
    } else if w < 100 {
        proof {
            lemma_decimal_len(w as nat, 2);
        }
        t = 1;
        divisor = 10_000_000;
    } else if w < 1000 {
        proof {
            lemma_decimal_len(w as nat, 3);
        }
        t = 2;
        divisor = 100_000_000;
    } else {
        proof {
            lemma_decimal_len(w as nat, 4);
        }
        if change > 0 {
            return String::from_str("PUMPED!");
        } else {
            return String::from_str("DUMPED!");
        }
    }
    assert(t == change_tier(w as nat));
    assert(divisor == pow10((9 - change_precision(t as nat)) as nat));
    let mut s = String::new();
    if change > 0 {
        s.append("+");
    } else {
        s.append("-");
    }
    push_decimal(&mut s, w);
    s.append(".");
    push_zero_padded(&mut s, (a % UNIT) / divisor, CHANGE_LEN - 4 - t);
    s.append("%");
    assert(s@ =~= change_text(change as int));
    s
}

/// Every change below a thousand percent either way fills the change cell
/// exactly.
pub proof fn lemma_change_width(c: int)
    requires
        abs(c) < 1000 * UNIT,
    ensures
        change_text(c).len() == CHANGE_LEN,
{
    let a = abs(c);
    let w = a / (UNIT as nat);
    reveal_with_fuel(pow10, 10);
    if a >= NEAR_ZERO {
        lemma_decimal_len(w, 3);
        let t = change_tier(w);
        let f = change_decimals(a, t);
        let x = a % (UNIT as nat);
        assert(x < 1_000_000_000);
        if w < 10 {
            lemma_decimal_len(w, 1);
            assert(t == 0);
            assert(f == x / 1_000_000);
        } else if w < 100 {
            lemma_decimal_len(w, 2);
            assert(t == 1);
            assert(f == x / 10_000_000);
        } else {
            assert(t == 2);
            assert(f == x / 100_000_000);
        }
        assert(f < pow10(change_precision(t)));
        lemma_decimal_len(f, change_precision(t));
    }
}

} // verus!
