//! Prices as fixed-width cells: magnitude suffixes, two decimals, and an
//! overflow sentinel.
use vstd::prelude::*;
use crate::digits::{
    decimal, zero_padded, pad_to, pow10, lemma_decimal_len, push_decimal, push_zero_padded,
    pad_in_place,
};
use vstd::arithmetic::div_mod::{lemma_fundamental_div_mod, lemma_fundamental_div_mod_converse};

verus! {

/// One whole unit of a price or of a percentage, counted in billionths:
/// amounts are handed to the formatters as whole numbers of billionths.
pub const UNIT: u128 = 1_000_000_000;

/// Width of a value cell.
pub const VALUE_LEN: usize = 7;

/// Number of magnitude suffixes, the unsuffixed one included.
pub const SUFFIX_COUNT: usize = 5;

/// Billionths in one unit of the last decimal place shown for a price below one.
pub const SUB_UNIT_STEP: u128 = 10_000;

/// Steps of `SUB_UNIT_STEP` in one whole unit.
pub const SUB_UNIT_STEPS: u128 = 100_000;

/// Decimal digits shown for a price below one.
pub const SUB_UNIT_DECIMALS: usize = 5;

/// The magnitude tier of a whole amount `w`: how many times a thousand can be
/// taken out of it.
pub open spec fn tier(w: nat) -> nat
    decreases w,
{
    if w < 1000 {
        0
    } else {
        1 + tier(w / 1000)
    }
}

/// A thousand to the power `t`.
pub open spec fn thousands(t: nat) -> nat
    decreases t,
{
    if t == 0 {
        1
    } else {
        1000 * thousands((t - 1) as nat)
    }
}

/// The suffix of magnitude tier `t`: none for units, then thousands,
/// millions, billions and trillions.
pub open spec fn suffix(t: nat) -> Seq<char> {
    if t == 0 {
        seq![]
    } else if t == 1 {
        seq!['K']
    } else if t == 2 {
        seq!['M']
    } else if t == 3 {
        seq!['B']
    } else {
        seq!['T']
    }
}

/// A price below one, rounded half up to whole steps of the fifth decimal place.
pub open spec fn sub_unit_steps(p: nat) -> nat {
    (p + (SUB_UNIT_STEP / 2) as nat) / (SUB_UNIT_STEP as nat)
}

/// A price below one with five decimals, such as `0.00500`.
pub open spec fn sub_unit_text(p: nat) -> Seq<char> {
    let q = sub_unit_steps(p);
    decimal(q / (SUB_UNIT_STEPS as nat)) + seq!['.'] + zero_padded(
        q % (SUB_UNIT_STEPS as nat),
        SUB_UNIT_DECIMALS as nat,
    )
}

/// The tier of a price of at least one.
pub open spec fn price_tier(p: nat) -> nat {
    tier(p / (UNIT as nat))
}

/// Billionths in one unit of the price's own tier.
pub open spec fn tier_unit(p: nat) -> nat {
    thousands(price_tier(p)) * (UNIT as nat)
}

/// The whole part of a price in units of its tier.
pub open spec fn scaled_whole(p: nat) -> nat {
    p / tier_unit(p)
}

/// The fraction of a price in units of its tier, in hundredths, rounded half
/// up: from 0 to 100.
pub open spec fn scaled_hundredths(p: nat) -> nat {
    (200 * (p % tier_unit(p)) + tier_unit(p)) / (2 * tier_unit(p))
}

/// A price of at least one in units of its tier, such as `1.50K`.
pub open spec fn scaled_text(p: nat) -> Seq<char> {
    decimal(scaled_whole(p)) + seq!['.'] + zero_padded(scaled_hundredths(p), 2) + suffix(
        price_tier(p),
    )
}

/// The value cell of a price of `p` billionths.
pub open spec fn value_text(p: nat) -> Seq<char> {
    if p < UNIT {
        sub_unit_text(p)
    } else if price_tier(p) >= SUFFIX_COUNT {
        "PUMPED!"@
    } else {
        pad_to(scaled_text(p), VALUE_LEN as nat)
    }
}

/// The suffix text of tier `t`.
fn suffix_str(t: usize) -> (r: &'static str)
    requires
        t < SUFFIX_COUNT,
    ensures
        r@ == suffix(t as nat),
{
    proof {
        reveal_strlit("");
        reveal_strlit("K");
        reveal_strlit("M");
        reveal_strlit("B");
        reveal_strlit("T");
    }
    if t == 0 {
        proof {
            assert(""@ =~= suffix(0));
        }
        ""
    } else if t == 1 {
        "K"
    } else if t == 2 {
        "M"
    } else if t == 3 {
        "B"
    } else {
        "T"
    }
}

/// The tier of a whole amount `w` and a thousand to its power, or `None`
/// where the tier has no suffix.
fn tier_of(w: u128) -> (r: Option<(usize, u128)>)
    ensures
        match r {
            Some((t, scale)) => {
                &&& t == tier(w as nat)
                &&& t < SUFFIX_COUNT
                &&& scale == thousands(t as nat)
                &&& 1 <= scale <= 1_000_000_000_000
            },
            None => tier(w as nat) >= SUFFIX_COUNT,
        },
{
    proof {
        reveal_with_fuel(tier, 6);
        reveal_with_fuel(thousands, 5);
    }
    if w < 1000 {
        Some((0, 1))
    } else if w < 1_000_000 {
        Some((1, 1000))
    } else if w < 1_000_000_000 {
        Some((2, 1_000_000))
    } else if w < 1_000_000_000_000 {
        Some((3, 1_000_000_000))
    } else if w < 1_000_000_000_000_000 {
        Some((4, 1_000_000_000_000))
    } else {
        None
    }
}

/// Formats a price, given in billionths, as a value cell: below one with five
/// decimals; from one on as a whole part, two decimals rounded half up and a
/// magnitude suffix, padded to the cell width; from a thousand trillion on
/// the sentinel `PUMPED!`.
pub fn format_value(price: u128) -> (r: String)
    ensures
        r@ == value_text(price as nat),
{
    if price < UNIT {
        let q = (price + SUB_UNIT_STEP / 2) / SUB_UNIT_STEP;
        let mut s = String::new();
        push_decimal(&mut s, q / SUB_UNIT_STEPS);
        s.append(".");
        push_zero_padded(&mut s, q % SUB_UNIT_STEPS, SUB_UNIT_DECIMALS);
        proof {
            reveal_strlit(".");
            assert(s@ =~= sub_unit_text(price as nat));
        }
        return s;
    }
    let w = price / UNIT;
    match tier_of(w) {
        None => String::from_str("PUMPED!"),
        Some((t, scale)) => {
            let unit = scale * UNIT;
            let left = w / scale;
            let right = (200 * (price % unit) + unit) / (2 * unit);
            proof {
                assert(left == price / unit) by {
                    vstd::arithmetic::div_mod::lemma_div_denominator(
                        price as int,
                        UNIT as int,
                        scale as int,
                    );
                }
            }
            let mut s = String::new();
            push_decimal(&mut s, left);
            s.append(".");
            push_zero_padded(&mut s, right, 2);
            s.append(suffix_str(t));
            proof {
                reveal_strlit(".");
                assert(s@ =~= scaled_text(price as nat));
            }
            pad_in_place(&mut s, VALUE_LEN);
            s
        },
    }
}

/// Whether rounding the fraction of `p` carries into the hundreds, so that
/// the hundredths read `100`, while the whole part already has three digits
/// and a suffix follows: the one case where the scaled text outgrows the cell.
pub open spec fn overfills_cell(p: nat) -> bool {
    &&& scaled_hundredths(p) == 100
    &&& scaled_whole(p) >= 100
    &&& price_tier(p) >= 1
}

/// The tier of a whole amount with a suffix lies between a thousand to its
/// power and a thousand times that.
pub proof fn lemma_tier_bounds(w: nat)
    requires
        tier(w) < SUFFIX_COUNT,
    ensures
        w < 1000 * thousands(tier(w)),
        tier(w) > 0 ==> thousands(tier(w)) <= w,
        1 <= thousands(tier(w)) <= 1_000_000_000_000,
{
    reveal_with_fuel(tier, 6);
    reveal_with_fuel(thousands, 5);
}

/// A whole amount between a thousand to the power `t` and a thousand times
/// that has tier `t`.
pub proof fn lemma_tier_of_range(w: nat, t: nat)
    requires
        t < SUFFIX_COUNT,
        t == 0 || thousands(t) <= w,
        w < 1000 * thousands(t),
    ensures
        tier(w) == t,
{
    reveal_with_fuel(tier, 6);
    reveal_with_fuel(thousands, 5);
}

/// The whole part of a price from one up to a thousand trillion lies between
/// 1 and 999, and its rounded hundredths between 0 and 100.
pub proof fn lemma_scaled_parts(p: nat)
    requires
        p >= UNIT,
        price_tier(p) < SUFFIX_COUNT,
    ensures
        1 <= scaled_whole(p) < 1000,
        scaled_hundredths(p) <= 100,
        tier_unit(p) == thousands(price_tier(p)) * UNIT,
        thousands(price_tier(p)) >= 1,
{
    let w = p / (UNIT as nat);
    let th = thousands(price_tier(p));
    let s = tier_unit(p);
    lemma_tier_bounds(w);
    vstd::arithmetic::div_mod::lemma_div_denominator(p as int, UNIT as int, th as int);
    assert(scaled_whole(p) == w / th);
    assert(w / th < 1000) by (nonlinear_arith)
        requires
            w < 1000 * th,
            th >= 1,
    ;
    assert(w / th >= 1) by (nonlinear_arith)
        requires
            w >= th,
            th >= 1,
    ;
    let x = p % s;
    assert(0 <= x < s) by (nonlinear_arith)
        requires
            s >= 1,
            x == p % s,
    ;
    assert((200 * x + s) / (2 * s) <= 100) by (nonlinear_arith)
        requires
            0 <= x < s,
            s >= 1,
    ;
}

/// Every price from one up to a thousand trillion fills the value cell
/// exactly, except where rounding the fraction carries into the hundreds
/// while a three-digit whole part and a suffix already fill it.
pub proof fn lemma_value_width(p: nat)
    requires
        UNIT <= p,
        p < 1_000_000_000_000_000 * UNIT,
        !overfills_cell(p),
    ensures
        value_text(p).len() == VALUE_LEN,
{
    let w = p / (UNIT as nat);
    assert(w < 1_000_000_000_000_000);
    assert(price_tier(p) < SUFFIX_COUNT) by {
        reveal_with_fuel(tier, 6);
    }
    lemma_scaled_parts(p);
    reveal_with_fuel(pow10, 4);
    lemma_decimal_len(scaled_whole(p), 3);
    let h = scaled_hundredths(p);
    if h < 100 {
        lemma_decimal_len(h, 2);
    } else {
        lemma_decimal_len(h, 3);
    }
    if scaled_whole(p) < 100 {
        lemma_decimal_len(scaled_whole(p), 2);
    }
    assert(scaled_text(p).len() <= VALUE_LEN);
}

/// The number a price's value cell shows, read back as a price in
/// billionths: the sub-unit steps for a price below one, else the whole part
/// and hundredths in units of the price's tier.
pub open spec fn shown_price(p: nat) -> nat {
    if p < UNIT {
        sub_unit_steps(p) * (SUB_UNIT_STEP as nat)
    } else {
        (scaled_whole(p) * 100 + scaled_hundredths(p)) * (tier_unit(p) / 100)
    }
}

/// Reading back the number that a value cell shows and formatting it again
/// gives the same cell, for every price below a thousand trillion whose
/// rounding does not carry into the next whole unit.
pub proof fn lemma_value_reformat(p: nat)
    requires
        p < 1_000_000_000_000_000 * UNIT,
        p < UNIT ==> sub_unit_steps(p) < SUB_UNIT_STEPS,
        p >= UNIT ==> scaled_hundredths(p) < 100,
    ensures
        value_text(shown_price(p)) == value_text(p),
{
    let q = shown_price(p);
    if p < UNIT {
        let k = sub_unit_steps(p);
        assert(q < UNIT);
        assert(sub_unit_steps(q) == k) by (nonlinear_arith)
            requires
                q == k * 10_000,
                sub_unit_steps(q) == (q + 5000) / 10_000,
        ;
    } else {
        let w = p / (UNIT as nat);
        assert(w < 1_000_000_000_000_000);
        assert(price_tier(p) < SUFFIX_COUNT) by {
            reveal_with_fuel(tier, 6);
        }
        lemma_scaled_parts(p);
        let t = price_tier(p);
        let th = thousands(t);
        let s = tier_unit(p);
        let n = scaled_whole(p);
        let h = scaled_hundredths(p);
        let s100 = th * 10_000_000;
        assert(s / 100 == s100);
        let r = h * s100;
        assert(q == n * s + r) by (nonlinear_arith)
            requires
                q == (n * 100 + h) * s100,
                s == th * 1_000_000_000,
                s100 == th * 10_000_000,
                r == h * s100,
        ;
        assert(0 <= r < s) by (nonlinear_arith)
            requires
                h < 100,
                th >= 1,
                r == h * s100,
                s == th * 1_000_000_000,
                s100 == th * 10_000_000,
        ;
        // The shown price has the same tier as the price itself.
        let wq = q / (UNIT as nat);
        lemma_fundamental_div_mod(q as int, UNIT as int);
        assert(n * th <= wq < 1000 * th) by (nonlinear_arith)
            requires
                q == n * s + r,
                0 <= r < s,
                s == th * 1_000_000_000,
                q == 1_000_000_000 * wq + q % 1_000_000_000,
                0 <= q % 1_000_000_000 < 1_000_000_000,
                1 <= n < 1000,
                th >= 1,
        ;
        assert(th <= wq) by (nonlinear_arith)
            requires
                n * th <= wq,
                n >= 1,
                th >= 1,
        ;
        lemma_tier_of_range(wq, t);
        assert(price_tier(q) == t);
        assert(q >= UNIT);
        assert(tier_unit(q) == s);
        // Its whole part and hundredths are those shown.
        lemma_fundamental_div_mod_converse(q as int, s as int, n as int, r as int);
        assert(scaled_whole(q) == n);
        assert(q % s == r);
        assert(200 * r + s == h * (2 * s) + s) by (nonlinear_arith)
            requires
                r == h * s100,
                s == th * 1_000_000_000,
                s100 == th * 10_000_000,
        ;
        lemma_fundamental_div_mod_converse(
            (200 * r + s) as int,
            (2 * s) as int,
            h as int,
            s as int,
        );
        assert(scaled_hundredths(q) == h);
    }
}

} // verus!
