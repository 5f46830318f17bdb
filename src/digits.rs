//! Decimal rendering of natural numbers, and padding with repeated characters.
use vstd::prelude::*;

verus! {

/// The decimal digit character for `d`, which is below ten.
pub open spec fn digit_char(d: nat) -> char {
    if d == 0 {
        '0'
    } else if d == 1 {
        '1'
    } else if d == 2 {
        '2'
    } else if d == 3 {
        '3'
    } else if d == 4 {
        '4'
    } else if d == 5 {
        '5'
    } else if d == 6 {
        '6'
    } else if d == 7 {
        '7'
    } else if d == 8 {
        '8'
    } else {
        '9'
    }
}

/// The decimal representation of `n`, without leading zeros.
pub open spec fn decimal(n: nat) -> Seq<char>
    decreases n,
{
    if n < 10 {
        seq![digit_char(n)]
    } else {
        decimal(n / 10).push(digit_char(n % 10))
    }
}

/// `k` copies of the character `c`.
pub open spec fn repeat(c: char, k: nat) -> Seq<char> {
    Seq::new(k, |_i: int| c)
}

/// `s` followed by as many spaces as it takes to reach `width` characters;
/// `s` itself when it is already that long.
pub open spec fn pad_to(s: Seq<char>, width: nat) -> Seq<char> {
    if s.len() < width {
        s + repeat(' ', (width - s.len()) as nat)
    } else {
        s
    }
}

/// The decimal representation of `n`, with leading zeros up to `width` digits.
pub open spec fn zero_padded(n: nat, width: nat) -> Seq<char> {
    if decimal(n).len() < width {
        repeat('0', (width - decimal(n).len()) as nat) + decimal(n)
    } else {
        decimal(n)
    }
}

/// Ten to the power `k`.
pub open spec fn pow10(k: nat) -> nat
    decreases k,
{
    if k == 0 {
        1
    } else {
        10 * pow10((k - 1) as nat)
    }
}

/// A number below `10^k` (with `k` at least one) has at most `k` digits, and one of at least
/// `10^(k-1)` has at least `k`.
pub proof fn lemma_decimal_len(n: nat, k: nat)
    ensures
        1 <= decimal(n).len(),
        k >= 1 && n < pow10(k) ==> decimal(n).len() <= k,
        k >= 1 && n >= pow10((k - 1) as nat) ==> decimal(n).len() >= k,
    decreases n,
{
    if n >= 10 {
        if k >= 1 {
            lemma_decimal_len(n / 10, (k - 1) as nat);
            assert(n < pow10(k) ==> n / 10 < pow10((k - 1) as nat));
            if k >= 2 {
                assert(n >= pow10((k - 1) as nat) ==> n / 10 >= pow10((k - 2) as nat));
            }
        } else {
            lemma_decimal_len(n / 10, 0);
        }
    } else {
        if k >= 2 {
            lemma_pow10_ge(((k - 1) as nat));
        }
    }
}

/// Powers of ten from `10^1` on are at least ten.
pub proof fn lemma_pow10_ge(k: nat)
    requires
        k >= 1,
    ensures
        pow10(k) >= 10,
    decreases k,
{
    if k > 1 {
        lemma_pow10_ge((k - 1) as nat);
    } else {
        assert(pow10(0) == 1);
    }
}

/// The one-character text of the digit `d`.
fn digit_str(d: u128) -> (r: &'static str)
    requires
        d < 10,
    ensures
        r@ == seq![digit_char(d as nat)],
{
    proof {
        reveal_strlit("0");
        reveal_strlit("1");
        reveal_strlit("2");
        reveal_strlit("3");
        reveal_strlit("4");
        reveal_strlit("5");
        reveal_strlit("6");
        reveal_strlit("7");
        reveal_strlit("8");
        reveal_strlit("9");
    }
    if d == 0 {
        "0"
    } else if d == 1 {
        "1"
    } else if d == 2 {
        "2"
    } else if d == 3 {
        "3"
    } else if d == 4 {
        "4"
    } else if d == 5 {
        "5"
    } else if d == 6 {
        "6"
    } else if d == 7 {
        "7"
    } else if d == 8 {
        "8"
    } else {
        "9"
    }
}

/// Appends the decimal representation of `n` to `s`.
pub fn push_decimal(s: &mut String, n: u128)
    ensures
        final(s)@ == old(s)@ + decimal(n as nat),
    decreases n,
{
    if n >= 10 {
        push_decimal(s, n / 10);
    }
    s.append(digit_str(n % 10));
    proof {
        assert(decimal(n as nat) == if n < 10 {
            seq![digit_char(n as nat)]
        } else {
            decimal((n / 10) as nat).push(digit_char((n % 10) as nat))
        });
        assert(final(s)@ =~= old(s)@ + decimal(n as nat));
    }
}

/// Appends `k` copies of the one-character text `c` to `s`.
pub fn push_repeat(s: &mut String, c: &str, k: usize)
    requires
        c@.len() == 1,
    ensures
        final(s)@ == old(s)@ + repeat(c@[0], k as nat),
{
    let mut i: usize = 0;
    while i < k
        invariant
            i <= k,
            c@.len() == 1,
            s@ == old(s)@ + repeat(c@[0], i as nat),
        decreases k - i,
    {
        s.append(c);
        i = i + 1;
        assert(s@ =~= old(s)@ + repeat(c@[0], i as nat));
    }
}

/// Appends `n` with leading zeros up to `width` digits to `s`.
pub fn push_zero_padded(s: &mut String, n: u128, width: usize)
    ensures
        final(s)@ == old(s)@ + zero_padded(n as nat, width as nat),
{
    let mut digits = String::new();
    push_decimal(&mut digits, n);
    let len = digits.as_str().unicode_len();
    proof {
        reveal_strlit("0");
        assert(digits@ =~= decimal(n as nat));
    }
    if len < width {
        push_repeat(s, "0", width - len);
    }
    s.append(digits.as_str());
    assert(final(s)@ =~= old(s)@ + zero_padded(n as nat, width as nat));
}

/// Appends spaces to `s` until it is `width` characters long.
pub fn pad_in_place(s: &mut String, width: usize)
    ensures
        final(s)@ == pad_to(old(s)@, width as nat),
{
    let len = s.as_str().unicode_len();
    proof {
        reveal_strlit(" ");
    }
    if len < width {
        push_repeat(s, " ", width - len);
    }
}

} // verus!
