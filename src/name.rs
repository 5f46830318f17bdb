//! Rank and name cells.
use vstd::prelude::*;
use crate::digits::{decimal, pad_to, pow10, lemma_decimal_len, push_decimal, pad_in_place};

verus! {

/// Width of a rank cell.
pub const RANK_LEN: usize = 3;

/// Width of a name cell in the tables.
pub const NAME_LEN: usize = 8;

/// What `str::to_uppercase` gives for a text.
pub uninterp spec fn upper_of(s: Seq<char>) -> Seq<char>;

/// What `str::to_lowercase` gives for a text.
pub uninterp spec fn lower_of(s: Seq<char>) -> Seq<char>;

/// Whether a character has the Unicode `Uppercase` property.
pub uninterp spec fn is_upper(c: char) -> bool;

/// Relies on `str::to_uppercase`: the upper-case mapping of each character,
/// which depends on the text alone.
#[verifier::external_body]
pub(crate) fn to_upper(s: &str) -> (r: String)
    ensures
        r@ == upper_of(s@),
{
    s.to_uppercase()
}

/// Relies on `str::to_lowercase`: the lower-case mapping of each character,
/// which depends on the text alone.
#[verifier::external_body]
fn to_lower(s: &str) -> (r: String)
    ensures
        r@ == lower_of(s@),
{
    s.to_lowercase()
}

/// Relies on `char::is_uppercase`: whether the character has the Unicode
/// `Uppercase` property.
#[verifier::external_body]
fn char_is_upper(c: char) -> (r: bool)
    ensures
        r == is_upper(c),
{
    c.is_uppercase()
}

/// Whether the text holds an upper-case character.
pub open spec fn has_upper(s: Seq<char>) -> bool {
    exists|i: int| 0 <= i < s.len() && is_upper(#[trigger] s[i])
}

/// A name as shown: unchanged where it already holds an upper-case
/// character, else with its first character upper-cased and the rest
/// lower-cased.
pub open spec fn cased_name(s: Seq<char>) -> Seq<char> {
    if has_upper(s) {
        s
    } else {
        let k = if s.len() == 0 {
            0
        } else {
            1int
        };
        upper_of(s.take(k)) + lower_of(s.skip(k))
    }
}

/// The name cell of `s`: the cased name as it is without a width; with a
/// width, cut to one character less than the width and marked with `-`
/// where it is longer, else padded with spaces to the width.
pub open spec fn name_text(s: Seq<char>, max_len: Option<usize>) -> Seq<char> {
    let cased = cased_name(s);
    match max_len {
        None => cased,
        Some(m) => if cased.len() > m {
            cased.take(m - 1).push('-')
        } else {
            pad_to(cased, m as nat)
        },
    }
}

/// The rank cell of `rank`: its digits padded with spaces to the rank width.
pub open spec fn rank_text(rank: nat) -> Seq<char> {
    pad_to(decimal(rank), RANK_LEN as nat)
}

/// Formats a market-cap rank as its digits followed by spaces up to three
/// characters.
pub fn format_rank(rank: u8) -> (r: String)
    ensures
        r@ == rank_text(rank as nat),
        r@.len() == RANK_LEN,
{
    proof {
        reveal_with_fuel(pow10, 4);
        lemma_decimal_len(rank as nat, 3);
    }
    let mut s = String::new();
    push_decimal(&mut s, rank as u128);
    assert(s@ =~= decimal(rank as nat));
    pad_in_place(&mut s, RANK_LEN);
    s
}

/// Whether `name` holds an upper-case character.
fn holds_upper(name: &str) -> (r: bool)
    ensures
        r == has_upper(name@),
{
    let n = name.unicode_len();
    let mut i: usize = 0;
    while i < n
        invariant
            i <= n,
            n == name@.len(),
            forall|j: int| 0 <= j < i ==> !is_upper(#[trigger] name@[j]),
        decreases n - i,
    {
        if char_is_upper(name.get_char(i)) {
            return true;
        }
        i = i + 1;
    }
    false
}

/// Formats an asset name: a name without upper-case characters is
/// title-cased, others are kept as they are; with a width, a longer name is
/// cut to one character less than the width and marked with `-`, a shorter
/// one padded with spaces to the width.
pub fn format_name(name: &str, max_len: Option<usize>) -> (r: String)
    requires
        max_len != Some(0usize),
    ensures
        r@ == name_text(name@, max_len),
        max_len matches Some(m) ==> r@.len() == m,
{
    let cased = if holds_upper(name) {
        String::from_str(name)
    } else {
        let n = name.unicode_len();
        let first = if n == 0 { 0 } else { 1 };
        let head = to_upper(name.substring_char(0, first));
        let tail = to_lower(name.substring_char(first, n));
        proof {
            assert(name@.subrange(0, first as int) =~= name@.take(first as int));
            assert(name@.subrange(first as int, n as int) =~= name@.skip(first as int));
        }
        head.concat(tail.as_str())
    };
    assert(cased@ == cased_name(name@));
    match max_len {
        None => cased,
        Some(m) => {
            let len = cased.as_str().unicode_len();
            if len > m {
                let mut s = String::from_str(cased.as_str().substring_char(0, m - 1));
                s.append("-");
                proof {
                    reveal_strlit("-");
                    assert(s@ =~= cased@.take(m - 1).push('-'));
                }
                s
            } else {
                let mut s = cased;
                pad_in_place(&mut s, m);
                s
            }
        },
    }
}

} // verus!
