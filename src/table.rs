//! Rows and blocks of the printed tables.
use vstd::prelude::*;
use crate::digits::repeat;
use crate::value::{value_text, format_value};
use crate::change::{change_text, format_change};
use crate::name::{NAME_LEN, rank_text, name_text, upper_of, format_rank, format_name, to_upper};

verus! {

/// Spaces before each row of the top table.
pub const TOP_INDENT: usize = 3;

/// Spaces before each row of the tokens table.
pub const TOKENS_INDENT: usize = 5;

/// Spaces before each conversion line.
pub const CONVERSION_INDENT: usize = 3;

/// Significant digits aimed at in a converted amount.
pub const CONVERSION_DIGITS: i64 = 5;

/// One asset as the tables show it: its name, its price and its change over a
/// day in billionths (of the currency, and of a percent), and its market-cap
/// rank where the row shows one.
pub struct TokenRecord {
    pub name: String,
    pub price: u128,
    pub change: i128,
    pub rank: Option<u8>,
}

/// The row of an asset: an indent, the rank cell where there is a rank, then
/// the name, value and change cells, separated by single spaces.
pub open spec fn row_text(name: Seq<char>, price: nat, change: int, rank: Option<u8>) -> Seq<char> {
    let lead = match rank {
        Some(k) => repeat(' ', TOP_INDENT as nat) + rank_text(k as nat) + seq![' '],
        None => repeat(' ', TOKENS_INDENT as nat),
    };
    lead + name_text(name, Some(NAME_LEN)) + seq![' '] + value_text(price) + seq![' '] + change_text(
        change,
    )
}

/// The row of a record.
pub open spec fn record_row(r: TokenRecord) -> Seq<char> {
    row_text(r.name@, r.price as nat, r.change as int, r.rank)
}

/// The rows of a sequence of records.
pub open spec fn record_rows(rs: Seq<TokenRecord>) -> Seq<Seq<char>> {
    Seq::new(rs.len(), |i: int| record_row(rs[i]))
}

/// Lines, each followed by a line break.
pub open spec fn lines_text(rows: Seq<Seq<char>>) -> Seq<char>
    decreases rows.len(),
{
    if rows.len() == 0 {
        seq![]
    } else {
        lines_text(rows.drop_last()) + rows.last() + seq!['\n']
    }
}

/// A block of rows: an empty line, the rows, and another empty line where
/// no further block follows.
pub open spec fn block_text(rows: Seq<Seq<char>>, closing_blank: bool) -> Seq<char> {
    seq!['\n'] + lines_text(rows) + if closing_blank {
        seq!['\n']
    } else {
        seq![]
    }
}

/// The block for a single asset asked for alone: its value and change cells
/// between empty lines.
pub open spec fn quote_text(price: nat, change: int) -> Seq<char> {
    seq!['\n'] + repeat(' ', TOKENS_INDENT as nat) + value_text(price) + seq![' '] + change_text(
        change,
    ) + seq!['\n', '\n']
}

/// A conversion line: `amount FROM -> value TO`, where the currency is shown
/// upper-cased and the token as a name cell without width.
pub open spec fn conversion_text(
    amount: Seq<char>,
    token: Seq<char>,
    currency: Seq<char>,
    value: Seq<char>,
    fiat_to_token: bool,
) -> Seq<char> {
    let from = if fiat_to_token {
        upper_of(currency)
    } else {
        name_text(token, None)
    };
    let to = if fiat_to_token {
        name_text(token, None)
    } else {
        upper_of(currency)
    };
    repeat(' ', CONVERSION_INDENT as nat) + amount + seq![' '] + from + seq![' ', '-', '>', ' ']
        + value + seq![' '] + to
}

/// Appends `k` spaces to `s`.
fn push_spaces(s: &mut String, k: usize)
    ensures
        final(s)@ == old(s)@ + repeat(' ', k as nat),
{
    proof {
        reveal_strlit(" ");
    }
    crate::digits::push_repeat(s, " ", k);
}

/// Formats the row of a record.
pub fn format_row(record: &TokenRecord) -> (r: String)
    ensures
        r@ == record_row(*record),
{
    proof {
        reveal_strlit(" ");
    }
    let mut s = String::new();
    match record.rank {
        Some(k) => {
            push_spaces(&mut s, TOP_INDENT);
            let rank = format_rank(k);
            s.append(rank.as_str());
            s.append(" ");
        },
        None => {
            push_spaces(&mut s, TOKENS_INDENT);
        },
    }
    let name = format_name(record.name.as_str(), Some(NAME_LEN));
    s.append(name.as_str());
    s.append(" ");
    let value = format_value(record.price);
    s.append(value.as_str());
    s.append(" ");
    let change = format_change(record.change);
    s.append(change.as_str());
    assert(s@ =~= record_row(*record));
    s
}

/// Formats a block of rows, one for each record in order, framed by an empty
/// line before and, where `closing_blank` holds, one after.
pub fn format_table(records: &Vec<TokenRecord>, closing_blank: bool) -> (r: String)
    ensures
        r@ == block_text(record_rows(records@), closing_blank),
{
    proof {
        reveal_strlit("\n");
    }
    let mut s = String::new();
    s.append("\n");
    let mut i: usize = 0;
    while i < records.len()
        invariant
            i <= records@.len(),
            s@ == seq!['\n'] + lines_text(record_rows(records@).take(i as int)),
        decreases records@.len() - i,
    {
        let ghost before = s@;
        let row = format_row(&records[i]);
        assert(row@ == record_row(records@[i as int]));
        s.append(row.as_str());
        s.append("\n");
        proof {
            reveal_strlit("\n");
            assert(s@ =~= before + row@ + seq!['\n']);
            let rows = record_rows(records@);
            let next = rows.take(i + 1);
            assert(next.drop_last() =~= rows.take(i as int));
            assert(next.last() == record_row(records@[i as int]));
            assert(lines_text(next) == lines_text(next.drop_last()) + next.last() + seq!['\n']);
            assert(s@ =~= seq!['\n'] + lines_text(next));
        }
        i = i + 1;
    }
    assert(record_rows(records@).take(i as int) =~= record_rows(records@));
    if closing_blank {
        s.append("\n");
    }
    assert(s@ =~= block_text(record_rows(records@), closing_blank));
    s
}

/// Formats the block for a single asset asked for alone.
pub fn format_quote(price: u128, change: i128) -> (r: String)
    ensures
        r@ == quote_text(price as nat, change as int),
{
    proof {
        reveal_strlit(" ");
        reveal_strlit("\n");
        reveal_strlit("\n\n");
    }
    let mut s = String::new();
    s.append("\n");
    push_spaces(&mut s, TOKENS_INDENT);
    let value = format_value(price);
    s.append(value.as_str());
    s.append(" ");
    let change_cell = format_change(change);
    s.append(change_cell.as_str());
    s.append("\n\n");
    assert(s@ =~= quote_text(price as nat, change as int));
    s
}

/// Formats a conversion line from the amount given, the token, the currency
/// and the converted value, with the token on the side it is converted to or
/// from.
pub fn format_conversion(
    amount: &str,
    token: &str,
    currency: &str,
    value: &str,
    fiat_to_token: bool,
) -> (r: String)
    ensures
        r@ == conversion_text(amount@, token@, currency@, value@, fiat_to_token),
{
    proof {
        reveal_strlit(" ");
        reveal_strlit(" -> ");
    }
    let currency_shown = to_upper(currency);
    let token_shown = format_name(token, None);
    let mut s = String::new();
    push_spaces(&mut s, CONVERSION_INDENT);
    s.append(amount);
    s.append(" ");
    if fiat_to_token {
        s.append(currency_shown.as_str());
    } else {
        s.append(token_shown.as_str());
    }
    s.append(" -> ");
    s.append(value);
    s.append(" ");
    if fiat_to_token {
        s.append(token_shown.as_str());
    } else {
        s.append(currency_shown.as_str());
    }
    assert(s@ =~= conversion_text(amount@, token@, currency@, value@, fiat_to_token));
    s
}

/// Decimal places for a converted amount with `int_digits` digits before the
/// point (one more than the floor of its base-ten logarithm): as many as
/// bring it to five significant digits, none for five digits or more.
pub fn conversion_decimals(int_digits: i64) -> (r: u64)
    ensures
        r == if int_digits >= CONVERSION_DIGITS {
            0
        } else {
            CONVERSION_DIGITS - int_digits
        },
{
    if int_digits >= CONVERSION_DIGITS {
        0
    } else {
        (CONVERSION_DIGITS as i128 - int_digits as i128) as u64
    }
}

} // verus!
