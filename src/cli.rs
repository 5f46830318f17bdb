//! The command line: options, tokens and conversions.
use vstd::prelude::*;

verus! {

/// The most entries the top table can hold.
pub const TOP_LIMIT: u16 = 250;

/// An option that takes a value.
#[derive(PartialEq, Eq, Structural, Clone, Copy, Debug)]
pub enum Flag {
    Currency,
    Top,
}

/// What is wrong with a command line.
#[derive(PartialEq, Eq, Structural, Clone, Copy, Debug)]
pub enum ArgErrorKind {
    /// An option that takes a value is followed by another such option.
    MissingValue,
    /// The command line ends with an option that takes a value.
    MissingValueAtEnd,
    /// An empty argument.
    EmptyOption,
    /// An argument starting with `-` that is no known option.
    UnrecognizedOption,
    /// The value of the top option is no number that fits.
    InvalidTop,
    /// The value of the top option is above the limit.
    TopTooLarge,
    /// Neither tokens, conversions nor a top table were asked for.
    NoTokens,
}

/// An error with the argument it concerns: the option's short form for a
/// missing value, nothing for a command line without tokens, else the
/// argument itself.
pub struct ArgError {
    pub kind: ArgErrorKind,
    pub arg: String,
}

/// What a valid command line asks for.
pub struct Invocation {
    pub currency: String,
    pub top: u16,
    pub conversions: Vec<String>,
    pub tokens: Vec<String>,
}

/// What to do.
pub enum Command {
    /// Show the help text and exit with this code.
    Help { exit_code: i32 },
    Run(Invocation),
}

/// The state of reading a command line from the left.
pub struct ParseModel {
    pub currency: Seq<char>,
    pub top: u16,
    pub conversions: Seq<Seq<char>>,
    pub tokens: Seq<Seq<char>>,
    pub seek: Option<Flag>,
}

/// The text of an option in the short form.
pub open spec fn flag_text(f: Flag) -> Seq<char> {
    match f {
        Flag::Currency => "-c"@,
        Flag::Top => "-t"@,
    }
}

/// The option that an argument names, if any.
pub open spec fn flag_of(a: Seq<char>) -> Option<Flag> {
    if a == "-c"@ || a == "--currency"@ {
        Some(Flag::Currency)
    } else if a == "-t"@ || a == "--top"@ {
        Some(Flag::Top)
    } else {
        None
    }
}

/// Whether the help option is among the arguments.
pub open spec fn help_requested(args: Seq<Seq<char>>) -> bool {
    exists|i: int| 0 <= i < args.len() && (#[trigger] args[i] == "-h"@ || args[i] == "--help"@)
}

/// Whether `s` holds only decimal digits, at least one.
pub open spec fn is_digits(s: Seq<char>) -> bool {
    s.len() > 0 && forall|i: int| 0 <= i < s.len() ==> '0' <= #[trigger] s[i] <= '9'
}

/// The number that decimal digits stand for.
pub open spec fn digits_value(s: Seq<char>) -> nat
    decreases s.len(),
{
    if s.len() == 0 {
        0
    } else {
        digits_value(s.drop_last()) * 10 + ((s.last() as int) - ('0' as int)) as nat
    }
}

/// A text read as a `u16`: an optional `+` and decimal digits whose value
/// fits.
pub open spec fn u16_of(s: Seq<char>) -> Option<u16> {
    let d = if s.len() > 0 && s[0] == '+' {
        s.skip(1)
    } else {
        s
    };
    if is_digits(d) && digits_value(d) <= u16::MAX {
        Some(digits_value(d) as u16)
    } else {
        None
    }
}

/// The state before any argument is read: the currency is `usd`.
pub open spec fn initial_model() -> ParseModel {
    ParseModel {
        currency: "usd"@,
        top: 0,
        conversions: seq![],
        tokens: seq![],
        seek: None,
    }
}

/// Reads one argument.
pub open spec fn step(s: ParseModel, a: Seq<char>) -> Result<ParseModel, (ArgErrorKind, Seq<char>)> {
    match flag_of(a) {
        Some(f) => match s.seek {
            Some(g) => Err((ArgErrorKind::MissingValue, flag_text(g))),
            None => Ok(ParseModel { seek: Some(f), ..s }),
        },
        None => match s.seek {
            None => if a.len() == 0 {
                Err((ArgErrorKind::EmptyOption, a))
            } else if a[0] == '-' {
                Err((ArgErrorKind::UnrecognizedOption, a))
            } else if a.contains(':') {
                Ok(ParseModel { conversions: s.conversions.push(a), ..s })
            } else {
                Ok(ParseModel { tokens: s.tokens.push(a), ..s })
            },
            Some(Flag::Currency) => Ok(ParseModel { currency: a, seek: None, ..s }),
            Some(Flag::Top) => match u16_of(a) {
                None => Err((ArgErrorKind::InvalidTop, a)),
                Some(n) => if n > TOP_LIMIT {
                    Err((ArgErrorKind::TopTooLarge, a))
                } else {
                    Ok(ParseModel { top: n, seek: None, ..s })
                },
            },
        },
    }
}

/// Reads the arguments from the left, stopping at the first error.
pub open spec fn read_all(args: Seq<Seq<char>>) -> Result<ParseModel, (ArgErrorKind, Seq<char>)>
    decreases args.len(),
{
    if args.len() == 0 {
        Ok(initial_model())
    } else {
        match read_all(args.drop_last()) {
            Err(e) => Err(e),
            Ok(s) => step(s, args.last()),
        }
    }
}

/// The outcome of a command line without the help option: the state after
/// all arguments, unless an option still waits for its value or nothing is
/// asked for.
pub open spec fn parse_outcome(args: Seq<Seq<char>>) -> Result<ParseModel, (ArgErrorKind, Seq<char>)> {
    match read_all(args) {
        Err(e) => Err(e),
        Ok(s) => match s.seek {
            Some(f) => Err((ArgErrorKind::MissingValueAtEnd, flag_text(f))),
            None => if s.conversions.len() == 0 && s.tokens.len() == 0 && s.top == 0 {
                Err((ArgErrorKind::NoTokens, seq![]))
            } else {
                Ok(s)
            },
        },
    }
}

/// The texts of a vector of strings.
pub open spec fn texts(v: Seq<String>) -> Seq<Seq<char>> {
    v.map_values(|s: String| s@)
}

/// The state that an invocation stands for.
pub open spec fn invocation_model(inv: Invocation) -> ParseModel {
    ParseModel {
        currency: inv.currency@,
        top: inv.top,
        conversions: texts(inv.conversions@),
        tokens: texts(inv.tokens@),
        seek: None,
    }
}

/// Relies on `u16::from_str`: an optional `+` followed by decimal digits,
/// whose value must fit in a `u16`.
#[verifier::external_body]
fn parse_u16(s: &str) -> (r: Option<u16>)
    ensures
        r == u16_of(s@),
{
    s.parse::<u16>().ok()
}

/// Whether two texts are equal.
fn same_text(a: &str, b: &str) -> (r: bool)
    ensures
        r == (a@ == b@),
{
    let n = a.unicode_len();
    if n != b.unicode_len() {
        return false;
    }
    let mut i: usize = 0;
    while i < n
        invariant
            i <= n,
            n == a@.len(),
            n == b@.len(),
            forall|j: int| 0 <= j < i ==> a@[j] == b@[j],
        decreases n - i,
    {
        if a.get_char(i) != b.get_char(i) {
            return false;
        }
        i = i + 1;
    }
    assert(a@ =~= b@);
    true
}

/// Whether the text holds the character `c`.
fn holds_char(a: &str, c: char) -> (r: bool)
    ensures
        r == a@.contains(c),
{
    let n = a.unicode_len();
    let mut i: usize = 0;
    while i < n
        invariant
            i <= n,
            n == a@.len(),
            forall|j: int| 0 <= j < i ==> a@[j] != c,
        decreases n - i,
    {
        if a.get_char(i) == c {
            return true;
        }
        i = i + 1;
    }
    false
}

/// The option that an argument names, if any.
fn flag_named(a: &str) -> (r: Option<Flag>)
    ensures
        r == flag_of(a@),
{
    if same_text(a, "-c") || same_text(a, "--currency") {
        Some(Flag::Currency)
    } else if same_text(a, "-t") || same_text(a, "--top") {
        Some(Flag::Top)
    } else {
        None
    }
}

/// The short form of an option.
fn flag_string(f: Flag) -> (r: String)
    ensures
        r@ == flag_text(f),
{
    match f {
        Flag::Currency => String::from_str("-c"),
        Flag::Top => String::from_str("-t"),
    }
}

/// Whether the help option is among the arguments.
fn asks_help(args: &Vec<String>) -> (r: bool)
    ensures
        r == help_requested(texts(args@)),
{
    let mut i: usize = 0;
    while i < args.len()
        invariant
            i <= args@.len(),
            forall|j: int|
                0 <= j < i ==> !(#[trigger] texts(args@)[j] == "-h"@ || texts(args@)[j]
                    == "--help"@),
        decreases args@.len() - i,
    {
        if same_text(args[i].as_str(), "-h") || same_text(args[i].as_str(), "--help") {
            assert(texts(args@)[i as int] == args@[i as int]@);
            return true;
        }
        i = i + 1;
    }
    false
}

/// An error that stops reading stays the outcome of every longer prefix.
proof fn lemma_error_stays(args: Seq<Seq<char>>, i: int, j: int)
    requires
        0 <= i <= j <= args.len(),
        read_all(args.take(i)) is Err,
    ensures
        read_all(args.take(j)) == read_all(args.take(i)),
    decreases j - i,
{
    if j > i {
        lemma_error_stays(args, i, j - 1);
        assert(args.take(j).drop_last() =~= args.take(j - 1));
    }
}

/// Reads a command line: the help request where the help option is given or
/// there are no arguments, else the invocation it asks for or the first
/// error met reading it from the left.
pub fn parse_args(args: &Vec<String>) -> (r: Result<Command, ArgError>)
    ensures
        args@.len() == 0 || help_requested(texts(args@)) ==> (r matches Ok(
            Command::Help { exit_code },
        ) && exit_code == (if args@.len() == 1 {
            0i32
        } else {
            1i32
        })),
        !(args@.len() == 0 || help_requested(texts(args@))) ==> match parse_outcome(texts(args@)) {
            Ok(m) => (r matches Ok(Command::Run(inv)) && invocation_model(inv) == m),
            Err((kind, arg)) => (r matches Err(e) && e.kind == kind && e.arg@ == arg),
        },
{
    if args.len() == 0 || asks_help(args) {
        return Ok(Command::Help { exit_code: if args.len() == 1 { 0 } else { 1 } });
    }
    let ghost all = texts(args@);
    let mut currency = String::from_str("usd");
    let mut top: u16 = 0;
    let mut conversions: Vec<String> = Vec::new();
    let mut tokens: Vec<String> = Vec::new();
    let mut seek: Option<Flag> = None;
    let mut i: usize = 0;
    proof {
        assert(all.take(0) =~= Seq::<Seq<char>>::empty());
        assert(texts(conversions@) =~= Seq::<Seq<char>>::empty());
        assert(texts(tokens@) =~= Seq::<Seq<char>>::empty());
    }
    while i < args.len()
        invariant
            i <= args@.len(),
            all == texts(args@),
            !(args@.len() == 0 || help_requested(all)),
            read_all(all.take(i as int)) == Ok::<ParseModel, (ArgErrorKind, Seq<char>)>(
                ParseModel {
                    currency: currency@,
                    top,
                    conversions: texts(conversions@),
                    tokens: texts(tokens@),
                    seek,
                },
            ),
        decreases args@.len() - i,
    {
        let arg = &args[i];
        let ghost before = ParseModel {
            currency: currency@,
            top,
            conversions: texts(conversions@),
            tokens: texts(tokens@),
            seek,
        };
        let ghost a = arg@;
        proof {
            assert(all.take(i + 1).drop_last() =~= all.take(i as int));
            assert(all.take(i + 1).last() == a);
            assert(read_all(all.take(i + 1)) == step(before, a));
        }
        let mut failure: Option<ArgError> = None;
        match flag_named(arg.as_str()) {
            Some(f) => match seek {
                Some(g) => {
                    failure = Some(ArgError { kind: ArgErrorKind::MissingValue, arg: flag_string(g) });
                },
                None => {
                    seek = Some(f);
                },
            },
            None => match seek {
                None => {
                    if arg.as_str().unicode_len() == 0 {
                        failure = Some(ArgError { kind: ArgErrorKind::EmptyOption, arg: arg.clone() });
                    } else if arg.as_str().get_char(0) == '-' {
                        failure = Some(
                            ArgError { kind: ArgErrorKind::UnrecognizedOption, arg: arg.clone() },
                        );
                    } else if holds_char(arg.as_str(), ':') {
                        conversions.push(arg.clone());
                        proof {
                            assert(texts(conversions@) =~= before.conversions.push(a));
                        }
                    } else {
                        tokens.push(arg.clone());
                        proof {
                            assert(texts(tokens@) =~= before.tokens.push(a));
                        }
                    }
                },
                Some(Flag::Currency) => {
                    currency = arg.clone();
                    seek = None;
                },
                Some(Flag::Top) => match parse_u16(arg.as_str()) {
                    None => {
                        failure = Some(ArgError { kind: ArgErrorKind::InvalidTop, arg: arg.clone() });
                    },
                    Some(n) => {
                        if n > TOP_LIMIT {
                            failure = Some(
                                ArgError { kind: ArgErrorKind::TopTooLarge, arg: arg.clone() },
                            );
                        } else {
                            top = n;
                            seek = None;
                        }
                    },
                },
            },
        }
        match failure {
            Some(e) => {
                proof {
                    lemma_error_stays(all, i + 1, all.len() as int);
                    assert(all.take(all.len() as int) =~= all);
                }
                return Err(e);
            },
            None => {},
        }
        i = i + 1;
    }
    proof {
        assert(all.take(i as int) =~= all);
    }
    match seek {
        Some(f) => {
            return Err(ArgError { kind: ArgErrorKind::MissingValueAtEnd, arg: flag_string(f) });
        },
        None => {},
    }
    if conversions.len() == 0 && tokens.len() == 0 && top == 0 {
        return Err(ArgError { kind: ArgErrorKind::NoTokens, arg: String::new() });
    }
    Ok(Command::Run(Invocation { currency, top, conversions, tokens }))
}

} // verus!
