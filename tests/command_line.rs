use coinfmt::cli::{parse_args, ArgErrorKind, Command};

fn args(a: &[&str]) -> Vec<String> {
    a.iter().map(|s| s.to_string()).collect()
}

fn error_of(a: &[&str]) -> (ArgErrorKind, String) {
    match parse_args(&args(a)) {
        Err(e) => (e.kind, e.arg),
        Ok(_) => panic!("expected an error for {:?}", a),
    }
}

#[test]
fn help_alone_exits_zero() {
    assert!(matches!(parse_args(&args(&["-h"])), Ok(Command::Help { exit_code: 0 })));
    assert!(matches!(parse_args(&args(&["--help"])), Ok(Command::Help { exit_code: 0 })));
}

#[test]
fn help_with_others_or_no_arguments_exits_one() {
    assert!(matches!(parse_args(&args(&[])), Ok(Command::Help { exit_code: 1 })));
    assert!(matches!(parse_args(&args(&["bitcoin", "-h"])), Ok(Command::Help { exit_code: 1 })));
}

#[test]
fn tokens_conversions_and_options() {
    match parse_args(&args(&["bitcoin", "100:ethereum", "-c", "eur", "--top", "+010"])) {
        Ok(Command::Run(inv)) => {
            assert_eq!(inv.currency, "eur");
            assert_eq!(inv.top, 10);
            assert_eq!(inv.tokens, vec!["bitcoin".to_string()]);
            assert_eq!(inv.conversions, vec!["100:ethereum".to_string()]);
        }
        _ => panic!("expected an invocation"),
    }
}

#[test]
fn default_currency_is_usd() {
    match parse_args(&args(&["bitcoin"])) {
        Ok(Command::Run(inv)) => {
            assert_eq!(inv.currency, "usd");
            assert_eq!(inv.top, 0);
        }
        _ => panic!("expected an invocation"),
    }
}

#[test]
fn option_errors() {
    assert_eq!(error_of(&["-c", "-t", "5"]), (ArgErrorKind::MissingValue, "-c".to_string()));
    assert_eq!(error_of(&["bitcoin", "--top"]), (ArgErrorKind::MissingValueAtEnd, "-t".to_string()));
    assert_eq!(error_of(&["bitcoin", ""]), (ArgErrorKind::EmptyOption, "".to_string()));
    assert_eq!(error_of(&["-x"]), (ArgErrorKind::UnrecognizedOption, "-x".to_string()));
    assert_eq!(error_of(&["-t", "ten"]), (ArgErrorKind::InvalidTop, "ten".to_string()));
    assert_eq!(error_of(&["-t", "70000"]), (ArgErrorKind::InvalidTop, "70000".to_string()));
    assert_eq!(error_of(&["-t", "251"]), (ArgErrorKind::TopTooLarge, "251".to_string()));
    assert_eq!(error_of(&["-c", "eur"]), (ArgErrorKind::NoTokens, "".to_string()));
    assert_eq!(error_of(&["-t", "0"]), (ArgErrorKind::NoTokens, "".to_string()));
}

#[test]
fn top_limit_accepted() {
    assert!(matches!(parse_args(&args(&["-t", "250"])), Ok(Command::Run(inv)) if inv.top == 250));
}
