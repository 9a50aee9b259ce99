use context_pilot::classify::{check_shell_operators, parse_shell_args, CommandClass};

#[test]
fn plain_arguments_split_on_whitespace() {
    let args = parse_shell_args("status --short   -b").unwrap();
    assert_eq!(args, vec!["status", "--short", "-b"]);
}

#[test]
fn single_quotes_keep_spaces() {
    let args = parse_shell_args("commit -m 'a message with spaces'").unwrap();
    assert_eq!(args, vec!["commit", "-m", "a message with spaces"]);
}

#[test]
fn double_quotes_keep_spaces_and_single_quotes() {
    let args = parse_shell_args("log \"it's fine\"").unwrap();
    assert_eq!(args, vec!["log", "it's fine"]);
}

#[test]
fn empty_command_gives_no_arguments() {
    let args = parse_shell_args("").unwrap();
    assert!(args.is_empty());
}

#[test]
fn unterminated_single_quote_is_rejected() {
    let err = parse_shell_args("echo 'oops").unwrap_err();
    assert_eq!(err, "Unterminated single quote");
}

#[test]
fn unterminated_double_quote_is_rejected() {
    let err = parse_shell_args("echo \"oops").unwrap_err();
    assert_eq!(err, "Unterminated double quote");
}

#[test]
fn clean_commands_pass_operator_check() {
    assert!(check_shell_operators("git status --short").is_ok());
    assert!(check_shell_operators("").is_ok());
}

#[test]
fn pipe_is_rejected() {
    let err = check_shell_operators("ls | wc").unwrap_err();
    assert_eq!(err, "Shell operator '|' is not allowed");
}

#[test]
fn semicolon_and_redirects_are_rejected() {
    assert_eq!(
        check_shell_operators("a; b").unwrap_err(),
        "Shell operator ';' is not allowed",
    );
    assert_eq!(
        check_shell_operators("a > f").unwrap_err(),
        "Shell operator '>' is not allowed",
    );
    assert_eq!(
        check_shell_operators("a < f").unwrap_err(),
        "Shell operator '<' is not allowed",
    );
    assert_eq!(
        check_shell_operators("a `b`").unwrap_err(),
        "Shell operator '`' is not allowed",
    );
}

#[test]
fn command_substitution_is_rejected() {
    assert_eq!(
        check_shell_operators("echo $(whoami)").unwrap_err(),
        "Shell operator '$(' is not allowed",
    );
}

#[test]
fn double_ampersand_is_rejected() {
    assert_eq!(
        check_shell_operators("a && b").unwrap_err(),
        "Shell operator '&&' is not allowed",
    );
}

#[test]
fn newline_outside_quotes_is_rejected() {
    assert_eq!(
        check_shell_operators("a\nb").unwrap_err(),
        "Newlines are not allowed outside of quoted strings",
    );
}

#[test]
fn operators_inside_quotes_are_fine() {
    assert!(check_shell_operators("echo 'a | b; c'").is_ok());
    assert!(check_shell_operators("echo \"x > y\"").is_ok());
    assert!(check_shell_operators("echo 'line\nbreak'").is_ok());
}

#[test]
fn dollar_without_paren_is_fine() {
    assert!(check_shell_operators("echo $HOME").is_ok());
    assert!(check_shell_operators("echo a$").is_ok());
}

#[test]
fn any_unicode_whitespace_splits_arguments() {
    let args = parse_shell_args("a\u{a0}b").unwrap();
    assert_eq!(args, vec!["a", "b"]);
    let args = parse_shell_args("x\u{3000}y\u{2009}z").unwrap();
    assert_eq!(args, vec!["x", "y", "z"]);
    let args = parse_shell_args("'kept\u{a0}together'").unwrap();
    assert_eq!(args, vec!["kept\u{a0}together"]);
}

#[test]
fn command_class_compares() {
    assert_eq!(CommandClass::ReadOnly, CommandClass::ReadOnly);
    assert_ne!(CommandClass::ReadOnly, CommandClass::Mutating);
}
