use q_shell::language::{ShellIr, ShellLanguage, SimpleShellLanguage};

#[test]
fn preserves_quoted_and_escaped_arguments() {
    assert_eq!(
        SimpleShellLanguage.parse("echo \"hello world\" a\\ b").unwrap(),
        ShellIr::Command {
            program: "echo".into(),
            arguments: vec!["hello world".into(), "a b".into()],
        }
    );
}

#[test]
fn empty_line_and_invalid_quote_are_distinct() {
    assert_eq!(SimpleShellLanguage.parse(" \t\n").unwrap(), ShellIr::Empty);
    assert!(SimpleShellLanguage.parse("echo '").is_err());
}

#[test]
fn unmatched_quote_error_names_the_quote() {
    let error = SimpleShellLanguage.parse("echo \"open").unwrap_err();
    assert_eq!(error.message(), "unmatched quote");
}

#[test]
fn trailing_backslash_is_an_error() {
    assert!(SimpleShellLanguage.parse("echo \\").is_err());
}

#[test]
fn shell_operators_are_ordinary_arguments() {
    assert_eq!(
        SimpleShellLanguage.parse("cat a | wc > out ; ls").unwrap(),
        ShellIr::Command {
            program: "cat".into(),
            arguments: vec!["a".into(), "|".into(), "wc".into(), ">".into(), "out".into(), ";".into(), "ls".into()],
        }
    );
}

#[test]
fn single_word_is_a_command_without_arguments() {
    assert_eq!(
        SimpleShellLanguage.parse("  ls\n").unwrap(),
        ShellIr::Command { program: "ls".into(), arguments: vec![] }
    );
}

#[test]
fn from_words_splits_program_and_arguments() {
    assert_eq!(ShellIr::from_words(vec![]), ShellIr::Empty);
    assert_eq!(
        ShellIr::from_words(vec!["a".into(), "b".into()]),
        ShellIr::Command { program: "a".into(), arguments: vec!["b".into()] }
    );
    assert!(ShellIr::from_split(None).is_err());
}

#[test]
fn plain_words_split_on_blanks() {
    assert_eq!(
        SimpleShellLanguage.parse("cat  a\tb\n").unwrap(),
        ShellIr::Command { program: "cat".into(), arguments: vec!["a".into(), "b".into()] }
    );
}
