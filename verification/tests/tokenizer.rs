use shell::{parse_command, ShellError, MAX_ARGS, MAX_CMD_LENGTH};

fn words(line: &str) -> Vec<String> {
    parse_command(line).expect("the line should tokenize")
}

#[test]
fn limits_have_their_values() {
    assert_eq!(MAX_CMD_LENGTH, 1000);
    assert_eq!(MAX_ARGS, 100);
}

#[test]
fn empty_line_has_no_words() {
    assert_eq!(parse_command(""), Ok(Vec::<String>::new()));
}

#[test]
fn line_of_spaces_has_no_words() {
    assert_eq!(parse_command("     "), Ok(Vec::<String>::new()));
}

#[test]
fn unquoted_spaces_collapse() {
    assert_eq!(words("  a   b  "), vec!["a", "b"]);
}

#[test]
fn single_quotes_keep_spaces_and_are_dropped() {
    assert_eq!(words("'a b' c"), vec!["a b", "c"]);
}

#[test]
fn double_quotes_keep_spaces_and_are_dropped() {
    assert_eq!(words("echo \"hello   world\" !"), vec!["echo", "hello   world", "!"]);
}

#[test]
fn quote_of_the_other_kind_is_literal() {
    assert_eq!(words("\"it's\" 'say \"hi\"'"), vec!["it's", "say \"hi\""]);
}

#[test]
fn quoted_pieces_join_their_neighbours() {
    assert_eq!(words("a\"b c\"d'e f'"), vec!["ab cde f"]);
}

#[test]
fn empty_quotes_give_no_word() {
    assert_eq!(parse_command("''"), Ok(Vec::<String>::new()));
    assert_eq!(words("a '' \"\" b"), vec!["a", "b"]);
    assert_eq!(words("a''b"), vec!["ab"]);
}

#[test]
fn only_the_space_separates() {
    assert_eq!(words("a\tb\nc d"), vec!["a\tb\nc", "d"]);
}

#[test]
fn unterminated_double_quote_is_rejected() {
    assert_eq!(parse_command("a \"b"), Err(ShellError::MismatchedQuotes));
}

#[test]
fn unterminated_single_quote_is_rejected() {
    assert_eq!(parse_command("'a b"), Err(ShellError::MismatchedQuotes));
    assert_eq!(parse_command("a \"b' c"), Err(ShellError::MismatchedQuotes));
}

#[test]
fn line_of_1001_characters_is_too_long() {
    let line = "x".repeat(1001);
    assert_eq!(parse_command(&line), Err(ShellError::CommandLineTooLong));
}

#[test]
fn length_is_judged_before_anything_else() {
    let open_quote = format!("'{}", "x".repeat(1000));
    assert_eq!(parse_command(&open_quote), Err(ShellError::CommandLineTooLong));
    let many_words = "a ".repeat(501);
    assert_eq!(many_words.chars().count(), 1002);
    assert_eq!(parse_command(&many_words), Err(ShellError::CommandLineTooLong));
}

#[test]
fn line_of_1000_characters_is_accepted() {
    let line = "x".repeat(1000);
    assert_eq!(words(&line), vec![line.clone()]);
}

#[test]
fn length_counts_characters() {
    let line = "\u{e9}".repeat(1000);
    assert_eq!(line.len(), 2000);
    assert_eq!(words(&line), vec![line.clone()]);
    let longer = "\u{e9}".repeat(1001);
    assert_eq!(parse_command(&longer), Err(ShellError::CommandLineTooLong));
}

#[test]
fn a_101st_word_is_one_too_many() {
    let line: Vec<String> = (0..101).map(|i| format!("w{}", i)).collect();
    assert_eq!(parse_command(&line.join(" ")), Err(ShellError::TooManyArgs));
}

#[test]
fn a_hundred_words_are_accepted() {
    let line: Vec<String> = (0..100).map(|i| format!("w{}", i)).collect();
    assert_eq!(words(&line.join(" ")), line);
}

#[test]
fn open_quote_is_judged_before_the_word_count() {
    let mut line = "a ".repeat(150);
    line.push('\'');
    assert_eq!(parse_command(&line), Err(ShellError::MismatchedQuotes));
}

#[test]
fn no_word_is_empty() {
    for line in ["a  b", " '' x \"\" ", "''''", "\" \"", "a'b'\"\" ''"] {
        for word in words(line) {
            assert!(!word.is_empty());
        }
    }
}

#[test]
fn plain_words_survive_joining_and_tokenizing() {
    for line in ["  ls   -l  /tmp ", "'echo' \"a\"b c", "", "x", "git commit -m 'msg'"] {
        let first = words(line);
        let again = words(&first.join(" "));
        assert_eq!(again, first);
    }
}

#[test]
fn quoted_space_does_not_survive_joining() {
    let first = words("'a b'");
    assert_eq!(first, vec!["a b"]);
    assert_eq!(words(&first.join(" ")), vec!["a", "b"]);
}

#[test]
fn literal_quote_does_not_survive_joining() {
    let first = words("\"it's\"");
    assert_eq!(first, vec!["it's"]);
    assert_eq!(parse_command(&first.join(" ")), Err(ShellError::MismatchedQuotes));
    let second = words("'\"a\"'");
    assert_eq!(second, vec!["\"a\""]);
    assert_eq!(words(&second.join(" ")), vec!["a"]);
}
