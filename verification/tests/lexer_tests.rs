use pikelet::Token;
use pikelet::tokens;

fn token_list(source: &str) -> Vec<Token> {
    tokens(0, source)
        .into_iter()
        .map(|entry| entry.expect("expected only good tokens").1)
        .collect()
}

#[test]
fn behavior_after_error() {
    let starts_with_invalid = "@.";
    // [Err(...), Some(Token::DOT)]
    let from_lex: Vec<_> = tokens(0, starts_with_invalid);
    let result: Vec<_> = from_lex.iter().map(Result::is_ok).collect();
    assert_eq!(result, vec![false, true]);
}

#[test]
fn keywords_and_names() {
    let toks = token_list("as fun Fun record Record enum Enum frog x-ray A1");
    assert_eq!(
        toks,
        vec![
            Token::As,
            Token::FunTerm,
            Token::FunType,
            Token::RecordTerm,
            Token::RecordType,
            Token::EnumTerm,
            Token::EnumType,
            Token::Name("frog".to_string()),
            Token::Name("x-ray".to_string()),
            Token::Name("A1".to_string()),
        ],
    );
}

#[test]
fn punctuation() {
    let toks = token_list(": , => -> . = ( ) [ ] { }");
    assert_eq!(
        toks,
        vec![
            Token::Colon,
            Token::Comma,
            Token::DArrow,
            Token::Arrow,
            Token::Dot,
            Token::Equal,
            Token::LParen,
            Token::RParen,
            Token::LBrack,
            Token::RBrack,
            Token::LBrace,
            Token::RBrace,
        ],
    );
}

#[test]
fn numeric_literals() {
    let toks = token_list("0 42 -5 +3 1.25 0xff 1_000");
    assert_eq!(
        toks,
        vec![
            Token::NumericLiteral("0".to_string()),
            Token::NumericLiteral("42".to_string()),
            Token::NumericLiteral("-5".to_string()),
            Token::NumericLiteral("+3".to_string()),
            Token::NumericLiteral("1.25".to_string()),
            Token::NumericLiteral("0xff".to_string()),
            Token::NumericLiteral("1_000".to_string()),
        ],
    );
}

#[test]
fn comments_are_skipped() {
    let toks = token_list("a -- a comment\nb");
    assert_eq!(
        toks,
        vec![Token::Name("a".to_string()), Token::Name("b".to_string())],
    );
    assert_eq!(token_list("-- only a comment"), Vec::new());
}

#[test]
fn doc_comments_are_tokens() {
    let toks = token_list("||| the docs\nx");
    assert_eq!(
        toks,
        vec![
            Token::DocComment("||| the docs\n".to_string()),
            Token::Name("x".to_string()),
        ],
    );
}

#[test]
fn quoted_literals() {
    let toks = token_list("'a' '\\'' \"hi\" \"a\\\"b\"");
    assert_eq!(
        toks,
        vec![
            Token::CharLiteral("'a'".to_string()),
            Token::CharLiteral("'\\''".to_string()),
            Token::StringLiteral("\"hi\"".to_string()),
            Token::StringLiteral("\"a\\\"b\"".to_string()),
        ],
    );
}

#[test]
fn unterminated_string_is_one_error() {
    let entries = tokens(7, "\"abc");
    assert_eq!(entries.len(), 1);
    let err = entries[0].as_ref().expect_err("expected an error entry");
    assert_eq!(err.file_id, 7);
    assert_eq!(err.start, 0);
    assert_eq!(err.end, 4);
}

#[test]
fn token_ranges() {
    let entries = tokens(0, "ab =>");
    let first = entries[0].as_ref().unwrap();
    assert_eq!((first.0, first.2), (0, 2));
    let second = entries[1].as_ref().unwrap();
    assert_eq!((second.0, second.2), (3, 5));
}

#[test]
fn arrow_versus_comment_versus_number() {
    let toks = token_list("-> -1");
    assert_eq!(
        toks,
        vec![Token::Arrow, Token::NumericLiteral("-1".to_string())],
    );
    // A lone minus starts no token.
    let entries = tokens(0, "- x");
    assert!(entries[0].is_err());
    assert_eq!(entries[1].as_ref().unwrap().1, Token::Name("x".to_string()));
}

#[test]
fn doc_comment_at_end_of_input() {
    // A doc comment without a trailing newline extends to the end of the
    // input.
    let toks = token_list("||| tail");
    assert_eq!(toks, vec![Token::DocComment("||| tail".to_string())]);
}

#[test]
fn names_may_contain_interior_hyphens() {
    let toks = token_list("a--b");
    assert_eq!(toks, vec![Token::Name("a--b".to_string())]);
}

#[test]
fn escaped_backslash_in_literals() {
    let toks = token_list("'\\\\'");
    assert_eq!(toks, vec![Token::CharLiteral("'\\\\'".to_string())]);
}
