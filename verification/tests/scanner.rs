use expr_syntax::ast::{Decimal, LiteralValue};
use expr_syntax::lexer::{LexError, Scanner, Token, TokenType};

fn tokens_of(source: &str) -> Vec<Token> {
    let mut scanner = Scanner::new(String::from(source));
    let tokens = scanner.scan_tokens().expect("the source scans");
    tokens.iter().cloned().collect()
}

fn error_of(source: &str) -> LexError {
    let mut scanner = Scanner::new(String::from(source));
    match scanner.scan_tokens() {
        Ok(tokens) => panic!("scanned to {:?}", tokens),
        Err(error) => error,
    }
}

fn kinds_of(source: &str) -> Vec<TokenType> {
    tokens_of(source).iter().map(|token| token.token_type).collect()
}

fn float(text: &str) -> Option<LiteralValue> {
    Some(LiteralValue::Float(Decimal { text: String::from(text) }))
}

#[test]
fn empty_source_is_one_end_token_on_line_one() {
    let tokens = tokens_of("");
    assert_eq!(tokens.len(), 1);
    assert_eq!(tokens[0], Token::new(TokenType::EOF, String::new(), None, 1));
}

#[test]
fn blank_source_is_one_end_token() {
    let tokens = tokens_of(" \t\r\n \n");
    assert_eq!(tokens.len(), 1);
    assert_eq!(tokens[0].token_type, TokenType::EOF);
    assert_eq!(tokens[0].line, 3);
}

#[test]
fn punctuation_maps_to_its_kind() {
    assert_eq!(
        kinds_of("(){},.-+;*?:"),
        vec![
            TokenType::LeftParen,
            TokenType::RightParen,
            TokenType::LeftBrace,
            TokenType::RightBrace,
            TokenType::Comma,
            TokenType::Dot,
            TokenType::Minus,
            TokenType::Plus,
            TokenType::Semicolon,
            TokenType::Star,
            TokenType::Question,
            TokenType::Colon,
            TokenType::EOF,
        ]
    );
}

#[test]
fn operators_take_the_equal_sign_when_it_follows() {
    assert_eq!(
        kinds_of("! != = == < <= > >="),
        vec![
            TokenType::Bang,
            TokenType::BangOrEqual,
            TokenType::Equal,
            TokenType::EqualAndEqual,
            TokenType::Less,
            TokenType::LessOrEqual,
            TokenType::Greater,
            TokenType::GreaterOrEqual,
            TokenType::EOF,
        ]
    );
    assert_eq!(
        kinds_of("==="),
        vec![TokenType::EqualAndEqual, TokenType::Equal, TokenType::EOF]
    );
    assert_eq!(kinds_of("!"), vec![TokenType::Bang, TokenType::EOF]);
    let tokens = tokens_of("<=");
    assert_eq!(tokens[0].lexeme, "<=");
}

#[test]
fn slash_alone_is_a_token() {
    assert_eq!(
        kinds_of("1 / 2"),
        vec![TokenType::Number, TokenType::Slash, TokenType::Number, TokenType::EOF]
    );
    assert_eq!(kinds_of("/"), vec![TokenType::Slash, TokenType::EOF]);
}

#[test]
fn line_comment_runs_to_the_end_of_the_line() {
    let tokens = tokens_of("1 // two three\n4");
    assert_eq!(tokens.len(), 3);
    assert_eq!(tokens[0].lexeme, "1");
    assert_eq!(tokens[0].line, 1);
    assert_eq!(tokens[1].lexeme, "4");
    assert_eq!(tokens[1].line, 2);
    assert_eq!(kinds_of("// nothing else"), vec![TokenType::EOF]);
}

#[test]
fn block_comment_is_passed_over() {
    assert_eq!(
        kinds_of("1 /* 2 * 3 / 4 */ 5"),
        vec![TokenType::Number, TokenType::Number, TokenType::EOF]
    );
    assert_eq!(kinds_of("/**/"), vec![TokenType::EOF]);
    assert_eq!(kinds_of("/***/+"), vec![TokenType::Plus, TokenType::EOF]);
}

#[test]
fn token_after_block_comment_counts_its_newlines() {
    let tokens = tokens_of("1\n/* a\nb\nc */ x");
    assert_eq!(tokens[0].line, 1);
    assert_eq!(tokens[1].token_type, TokenType::Identifier);
    assert_eq!(tokens[1].lexeme, "x");
    assert_eq!(tokens[1].line, 4);
    assert_eq!(tokens[2].token_type, TokenType::EOF);
    assert_eq!(tokens[2].line, 4);
}

#[test]
fn unterminated_block_comment_fails_where_it_opens() {
    assert_eq!(error_of("1\n /* a\nb\n"), LexError { line: 2, character: '/' });
    assert_eq!(error_of("/*/"), LexError { line: 1, character: '/' });
    assert_eq!(error_of("/* *"), LexError { line: 1, character: '/' });
}

#[test]
fn string_literal_carries_its_text_without_quotes() {
    let tokens = tokens_of("\"abc def\"");
    assert_eq!(tokens.len(), 2);
    assert_eq!(
        tokens[0],
        Token::new(
            TokenType::String,
            String::from("\"abc def\""),
            Some(LiteralValue::String(String::from("abc def"))),
            1
        )
    );
    let empty = tokens_of("\"\"");
    assert_eq!(empty[0].literal, Some(LiteralValue::String(String::new())));
}

#[test]
fn string_literal_may_span_lines() {
    let tokens = tokens_of("\"a\nb\"\n+");
    assert_eq!(tokens[0].token_type, TokenType::String);
    assert_eq!(tokens[0].literal, Some(LiteralValue::String(String::from("a\nb"))));
    assert_eq!(tokens[0].line, 2);
    assert_eq!(tokens[1].token_type, TokenType::Plus);
    assert_eq!(tokens[1].line, 3);
}

#[test]
fn string_literal_holds_any_character() {
    let tokens = tokens_of("\"caf\u{e9} \u{1F600} (x)\" 1");
    assert_eq!(
        tokens[0].literal,
        Some(LiteralValue::String(String::from("caf\u{e9} \u{1F600} (x)")))
    );
    assert_eq!(tokens[1].lexeme, "1");
}

#[test]
fn unterminated_string_fails_on_its_own_line() {
    assert_eq!(error_of("\"abc"), LexError { line: 1, character: '"' });
    assert_eq!(error_of("1\n2 \"abc"), LexError { line: 2, character: '"' });
}

#[test]
fn unterminated_string_with_newlines_fails_where_it_opens() {
    assert_eq!(error_of("1\n\"abc\ndef\n\nghi"), LexError { line: 2, character: '"' });
}

#[test]
fn whole_number_is_an_integer() {
    let tokens = tokens_of("45");
    assert_eq!(
        tokens[0],
        Token::new(TokenType::Number, String::from("45"), Some(LiteralValue::Integer(45)), 1)
    );
    assert_eq!(tokens_of("007")[0].literal, Some(LiteralValue::Integer(7)));
    assert_eq!(tokens_of("0")[0].literal, Some(LiteralValue::Integer(0)));
    assert_eq!(
        tokens_of("9223372036854775807")[0].literal,
        Some(LiteralValue::Integer(i64::MAX))
    );
}

#[test]
fn whole_number_beyond_64_bits_is_held_as_text() {
    assert_eq!(tokens_of("9223372036854775808")[0].literal, float("9223372036854775808"));
    assert_eq!(
        tokens_of("000123456789012345678901234567890")[0].literal,
        float("123456789012345678901234567890")
    );
}

#[test]
fn number_with_fraction_is_held_as_canonical_text() {
    let tokens = tokens_of("1.50");
    assert_eq!(tokens.len(), 2);
    assert_eq!(tokens[0].lexeme, "1.50");
    assert_eq!(tokens[0].literal, float("1.5"));
    assert_eq!(tokens_of("3.14159")[0].literal, float("3.14159"));
    assert_eq!(tokens_of("1.0")[0].literal, float("1"));
    assert_eq!(tokens_of("00.250")[0].literal, float("0.25"));
    assert_eq!(tokens_of("0.0")[0].literal, float("0"));
}

#[test]
fn point_without_digit_after_it_is_not_part_of_the_number() {
    let tokens = tokens_of("12.");
    assert_eq!(tokens.len(), 3);
    assert_eq!(tokens[0].lexeme, "12");
    assert_eq!(tokens[0].literal, Some(LiteralValue::Integer(12)));
    assert_eq!(tokens[1].token_type, TokenType::Dot);
    assert_eq!(
        kinds_of("1.x"),
        vec![TokenType::Number, TokenType::Dot, TokenType::Identifier, TokenType::EOF]
    );
    assert_eq!(
        kinds_of("1.2.3"),
        vec![TokenType::Number, TokenType::Dot, TokenType::Number, TokenType::EOF]
    );
    assert_eq!(
        kinds_of(".5"),
        vec![TokenType::Dot, TokenType::Number, TokenType::EOF]
    );
}

#[test]
fn keywords_are_recognised() {
    assert_eq!(
        kinds_of(
            "and class else false for fun if nil or print return super this true var while"
        ),
        vec![
            TokenType::And,
            TokenType::Class,
            TokenType::Else,
            TokenType::False,
            TokenType::For,
            TokenType::Fun,
            TokenType::If,
            TokenType::Nil,
            TokenType::Or,
            TokenType::Print,
            TokenType::Return,
            TokenType::Super,
            TokenType::This,
            TokenType::True,
            TokenType::Var,
            TokenType::While,
            TokenType::EOF,
        ]
    );
}

#[test]
fn words_that_are_no_keywords_are_identifiers() {
    let tokens = tokens_of("orchid _x1 If classy or2 o");
    assert_eq!(tokens.len(), 7);
    for token in &tokens[..6] {
        assert_eq!(token.token_type, TokenType::Identifier);
        assert_eq!(token.literal, None);
    }
    assert_eq!(tokens[0].lexeme, "orchid");
    assert_eq!(tokens[1].lexeme, "_x1");
    assert_eq!(tokens[2].lexeme, "If");
    assert_eq!(tokens[3].lexeme, "classy");
    assert_eq!(tokens[4].lexeme, "or2");
    assert_eq!(tokens[5].lexeme, "o");
}

#[test]
fn identifier_takes_the_longest_run() {
    let tokens = tokens_of("abc123+def");
    assert_eq!(tokens[0].lexeme, "abc123");
    assert_eq!(tokens[1].token_type, TokenType::Plus);
    assert_eq!(tokens[2].lexeme, "def");
    assert_eq!(
        kinds_of("12abc"),
        vec![TokenType::Number, TokenType::Identifier, TokenType::EOF]
    );
}

#[test]
fn unknown_character_fails_with_its_line() {
    assert_eq!(error_of("@"), LexError { line: 1, character: '@' });
    assert_eq!(error_of("1 +\n2 # 3"), LexError { line: 2, character: '#' });
    assert_eq!(error_of("\n\n\u{e9}"), LexError { line: 3, character: '\u{e9}' });
    assert_eq!(error_of("a & b"), LexError { line: 1, character: '&' });
}

#[test]
fn first_error_wins() {
    assert_eq!(error_of("1 @ \"abc"), LexError { line: 1, character: '@' });
    assert_eq!(error_of("\"abc\" \n /* @"), LexError { line: 2, character: '/' });
}

#[test]
fn lines_are_counted_from_one() {
    let tokens = tokens_of("a\nb\n\nc");
    assert_eq!(tokens[0].line, 1);
    assert_eq!(tokens[1].line, 2);
    assert_eq!(tokens[2].line, 4);
    assert_eq!(tokens[3].line, 4);
}

#[test]
fn scanning_twice_gives_the_same_tokens() {
    let mut scanner = Scanner::new(String::from("1 + 2"));
    let first: Vec<Token> = scanner.scan_tokens().expect("scans").iter().cloned().collect();
    let second: Vec<Token> = scanner.scan_tokens().expect("scans").iter().cloned().collect();
    assert_eq!(first, second);
    assert_eq!(first.len(), 4);
}

#[test]
fn exactly_one_end_token_closes_the_scan() {
    for source in ["", "1", "1 + 2 // c", "\"s\" /* c */ x"] {
        let tokens = tokens_of(source);
        let ends = tokens.iter().filter(|token| token.token_type == TokenType::EOF).count();
        assert_eq!(ends, 1);
        assert_eq!(tokens[tokens.len() - 1].token_type, TokenType::EOF);
        assert_eq!(tokens[tokens.len() - 1].lexeme, "");
    }
}

#[test]
fn clone_of_a_token_is_equal_to_it() {
    let token = Token::new(
        TokenType::Number,
        String::from("2.50"),
        Some(LiteralValue::Float(Decimal { text: String::from("2.5") })),
        7,
    );
    assert_eq!(token.clone(), token);
}
