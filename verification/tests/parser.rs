use expr_syntax::ast::{Binary, Decimal, Expr, Grouping, Literal, LiteralValue, Unary};
use expr_syntax::ast_printer::AstPrinter;
use expr_syntax::lexer::{Scanner, Token, TokenType};
use expr_syntax::parser::{ParseError, Parser};

fn scanned(source: &str) -> Vec<Token> {
    let mut scanner = Scanner::new(String::from(source));
    let tokens = scanner.scan_tokens().expect("the source scans");
    tokens.iter().cloned().collect()
}

fn parsed(source: &str) -> Result<Expr, ParseError> {
    let tokens = scanned(source);
    let mut parser = Parser::new(&tokens);
    parser.parse()
}

fn tree(source: &str) -> Expr {
    parsed(source).expect("the tokens parse")
}

fn shape(source: &str) -> String {
    AstPrinter.print(&tree(source))
}

fn failure(source: &str) -> ParseError {
    match parsed(source) {
        Ok(expr) => panic!("parsed to {:?}", expr),
        Err(error) => error,
    }
}

fn token(token_type: TokenType, lexeme: &str) -> Token {
    Token::new(token_type, String::from(lexeme), None, 1)
}

fn integer(n: i64) -> Expr {
    Expr::Literal(Literal { value: LiteralValue::Integer(n) })
}

fn number_token(n: i64) -> Token {
    Token::new(TokenType::Number, n.to_string(), Some(LiteralValue::Integer(n)), 1)
}

fn binary(left: Expr, operator: Token, right: Expr) -> Expr {
    Expr::Binary(Binary { left: Box::new(left), operator, right: Box::new(right) })
}

#[test]
fn addition_of_a_product_nests_the_product() {
    let expected = binary(
        integer(1),
        token(TokenType::Plus, "+"),
        binary(integer(2), token(TokenType::Star, "*"), integer(3)),
    );
    assert_eq!(tree("1 + 2 * 3"), expected);
    let wrong = binary(
        binary(integer(1), token(TokenType::Plus, "+"), integer(2)),
        token(TokenType::Star, "*"),
        integer(3),
    );
    assert_ne!(tree("1 + 2 * 3"), wrong);
}

#[test]
fn chain_of_subtractions_leans_left() {
    let expected = binary(
        binary(integer(4), token(TokenType::Minus, "-"), integer(3)),
        token(TokenType::Minus, "-"),
        integer(1),
    );
    assert_eq!(tree("4 - 3 - 1"), expected);
}

#[test]
fn parenthesised_sum_is_a_grouping() {
    let sum = binary(integer(1), token(TokenType::Plus, "+"), integer(2));
    let expected = binary(
        Expr::Grouping(Grouping { expression: Box::new(sum) }),
        token(TokenType::Star, "*"),
        integer(3),
    );
    assert_eq!(tree("(1 + 2) * 3"), expected);
}

#[test]
fn every_level_binds_tighter_than_the_one_before() {
    assert_eq!(
        shape("1 , 2 ? 3 == 4 < 5 + 6 * -7"),
        "(, 1 (? 2 (== 3 (< 4 (+ 5 (* 6 (- 7)))))))"
    );
    assert_eq!(shape("1 * 2 + 3 < 4 == 5"), "(== (< (+ (* 1 2) 3) 4) 5)");
}

#[test]
fn operators_of_one_level_lean_left() {
    assert_eq!(shape("1 * 2 / 3 * 4"), "(* (/ (* 1 2) 3) 4)");
    assert_eq!(shape("1 + 2 - 3 + 4"), "(+ (- (+ 1 2) 3) 4)");
    assert_eq!(shape("1 < 2 <= 3 > 4 >= 5"), "(>= (> (<= (< 1 2) 3) 4) 5)");
    assert_eq!(shape("1 == 2 != 3"), "(!= (== 1 2) 3)");
    assert_eq!(shape("1, 2, 3"), "(, (, 1 2) 3)");
}

#[test]
fn operand_after_question_mark_is_a_whole_expression() {
    assert_eq!(shape("1 ? 2 : 3"), "(? 1 (: 2 3))");
    assert_eq!(shape("1 ? 2 , 3"), "(? 1 (, 2 3))");
    assert_eq!(shape("1 , 2 ? 3"), "(, 1 (? 2 3))");
}

#[test]
fn prefix_operators_nest_to_the_right() {
    assert_eq!(shape("!!true"), "(! (! true))");
    assert_eq!(shape("- - 1"), "(- (- 1))");
    assert_eq!(shape("-1 - -2"), "(- (- 1) (- 2))");
    let expected = Expr::Unary(Unary {
        operator: token(TokenType::Bang, "!"),
        right: Box::new(Expr::Literal(Literal { value: LiteralValue::Boolean(false) })),
    });
    assert_eq!(tree("!false"), expected);
}

#[test]
fn literals_parse_to_their_values() {
    assert_eq!(tree("12"), integer(12));
    assert_eq!(
        tree("1.50"),
        Expr::Literal(Literal {
            value: LiteralValue::Float(Decimal { text: String::from("1.5") })
        })
    );
    assert_eq!(
        tree("\"hi\""),
        Expr::Literal(Literal { value: LiteralValue::String(String::from("hi")) })
    );
    assert_eq!(tree("true"), Expr::Literal(Literal { value: LiteralValue::Boolean(true) }));
    assert_eq!(tree("false"), Expr::Literal(Literal { value: LiteralValue::Boolean(false) }));
    assert_eq!(tree("nil"), Expr::Literal(Literal { value: LiteralValue::Nil }));
}

#[test]
fn groupings_nest() {
    assert_eq!(shape("((1))"), "(group (group 1))");
    assert_eq!(shape("(1, 2)"), "(group (, 1 2))");
    assert_eq!(shape("2 * (3 + (4 - 5))"), "(* 2 (group (+ 3 (group (- 4 5)))))");
}

#[test]
fn parse_stops_after_the_expression() {
    let tokens = scanned("1 2");
    let mut parser = Parser::new(&tokens);
    assert_eq!(parser.parse(), Ok(integer(1)));
    assert_eq!(parser.parse(), Ok(integer(2)));
    let error = parser.parse().expect_err("nothing is left");
    assert_eq!(error.token.token_type, TokenType::EOF);
}

#[test]
fn empty_input_is_no_expression() {
    let tokens = scanned("");
    assert_eq!(tokens.len(), 1);
    let mut parser = Parser::new(&tokens);
    let error = parser.parse().expect_err("there is no expression");
    assert_eq!(error.message, "Expect expression.");
    assert_eq!(error.token, Token::new(TokenType::EOF, String::new(), None, 1));
}

#[test]
fn token_that_begins_no_expression_fails() {
    let error = failure("1 + * 2");
    assert_eq!(error.message, "Expect expression.");
    assert_eq!(error.token, token(TokenType::Star, "*"));
    let error = failure(")");
    assert_eq!(error.token.token_type, TokenType::RightParen);
    let error = failure("\n\n1 +\n foo");
    assert_eq!(error.message, "Expect expression.");
    assert_eq!(error.token.token_type, TokenType::Identifier);
    assert_eq!(error.token.line, 4);
}

#[test]
fn operator_without_right_operand_fails_at_the_end() {
    let error = failure("1 +");
    assert_eq!(error.message, "Expect expression.");
    assert_eq!(error.token.token_type, TokenType::EOF);
    let error = failure("-");
    assert_eq!(error.token.token_type, TokenType::EOF);
}

#[test]
fn missing_right_parenthesis_fails_at_the_token_found() {
    let error = failure("(1 + 2");
    assert_eq!(error.message, "Expect ')' after expression.");
    assert_eq!(error.token.token_type, TokenType::EOF);
    let error = failure("(1 + 2 3)");
    assert_eq!(error.message, "Expect ')' after expression.");
    assert_eq!(error.token.lexeme, "3");
    let error = failure("(1\n+ 2\n;");
    assert_eq!(error.token.token_type, TokenType::Semicolon);
    assert_eq!(error.token.line, 3);
}

#[test]
fn number_token_without_a_number_fails() {
    let tokens = vec![token(TokenType::Number, "12"), token(TokenType::EOF, "")];
    let mut parser = Parser::new(&tokens);
    let error = parser.parse().expect_err("the token carries no value");
    assert_eq!(error.message, "Expected number literal");
    assert_eq!(error.token, token(TokenType::Number, "12"));

    let wrong = Token::new(
        TokenType::Number,
        String::from("12"),
        Some(LiteralValue::String(String::from("12"))),
        1,
    );
    let tokens = vec![wrong.clone(), token(TokenType::EOF, "")];
    let mut parser = Parser::new(&tokens);
    let error = parser.parse().expect_err("the token carries a string");
    assert_eq!(error.message, "Expected number literal");
    assert_eq!(error.token, wrong);
}

#[test]
fn string_token_without_a_string_fails() {
    let tokens = vec![token(TokenType::String, "\"a\""), token(TokenType::EOF, "")];
    let mut parser = Parser::new(&tokens);
    let error = parser.parse().expect_err("the token carries no value");
    assert_eq!(error.message, "Expected string literal");
    assert_eq!(error.token, token(TokenType::String, "\"a\""));

    let wrong = Token::new(
        TokenType::String,
        String::from("\"a\""),
        Some(LiteralValue::Integer(1)),
        1,
    );
    let tokens = vec![
        number_token(1),
        token(TokenType::Plus, "+"),
        wrong.clone(),
        token(TokenType::EOF, ""),
    ];
    let mut parser = Parser::new(&tokens);
    let error = parser.parse().expect_err("the token carries a number");
    assert_eq!(error.message, "Expected string literal");
    assert_eq!(error.token, wrong);
}

#[test]
fn first_failure_ends_the_parse() {
    let error = failure("(1 + ) * (");
    assert_eq!(error.message, "Expect expression.");
    assert_eq!(error.token.token_type, TokenType::RightParen);
}

#[test]
fn tokens_built_by_hand_parse_like_scanned_ones() {
    let tokens = vec![
        number_token(1),
        token(TokenType::Plus, "+"),
        number_token(2),
        token(TokenType::Star, "*"),
        number_token(3),
        token(TokenType::EOF, ""),
    ];
    let mut parser = Parser::new(&tokens);
    assert_eq!(parser.parse(), Ok(tree("1 + 2 * 3")));
}

#[test]
fn end_token_in_the_middle_ends_the_input() {
    let tokens = vec![
        number_token(1),
        token(TokenType::EOF, ""),
        token(TokenType::Plus, "+"),
        number_token(2),
        token(TokenType::EOF, ""),
    ];
    let mut parser = Parser::new(&tokens);
    assert_eq!(parser.parse(), Ok(integer(1)));
    let error = parser.parse().expect_err("the cursor stays on the end token");
    assert_eq!(error.token.token_type, TokenType::EOF);
}

#[test]
fn error_report_names_line_place_and_message() {
    let star = Token::new(TokenType::Star, String::from("*"), None, 12);
    assert_eq!(
        Parser::report_error(&star, "Expect expression."),
        "[line 12] Error at '*': Expect expression."
    );
    let end = Token::new(TokenType::EOF, String::new(), None, 3);
    assert_eq!(
        Parser::report_error(&end, "Expect ')' after expression."),
        "[line 3] Error at end: Expect ')' after expression."
    );
    let error = failure("1 +\n2 + )");
    assert_eq!(
        Parser::report_error(&error.token, &error.message),
        "[line 2] Error at ')': Expect expression."
    );
}
