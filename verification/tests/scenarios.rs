use expr_syntax::ast::Expr;
use expr_syntax::ast_printer::AstPrinter;
use expr_syntax::lexer::{Scanner, Token, TokenType};
use expr_syntax::parser::Parser;
use expr_syntax::rpn_ast_printer::RPNAstPrinter;

fn scan(source: &str) -> Vec<Token> {
    let mut scanner = Scanner::new(String::from(source));
    let tokens = scanner.scan_tokens().expect("the source scans");
    tokens.iter().cloned().collect()
}

fn parse(source: &str) -> Expr {
    let tokens = scan(source);
    let mut parser = Parser::new(&tokens);
    parser.parse().expect("the tokens parse")
}

fn rpn(source: &str) -> String {
    RPNAstPrinter.print(&parse(source))
}

fn infix(source: &str) -> String {
    AstPrinter.print(&parse(source))
}

#[test]
fn multiplication_binds_tighter_than_addition() {
    assert_eq!(infix("1 + 2 * 3"), "(+ 1 (* 2 3))");
    assert_eq!(rpn("1 + 2 * 3"), "1 2 3 * +");
}

#[test]
fn subtraction_associates_to_the_left() {
    assert_eq!(infix("4 - 3 - 1"), "(- (- 4 3) 1)");
    assert_eq!(rpn("4 - 3 - 1"), "4 3 - 1 -");
}

#[test]
fn grouping_forces_precedence() {
    assert_eq!(infix("(1 + 2) * 3"), "(* (group (+ 1 2)) 3)");
    assert_eq!(rpn("(1 + 2) * 3"), "1 2 + group 3 *");
}

#[test]
fn long_expression_scans_and_parses() {
    let source = "1 + 2 / 4 - 2 * 45 - 2 + (55 * 12)";
    let tokens = scan(source);
    assert_eq!(tokens.len(), 18);
    assert_eq!(tokens[17].token_type, TokenType::EOF);
    assert_eq!(rpn(source), "1 2 4 / + 2 45 * - 2 - 55 12 * group +");
}
