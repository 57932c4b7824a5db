use expr_syntax::ast::{
    Binary, Decimal, Expr, ExprVisitor, Grouping, Literal, LiteralValue, Unary,
};
use expr_syntax::ast_printer::AstPrinter;
use expr_syntax::lexer::{Scanner, Token, TokenType};
use expr_syntax::parser::Parser;
use expr_syntax::rpn_ast_printer::RPNAstPrinter;

fn expression(source: &str) -> Expr {
    let mut scanner = Scanner::new(String::from(source));
    let tokens: Vec<Token> = scanner.scan_tokens().expect("scans").iter().cloned().collect();
    let mut parser = Parser::new(&tokens);
    parser.parse().expect("parses")
}

fn literal(value: LiteralValue) -> Expr {
    Expr::Literal(Literal { value })
}

fn depth(expr: &Expr) -> usize {
    match expr {
        Expr::Binary(b) => 1 + depth(&b.left).max(depth(&b.right)),
        Expr::Grouping(g) => 1 + depth(&g.expression),
        Expr::Literal(_) => 0,
        Expr::Unary(u) => 1 + depth(&u.right),
    }
}

fn nesting(text: &str) -> usize {
    let mut open: usize = 0;
    let mut deepest: usize = 0;
    for c in text.chars() {
        if c == '(' {
            open += 1;
            deepest = deepest.max(open);
        } else if c == ')' {
            open -= 1;
        }
    }
    assert_eq!(open, 0);
    deepest
}

#[test]
fn literal_prints_as_its_text() {
    for printed in [
        (literal(LiteralValue::Nil), "nil"),
        (literal(LiteralValue::Boolean(true)), "true"),
        (literal(LiteralValue::Boolean(false)), "false"),
        (literal(LiteralValue::Integer(0)), "0"),
        (literal(LiteralValue::Integer(45)), "45"),
        (literal(LiteralValue::Integer(-7)), "-7"),
        (literal(LiteralValue::Integer(i64::MAX)), "9223372036854775807"),
        (literal(LiteralValue::Integer(i64::MIN)), "-9223372036854775808"),
        (literal(LiteralValue::Float(Decimal { text: String::from("2.5") })), "2.5"),
        (literal(LiteralValue::String(String::from("a b"))), "a b"),
        (literal(LiteralValue::String(String::new())), ""),
    ] {
        assert_eq!(AstPrinter.print(&printed.0), printed.1);
        assert_eq!(RPNAstPrinter.print(&printed.0), printed.1);
        match &printed.0 {
            Expr::Literal(l) => assert_eq!(l.value.to_text(), printed.1),
            _ => unreachable!(),
        }
    }
}

#[test]
fn prefix_printer_puts_the_operator_first() {
    assert_eq!(AstPrinter.print(&expression("1 + 2")), "(+ 1 2)");
    assert_eq!(AstPrinter.print(&expression("-1")), "(- 1)");
    assert_eq!(AstPrinter.print(&expression("(1)")), "(group 1)");
    assert_eq!(
        AstPrinter.print(&expression("-123 * (45.67)")),
        "(* (- 123) (group 45.67))"
    );
    assert_eq!(AstPrinter.print(&expression("\"a\" == \"b\"")), "(== a b)");
}

#[test]
fn postfix_printer_puts_the_operator_last() {
    assert_eq!(RPNAstPrinter.print(&expression("1 + 2")), "1 2 +");
    assert_eq!(RPNAstPrinter.print(&expression("-1")), "1 -");
    assert_eq!(RPNAstPrinter.print(&expression("!true")), "true !");
    assert_eq!(RPNAstPrinter.print(&expression("(1)")), "1 group");
    assert_eq!(
        RPNAstPrinter.print(&expression("(1 + 2) * (4 - 3)")),
        "1 2 + group 4 3 - group *"
    );
    assert_eq!(RPNAstPrinter.print(&expression("1.50 <= nil")), "1.5 nil <=");
}

#[test]
fn printers_use_the_operator_text_of_the_token() {
    let expr = Expr::Binary(Binary {
        left: Box::new(literal(LiteralValue::Integer(1))),
        operator: Token::new(TokenType::Plus, String::from("plus"), None, 1),
        right: Box::new(Expr::Unary(Unary {
            operator: Token::new(TokenType::Minus, String::from("neg"), None, 1),
            right: Box::new(Expr::Grouping(Grouping {
                expression: Box::new(literal(LiteralValue::Nil)),
            })),
        })),
    });
    assert_eq!(AstPrinter.print(&expr), "(plus 1 (neg (group nil)))");
    assert_eq!(RPNAstPrinter.print(&expr), "1 nil group neg plus");
}

#[test]
fn parentheses_nest_as_deep_as_the_tree() {
    for source in [
        "1",
        "1 + 2",
        "1 + 2 * 3",
        "(1 + 2) * 3",
        "4 - 3 - 1",
        "-(-(1))",
        "1 + 2 / 4 - 2 * 45 - 2 + (55 * 12)",
        "1 ? 2 : (3, !4 == 5)",
        "\"abc\" != nil",
    ] {
        let expr = expression(source);
        assert_eq!(nesting(&AstPrinter.print(&expr)), depth(&expr));
    }
    assert_eq!(depth(&expression("1 + 2 * 3")), 2);
    assert_eq!(depth(&expression("(1 + 2) * 3")), 3);
}

#[test]
fn parenthesis_in_a_string_literal_breaks_the_nesting() {
    let expr = expression("\"(\" + 1");
    assert_eq!(AstPrinter.print(&expr), "(+ ( 1)");
    assert_eq!(depth(&expr), 1);
}

#[test]
fn accept_hands_the_node_to_its_operation() {
    let mut infix = AstPrinter;
    let mut postfix = RPNAstPrinter;
    for source in ["1", "-1", "(1)", "1 + 2", "(1 + 2) * -3"] {
        let expr = expression(source);
        assert_eq!(expr.accept(&mut infix), AstPrinter.print(&expr));
        assert_eq!(expr.accept(&mut postfix), RPNAstPrinter.print(&expr));
    }
}

struct Kinds {
    seen: Vec<&'static str>,
}

impl ExprVisitor for Kinds {
    type Output = usize;

    fn visit_binary_expr(&mut self, expr: &Binary) -> usize {
        self.seen.push("binary");
        expr.left.accept(self) + expr.right.accept(self) + 1
    }

    fn visit_grouping_expr(&mut self, expr: &Grouping) -> usize {
        self.seen.push("grouping");
        expr.expression.accept(self) + 1
    }

    fn visit_literal_expr(&mut self, _expr: &Literal) -> usize {
        self.seen.push("literal");
        1
    }

    fn visit_unary_expr(&mut self, expr: &Unary) -> usize {
        self.seen.push("unary");
        expr.right.accept(self) + 1
    }
}

#[test]
fn a_visitor_of_ones_own_walks_the_tree() {
    let mut kinds = Kinds { seen: Vec::new() };
    let nodes = expression("(1 + 2) * -3").accept(&mut kinds);
    assert_eq!(nodes, 7);
    assert_eq!(
        kinds.seen,
        vec!["binary", "grouping", "binary", "literal", "literal", "unary", "literal"]
    );
}
