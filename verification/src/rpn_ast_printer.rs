//! The postfix printer: operands first, then the operator, no parentheses.

use vstd::prelude::*;
use vstd::string::*;

use crate::ast::{literal_text, Binary, Expr, ExprView, ExprVisitor, Grouping, Literal, Unary};

verus! {

/// The text of `expr` in reverse Polish notation: `left right op` for a
/// binary operation, `operand op` for a prefix operation, `inner group` for
/// a parenthesised expression, and a literal as its text.
pub open spec fn rpn_text(expr: ExprView) -> Seq<char>
    decreases expr,
{
    match expr {
        ExprView::Binary { left, operator, right } => rpn_text(*left) + " "@ + rpn_text(*right)
            + " "@ + operator.lexeme,
        ExprView::Grouping { expression } => rpn_text(*expression) + " "@ + "group"@,
        ExprView::Literal { value } => literal_text(value),
        ExprView::Unary { operator, right } => rpn_text(*right) + " "@ + operator.lexeme,
    }
}

/// Prints expressions in reverse Polish notation.
pub struct RPNAstPrinter;

impl RPNAstPrinter {
    /// The text of `expr`.
    pub fn print(&mut self, expr: &Expr) -> (text: String)
        ensures
            text@ == rpn_text(expr@),
        decreases expr, 1nat,
    {
        match expr {
            Expr::Binary(expr) => self.binary(expr),
            Expr::Grouping(expr) => self.grouping(expr),
            Expr::Literal(expr) => self.literal(expr),
            Expr::Unary(expr) => self.unary(expr),
        }
    }

    fn binary(&mut self, expr: &Binary) -> (text: String)
        ensures
            text@ == rpn_text(Expr::Binary(*expr)@),
        decreases expr, 0nat,
    {
        let mut text = self.print(&expr.left);
        text.append(" ");
        let right = self.print(&expr.right);
        text.append(right.as_str());
        text.append(" ");
        text.append(expr.operator.lexeme.as_str());
        text
    }

    fn grouping(&mut self, expr: &Grouping) -> (text: String)
        ensures
            text@ == rpn_text(Expr::Grouping(*expr)@),
        decreases expr, 0nat,
    {
        let mut text = self.print(&expr.expression);
        text.append(" ");
        text.append("group");
        text
    }

    fn literal(&mut self, expr: &Literal) -> (text: String)
        ensures
            text@ == rpn_text(Expr::Literal(*expr)@),
    {
        expr.value.to_text()
    }

    fn unary(&mut self, expr: &Unary) -> (text: String)
        ensures
            text@ == rpn_text(Expr::Unary(*expr)@),
        decreases expr, 0nat,
    {
        let mut text = self.print(&expr.right);
        text.append(" ");
        text.append(expr.operator.lexeme.as_str());
        text
    }
}

impl ExprVisitor for RPNAstPrinter {
    type Output = String;

    open spec fn visits_binary(pre: Self, expr: Binary, post: Self, output: String) -> bool {
        output@ == rpn_text(Expr::Binary(expr)@)
    }

    open spec fn visits_grouping(pre: Self, expr: Grouping, post: Self, output: String) -> bool {
        output@ == rpn_text(Expr::Grouping(expr)@)
    }

    open spec fn visits_literal(pre: Self, expr: Literal, post: Self, output: String) -> bool {
        output@ == rpn_text(Expr::Literal(expr)@)
    }

    open spec fn visits_unary(pre: Self, expr: Unary, post: Self, output: String) -> bool {
        output@ == rpn_text(Expr::Unary(expr)@)
    }

    fn visit_binary_expr(&mut self, expr: &Binary) -> (output: String) {
        self.binary(expr)
    }

    fn visit_grouping_expr(&mut self, expr: &Grouping) -> (output: String) {
        self.grouping(expr)
    }

    fn visit_literal_expr(&mut self, expr: &Literal) -> (output: String) {
        self.literal(expr)
    }

    fn visit_unary_expr(&mut self, expr: &Unary) -> (output: String) {
        self.unary(expr)
    }
}

} // verus!
