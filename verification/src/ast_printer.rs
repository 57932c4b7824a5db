//! The prefix printer: every operation in parentheses, its operator first.

use vstd::prelude::*;
use vstd::string::*;

use crate::ast::{
    literal_text, Binary, Expr, ExprView, ExprVisitor, Grouping, Literal, LiteralView, Unary,
};
use crate::numeral::{nat_text};

verus! {

/// The text of `expr` with every operation in parentheses: `(op left right)`
/// for a binary operation, `(op operand)` for a prefix operation,
/// `(group inner)` for a parenthesised expression, and a literal as its
/// text.
pub open spec fn infix_text(expr: ExprView) -> Seq<char>
    decreases expr,
{
    match expr {
        ExprView::Binary { left, operator, right } => "("@ + operator.lexeme + " "@ + infix_text(
            *left,
        ) + " "@ + infix_text(*right) + ")"@,
        ExprView::Grouping { expression } => "(group "@ + infix_text(*expression) + ")"@,
        ExprView::Literal { value } => literal_text(value),
        ExprView::Unary { operator, right } => "("@ + operator.lexeme + " "@ + infix_text(*right)
            + ")"@,
    }
}

/// Prints expressions with every operation in parentheses.
pub struct AstPrinter;

impl AstPrinter {
    /// The text of `expr`.
    pub fn print(&self, expr: &Expr) -> (text: String)
        ensures
            text@ == infix_text(expr@),
        decreases expr, 1nat,
    {
        match expr {
            Expr::Binary(expr) => self.binary(expr),
            Expr::Grouping(expr) => self.grouping(expr),
            Expr::Literal(expr) => self.literal(expr),
            Expr::Unary(expr) => self.unary(expr),
        }
    }

    fn binary(&self, expr: &Binary) -> (text: String)
        ensures
            text@ == infix_text(Expr::Binary(*expr)@),
        decreases expr, 0nat,
    {
        let mut text = String::from_str("(");
        text.append(expr.operator.lexeme.as_str());
        text.append(" ");
        let left = self.print(&expr.left);
        text.append(left.as_str());
        text.append(" ");
        let right = self.print(&expr.right);
        text.append(right.as_str());
        text.append(")");
        text
    }

    fn grouping(&self, expr: &Grouping) -> (text: String)
        ensures
            text@ == infix_text(Expr::Grouping(*expr)@),
        decreases expr, 0nat,
    {
        let mut text = String::from_str("(group ");
        let inner = self.print(&expr.expression);
        text.append(inner.as_str());
        text.append(")");
        text
    }

    fn literal(&self, expr: &Literal) -> (text: String)
        ensures
            text@ == infix_text(Expr::Literal(*expr)@),
    {
        expr.value.to_text()
    }

    fn unary(&self, expr: &Unary) -> (text: String)
        ensures
            text@ == infix_text(Expr::Unary(*expr)@),
        decreases expr, 0nat,
    {
        let mut text = String::from_str("(");
        text.append(expr.operator.lexeme.as_str());
        text.append(" ");
        let right = self.print(&expr.right);
        text.append(right.as_str());
        text.append(")");
        text
    }
}

impl ExprVisitor for AstPrinter {
    type Output = String;

    open spec fn visits_binary(pre: Self, expr: Binary, post: Self, output: String) -> bool {
        output@ == infix_text(Expr::Binary(expr)@)
    }

    open spec fn visits_grouping(pre: Self, expr: Grouping, post: Self, output: String) -> bool {
        output@ == infix_text(Expr::Grouping(expr)@)
    }

    open spec fn visits_literal(pre: Self, expr: Literal, post: Self, output: String) -> bool {
        output@ == infix_text(Expr::Literal(expr)@)
    }

    open spec fn visits_unary(pre: Self, expr: Unary, post: Self, output: String) -> bool {
        output@ == infix_text(Expr::Unary(expr)@)
    }

    fn visit_binary_expr(&mut self, expr: &Binary) -> (output: String) {
        self.binary(expr)
    }

    fn visit_grouping_expr(&mut self, expr: &Grouping) -> (output: String) {
        self.grouping(expr)
    }

    fn visit_literal_expr(&mut self, expr: &Literal) -> (output: String) {
        self.literal(expr)
    }

    fn visit_unary_expr(&mut self, expr: &Unary) -> (output: String) {
        self.unary(expr)
    }
}

/// What a character adds to the number of open parentheses.
pub open spec fn paren_step(c: char) -> int {
    if c == '(' {
        1
    } else if c == ')' {
        -1
    } else {
        0
    }
}

/// The number of parentheses that `s` opens and does not close.
pub open spec fn paren_balance(s: Seq<char>) -> int
    decreases s.len(),
{
    if s.len() == 0 {
        0
    } else {
        paren_balance(s.drop_last()) + paren_step(s.last())
    }
}

/// The deepest nesting of parentheses in `s`: the largest number of
/// parentheses open at once while `s` is read from the left.
pub open spec fn paren_depth(s: Seq<char>) -> int
    decreases s.len(),
{
    if s.len() == 0 {
        0
    } else {
        let before = paren_depth(s.drop_last());
        let here = paren_balance(s);
        if here > before {
            here
        } else {
            before
        }
    }
}

/// `s` holds no parenthesis.
pub open spec fn paren_free(s: Seq<char>) -> bool {
    forall|i: int| 0 <= i < s.len() ==> #[trigger] paren_step(s[i]) == 0
}

/// No operator and no literal of `expr` has a parenthesis in its text.
pub open spec fn free_of_parens(expr: ExprView) -> bool
    decreases expr,
{
    match expr {
        ExprView::Binary { left, operator, right } => paren_free(operator.lexeme)
            && free_of_parens(*left) && free_of_parens(*right),
        ExprView::Grouping { expression } => free_of_parens(*expression),
        ExprView::Literal { value } => match value {
            LiteralView::Float(text) => paren_free(text),
            LiteralView::String(text) => paren_free(text),
            _ => true,
        },
        ExprView::Unary { operator, right } => paren_free(operator.lexeme) && free_of_parens(
            *right,
        ),
    }
}

/// The nesting of a text is never negative and never less than what the
/// text leaves open.
pub proof fn lemma_paren_depth_bounds(s: Seq<char>)
    ensures
        paren_depth(s) >= 0,
        paren_depth(s) >= paren_balance(s),
    decreases s.len(),
{
    if s.len() > 0 {
        lemma_paren_depth_bounds(s.drop_last());
    }
}

/// The nesting of two texts joined: that of the first, or that of the second
/// on top of what the first leaves open, whichever is deeper.
pub proof fn lemma_paren_concat(a: Seq<char>, b: Seq<char>)
    ensures
        paren_balance(a + b) == paren_balance(a) + paren_balance(b),
        paren_depth(a + b) == if paren_depth(a) >= paren_balance(a) + paren_depth(b) {
            paren_depth(a)
        } else {
            paren_balance(a) + paren_depth(b)
        },
    decreases b.len(),
{
    lemma_paren_depth_bounds(a);
    if b.len() == 0 {
        assert(a + b =~= a);
    } else {
        assert((a + b).drop_last() =~= a + b.drop_last());
        lemma_paren_concat(a, b.drop_last());
        lemma_paren_depth_bounds(b.drop_last());
    }
}

/// A text without parentheses opens none and nests none.
pub proof fn lemma_paren_free(s: Seq<char>)
    requires
        paren_free(s),
    ensures
        paren_balance(s) == 0,
        paren_depth(s) == 0,
    decreases s.len(),
{
    if s.len() > 0 {
        assert(paren_step(s.last()) == 0);
        lemma_paren_free(s.drop_last());
    }
}

/// A text that opens one parenthesis at its beginning and holds no other.
proof fn lemma_opening(s: Seq<char>)
    requires
        s.len() >= 1,
        s[0] == '(',
        paren_free(s.skip(1)),
    ensures
        paren_balance(s) == 1,
        paren_depth(s) == 1,
{
    let first = seq!['('];
    assert(paren_balance(first) == 1 && paren_depth(first) == 1) by {
        reveal_with_fuel(paren_balance, 2);
        reveal_with_fuel(paren_depth, 2);
    }
    assert(s =~= first + s.skip(1));
    lemma_paren_free(s.skip(1));
    lemma_paren_concat(first, s.skip(1));
}

/// The text that closes one parenthesis.
proof fn lemma_closing()
    ensures
        paren_balance(")"@) == -1,
        paren_depth(")"@) == 0,
{
    reveal_strlit(")");
    reveal_with_fuel(paren_balance, 2);
    reveal_with_fuel(paren_depth, 2);
}

/// The decimal text of a number holds no parenthesis.
proof fn lemma_nat_text_paren_free(n: nat)
    ensures
        paren_free(nat_text(n)),
    decreases n,
{
    if n >= 10 {
        lemma_nat_text_paren_free(n / 10);
    }
}

/// The text of a literal without parentheses holds none.
proof fn lemma_literal_paren_free(value: LiteralView)
    requires
        free_of_parens(ExprView::Literal { value }),
    ensures
        paren_free(literal_text(value)),
{
    reveal_strlit("true");
    reveal_strlit("false");
    reveal_strlit("nil");
    match value {
        LiteralView::Integer(n) => {
            if n < 0 {
                lemma_nat_text_paren_free((-n) as nat);
            } else {
                lemma_nat_text_paren_free(n as nat);
            }
        },
        _ => {},
    }
}

/// The parentheses of the printed text follow the tree: where no operator
/// and no literal has a parenthesis in its own text, the text of an
/// expression closes every parenthesis it opens, and nests them exactly as
/// deep as the tree is.
pub proof fn lemma_infix_depth(expr: ExprView)
    requires
        free_of_parens(expr),
    ensures
        paren_balance(infix_text(expr)) == 0,
        paren_depth(infix_text(expr)) == expr.depth(),
    decreases expr,
{
    reveal_strlit("(");
    reveal_strlit(" ");
    reveal_strlit("(group ");
    lemma_closing();
    match expr {
        ExprView::Binary { left, operator, right } => {
            lemma_infix_depth(*left);
            lemma_infix_depth(*right);
            let s1 = "("@ + operator.lexeme;
            let s2 = s1 + " "@;
            let s3 = s2 + infix_text(*left);
            let s4 = s3 + " "@;
            let s5 = s4 + infix_text(*right);
            assert(s2.skip(1) =~= operator.lexeme + " "@);
            lemma_opening(s2);
            lemma_paren_concat(s2, infix_text(*left));
            lemma_paren_free(" "@);
            lemma_paren_concat(s3, " "@);
            lemma_paren_concat(s4, infix_text(*right));
            lemma_paren_concat(s5, ")"@);
        },
        ExprView::Grouping { expression } => {
            lemma_infix_depth(*expression);
            lemma_opening("(group "@);
            lemma_paren_concat("(group "@, infix_text(*expression));
            lemma_paren_concat("(group "@ + infix_text(*expression), ")"@);
        },
        ExprView::Literal { value } => {
            lemma_literal_paren_free(value);
            lemma_paren_free(literal_text(value));
        },
        ExprView::Unary { operator, right } => {
            lemma_infix_depth(*right);
            let s2 = "("@ + operator.lexeme + " "@;
            assert(s2.skip(1) =~= operator.lexeme + " "@);
            lemma_opening(s2);
            lemma_paren_concat(s2, infix_text(*right));
            lemma_paren_concat(s2 + infix_text(*right), ")"@);
        },
    }
}

} // verus!
