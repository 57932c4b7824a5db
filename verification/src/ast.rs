//! The expression tree: a closed set of node kinds, each node owning its
//! children and a copy of its operator token.

use vstd::prelude::*;
use vstd::string::*;

use crate::lexer::{Token, TokenView};
use crate::numeral::{i64_to_text, int_text};

verus! {

/// A numeral that is not held as an `Integer`: one written with a fractional
/// part, or a whole number too large for 64 bits. It is held exactly, as its
/// canonical decimal text; a host that wants a binary floating-point number
/// converts the text at its edge.
#[derive(Debug, PartialEq, Eq)]
pub struct Decimal {
    pub text: String,
}

impl View for Decimal {
    type V = Seq<char>;

    open spec fn view(&self) -> Seq<char> {
        self.text@
    }
}

impl Clone for Decimal {
    fn clone(&self) -> (copy: Self)
        ensures
            copy@ == self@,
    {
        Decimal { text: self.text.clone() }
    }
}

/// The value of a literal.
#[derive(Debug, PartialEq, Eq)]
pub enum LiteralValue {
    Integer(i64),
    Float(Decimal),
    String(String),
    Boolean(bool),
    Nil,
}

/// What a `LiteralValue` stands for.
pub enum LiteralView {
    Integer(int),
    Float(Seq<char>),
    String(Seq<char>),
    Boolean(bool),
    Nil,
}

impl View for LiteralValue {
    type V = LiteralView;

    open spec fn view(&self) -> LiteralView {
        match self {
            LiteralValue::Integer(n) => LiteralView::Integer(*n as int),
            LiteralValue::Float(d) => LiteralView::Float(d@),
            LiteralValue::String(s) => LiteralView::String(s@),
            LiteralValue::Boolean(b) => LiteralView::Boolean(*b),
            LiteralValue::Nil => LiteralView::Nil,
        }
    }
}

/// The text of a literal value: `nil`, `true` or `false`, the decimal text of
/// a number, or a string as it is, without quotes.
pub open spec fn literal_text(value: LiteralView) -> Seq<char> {
    match value {
        LiteralView::Integer(n) => int_text(n),
        LiteralView::Float(text) => text,
        LiteralView::String(text) => text,
        LiteralView::Boolean(b) => if b {
            "true"@
        } else {
            "false"@
        },
        LiteralView::Nil => "nil"@,
    }
}

impl LiteralValue {
    /// The text of the value.
    pub fn to_text(&self) -> (text: String)
        ensures
            text@ == literal_text(self@),
    {
        match self {
            LiteralValue::Integer(n) => i64_to_text(*n),
            LiteralValue::Float(decimal) => decimal.text.clone(),
            LiteralValue::String(text) => text.clone(),
            LiteralValue::Boolean(b) => if *b {
                String::from_str("true")
            } else {
                String::from_str("false")
            },
            LiteralValue::Nil => String::from_str("nil"),
        }
    }
}

/// The view of a literal value that may be absent.
pub open spec fn literal_view(literal: Option<LiteralValue>) -> Option<LiteralView> {
    match literal {
        Some(value) => Some(value@),
        None => None,
    }
}

impl Clone for LiteralValue {
    fn clone(&self) -> (copy: Self)
        ensures
            copy@ == self@,
    {
        match self {
            LiteralValue::Integer(n) => LiteralValue::Integer(*n),
            LiteralValue::Float(d) => LiteralValue::Float(d.clone()),
            LiteralValue::String(s) => LiteralValue::String(s.clone()),
            LiteralValue::Boolean(b) => LiteralValue::Boolean(*b),
            LiteralValue::Nil => LiteralValue::Nil,
        }
    }
}

/// A binary operation.
#[derive(Debug, PartialEq, Eq)]
pub struct Binary {
    pub left: Box<Expr>,
    pub operator: Token,
    pub right: Box<Expr>,
}

/// A parenthesised expression.
#[derive(Debug, PartialEq, Eq)]
pub struct Grouping {
    pub expression: Box<Expr>,
}

/// A literal.
#[derive(Debug, PartialEq, Eq)]
pub struct Literal {
    pub value: LiteralValue,
}

/// A prefix operation.
#[derive(Debug, PartialEq, Eq)]
pub struct Unary {
    pub operator: Token,
    pub right: Box<Expr>,
}

/// An expression.
#[derive(Debug, PartialEq, Eq)]
pub enum Expr {
    Binary(Binary),
    Grouping(Grouping),
    Literal(Literal),
    Unary(Unary),
}

/// What an `Expr` stands for: the same tree over the views of its tokens and
/// literal values.
pub enum ExprView {
    Binary { left: Box<ExprView>, operator: TokenView, right: Box<ExprView> },
    Grouping { expression: Box<ExprView> },
    Literal { value: LiteralView },
    Unary { operator: TokenView, right: Box<ExprView> },
}

/// A walk over an expression: one operation for each kind of node.
///
/// Each operation comes with a relation that says which outputs it may give
/// and how it may change the visitor, so that `Expr::accept` can say what it
/// hands on. A visitor that states nothing keeps the relations as they are
/// here: every output is allowed.
pub trait ExprVisitor: Sized {
    type Output;

    /// `output` is what `visit_binary_expr` may return for `expr`, changing
    /// the visitor from `pre` to `post`.
    open spec fn visits_binary(pre: Self, expr: Binary, post: Self, output: Self::Output) -> bool {
        true
    }

    /// The same for `visit_grouping_expr`.
    open spec fn visits_grouping(
        pre: Self,
        expr: Grouping,
        post: Self,
        output: Self::Output,
    ) -> bool {
        true
    }

    /// The same for `visit_literal_expr`.
    open spec fn visits_literal(
        pre: Self,
        expr: Literal,
        post: Self,
        output: Self::Output,
    ) -> bool {
        true
    }

    /// The same for `visit_unary_expr`.
    open spec fn visits_unary(pre: Self, expr: Unary, post: Self, output: Self::Output) -> bool {
        true
    }

    fn visit_binary_expr(&mut self, expr: &Binary) -> (output: Self::Output)
        ensures
            Self::visits_binary(*old(self), *expr, *final(self), output),
    ;

    fn visit_grouping_expr(&mut self, expr: &Grouping) -> (output: Self::Output)
        ensures
            Self::visits_grouping(*old(self), *expr, *final(self), output),
    ;

    fn visit_literal_expr(&mut self, expr: &Literal) -> (output: Self::Output)
        ensures
            Self::visits_literal(*old(self), *expr, *final(self), output),
    ;

    fn visit_unary_expr(&mut self, expr: &Unary) -> (output: Self::Output)
        ensures
            Self::visits_unary(*old(self), *expr, *final(self), output),
    ;
}

impl Expr {
    /// Hands the node to the operation of `visitor` for its kind, and
    /// returns what the operation returns.
    pub fn accept<V: ExprVisitor>(&self, visitor: &mut V) -> (output: V::Output)
        ensures
            match *self {
                Expr::Binary(expr) => V::visits_binary(
                    *old(visitor),
                    expr,
                    *final(visitor),
                    output,
                ),
                Expr::Grouping(expr) => V::visits_grouping(
                    *old(visitor),
                    expr,
                    *final(visitor),
                    output,
                ),
                Expr::Literal(expr) => V::visits_literal(
                    *old(visitor),
                    expr,
                    *final(visitor),
                    output,
                ),
                Expr::Unary(expr) => V::visits_unary(*old(visitor), expr, *final(visitor), output),
            },
    {
        match self {
            Expr::Binary(expr) => visitor.visit_binary_expr(expr),
            Expr::Grouping(expr) => visitor.visit_grouping_expr(expr),
            Expr::Literal(expr) => visitor.visit_literal_expr(expr),
            Expr::Unary(expr) => visitor.visit_unary_expr(expr),
        }
    }

    /// The tree that `self` stands for.
    pub open spec fn model(self) -> ExprView
        decreases self,
    {
        match self {
            Expr::Binary(b) => ExprView::Binary {
                left: Box::new(b.left.model()),
                operator: b.operator@,
                right: Box::new(b.right.model()),
            },
            Expr::Grouping(g) => ExprView::Grouping { expression: Box::new(g.expression.model()) },
            Expr::Literal(l) => ExprView::Literal { value: l.value@ },
            Expr::Unary(u) => ExprView::Unary {
                operator: u.operator@,
                right: Box::new(u.right.model()),
            },
        }
    }
}

impl View for Expr {
    type V = ExprView;

    open spec fn view(&self) -> ExprView {
        self.model()
    }
}

impl ExprView {
    /// The number of nodes other than literals on the longest path from the
    /// root down.
    pub open spec fn depth(self) -> nat
        decreases self,
    {
        match self {
            ExprView::Binary { left, operator, right } => {
                let l = left.depth();
                let r = right.depth();
                if l >= r {
                    1 + l
                } else {
                    1 + r
                }
            },
            ExprView::Grouping { expression } => 1 + expression.depth(),
            ExprView::Literal { value } => 0,
            ExprView::Unary { operator, right } => 1 + right.depth(),
        }
    }
}

} // verus!
