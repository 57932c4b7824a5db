//! The grammar of expressions: what the parse of a token sequence is.
//!
//! From the loosest level to the tightest:
//!
//! ```text
//! expression -> comma
//! comma      -> ternary ( "," ternary )*
//! ternary    -> equality ( ( "?" | ":" ) expression )*
//! equality   -> comparison ( ( "!=" | "==" ) comparison )*
//! comparison -> term ( ( ">" | ">=" | "<" | "<=" ) term )*
//! term       -> factor ( ( "-" | "+" ) factor )*
//! factor     -> unary ( ( "/" | "*" ) unary )*
//! unary      -> ( "!" | "-" ) unary | primary
//! primary    -> NUMBER | STRING | "true" | "false" | "nil"
//!             | "(" expression ")"
//! ```
//!
//! A level with a starred group builds its tree to the left: each operator
//! it reads takes all that was read before as its left operand.

use vstd::prelude::*;

use crate::ast::{ExprView, LiteralView};
use crate::lexer::{TokenType, TokenView};

verus! {

/// The levels of the grammar.
pub enum Level {
    Comma,
    Ternary,
    Equality,
    Comparison,
    Term,
    Factor,
    Unary,
    Primary,
}

impl Level {
    /// How loosely the level binds: 0 for `Primary`, up to 7 for `Comma`.
    pub open spec fn rank(self) -> nat {
        match self {
            Level::Comma => 7,
            Level::Ternary => 6,
            Level::Equality => 5,
            Level::Comparison => 4,
            Level::Term => 3,
            Level::Factor => 2,
            Level::Unary => 1,
            Level::Primary => 0,
        }
    }

    /// The level with the starred group of binary operators.
    pub open spec fn is_binary(self) -> bool {
        self.rank() >= 2
    }

    /// The next tighter level.
    pub open spec fn tighter(self) -> Level {
        match self {
            Level::Comma => Level::Ternary,
            Level::Ternary => Level::Equality,
            Level::Equality => Level::Comparison,
            Level::Comparison => Level::Term,
            Level::Term => Level::Factor,
            Level::Factor => Level::Unary,
            Level::Unary => Level::Primary,
            Level::Primary => Level::Primary,
        }
    }

    /// The level of the right operand of this level's operators: a whole
    /// expression after `?` or `:`, the next tighter level otherwise.
    pub open spec fn operand(self) -> Level {
        match self {
            Level::Ternary => Level::Comma,
            _ => self.tighter(),
        }
    }

    /// `token_type` is a binary operator of this level.
    pub open spec fn has_operator(self, token_type: TokenType) -> bool {
        match self {
            Level::Comma => token_type == TokenType::Comma,
            Level::Ternary => token_type == TokenType::Question || token_type == TokenType::Colon,
            Level::Equality => token_type == TokenType::BangOrEqual || token_type
                == TokenType::EqualAndEqual,
            Level::Comparison => token_type == TokenType::Greater || token_type
                == TokenType::GreaterOrEqual || token_type == TokenType::Less || token_type
                == TokenType::LessOrEqual,
            Level::Term => token_type == TokenType::Minus || token_type == TokenType::Plus,
            Level::Factor => token_type == TokenType::Slash || token_type == TokenType::Star,
            Level::Unary => false,
            Level::Primary => false,
        }
    }
}

/// `token_type` is a prefix operator.
pub open spec fn is_prefix_operator(token_type: TokenType) -> bool {
    token_type == TokenType::Bang || token_type == TokenType::Minus
}

/// A token sequence that a parser can read: it ends in the end token.
pub open spec fn terminated(tokens: Seq<TokenView>) -> bool {
    tokens.len() > 0 && tokens.last().token_type == TokenType::EOF
}

/// What a `ParseError` stands for: the token at which the parse failed, and
/// why.
pub struct ParseErrorView {
    pub token: TokenView,
    pub message: Seq<char>,
}

/// The outcome of a parse, and the position of the first token that it has
/// not read.
pub struct Parsed {
    pub result: Result<ExprView, ParseErrorView>,
    pub next: int,
}

/// The message for a token that begins no expression.
pub open spec fn expect_expression() -> Seq<char> {
    "Expect expression."@
}

/// The message for a parenthesis that is not closed.
pub open spec fn expect_right_paren() -> Seq<char> {
    "Expect ')' after expression."@
}

/// The message for a `Number` token that carries no number.
pub open spec fn expected_number() -> Seq<char> {
    "Expected number literal"@
}

/// The message for a `String` token that carries no string.
pub open spec fn expected_string() -> Seq<char> {
    "Expected string literal"@
}

/// The failure at `token` with `message`, the parse having read up to
/// `next`.
pub open spec fn failure(token: TokenView, message: Seq<char>, next: int) -> Parsed {
    Parsed { result: Err(ParseErrorView { token, message }), next }
}

/// The parse of a primary expression whose first token is a literal or a
/// literal keyword; `None` for any other token.
pub open spec fn literal_primary(token: TokenView) -> Option<Result<ExprView, ParseErrorView>> {
    match token.token_type {
        TokenType::Number => Some(
            match token.literal {
                Some(LiteralView::Integer(n)) => Ok(
                    ExprView::Literal { value: LiteralView::Integer(n) },
                ),
                Some(LiteralView::Float(text)) => Ok(
                    ExprView::Literal { value: LiteralView::Float(text) },
                ),
                _ => Err(ParseErrorView { token, message: expected_number() }),
            },
        ),
        TokenType::String => Some(
            match token.literal {
                Some(LiteralView::String(text)) => Ok(
                    ExprView::Literal { value: LiteralView::String(text) },
                ),
                _ => Err(ParseErrorView { token, message: expected_string() }),
            },
        ),
        TokenType::True => Some(Ok(ExprView::Literal { value: LiteralView::Boolean(true) })),
        TokenType::False => Some(Ok(ExprView::Literal { value: LiteralView::Boolean(false) })),
        TokenType::Nil => Some(Ok(ExprView::Literal { value: LiteralView::Nil })),
        _ => None,
    }
}

/// The parse at `level` of the tokens from position `pos` on, for
/// `0 <= pos < tokens.len()`.
///
/// It ends at the first failure. A `Number` or `String` token that does not
/// carry a value of its kind is a failure at that token, after it has been
/// read; a missing `)` and a token that begins no expression are failures at
/// the token found instead, which is not read.
///
/// (The two tests of `next` against `pos` never fail on a terminated
/// sequence, by `lemma_parse_advances`: they are there to show that the
/// definition is well founded.)
pub open spec fn parse_at(level: Level, tokens: Seq<TokenView>, pos: int) -> Parsed
    decreases tokens.len() - pos, level.rank(), 1nat,
    when 0 <= pos < tokens.len()
{
    let token = tokens[pos];
    match level {
        Level::Primary => {
            if literal_primary(token) is Some {
                Parsed { result: literal_primary(token).unwrap(), next: pos + 1 }
            } else if token.token_type == TokenType::LeftParen {
                let inner = parse_at(Level::Comma, tokens, pos + 1);
                if inner.result is Err {
                    inner
                } else if tokens[inner.next].token_type == TokenType::RightParen {
                    Parsed {
                        result: Ok(
                            ExprView::Grouping { expression: Box::new(inner.result->Ok_0) },
                        ),
                        next: inner.next + 1,
                    }
                } else {
                    failure(tokens[inner.next], expect_right_paren(), inner.next)
                }
            } else {
                failure(token, expect_expression(), pos)
            }
        },
        Level::Unary => {
            if is_prefix_operator(token.token_type) {
                let operand = parse_at(Level::Unary, tokens, pos + 1);
                if operand.result is Err {
                    operand
                } else {
                    Parsed {
                        result: Ok(
                            ExprView::Unary {
                                operator: token,
                                right: Box::new(operand.result->Ok_0),
                            },
                        ),
                        next: operand.next,
                    }
                }
            } else {
                parse_at(Level::Primary, tokens, pos)
            }
        },
        _ => {
            let first = parse_at(level.tighter(), tokens, pos);
            if first.result is Err || !(pos <= first.next < tokens.len()) {
                first
            } else {
                parse_more(level, tokens, first.next, first.result->Ok_0)
            }
        },
    }
}

/// The parse at the binary level `level` of the tokens from position `pos`
/// on, after the operand `left` has been read: the operators of the level
/// and their right operands, as long as an operator follows.
pub open spec fn parse_more(
    level: Level,
    tokens: Seq<TokenView>,
    pos: int,
    left: ExprView,
) -> Parsed
    decreases tokens.len() - pos, level.rank(), 0nat,
    when 0 <= pos < tokens.len()
{
    let operator = tokens[pos];
    if level.has_operator(operator.token_type) {
        let right = parse_at(level.operand(), tokens, pos + 1);
        if right.result is Err || !(pos < right.next < tokens.len()) {
            right
        } else {
            parse_more(
                level,
                tokens,
                right.next,
                ExprView::Binary {
                    left: Box::new(left),
                    operator,
                    right: Box::new(right.result->Ok_0),
                },
            )
        }
    } else {
        Parsed { result: Ok(left), next: pos }
    }
}

/// The parse of a whole token sequence: an expression from its first token
/// on.
pub open spec fn parse(tokens: Seq<TokenView>) -> Result<ExprView, ParseErrorView> {
    parse_at(Level::Comma, tokens, 0).result
}

/// A parse ends within the sequence, at or after the position where it
/// begins, and after it if it succeeds: an expression holds at least one
/// token.
pub proof fn lemma_parse_advances(level: Level, tokens: Seq<TokenView>, pos: int)
    requires
        terminated(tokens),
        0 <= pos < tokens.len(),
    ensures
        pos <= parse_at(level, tokens, pos).next < tokens.len(),
        parse_at(level, tokens, pos).result is Ok ==> pos < parse_at(level, tokens, pos).next,
    decreases tokens.len() - pos, level.rank(), 1nat,
{
    let token = tokens[pos];
    match level {
        Level::Primary => {
            if literal_primary(token) is Some {
            } else if token.token_type == TokenType::LeftParen {
                lemma_parse_advances(Level::Comma, tokens, pos + 1);
            }
        },
        Level::Unary => {
            if is_prefix_operator(token.token_type) {
                lemma_parse_advances(Level::Unary, tokens, pos + 1);
            } else {
                lemma_parse_advances(Level::Primary, tokens, pos);
            }
        },
        _ => {
            lemma_parse_advances(level.tighter(), tokens, pos);
            let first = parse_at(level.tighter(), tokens, pos);
            if first.result is Ok {
                lemma_parse_more_advances(level, tokens, first.next, first.result->Ok_0);
            }
        },
    }
}

/// The same for the operators and operands that follow a first operand.
pub proof fn lemma_parse_more_advances(
    level: Level,
    tokens: Seq<TokenView>,
    pos: int,
    left: ExprView,
)
    requires
        terminated(tokens),
        0 <= pos < tokens.len(),
    ensures
        pos <= parse_more(level, tokens, pos, left).next < tokens.len(),
    decreases tokens.len() - pos, level.rank(), 0nat,
{
    let operator = tokens[pos];
    if level.has_operator(operator.token_type) {
        lemma_parse_advances(level.operand(), tokens, pos + 1);
        let right = parse_at(level.operand(), tokens, pos + 1);
        if right.result is Ok {
            lemma_parse_more_advances(
                level,
                tokens,
                right.next,
                ExprView::Binary {
                    left: Box::new(left),
                    operator,
                    right: Box::new(right.result->Ok_0),
                },
            );
        }
    }
}

/// `expr` is a tree that the grammar builds at `level`.
///
/// At a binary level that is a binary operation with an operator of the
/// level, whose left operand is a tree of the same level and whose right
/// operand is a tree of the operand's level; or a tree of the next tighter
/// level. So an operation is never the direct operand of one that binds
/// tighter, and a chain of operators of one level leans to the left.
pub open spec fn fits(expr: ExprView, level: Level) -> bool
    decreases expr, level.rank(),
{
    match level {
        Level::Primary => match expr {
            ExprView::Literal { value } => true,
            ExprView::Grouping { expression } => fits(*expression, Level::Comma),
            _ => false,
        },
        Level::Unary => match expr {
            ExprView::Unary { operator, right } => is_prefix_operator(operator.token_type) && fits(
                *right,
                Level::Unary,
            ),
            _ => fits(expr, Level::Primary),
        },
        _ => match expr {
            ExprView::Binary { left, operator, right } => level.has_operator(operator.token_type)
                && fits(*left, level) && fits(*right, level.operand()) || fits(
                expr,
                level.tighter(),
            ),
            _ => fits(expr, level.tighter()),
        },
    }
}

/// The level of the binary operator `token_type`.
pub open spec fn binary_level(token_type: TokenType) -> Option<Level> {
    if Level::Comma.has_operator(token_type) {
        Some(Level::Comma)
    } else if Level::Ternary.has_operator(token_type) {
        Some(Level::Ternary)
    } else if Level::Equality.has_operator(token_type) {
        Some(Level::Equality)
    } else if Level::Comparison.has_operator(token_type) {
        Some(Level::Comparison)
    } else if Level::Term.has_operator(token_type) {
        Some(Level::Term)
    } else if Level::Factor.has_operator(token_type) {
        Some(Level::Factor)
    } else {
        None
    }
}

/// The tree of a parse that succeeds at `level` is a tree of that level:
/// its nesting follows the precedence and the associativity of the
/// operators.
pub proof fn lemma_parse_fits(level: Level, tokens: Seq<TokenView>, pos: int)
    requires
        terminated(tokens),
        0 <= pos < tokens.len(),
    ensures
        parse_at(level, tokens, pos).result matches Ok(expr) ==> fits(expr, level),
    decreases tokens.len() - pos, level.rank(), 1nat,
{
    let token = tokens[pos];
    match level {
        Level::Primary => {
            if literal_primary(token) is Some {
            } else if token.token_type == TokenType::LeftParen {
                lemma_parse_fits(Level::Comma, tokens, pos + 1);
            }
        },
        Level::Unary => {
            if is_prefix_operator(token.token_type) {
                lemma_parse_fits(Level::Unary, tokens, pos + 1);
            } else {
                lemma_parse_fits(Level::Primary, tokens, pos);
            }
        },
        _ => {
            lemma_parse_fits(level.tighter(), tokens, pos);
            lemma_parse_advances(level.tighter(), tokens, pos);
            let first = parse_at(level.tighter(), tokens, pos);
            if first.result is Ok {
                lemma_parse_more_fits(level, tokens, first.next, first.result->Ok_0);
            }
        },
    }
}

/// The same for the operators and operands that follow a first operand
/// `left` of the level.
pub proof fn lemma_parse_more_fits(level: Level, tokens: Seq<TokenView>, pos: int, left: ExprView)
    requires
        terminated(tokens),
        0 <= pos < tokens.len(),
        level.is_binary(),
        fits(left, level),
    ensures
        parse_more(level, tokens, pos, left).result matches Ok(expr) ==> fits(expr, level),
    decreases tokens.len() - pos, level.rank(), 0nat,
{
    let operator = tokens[pos];
    if level.has_operator(operator.token_type) {
        lemma_parse_fits(level.operand(), tokens, pos + 1);
        lemma_parse_advances(level.operand(), tokens, pos + 1);
        let right = parse_at(level.operand(), tokens, pos + 1);
        if right.result is Ok {
            lemma_parse_more_fits(
                level,
                tokens,
                right.next,
                ExprView::Binary {
                    left: Box::new(left),
                    operator,
                    right: Box::new(right.result->Ok_0),
                },
            );
        }
    }
}

/// Precedence and associativity: the tree of a whole parse that succeeds is
/// a tree of the loosest level, so that under every operator stand only
/// operations that bind at least as tightly on its left and more tightly on
/// its right, or parenthesised expressions.
pub proof fn lemma_parse_nesting(tokens: Seq<TokenView>)
    requires
        terminated(tokens),
    ensures
        parse(tokens) matches Ok(expr) ==> fits(expr, Level::Comma),
{
    lemma_parse_fits(Level::Comma, tokens, 0);
}

/// A tree of a level is a tree of every looser level.
pub proof fn lemma_fits_looser(expr: ExprView, level: Level, looser: Level)
    requires
        fits(expr, level),
        level.rank() <= looser.rank(),
    ensures
        fits(expr, looser),
    decreases looser.rank(),
{
    if level.rank() < looser.rank() {
        lemma_fits_looser(expr, level, looser.tighter());
    }
}

/// In a tree of any level, a binary operation has an operator of a binary
/// level no looser than the tree's; its left operand is a tree of the
/// operator's level, and its right operand a tree of the level of that
/// operator's operands. So under `*` there is no `+` without parentheses,
/// and `a - b - c` is `(a - b) - c`.
pub proof fn lemma_fits_binary(expr: ExprView, level: Level)
    requires
        fits(expr, level),
        expr is Binary,
    ensures
        binary_level(expr->Binary_operator.token_type) matches Some(own) && own.rank()
            <= level.rank() && fits(*expr->Binary_left, own) && fits(
            *expr->Binary_right,
            own.operand(),
        ),
    decreases level.rank(),
{
    if level.is_binary() {
        if !(level.has_operator(expr->Binary_operator.token_type) && fits(
            *expr->Binary_left,
            level,
        ) && fits(*expr->Binary_right, level.operand())) {
            lemma_fits_binary(expr, level.tighter());
        }
    } else if level == Level::Unary {
        lemma_fits_binary(expr, Level::Primary);
    }
}

/// The kind of the token that a literal is written with.
pub open spec fn literal_kind(value: LiteralView) -> TokenType {
    match value {
        LiteralView::Integer(n) => TokenType::Number,
        LiteralView::Float(text) => TokenType::Number,
        LiteralView::String(text) => TokenType::String,
        LiteralView::Boolean(b) => if b {
            TokenType::True
        } else {
            TokenType::False
        },
        LiteralView::Nil => TokenType::Nil,
    }
}

/// The kinds of the tokens that `expr` is written with, from left to right.
pub open spec fn token_kinds(expr: ExprView) -> Seq<TokenType>
    decreases expr,
{
    match expr {
        ExprView::Binary { left, operator, right } => token_kinds(*left) + seq![
            operator.token_type,
        ] + token_kinds(*right),
        ExprView::Grouping { expression } => seq![TokenType::LeftParen] + token_kinds(*expression)
            + seq![TokenType::RightParen],
        ExprView::Literal { value } => seq![literal_kind(value)],
        ExprView::Unary { operator, right } => seq![operator.token_type] + token_kinds(*right),
    }
}

/// The kinds of the tokens from position `from` up to position `to`.
pub open spec fn kinds_between(tokens: Seq<TokenView>, from: int, to: int) -> Seq<TokenType> {
    tokens.subrange(from, to).map_values(|token: TokenView| token.token_type)
}

/// A parse that succeeds reads exactly the tokens that its tree is written
/// with: no token is lost, added or moved.
pub proof fn lemma_parse_yield(level: Level, tokens: Seq<TokenView>, pos: int)
    requires
        terminated(tokens),
        0 <= pos < tokens.len(),
    ensures
        parse_at(level, tokens, pos).result matches Ok(expr) ==> token_kinds(expr)
            == kinds_between(tokens, pos, parse_at(level, tokens, pos).next),
    decreases tokens.len() - pos, level.rank(), 1nat,
{
    let token = tokens[pos];
    lemma_parse_advances(level, tokens, pos);
    match level {
        Level::Primary => {
            if literal_primary(token) is Some {
                if literal_primary(token).unwrap() is Ok {
                    let expr = literal_primary(token).unwrap()->Ok_0;
                    assert(token_kinds(expr) =~= kinds_between(tokens, pos, pos + 1));
                }
            } else if token.token_type == TokenType::LeftParen {
                lemma_parse_yield(Level::Comma, tokens, pos + 1);
                lemma_parse_advances(Level::Comma, tokens, pos + 1);
                let inner = parse_at(Level::Comma, tokens, pos + 1);
                if inner.result is Ok && tokens[inner.next].token_type == TokenType::RightParen {
                    assert(seq![TokenType::LeftParen] + kinds_between(tokens, pos + 1, inner.next)
                        + seq![TokenType::RightParen] =~= kinds_between(
                        tokens,
                        pos,
                        inner.next + 1,
                    ));
                }
            }
        },
        Level::Unary => {
            if is_prefix_operator(token.token_type) {
                lemma_parse_yield(Level::Unary, tokens, pos + 1);
                lemma_parse_advances(Level::Unary, tokens, pos + 1);
                let operand = parse_at(Level::Unary, tokens, pos + 1);
                if operand.result is Ok {
                    assert(seq![token.token_type] + kinds_between(tokens, pos + 1, operand.next)
                        =~= kinds_between(tokens, pos, operand.next));
                }
            } else {
                lemma_parse_yield(Level::Primary, tokens, pos);
            }
        },
        _ => {
            lemma_parse_yield(level.tighter(), tokens, pos);
            lemma_parse_advances(level.tighter(), tokens, pos);
            let first = parse_at(level.tighter(), tokens, pos);
            if first.result is Ok {
                lemma_parse_more_yield(level, tokens, pos, first.next, first.result->Ok_0);
            }
        },
    }
}

/// The same for the operators and operands that follow a first operand
/// `left`, which was read from position `start` on.
pub proof fn lemma_parse_more_yield(
    level: Level,
    tokens: Seq<TokenView>,
    start: int,
    pos: int,
    left: ExprView,
)
    requires
        terminated(tokens),
        0 <= start <= pos < tokens.len(),
        token_kinds(left) == kinds_between(tokens, start, pos),
    ensures
        parse_more(level, tokens, pos, left).result matches Ok(expr) ==> token_kinds(expr)
            == kinds_between(tokens, start, parse_more(level, tokens, pos, left).next),
    decreases tokens.len() - pos, level.rank(), 0nat,
{
    let operator = tokens[pos];
    if level.has_operator(operator.token_type) {
        lemma_parse_yield(level.operand(), tokens, pos + 1);
        lemma_parse_advances(level.operand(), tokens, pos + 1);
        let right = parse_at(level.operand(), tokens, pos + 1);
        if right.result is Ok {
            let both = ExprView::Binary {
                left: Box::new(left),
                operator,
                right: Box::new(right.result->Ok_0),
            };
            assert(kinds_between(tokens, start, pos) + seq![operator.token_type] + kinds_between(
                tokens,
                pos + 1,
                right.next,
            ) =~= kinds_between(tokens, start, right.next));
            lemma_parse_more_yield(level, tokens, start, right.next, both);
        }
    }
}

} // verus!
