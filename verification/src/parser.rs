//! The parser: from a token sequence to an expression tree, by recursive
//! descent through the levels of the grammar.

use vstd::prelude::*;
use vstd::string::*;

use crate::ast::{Binary, Expr, Grouping, Literal, LiteralValue, Unary};
use crate::grammar::{parse_at, parse_more, terminated, Level, ParseErrorView, Parsed};
use crate::lexer::{token_views, Token, TokenType, TokenView};
use crate::numeral::{nat_text, u64_to_text};

verus! {

/// Why a parse failed: the token at which it failed, and a message.
#[derive(Debug, PartialEq, Eq)]
pub struct ParseError {
    pub token: Token,
    pub message: String,
}

impl View for ParseError {
    type V = ParseErrorView;

    open spec fn view(&self) -> ParseErrorView {
        ParseErrorView { token: self.token@, message: self.message@ }
    }
}

/// The outcome `r` of a parse that has read up to `next`, as the grammar
/// states it.
pub open spec fn parsed(r: Result<Expr, ParseError>, next: int) -> Parsed {
    Parsed {
        result: match r {
            Ok(expr) => Ok(expr@),
            Err(error) => Err(error@),
        },
        next,
    }
}

/// Where an error at `token` lies, in words.
pub open spec fn location_text(token: TokenView) -> Seq<char> {
    if token.token_type == TokenType::EOF {
        " at end"@
    } else {
        " at '"@ + token.lexeme + "'"@
    }
}

/// The line that reports an error at `token`.
pub open spec fn report_text(token: TokenView, message: Seq<char>) -> Seq<char> {
    "[line "@ + nat_text(token.line) + "] Error"@ + location_text(token) + ": "@ + message
}

/// A parser over one token sequence, with a cursor on the next token to
/// read. The cursor only moves forward, and stays on the end token once it
/// has reached it.
pub struct Parser<'a> {
    tokens: &'a [Token],
    current: usize,
}

impl<'a> Parser<'a> {
    #[verifier::type_invariant]
    spec fn well_formed(self) -> bool {
        &&& terminated(token_views(self.tokens@))
        &&& self.current < self.tokens@.len() <= usize::MAX
    }

    /// The tokens that the parser reads.
    pub closed spec fn tokens(&self) -> Seq<TokenView> {
        token_views(self.tokens@)
    }

    /// The position of the cursor.
    pub closed spec fn position(&self) -> int {
        self.current as int
    }

    /// A parser over `tokens`, with its cursor on the first of them.
    pub fn new(tokens: &'a [Token]) -> (parser: Self)
        requires
            terminated(token_views(tokens@)),
        ensures
            parser.tokens() == token_views(tokens@),
            parser.position() == 0,
    {
        let _ = tokens.len();
        Parser { tokens, current: 0 }
    }

    /// Parses an expression from the cursor on.
    pub fn parse(&mut self) -> (r: Result<Expr, ParseError>)
        ensures
            final(self).tokens() == old(self).tokens(),
            parsed(r, final(self).position()) == parse_at(
                Level::Comma,
                old(self).tokens(),
                old(self).position(),
            ),
    {
        self.comma()
    }

    /// `comparison -> term ( ( ">" | ">=" | "<" | "<=" ) term )*`
    fn comparison(&mut self) -> (r: Result<Expr, ParseError>)
        ensures
            final(self).tokens == old(self).tokens,
            old(self).current <= final(self).current,
            parsed(r, final(self).current as int) == parse_at(
                Level::Comparison,
                token_views(old(self).tokens@),
                old(self).current as int,
            ),
        decreases old(self).tokens@.len() - old(self).current, 4nat,
    {
        proof {
            use_type_invariant(&*self);
        }
        let ghost tokens = token_views(self.tokens@);
        let ghost start = self.current as int;
        let mut expression = match self.term() {
            Ok(expression) => expression,
            Err(error) => {
                return Err(error);
            },
        };
        proof {
            use_type_invariant(&*self);
        }
        loop
            invariant
                self.tokens == old(self).tokens,
                tokens == token_views(self.tokens@),
                start == old(self).current,
                start <= self.current < tokens.len(),
                parse_at(Level::Comparison, tokens, start) == parse_more(
                    Level::Comparison,
                    tokens,
                    self.current as int,
                    expression@,
                ),
            decreases self.tokens@.len() - self.current,
        {
            if !self.match_tokens(
                &[
                    TokenType::Greater,
                    TokenType::GreaterOrEqual,
                    TokenType::Less,
                    TokenType::LessOrEqual,
                ],
            ) {
                return Ok(expression);
            }
            proof {
                use_type_invariant(&*self);
            }
            let operator = self.previous().clone();
            let right = match self.term() {
                Ok(right) => right,
                Err(error) => {
                    return Err(error);
                },
            };
            proof {
                use_type_invariant(&*self);
            }
            expression = Expr::Binary(
                Binary { left: Box::new(expression), operator, right: Box::new(right) },
            );
        }
    }

    /// `expression -> comma`
    fn expression(&mut self) -> (r: Result<Expr, ParseError>)
        ensures
            final(self).tokens == old(self).tokens,
            old(self).current <= final(self).current,
            parsed(r, final(self).current as int) == parse_at(
                Level::Comma,
                token_views(old(self).tokens@),
                old(self).current as int,
            ),
        decreases old(self).tokens@.len() - old(self).current, 8nat,
    {
        self.comma()
    }

    /// `equality -> comparison ( ( "!=" | "==" ) comparison )*`
    fn equality(&mut self) -> (r: Result<Expr, ParseError>)
        ensures
            final(self).tokens == old(self).tokens,
            old(self).current <= final(self).current,
            parsed(r, final(self).current as int) == parse_at(
                Level::Equality,
                token_views(old(self).tokens@),
                old(self).current as int,
            ),
        decreases old(self).tokens@.len() - old(self).current, 5nat,
    {
        proof {
            use_type_invariant(&*self);
        }
        let ghost tokens = token_views(self.tokens@);
        let ghost start = self.current as int;
        let mut expression = match self.comparison() {
            Ok(expression) => expression,
            Err(error) => {
                return Err(error);
            },
        };
        proof {
            use_type_invariant(&*self);
        }
        loop
            invariant
                self.tokens == old(self).tokens,
                tokens == token_views(self.tokens@),
                start == old(self).current,
                start <= self.current < tokens.len(),
                parse_at(Level::Equality, tokens, start) == parse_more(
                    Level::Equality,
                    tokens,
                    self.current as int,
                    expression@,
                ),
            decreases self.tokens@.len() - self.current,
        {
            if !self.match_tokens(&[TokenType::BangOrEqual, TokenType::EqualAndEqual]) {
                return Ok(expression);
            }
            proof {
                use_type_invariant(&*self);
            }
            let operator = self.previous().clone();
            let right = match self.comparison() {
                Ok(right) => right,
                Err(error) => {
                    return Err(error);
                },
            };
            proof {
                use_type_invariant(&*self);
            }
            expression = Expr::Binary(
                Binary { left: Box::new(expression), operator, right: Box::new(right) },
            );
        }
    }

    /// `term -> factor ( ( "-" | "+" ) factor )*`
    fn term(&mut self) -> (r: Result<Expr, ParseError>)
        ensures
            final(self).tokens == old(self).tokens,
            old(self).current <= final(self).current,
            parsed(r, final(self).current as int) == parse_at(
                Level::Term,
                token_views(old(self).tokens@),
                old(self).current as int,
            ),
        decreases old(self).tokens@.len() - old(self).current, 3nat,
    {
        proof {
            use_type_invariant(&*self);
        }
        let ghost tokens = token_views(self.tokens@);
        let ghost start = self.current as int;
        let mut expression = match self.factor() {
            Ok(expression) => expression,
            Err(error) => {
                return Err(error);
            },
        };
        proof {
            use_type_invariant(&*self);
        }
        loop
            invariant
                self.tokens == old(self).tokens,
                tokens == token_views(self.tokens@),
                start == old(self).current,
                start <= self.current < tokens.len(),
                parse_at(Level::Term, tokens, start) == parse_more(
                    Level::Term,
                    tokens,
                    self.current as int,
                    expression@,
                ),
            decreases self.tokens@.len() - self.current,
        {
            if !self.match_tokens(&[TokenType::Minus, TokenType::Plus]) {
                return Ok(expression);
            }
            proof {
                use_type_invariant(&*self);
            }
            let operator = self.previous().clone();
            let right = match self.factor() {
                Ok(right) => right,
                Err(error) => {
                    return Err(error);
                },
            };
            proof {
                use_type_invariant(&*self);
            }
            expression = Expr::Binary(
                Binary { left: Box::new(expression), operator, right: Box::new(right) },
            );
        }
    }

    /// `primary -> NUMBER | STRING | "true" | "false" | "nil" | "(" expression ")"`
    fn primary(&mut self) -> (r: Result<Expr, ParseError>)
        ensures
            final(self).tokens == old(self).tokens,
            old(self).current <= final(self).current,
            parsed(r, final(self).current as int) == parse_at(
                Level::Primary,
                token_views(old(self).tokens@),
                old(self).current as int,
            ),
        decreases old(self).tokens@.len() - old(self).current, 0nat,
    {
        proof {
            use_type_invariant(&*self);
        }
        if self.match_tokens(&[TokenType::Number]) {
            let token = self.previous();
            match &token.literal {
                Some(LiteralValue::Integer(n)) => Ok(
                    Expr::Literal(Literal { value: LiteralValue::Integer(*n) }),
                ),
                Some(LiteralValue::Float(decimal)) => Ok(
                    Expr::Literal(Literal { value: LiteralValue::Float(decimal.clone()) }),
                ),
                _ => Err(self.create_error(token, "Expected number literal")),
            }
        } else if self.match_tokens(&[TokenType::String]) {
            let token = self.previous();
            match &token.literal {
                Some(LiteralValue::String(text)) => Ok(
                    Expr::Literal(Literal { value: LiteralValue::String(text.clone()) }),
                ),
                _ => Err(self.create_error(token, "Expected string literal")),
            }
        } else if self.match_tokens(&[TokenType::True]) {
            Ok(Expr::Literal(Literal { value: LiteralValue::Boolean(true) }))
        } else if self.match_tokens(&[TokenType::False]) {
            Ok(Expr::Literal(Literal { value: LiteralValue::Boolean(false) }))
        } else if self.match_tokens(&[TokenType::Nil]) {
            Ok(Expr::Literal(Literal { value: LiteralValue::Nil }))
        } else if self.match_tokens(&[TokenType::LeftParen]) {
            proof {
                use_type_invariant(&*self);
            }
            let expression = match self.expression() {
                Ok(expression) => expression,
                Err(error) => {
                    return Err(error);
                },
            };
            proof {
                use_type_invariant(&*self);
            }
            match self.consume(TokenType::RightParen, "Expect ')' after expression.") {
                Ok(_) => Ok(Expr::Grouping(Grouping { expression: Box::new(expression) })),
                Err(error) => Err(error),
            }
        } else {
            Err(self.create_error(self.peek(), "Expect expression."))
        }
    }

    /// The error at `token` with `message`.
    fn create_error(&self, token: &Token, message: &str) -> (error: ParseError)
        ensures
            error@ == (ParseErrorView { token: token@, message: message@ }),
    {
        ParseError { token: token.clone(), message: String::from_str(message) }
    }

    /// The line that reports an error at `token`: its line number, where
    /// it lies (at the end of the input, or at the token's text), and the
    /// message.
    pub fn report_error(token: &Token, message: &str) -> (text: String)
        ensures
            text@ == report_text(token@, message@),
    {
        let mut text = String::from_str("[line ");
        let line = u64_to_text(token.line as u64);
        text.append(line.as_str());
        text.append("] Error");
        match token.token_type {
            TokenType::EOF => {
                text.append(" at end");
            },
            _ => {
                text.append(" at '");
                text.append(token.lexeme.as_str());
                text.append("'");
                assert(text@ =~= "[line "@ + nat_text(token@.line) + "] Error"@ + (" at '"@
                    + token@.lexeme + "'"@));
            },
        }
        text.append(": ");
        text.append(message);
        text
    }

    /// Reads the next token if it is of kind `token_type`; fails at it with
    /// `error_message` otherwise.
    fn consume(&mut self, token_type: TokenType, error_message: &str) -> (r: Result<
        &'a Token,
        ParseError,
    >)
        ensures
            final(self).tokens == old(self).tokens,
            match r {
                Ok(token) => {
                    &&& old(self).tokens@[old(self).current as int].token_type == token_type
                    &&& token_type != TokenType::EOF
                    &&& final(self).current == old(self).current + 1
                    &&& token == old(self).tokens@[old(self).current as int]
                },
                Err(error) => {
                    &&& !(old(self).tokens@[old(self).current as int].token_type == token_type
                        && token_type != TokenType::EOF)
                    &&& final(self).current == old(self).current
                    &&& error@ == (ParseErrorView {
                        token: old(self).tokens@[old(self).current as int]@,
                        message: error_message@,
                    })
                },
            },
    {
        proof {
            use_type_invariant(&*self);
        }
        if self.check(&token_type) {
            return Ok(self.advance());
        }
        Err(self.create_error(self.peek(), error_message))
    }

    /// `comma -> ternary ( "," ternary )*`
    fn comma(&mut self) -> (r: Result<Expr, ParseError>)
        ensures
            final(self).tokens == old(self).tokens,
            old(self).current <= final(self).current,
            parsed(r, final(self).current as int) == parse_at(
                Level::Comma,
                token_views(old(self).tokens@),
                old(self).current as int,
            ),
        decreases old(self).tokens@.len() - old(self).current, 7nat,
    {
        proof {
            use_type_invariant(&*self);
        }
        let ghost tokens = token_views(self.tokens@);
        let ghost start = self.current as int;
        let mut expression = match self.ternary() {
            Ok(expression) => expression,
            Err(error) => {
                return Err(error);
            },
        };
        proof {
            use_type_invariant(&*self);
        }
        loop
            invariant
                self.tokens == old(self).tokens,
                tokens == token_views(self.tokens@),
                start == old(self).current,
                start <= self.current < tokens.len(),
                parse_at(Level::Comma, tokens, start) == parse_more(
                    Level::Comma,
                    tokens,
                    self.current as int,
                    expression@,
                ),
            decreases self.tokens@.len() - self.current,
        {
            if !self.match_tokens(&[TokenType::Comma]) {
                return Ok(expression);
            }
            proof {
                use_type_invariant(&*self);
            }
            let operator = self.previous().clone();
            let right = match self.ternary() {
                Ok(right) => right,
                Err(error) => {
                    return Err(error);
                },
            };
            proof {
                use_type_invariant(&*self);
            }
            expression = Expr::Binary(
                Binary { left: Box::new(expression), operator, right: Box::new(right) },
            );
        }
    }

    /// `ternary -> equality ( ( "?" | ":" ) expression )*`
    fn ternary(&mut self) -> (r: Result<Expr, ParseError>)
        ensures
            final(self).tokens == old(self).tokens,
            old(self).current <= final(self).current,
            parsed(r, final(self).current as int) == parse_at(
                Level::Ternary,
                token_views(old(self).tokens@),
                old(self).current as int,
            ),
        decreases old(self).tokens@.len() - old(self).current, 6nat,
    {
        proof {
            use_type_invariant(&*self);
        }
        let ghost tokens = token_views(self.tokens@);
        let ghost start = self.current as int;
        let mut expression = match self.equality() {
            Ok(expression) => expression,
            Err(error) => {
                return Err(error);
            },
        };
        proof {
            use_type_invariant(&*self);
        }
        loop
            invariant
                self.tokens == old(self).tokens,
                tokens == token_views(self.tokens@),
                start == old(self).current,
                start <= self.current < tokens.len(),
                parse_at(Level::Ternary, tokens, start) == parse_more(
                    Level::Ternary,
                    tokens,
                    self.current as int,
                    expression@,
                ),
            decreases self.tokens@.len() - self.current,
        {
            if !self.match_tokens(&[TokenType::Question, TokenType::Colon]) {
                return Ok(expression);
            }
            proof {
                use_type_invariant(&*self);
            }
            let operator = self.previous().clone();
            let right = match self.expression() {
                Ok(right) => right,
                Err(error) => {
                    return Err(error);
                },
            };
            proof {
                use_type_invariant(&*self);
            }
            expression = Expr::Binary(
                Binary { left: Box::new(expression), operator, right: Box::new(right) },
            );
        }
    }

    /// `unary -> ( "!" | "-" ) unary | primary`
    fn unary(&mut self) -> (r: Result<Expr, ParseError>)
        ensures
            final(self).tokens == old(self).tokens,
            old(self).current <= final(self).current,
            parsed(r, final(self).current as int) == parse_at(
                Level::Unary,
                token_views(old(self).tokens@),
                old(self).current as int,
            ),
        decreases old(self).tokens@.len() - old(self).current, 1nat,
    {
        proof {
            use_type_invariant(&*self);
        }
        if self.match_tokens(&[TokenType::Bang, TokenType::Minus]) {
            proof {
                use_type_invariant(&*self);
            }
            let operator = self.previous().clone();
            return match self.unary() {
                Ok(right) => Ok(Expr::Unary(Unary { operator, right: Box::new(right) })),
                Err(error) => Err(error),
            };
        }
        self.primary()
    }

    /// `factor -> unary ( ( "/" | "*" ) unary )*`
    fn factor(&mut self) -> (r: Result<Expr, ParseError>)
        ensures
            final(self).tokens == old(self).tokens,
            old(self).current <= final(self).current,
            parsed(r, final(self).current as int) == parse_at(
                Level::Factor,
                token_views(old(self).tokens@),
                old(self).current as int,
            ),
        decreases old(self).tokens@.len() - old(self).current, 2nat,
    {
        proof {
            use_type_invariant(&*self);
        }
        let ghost tokens = token_views(self.tokens@);
        let ghost start = self.current as int;
        let mut expression = match self.unary() {
            Ok(expression) => expression,
            Err(error) => {
                return Err(error);
            },
        };
        proof {
            use_type_invariant(&*self);
        }
        loop
            invariant
                self.tokens == old(self).tokens,
                tokens == token_views(self.tokens@),
                start == old(self).current,
                start <= self.current < tokens.len(),
                parse_at(Level::Factor, tokens, start) == parse_more(
                    Level::Factor,
                    tokens,
                    self.current as int,
                    expression@,
                ),
            decreases self.tokens@.len() - self.current,
        {
            if !self.match_tokens(&[TokenType::Slash, TokenType::Star]) {
                return Ok(expression);
            }
            proof {
                use_type_invariant(&*self);
            }
            let operator = self.previous().clone();
            let right = match self.unary() {
                Ok(right) => right,
                Err(error) => {
                    return Err(error);
                },
            };
            proof {
                use_type_invariant(&*self);
            }
            expression = Expr::Binary(
                Binary { left: Box::new(expression), operator, right: Box::new(right) },
            );
        }
    }

    /// Reads the next token if its kind is one of `types`, and tells whether
    /// it was.
    fn match_tokens(&mut self, types: &[TokenType]) -> (r: bool)
        ensures
            final(self).tokens == old(self).tokens,
            r == (types@.contains(old(self).tokens@[old(self).current as int].token_type) && old(
                self,
            ).tokens@[old(self).current as int].token_type != TokenType::EOF),
            final(self).current == old(self).current + if r {
                1int
            } else {
                0int
            },
    {
        proof {
            use_type_invariant(&*self);
        }
        let mut i: usize = 0;
        while i < types.len()
            invariant
                i <= types.len(),
                *self == *old(self),
                self.current < self.tokens@.len(),
                forall|j: int|
                    0 <= j < i ==> !(types@[j] == self.tokens@[self.current as int].token_type
                        && types@[j] != TokenType::EOF),
            decreases types.len() - i,
        {
            if self.check(&types[i]) {
                self.advance();
                return true;
            }
            i = i + 1;
        }
        false
    }

    /// Tells whether the next token is of kind `token_type`. The end token
    /// is of no kind to read.
    fn check(&self, token_type: &TokenType) -> (r: bool)
        ensures
            r == (self.tokens@[self.current as int].token_type == *token_type && *token_type
                != TokenType::EOF),
    {
        if self.is_at_end() {
            return false;
        }
        self.peek().token_type == *token_type
    }

    /// Reads the next token, which is not the end token.
    fn advance(&mut self) -> (token: &'a Token)
        requires
            old(self).current < old(self).tokens@.len(),
            old(self).tokens@[old(self).current as int].token_type != TokenType::EOF,
        ensures
            final(self).tokens == old(self).tokens,
            final(self).current == old(self).current + 1,
            token == old(self).tokens@[old(self).current as int],
    {
        proof {
            use_type_invariant(&*self);
            assert(token_views(self.tokens@).last() == self.tokens@.last()@);
        }
        self.current = self.current + 1;
        self.previous()
    }

    /// Tells whether the next token is the end token.
    fn is_at_end(&self) -> (r: bool)
        ensures
            r == (self.tokens@[self.current as int].token_type == TokenType::EOF),
    {
        self.peek().token_type == TokenType::EOF
    }

    /// The next token.
    fn peek(&self) -> (token: &'a Token)
        ensures
            self.current < self.tokens@.len(),
            token == self.tokens@[self.current as int],
    {
        proof {
            use_type_invariant(self);
        }
        &self.tokens[self.current]
    }

    /// The token read last.
    fn previous(&self) -> (token: &'a Token)
        requires
            self.current >= 1,
        ensures
            token == self.tokens@[self.current - 1],
    {
        proof {
            use_type_invariant(self);
        }
        &self.tokens[self.current - 1]
    }
}

} // verus!
