//! Tokens and the scanner that cuts a source text into them.

use vstd::prelude::*;
use vstd::string::*;

use crate::ast::{literal_view, Decimal, LiteralValue, LiteralView};
use crate::grammar::terminated;
use crate::lexical::{
    char_at, comment_end, end_token, in_class, is_alpha, is_alphanumeric, keyword, lemma_lexed_end,
    lemma_line_step, lemma_run_end, lemma_run_end_is, lemma_scan_ends, lex_at, line_at, run_end,
    scan, scan_from, token_at, CharClass, Lexed,
};
use crate::numeral::{canonical_decimal_text, digits_to_i64, is_digit, is_digit_char};
use crate::text::{chars_of, spells};

verus! {

/// The kind of a token.
#[derive(Debug, Clone, Copy, PartialEq, Eq, Structural)]
pub enum TokenType {
    // Single-character tokens.
    LeftParen,
    RightParen,
    LeftBrace,
    RightBrace,
    Comma,
    Dot,
    Minus,
    Plus,
    Semicolon,
    Slash,
    Star,
    Question,
    Colon,
    // One or two character tokens.
    Bang,
    BangOrEqual,
    Equal,
    EqualAndEqual,
    Greater,
    GreaterOrEqual,
    Less,
    LessOrEqual,
    // Literals.
    Identifier,
    String,
    Number,
    // Keywords.
    And,
    Class,
    Else,
    False,
    Fun,
    For,
    If,
    Nil,
    Or,
    Print,
    Return,
    Super,
    This,
    True,
    Var,
    While,
    // The end of the input.
    EOF,
}

/// One lexical unit of a source text.
#[derive(Debug, PartialEq, Eq)]
pub struct Token {
    pub token_type: TokenType,
    /// The text of the token, exactly as the source has it.
    pub lexeme: String,
    /// The decoded value of a `Number` or `String` token.
    pub literal: Option<LiteralValue>,
    /// The line, counted from 1, on which the token ends.
    pub line: usize,
}

/// What a `Token` stands for.
pub struct TokenView {
    pub token_type: TokenType,
    pub lexeme: Seq<char>,
    pub literal: Option<LiteralView>,
    pub line: nat,
}

impl View for Token {
    type V = TokenView;

    open spec fn view(&self) -> TokenView {
        TokenView {
            token_type: self.token_type,
            lexeme: self.lexeme@,
            literal: literal_view(self.literal),
            line: self.line as nat,
        }
    }
}

impl Clone for Token {
    fn clone(&self) -> (copy: Self)
        ensures
            copy@ == self@,
    {
        Token {
            token_type: self.token_type,
            lexeme: self.lexeme.clone(),
            literal: match &self.literal {
                Some(value) => Some(value.clone()),
                None => None,
            },
            line: self.line,
        }
    }
}

impl Token {
    /// The token with these four parts.
    pub fn new(
        token_type: TokenType,
        lexeme: String,
        literal: Option<LiteralValue>,
        line: usize,
    ) -> (token: Token)
        ensures
            token.token_type == token_type,
            token.lexeme == lexeme,
            token.literal == literal,
            token.line == line,
    {
        Token { token_type, lexeme, literal, line }
    }
}

/// The views of a sequence of tokens, in order.
pub open spec fn token_views(tokens: Seq<Token>) -> Seq<TokenView> {
    tokens.map_values(|t: Token| t@)
}

/// Why a scan failed: the character at fault and the line it stands on.
#[derive(Debug, Clone, Copy, PartialEq, Eq, Structural)]
pub struct LexError {
    pub line: usize,
    pub character: char,
}

/// What a `LexError` stands for.
pub struct LexErrorView {
    pub line: nat,
    pub character: char,
}

impl View for LexError {
    type V = LexErrorView;

    open spec fn view(&self) -> LexErrorView {
        LexErrorView { line: self.line as nat, character: self.character }
    }
}

/// The outcome of a scan that has read `tokens` and has `rest` still to
/// come: all the tokens, or the error that `rest` ends in.
pub open spec fn scanned_after(
    tokens: Seq<TokenView>,
    rest: Result<Seq<TokenView>, LexErrorView>,
) -> Result<Seq<TokenView>, LexErrorView> {
    match rest {
        Ok(more) => Ok(tokens + more),
        Err(error) => Err(error),
    }
}

/// A source text, with its characters laid out to be read by position.
struct Source {
    text: String,
    chars: Vec<char>,
}

impl Source {
    #[verifier::type_invariant]
    spec fn well_formed(self) -> bool {
        &&& self.chars@ == self.text@
        &&& self.chars.len() < usize::MAX
    }
}

/// A scanner over one source text. It reads the source through a window of
/// two cursors: `start`, where the lexeme being read begins, and `current`,
/// the next character to read.
pub struct Scanner {
    source: Source,
    tokens: Vec<Token>,
    start: usize,
    current: usize,
    line: usize,
}

impl Scanner {
    /// The source text that the scanner reads.
    pub closed spec fn source(&self) -> Seq<char> {
        self.source.text@
    }

    /// The window lies within the source, and `line` is the line of
    /// `current`.
    spec fn cursor_ok(&self) -> bool {
        &&& self.start <= self.current <= self.source.chars.len()
        &&& self.line == line_at(self.source.chars@, self.current as int)
    }

    /// `self` differs from `pre` at most in `current` and `line`.
    spec fn same_but_cursor(&self, pre: &Scanner) -> bool {
        &&& self.source == pre.source
        &&& self.tokens == pre.tokens
        &&& self.start == pre.start
    }

    /// `self` is what `pre` becomes by reading what stands at `pre.start`,
    /// with `r` telling whether that was an error.
    spec fn stepped(&self, pre: &Scanner, r: Result<(), LexError>) -> bool {
        let src = pre.source.chars@;
        let pos = pre.start as int;
        &&& self.source == pre.source
        &&& match lex_at(src, pos) {
            Lexed::Error { error } => r matches Err(e) && e@ == error,
            Lexed::Skip { end } => {
                &&& r is Ok
                &&& self.current == end
                &&& self.cursor_ok()
                &&& self.tokens == pre.tokens
            },
            Lexed::Token { token_type, end } => {
                &&& r is Ok
                &&& self.current == end
                &&& self.cursor_ok()
                &&& token_views(self.tokens@) == token_views(pre.tokens@).push(
                    token_at(src, pos, end, token_type),
                )
            },
        }
    }

    /// A scanner over `source_code`.
    pub fn new(source_code: String) -> (scanner: Scanner)
        requires
            source_code@.len() < usize::MAX,
        ensures
            scanner.source() == source_code@,
    {
        let chars = chars_of(source_code.as_str());
        Scanner {
            source: Source { text: source_code, chars },
            tokens: Vec::new(),
            start: 0,
            current: 0,
            line: 1,
        }
    }

    /// Reads one character, and counts the line it ends if it is a newline.
    fn advance(&mut self) -> (c: char)
        requires
            old(self).cursor_ok(),
            old(self).current < old(self).source.chars.len(),
        ensures
            final(self).cursor_ok(),
            final(self).same_but_cursor(old(self)),
            final(self).current == old(self).current + 1,
            c == old(self).source.chars@[old(self).current as int],
    {
        proof {
            use_type_invariant(&self.source);
            lemma_line_step(self.source.chars@, self.current as int);
        }
        let c = self.source.chars[self.current];
        self.current = self.current + 1;
        if c == '\n' {
            self.line = self.line + 1;
        }
        c
    }

    /// Adds the token of kind `token_type` whose text is the window and which
    /// carries no value.
    fn add_token_with_type(&mut self, token_type: TokenType)
        requires
            old(self).cursor_ok(),
        ensures
            final(self).cursor_ok(),
            final(self).source == old(self).source,
            final(self).start == old(self).start,
            final(self).current == old(self).current,
            token_views(final(self).tokens@) == token_views(old(self).tokens@).push(
                TokenView {
                    token_type,
                    lexeme: old(self).source.chars@.subrange(
                        old(self).start as int,
                        old(self).current as int,
                    ),
                    literal: None,
                    line: old(self).line as nat,
                },
            ),
    {
        self.add_token(token_type, None);
    }

    /// Adds the token whose text is the window.
    fn add_token(&mut self, token_type: TokenType, literal: Option<LiteralValue>)
        requires
            old(self).cursor_ok(),
        ensures
            final(self).cursor_ok(),
            final(self).source == old(self).source,
            final(self).start == old(self).start,
            final(self).current == old(self).current,
            token_views(final(self).tokens@) == token_views(old(self).tokens@).push(
                TokenView {
                    token_type,
                    lexeme: old(self).source.chars@.subrange(
                        old(self).start as int,
                        old(self).current as int,
                    ),
                    literal: literal_view(literal),
                    line: old(self).line as nat,
                },
            ),
    {
        proof {
            use_type_invariant(&self.source);
        }
        let text = self.source.text.as_str().substring_char(self.start, self.current);
        let token = Token::new(token_type, String::from_str(text), literal, self.line);
        self.tokens.push(token);
        assert(token_views(self.tokens@) =~= token_views(old(self).tokens@).push(token@));
    }

    /// Scans the source from its beginning: the tokens in the order of the
    /// source, closed by the end token; or the first error.
    pub fn scan_tokens(&mut self) -> (r: Result<&Vec<Token>, LexError>)
        ensures
            final(self).source() == old(self).source(),
            match r {
                Ok(tokens) => {
                    &&& scan(old(self).source()) == Ok::<Seq<TokenView>, LexErrorView>(
                        token_views(tokens@),
                    )
                    &&& terminated(token_views(tokens@))
                },
                Err(error) => scan(old(self).source()) == Err::<Seq<TokenView>, LexErrorView>(
                    error@,
                ),
            },
    {
        proof {
            use_type_invariant(&self.source);
        }
        self.tokens = Vec::new();
        self.start = 0;
        self.current = 0;
        self.line = 1;
        let ghost src = self.source.chars@;
        assert(src.take(0) =~= Seq::<char>::empty());
        assert(token_views(self.tokens@) =~= Seq::<TokenView>::empty());
        assert(Seq::<TokenView>::empty() + scan_from(src, 0)->Ok_0 =~= scan_from(src, 0)->Ok_0);
        while !self.is_at_end()
            invariant
                self.cursor_ok(),
                self.source == old(self).source,
                self.source.chars@ == src,
                src == old(self).source(),
                scanned_after(token_views(self.tokens@), scan_from(src, self.current as int))
                    == scan(src),
            decreases self.source.chars.len() - self.current,
        {
            self.start = self.current;
            let ghost pre = *self;
            proof {
                lemma_lexed_end(src, self.current as int);
            }
            match self.scan_token() {
                Ok(()) => {},
                Err(error) => {
                    return Err(error);
                },
            }
            proof {
                let pos = pre.start as int;
                match lex_at(src, pos) {
                    Lexed::Token { token_type, end } => {
                        let token = token_at(src, pos, end, token_type);
                        let before = token_views(pre.tokens@);
                        match scan_from(src, end) {
                            Ok(rest) => {
                                assert(before.push(token) + rest =~= before + (seq![token] + rest));
                            },
                            Err(error) => {},
                        }
                    },
                    _ => {},
                }
            }
        }
        let ghost scanned = token_views(self.tokens@);
        let end = Token::new(TokenType::EOF, String::new(), None, self.line);
        self.tokens.push(end);
        proof {
            assert(end@ == end_token(src)) by {
                assert(src.take(src.len() as int) =~= src);
            }
            assert(token_views(self.tokens@) =~= scanned + seq![end_token(src)]);
            lemma_scan_ends(src, 0);
        }
        Ok(&self.tokens)
    }

    /// Tells whether the whole source has been read.
    fn is_at_end(&self) -> (r: bool)
        ensures
            r == (self.current >= self.source.chars.len()),
    {
        self.current >= self.source.chars.len()
    }

    /// Reads what stands at the beginning of the window.
    fn scan_token(&mut self) -> (r: Result<(), LexError>)
        requires
            old(self).cursor_ok(),
            old(self).start == old(self).current,
            old(self).current < old(self).source.chars.len(),
        ensures
            final(self).stepped(old(self), r),
    {
        proof {
            use_type_invariant(&self.source);
            lemma_lexed_end(self.source.chars@, self.current as int);
        }
        let line = self.line;
        let c = self.advance();
        if c == '(' {
            self.add_token_with_type(TokenType::LeftParen);
        } else if c == ')' {
            self.add_token_with_type(TokenType::RightParen);
        } else if c == '{' {
            self.add_token_with_type(TokenType::LeftBrace);
        } else if c == '}' {
            self.add_token_with_type(TokenType::RightBrace);
        } else if c == ',' {
            self.add_token_with_type(TokenType::Comma);
        } else if c == '.' {
            self.add_token_with_type(TokenType::Dot);
        } else if c == '-' {
            self.add_token_with_type(TokenType::Minus);
        } else if c == '+' {
            self.add_token_with_type(TokenType::Plus);
        } else if c == ';' {
            self.add_token_with_type(TokenType::Semicolon);
        } else if c == '*' {
            self.add_token_with_type(TokenType::Star);
        } else if c == '?' {
            self.add_token_with_type(TokenType::Question);
        } else if c == ':' {
            self.add_token_with_type(TokenType::Colon);
        } else if c == '!' {
            let token_type = if self.validate_symbol('=') {
                TokenType::BangOrEqual
            } else {
                TokenType::Bang
            };
            self.add_token_with_type(token_type);
        } else if c == '=' {
            let token_type = if self.validate_symbol('=') {
                TokenType::EqualAndEqual
            } else {
                TokenType::Equal
            };
            self.add_token_with_type(token_type);
        } else if c == '<' {
            let token_type = if self.validate_symbol('=') {
                TokenType::LessOrEqual
            } else {
                TokenType::Less
            };
            self.add_token_with_type(token_type);
        } else if c == '>' {
            let token_type = if self.validate_symbol('=') {
                TokenType::GreaterOrEqual
            } else {
                TokenType::Greater
            };
            self.add_token_with_type(token_type);
        } else if c == '/' {
            if self.validate_symbol('/') {
                self.line_comment();
            } else if self.validate_symbol('*') {
                return self.block_comment(line);
            } else {
                self.add_token_with_type(TokenType::Slash);
            }
        } else if c == '"' {
            return self.string(line);
        } else if c == ' ' || c == '\r' || c == '\t' || c == '\n' {
        } else if is_digit_char(c) {
            self.number();
        } else if self.is_alpha(c) {
            self.identifier();
        } else {
            return Err(LexError { line, character: c });
        }
        Ok(())
    }

    /// Passes over the rest of a line comment, up to the newline that ends
    /// it.
    fn line_comment(&mut self)
        requires
            old(self).cursor_ok(),
            old(self).start + 2 == old(self).current,
        ensures
            final(self).cursor_ok(),
            final(self).same_but_cursor(old(self)),
            final(self).current == run_end(
                old(self).source.chars@,
                old(self).start + 2,
                CharClass::LineRest,
            ),
    {
        while self.peek() != '\n' && !self.is_at_end()
            invariant
                self.cursor_ok(),
                self.same_but_cursor(old(self)),
                run_end(self.source.chars@, self.current as int, CharClass::LineRest) == run_end(
                    self.source.chars@,
                    self.start + 2,
                    CharClass::LineRest,
                ),
            decreases self.source.chars.len() - self.current,
        {
            self.advance();
        }
    }

    /// Passes over the rest of a block comment, through the `*/` that closes
    /// it. `line` is the line on which the comment opens.
    fn block_comment(&mut self, line: usize) -> (r: Result<(), LexError>)
        requires
            old(self).cursor_ok(),
            old(self).start + 2 == old(self).current,
            line == line_at(old(self).source.chars@, old(self).start as int),
        ensures
            final(self).source == old(self).source,
            match comment_end(old(self).source.chars@, old(self).start + 2) {
                Some(end) => {
                    &&& r is Ok
                    &&& final(self).current == end
                    &&& final(self).cursor_ok()
                    &&& final(self).same_but_cursor(old(self))
                },
                None => r matches Err(e) && e@ == (LexErrorView {
                    line: line as nat,
                    character: '/',
                }),
            },
    {
        loop
            invariant
                self.cursor_ok(),
                self.same_but_cursor(old(self)),
                self.start + 2 <= self.current,
                comment_end(self.source.chars@, self.current as int) == comment_end(
                    self.source.chars@,
                    self.start + 2,
                ),
            decreases self.source.chars.len() - self.current,
        {
            proof {
                use_type_invariant(&self.source);
            }
            if self.source.chars.len() - self.current < 2 {
                return Err(LexError { line, character: '/' });
            }
            if self.peek() == '*' && self.peek_next() == '/' {
                self.advance();
                self.advance();
                return Ok(());
            }
            self.advance();
        }
    }

    /// Reads the rest of a string literal, through the quote that closes it.
    /// `line` is the line on which the string opens.
    fn string(&mut self, line: usize) -> (r: Result<(), LexError>)
        requires
            old(self).cursor_ok(),
            old(self).start + 1 == old(self).current,
            old(self).source.chars@[old(self).start as int] == '"',
            line == line_at(old(self).source.chars@, old(self).start as int),
        ensures
            final(self).stepped(old(self), r),
    {
        while self.peek() != '"' && !self.is_at_end()
            invariant
                self.cursor_ok(),
                self.same_but_cursor(old(self)),
                self.start + 1 <= self.current,
                run_end(self.source.chars@, self.current as int, CharClass::StringBody) == run_end(
                    self.source.chars@,
                    self.start + 1,
                    CharClass::StringBody,
                ),
            decreases self.source.chars.len() - self.current,
        {
            self.advance();
        }
        if self.is_at_end() {
            return Err(LexError { line, character: '"' });
        }
        // The closing quote.
        self.advance();
        proof {
            use_type_invariant(&self.source);
        }
        // The value is the text between the quotes.
        let value = self.source.text.as_str().substring_char(self.start + 1, self.current - 1);
        self.add_token(TokenType::String, Some(LiteralValue::String(String::from_str(value))));
        proof {
            let src = self.source.chars@;
            let lexeme = src.subrange(self.start as int, self.current as int);
            assert(lexeme.subrange(1, lexeme.len() - 1) =~= src.subrange(
                self.start + 1,
                self.current - 1,
            ));
        }
        Ok(())
    }

    /// Tells whether `c` is a decimal digit.
    fn is_digit(&self, c: char) -> (r: bool)
        ensures
            r == is_digit(c),
    {
        is_digit_char(c)
    }

    /// Reads the rest of a numeral: the digits, and a fractional part if one
    /// follows.
    fn number(&mut self)
        requires
            old(self).cursor_ok(),
            old(self).start + 1 == old(self).current,
            is_digit(old(self).source.chars@[old(self).start as int]),
        ensures
            final(self).stepped(old(self), Ok(())),
    {
        let ghost src = self.source.chars@;
        while self.is_digit(self.peek())
            invariant
                self.cursor_ok(),
                self.same_but_cursor(old(self)),
                self.source.chars@ == src,
                run_end(src, self.current as int, CharClass::Digit) == run_end(
                    src,
                    self.start as int,
                    CharClass::Digit,
                ),
            decreases self.source.chars.len() - self.current,
        {
            self.advance();
        }
        let whole_end = self.current;
        let mut fraction = false;
        if self.peek() == '.' && self.is_digit(self.peek_next()) {
            fraction = true;
            // The point.
            self.advance();
            while self.is_digit(self.peek())
                invariant
                    self.cursor_ok(),
                    self.same_but_cursor(old(self)),
                    self.source.chars@ == src,
                    whole_end < self.current,
                    run_end(src, self.current as int, CharClass::Digit) == run_end(
                        src,
                        whole_end + 1,
                        CharClass::Digit,
                    ),
                decreases self.source.chars.len() - self.current,
            {
                self.advance();
            }
        }
        proof {
            use_type_invariant(&self.source);
            lemma_run_end(src, self.start as int, CharClass::Digit);
            if fraction {
                lemma_run_end(src, whole_end + 1, CharClass::Digit);
            }
        }
        let source = self.source.text.as_str();
        let whole = source.substring_char(self.start, whole_end);
        let literal = if fraction {
            let digits = source.substring_char(whole_end + 1, self.current);
            LiteralValue::Float(Decimal { text: canonical_decimal_text(whole, digits) })
        } else {
            match digits_to_i64(whole) {
                Some(value) => LiteralValue::Integer(value),
                None => {
                    let digits = source.substring_char(self.current, self.current);
                    LiteralValue::Float(Decimal { text: canonical_decimal_text(whole, digits) })
                },
            }
        };
        proof {
            let lexeme = src.subrange(self.start as int, self.current as int);
            let k = whole_end - self.start;
            assert forall|i: int| 0 <= i < k implies in_class(
                CharClass::Digit,
                #[trigger] lexeme[i],
            ) by {
                assert(lexeme[i] == src[self.start + i]);
            }
            lemma_run_end_is(lexeme, 0, CharClass::Digit, k);
            assert(lexeme.take(k) =~= src.subrange(self.start as int, whole_end as int));
            if fraction {
                assert(lexeme.skip(k + 1) =~= src.subrange(whole_end + 1, self.current as int));
            } else {
                assert(src.subrange(self.current as int, self.current as int) =~= Seq::<
                    char,
                >::empty());
            }
        }
        self.add_token(TokenType::Number, Some(literal));
    }

    /// The character after the next one, or the null character at the end.
    fn peek_next(&self) -> (c: char)
        requires
            self.current <= self.source.chars.len(),
        ensures
            c == char_at(self.source.chars@, self.current + 1),
    {
        proof {
            use_type_invariant(&self.source);
        }
        if self.current + 1 >= self.source.chars.len() {
            '\0'
        } else {
            self.source.chars[self.current + 1]
        }
    }

    /// The next character, or the null character at the end.
    fn peek(&self) -> (c: char)
        ensures
            c == char_at(self.source.chars@, self.current as int),
    {
        if self.is_at_end() {
            '\0'
        } else {
            self.source.chars[self.current]
        }
    }

    /// Reads the next character if it is `c`, and tells whether it was.
    fn validate_symbol(&mut self, c: char) -> (r: bool)
        requires
            old(self).cursor_ok(),
        ensures
            final(self).cursor_ok(),
            final(self).same_but_cursor(old(self)),
            r == (old(self).current < old(self).source.chars.len() && old(self).source.chars@[old(
                self,
            ).current as int] == c),
            final(self).current == old(self).current + if r {
                1int
            } else {
                0int
            },
    {
        if self.is_at_end() || self.source.chars[self.current] != c {
            false
        } else {
            self.advance();
            true
        }
    }

    /// Tells whether `c` may begin an identifier.
    fn is_alpha(&self, c: char) -> (r: bool)
        ensures
            r == is_alpha(c),
    {
        (c >= 'a' && c <= 'z') || (c >= 'A' && c <= 'Z') || c == '_'
    }

    /// Tells whether `c` may continue an identifier.
    fn is_alphanumeric(&self, c: char) -> (r: bool)
        ensures
            r == is_alphanumeric(c),
    {
        self.is_alpha(c) || self.is_digit(c)
    }

    /// Reads the rest of a word, and adds it as its keyword or as an
    /// identifier.
    fn identifier(&mut self)
        requires
            old(self).cursor_ok(),
            old(self).start + 1 == old(self).current,
            is_alpha(old(self).source.chars@[old(self).start as int]),
        ensures
            final(self).stepped(old(self), Ok(())),
    {
        while self.is_alphanumeric(self.peek())
            invariant
                self.cursor_ok(),
                self.same_but_cursor(old(self)),
                self.start + 1 <= self.current,
                run_end(self.source.chars@, self.current as int, CharClass::Word) == run_end(
                    self.source.chars@,
                    self.start + 1,
                    CharClass::Word,
                ),
            decreases self.source.chars.len() - self.current,
        {
            self.advance();
        }
        let token_type = match self.keyword() {
            Some(token_type) => token_type,
            None => TokenType::Identifier,
        };
        self.add_token_with_type(token_type);
    }

    /// The keyword that the window spells, if it spells one.
    fn keyword(&self) -> (r: Option<TokenType>)
        requires
            self.cursor_ok(),
        ensures
            r == keyword(self.source.chars@.subrange(self.start as int, self.current as int)),
    {
        let chars = &self.source.chars;
        let start = self.start;
        let end = self.current;
        if spells(chars, start, end, "and") {
            Some(TokenType::And)
        } else if spells(chars, start, end, "class") {
            Some(TokenType::Class)
        } else if spells(chars, start, end, "else") {
            Some(TokenType::Else)
        } else if spells(chars, start, end, "false") {
            Some(TokenType::False)
        } else if spells(chars, start, end, "for") {
            Some(TokenType::For)
        } else if spells(chars, start, end, "fun") {
            Some(TokenType::Fun)
        } else if spells(chars, start, end, "if") {
            Some(TokenType::If)
        } else if spells(chars, start, end, "nil") {
            Some(TokenType::Nil)
        } else if spells(chars, start, end, "or") {
            Some(TokenType::Or)
        } else if spells(chars, start, end, "print") {
            Some(TokenType::Print)
        } else if spells(chars, start, end, "return") {
            Some(TokenType::Return)
        } else if spells(chars, start, end, "super") {
            Some(TokenType::Super)
        } else if spells(chars, start, end, "this") {
            Some(TokenType::This)
        } else if spells(chars, start, end, "true") {
            Some(TokenType::True)
        } else if spells(chars, start, end, "var") {
            Some(TokenType::Var)
        } else if spells(chars, start, end, "while") {
            Some(TokenType::While)
        } else {
            None
        }
    }
}

} // verus!
