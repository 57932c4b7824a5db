//! The lexical grammar: what the scan of a source text is.
//!
//! A source is a sequence of characters. `lex_at` says what stands at one
//! position: a token, something to pass over, or an error. `scan` strings
//! these together from the first position to the end of the source.

use vstd::prelude::*;

use crate::ast::LiteralView;
use crate::lexer::{LexErrorView, TokenType, TokenView};
use crate::numeral::{canonical_decimal, digits_value, is_digit};

verus! {

/// `c` may begin an identifier: an ASCII letter or an underscore.
pub open spec fn is_alpha(c: char) -> bool {
    ('a' <= c <= 'z') || ('A' <= c <= 'Z') || c == '_'
}

/// `c` may continue an identifier.
pub open spec fn is_alphanumeric(c: char) -> bool {
    is_alpha(c) || is_digit(c)
}

/// `c` is blank: a space, a tab, a carriage return or a newline.
pub open spec fn is_blank(c: char) -> bool {
    c == ' ' || c == '\r' || c == '\t' || c == '\n'
}

/// The number of newlines in `s`.
pub open spec fn newlines(s: Seq<char>) -> nat
    decreases s.len(),
{
    if s.len() == 0 {
        0
    } else {
        newlines(s.drop_last()) + if s.last() == '\n' {
            1nat
        } else {
            0nat
        }
    }
}

/// The line, counted from 1, on which position `pos` of `src` lies: one more
/// than the number of newlines before it.
pub open spec fn line_at(src: Seq<char>, pos: int) -> nat {
    1 + newlines(src.take(pos))
}

/// The character at `pos`, or the null character where `src` has none.
pub open spec fn char_at(src: Seq<char>, pos: int) -> char {
    if 0 <= pos < src.len() {
        src[pos]
    } else {
        '\0'
    }
}

/// The kinds of character that a lexeme may run over.
pub enum CharClass {
    /// A decimal digit.
    Digit,
    /// A letter, a digit or an underscore.
    Word,
    /// Anything but a newline.
    LineRest,
    /// Anything but a double quote.
    StringBody,
}

/// `c` is a character of the kind `class`.
pub open spec fn in_class(class: CharClass, c: char) -> bool {
    match class {
        CharClass::Digit => is_digit(c),
        CharClass::Word => is_alphanumeric(c),
        CharClass::LineRest => c != '\n',
        CharClass::StringBody => c != '"',
    }
}

/// The first position at or after `from` whose character is not in `class`,
/// or the length of `src` if there is none.
pub open spec fn run_end(src: Seq<char>, from: int, class: CharClass) -> int
    decreases src.len() - from,
{
    if 0 <= from < src.len() && in_class(class, src[from]) {
        run_end(src, from + 1, class)
    } else {
        from
    }
}

/// The position just after the first `*/` that begins at or after `from`.
pub open spec fn comment_end(src: Seq<char>, from: int) -> Option<int>
    decreases src.len() - from,
{
    if from < 0 || from + 1 >= src.len() {
        None
    } else if src[from] == '*' && src[from + 1] == '/' {
        Some(from + 2)
    } else {
        comment_end(src, from + 1)
    }
}

/// The end of the numeral that begins at `pos`: a run of digits, and then,
/// only if a point and at least one digit follow, the point and the digits
/// after it.
pub open spec fn number_end(src: Seq<char>, pos: int) -> int {
    let whole_end = run_end(src, pos, CharClass::Digit);
    if char_at(src, whole_end) == '.' && is_digit(char_at(src, whole_end + 1)) {
        run_end(src, whole_end + 1, CharClass::Digit)
    } else {
        whole_end
    }
}

/// The token kind of a one-character punctuation mark.
pub open spec fn punctuation(c: char) -> Option<TokenType> {
    if c == '(' {
        Some(TokenType::LeftParen)
    } else if c == ')' {
        Some(TokenType::RightParen)
    } else if c == '{' {
        Some(TokenType::LeftBrace)
    } else if c == '}' {
        Some(TokenType::RightBrace)
    } else if c == ',' {
        Some(TokenType::Comma)
    } else if c == '.' {
        Some(TokenType::Dot)
    } else if c == '-' {
        Some(TokenType::Minus)
    } else if c == '+' {
        Some(TokenType::Plus)
    } else if c == ';' {
        Some(TokenType::Semicolon)
    } else if c == '*' {
        Some(TokenType::Star)
    } else if c == '?' {
        Some(TokenType::Question)
    } else if c == ':' {
        Some(TokenType::Colon)
    } else {
        None
    }
}

/// The token kinds of an operator that may be followed by `=`: first alone,
/// then with the `=`.
pub open spec fn comparison_operator(c: char) -> Option<(TokenType, TokenType)> {
    if c == '!' {
        Some((TokenType::Bang, TokenType::BangOrEqual))
    } else if c == '=' {
        Some((TokenType::Equal, TokenType::EqualAndEqual))
    } else if c == '<' {
        Some((TokenType::Less, TokenType::LessOrEqual))
    } else if c == '>' {
        Some((TokenType::Greater, TokenType::GreaterOrEqual))
    } else {
        None
    }
}

/// The keyword that `text` spells, if it spells one.
pub open spec fn keyword(text: Seq<char>) -> Option<TokenType> {
    if text == "and"@ {
        Some(TokenType::And)
    } else if text == "class"@ {
        Some(TokenType::Class)
    } else if text == "else"@ {
        Some(TokenType::Else)
    } else if text == "false"@ {
        Some(TokenType::False)
    } else if text == "for"@ {
        Some(TokenType::For)
    } else if text == "fun"@ {
        Some(TokenType::Fun)
    } else if text == "if"@ {
        Some(TokenType::If)
    } else if text == "nil"@ {
        Some(TokenType::Nil)
    } else if text == "or"@ {
        Some(TokenType::Or)
    } else if text == "print"@ {
        Some(TokenType::Print)
    } else if text == "return"@ {
        Some(TokenType::Return)
    } else if text == "super"@ {
        Some(TokenType::Super)
    } else if text == "this"@ {
        Some(TokenType::This)
    } else if text == "true"@ {
        Some(TokenType::True)
    } else if text == "var"@ {
        Some(TokenType::Var)
    } else if text == "while"@ {
        Some(TokenType::While)
    } else {
        None
    }
}

/// The token kind of a word: its keyword, or `Identifier`.
pub open spec fn word_type(text: Seq<char>) -> TokenType {
    match keyword(text) {
        Some(token_type) => token_type,
        None => TokenType::Identifier,
    }
}

/// The value of the numeral `lexeme`. A whole number that fits 64 bits is an
/// `Integer`; any other numeral is a `Float`, held as its canonical text.
pub open spec fn number_literal(lexeme: Seq<char>) -> LiteralView {
    let whole_end = run_end(lexeme, 0, CharClass::Digit);
    let whole = lexeme.take(whole_end);
    if whole_end >= lexeme.len() {
        if digits_value(whole) <= i64::MAX {
            LiteralView::Integer(digits_value(whole) as int)
        } else {
            LiteralView::Float(canonical_decimal(whole, Seq::empty()))
        }
    } else {
        LiteralView::Float(canonical_decimal(whole, lexeme.skip(whole_end + 1)))
    }
}

/// The decoded value that a token of kind `token_type` with text `lexeme`
/// carries: a string without its quotes, the value of a numeral, and nothing
/// for any other kind.
pub open spec fn literal_of(token_type: TokenType, lexeme: Seq<char>) -> Option<LiteralView> {
    match token_type {
        TokenType::String => Some(LiteralView::String(lexeme.subrange(1, lexeme.len() - 1))),
        TokenType::Number => Some(number_literal(lexeme)),
        _ => None,
    }
}

/// The token of kind `token_type` whose text is `src` from `start` up to
/// `end`. Its line is the line on which it ends.
pub open spec fn token_at(
    src: Seq<char>,
    start: int,
    end: int,
    token_type: TokenType,
) -> TokenView {
    let lexeme = src.subrange(start, end);
    TokenView {
        token_type,
        lexeme,
        literal: literal_of(token_type, lexeme),
        line: line_at(src, end),
    }
}

/// The token that closes every scan: it has no text and lies on the last
/// line of the source.
pub open spec fn end_token(src: Seq<char>) -> TokenView {
    TokenView {
        token_type: TokenType::EOF,
        lexeme: Seq::empty(),
        literal: None,
        line: line_at(src, src.len() as int),
    }
}

/// What stands at one position of a source.
pub enum Lexed {
    /// A token of this kind, which ends before position `end`.
    Token { token_type: TokenType, end: int },
    /// Blank space or a comment, which ends before position `end`.
    Skip { end: int },
    /// Nothing that the grammar allows.
    Error { error: LexErrorView },
}

/// What stands at position `pos` of `src`, for `0 <= pos < src.len()`.
///
/// An operator that may be followed by `=` takes the `=` whenever it is
/// there. A string or block comment that the source does not close is an
/// error on the line where it opens.
pub open spec fn lex_at(src: Seq<char>, pos: int) -> Lexed {
    let c = src[pos];
    let next = char_at(src, pos + 1);
    if punctuation(c) is Some {
        Lexed::Token { token_type: punctuation(c).unwrap(), end: pos + 1 }
    } else if comparison_operator(c) is Some {
        if next == '=' {
            Lexed::Token { token_type: comparison_operator(c).unwrap().1, end: pos + 2 }
        } else {
            Lexed::Token { token_type: comparison_operator(c).unwrap().0, end: pos + 1 }
        }
    } else if c == '/' {
        if next == '/' {
            Lexed::Skip { end: run_end(src, pos + 2, CharClass::LineRest) }
        } else if next == '*' {
            match comment_end(src, pos + 2) {
                Some(end) => Lexed::Skip { end },
                None => Lexed::Error {
                    error: LexErrorView { line: line_at(src, pos), character: c },
                },
            }
        } else {
            Lexed::Token { token_type: TokenType::Slash, end: pos + 1 }
        }
    } else if c == '"' {
        let close = run_end(src, pos + 1, CharClass::StringBody);
        if close < src.len() {
            Lexed::Token { token_type: TokenType::String, end: close + 1 }
        } else {
            Lexed::Error { error: LexErrorView { line: line_at(src, pos), character: c } }
        }
    } else if is_blank(c) {
        Lexed::Skip { end: pos + 1 }
    } else if is_digit(c) {
        Lexed::Token { token_type: TokenType::Number, end: number_end(src, pos) }
    } else if is_alpha(c) {
        let end = run_end(src, pos + 1, CharClass::Word);
        Lexed::Token { token_type: word_type(src.subrange(pos, end)), end }
    } else {
        Lexed::Error { error: LexErrorView { line: line_at(src, pos), character: c } }
    }
}

/// The position just after what stands at `pos`; `pos + 1` for an error.
pub open spec fn lexed_end(src: Seq<char>, pos: int) -> int {
    match lex_at(src, pos) {
        Lexed::Token { token_type, end } => end,
        Lexed::Skip { end } => end,
        Lexed::Error { error } => pos + 1,
    }
}

/// The scan of `src` from position `pos` on: the tokens in the order of the
/// source, closed by the end token; or the first error.
pub open spec fn scan_from(src: Seq<char>, pos: int) -> Result<Seq<TokenView>, LexErrorView>
    decreases src.len() - pos,
{
    if pos < 0 || pos >= src.len() {
        Ok(seq![end_token(src)])
    } else {
        proof {
            lemma_lexed_end(src, pos);
        }
        match lex_at(src, pos) {
            Lexed::Error { error } => Err(error),
            Lexed::Skip { end } => scan_from(src, end),
            Lexed::Token { token_type, end } => match scan_from(src, end) {
                Ok(rest) => Ok(seq![token_at(src, pos, end, token_type)] + rest),
                Err(error) => Err(error),
            },
        }
    }
}

/// The scan of a whole source text.
pub open spec fn scan(src: Seq<char>) -> Result<Seq<TokenView>, LexErrorView> {
    scan_from(src, 0)
}

/// A text has at most as many newlines as characters.
pub proof fn lemma_newlines_bound(s: Seq<char>)
    ensures
        newlines(s) <= s.len(),
    decreases s.len(),
{
    if s.len() > 0 {
        lemma_newlines_bound(s.drop_last());
    }
}

/// Passing one character moves to the next line exactly when the character
/// is a newline.
pub proof fn lemma_line_step(src: Seq<char>, pos: int)
    requires
        0 <= pos < src.len(),
    ensures
        line_at(src, pos + 1) == line_at(src, pos) + if src[pos] == '\n' {
            1nat
        } else {
            0nat
        },
        line_at(src, pos) <= pos + 1,
{
    assert(src.take(pos + 1).drop_last() =~= src.take(pos));
    lemma_newlines_bound(src.take(pos));
}

/// A run that begins at `from` ends at `end` if every character between the
/// two is in the class and the one at `end`, if there is one, is not.
pub proof fn lemma_run_end_is(src: Seq<char>, from: int, class: CharClass, end: int)
    requires
        0 <= from <= end <= src.len(),
        forall|i: int| from <= i < end ==> in_class(class, #[trigger] src[i]),
        end < src.len() ==> !in_class(class, src[end]),
    ensures
        run_end(src, from, class) == end,
    decreases end - from,
{
    if from < end {
        lemma_run_end_is(src, from + 1, class, end);
    }
}

/// A run ends at or after the position where it begins, and within the
/// source.
pub proof fn lemma_run_end(src: Seq<char>, from: int, class: CharClass)
    requires
        0 <= from <= src.len(),
    ensures
        from <= run_end(src, from, class) <= src.len(),
        forall|i: int| from <= i < run_end(src, from, class) ==> in_class(class, #[trigger] src[i]),
        run_end(src, from, class) < src.len() ==> !in_class(
            class,
            src[run_end(src, from, class)],
        ),
    decreases src.len() - from,
{
    if from < src.len() && in_class(class, src[from]) {
        lemma_run_end(src, from + 1, class);
    }
}

/// A block comment's end, where there is one, lies after the two characters
/// that close it, and within the source.
pub proof fn lemma_comment_end(src: Seq<char>, from: int)
    requires
        0 <= from,
    ensures
        comment_end(src, from) matches Some(end) ==> from + 2 <= end <= src.len() && src[end - 2]
            == '*' && src[end - 1] == '/',
    decreases src.len() - from,
{
    if from + 1 < src.len() && !(src[from] == '*' && src[from + 1] == '/') {
        lemma_comment_end(src, from + 1);
    }
}

/// Whatever stands at a position ends after it, and within the source.
pub proof fn lemma_lexed_end(src: Seq<char>, pos: int)
    requires
        0 <= pos < src.len(),
    ensures
        pos < lexed_end(src, pos) <= src.len(),
{
    lemma_run_end(src, pos, CharClass::Digit);
    lemma_run_end(src, pos + 1, CharClass::Word);
    lemma_run_end(src, pos + 1, CharClass::StringBody);
    if pos + 2 <= src.len() {
        lemma_run_end(src, pos + 2, CharClass::LineRest);
        lemma_comment_end(src, pos + 2);
    }
    let whole_end = run_end(src, pos, CharClass::Digit);
    if whole_end + 1 <= src.len() {
        lemma_run_end(src, whole_end + 1, CharClass::Digit);
    }
}

/// Line tracking: the line of a position is the line of any earlier
/// position plus the number of newlines between the two, whatever stands
/// there. So a token that follows a comment or a string with newlines in it
/// lies that many lines below the line on which the comment or string
/// begins.
pub proof fn lemma_line_advances(src: Seq<char>, from: int, to: int)
    requires
        0 <= from <= to <= src.len(),
    ensures
        line_at(src, to) == line_at(src, from) + newlines(src.subrange(from, to)),
    decreases to - from,
{
    if from < to {
        lemma_line_advances(src, from, to - 1);
        assert(src.take(to).drop_last() =~= src.take(to - 1));
        assert(src.subrange(from, to).drop_last() =~= src.subrange(from, to - 1));
    } else {
        assert(src.subrange(from, to) =~= Seq::<char>::empty());
    }
}

/// A block comment that is closed leaves no trace in the scan but in the
/// lines of what follows: the scan goes on after the `*/`.
pub proof fn lemma_block_comment_skipped(src: Seq<char>, pos: int, end: int)
    requires
        0 <= pos < src.len(),
        src[pos] == '/',
        char_at(src, pos + 1) == '*',
        comment_end(src, pos + 2) == Some(end),
    ensures
        pos + 4 <= end <= src.len(),
        scan_from(src, pos) == scan_from(src, end),
{
    lemma_comment_end(src, pos + 2);
}

/// A string that the source does not close is an error in the character
/// that opens it, on the line where it opens, however many lines follow.
pub proof fn lemma_unterminated_string(src: Seq<char>, pos: int)
    requires
        0 <= pos < src.len(),
        src[pos] == '"',
        forall|i: int| pos < i < src.len() ==> src[i] != '"',
    ensures
        scan_from(src, pos) == Err::<Seq<TokenView>, LexErrorView>(
            LexErrorView { line: line_at(src, pos), character: '"' },
        ),
{
    lemma_run_end_is(src, pos + 1, CharClass::StringBody, src.len() as int);
}

/// A scan that succeeds ends in the end token and holds no other.
pub proof fn lemma_scan_ends(src: Seq<char>, pos: int)
    ensures
        scan_from(src, pos) matches Ok(tokens) ==> {
            &&& tokens.len() >= 1
            &&& tokens.last().token_type == TokenType::EOF
            &&& forall|i: int| 0 <= i < tokens.len() - 1 ==> tokens[i].token_type != TokenType::EOF
        },
    decreases src.len() - pos,
{
    if 0 <= pos < src.len() {
        lemma_lexed_end(src, pos);
        match lex_at(src, pos) {
            Lexed::Error { error } => {},
            Lexed::Skip { end } => {
                lemma_scan_ends(src, end);
            },
            Lexed::Token { token_type, end } => {
                lemma_scan_ends(src, end);
            },
        }
    }
}

} // verus!
