//! The token model: the closed set of lexical categories.
//!
//! Identifiers and literals carry the handle of their interned text; every
//! other token is a bare tag. The view of a token replaces each handle by the
//! text it stands for, and two tokens are equal when their views are.

use crate::string_table::share;
use std::rc::Rc;
use vstd::prelude::*;
use vstd::std_specs::cmp::PartialEqSpecImpl;

verus! {

/// The three kinds of bracket.
#[derive(Clone, Copy, Debug, PartialEq, Eq, Structural)]
pub enum DelimitToken {
    /// `(` or `)`
    Paren,
    /// `[` or `]`
    Bracket,
    /// `{` or `}`
    Brace,
}

/// The binary operators that also have a compound assignment form.
#[derive(Clone, Copy, Debug, PartialEq, Eq, Structural)]
pub enum BinOpToken {
    /// `+`
    Plus,
    /// `-`
    Minus,
    /// `*`
    Star,
    /// `/`
    Slash,
    /// `%`
    Percent,
    /// `^`
    Caret,
    /// `&`
    And,
    /// `|`
    Or,
    /// `<<`
    Shl,
    /// `>>`
    Shr,
}

/// The relational operators.
#[derive(Clone, Copy, Debug, PartialEq, Eq, Structural)]
pub enum RelOpToken {
    /// `==`
    EqEq,
    /// `!=`
    NotEq,
    /// `<`
    LessThan,
    /// `<=`
    LessEq,
    /// `>`
    GreaterThan,
    /// `>=`
    GreaterEq,
}

/// The short-circuit logical operators.
#[derive(Clone, Copy, Debug, PartialEq, Eq, Structural)]
pub enum LogicalOpToken {
    /// `&&`
    AndAnd,
    /// `||`
    OrOr,
}

/// A literal, holding the handle of its text as it stood in the source.
#[derive(Debug)]
pub enum LiteralToken {
    /// A character literal; the text is what stood between the quotes.
    Char(Rc<String>),
    /// An integer literal, radix prefix, separators and suffix included.
    Integer(Rc<String>),
    /// A floating-point literal.
    Float(Rc<String>),
}

/// What a [`LiteralToken`] stands for: its kind and its text.
pub enum LiteralView {
    Char(Seq<char>),
    Integer(Seq<char>),
    Float(Seq<char>),
}

/// One token of the scanned text.
#[derive(Debug)]
pub enum Token {
    /// A run of white space.
    Whitespace,
    /// A line or block comment; its text is dropped.
    Comment,
    /// `(`, `[` or `{`
    OpenDelim(DelimitToken),
    /// `)`, `]` or `}`
    CloseDelim(DelimitToken),
    /// `?`
    Question,
    /// `;`
    SemiColon,
    /// `,`
    Comma,
    /// `_` standing alone
    Underscore,
    /// `.`
    Dot,
    /// `..`
    DotDot,
    /// `...`
    DotDotDot,
    /// `->`
    Arrow,
    /// `=>`
    FatArrow,
    /// `!`
    Exclamation,
    /// `=`
    Eq,
    /// A binary operator.
    BinOp(BinOpToken),
    /// A binary operator followed by `=`.
    BinOpEq(BinOpToken),
    /// A relational operator.
    RelOp(RelOpToken),
    /// `&&` or `||`
    LogicalOp(LogicalOpToken),
    /// A character, integer or floating-point literal.
    Literal(LiteralToken),
    /// An identifier, holding the handle of its text.
    Identifier(Rc<String>),
    /// Text that starts no token, or a token that is malformed.
    Error,
    /// The end of the input.
    EndOfFile,
}

/// What a [`Token`] stands for: the same tag, with text in place of handles.
pub enum TokenView {
    Whitespace,
    Comment,
    OpenDelim(DelimitToken),
    CloseDelim(DelimitToken),
    Question,
    SemiColon,
    Comma,
    Underscore,
    Dot,
    DotDot,
    DotDotDot,
    Arrow,
    FatArrow,
    Exclamation,
    Eq,
    BinOp(BinOpToken),
    BinOpEq(BinOpToken),
    RelOp(RelOpToken),
    LogicalOp(LogicalOpToken),
    Literal(LiteralView),
    Identifier(Seq<char>),
    Error,
    EndOfFile,
}

impl TokenView {
    /// The text that a token of this view carries, if it carries any.
    pub open spec fn text(self) -> Option<Seq<char>> {
        match self {
            TokenView::Literal(LiteralView::Char(t)) => Some(t),
            TokenView::Literal(LiteralView::Integer(t)) => Some(t),
            TokenView::Literal(LiteralView::Float(t)) => Some(t),
            TokenView::Identifier(t) => Some(t),
            _ => None,
        }
    }
}

/// Tells whether two handles stand for the same text.
fn same_text(a: &Rc<String>, b: &Rc<String>) -> (r: bool)
    ensures
        r == (a@ == b@),
{
    let x: &String = &**a;
    let y: &String = &**b;
    *x == *y
}

/// A handle of its own for the given text, shared with no table.
fn fresh_handle(text: &str) -> (h: Rc<String>)
    ensures
        h@ == text@,
{
    Rc::new(text.to_owned())
}

impl View for LiteralToken {
    type V = LiteralView;

    open spec fn view(&self) -> LiteralView {
        match *self {
            LiteralToken::Char(h) => LiteralView::Char(h@),
            LiteralToken::Integer(h) => LiteralView::Integer(h@),
            LiteralToken::Float(h) => LiteralView::Float(h@),
        }
    }
}

impl LiteralToken {
    /// The handle that this literal holds.
    pub open spec fn handle(self) -> Rc<String> {
        match self {
            LiteralToken::Char(h) => h,
            LiteralToken::Integer(h) => h,
            LiteralToken::Float(h) => h,
        }
    }
}

impl Clone for LiteralToken {
    /// A second literal on the same handle.
    fn clone(&self) -> (copy: LiteralToken)
        ensures
            copy == *self,
    {
        match self {
            LiteralToken::Char(h) => LiteralToken::Char(share(h)),
            LiteralToken::Integer(h) => LiteralToken::Integer(share(h)),
            LiteralToken::Float(h) => LiteralToken::Float(share(h)),
        }
    }
}

impl PartialEq for LiteralToken {
    fn eq(&self, other: &LiteralToken) -> (r: bool) {
        match (self, other) {
            (LiteralToken::Char(a), LiteralToken::Char(b)) => same_text(a, b),
            (LiteralToken::Integer(a), LiteralToken::Integer(b)) => same_text(a, b),
            (LiteralToken::Float(a), LiteralToken::Float(b)) => same_text(a, b),
            _ => false,
        }
    }
}

impl PartialEqSpecImpl for LiteralToken {
    open spec fn obeys_eq_spec() -> bool {
        true
    }

    open spec fn eq_spec(&self, other: &LiteralToken) -> bool {
        self@ == other@
    }
}

impl View for Token {
    type V = TokenView;

    open spec fn view(&self) -> TokenView {
        match *self {
            Token::Whitespace => TokenView::Whitespace,
            Token::Comment => TokenView::Comment,
            Token::OpenDelim(d) => TokenView::OpenDelim(d),
            Token::CloseDelim(d) => TokenView::CloseDelim(d),
            Token::Question => TokenView::Question,
            Token::SemiColon => TokenView::SemiColon,
            Token::Comma => TokenView::Comma,
            Token::Underscore => TokenView::Underscore,
            Token::Dot => TokenView::Dot,
            Token::DotDot => TokenView::DotDot,
            Token::DotDotDot => TokenView::DotDotDot,
            Token::Arrow => TokenView::Arrow,
            Token::FatArrow => TokenView::FatArrow,
            Token::Exclamation => TokenView::Exclamation,
            Token::Eq => TokenView::Eq,
            Token::BinOp(op) => TokenView::BinOp(op),
            Token::BinOpEq(op) => TokenView::BinOpEq(op),
            Token::RelOp(op) => TokenView::RelOp(op),
            Token::LogicalOp(op) => TokenView::LogicalOp(op),
            Token::Literal(l) => TokenView::Literal(l@),
            Token::Identifier(h) => TokenView::Identifier(h@),
            Token::Error => TokenView::Error,
            Token::EndOfFile => TokenView::EndOfFile,
        }
    }
}

impl Clone for Token {
    /// A second token on the same handle, if the token holds one.
    fn clone(&self) -> (copy: Token)
        ensures
            copy == *self,
    {
        match self {
            Token::Whitespace => Token::Whitespace,
            Token::Comment => Token::Comment,
            Token::OpenDelim(d) => Token::OpenDelim(*d),
            Token::CloseDelim(d) => Token::CloseDelim(*d),
            Token::Question => Token::Question,
            Token::SemiColon => Token::SemiColon,
            Token::Comma => Token::Comma,
            Token::Underscore => Token::Underscore,
            Token::Dot => Token::Dot,
            Token::DotDot => Token::DotDot,
            Token::DotDotDot => Token::DotDotDot,
            Token::Arrow => Token::Arrow,
            Token::FatArrow => Token::FatArrow,
            Token::Exclamation => Token::Exclamation,
            Token::Eq => Token::Eq,
            Token::BinOp(op) => Token::BinOp(*op),
            Token::BinOpEq(op) => Token::BinOpEq(*op),
            Token::RelOp(op) => Token::RelOp(*op),
            Token::LogicalOp(op) => Token::LogicalOp(*op),
            Token::Literal(l) => Token::Literal(l.clone()),
            Token::Identifier(h) => Token::Identifier(share(h)),
            Token::Error => Token::Error,
            Token::EndOfFile => Token::EndOfFile,
        }
    }
}

/// The views of a sequence of tokens, in the same order.
pub open spec fn views_of(tokens: Seq<Token>) -> Seq<TokenView> {
    Seq::new(tokens.len(), |i: int| tokens[i]@)
}

impl PartialEq for Token {
    fn eq(&self, other: &Token) -> (r: bool) {
        match (self, other) {
            (Token::Whitespace, Token::Whitespace) => true,
            (Token::Comment, Token::Comment) => true,
            (Token::OpenDelim(a), Token::OpenDelim(b)) => *a == *b,
            (Token::CloseDelim(a), Token::CloseDelim(b)) => *a == *b,
            (Token::Question, Token::Question) => true,
            (Token::SemiColon, Token::SemiColon) => true,
            (Token::Comma, Token::Comma) => true,
            (Token::Underscore, Token::Underscore) => true,
            (Token::Dot, Token::Dot) => true,
            (Token::DotDot, Token::DotDot) => true,
            (Token::DotDotDot, Token::DotDotDot) => true,
            (Token::Arrow, Token::Arrow) => true,
            (Token::FatArrow, Token::FatArrow) => true,
            (Token::Exclamation, Token::Exclamation) => true,
            (Token::Eq, Token::Eq) => true,
            (Token::BinOp(a), Token::BinOp(b)) => *a == *b,
            (Token::BinOpEq(a), Token::BinOpEq(b)) => *a == *b,
            (Token::RelOp(a), Token::RelOp(b)) => *a == *b,
            (Token::LogicalOp(a), Token::LogicalOp(b)) => *a == *b,
            (Token::Literal(a), Token::Literal(b)) => *a == *b,
            (Token::Identifier(a), Token::Identifier(b)) => same_text(a, b),
            (Token::Error, Token::Error) => true,
            (Token::EndOfFile, Token::EndOfFile) => true,
            _ => false,
        }
    }
}

impl PartialEqSpecImpl for Token {
    open spec fn obeys_eq_spec() -> bool {
        true
    }

    open spec fn eq_spec(&self, other: &Token) -> bool {
        self@ == other@
    }
}

impl Token {
    /// The handle that this token holds, if it is an identifier or a literal.
    pub open spec fn handle(self) -> Option<Rc<String>> {
        match self {
            Token::Literal(l) => Some(l.handle()),
            Token::Identifier(h) => Some(h),
            _ => None,
        }
    }

    /// A character literal with the given text between its quotes.
    pub fn char_literal_from_str(text: &str) -> (token: Token)
        ensures
            token@ == TokenView::Literal(LiteralView::Char(text@)),
    {
        Token::Literal(LiteralToken::Char(fresh_handle(text)))
    }

    /// An integer literal with the given text.
    pub fn integer_literal_from_str(text: &str) -> (token: Token)
        ensures
            token@ == TokenView::Literal(LiteralView::Integer(text@)),
    {
        Token::Literal(LiteralToken::Integer(fresh_handle(text)))
    }

    /// A floating-point literal with the given text.
    pub fn float_literal_from_str(text: &str) -> (token: Token)
        ensures
            token@ == TokenView::Literal(LiteralView::Float(text@)),
    {
        Token::Literal(LiteralToken::Float(fresh_handle(text)))
    }

    /// An identifier with the given text.
    pub fn identifier_from_str(text: &str) -> (token: Token)
        ensures
            token@ == TokenView::Identifier(text@),
    {
        Token::Identifier(fresh_handle(text))
    }
}

} // verus!
