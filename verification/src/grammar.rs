//! The lexical grammar: which token starts at a position of a text, and how
//! many characters it takes.
//!
//! Everything here is specification. A text is a `Seq<char>`; reading past
//! its end yields NUL, and a NUL in the text ends it like the end itself.
//! [`lexeme_at`] says what one step of the scanner yields, and [`lexemes_from`]
//! what a whole scan yields.
//!
//! The rules, in the order in which they are tried:
//!
//! - At the end of the text stands the end-of-file token.
//! - A run of white space is one token.
//! - `//` starts a comment that goes up to the end of the line, and leaves
//!   the line feed where it is. `/*` starts a comment that goes up to the
//!   first `*/`; if there is none, the rest of the text is an error.
//! - A letter starts an identifier, and so does `_` before a letter, a digit
//!   or another `_`. It goes on with letters, digits and `_`.
//! - Delimiters, punctuation marks and operators are spelled with one, two or
//!   three characters, and the longest spelling that stands there wins.
//! - `'` starts a character literal, whose text is kept as it is written.
//! - A decimal digit starts a numeric literal: an integer with a radix
//!   prefix, the integer `0` with a suffix, a decimal integer, or a decimal
//!   number with a fraction and, if there is one, an exponent.
//! - Any other character is an error of its own. So is `"`: string literals
//!   are not read.

use crate::char_util::{
    is_alpha, is_decimal_numeral, is_hexdec_numeral, is_octal_numeral, is_whitespace, CharClass,
};
use crate::token::{
    BinOpToken, DelimitToken, LiteralView, LogicalOpToken, RelOpToken, TokenView,
};
use vstd::prelude::*;

verus! {

/// The character at `i`, or NUL where the text has none.
pub open spec fn at(src: Seq<char>, i: int) -> char {
    if 0 <= i < src.len() {
        src[i]
    } else {
        '\0'
    }
}

/// Where the longest run of characters of `class` that starts at `start`
/// ends: the first position from `start` on whose character is not in the
/// class, or the end of the text.
pub open spec fn run_end(src: Seq<char>, class: CharClass, start: int) -> int
    decreases src.len() - start,
{
    if 0 <= start < src.len() && class.admits(src[start]) {
        run_end(src, class, start + 1)
    } else {
        start
    }
}

/// One step of a scan: the token found and the number of characters taken.
pub struct Lexeme {
    pub token: TokenView,
    pub len: nat,
}

/// A token without text that takes `len` characters, as far as there are any.
pub open spec fn bare(src: Seq<char>, pos: int, token: TokenView, len: int) -> Lexeme {
    Lexeme { token, len: (if pos + len <= src.len() { len } else { src.len() - pos }) as nat }
}

/// The tokens that are spelled with one character.
pub open spec fn symbol1(a: char) -> Option<TokenView> {
    if a == '(' {
        Some(TokenView::OpenDelim(DelimitToken::Paren))
    } else if a == '[' {
        Some(TokenView::OpenDelim(DelimitToken::Bracket))
    } else if a == '{' {
        Some(TokenView::OpenDelim(DelimitToken::Brace))
    } else if a == ')' {
        Some(TokenView::CloseDelim(DelimitToken::Paren))
    } else if a == ']' {
        Some(TokenView::CloseDelim(DelimitToken::Bracket))
    } else if a == '}' {
        Some(TokenView::CloseDelim(DelimitToken::Brace))
    } else if a == '?' {
        Some(TokenView::Question)
    } else if a == ';' {
        Some(TokenView::SemiColon)
    } else if a == ',' {
        Some(TokenView::Comma)
    } else if a == '_' {
        Some(TokenView::Underscore)
    } else if a == '.' {
        Some(TokenView::Dot)
    } else if a == '!' {
        Some(TokenView::Exclamation)
    } else if a == '=' {
        Some(TokenView::Eq)
    } else if a == '<' {
        Some(TokenView::RelOp(RelOpToken::LessThan))
    } else if a == '>' {
        Some(TokenView::RelOp(RelOpToken::GreaterThan))
    } else {
        match operator(a) {
            Some(op) => Some(TokenView::BinOp(op)),
            None => None,
        }
    }
}

/// The binary operators that are spelled with one character.
pub open spec fn operator(a: char) -> Option<BinOpToken> {
    if a == '+' {
        Some(BinOpToken::Plus)
    } else if a == '-' {
        Some(BinOpToken::Minus)
    } else if a == '*' {
        Some(BinOpToken::Star)
    } else if a == '/' {
        Some(BinOpToken::Slash)
    } else if a == '%' {
        Some(BinOpToken::Percent)
    } else if a == '^' {
        Some(BinOpToken::Caret)
    } else if a == '&' {
        Some(BinOpToken::And)
    } else if a == '|' {
        Some(BinOpToken::Or)
    } else {
        None
    }
}

/// The tokens that are spelled with two characters.
pub open spec fn symbol2(a: char, b: char) -> Option<TokenView> {
    if a == '.' && b == '.' {
        Some(TokenView::DotDot)
    } else if a == '-' && b == '>' {
        Some(TokenView::Arrow)
    } else if a == '=' && b == '>' {
        Some(TokenView::FatArrow)
    } else if a == '=' && b == '=' {
        Some(TokenView::RelOp(RelOpToken::EqEq))
    } else if a == '!' && b == '=' {
        Some(TokenView::RelOp(RelOpToken::NotEq))
    } else if a == '<' && b == '=' {
        Some(TokenView::RelOp(RelOpToken::LessEq))
    } else if a == '>' && b == '=' {
        Some(TokenView::RelOp(RelOpToken::GreaterEq))
    } else if a == '&' && b == '&' {
        Some(TokenView::LogicalOp(LogicalOpToken::AndAnd))
    } else if a == '|' && b == '|' {
        Some(TokenView::LogicalOp(LogicalOpToken::OrOr))
    } else if a == '<' && b == '<' {
        Some(TokenView::BinOp(BinOpToken::Shl))
    } else if a == '>' && b == '>' {
        Some(TokenView::BinOp(BinOpToken::Shr))
    } else if b == '=' {
        match operator(a) {
            Some(op) => Some(TokenView::BinOpEq(op)),
            None => None,
        }
    } else {
        None
    }
}

/// The tokens that are spelled with three characters.
pub open spec fn symbol3(a: char, b: char, c: char) -> Option<TokenView> {
    if a == '.' && b == '.' && c == '.' {
        Some(TokenView::DotDotDot)
    } else if a == '<' && b == '<' && c == '=' {
        Some(TokenView::BinOpEq(BinOpToken::Shl))
    } else if a == '>' && b == '>' && c == '=' {
        Some(TokenView::BinOpEq(BinOpToken::Shr))
    } else {
        None
    }
}

/// The longest spelling of a delimiter, punctuation mark or operator that
/// stands at `pos`, if one does: three characters are tried before two, and
/// two before one.
pub open spec fn symbol_at(src: Seq<char>, pos: int) -> Option<Lexeme> {
    let a = at(src, pos);
    let b = at(src, pos + 1);
    let c = at(src, pos + 2);
    if let Some(token) = symbol3(a, b, c) {
        Some(Lexeme { token, len: 3 })
    } else if let Some(token) = symbol2(a, b) {
        Some(Lexeme { token, len: 2 })
    } else if let Some(token) = symbol1(a) {
        Some(Lexeme { token, len: 1 })
    } else {
        None
    }
}

/// Whether an identifier starts at `pos`: with a letter, or with `_` where a
/// letter, a digit or another `_` follows it.
pub open spec fn starts_identifier(src: Seq<char>, pos: int) -> bool {
    is_alpha(at(src, pos)) || (at(src, pos) == '_' && CharClass::IdentifierPart.admits(
        at(src, pos + 1),
    ))
}

/// The search for the `*/` that closes a block comment, from `i` on: whether
/// it is found before the text ends, and where the search stops. That is
/// behind the `/` if it is found, and where the text ends if not.
pub open spec fn block_comment_search(src: Seq<char>, i: int) -> (bool, int)
    decreases src.len() - i,
{
    if i < 0 || at(src, i) == '\0' {
        (false, i)
    } else if src[i] == '*' && at(src, i + 1) == '/' {
        (true, i + 2)
    } else {
        block_comment_search(src, i + 1)
    }
}

/// The block comment whose `/*` stands at `pos`. The `*` of the opening is
/// not also the `*` of the closing.
pub open spec fn block_comment_at(src: Seq<char>, pos: int) -> Lexeme {
    let (closed, end) = block_comment_search(src, pos + 2);
    Lexeme {
        token: if closed {
            TokenView::Comment
        } else {
            TokenView::Error
        },
        len: (end - pos) as nat,
    }
}

/// The escapes of one letter: `\n`, `\t`, `\r`, `\\` and `\'`.
pub open spec fn is_simple_escape(c: char) -> bool {
    c == 'n' || c == 't' || c == 'r' || c == '\\' || c == '\''
}

/// A well-formed character literal of `len` characters, quotes included.
pub open spec fn char_literal(src: Seq<char>, pos: int, len: int) -> Lexeme {
    Lexeme {
        token: TokenView::Literal(LiteralView::Char(src.subrange(pos + 1, pos + len - 1))),
        len: len as nat,
    }
}

/// The character literal whose opening quote stands at `pos`.
///
/// Between the quotes stands one character that is neither a quote nor a
/// backslash, or a backslash and the letter of a simple escape, or `\x`, an
/// octal digit and a hexadecimal digit. Anything else is an error, which
/// takes the characters up to the one that is wrong.
pub open spec fn char_literal_at(src: Seq<char>, pos: int) -> Lexeme {
    let c1 = at(src, pos + 1);
    let c2 = at(src, pos + 2);
    let c3 = at(src, pos + 3);
    let c4 = at(src, pos + 4);
    let c5 = at(src, pos + 5);
    if c1 == '\'' {
        bare(src, pos, TokenView::Error, 1)
    } else if c1 != '\\' {
        if c2 == '\'' {
            char_literal(src, pos, 3)
        } else {
            bare(src, pos, TokenView::Error, 2)
        }
    } else if is_simple_escape(c2) {
        if c3 == '\'' {
            char_literal(src, pos, 4)
        } else {
            bare(src, pos, TokenView::Error, 3)
        }
    } else if c2 == 'x' {
        if !is_octal_numeral(c3) {
            bare(src, pos, TokenView::Error, 3)
        } else if !is_hexdec_numeral(c4) {
            bare(src, pos, TokenView::Error, 4)
        } else if c5 != '\'' {
            bare(src, pos, TokenView::Error, 5)
        } else {
            char_literal(src, pos, 6)
        }
    } else if c2 == 'u' {
        bare(src, pos, TokenView::Error, 3)
    } else {
        bare(src, pos, TokenView::Error, 2)
    }
}

/// An integer literal from `pos` to `end`, with its text as it stands.
pub open spec fn integer_literal(src: Seq<char>, pos: int, end: int) -> Lexeme {
    Lexeme {
        token: TokenView::Literal(LiteralView::Integer(src.subrange(pos, end))),
        len: (end - pos) as nat,
    }
}

/// A floating-point literal from `pos` to `end`, with its text as it stands.
pub open spec fn float_literal(src: Seq<char>, pos: int, end: int) -> Lexeme {
    Lexeme {
        token: TokenView::Literal(LiteralView::Float(src.subrange(pos, end))),
        len: (end - pos) as nat,
    }
}

/// Whether a fraction starts at `dot`: a `.` with a decimal digit behind it.
pub open spec fn starts_fraction(src: Seq<char>, dot: int) -> bool {
    at(src, dot) == '.' && is_decimal_numeral(at(src, dot + 1))
}

/// Where the digits of an exponent start, if an exponent starts at `e`: an
/// `e` or `E`, then `+` or `-` or neither, then a decimal digit.
pub open spec fn exponent_digits(src: Seq<char>, e: int) -> Option<int> {
    let signed = at(src, e + 1) == '+' || at(src, e + 1) == '-';
    let digits = if signed {
        e + 2
    } else {
        e + 1
    };
    if (at(src, e) == 'e' || at(src, e) == 'E') && is_decimal_numeral(at(src, digits)) {
        Some(digits)
    } else {
        None
    }
}

/// Where the floating-point literal ends whose `.` stands at `dot`: behind
/// the digits of the fraction, or behind those of the exponent if one
/// follows.
pub open spec fn float_end(src: Seq<char>, dot: int) -> int {
    let fraction_end = run_end(src, CharClass::DecimalPart, dot + 1);
    match exponent_digits(src, fraction_end) {
        Some(digits) => run_end(src, CharClass::DecimalPart, digits),
        None => fraction_end,
    }
}

/// The decimal literal that starts at `pos`: digits and separators, which
/// make a floating-point literal if a fraction follows them, and an integer
/// literal if not.
pub open spec fn decimal_at(src: Seq<char>, pos: int) -> Lexeme {
    let end = run_end(src, CharClass::DecimalPart, pos);
    if starts_fraction(src, end) {
        float_literal(src, pos, float_end(src, end))
    } else {
        integer_literal(src, pos, end)
    }
}

/// The class of digits that the radix prefix `0` and `letter` announces.
pub open spec fn radix_class(letter: char) -> Option<CharClass> {
    if letter == 'b' {
        Some(CharClass::BinaryPart)
    } else if letter == 'o' {
        Some(CharClass::OctalPart)
    } else if letter == 'x' {
        Some(CharClass::HexdecPart)
    } else {
        None
    }
}

/// The numeric literal whose first digit stands at `pos`.
///
/// After a leading `0`, a radix prefix takes the digits of its radix and
/// separators, however few; any other letter starts a suffix of letters and
/// digits. Everything else is a decimal literal.
pub open spec fn number_at(src: Seq<char>, pos: int) -> Lexeme {
    let next = at(src, pos + 1);
    if at(src, pos) == '0' && is_alpha(next) {
        match radix_class(next) {
            Some(class) => integer_literal(src, pos, run_end(src, class, pos + 2)),
            None => integer_literal(src, pos, run_end(src, CharClass::SuffixPart, pos + 1)),
        }
    } else {
        decimal_at(src, pos)
    }
}

/// The token that starts at `pos`, and the number of characters it takes.
///
/// At the end of the text, or at a NUL, that is the end-of-file token, which
/// takes nothing. A character that starts no token is an error of its own,
/// and so is the quote that would open a string literal.
pub open spec fn lexeme_at(src: Seq<char>, pos: int) -> Lexeme {
    let c = at(src, pos);
    if c == '\0' {
        Lexeme { token: TokenView::EndOfFile, len: 0 }
    } else if is_whitespace(c) {
        Lexeme {
            token: TokenView::Whitespace,
            len: (run_end(src, CharClass::Whitespace, pos) - pos) as nat,
        }
    } else if c == '/' && at(src, pos + 1) == '/' {
        Lexeme {
            token: TokenView::Comment,
            len: (run_end(src, CharClass::CommentText, pos + 2) - pos) as nat,
        }
    } else if c == '/' && at(src, pos + 1) == '*' {
        block_comment_at(src, pos)
    } else if starts_identifier(src, pos) {
        let end = run_end(src, CharClass::IdentifierPart, pos);
        Lexeme { token: TokenView::Identifier(src.subrange(pos, end)), len: (end - pos) as nat }
    } else if let Some(lexeme) = symbol_at(src, pos) {
        lexeme
    } else if c == '\'' {
        char_literal_at(src, pos)
    } else if is_decimal_numeral(c) {
        number_at(src, pos)
    } else {
        Lexeme { token: TokenView::Error, len: 1 }
    }
}

/// The tokens of a whole scan that starts at `pos`: every token up to the
/// end-of-file token, which is left out. (Inside a text every other token
/// takes a character or more and ends inside the text, so that the scan stops
/// at the end-of-file token and nowhere else.)
pub open spec fn lexemes_from(src: Seq<char>, pos: int) -> Seq<TokenView>
    decreases src.len() - pos,
{
    let first = lexeme_at(src, pos);
    if first.token is EndOfFile || first.len == 0 || pos < 0 || pos + first.len > src.len() {
        Seq::empty()
    } else {
        seq![first.token] + lexemes_from(src, pos + first.len)
    }
}

/// Where a whole scan that starts at `pos` stops: at the end of the text or
/// at the first NUL that a token starts at.
pub open spec fn scan_end(src: Seq<char>, pos: int) -> int
    decreases src.len() - pos,
{
    let first = lexeme_at(src, pos);
    if first.token is EndOfFile || first.len == 0 || pos < 0 || pos + first.len > src.len() {
        pos
    } else {
        scan_end(src, pos + first.len)
    }
}

} // verus!
