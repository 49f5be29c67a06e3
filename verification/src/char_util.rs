//! Character classes of the scanner: total predicates on a single `char`.
//!
//! Every class is given twice: as a specification function, which the grammar
//! is written in, and as an executable function proved to compute it. The NUL
//! character, which the scanner reads past the end of its input, belongs to
//! none of the classes.

use vstd::prelude::*;

verus! {

/// White space: the code points that carry the Unicode property `White_Space`.
pub open spec fn spec_is_whitespace(c: char) -> bool {
    let n = c as u32;
    ||| 0x09 <= n <= 0x0D
    ||| n == 0x20
    ||| n == 0x85
    ||| n == 0xA0
    ||| n == 0x1680
    ||| 0x2000 <= n <= 0x200A
    ||| n == 0x2028
    ||| n == 0x2029
    ||| n == 0x202F
    ||| n == 0x205F
    ||| n == 0x3000
}

/// A letter: `a` to `z` or `A` to `Z`.
pub open spec fn spec_is_alpha(c: char) -> bool {
    ('a' <= c <= 'z') || ('A' <= c <= 'Z')
}

/// A decimal digit: `0` to `9`.
pub open spec fn spec_is_decimal_numeral(c: char) -> bool {
    '0' <= c <= '9'
}

/// A letter or a decimal digit.
pub open spec fn spec_is_alpha_numeral(c: char) -> bool {
    spec_is_alpha(c) || spec_is_decimal_numeral(c)
}

/// A binary digit: `0` or `1`.
pub open spec fn spec_is_binary_numeral(c: char) -> bool {
    c == '0' || c == '1'
}

/// An octal digit: `0` to `7`.
pub open spec fn spec_is_octal_numeral(c: char) -> bool {
    '0' <= c <= '7'
}

/// A hexadecimal digit: `0` to `9`, `a` to `f` or `A` to `F`.
pub open spec fn spec_is_hexdec_numeral(c: char) -> bool {
    ('0' <= c <= '9') || ('a' <= c <= 'f') || ('A' <= c <= 'F')
}

#[verifier::when_used_as_spec(spec_is_whitespace)]
pub fn is_whitespace(c: char) -> (r: bool)
    ensures
        r == spec_is_whitespace(c),
{
    let n: u32 = c as u32;
    (0x09 <= n && n <= 0x0D) || n == 0x20 || n == 0x85 || n == 0xA0 || n == 0x1680 || (0x2000 <= n
        && n <= 0x200A) || n == 0x2028 || n == 0x2029 || n == 0x202F || n == 0x205F || n == 0x3000
}

#[verifier::when_used_as_spec(spec_is_alpha)]
pub fn is_alpha(c: char) -> (r: bool)
    ensures
        r == spec_is_alpha(c),
{
    ('a' <= c && c <= 'z') || ('A' <= c && c <= 'Z')
}

#[verifier::when_used_as_spec(spec_is_decimal_numeral)]
pub fn is_decimal_numeral(c: char) -> (r: bool)
    ensures
        r == spec_is_decimal_numeral(c),
{
    '0' <= c && c <= '9'
}

#[verifier::when_used_as_spec(spec_is_alpha_numeral)]
pub fn is_alpha_numeral(c: char) -> (r: bool)
    ensures
        r == spec_is_alpha_numeral(c),
{
    is_alpha(c) || is_decimal_numeral(c)
}

#[verifier::when_used_as_spec(spec_is_binary_numeral)]
pub fn is_binary_numeral(c: char) -> (r: bool)
    ensures
        r == spec_is_binary_numeral(c),
{
    c == '0' || c == '1'
}

#[verifier::when_used_as_spec(spec_is_octal_numeral)]
pub fn is_octal_numeral(c: char) -> (r: bool)
    ensures
        r == spec_is_octal_numeral(c),
{
    '0' <= c && c <= '7'
}

#[verifier::when_used_as_spec(spec_is_hexdec_numeral)]
pub fn is_hexdec_numeral(c: char) -> (r: bool)
    ensures
        r == spec_is_hexdec_numeral(c),
{
    ('0' <= c && c <= '9') || ('a' <= c && c <= 'f') || ('A' <= c && c <= 'F')
}

/// The classes of character that the scanner reads in runs.
#[derive(Clone, Copy, Debug, PartialEq, Eq, Structural)]
pub enum CharClass {
    /// White space.
    Whitespace,
    /// What an identifier goes on with: a letter, a decimal digit or `_`.
    IdentifierPart,
    /// What the suffix of a literal is made of: letters and decimal digits.
    SuffixPart,
    /// A binary digit or the separator `_`.
    BinaryPart,
    /// An octal digit or the separator `_`.
    OctalPart,
    /// A hexadecimal digit or the separator `_`.
    HexdecPart,
    /// A decimal digit or the separator `_`.
    DecimalPart,
    /// What a line comment goes on with: anything but a line feed and NUL.
    CommentText,
}

impl CharClass {
    /// Whether `c` belongs to this class.
    pub open spec fn spec_admits(self, c: char) -> bool {
        match self {
            CharClass::Whitespace => spec_is_whitespace(c),
            CharClass::IdentifierPart => spec_is_alpha_numeral(c) || c == '_',
            CharClass::SuffixPart => spec_is_alpha_numeral(c),
            CharClass::BinaryPart => spec_is_binary_numeral(c) || c == '_',
            CharClass::OctalPart => spec_is_octal_numeral(c) || c == '_',
            CharClass::HexdecPart => spec_is_hexdec_numeral(c) || c == '_',
            CharClass::DecimalPart => spec_is_decimal_numeral(c) || c == '_',
            CharClass::CommentText => c != '\n' && c != '\0',
        }
    }

    /// Whether `c` belongs to this class.
    #[verifier::when_used_as_spec(spec_admits)]
    pub fn admits(self, c: char) -> (r: bool)
        ensures
            r == self.spec_admits(c),
    {
        match self {
            CharClass::Whitespace => is_whitespace(c),
            CharClass::IdentifierPart => is_alpha_numeral(c) || c == '_',
            CharClass::SuffixPart => is_alpha_numeral(c),
            CharClass::BinaryPart => is_binary_numeral(c) || c == '_',
            CharClass::OctalPart => is_octal_numeral(c) || c == '_',
            CharClass::HexdecPart => is_hexdec_numeral(c) || c == '_',
            CharClass::DecimalPart => is_decimal_numeral(c) || c == '_',
            CharClass::CommentText => c != '\n' && c != '\0',
        }
    }
}

/// NUL belongs to no class.
pub proof fn lemma_nul_is_in_no_class(class: CharClass)
    ensures
        !class.admits('\0'),
        !is_whitespace('\0'),
        !is_alpha('\0'),
        !is_alpha_numeral('\0'),
        !is_decimal_numeral('\0'),
        !is_binary_numeral('\0'),
        !is_octal_numeral('\0'),
        !is_hexdec_numeral('\0'),
{
}

} // verus!
