//! What holds of every text: the laws of the lexical grammar.

use crate::char_util::{is_alpha, is_decimal_numeral, is_whitespace, CharClass};
use crate::grammar::{
    at, block_comment_search, exponent_digits, float_end, lexeme_at, lexemes_from, number_at,
    radix_class, run_end, scan_end, starts_fraction, starts_identifier, symbol_at,
};
use vstd::prelude::*;

verus! {

/// A run ends inside the text, holds only characters of its class, and is
/// followed by none of them.
pub proof fn lemma_run_end(src: Seq<char>, class: CharClass, start: int)
    requires
        0 <= start <= src.len(),
    ensures
        start <= run_end(src, class, start) <= src.len(),
        forall|i: int| start <= i < run_end(src, class, start) ==> class.admits(#[trigger] src[i]),
        !class.admits(at(src, run_end(src, class, start))),
    decreases src.len() - start,
{
    if start < src.len() && class.admits(src[start]) {
        lemma_run_end(src, class, start + 1);
    }
}

/// A run can be entered at any of its positions, and ends where it ends.
pub proof fn lemma_run_end_from_within(src: Seq<char>, class: CharClass, start: int, mid: int)
    requires
        0 <= start <= mid <= src.len(),
        forall|i: int| start <= i < mid ==> class.admits(#[trigger] src[i]),
    ensures
        run_end(src, class, start) == run_end(src, class, mid),
    decreases mid - start,
{
    if start < mid {
        lemma_run_end_from_within(src, class, start + 1, mid);
    }
}

/// The search for the end of a block comment stops inside the text and
/// behind the place it started from, at the latest at the first NUL.
pub proof fn lemma_block_comment_search(src: Seq<char>, i: int)
    requires
        0 <= i <= src.len(),
    ensures
        i <= block_comment_search(src, i).1 <= src.len(),
        block_comment_search(src, i).0 ==> i + 2 <= block_comment_search(src, i).1,
    decreases src.len() - i,
{
    if at(src, i) == '\0' {
    } else if src[i] == '*' && at(src, i + 1) == '/' {
    } else {
        lemma_block_comment_search(src, i + 1);
    }
}

/// Every step ends inside the text. The end-of-file token stands exactly
/// where the text ends or holds a NUL, and takes nothing; every other token
/// takes at least one character.
pub proof fn lemma_lexeme_progress(src: Seq<char>, pos: int)
    requires
        0 <= pos <= src.len(),
    ensures
        pos + lexeme_at(src, pos).len <= src.len(),
        lexeme_at(src, pos).token is EndOfFile <==> at(src, pos) == '\0',
        lexeme_at(src, pos).token is EndOfFile ==> lexeme_at(src, pos).len == 0,
        !(lexeme_at(src, pos).token is EndOfFile) ==> lexeme_at(src, pos).len >= 1,
{
    let c = at(src, pos);
    if c == '\0' {
    } else if is_whitespace(c) {
        lemma_run_end(src, CharClass::Whitespace, pos);
    } else if c == '/' && at(src, pos + 1) == '/' {
        lemma_run_end(src, CharClass::CommentText, pos + 2);
    } else if c == '/' && at(src, pos + 1) == '*' {
        lemma_block_comment_search(src, pos + 2);
    } else if starts_identifier(src, pos) {
        lemma_run_end(src, CharClass::IdentifierPart, pos);
    } else if symbol_at(src, pos) is Some {
    } else if c == '\'' {
    } else if is_decimal_numeral(c) {
        lemma_number_progress(src, pos);
    } else {
    }
}

/// A numeric literal takes its first digit at least, and ends inside the
/// text.
pub proof fn lemma_number_progress(src: Seq<char>, pos: int)
    requires
        0 <= pos < src.len(),
        is_decimal_numeral(src[pos]),
    ensures
        1 <= number_at(src, pos).len,
        pos + number_at(src, pos).len <= src.len(),
{
    let next = at(src, pos + 1);
    if src[pos] == '0' && is_alpha(next) {
        match radix_class(next) {
            Some(class) => {
                lemma_run_end(src, class, pos + 2);
            },
            None => {
                lemma_run_end(src, CharClass::SuffixPart, pos + 1);
            },
        }
    } else {
        let end = run_end(src, CharClass::DecimalPart, pos);
        lemma_run_end(src, CharClass::DecimalPart, pos);
        if starts_fraction(src, end) {
            let fraction_end = run_end(src, CharClass::DecimalPart, end + 1);
            lemma_run_end(src, CharClass::DecimalPart, end + 1);
            match exponent_digits(src, fraction_end) {
                Some(digits) => {
                    lemma_run_end(src, CharClass::DecimalPart, digits);
                },
                None => {},
            }
        }
    }
}

/// A scan is finite: it yields at most one token for each character that it
/// has before it, and stops inside the text on a NUL or at the end.
pub proof fn lemma_scan_is_finite(src: Seq<char>, pos: int)
    requires
        0 <= pos <= src.len(),
    ensures
        lexemes_from(src, pos).len() <= src.len() - pos,
        pos <= scan_end(src, pos) <= src.len(),
        at(src, scan_end(src, pos)) == '\0',
        lexeme_at(src, scan_end(src, pos)).token is EndOfFile,
        forall|i: int|
            0 <= i < lexemes_from(src, pos).len() ==> !(#[trigger] lexemes_from(src, pos)[i]
                is EndOfFile),
    decreases src.len() - pos,
{
    let first = lexeme_at(src, pos);
    lemma_lexeme_progress(src, pos);
    if !(first.token is EndOfFile) {
        lemma_scan_is_finite(src, pos + first.len);
    }
}

/// A scan can be taken up after its first token: what it yields is that
/// token and then what the scan from behind it yields.
pub proof fn lemma_scan_unfolds(src: Seq<char>, pos: int)
    requires
        0 <= pos <= src.len(),
        !(lexeme_at(src, pos).token is EndOfFile),
    ensures
        lexemes_from(src, pos) == seq![lexeme_at(src, pos).token] + lexemes_from(
            src,
            pos + lexeme_at(src, pos).len,
        ),
        scan_end(src, pos) == scan_end(src, pos + lexeme_at(src, pos).len),
{
    lemma_lexeme_progress(src, pos);
}

/// Whether the text `a` from `i` on is the text `b` from `j` on.
pub open spec fn same_rest(a: Seq<char>, i: int, b: Seq<char>, j: int) -> bool {
    &&& 0 <= i <= a.len()
    &&& 0 <= j <= b.len()
    &&& a.subrange(i, a.len() as int) == b.subrange(j, b.len() as int)
}

/// Two texts with the same rest have the same characters in it.
pub proof fn lemma_same_char(a: Seq<char>, i: int, b: Seq<char>, j: int, k: int)
    requires
        same_rest(a, i, b, j),
        0 <= k,
    ensures
        a.len() - i == b.len() - j,
        at(a, i + k) == at(b, j + k),
{
    let ra = a.subrange(i, a.len() as int);
    let rb = b.subrange(j, b.len() as int);
    assert(ra.len() == rb.len());
    if k < a.len() - i {
        assert(ra[k] == a[i + k]);
        assert(rb[k] == b[j + k]);
    }
}

/// Two texts with the same rest have the same parts in it.
pub proof fn lemma_same_part(a: Seq<char>, i: int, b: Seq<char>, j: int, m: int, n: int)
    requires
        same_rest(a, i, b, j),
        0 <= m <= n <= a.len() - i,
    ensures
        a.len() - i == b.len() - j,
        a.subrange(i + m, i + n) == b.subrange(j + m, j + n),
        n == a.len() - i ==> same_rest(a, i + m, b, j + m),
{
    let ra = a.subrange(i, a.len() as int);
    let rb = b.subrange(j, b.len() as int);
    assert(ra.len() == rb.len());
    assert(a.subrange(i + m, i + n) =~= ra.subrange(m, n));
    assert(b.subrange(j + m, j + n) =~= rb.subrange(m, n));
}

/// Runs are as long in two texts with the same rest.
pub proof fn lemma_run_end_is_local(
    a: Seq<char>,
    i: int,
    b: Seq<char>,
    j: int,
    class: CharClass,
    k: int,
)
    requires
        same_rest(a, i, b, j),
        0 <= k <= a.len() - i,
    ensures
        run_end(a, class, i + k) - i == run_end(b, class, j + k) - j,
    decreases a.len() - i - k,
{
    lemma_same_char(a, i, b, j, k);
    if k < a.len() - i && class.admits(a[i + k]) {
        lemma_run_end_is_local(a, i, b, j, class, k + 1);
    }
}

/// The search for the end of a block comment goes the same way in two texts
/// with the same rest.
pub proof fn lemma_block_comment_search_is_local(
    a: Seq<char>,
    i: int,
    b: Seq<char>,
    j: int,
    k: int,
)
    requires
        same_rest(a, i, b, j),
        0 <= k <= a.len() - i,
    ensures
        block_comment_search(a, i + k).0 == block_comment_search(b, j + k).0,
        block_comment_search(a, i + k).1 - i == block_comment_search(b, j + k).1 - j,
    decreases a.len() - i - k,
{
    lemma_same_char(a, i, b, j, k);
    lemma_same_char(a, i, b, j, k + 1);
    if at(a, i + k) == '\0' {
    } else if a[i + k] == '*' && at(a, i + k + 1) == '/' {
    } else {
        lemma_block_comment_search_is_local(a, i, b, j, k + 1);
    }
}

/// A numeric literal depends on nothing but the text from its first digit
/// on.
pub proof fn lemma_number_is_local(a: Seq<char>, i: int, b: Seq<char>, j: int)
    requires
        same_rest(a, i, b, j),
        is_decimal_numeral(at(a, i)),
    ensures
        number_at(a, i) == number_at(b, j),
{
    lemma_same_char(a, i, b, j, 0);
    lemma_same_char(a, i, b, j, 1);
    let next = at(a, i + 1);
    if at(a, i) == '0' && is_alpha(next) {
        match radix_class(next) {
            Some(class) => {
                lemma_run_end(a, class, i + 2);
                lemma_run_end_is_local(a, i, b, j, class, 2);
                let len = run_end(a, class, i + 2) - i;
                lemma_same_part(a, i, b, j, 0, len);
            },
            None => {
                lemma_run_end(a, CharClass::SuffixPart, i + 1);
                lemma_run_end_is_local(a, i, b, j, CharClass::SuffixPart, 1);
                let len = run_end(a, CharClass::SuffixPart, i + 1) - i;
                lemma_same_part(a, i, b, j, 0, len);
            },
        }
    } else {
        let class = CharClass::DecimalPart;
        lemma_run_end(a, class, i);
        lemma_run_end_is_local(a, i, b, j, class, 0);
        let end = run_end(a, class, i) - i;
        lemma_same_char(a, i, b, j, end);
        lemma_same_char(a, i, b, j, end + 1);
        if starts_fraction(a, i + end) {
            lemma_run_end(a, class, i + end + 1);
            lemma_run_end_is_local(a, i, b, j, class, end + 1);
            let fraction = run_end(a, class, i + end + 1) - i;
            lemma_same_char(a, i, b, j, fraction);
            lemma_same_char(a, i, b, j, fraction + 1);
            lemma_same_char(a, i, b, j, fraction + 2);
            if let Some(digits) = exponent_digits(a, i + fraction) {
                lemma_run_end(a, class, digits);
                lemma_run_end_is_local(a, i, b, j, class, digits - i);
            }
            let len = float_end(a, i + end) - i;
            lemma_same_part(a, i, b, j, 0, len);
        } else {
            lemma_same_part(a, i, b, j, 0, end);
        }
    }
}

/// Scanning is a function of the text that is left and of nothing else: in
/// two texts with the same rest, the same token starts, and takes as many
/// characters. What was scanned before, or interned, has no part in it.
pub proof fn lemma_lexeme_is_local(a: Seq<char>, i: int, b: Seq<char>, j: int)
    requires
        same_rest(a, i, b, j),
    ensures
        lexeme_at(a, i) == lexeme_at(b, j),
{
    lemma_same_char(a, i, b, j, 0);
    lemma_same_char(a, i, b, j, 1);
    lemma_same_char(a, i, b, j, 2);
    lemma_same_char(a, i, b, j, 3);
    lemma_same_char(a, i, b, j, 4);
    lemma_same_char(a, i, b, j, 5);
    let c = at(a, i);
    if c == '\0' {
    } else if is_whitespace(c) {
        lemma_run_end_is_local(a, i, b, j, CharClass::Whitespace, 0);
    } else if c == '/' && at(a, i + 1) == '/' {
        lemma_run_end_is_local(a, i, b, j, CharClass::CommentText, 2);
    } else if c == '/' && at(a, i + 1) == '*' {
        lemma_block_comment_search_is_local(a, i, b, j, 2);
    } else if starts_identifier(a, i) {
        lemma_run_end(a, CharClass::IdentifierPart, i);
        lemma_run_end_is_local(a, i, b, j, CharClass::IdentifierPart, 0);
        let len = run_end(a, CharClass::IdentifierPart, i) - i;
        lemma_same_part(a, i, b, j, 0, len);
    } else if symbol_at(a, i) is Some {
    } else if c == '\'' {
        if a.len() - i >= 3 {
            lemma_same_part(a, i, b, j, 1, 2);
        }
        if a.len() - i >= 4 {
            lemma_same_part(a, i, b, j, 1, 3);
        }
        if a.len() - i >= 6 {
            lemma_same_part(a, i, b, j, 1, 5);
        }
    } else if is_decimal_numeral(c) {
        lemma_number_is_local(a, i, b, j);
    } else {
    }
}

/// A whole scan is a function of the text that is left and of nothing else:
/// scanning the same text again, from the start or as the rest of another
/// text, yields the same sequence of tokens.
pub proof fn lemma_scan_is_local(a: Seq<char>, i: int, b: Seq<char>, j: int)
    requires
        same_rest(a, i, b, j),
    ensures
        lexemes_from(a, i) == lexemes_from(b, j),
        scan_end(a, i) - i == scan_end(b, j) - j,
    decreases a.len() - i,
{
    lemma_lexeme_is_local(a, i, b, j);
    lemma_lexeme_progress(a, i);
    let first = lexeme_at(a, i);
    if !(first.token is EndOfFile) {
        let n = first.len as int;
        lemma_same_part(a, i, b, j, n, a.len() - i);
        lemma_scan_is_local(a, i + n, b, j + n);
    }
}

} // verus!
