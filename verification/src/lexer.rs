//! The scanner: a state machine over the characters of a text that yields
//! one token at each step.
//!
//! [`Scanner`] is the state machine itself: a text, a position in it and a
//! scratch buffer. It is handed the compilation context at each step.
//! [`Lexer`] is a scanner together with the context it borrows for as long
//! as it lives.

use crate::char_util::{
    is_alpha, is_decimal_numeral, is_hexdec_numeral, is_octal_numeral, is_whitespace,
    lemma_nul_is_in_no_class, CharClass,
};
use crate::compile_context::CompileContext;
use crate::grammar::{
    at, block_comment_at, block_comment_search, char_literal_at, decimal_at, float_end,
    float_literal, integer_literal, lexeme_at, lexemes_from, number_at, run_end, scan_end,
    starts_fraction,
};
use crate::laws::{
    lemma_block_comment_search, lemma_lexeme_progress, lemma_run_end, lemma_run_end_from_within,
    lemma_scan_unfolds,
};
use crate::string_table::{lemma_handles_are_stable, with_handle};
use crate::token::{
    views_of, BinOpToken, DelimitToken, LiteralToken, LiteralView, LogicalOpToken, RelOpToken,
    Token, TokenView,
};
use crate::token_stream::TokenStream;
use std::rc::Rc;
use std::str::Chars;
use vstd::prelude::*;
use vstd::std_specs::iter::IteratorSpec;

verus! {

/// The text that `iterator` has not walked yet: a call of `Chars::as_str`,
/// which views the rest of the underlying text and leaves the iterator as it
/// is. The contract claims that this text holds the characters that the
/// iterator would go on to yield, in their order.
#[verifier::external_body]
fn rest_of<'a>(iterator: &Chars<'a>) -> (text: &'a str)
    ensures
        text@ == iterator.remaining(),
{
    iterator.as_str()
}

/// Appends `c` to `text`: a call of `String::push`. The contract claims
/// that the text afterwards is the text before with `c` behind it.
#[verifier::external_body]
fn push_char(text: &mut String, c: char)
    ensures
        final(text)@ == old(text)@.push(c),
{
    text.push(c)
}

/// Whether the handle that `token` holds, if it holds one, is the canonical
/// handle of its text in the string table of `ctx`.
pub open spec fn canonical(ctx: CompileContext, token: Token) -> bool {
    token.handle() matches Some(handle) ==> {
        &&& ctx.table().contains(handle@)
        &&& handle == ctx.table().handle_of(handle@)
    }
}

/// What a step of the scanner does to the compilation context: nothing, if
/// the token carries no text. If it does, its text has been interned: the
/// string table holds it, with one more handle than before if the text was
/// new, and the token holds the canonical handle.
pub open spec fn interned(before: CompileContext, after: CompileContext, token: Token) -> bool {
    match token.handle() {
        Some(handle) => {
            &&& after.wf()
            &&& canonical(after, token)
            &&& after.table().handles() == with_handle(before.table().handles(), handle)
        },
        None => after == before,
    }
}

/// What a sequence of handles becomes when the texts of `tokens` are
/// interned one after the other: see [`with_handle`].
pub open spec fn handles_after(handles: Seq<Rc<String>>, tokens: Seq<Token>) -> Seq<Rc<String>>
    decreases tokens.len(),
{
    if tokens.len() == 0 {
        handles
    } else {
        let earlier = handles_after(handles, tokens.drop_last());
        match tokens.last().handle() {
            Some(handle) => with_handle(earlier, handle),
            None => earlier,
        }
    }
}

/// A token keeps the canonical handle of its text when more is interned.
pub proof fn lemma_canonical_is_stable(
    earlier: CompileContext,
    later: CompileContext,
    token: Token,
)
    requires
        earlier.wf(),
        later.wf(),
        later.table().extends(&earlier.table()),
        canonical(earlier, token),
    ensures
        canonical(later, token),
{
    if let Some(handle) = token.handle() {
        lemma_handles_are_stable(earlier.table(), later.table(), handle@);
    }
}

/// Two tokens with the same text that were scanned with one compilation
/// context hold the identical handle, whether one scan yielded both or two
/// scans did, the context having grown in between.
pub proof fn lemma_interning_identity(
    earlier: CompileContext,
    later: CompileContext,
    first: Token,
    second: Token,
)
    requires
        earlier.wf(),
        later.wf(),
        later.table().extends(&earlier.table()),
        canonical(earlier, first),
        canonical(later, second),
        first.handle() is Some,
        second.handle() is Some,
        first.handle().unwrap()@ == second.handle().unwrap()@,
    ensures
        first.handle() == second.handle(),
{
    lemma_canonical_is_stable(earlier, later, first);
}

/// A text and a position in it.
struct Cursor {
    input: Vec<char>,
    pos: usize,
}

impl Cursor {
    /// The position lies in the text or at its end, at every moment.
    #[verifier::type_invariant]
    spec fn wf(&self) -> bool {
        self.pos <= self.input.len()
    }
}

/// The state machine: a text, the position of the character that is looked
/// at, and a buffer for the text of the token that is being read.
pub struct Scanner {
    cursor: Cursor,
    buffer: String,
}

impl Scanner {
    /// The whole text that this scanner was made for.
    pub closed spec fn source(&self) -> Seq<char> {
        self.cursor.input@
    }

    /// The position in the text at which the next token starts.
    pub closed spec fn position(&self) -> int {
        self.cursor.pos as int
    }

    /// The position lies in the text or at its end: what holds of every
    /// scanner at every moment.
    pub open spec fn wf(&self) -> bool {
        0 <= self.position() <= self.source().len()
    }

    /// A scanner at the start of the characters that `iterator` has yet to
    /// yield.
    pub fn new(iterator: Chars<'_>) -> (scanner: Scanner)
        ensures
            scanner.wf(),
            scanner.source() == iterator.remaining(),
            scanner.position() == 0,
    {
        broadcast use vstd::string::group_string_axioms;

        let text: &str = rest_of(&iterator);
        let mut input: Vec<char> = Vec::new();
        for c in it: text.chars()
            invariant
                it.seq() == text@,
                input@ == it.history(),
        {
            input.push(c);
        }
        Scanner { cursor: Cursor { input, pos: 0 }, buffer: String::new() }
    }

    /// The character that is looked at, NUL at the end of the text.
    fn get(&self) -> (c: char)
        ensures
            c == at(self.source(), self.position()),
    {
        if self.cursor.pos < self.cursor.input.len() {
            self.cursor.input[self.cursor.pos]
        } else {
            '\0'
        }
    }

    /// The character `ahead` places behind the one that is looked at, NUL
    /// past the end of the text.
    fn peek(&self, ahead: usize) -> (c: char)
        requires
            self.wf(),
        ensures
            c == at(self.source(), self.position() + ahead),
    {
        if ahead < self.cursor.input.len() - self.cursor.pos {
            self.cursor.input[self.cursor.pos + ahead]
        } else {
            '\0'
        }
    }

    /// Appends the character that is looked at to the buffer.
    fn store(&mut self)
        ensures
            final(self).source() == old(self).source(),
            final(self).position() == old(self).position(),
            final(self).buffer@ == old(self).buffer@.push(
                at(old(self).source(), old(self).position()),
            ),
    {
        let c = self.get();
        push_char(&mut self.buffer, c);
    }

    /// Moves on to the next character, unless the text has ended.
    fn consume(&mut self)
        requires
            old(self).wf(),
        ensures
            final(self).wf(),
            final(self).source() == old(self).source(),
            final(self).buffer == old(self).buffer,
            final(self).position() == if old(self).position() < old(self).source().len() {
                old(self).position() + 1
            } else {
                old(self).position()
            },
    {
        if self.cursor.pos < self.cursor.input.len() {
            self.cursor.pos += 1;
        }
    }

    /// Empties the buffer.
    fn clear_buffer(&mut self)
        ensures
            final(self).source() == old(self).source(),
            final(self).position() == old(self).position(),
            final(self).buffer@ == Seq::<char>::empty(),
    {
        self.buffer = String::new();
    }

    /// Interns what the buffer holds and empties it.
    fn drain_buffer(&mut self, ctx: &mut CompileContext) -> (handle: Rc<String>)
        ensures
            final(self).source() == old(self).source(),
            final(self).position() == old(self).position(),
            final(self).buffer@ == Seq::<char>::empty(),
            handle@ == old(self).buffer@,
            final(ctx).wf(),
            final(ctx).table().contains(handle@),
            handle == final(ctx).table().handle_of(handle@),
            final(ctx).table().handles() == with_handle(old(ctx).table().handles(), handle),
    {
        let handle = ctx.intern(self.buffer.as_str());
        self.clear_buffer();
        handle
    }

    /// Appends the characters from the one that is looked at on to the
    /// buffer for as long as they are of `class`, and moves behind them.
    fn store_while(&mut self, class: CharClass)
        requires
            old(self).wf(),
        ensures
            final(self).wf(),
            final(self).source() == old(self).source(),
            final(self).position() == run_end(old(self).source(), class, old(self).position()),
            final(self).buffer@ == old(self).buffer@ + old(self).source().subrange(
                old(self).position(),
                final(self).position(),
            ),
    {
        while class.admits(self.get())
            invariant
                self.wf(),
                self.source() == old(self).source(),
                old(self).position() <= self.position(),
                forall|i: int|
                    old(self).position() <= i < self.position() ==> class.admits(
                        #[trigger] self.source()[i],
                    ),
                self.buffer@ == old(self).buffer@ + self.source().subrange(
                    old(self).position(),
                    self.position(),
                ),
            decreases self.source().len() - self.position(),
        {
            self.store();
            self.consume();
        }
        proof {
            lemma_run_end_from_within(
                self.source(),
                class,
                old(self).position(),
                self.position(),
            );
        }
    }

    /// Moves on from the character that is looked at for as long as the
    /// characters are of `class`.
    fn skip_while(&mut self, class: CharClass)
        requires
            old(self).wf(),
        ensures
            final(self).wf(),
            final(self).source() == old(self).source(),
            final(self).buffer == old(self).buffer,
            final(self).position() == run_end(old(self).source(), class, old(self).position()),
    {
        while class.admits(self.get())
            invariant
                self.wf(),
                self.source() == old(self).source(),
                self.buffer == old(self).buffer,
                old(self).position() <= self.position(),
                forall|i: int|
                    old(self).position() <= i < self.position() ==> class.admits(
                        #[trigger] self.source()[i],
                    ),
            decreases self.source().len() - self.position(),
        {
            self.consume();
        }
        proof {
            lemma_run_end_from_within(
                self.source(),
                class,
                old(self).position(),
                self.position(),
            );
        }
    }

    /// Reads the line comment whose second `/` is looked at: everything up
    /// to the end of the line, which is left where it is.
    fn scan_line_comment(&mut self) -> (token: Token)
        requires
            old(self).wf(),
            old(self).position() >= 1,
            at(old(self).source(), old(self).position()) == '/',
        ensures
            final(self).wf(),
            final(self).source() == old(self).source(),
            token@ == TokenView::Comment,
            final(self).position() == run_end(
                old(self).source(),
                CharClass::CommentText,
                old(self).position() + 1,
            ),
    {
        self.skip_while(CharClass::CommentText);
        Token::Comment
    }

    /// Reads the block comment whose opening `*` is looked at.
    fn scan_multi_line_comment(&mut self) -> (token: Token)
        requires
            old(self).wf(),
            old(self).position() >= 1,
            at(old(self).source(), old(self).position()) == '*',
        ensures
            final(self).wf(),
            final(self).source() == old(self).source(),
            token@ == block_comment_at(old(self).source(), old(self).position() - 1).token,
            final(self).position() == old(self).position() - 1 + block_comment_at(
                old(self).source(),
                old(self).position() - 1,
            ).len,
    {
        self.consume();
        loop
            invariant
                self.wf(),
                self.source() == old(self).source(),
                old(self).position() + 1 <= self.position(),
                block_comment_search(self.source(), self.position()) == block_comment_search(
                    self.source(),
                    old(self).position() + 1,
                ),
            decreases self.source().len() - self.position(),
        {
            let c = self.get();
            if c == '\0' {
                return Token::Error;
            } else if c == '*' {
                self.consume();
                if self.get() == '/' {
                    self.consume();
                    return Token::Comment;
                }
            } else {
                self.consume();
            }
        }
    }

    /// Reads the identifier whose first character is looked at.
    fn scan_identifier(&mut self, ctx: &mut CompileContext) -> (token: Token)
        requires
            old(self).wf(),
            old(self).buffer@ == Seq::<char>::empty(),
        ensures
            final(self).wf(),
            final(self).source() == old(self).source(),
            final(self).position() == run_end(
                old(self).source(),
                CharClass::IdentifierPart,
                old(self).position(),
            ),
            token@ == TokenView::Identifier(
                old(self).source().subrange(old(self).position(), final(self).position()),
            ),
            interned(*old(ctx), *final(ctx), token),
    {
        self.store_while(CharClass::IdentifierPart);
        let drained = self.drain_buffer(ctx);
        Token::Identifier(drained)
    }

    /// Ends a character literal whose text has been read: the closing quote
    /// must be looked at.
    fn close_char_literal(&mut self, ctx: &mut CompileContext) -> (token: Token)
        requires
            old(self).wf(),
        ensures
            final(self).wf(),
            final(self).source() == old(self).source(),
            at(old(self).source(), old(self).position()) == '\'' ==> {
                &&& token@ == TokenView::Literal(LiteralView::Char(old(self).buffer@))
                &&& final(self).position() == old(self).position() + 1
            },
            at(old(self).source(), old(self).position()) != '\'' ==> {
                &&& token@ == TokenView::Error
                &&& final(self).position() == old(self).position()
            },
            interned(*old(ctx), *final(ctx), token),
    {
        if self.get() == '\'' {
            self.consume();
            let drained = self.drain_buffer(ctx);
            Token::Literal(LiteralToken::Char(drained))
        } else {
            Token::Error
        }
    }

    /// Reads the character literal whose opening quote is looked at.
    fn scan_char_literal(&mut self, ctx: &mut CompileContext) -> (token: Token)
        requires
            old(self).wf(),
            at(old(self).source(), old(self).position()) == '\'',
            old(self).buffer@ == Seq::<char>::empty(),
        ensures
            final(self).wf(),
            final(self).source() == old(self).source(),
            token@ == char_literal_at(old(self).source(), old(self).position()).token,
            final(self).position() == old(self).position() + char_literal_at(
                old(self).source(),
                old(self).position(),
            ).len,
            interned(*old(ctx), *final(ctx), token),
    {
        let ghost src = self.source();
        let ghost start = self.position();
        self.consume();
        let c1 = self.get();
        if c1 == '\'' {
            // nothing stands between the quotes
            return Token::Error;
        }
        self.store();
        self.consume();
        if c1 != '\\' {
            // one character
            proof {
                if at(src, start + 2) == '\'' {
                    assert(self.buffer@ =~= src.subrange(start + 1, start + 2));
                }
            }
            return self.close_char_literal(ctx);
        }
        let c2 = self.get();
        if c2 == 'n' || c2 == 't' || c2 == 'r' || c2 == '\\' || c2 == '\'' {
            // a simple escape
            self.store();
            self.consume();
            proof {
                if at(src, start + 3) == '\'' {
                    assert(self.buffer@ =~= src.subrange(start + 1, start + 3));
                }
            }
            self.close_char_literal(ctx)
        } else if c2 == 'x' {
            // a code of two digits, the first of them octal
            self.store();
            self.consume();
            if !is_octal_numeral(self.get()) {
                return Token::Error;
            }
            self.store();
            self.consume();
            if !is_hexdec_numeral(self.get()) {
                return Token::Error;
            }
            self.store();
            self.consume();
            proof {
                if at(src, start + 5) == '\'' {
                    assert(self.buffer@ =~= src.subrange(start + 1, start + 5));
                }
            }
            self.close_char_literal(ctx)
        } else if c2 == 'u' {
            // reserved
            self.store();
            self.consume();
            Token::Error
        } else {
            Token::Error
        }
    }

    /// Reads the quote that is looked at and would open a string literal:
    /// string literals are not read yet, so this is an error that takes the
    /// quote alone.
    fn scan_string_literal(&mut self) -> (token: Token)
        requires
            old(self).wf(),
            old(self).position() < old(self).source().len(),
        ensures
            final(self).wf(),
            final(self).source() == old(self).source(),
            final(self).buffer == old(self).buffer,
            final(self).position() == old(self).position() + 1,
            token@ == TokenView::Error,
    {
        self.consume();
        Token::Error
    }

    /// Ends an integer literal whose text has been read.
    fn make_integer(&mut self, ctx: &mut CompileContext) -> (token: Token)
        ensures
            final(self).source() == old(self).source(),
            final(self).position() == old(self).position(),
            token@ == TokenView::Literal(LiteralView::Integer(old(self).buffer@)),
            interned(*old(ctx), *final(ctx), token),
    {
        let drained = self.drain_buffer(ctx);
        Token::Literal(LiteralToken::Integer(drained))
    }

    /// Reads the suffix of the literal `0`: the letter that is looked at and
    /// the letters and digits behind it.
    fn scan_integral_literal_suffix(&mut self, ctx: &mut CompileContext) -> (token: Token)
        requires
            old(self).wf(),
            old(self).position() >= 1,
            old(self).buffer@ == old(self).source().subrange(
                old(self).position() - 1,
                old(self).position(),
            ),
        ensures
            final(self).wf(),
            final(self).source() == old(self).source(),
            final(self).position() == run_end(
                old(self).source(),
                CharClass::SuffixPart,
                old(self).position(),
            ),
            token@ == integer_literal(
                old(self).source(),
                old(self).position() - 1,
                final(self).position(),
            ).token,
            interned(*old(ctx), *final(ctx), token),
    {
        proof {
            lemma_run_end(self.source(), CharClass::SuffixPart, self.position());
        }
        self.store_while(CharClass::SuffixPart);
        assert(self.buffer@ =~= self.source().subrange(old(self).position() - 1, self.position()));
        self.make_integer(ctx)
    }

    /// Reads the digits behind a radix prefix, whose letter is looked at.
    fn scan_radix_literal(&mut self, ctx: &mut CompileContext, class: CharClass) -> (token: Token)
        requires
            old(self).wf(),
            1 <= old(self).position() < old(self).source().len(),
            old(self).buffer@ == old(self).source().subrange(
                old(self).position() - 1,
                old(self).position(),
            ),
        ensures
            final(self).wf(),
            final(self).source() == old(self).source(),
            final(self).position() == run_end(old(self).source(), class, old(self).position() + 1),
            token@ == integer_literal(
                old(self).source(),
                old(self).position() - 1,
                final(self).position(),
            ).token,
            interned(*old(ctx), *final(ctx), token),
    {
        self.store();
        self.consume();
        proof {
            lemma_run_end(self.source(), class, self.position());
        }
        self.store_while(class);
        assert(self.buffer@ =~= self.source().subrange(old(self).position() - 1, self.position()));
        self.make_integer(ctx)
    }

    /// Reads the binary literal whose `b` is looked at.
    fn scan_binary_literal(&mut self, ctx: &mut CompileContext) -> (token: Token)
        requires
            old(self).wf(),
            1 <= old(self).position(),
            at(old(self).source(), old(self).position()) == 'b',
            old(self).buffer@ == old(self).source().subrange(
                old(self).position() - 1,
                old(self).position(),
            ),
        ensures
            final(self).wf(),
            final(self).source() == old(self).source(),
            final(self).position() == run_end(
                old(self).source(),
                CharClass::BinaryPart,
                old(self).position() + 1,
            ),
            token@ == integer_literal(
                old(self).source(),
                old(self).position() - 1,
                final(self).position(),
            ).token,
            interned(*old(ctx), *final(ctx), token),
    {
        self.scan_radix_literal(ctx, CharClass::BinaryPart)
    }

    /// Reads the octal literal whose `o` is looked at.
    fn scan_octal_literal(&mut self, ctx: &mut CompileContext) -> (token: Token)
        requires
            old(self).wf(),
            1 <= old(self).position(),
            at(old(self).source(), old(self).position()) == 'o',
            old(self).buffer@ == old(self).source().subrange(
                old(self).position() - 1,
                old(self).position(),
            ),
        ensures
            final(self).wf(),
            final(self).source() == old(self).source(),
            final(self).position() == run_end(
                old(self).source(),
                CharClass::OctalPart,
                old(self).position() + 1,
            ),
            token@ == integer_literal(
                old(self).source(),
                old(self).position() - 1,
                final(self).position(),
            ).token,
            interned(*old(ctx), *final(ctx), token),
    {
        self.scan_radix_literal(ctx, CharClass::OctalPart)
    }

    /// Reads the hexadecimal literal whose `x` is looked at.
    fn scan_hexdec_literal(&mut self, ctx: &mut CompileContext) -> (token: Token)
        requires
            old(self).wf(),
            1 <= old(self).position(),
            at(old(self).source(), old(self).position()) == 'x',
            old(self).buffer@ == old(self).source().subrange(
                old(self).position() - 1,
                old(self).position(),
            ),
        ensures
            final(self).wf(),
            final(self).source() == old(self).source(),
            final(self).position() == run_end(
                old(self).source(),
                CharClass::HexdecPart,
                old(self).position() + 1,
            ),
            token@ == integer_literal(
                old(self).source(),
                old(self).position() - 1,
                final(self).position(),
            ).token,
            interned(*old(ctx), *final(ctx), token),
    {
        self.scan_radix_literal(ctx, CharClass::HexdecPart)
    }

    /// Reads the fraction, and the exponent if there is one, of the
    /// floating-point literal whose `.` is looked at.
    fn scan_float_literal(
        &mut self,
        ctx: &mut CompileContext,
        Ghost(start): Ghost<int>,
    ) -> (token: Token)
        requires
            old(self).wf(),
            0 <= start <= old(self).position(),
            starts_fraction(old(self).source(), old(self).position()),
            old(self).buffer@ == old(self).source().subrange(start, old(self).position()),
        ensures
            final(self).wf(),
            final(self).source() == old(self).source(),
            final(self).position() == float_end(old(self).source(), old(self).position()),
            final(self).position() >= old(self).position(),
            token@ == float_literal(old(self).source(), start, final(self).position()).token,
            interned(*old(ctx), *final(ctx), token),
    {
        let ghost src = self.source();
        self.store();
        self.consume();
        proof {
            lemma_run_end(src, CharClass::DecimalPart, self.position());
        }
        self.store_while(CharClass::DecimalPart);
        assert(self.buffer@ =~= src.subrange(start, self.position()));
        let e = self.get();
        if e == 'e' || e == 'E' {
            let sign = self.peek(1);
            let signed = sign == '+' || sign == '-';
            let digit = if signed {
                self.peek(2)
            } else {
                sign
            };
            if is_decimal_numeral(digit) {
                self.store();
                self.consume();
                if signed {
                    self.store();
                    self.consume();
                }
                proof {
                    lemma_run_end(src, CharClass::DecimalPart, self.position());
                }
                self.store_while(CharClass::DecimalPart);
                assert(self.buffer@ =~= src.subrange(start, self.position()));
            }
        }
        let drained = self.drain_buffer(ctx);
        Token::Literal(LiteralToken::Float(drained))
    }

    /// Reads on in the decimal literal that starts at `start`, from the
    /// character that is looked at.
    fn scan_decimal_literal(
        &mut self,
        ctx: &mut CompileContext,
        Ghost(start): Ghost<int>,
    ) -> (token: Token)
        requires
            old(self).wf(),
            0 <= start <= old(self).position(),
            forall|i: int|
                start <= i < old(self).position() ==> CharClass::DecimalPart.admits(
                    #[trigger] old(self).source()[i],
                ),
            old(self).buffer@ == old(self).source().subrange(start, old(self).position()),
        ensures
            final(self).wf(),
            final(self).source() == old(self).source(),
            token@ == decimal_at(old(self).source(), start).token,
            final(self).position() == start + decimal_at(old(self).source(), start).len,
            interned(*old(ctx), *final(ctx), token),
    {
        let ghost src = self.source();
        proof {
            lemma_run_end(src, CharClass::DecimalPart, self.position());
            lemma_run_end_from_within(src, CharClass::DecimalPart, start, self.position());
        }
        self.store_while(CharClass::DecimalPart);
        assert(self.buffer@ =~= src.subrange(start, self.position()));
        if self.get() == '.' && is_decimal_numeral(self.peek(1)) {
            self.scan_float_literal(ctx, Ghost(start))
        } else {
            self.make_integer(ctx)
        }
    }

    /// Reads the numeric literal whose first digit is looked at.
    fn scan_number_literal(&mut self, ctx: &mut CompileContext) -> (token: Token)
        requires
            old(self).wf(),
            is_decimal_numeral(at(old(self).source(), old(self).position())),
            old(self).buffer@ == Seq::<char>::empty(),
        ensures
            final(self).wf(),
            final(self).source() == old(self).source(),
            token@ == number_at(old(self).source(), old(self).position()).token,
            final(self).position() == old(self).position() + number_at(
                old(self).source(),
                old(self).position(),
            ).len,
            interned(*old(ctx), *final(ctx), token),
    {
        let ghost src = self.source();
        let ghost start = self.position();
        if self.get() == '0' {
            self.store();
            self.consume();
            assert(self.buffer@ =~= src.subrange(start, start + 1));
            let next = self.get();
            if next == 'b' {
                proof {
                    lemma_run_end(src, CharClass::BinaryPart, start + 2);
                }
                self.scan_binary_literal(ctx)
            } else if next == 'o' {
                proof {
                    lemma_run_end(src, CharClass::OctalPart, start + 2);
                }
                self.scan_octal_literal(ctx)
            } else if next == 'x' {
                proof {
                    lemma_run_end(src, CharClass::HexdecPart, start + 2);
                }
                self.scan_hexdec_literal(ctx)
            } else if is_alpha(next) {
                // the literal `0` with a suffix
                proof {
                    lemma_run_end(src, CharClass::SuffixPart, start + 1);
                }
                self.scan_integral_literal_suffix(ctx)
            } else {
                self.scan_decimal_literal(ctx, Ghost(start))
            }
        } else {
            assert(self.buffer@ =~= src.subrange(start, start));
            self.scan_decimal_literal(ctx, Ghost(start))
        }
    }
    /// Reads the operator `op` at the character that is looked at, or its
    /// compound assignment if `=` follows.
    fn scan_operator(&mut self, op: BinOpToken) -> (token: Token)
        requires
            old(self).wf(),
            old(self).position() < old(self).source().len(),
        ensures
            final(self).wf(),
            final(self).source() == old(self).source(),
            at(old(self).source(), old(self).position() + 1) == '=' ==> {
                &&& token@ == TokenView::BinOpEq(op)
                &&& final(self).position() == old(self).position() + 2
            },
            at(old(self).source(), old(self).position() + 1) != '=' ==> {
                &&& token@ == TokenView::BinOp(op)
                &&& final(self).position() == old(self).position() + 1
            },
    {
        self.consume();
        if self.get() == '=' {
            self.consume();
            Token::BinOpEq(op)
        } else {
            Token::BinOp(op)
        }
    }

    /// Reads the token that starts at the current position and moves behind
    /// it.
    ///
    /// The token and the number of characters it takes are those of
    /// [`lexeme_at`]. At the end of the text that is the end-of-file token,
    /// at every call. A token that carries text has its text interned in the
    /// string table of `ctx`: see [`interned`].
    pub fn next_token(&mut self, ctx: &mut CompileContext) -> (token: Token)
        ensures
            final(self).wf(),
            final(ctx).wf(),
            final(self).source() == old(self).source(),
            token@ == lexeme_at(old(self).source(), old(self).position()).token,
            final(self).position() == old(self).position() + lexeme_at(
                old(self).source(),
                old(self).position(),
            ).len,
            interned(*old(ctx), *final(ctx), token),
    {
        let ghost src = self.source();
        let ghost start = self.position();
        proof {
            use_type_invariant(&self.cursor);
            use_type_invariant(&*ctx);
        }
        self.clear_buffer();
        let c = self.get();
        if c == '\0' {
            // the end of the text
            Token::EndOfFile
        } else if is_whitespace(c) {
            proof {
                lemma_run_end(src, CharClass::Whitespace, start);
            }
            self.skip_while(CharClass::Whitespace);
            Token::Whitespace
        } else if c == '(' {
            self.consume();
            Token::OpenDelim(DelimitToken::Paren)
        } else if c == '[' {
            self.consume();
            Token::OpenDelim(DelimitToken::Bracket)
        } else if c == '{' {
            self.consume();
            Token::OpenDelim(DelimitToken::Brace)
        } else if c == ')' {
            self.consume();
            Token::CloseDelim(DelimitToken::Paren)
        } else if c == ']' {
            self.consume();
            Token::CloseDelim(DelimitToken::Bracket)
        } else if c == '}' {
            self.consume();
            Token::CloseDelim(DelimitToken::Brace)
        } else if c == '?' {
            self.consume();
            Token::Question
        } else if c == ';' {
            self.consume();
            Token::SemiColon
        } else if c == ',' {
            self.consume();
            Token::Comma
        } else if c == '_' {
            // an identifier, if it goes on
            if CharClass::IdentifierPart.admits(self.peek(1)) {
                proof {
                    lemma_run_end(src, CharClass::IdentifierPart, start);
                }
                self.scan_identifier(ctx)
            } else {
                self.consume();
                Token::Underscore
            }
        } else if c == '.' {
            self.consume();
            if self.get() == '.' {
                self.consume();
                if self.get() == '.' {
                    self.consume();
                    Token::DotDotDot
                } else {
                    Token::DotDot
                }
            } else {
                Token::Dot
            }
        } else if c == '+' {
            self.scan_operator(BinOpToken::Plus)
        } else if c == '-' {
            if self.peek(1) == '>' {
                self.consume();
                self.consume();
                Token::Arrow
            } else {
                self.scan_operator(BinOpToken::Minus)
            }
        } else if c == '*' {
            self.scan_operator(BinOpToken::Star)
        } else if c == '/' {
            let next = self.peek(1);
            if next == '/' {
                proof {
                    lemma_run_end(src, CharClass::CommentText, start + 2);
                }
                self.consume();
                self.scan_line_comment()
            } else if next == '*' {
                self.consume();
                self.scan_multi_line_comment()
            } else {
                self.scan_operator(BinOpToken::Slash)
            }
        } else if c == '%' {
            self.scan_operator(BinOpToken::Percent)
        } else if c == '^' {
            self.scan_operator(BinOpToken::Caret)
        } else if c == '!' {
            self.consume();
            if self.get() == '=' {
                self.consume();
                Token::RelOp(RelOpToken::NotEq)
            } else {
                Token::Exclamation
            }
        } else if c == '=' {
            self.consume();
            let next = self.get();
            if next == '>' {
                self.consume();
                Token::FatArrow
            } else if next == '=' {
                self.consume();
                Token::RelOp(RelOpToken::EqEq)
            } else {
                Token::Eq
            }
        } else if c == '&' {
            if self.peek(1) == '&' {
                self.consume();
                self.consume();
                Token::LogicalOp(LogicalOpToken::AndAnd)
            } else {
                self.scan_operator(BinOpToken::And)
            }
        } else if c == '|' {
            if self.peek(1) == '|' {
                self.consume();
                self.consume();
                Token::LogicalOp(LogicalOpToken::OrOr)
            } else {
                self.scan_operator(BinOpToken::Or)
            }
        } else if c == '<' {
            let next = self.peek(1);
            if next == '<' {
                self.consume();
                self.scan_operator(BinOpToken::Shl)
            } else if next == '=' {
                self.consume();
                self.consume();
                Token::RelOp(RelOpToken::LessEq)
            } else {
                self.consume();
                Token::RelOp(RelOpToken::LessThan)
            }
        } else if c == '>' {
            let next = self.peek(1);
            if next == '>' {
                self.consume();
                self.scan_operator(BinOpToken::Shr)
            } else if next == '=' {
                self.consume();
                self.consume();
                Token::RelOp(RelOpToken::GreaterEq)
            } else {
                self.consume();
                Token::RelOp(RelOpToken::GreaterThan)
            }
        } else if c == '\'' {
            self.scan_char_literal(ctx)
        } else if c == '"' {
            self.scan_string_literal()
        } else if is_decimal_numeral(c) {
            self.scan_number_literal(ctx)
        } else if is_alpha(c) {
            proof {
                lemma_run_end(src, CharClass::IdentifierPart, start);
            }
            self.scan_identifier(ctx)
        } else {
            // a character that starts no token
            self.consume();
            Token::Error
        }
    }
    /// The next token of the sequence that ends before the end-of-file
    /// token: what [`Scanner::next_token`] yields, or `None` in place of
    /// the end-of-file token.
    pub fn next(&mut self, ctx: &mut CompileContext) -> (next: Option<Token>)
        ensures
            final(self).wf(),
            final(ctx).wf(),
            final(self).source() == old(self).source(),
            final(self).position() == old(self).position() + lexeme_at(
                old(self).source(),
                old(self).position(),
            ).len,
            next is None <==> lexeme_at(old(self).source(), old(self).position()).token
                is EndOfFile,
            match next {
                Some(token) => {
                    &&& token@ == lexeme_at(old(self).source(), old(self).position()).token
                    &&& interned(*old(ctx), *final(ctx), token)
                },
                None => *final(ctx) == *old(ctx),
            },
    {
        let token = self.next_token(ctx);
        match token {
            Token::EndOfFile => None,
            _ => Some(token),
        }
    }

    /// All the tokens from the current position on, up to the end-of-file
    /// token, which is left out.
    ///
    /// Their views are those of [`lexemes_from`], and the scanner stops where
    /// [`scan_end`] says. Their texts have been interned in the order in
    /// which they stand, and each token holds the canonical handle of its
    /// text.
    pub fn tokens(&mut self, ctx: &mut CompileContext) -> (tokens: Vec<Token>)
        ensures
            final(self).wf(),
            final(ctx).wf(),
            final(self).source() == old(self).source(),
            views_of(tokens@) == lexemes_from(old(self).source(), old(self).position()),
            final(self).position() == scan_end(old(self).source(), old(self).position()),
            final(ctx).table().handles() == handles_after(old(ctx).table().handles(), tokens@),
            final(ctx).table().extends(&old(ctx).table()),
            forall|i: int| 0 <= i < tokens.len() ==> canonical(*final(ctx), #[trigger] tokens[i]),
    {
        let ghost src = self.source();
        let ghost start = self.position();
        let ghost before = *ctx;
        proof {
            use_type_invariant(&self.cursor);
            use_type_invariant(&*ctx);
        }
        let mut tokens: Vec<Token> = Vec::new();
        loop
            invariant
                self.wf(),
                ctx.wf(),
                self.source() == src,
                start <= self.position(),
                views_of(tokens@) + lexemes_from(src, self.position()) == lexemes_from(
                    src,
                    start,
                ),
                scan_end(src, self.position()) == scan_end(src, start),
                ctx.table().handles() == handles_after(before.table().handles(), tokens@),
                ctx.table().extends(&before.table()),
                forall|i: int| 0 <= i < tokens.len() ==> canonical(*ctx, #[trigger] tokens[i]),
            ensures
                self.wf(),
                ctx.wf(),
                self.source() == src,
                views_of(tokens@) == lexemes_from(src, start),
                self.position() == scan_end(src, start),
                ctx.table().handles() == handles_after(before.table().handles(), tokens@),
                ctx.table().extends(&before.table()),
                forall|i: int| 0 <= i < tokens.len() ==> canonical(*ctx, #[trigger] tokens[i]),
            decreases src.len() - self.position(),
        {
            let ghost here = self.position();
            let ghost earlier = *ctx;
            let ghost so_far = tokens@;
            match self.next(ctx) {
                None => {
                    break ;
                },
                Some(token) => {
                    tokens.push(token);
                    proof {
                        lemma_scan_unfolds(src, here);
                        assert(tokens@.drop_last() =~= so_far);
                        assert forall|i: int| 0 <= i < tokens.len() implies canonical(
                            *ctx,
                            #[trigger] tokens[i],
                        ) by {
                            if i < so_far.len() {
                                lemma_canonical_is_stable(earlier, *ctx, so_far[i]);
                            }
                        }
                    }
                },
            }
        }
        tokens
    }
}

/// A scanner over one text, together with the compilation context that it
/// interns in, borrowed for as long as the scanner lives.
///
/// The lexer never lets go of the context it was made with. Each of its
/// methods says so in its last clause: what the borrowed context will hold
/// when the borrow ends is the same before and after the call. That is what
/// tells the owner of the context, once the lexer is gone, that the context
/// holds what the lexer left in it.
pub struct Lexer<'ctx> {
    /// The compilation context.
    pub context: &'ctx mut CompileContext,
    /// The state machine.
    pub scanner: Scanner,
}

impl<'ctx> Lexer<'ctx> {
    /// The scanner and the string table are well formed, as they are at
    /// every moment.
    pub open spec fn wf(&self) -> bool {
        self.scanner.wf() && self.context.wf()
    }

    /// The whole text that this scanner was made for.
    pub open spec fn source(&self) -> Seq<char> {
        self.scanner.source()
    }

    /// The position in the text at which the next token starts.
    pub open spec fn position(&self) -> int {
        self.scanner.position()
    }

    /// A scanner at the start of the characters that `iterator` has yet to
    /// yield, which interns in `ctx`.
    pub fn new(ctx: &'ctx mut CompileContext, iterator: Chars<'_>) -> (lexer: Lexer<'ctx>)
        ensures
            lexer.wf(),
            lexer.source() == iterator.remaining(),
            lexer.position() == 0,
            *lexer.context == *old(ctx),
            *final(lexer.context) == *final(ctx),
    {
        proof {
            use_type_invariant(&*ctx);
        }
        Lexer { context: ctx, scanner: Scanner::new(iterator) }
    }

    /// A scanner at the start of `content`, which interns in `ctx`.
    pub fn new_from_str(ctx: &'ctx mut CompileContext, content: &str) -> (lexer: Lexer<'ctx>)
        ensures
            lexer.wf(),
            lexer.source() == content@,
            lexer.position() == 0,
            *lexer.context == *old(ctx),
            *final(lexer.context) == *final(ctx),
    {
        broadcast use vstd::string::group_string_axioms;

        Lexer::new(ctx, content.chars())
    }

    /// The next token of the sequence that ends before the end-of-file
    /// token: see [`Scanner::next`].
    pub fn next(&mut self) -> (next: Option<Token>)
        ensures
            final(self).wf(),
            final(self).source() == old(self).source(),
            final(self).position() == old(self).position() + lexeme_at(
                old(self).source(),
                old(self).position(),
            ).len,
            next is None <==> lexeme_at(old(self).source(), old(self).position()).token
                is EndOfFile,
            match next {
                Some(token) => {
                    &&& token@ == lexeme_at(old(self).source(), old(self).position()).token
                    &&& interned(*old(self).context, *final(self).context, token)
                },
                None => *final(self).context == *old(self).context,
            },
            *final(final(self).context) == *final(old(self).context),
    {
        self.scanner.next(self.context)
    }

    /// All the tokens from the current position on, up to the end-of-file
    /// token, which is left out: see [`Scanner::tokens`].
    pub fn tokens(&mut self) -> (tokens: Vec<Token>)
        ensures
            final(self).wf(),
            final(self).source() == old(self).source(),
            views_of(tokens@) == lexemes_from(old(self).source(), old(self).position()),
            final(self).position() == scan_end(old(self).source(), old(self).position()),
            final(self).context.table().handles() == handles_after(
                old(self).context.table().handles(),
                tokens@,
            ),
            final(self).context.table().extends(&old(self).context.table()),
            forall|i: int|
                0 <= i < tokens.len() ==> canonical(*final(self).context, #[trigger] tokens[i]),
            *final(final(self).context) == *final(old(self).context),
    {
        self.scanner.tokens(self.context)
    }
}

impl<'ctx> TokenStream for Lexer<'ctx> {
    open spec fn upcoming(&self) -> TokenView {
        lexeme_at(self.source(), self.position()).token
    }

    /// Reads the token that starts at the current position and moves behind
    /// it: see [`Scanner::next_token`].
    fn next_token(&mut self) -> (token: Token)
        ensures
            final(self).wf(),
            final(self).source() == old(self).source(),
            final(self).position() == old(self).position() + lexeme_at(
                old(self).source(),
                old(self).position(),
            ).len,
            interned(*old(self).context, *final(self).context, token),
            *final(final(self).context) == *final(old(self).context),
    {
        self.scanner.next_token(self.context)
    }
}

} // verus!
