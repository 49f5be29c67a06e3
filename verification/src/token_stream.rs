//! The interface of a source of tokens, and the sequence of tokens that
//! such a source stands for.

use crate::token::{Token, TokenView};
use vstd::prelude::*;

verus! {

/// Something that yields tokens one at a time, and the end-of-file token
/// when it has no more.
pub trait TokenStream {
    /// What the token that comes next stands for.
    spec fn upcoming(&self) -> TokenView;

    /// The next token.
    fn next_token(&mut self) -> (token: Token)
        ensures
            token@ == old(self).upcoming(),
    ;
}

/// The next element of the sequence of tokens that `stream` stands for: the
/// next token of the stream, or `None` in place of the end-of-file token.
/// The sequence ends where the stream yields the end-of-file token for the
/// first time, and does not hold that token.
pub fn pull<S: TokenStream>(stream: &mut S) -> (next: Option<Token>)
    ensures
        next is None <==> old(stream).upcoming() is EndOfFile,
        next matches Some(token) ==> token@ == old(stream).upcoming(),
{
    let token = stream.next_token();
    match token {
        Token::EndOfFile => None,
        _ => Some(token),
    }
}

} // verus!
