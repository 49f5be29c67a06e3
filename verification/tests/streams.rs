//! Token sources and the sequences they stand for.

use frontend::compile_context::CompileContext;
use frontend::lexer::Lexer;
use frontend::token::{Token, TokenView};
use frontend::token_stream::{pull, TokenStream};

/// A source that yields the tokens it was made with, last one first.
struct Stack {
    tokens: Vec<Token>,
}

impl TokenStream for Stack {
    // describes the source to the verifier, and is never called
    fn upcoming(&self) -> TokenView {
        unreachable!()
    }

    fn next_token(&mut self) -> Token {
        self.tokens.pop().unwrap_or(Token::EndOfFile)
    }
}

#[test]
fn pull_ends_before_the_end_of_file_token() {
    let mut ctx = CompileContext::default();
    let mut lexer = Lexer::new_from_str(&mut ctx, "a;");
    assert_eq!(pull(&mut lexer), Some(Token::identifier_from_str("a")));
    assert_eq!(pull(&mut lexer), Some(Token::SemiColon));
    assert_eq!(pull(&mut lexer), None);
    assert_eq!(pull(&mut lexer), None);
}

#[test]
fn pull_works_on_any_source() {
    let mut stack = Stack { tokens: vec![Token::Comma, Token::EndOfFile, Token::Dot] };
    assert_eq!(pull(&mut stack), Some(Token::Dot));
    assert_eq!(pull(&mut stack), None);
    assert_eq!(pull(&mut stack), Some(Token::Comma));
    assert_eq!(pull(&mut stack), None);
}

#[test]
fn pull_and_next_agree() {
    let text = "x = y << 2; // shift";
    let mut one = CompileContext::default();
    let mut two = CompileContext::default();
    let mut pulled = Lexer::new_from_str(&mut one, text);
    let mut stepped = Lexer::new_from_str(&mut two, text);
    loop {
        let left = pull(&mut pulled);
        let right = stepped.next();
        assert_eq!(left, right);
        if left.is_none() {
            break;
        }
    }
}
