//! The string table, the compilation context, and the handles that tokens
//! hold.

use frontend::compile_context::CompileContext;
use frontend::lexer::{Lexer, Scanner};
use frontend::string_table::StringTable;
use frontend::token::{LiteralToken, Token};
use frontend::token_stream::TokenStream;
use std::rc::Rc;

fn handle_of(token: &Token) -> Rc<String> {
    match token {
        Token::Identifier(handle) => Rc::clone(handle),
        Token::Literal(LiteralToken::Char(handle)) => Rc::clone(handle),
        Token::Literal(LiteralToken::Integer(handle)) => Rc::clone(handle),
        Token::Literal(LiteralToken::Float(handle)) => Rc::clone(handle),
        other => panic!("a token without text: {:?}", other),
    }
}

#[test]
fn a_text_is_interned_once() {
    let mut table = StringTable::new();
    assert_eq!(table.len(), 0);
    let first = table.get_or_insert("alpha");
    assert_eq!(first.as_str(), "alpha");
    assert_eq!(table.len(), 1);
    let second = table.get_or_insert("alpha");
    assert_eq!(second.as_str(), "alpha");
    assert_eq!(table.len(), 1);
    assert!(Rc::ptr_eq(&first, &second));
}

#[test]
fn different_texts_get_different_handles() {
    let mut table = StringTable::new();
    let alpha = table.get_or_insert("alpha");
    let beta = table.get_or_insert("beta");
    assert_eq!(table.len(), 2);
    assert_eq!(alpha.as_str(), "alpha");
    assert_eq!(beta.as_str(), "beta");
    assert!(!Rc::ptr_eq(&alpha, &beta));
    assert!(Rc::ptr_eq(&alpha, &table.get_or_insert("alpha")));
    assert!(Rc::ptr_eq(&beta, &table.get_or_insert("beta")));
    assert_eq!(table.len(), 2);
}

#[test]
fn the_empty_text_can_be_interned() {
    let mut table = StringTable::new();
    let empty = table.get_or_insert("");
    assert_eq!(empty.as_str(), "");
    assert_eq!(table.len(), 1);
    assert!(Rc::ptr_eq(&empty, &table.get_or_insert("")));
    assert_eq!(table.len(), 1);
}

#[test]
fn a_handle_is_shared_and_not_copied() {
    let mut table = StringTable::new();
    let first = table.get_or_insert("shared");
    // the table holds the text, and so does the caller
    assert_eq!(Rc::strong_count(&first), 2);
    let second = table.get_or_insert("shared");
    assert_eq!(Rc::strong_count(&first), 3);
    drop(second);
    assert_eq!(Rc::strong_count(&first), 2);
}

#[test]
fn a_handle_outlives_later_insertions() {
    let mut table = StringTable::new();
    let first = table.get_or_insert("first");
    for i in 0..100 {
        table.get_or_insert(&format!("text{}", i));
    }
    assert_eq!(table.len(), 101);
    assert_eq!(first.as_str(), "first");
    assert!(Rc::ptr_eq(&first, &table.get_or_insert("first")));
    assert_eq!(table.len(), 101);
}

#[test]
fn looking_up_does_not_insert() {
    let mut table = StringTable::new();
    assert!(table.get("alpha").is_none());
    assert_eq!(table.len(), 0);
    let alpha = table.get_or_insert("alpha");
    let found = table.get("alpha").expect("interned before");
    assert!(Rc::ptr_eq(&alpha, &found));
    assert!(table.get("beta").is_none());
    assert_eq!(table.len(), 1);
}

#[test]
fn a_new_context_has_an_empty_table() {
    let ctx = CompileContext::default();
    assert_eq!(ctx.get_string_table().len(), 0);
    let ctx = CompileContext::new();
    assert_eq!(ctx.get_string_table().len(), 0);
}

#[test]
fn the_context_interns_in_its_table() {
    let mut ctx = CompileContext::new();
    let first = ctx.intern("name");
    let second = ctx.intern("name");
    assert!(Rc::ptr_eq(&first, &second));
    assert_eq!(ctx.get_string_table().len(), 1);
    let found = ctx.get_string_table().get("name").expect("interned before");
    assert!(Rc::ptr_eq(&first, &found));
}

#[test]
fn equal_identifiers_share_one_handle() {
    let mut ctx = CompileContext::default();
    let mut lexer = Lexer::new_from_str(&mut ctx, "name other name");
    let tokens = lexer.tokens();
    assert_eq!(tokens.len(), 5);
    let first = handle_of(&tokens[0]);
    let other = handle_of(&tokens[2]);
    let again = handle_of(&tokens[4]);
    assert_eq!(first.as_str(), "name");
    assert_eq!(other.as_str(), "other");
    assert!(Rc::ptr_eq(&first, &again));
    assert!(!Rc::ptr_eq(&first, &other));
    assert_eq!(ctx.get_string_table().len(), 2);
}

#[test]
fn two_scans_with_one_context_share_handles() {
    let mut ctx = CompileContext::default();
    let first = {
        let mut lexer = Lexer::new_from_str(&mut ctx, "name 42 'c' 1.5");
        lexer.tokens()
    };
    assert_eq!(ctx.get_string_table().len(), 4);
    let second = {
        let mut lexer = Lexer::new_from_str(&mut ctx, "1.5 'c' 42 name more");
        lexer.tokens()
    };
    assert_eq!(ctx.get_string_table().len(), 5);
    assert!(Rc::ptr_eq(&handle_of(&first[0]), &handle_of(&second[6])));
    assert!(Rc::ptr_eq(&handle_of(&first[2]), &handle_of(&second[4])));
    assert!(Rc::ptr_eq(&handle_of(&first[4]), &handle_of(&second[2])));
    assert!(Rc::ptr_eq(&handle_of(&first[6]), &handle_of(&second[0])));
    let table = ctx.get_string_table();
    assert!(Rc::ptr_eq(&handle_of(&first[0]), &table.get("name").expect("interned")));
    assert!(Rc::ptr_eq(&handle_of(&second[8]), &table.get("more").expect("interned")));
}

#[test]
fn two_contexts_share_nothing() {
    let mut one = CompileContext::default();
    let mut two = CompileContext::default();
    let first = Lexer::new_from_str(&mut one, "name").next_token();
    let second = Lexer::new_from_str(&mut two, "name").next_token();
    assert_eq!(first, second);
    assert!(!Rc::ptr_eq(&handle_of(&first), &handle_of(&second)));
}

#[test]
fn text_is_interned_whatever_its_kind() {
    // one text as an identifier's and as a character literal's
    let mut ctx = CompileContext::default();
    let mut lexer = Lexer::new_from_str(&mut ctx, "c 'c'");
    let tokens = lexer.tokens();
    assert_eq!(tokens[0], Token::identifier_from_str("c"));
    assert_eq!(tokens[2], Token::char_literal_from_str("c"));
    assert_ne!(tokens[0], tokens[2]);
    assert!(Rc::ptr_eq(&handle_of(&tokens[0]), &handle_of(&tokens[2])));
    assert_eq!(ctx.get_string_table().len(), 1);
}

#[test]
fn tokens_without_text_intern_nothing() {
    let mut ctx = CompileContext::default();
    let mut lexer = Lexer::new_from_str(&mut ctx, "( ) <<= // c\n /* c */ '' \" #");
    let tokens = lexer.tokens();
    assert!(tokens.len() > 10);
    assert_eq!(ctx.get_string_table().len(), 0);
}

#[test]
fn tokens_are_equal_by_text() {
    let mut ctx = CompileContext::default();
    let scanned = Lexer::new_from_str(&mut ctx, "name").next_token();
    let made = Token::identifier_from_str("name");
    assert_eq!(scanned, made);
    assert!(!Rc::ptr_eq(&handle_of(&scanned), &handle_of(&made)));
    assert_ne!(scanned, Token::identifier_from_str("other"));
    assert_ne!(Token::integer_literal_from_str("1"), Token::float_literal_from_str("1"));
    assert_ne!(Token::integer_literal_from_str("1"), Token::char_literal_from_str("1"));
    assert_ne!(Token::identifier_from_str("a"), Token::char_literal_from_str("a"));
    assert_ne!(Token::Whitespace, Token::Comment);
    assert_ne!(Token::Error, Token::EndOfFile);
}

#[test]
fn scanning_again_yields_the_same_tokens() {
    let text = "fn main() { let x = 0x1F + 2.5e3; /* c */ 'a' } // end";
    let mut one = CompileContext::default();
    let first = Lexer::new_from_str(&mut one, text).tokens();
    let again = Lexer::new_from_str(&mut one, text).tokens();
    let mut two = CompileContext::default();
    two.intern("unrelated");
    let elsewhere = Lexer::new_from_str(&mut two, text).tokens();
    assert_eq!(first, again);
    assert_eq!(first, elsewhere);
    assert_eq!(first.len(), 28);
}

#[test]
fn the_rest_of_a_text_scans_like_a_text_of_its_own() {
    let mut ctx = CompileContext::default();
    let mut whole = Lexer::new_from_str(&mut ctx, "skipped rest + 1.5");
    assert_eq!(whole.next_token(), Token::identifier_from_str("skipped"));
    assert_eq!(whole.next_token(), Token::Whitespace);
    let rest = whole.tokens();
    let mut other = CompileContext::default();
    let alone = Lexer::new_from_str(&mut other, "rest + 1.5").tokens();
    assert_eq!(rest, alone);
}

#[test]
fn a_scanner_starts_where_the_iterator_stands() {
    let mut chars = "ab cd".chars();
    chars.next();
    chars.next();
    chars.next();
    let mut ctx = CompileContext::default();
    let mut lexer = Lexer::new(&mut ctx, chars);
    assert_eq!(lexer.tokens(), vec![Token::identifier_from_str("cd")]);
}

#[test]
fn the_scanner_can_be_handed_its_context() {
    let mut ctx = CompileContext::default();
    let mut scanner = Scanner::new("a b".chars());
    assert_eq!(scanner.next_token(&mut ctx), Token::identifier_from_str("a"));
    assert_eq!(scanner.next(&mut ctx), Some(Token::Whitespace));
    assert_eq!(scanner.tokens(&mut ctx), vec![Token::identifier_from_str("b")]);
    assert_eq!(scanner.next(&mut ctx), None);
    assert_eq!(scanner.next_token(&mut ctx), Token::EndOfFile);
    assert_eq!(ctx.get_string_table().len(), 2);
}

#[test]
fn next_stops_before_the_end_of_file_token() {
    let mut ctx = CompileContext::default();
    let mut lexer = Lexer::new_from_str(&mut ctx, "a b");
    assert_eq!(lexer.next(), Some(Token::identifier_from_str("a")));
    assert_eq!(lexer.next(), Some(Token::Whitespace));
    assert_eq!(lexer.next(), Some(Token::identifier_from_str("b")));
    assert_eq!(lexer.next(), None);
    assert_eq!(lexer.next(), None);
}

#[test]
fn a_cloned_token_shares_its_handle() {
    let mut ctx = CompileContext::default();
    let scanned = Lexer::new_from_str(&mut ctx, "name").next_token();
    let copy = scanned.clone();
    assert_eq!(scanned, copy);
    assert!(Rc::ptr_eq(&handle_of(&scanned), &handle_of(&copy)));
    let literal = Token::float_literal_from_str("1.5");
    assert!(Rc::ptr_eq(&handle_of(&literal), &handle_of(&literal.clone())));
    assert_eq!(Token::Comment.clone(), Token::Comment);
}

#[test]
fn the_context_can_be_reached_through_the_lexer() {
    let mut ctx = CompileContext::default();
    let mut lexer = Lexer::new_from_str(&mut ctx, "name");
    let early = lexer.context.intern("name");
    let token = lexer.next_token();
    assert!(Rc::ptr_eq(&early, &handle_of(&token)));
    assert_eq!(lexer.context.get_string_table().len(), 1);
}
