//! The reserved words.

use vstd::prelude::*;
use crate::chars::same_text;
use crate::lexis::keyword;
use crate::token::TokenType;

verus! {

/// Looks a word up among the reserved words. Only the exact spelling, in lower
/// case, is a hit.
pub fn keyword_kind(word: &str) -> (kind: Option<TokenType>)
    ensures
        kind == keyword(word@),
{
    if same_text(word, "and") {
        Some(TokenType::And)
    } else if same_text(word, "class") {
        Some(TokenType::Class)
    } else if same_text(word, "else") {
        Some(TokenType::Else)
    } else if same_text(word, "false") {
        Some(TokenType::False)
    } else if same_text(word, "for") {
        Some(TokenType::For)
    } else if same_text(word, "fun") {
        Some(TokenType::Fun)
    } else if same_text(word, "if") {
        Some(TokenType::If)
    } else if same_text(word, "nil") {
        Some(TokenType::Nil)
    } else if same_text(word, "or") {
        Some(TokenType::Or)
    } else if same_text(word, "print") {
        Some(TokenType::Print)
    } else if same_text(word, "return") {
        Some(TokenType::Return)
    } else if same_text(word, "super") {
        Some(TokenType::Super)
    } else if same_text(word, "this") {
        Some(TokenType::This)
    } else if same_text(word, "true") {
        Some(TokenType::True)
    } else if same_text(word, "var") {
        Some(TokenType::Var)
    } else if same_text(word, "while") {
        Some(TokenType::While)
    } else {
        None
    }
}

} // verus!
