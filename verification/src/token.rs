//! The extension points: what a host implements to give the interpreter its
//! vocabulary.
//!
//! Each trait is generic in `P`, the evaluator that a handler is handed when
//! it runs; a handler may use it to evaluate further text or to change the
//! registry. The interpreter promises nothing about what a handler does: its
//! contracts speak of handlers only through what a call of them may return.

use vstd::prelude::*;
use crate::errors::Errors;
use crate::values::Values;

verus! {

/// A token capability: a kind of text that the host can recognise and
/// evaluate.
pub trait Token<P> {
    /// Evaluates `input`, which this token has accepted. `None` says that no
    /// value could be produced after all.
    fn exec(&self, input: &str, program: &mut P) -> (r: Option<Values>);

    /// Whether this token accepts `c`.
    fn is_token(&self, c: &str) -> (b: bool);
}

/// The handler of a key: it is handed the text that follows the key.
pub trait KeyHandler<P> {
    fn call(&self, content: String, program: &mut P) -> (r: Result<Values, Errors>);
}

/// The handler of a function: it is handed the values of the arguments, in
/// the order in which they were written.
pub trait FunctionHandler<P> {
    fn call(&self, args: Vec<Values>, program: &mut P) -> (r: Result<Values, Errors>);
}

/// Whether `tok`, asked if it accepts a text with the content `text`, may
/// answer `b`.
pub open spec fn may_answer<P, T: Token<P>>(tok: T, text: Seq<char>, b: bool) -> bool {
    exists|s: &str| s@ == text && call_ensures(T::is_token, (&tok, s), b)
}

/// Whether `i` may come out as the first of `tokens` that accepts `text`:
/// the token at `i` may accept it, and each one before may decline it.
pub open spec fn may_match_first<P, T: Token<P>>(tokens: Seq<T>, text: Seq<char>, i: int) -> bool {
    &&& 0 <= i < tokens.len()
    &&& may_answer::<P, T>(tokens[i], text, true)
    &&& forall|j: int| 0 <= j < i ==> may_answer::<P, T>(#[trigger] tokens[j], text, false)
}

/// Whether any one of `tokens` may accept `text`.
pub open spec fn may_any_accept<P, T: Token<P>>(tokens: Seq<T>, text: Seq<char>) -> bool {
    exists|j: int| 0 <= j < tokens.len() && may_answer::<P, T>(#[trigger] tokens[j], text, true)
}

/// Whether every one of `tokens` may decline `text`.
pub open spec fn may_all_decline<P, T: Token<P>>(tokens: Seq<T>, text: Seq<char>) -> bool {
    forall|j: int| 0 <= j < tokens.len() ==> may_answer::<P, T>(#[trigger] tokens[j], text, false)
}

} // verus!
