//! The order of resolution: which strategy handles a text.
//!
//! A text is tried, in this order, as a key with its content, as a memory
//! reference, as a function call, and at last as a token. The first strategy
//! that applies handles the text; none after it is tried.

use vstd::prelude::*;
use crate::text::{
    after_first_word, call_parts, first_word_of, is_reference, reference_name, split, split_call,
    split_on, texts,
};

verus! {

/// The strategy that handles a text, with the parts of the text that it
/// works on.
#[derive(Debug, PartialEq, Eq)]
pub enum Strategy {
    /// The first word is a registered key; `content` is what follows it.
    Key { name: String, content: String },
    /// The text refers to the memory binding `name`.
    Memory { name: String },
    /// The text calls the function `name` on the pieces `args`.
    Call { name: String, args: Vec<String> },
    /// The text holds the pattern of a call, but no name and arguments can
    /// be taken from it.
    Malformed,
    /// The search for the pattern of a call could not be made.
    Unknown,
    /// The text is left to the registered tokens.
    Token,
}

/// The mathematical content of a [`Strategy`].
pub ghost enum Plan {
    Key { name: Seq<char>, content: Seq<char> },
    Memory { name: Seq<char> },
    Call { name: Seq<char>, args: Seq<Seq<char>> },
    Malformed,
    Unknown,
    Token,
}

impl View for Strategy {
    type V = Plan;

    open spec fn view(&self) -> Plan {
        match self {
            Strategy::Key { name, content } => Plan::Key { name: name@, content: content@ },
            Strategy::Memory { name } => Plan::Memory { name: name@ },
            Strategy::Call { name, args } => Plan::Call { name: name@, args: texts(args@) },
            Strategy::Malformed => Plan::Malformed,
            Strategy::Unknown => Plan::Unknown,
            Strategy::Token => Plan::Token,
        }
    }
}

/// The length of the longest of `pieces`; 0 where there is none.
pub open spec fn longest(pieces: Seq<Seq<char>>) -> nat
    decreases pieces.len(),
{
    if pieces.len() == 0 {
        0
    } else {
        let rest = longest(pieces.drop_last());
        if pieces.last().len() > rest {
            pieces.last().len()
        } else {
            rest
        }
    }
}

/// No piece is longer than the longest.
pub proof fn longest_bounds(pieces: Seq<Seq<char>>, i: int)
    requires
        0 <= i < pieces.len(),
    ensures
        pieces[i].len() <= longest(pieces),
    decreases pieces.len(),
{
    if i < pieces.len() - 1 {
        longest_bounds(pieces.drop_last(), i);
    }
}

/// Where every piece is shorter than `n`, so is the longest.
pub proof fn longest_below(pieces: Seq<Seq<char>>, n: nat)
    requires
        n > 0,
        forall|i: int| 0 <= i < pieces.len() ==> (#[trigger] pieces[i]).len() < n,
    ensures
        longest(pieces) < n,
    decreases pieces.len(),
{
    if pieces.len() > 0 {
        let rest = pieces.drop_last();
        assert forall|i: int| 0 <= i < rest.len() implies (#[trigger] rest[i]).len() < n by {
            assert(rest[i] == pieces[i]);
        }
        longest_below(rest, n);
    }
}

impl Plan {
    /// How much text is left to evaluate under this plan: one more than the
    /// longest argument of a call, and nothing under any other plan.
    pub open spec fn weight(self) -> nat {
        match self {
            Plan::Call { name, args } => longest(args) + 1,
            _ => 0,
        }
    }
}

/// The plan for a text that is neither a key with its content nor a memory
/// reference, given what the search for the pattern of a call found in it.
///
/// In a call the name is everything before the first `(`, and the arguments
/// are the pieces, between commas, of everything between that `(` and the
/// last `)`.
pub open spec fn call_plan(text: Seq<char>, shaped: Option<bool>) -> Plan {
    match shaped {
        None => Plan::Unknown,
        Some(false) => Plan::Token,
        Some(true) => match call_parts(text) {
            Some((name, args)) => Plan::Call { name, args: split_on(args, ',') },
            None => Plan::Malformed,
        },
    }
}

/// The plan for `text`, given the set `keys` of the registered keys and what
/// the search for the pattern of a call found in `text`.
pub open spec fn plan_for(keys: Set<Seq<char>>, text: Seq<char>, shaped: Option<bool>) -> Plan {
    let word = first_word_of(text);
    if word.len() > 0 && keys.contains(word) {
        Plan::Key { name: word, content: after_first_word(text) }
    } else if is_reference(text) {
        Plan::Memory { name: reference_name(text) }
    } else {
        call_plan(text, shaped)
    }
}

/// Key dispatch wins: a text whose first word is a registered key is handled
/// by that key, whatever else the text looks like, a call included.
pub proof fn key_dispatch_wins(keys: Set<Seq<char>>, text: Seq<char>, shaped: Option<bool>)
    requires
        first_word_of(text).len() > 0,
        keys.contains(first_word_of(text)),
    ensures
        plan_for(keys, text, shaped) == (Plan::Key {
            name: first_word_of(text),
            content: after_first_word(text),
        }),
{
}

/// A memory reference comes before a call: a text that starts with the sigil
/// and whose first word is no key is read from memory, even where it holds
/// the pattern of a call.
pub proof fn reference_before_call(keys: Set<Seq<char>>, text: Seq<char>, shaped: Option<bool>)
    requires
        !keys.contains(first_word_of(text)),
        is_reference(text),
    ensures
        plan_for(keys, text, shaped) == (Plan::Memory { name: reference_name(text) }),
{
}

/// The strategy for a text that is neither a key with its content nor a
/// memory reference, given what the search for the pattern of a call found.
pub fn call_strategy(text: &str, shaped: Option<bool>) -> (r: Strategy)
    ensures
        r@ == call_plan(text@, shaped),
        match r {
            Strategy::Call { name, args } => forall|i: int|
                0 <= i < args@.len() ==> (#[trigger] args@[i])@.len() < text@.len(),
            _ => true,
        },
{
    match shaped {
        None => Strategy::Unknown,
        Some(false) => Strategy::Token,
        Some(true) => match split_call(text) {
            Some((name, args)) => Strategy::Call { name: name.to_owned(), args: split(args, ',') },
            None => Strategy::Malformed,
        },
    }
}

} // verus!
