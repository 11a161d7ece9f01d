//! The evaluator: a context, and the resolution of a text against it.
//!
//! What a handler does is for the host to say, so the contracts here speak of
//! an evaluation as a relation: from the evaluator before, to the outcome and
//! the evaluator after that a call of the handler may give. Where several
//! handlers run in a row, the contract names the evaluators between them.

use std::rc::Rc;
use vstd::prelude::*;
use crate::context::{Context, Scope};
use crate::dispatch::{
    call_strategy, longest, longest_below, longest_bounds, plan_for, Plan, Strategy,
};
use crate::errors::{outcome, Errors, Fault};
use crate::pattern::{call_pattern, call_shaped, pattern_search};
use crate::text::{
    first_word, key_content, name_of_reference, normalize, normalized, starts_reference, texts,
};
use crate::token::{
    may_all_decline, may_any_accept, may_match_first, FunctionHandler, KeyHandler, Token,
};
use crate::values::{Value, Values};

verus! {

/// An evaluator: it resolves texts against its context.
///
/// `T`, `K` and `F` are the host's types of tokens, of key handlers and of
/// function handlers.
#[verifier::reject_recursive_types(K)]
#[verifier::reject_recursive_types(F)]
pub struct Program<T, K, F> {
    pub context: Context<T, K, F>,
}

impl<T, K, F> View for Program<T, K, F> {
    type V = Scope<T, K, F>;

    open spec fn view(&self) -> Scope<T, K, F> {
        self.context@
    }
}

/// What the evaluation of `text` by a token comes to, given what the token
/// produced: its value, or `TokenNotMatched` where it produced none.
pub open spec fn token_result(text: Seq<char>, produced: Option<Values>) -> Result<Value, Fault> {
    match produced {
        Some(value) => Ok(value@),
        None => Err(Fault::TokenNotMatched(text)),
    }
}

/// What the evaluation of `text` by a token comes to, given what the token
/// produced.
pub fn token_outcome(text: &str, produced: Option<Values>) -> (r: Result<Values, Errors>)
    ensures
        outcome(r) == token_result(text@, produced),
{
    match produced {
        Some(value) => Ok(value),
        None => Err(Errors::TokenNotMatched(text.to_owned())),
    }
}

impl<T, K, F> Program<T, K, F> {
    /// An evaluator with an empty context.
    pub fn new() -> (r: Self)
        ensures
            r@ == Scope::<T, K, F>::empty(),
            r@.well_formed(),
    {
        Program { context: Context::new() }
    }

    /// An evaluator with the context `context`.
    pub fn new_from_context(context: Context<T, K, F>) -> (r: Self)
        ensures
            r.context == context,
    {
        Program { context }
    }

    /// Registers `token` behind every token registered before.
    pub fn push_internal_token(&mut self, token: T)
        ensures
            final(self)@ == old(self)@.push_token(token),
    {
        self.context.push_token(token);
    }

    /// Registers `func` as the handler of the key `key`.
    pub fn push_internal_key(&mut self, key: &str, func: K)
        ensures
            final(self)@ == old(self)@.set_key(key@, func),
    {
        self.context.push_key(key.to_owned(), func);
    }

    /// Binds `key` to `val` in memory.
    pub fn push_internal_memory(&mut self, key: &str, val: Values)
        ensures
            final(self)@ == old(self)@.set_memory(key@, val@),
            old(self)@.well_formed() ==> final(self)@.well_formed(),
    {
        self.context.push_memory(key, val);
    }

    /// Registers `func` as the function `name`.
    pub fn push_internal_function(&mut self, name: &str, func: F)
        ensures
            final(self)@ == old(self)@.set_function(name@, func),
            old(self)@.well_formed() ==> final(self)@.well_formed(),
    {
        self.context.push_function(name.to_owned(), func);
    }

    /// Opens a nested scope: from now on this evaluator works with a fresh,
    /// empty nested context. Returns the nested context that it had, for
    /// `close_depth_context` to put back.
    pub fn new_depth_context(&mut self) -> (outer: Option<Box<Context<T, K, F>>>)
        ensures
            final(self)@ == old(self)@.nested(),
            final(self)@.well_formed(),
            outer == old(self).context.sub_context,
    {
        let mut fresh: Option<Box<Context<T, K, F>>> = Some(Box::new(Context::new()));
        std::mem::swap(&mut self.context.sub_context, &mut fresh);
        fresh
    }

    /// Closes the nested scope: what was bound or registered in it is gone,
    /// and `outer` is the nested context again.
    pub fn close_depth_context(&mut self, outer: Option<Box<Context<T, K, F>>>)
        ensures
            final(self).context.sub_context == outer,
            final(self)@ == old(self)@.with_child(
                match outer {
                    Some(child) => Some(Box::new(child@)),
                    None => None,
                },
            ),
    {
        self.context.sub_context = outer;
    }

    /// The strategy that handles `text`, a text that is already normalized.
    pub fn strategy(&self, text: &str) -> (r: Strategy)
        ensures
            r@ == plan_for(self@.keys.dom(), text@, pattern_search(call_pattern(), text@)),
            match r {
                Strategy::Call { name, args } => forall|i: int|
                    0 <= i < args@.len() ==> (#[trigger] args@[i])@.len() < text@.len(),
                _ => true,
            },
    {
        let word: &str = first_word(text);
        if word.unicode_len() > 0 && self.context.has_key(word) {
            Strategy::Key { name: word.to_owned(), content: key_content(text).to_owned() }
        } else if starts_reference(text) {
            Strategy::Memory { name: name_of_reference(text).to_owned() }
        } else {
            call_strategy(text, call_shaped(text))
        }
    }
}

impl<T, K, F> Program<T, K, F> where
    T: Token<Program<T, K, F>>,
    K: KeyHandler<Program<T, K, F>>,
    F: FunctionHandler<Program<T, K, F>>,
 {
    /// Hands `content` to the handler of the key `name`.
    ///
    /// Without such a handler this fails with `KeyNotFound` and changes
    /// nothing. With one, the result and the evaluator afterwards are what a
    /// call of that handler, on `content` and on this evaluator as it stands,
    /// may give.
    pub fn run_key(&mut self, name: &str, content: String) -> (r: Result<Values, Errors>)
        ensures
            match old(self)@.get_key(name@) {
                Ok(handler) => exists|m: &mut Self|
                    *m == *old(self) && *final(m) == *final(self) && call_ensures(
                        K::call,
                        (&handler, content, m),
                        r,
                    ),
                Err(fault) => *final(self) == *old(self) && outcome(r) == Err::<Value, Fault>(fault),
            },
    {
        match self.context.get_key(name) {
            Ok(func) => func.call(content, self),
            Err(e) => Err(e),
        }
    }

    /// Leaves `text` to the registered tokens: the first one that accepts it
    /// evaluates it.
    ///
    /// Either every token may decline `text`, nothing changes and the result
    /// is `TokenNotMatched`; or some token may come out as the first to
    /// accept `text`, and the result and the evaluator afterwards are what
    /// its evaluation of `text`, on this evaluator as it stands, may give.
    pub fn run_token(&mut self, text: &str) -> (r: Result<Values, Errors>)
        ensures
            ({
                &&& may_all_decline::<Self, T>(old(self)@.tokens, text@)
                &&& *final(self) == *old(self)
                &&& outcome(r) == Err::<Value, Fault>(Fault::TokenNotMatched(text@))
            }) || (exists|i: int, m: &mut Self, produced: Option<Values>|
                {
                    &&& may_match_first::<Self, T>(old(self)@.tokens, text@, i)
                    &&& *m == *old(self)
                    &&& *final(m) == *final(self)
                    &&& call_ensures(T::exec, (&old(self)@.tokens[i], text, m), produced)
                    &&& outcome(r) == token_result(text@, produced)
                }),
            !may_any_accept::<Self, T>(old(self)@.tokens, text@) ==> {
                &&& *final(self) == *old(self)
                &&& outcome(r) == Err::<Value, Fault>(Fault::TokenNotMatched(text@))
            },
    {
        match self.context.token_index::<Self>(text) {
            Ok(index) => {
                let def_tok: Rc<T> = self.context.get_token(index);
                let produced: Option<Values> = def_tok.exec(text, self);
                token_outcome(text, produced)
            },
            Err(e) => Err(e),
        }
    }

    /// Evaluates `args` in order, each as a token of its own, and returns
    /// their values in that order. The first failure ends the evaluation and
    /// is the result.
    ///
    /// There is a run of evaluators, from this one as it stands to this one
    /// as it is left, and an outcome for each piece that was evaluated, such
    /// that each outcome and the next evaluator are what the evaluation of
    /// that piece gives on the evaluator before it: as `exec` says of a text,
    /// but of a piece that is itself a call of a registered function only
    /// that it fails or is what the function's handler gives on as many
    /// values as the call has pieces. Every outcome but the last is a value.
    /// On success every piece has its outcome, and the values are those
    /// outcomes; on failure the last outcome is the failure.
    pub fn exec_args(&mut self, args: &Vec<String>) -> (r: Result<Vec<Values>, Errors>)
        ensures
            args@.len() == 0 ==> r is Ok && *final(self) == *old(self),
            ({
                // What carrying out `plan` on the normalized `text` may give, from the
                // evaluator `pre`: the outcome `out` and the evaluator `post`. Of a call
                // of a registered function it says only that it fails, or is what the
                // handler gives on as many values as the call has pieces.
                let step = |pre: Self, text: Seq<char>, plan: Plan, post: Self, out: Result<Values, Errors>|
                    match plan {
                        Plan::Key { name, content } => match pre@.get_key(name) {
                            Ok(handler) => exists|m: &mut Self, c: String|
                                {
                                    &&& c@ == content
                                    &&& *m == pre
                                    &&& *final(m) == post
                                    &&& call_ensures(K::call, (&handler, c, m), out)
                                },
                            Err(fault) => post == pre && outcome(out) == Err::<Value, Fault>(fault),
                        },
                        Plan::Memory { name } => post == pre && outcome(out) == pre@.get_memory(name),
                        Plan::Call { name, args } => match pre@.get_function(name) {
                            Ok(handler) => {
                                ||| exists|values: Vec<Values>, m: &mut Self|
                                    {
                                        &&& values@.len() == args.len()
                                        &&& *final(m) == post
                                        &&& call_ensures(F::call, (&handler, values, m), out)
                                    }
                                ||| out is Err
                            },
                            Err(fault) => post == pre && outcome(out) == Err::<Value, Fault>(fault),
                        },
                        Plan::Malformed => post == pre && outcome(out) == Err::<Value, Fault>(
                            Fault::MalformedCall(text),
                        ),
                        Plan::Unknown => post == pre && outcome(out) == Err::<Value, Fault>(Fault::Unknown),
                        Plan::Token => {
                            &&& ({
                                &&& may_all_decline::<Self, T>(pre@.tokens, text)
                                &&& post == pre
                                &&& outcome(out) == Err::<Value, Fault>(Fault::TokenNotMatched(text))
                            }) || (exists|i: int, m: &mut Self, s: &str, produced: Option<Values>|
                                {
                                    &&& may_match_first::<Self, T>(pre@.tokens, text, i)
                                    &&& s@ == text
                                    &&& *m == pre
                                    &&& *final(m) == post
                                    &&& call_ensures(T::exec, (&pre@.tokens[i], s, m), produced)
                                    &&& outcome(out) == token_result(text, produced)
                                })
                            &&& !may_any_accept::<Self, T>(pre@.tokens, text) ==> {
                                &&& post == pre
                                &&& outcome(out) == Err::<Value, Fault>(Fault::TokenNotMatched(text))
                            }
                        },
                    };
                // What the evaluation of the text `raw` may give.
                let piece = |pre: Self, raw: Seq<char>, post: Self, out: Result<Values, Errors>|
                    step(
                        pre,
                        normalized(raw),
                        plan_for(
                            pre@.keys.dom(),
                            normalized(raw),
                            pattern_search(call_pattern(), normalized(raw)),
                        ),
                        post,
                        out,
                    );
                // `outs` are the outcomes of the first pieces, in order, and `states` the
                // evaluators between them: each piece is evaluated on the evaluator that
                // the piece before it left, and every outcome but the last is a value.
                let linked = |pre: Self, pieces: Seq<Seq<char>>, states: Seq<Self>, outs: Seq<Result<Values, Errors>>|
                    {
                        &&& outs.len() <= pieces.len()
                        &&& states.len() == outs.len() + 1
                        &&& states[0] == pre
                        &&& forall|k: int|
                            0 <= k < outs.len() ==> piece(states[k], pieces[k], states[k + 1], #[trigger] outs[k])
                        &&& forall|k: int| 0 <= k < outs.len() - 1 ==> (#[trigger] outs[k]) is Ok
                    };
                exists|states: Seq<Self>, outs: Seq<Result<Values, Errors>>|
                    {
                        &&& #[trigger] states.len() == #[trigger] outs.len() + 1
                        &&& linked(*old(self), texts(args@), states, outs)
                        &&& states[outs.len() as int] == *final(self)
                        &&& match r {
                            Ok(values) => {
                                &&& outs.len() == args@.len()
                                &&& values@.len() == args@.len()
                                &&& forall|k: int|
                                    0 <= k < outs.len() ==> #[trigger] outs[k] == Ok::<
                                        Values,
                                        Errors,
                                    >(values@[k])
                            },
                            Err(e) => outs.len() > 0 && outs[outs.len() - 1] == Err::<
                                Values,
                                Errors,
                            >(e),
                        }
                    }
            }),
        decreases longest(texts(args@)) + 1, 0int,
    {
        let mut values: Vec<Values> = Vec::new();
        let mut failure: Option<Errors> = None;
        let mut i: usize = 0;
        let ghost mut states: Seq<Self> = seq![*self];
        let ghost mut outs: Seq<Result<Values, Errors>> = Seq::empty();
        while i < args.len() && failure.is_none()
            invariant
                i <= args@.len(),
                outs.len() == i,
                states.len() == i + 1,
                states[0] == *old(self),
                states[i as int] == *self,
                forall|k: int| 0 <= k < i - 1 ==> (#[trigger] outs[k]) is Ok,
                match failure {
                    Some(e) => i > 0 && outs[i - 1] == Err::<Values, Errors>(e),
                    None => values@.len() == i && forall|k: int|
                        0 <= k < i ==> #[trigger] outs[k] == Ok::<Values, Errors>(values@[k]),
                },
                ({
                    // What carrying out `plan` on the normalized `text` may give, from the
                    // evaluator `pre`: the outcome `out` and the evaluator `post`. Of a call
                    // of a registered function it says only that it fails, or is what the
                    // handler gives on as many values as the call has pieces.
                    let step = |pre: Self, text: Seq<char>, plan: Plan, post: Self, out: Result<Values, Errors>|
                        match plan {
                            Plan::Key { name, content } => match pre@.get_key(name) {
                                Ok(handler) => exists|m: &mut Self, c: String|
                                    {
                                        &&& c@ == content
                                        &&& *m == pre
                                        &&& *final(m) == post
                                        &&& call_ensures(K::call, (&handler, c, m), out)
                                    },
                                Err(fault) => post == pre && outcome(out) == Err::<Value, Fault>(fault),
                            },
                            Plan::Memory { name } => post == pre && outcome(out) == pre@.get_memory(name),
                            Plan::Call { name, args } => match pre@.get_function(name) {
                                Ok(handler) => {
                                    ||| exists|values: Vec<Values>, m: &mut Self|
                                        {
                                            &&& values@.len() == args.len()
                                            &&& *final(m) == post
                                            &&& call_ensures(F::call, (&handler, values, m), out)
                                        }
                                    ||| out is Err
                                },
                                Err(fault) => post == pre && outcome(out) == Err::<Value, Fault>(fault),
                            },
                            Plan::Malformed => post == pre && outcome(out) == Err::<Value, Fault>(
                                Fault::MalformedCall(text),
                            ),
                            Plan::Unknown => post == pre && outcome(out) == Err::<Value, Fault>(Fault::Unknown),
                            Plan::Token => {
                                &&& ({
                                    &&& may_all_decline::<Self, T>(pre@.tokens, text)
                                    &&& post == pre
                                    &&& outcome(out) == Err::<Value, Fault>(Fault::TokenNotMatched(text))
                                }) || (exists|i: int, m: &mut Self, s: &str, produced: Option<Values>|
                                    {
                                        &&& may_match_first::<Self, T>(pre@.tokens, text, i)
                                        &&& s@ == text
                                        &&& *m == pre
                                        &&& *final(m) == post
                                        &&& call_ensures(T::exec, (&pre@.tokens[i], s, m), produced)
                                        &&& outcome(out) == token_result(text, produced)
                                    })
                                &&& !may_any_accept::<Self, T>(pre@.tokens, text) ==> {
                                    &&& post == pre
                                    &&& outcome(out) == Err::<Value, Fault>(Fault::TokenNotMatched(text))
                                }
                            },
                        };
                    // What the evaluation of the text `raw` may give.
                    let piece = |pre: Self, raw: Seq<char>, post: Self, out: Result<Values, Errors>|
                        step(
                            pre,
                            normalized(raw),
                            plan_for(
                                pre@.keys.dom(),
                                normalized(raw),
                                pattern_search(call_pattern(), normalized(raw)),
                            ),
                            post,
                            out,
                        );
                    forall|k: int|
                        0 <= k < i ==> piece(
                            states[k],
                            texts(args@)[k],
                            states[k + 1],
                            #[trigger] outs[k],
                        )
                }),
            decreases args@.len() - i,
        {
            proof {
                longest_bounds(texts(args@), i as int);
            }
            let out: Result<Values, Errors> = self.exec(args[i].as_str());
            proof {
                states = states.push(*self);
                outs = outs.push(out);
            }
            match out {
                Ok(value) => {
                    values.push(value);
                },
                Err(e) => {
                    failure = Some(e);
                },
            }
            i = i + 1;
        }
        match failure {
            Some(e) => Err(e),
            None => Ok(values),
        }
    }

    /// Carries out `strategy` on `text`, the normalized text that it was
    /// chosen for.
    ///
    /// - `Key`: as `run_key` on the name and the content;
    /// - `Memory`: the value bound to the name, or the failure of the
    ///   lookup; nothing changes;
    /// - `Call`: where the function is not registered, `FunctionNotFound`,
    ///   and nothing changes; else the arguments are evaluated as `exec_args`
    ///   says, and either one of them fails, that failure is the result and
    ///   the evaluator is as that argument left it, or the result and the
    ///   evaluator afterwards are what a call of the function's handler may
    ///   give on the values of the arguments, in their order, and on the
    ///   evaluator as the last argument left it;
    /// - `Malformed`: `MalformedCall` with the text; nothing changes;
    /// - `Unknown`: `Non`; nothing changes;
    /// - `Token`: as `run_token` on the text.
    pub fn perform(&mut self, text: &str, strategy: Strategy) -> (r: Result<Values, Errors>)
        ensures
            ({
                // What carrying out `plan` on the normalized `text` may give, from the
                // evaluator `pre`: the outcome `out` and the evaluator `post`. Of a call
                // of a registered function it says only that it fails, or is what the
                // handler gives on as many values as the call has pieces.
                let step = |pre: Self, text: Seq<char>, plan: Plan, post: Self, out: Result<Values, Errors>|
                    match plan {
                        Plan::Key { name, content } => match pre@.get_key(name) {
                            Ok(handler) => exists|m: &mut Self, c: String|
                                {
                                    &&& c@ == content
                                    &&& *m == pre
                                    &&& *final(m) == post
                                    &&& call_ensures(K::call, (&handler, c, m), out)
                                },
                            Err(fault) => post == pre && outcome(out) == Err::<Value, Fault>(fault),
                        },
                        Plan::Memory { name } => post == pre && outcome(out) == pre@.get_memory(name),
                        Plan::Call { name, args } => match pre@.get_function(name) {
                            Ok(handler) => {
                                ||| exists|values: Vec<Values>, m: &mut Self|
                                    {
                                        &&& values@.len() == args.len()
                                        &&& *final(m) == post
                                        &&& call_ensures(F::call, (&handler, values, m), out)
                                    }
                                ||| out is Err
                            },
                            Err(fault) => post == pre && outcome(out) == Err::<Value, Fault>(fault),
                        },
                        Plan::Malformed => post == pre && outcome(out) == Err::<Value, Fault>(
                            Fault::MalformedCall(text),
                        ),
                        Plan::Unknown => post == pre && outcome(out) == Err::<Value, Fault>(Fault::Unknown),
                        Plan::Token => {
                            &&& ({
                                &&& may_all_decline::<Self, T>(pre@.tokens, text)
                                &&& post == pre
                                &&& outcome(out) == Err::<Value, Fault>(Fault::TokenNotMatched(text))
                            }) || (exists|i: int, m: &mut Self, s: &str, produced: Option<Values>|
                                {
                                    &&& may_match_first::<Self, T>(pre@.tokens, text, i)
                                    &&& s@ == text
                                    &&& *m == pre
                                    &&& *final(m) == post
                                    &&& call_ensures(T::exec, (&pre@.tokens[i], s, m), produced)
                                    &&& outcome(out) == token_result(text, produced)
                                })
                            &&& !may_any_accept::<Self, T>(pre@.tokens, text) ==> {
                                &&& post == pre
                                &&& outcome(out) == Err::<Value, Fault>(Fault::TokenNotMatched(text))
                            }
                        },
                    };
                // What the evaluation of the text `raw` may give.
                let piece = |pre: Self, raw: Seq<char>, post: Self, out: Result<Values, Errors>|
                    step(
                        pre,
                        normalized(raw),
                        plan_for(
                            pre@.keys.dom(),
                            normalized(raw),
                            pattern_search(call_pattern(), normalized(raw)),
                        ),
                        post,
                        out,
                    );
                // `outs` are the outcomes of the first pieces, in order, and `states` the
                // evaluators between them: each piece is evaluated on the evaluator that
                // the piece before it left, and every outcome but the last is a value.
                let linked = |pre: Self, pieces: Seq<Seq<char>>, states: Seq<Self>, outs: Seq<Result<Values, Errors>>|
                    {
                        &&& outs.len() <= pieces.len()
                        &&& states.len() == outs.len() + 1
                        &&& states[0] == pre
                        &&& forall|k: int|
                            0 <= k < outs.len() ==> piece(states[k], pieces[k], states[k + 1], #[trigger] outs[k])
                        &&& forall|k: int| 0 <= k < outs.len() - 1 ==> (#[trigger] outs[k]) is Ok
                    };
                // What a call of the function `name` on `pieces` may give: the failure of
                // the first piece that fails, on the evaluator as that piece left it; or
                // what the handler gives on the values of all the pieces, in order, and
                // on the evaluator as the last piece left it.
                let called = |pre: Self, name: Seq<char>, pieces: Seq<Seq<char>>, post: Self, out: Result<Values, Errors>|
                    match pre@.get_function(name) {
                        Ok(handler) => exists|states: Seq<Self>, outs: Seq<Result<Values, Errors>>|
                            {
                                &&& #[trigger] states.len() == #[trigger] outs.len() + 1
                                &&& linked(pre, pieces, states, outs)
                                &&& {
                                    ||| {
                                        &&& outs.len() == pieces.len()
                                        &&& exists|values: Vec<Values>, m: &mut Self|
                                            {
                                                &&& values@.len() == pieces.len()
                                                &&& forall|k: int|
                                                    0 <= k < outs.len() ==> #[trigger] outs[k] == Ok::<
                                                        Values,
                                                        Errors,
                                                    >(values@[k])
                                                &&& *m == states[outs.len() as int]
                                                &&& *final(m) == post
                                                &&& call_ensures(F::call, (&handler, values, m), out)
                                            }
                                    }
                                    ||| {
                                        &&& outs.len() > 0
                                        &&& outs[outs.len() - 1] is Err
                                        &&& out == outs[outs.len() - 1]
                                        &&& post == states[outs.len() as int]
                                    }
                                }
                            },
                        Err(fault) => post == pre && outcome(out) == Err::<Value, Fault>(fault),
                    };
                match strategy@ {
                    Plan::Call { name, args } => called(*old(self), name, args, *final(self), r),
                    plan => step(*old(self), text@, plan, *final(self), r),
                }
            }),
        decreases strategy@.weight(), 1int,
    {
        match strategy {
            Strategy::Key { name, content } => self.run_key(name.as_str(), content),
            Strategy::Memory { name } => self.context.get_memory(name.as_str()),
            Strategy::Call { name, args } => {
                let func: Rc<F> = match self.context.get_function(name.as_str()) {
                    Ok(func) => func,
                    Err(e) => {
                        return Err(e);
                    },
                };
                match self.exec_args(&args) {
                    Ok(values) => {
                        let ghost mid = *self;
                        let r = func.call(values, self);
                        proof {
                            assert(*func == old(self)@.get_function(name@)->Ok_0);
                            assert(values@.len() == texts(args@).len());
                            assert(exists|m: &mut Self|
                                *m == mid && *final(m) == *self && call_ensures(
                                    F::call,
                                    (&old(self)@.get_function(name@)->Ok_0, values, m),
                                    r,
                                ));
                        }
                        r
                    },
                    Err(e) => Err(e),
                }
            },
            Strategy::Malformed => Err(Errors::MalformedCall(text.to_owned())),
            Strategy::Unknown => Err(Errors::Non),
            Strategy::Token => self.run_token(text),
        }
    }

    /// Evaluates `token`.
    ///
    /// The text is normalized, and the plan for it under the keys registered
    /// now is carried out, as by `perform`:
    /// - a key: the result and the evaluator afterwards are what a call of
    ///   the key's handler, on the content and on this evaluator as it
    ///   stands, may give;
    /// - a memory reference: the value bound to the name, or the failure of
    ///   the lookup; nothing changes;
    /// - a call: where the function is not registered, `FunctionNotFound`,
    ///   and nothing changes; else the pieces of the argument text are
    ///   evaluated in order, each as a token of its own and on the evaluator
    ///   as the piece before left it, and either one of them fails, that
    ///   failure is the result and no piece behind it is evaluated, or the
    ///   result and the evaluator afterwards are what a call of the
    ///   function's handler may give on the values of the pieces, in their
    ///   order;
    /// - a call from which no name and arguments can be taken:
    ///   `MalformedCall`; nothing changes;
    /// - anything else: either every token may decline the text, nothing
    ///   changes and the result is `TokenNotMatched`; or the first token to
    ///   accept the text evaluates it.
    pub fn exec(&mut self, token: &str) -> (r: Result<Values, Errors>)
        ensures
            ({
                // What carrying out `plan` on the normalized `text` may give, from the
                // evaluator `pre`: the outcome `out` and the evaluator `post`. Of a call
                // of a registered function it says only that it fails, or is what the
                // handler gives on as many values as the call has pieces.
                let step = |pre: Self, text: Seq<char>, plan: Plan, post: Self, out: Result<Values, Errors>|
                    match plan {
                        Plan::Key { name, content } => match pre@.get_key(name) {
                            Ok(handler) => exists|m: &mut Self, c: String|
                                {
                                    &&& c@ == content
                                    &&& *m == pre
                                    &&& *final(m) == post
                                    &&& call_ensures(K::call, (&handler, c, m), out)
                                },
                            Err(fault) => post == pre && outcome(out) == Err::<Value, Fault>(fault),
                        },
                        Plan::Memory { name } => post == pre && outcome(out) == pre@.get_memory(name),
                        Plan::Call { name, args } => match pre@.get_function(name) {
                            Ok(handler) => {
                                ||| exists|values: Vec<Values>, m: &mut Self|
                                    {
                                        &&& values@.len() == args.len()
                                        &&& *final(m) == post
                                        &&& call_ensures(F::call, (&handler, values, m), out)
                                    }
                                ||| out is Err
                            },
                            Err(fault) => post == pre && outcome(out) == Err::<Value, Fault>(fault),
                        },
                        Plan::Malformed => post == pre && outcome(out) == Err::<Value, Fault>(
                            Fault::MalformedCall(text),
                        ),
                        Plan::Unknown => post == pre && outcome(out) == Err::<Value, Fault>(Fault::Unknown),
                        Plan::Token => {
                            &&& ({
                                &&& may_all_decline::<Self, T>(pre@.tokens, text)
                                &&& post == pre
                                &&& outcome(out) == Err::<Value, Fault>(Fault::TokenNotMatched(text))
                            }) || (exists|i: int, m: &mut Self, s: &str, produced: Option<Values>|
                                {
                                    &&& may_match_first::<Self, T>(pre@.tokens, text, i)
                                    &&& s@ == text
                                    &&& *m == pre
                                    &&& *final(m) == post
                                    &&& call_ensures(T::exec, (&pre@.tokens[i], s, m), produced)
                                    &&& outcome(out) == token_result(text, produced)
                                })
                            &&& !may_any_accept::<Self, T>(pre@.tokens, text) ==> {
                                &&& post == pre
                                &&& outcome(out) == Err::<Value, Fault>(Fault::TokenNotMatched(text))
                            }
                        },
                    };
                // What the evaluation of the text `raw` may give.
                let piece = |pre: Self, raw: Seq<char>, post: Self, out: Result<Values, Errors>|
                    step(
                        pre,
                        normalized(raw),
                        plan_for(
                            pre@.keys.dom(),
                            normalized(raw),
                            pattern_search(call_pattern(), normalized(raw)),
                        ),
                        post,
                        out,
                    );
                // `outs` are the outcomes of the first pieces, in order, and `states` the
                // evaluators between them: each piece is evaluated on the evaluator that
                // the piece before it left, and every outcome but the last is a value.
                let linked = |pre: Self, pieces: Seq<Seq<char>>, states: Seq<Self>, outs: Seq<Result<Values, Errors>>|
                    {
                        &&& outs.len() <= pieces.len()
                        &&& states.len() == outs.len() + 1
                        &&& states[0] == pre
                        &&& forall|k: int|
                            0 <= k < outs.len() ==> piece(states[k], pieces[k], states[k + 1], #[trigger] outs[k])
                        &&& forall|k: int| 0 <= k < outs.len() - 1 ==> (#[trigger] outs[k]) is Ok
                    };
                // What a call of the function `name` on `pieces` may give: the failure of
                // the first piece that fails, on the evaluator as that piece left it; or
                // what the handler gives on the values of all the pieces, in order, and
                // on the evaluator as the last piece left it.
                let called = |pre: Self, name: Seq<char>, pieces: Seq<Seq<char>>, post: Self, out: Result<Values, Errors>|
                    match pre@.get_function(name) {
                        Ok(handler) => exists|states: Seq<Self>, outs: Seq<Result<Values, Errors>>|
                            {
                                &&& #[trigger] states.len() == #[trigger] outs.len() + 1
                                &&& linked(pre, pieces, states, outs)
                                &&& {
                                    ||| {
                                        &&& outs.len() == pieces.len()
                                        &&& exists|values: Vec<Values>, m: &mut Self|
                                            {
                                                &&& values@.len() == pieces.len()
                                                &&& forall|k: int|
                                                    0 <= k < outs.len() ==> #[trigger] outs[k] == Ok::<
                                                        Values,
                                                        Errors,
                                                    >(values@[k])
                                                &&& *m == states[outs.len() as int]
                                                &&& *final(m) == post
                                                &&& call_ensures(F::call, (&handler, values, m), out)
                                            }
                                    }
                                    ||| {
                                        &&& outs.len() > 0
                                        &&& outs[outs.len() - 1] is Err
                                        &&& out == outs[outs.len() - 1]
                                        &&& post == states[outs.len() as int]
                                    }
                                }
                            },
                        Err(fault) => post == pre && outcome(out) == Err::<Value, Fault>(fault),
                    };
                let text = normalized(token@);
                match plan_for(old(self)@.keys.dom(), text, pattern_search(call_pattern(), text)) {
                    Plan::Call { name, args } => called(*old(self), name, args, *final(self), r),
                    plan => step(*old(self), text, plan, *final(self), r),
                }
            }),
        decreases token@.len(), 2int,
    {
        let text: String = normalize(token);
        let strategy: Strategy = self.strategy(text.as_str());
        proof {
            if strategy is Call {
                longest_below(texts(strategy->Call_args@), token@.len());
            }
        }
        self.perform(text.as_str(), strategy)
    }
}

} // verus!
