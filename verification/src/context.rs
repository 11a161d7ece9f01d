//! The registry of a scope: tokens, keys, functions and memory, with an
//! optional nested scope.

use std::rc::Rc;
use vstd::hash_map::StringHashMap;
use vstd::prelude::*;
use crate::errors::{outcome, Errors, Fault};
use crate::laws::{binding_keeps_shape, function_registration_keeps_shape};
use crate::token::{may_all_decline, may_answer, may_match_first, Token};
use crate::values::{Value, Values};

verus! {

/// Holds what is registered at one level: the tokens in the order of their
/// registration, the handlers of keys and of functions by name, the memory
/// bindings by name, and the nested scope, if one is open.
#[verifier::reject_recursive_types(K)]
#[verifier::reject_recursive_types(F)]
pub struct Context<T, K, F> {
    pub tokens: Vec<Rc<T>>,
    pub functions: StringHashMap<Rc<F>>,
    pub memory: StringHashMap<Values>,
    pub keys: StringHashMap<Rc<K>>,
    pub sub_context: Option<Box<Context<T, K, F>>>,
}

/// The mathematical content of a [`Context`].
#[verifier::reject_recursive_types(K)]
#[verifier::reject_recursive_types(F)]
pub ghost struct Scope<T, K, F> {
    pub tokens: Seq<T>,
    pub keys: Map<Seq<char>, K>,
    pub functions: Map<Seq<char>, F>,
    pub memory: Map<Seq<char>, Value>,
    pub child: Option<Box<Scope<T, K, F>>>,
}

impl<T, K, F> Scope<T, K, F> {
    /// The scope in which nothing is registered.
    pub open spec fn empty() -> Self {
        Scope {
            tokens: Seq::empty(),
            keys: Map::empty(),
            functions: Map::empty(),
            memory: Map::empty(),
            child: None,
        }
    }

    /// Whether the scope has at most one nested level: its nested scope, if
    /// it has one, has none of its own.
    pub open spec fn well_formed(self) -> bool {
        match self.child {
            Some(child) => child.child is None,
            None => true,
        }
    }

    /// The scope after `name` is bound to `value`. A name that is not bound
    /// at this level goes to the nested scope, where there is one; any other
    /// is bound, or bound anew, at this level.
    pub open spec fn set_memory(self, name: Seq<char>, value: Value) -> Self
        decreases self,
    {
        if !self.memory.contains_key(name) && self.child is Some {
            Scope { child: Some(Box::new(self.child.unwrap().set_memory(name, value))), ..self }
        } else {
            Scope { memory: self.memory.insert(name, value), ..self }
        }
    }

    /// The value bound to `name`: the one of this level, else the one of the
    /// nested scope's own level. Nothing further down is looked at.
    pub open spec fn get_memory(self, name: Seq<char>) -> Result<Value, Fault> {
        if self.memory.contains_key(name) {
            Ok(self.memory[name])
        } else {
            match self.child {
                Some(child) => if child.memory.contains_key(name) {
                    Ok(child.memory[name])
                } else {
                    Err(Fault::MemoryNotFound(name))
                },
                None => Err(Fault::MemoryNotDefined(name)),
            }
        }
    }

    /// The scope after `handler` is registered under the key `name`, at this
    /// level, in place of any handler that `name` had.
    pub open spec fn set_key(self, name: Seq<char>, handler: K) -> Self {
        Scope { keys: self.keys.insert(name, handler), ..self }
    }

    /// The handler of the key `name`, which is looked up at this level only.
    pub open spec fn get_key(self, name: Seq<char>) -> Result<K, Fault> {
        if self.keys.contains_key(name) {
            Ok(self.keys[name])
        } else {
            Err(Fault::KeyNotFound(name))
        }
    }

    /// The scope after `handler` is registered as the function `name`. A
    /// name that is not registered at this level goes to the nested scope,
    /// where there is one; any other is registered, or registered anew, at
    /// this level.
    pub open spec fn set_function(self, name: Seq<char>, handler: F) -> Self
        decreases self,
    {
        if !self.functions.contains_key(name) && self.child is Some {
            Scope {
                child: Some(Box::new(self.child.unwrap().set_function(name, handler))),
                ..self
            }
        } else {
            Scope { functions: self.functions.insert(name, handler), ..self }
        }
    }

    /// The handler of the function `name`: the one of this level, else the
    /// one of the nested scope's own level. Nothing further down is looked
    /// at.
    pub open spec fn get_function(self, name: Seq<char>) -> Result<F, Fault> {
        if self.functions.contains_key(name) {
            Ok(self.functions[name])
        } else {
            match self.child {
                Some(child) => if child.functions.contains_key(name) {
                    Ok(child.functions[name])
                } else {
                    Err(Fault::FunctionNotFound(name))
                },
                None => Err(Fault::FunctionNotFound(name)),
            }
        }
    }

    /// Whether a function `name` is registered at this level or at any
    /// level below it.
    pub open spec fn has_function(self, name: Seq<char>) -> bool
        decreases self,
    {
        self.functions.contains_key(name) || match self.child {
            Some(child) => child.has_function(name),
            None => false,
        }
    }

    /// The scope after `token` is registered, behind every token registered
    /// before.
    pub open spec fn push_token(self, token: T) -> Self {
        Scope { tokens: self.tokens.push(token), ..self }
    }

    /// The scope with a fresh, empty nested scope in place of the one it
    /// had, if it had one.
    pub open spec fn nested(self) -> Self {
        Scope { child: Some(Box::new(Scope::empty())), ..self }
    }

    /// The scope with `child` as its nested scope.
    pub open spec fn with_child(self, child: Option<Box<Scope<T, K, F>>>) -> Self {
        Scope { child, ..self }
    }

    /// Whether `name` is bound at this level or at any level below it.
    pub open spec fn has_memory(self, name: Seq<char>) -> bool
        decreases self,
    {
        self.memory.contains_key(name) || match self.child {
            Some(child) => child.has_memory(name),
            None => false,
        }
    }
}

impl<T, K, F> Context<T, K, F> {
    /// What is registered in this context, level by level.
    pub open spec fn content(&self) -> Scope<T, K, F>
        decreases self,
    {
        Scope {
            tokens: Seq::new(self.tokens@.len(), |i: int| *self.tokens@[i]),
            keys: self.keys@.map_values(|k: Rc<K>| *k),
            functions: self.functions@.map_values(|f: Rc<F>| *f),
            memory: self.memory@.map_values(|v: Values| v@),
            child: match self.sub_context {
                Some(child) => Some(Box::new(child.content())),
                None => None,
            },
        }
    }
}

impl<T, K, F> View for Context<T, K, F> {
    type V = Scope<T, K, F>;

    open spec fn view(&self) -> Scope<T, K, F> {
        self.content()
    }
}

impl<T, K, F> Context<T, K, F> {
    /// A context in which nothing is registered.
    pub fn new() -> (r: Self)
        ensures
            r@ == Scope::<T, K, F>::empty(),
            r@.well_formed(),
    {
        let r = Context {
            tokens: Vec::new(),
            functions: StringHashMap::new(),
            memory: StringHashMap::new(),
            keys: StringHashMap::new(),
            sub_context: None,
        };
        assert(r@.tokens =~= Seq::empty());
        assert(r@.keys =~= Map::empty());
        assert(r@.functions =~= Map::empty());
        assert(r@.memory =~= Map::empty());
        r
    }

    /// Binds `key` to `tok` in memory.
    pub fn push_memory(&mut self, key: &str, tok: Values)
        ensures
            final(self)@ == old(self)@.set_memory(key@, tok@),
            old(self)@.well_formed() ==> final(self)@.well_formed(),
        decreases *old(self),
    {
        proof {
            if old(self)@.well_formed() {
                binding_keeps_shape(old(self)@, key@, tok@);
            }
        }
        if !self.memory.contains_key(key) {
            match &mut self.sub_context {
                Some(subc) => {
                    subc.push_memory(key, tok);
                    return ;
                },
                None => {},
            }
        }
        self.memory.insert(key.to_owned(), tok);
        assert(final(self)@.memory =~= old(self)@.memory.insert(key@, tok@));
    }

    /// The value bound to `key`, or why there is none.
    pub fn get_memory(&self, key: &str) -> (r: Result<Values, Errors>)
        ensures
            outcome(r) == self@.get_memory(key@),
    {
        proof {
            reveal_with_fuel(Context::content, 2);
        }
        match self.memory.get(key) {
            Some(value) => Ok(value.clone()),
            None => match &self.sub_context {
                Some(subc) => match subc.memory.get(key) {
                    Some(value) => Ok(value.clone()),
                    None => Err(Errors::MemoryNotFound(key.to_owned())),
                },
                None => Err(Errors::MemoryNotDefined(key.to_owned())),
            },
        }
    }

    /// Whether `key` is bound at this level or at any level below it.
    pub fn has_memory(&self, key: &str) -> (b: bool)
        ensures
            b == self@.has_memory(key@),
        decreases self,
    {
        let has_sub_context = match &self.sub_context {
            Some(subc) => subc.has_memory(key),
            None => false,
        };
        self.memory.contains_key(key) || has_sub_context
    }

    /// Registers `tok` as the handler of the key `key`.
    pub fn push_key(&mut self, key: String, tok: K)
        ensures
            final(self)@ == old(self)@.set_key(key@, tok),
    {
        self.keys.insert(key, Rc::new(tok));
        assert(final(self)@.keys =~= old(self)@.keys.insert(key@, tok));
    }

    /// The handler of the key `key`, or `KeyNotFound`.
    pub fn get_key(&self, key: &str) -> (r: Result<Rc<K>, Errors>)
        ensures
            match r {
                Ok(handler) => self@.get_key(key@) == Ok::<K, Fault>(*handler),
                Err(e) => self@.get_key(key@) == Err::<K, Fault>(e@),
            },
    {
        match self.keys.get(key) {
            Some(handler) => Ok(handler.clone()),
            None => Err(Errors::KeyNotFound(key.to_owned())),
        }
    }

    /// Whether a handler is registered under the key `key`.
    pub fn has_key(&self, key: &str) -> (b: bool)
        ensures
            b == self@.keys.contains_key(key@),
    {
        self.keys.contains_key(key)
    }

    /// Registers `func` as the function `name`.
    pub fn push_function(&mut self, name: String, func: F)
        ensures
            final(self)@ == old(self)@.set_function(name@, func),
            old(self)@.well_formed() ==> final(self)@.well_formed(),
        decreases *old(self),
    {
        proof {
            if old(self)@.well_formed() {
                function_registration_keeps_shape(old(self)@, name@, func);
            }
        }
        if !self.functions.contains_key(name.as_str()) {
            match &mut self.sub_context {
                Some(subc) => {
                    subc.push_function(name, func);
                    return ;
                },
                None => {},
            }
        }
        self.functions.insert(name, Rc::new(func));
        assert(final(self)@.functions =~= old(self)@.functions.insert(name@, func));
    }

    /// The handler of the function `key`, or `FunctionNotFound`.
    pub fn get_function(&self, key: &str) -> (r: Result<Rc<F>, Errors>)
        ensures
            match r {
                Ok(handler) => self@.get_function(key@) == Ok::<F, Fault>(*handler),
                Err(e) => self@.get_function(key@) == Err::<F, Fault>(e@),
            },
    {
        proof {
            reveal_with_fuel(Context::content, 2);
        }
        match self.functions.get(key) {
            Some(handler) => Ok(handler.clone()),
            None => match &self.sub_context {
                Some(subc) => match subc.functions.get(key) {
                    Some(handler) => Ok(handler.clone()),
                    None => Err(Errors::FunctionNotFound(key.to_owned())),
                },
                None => Err(Errors::FunctionNotFound(key.to_owned())),
            },
        }
    }

    /// Whether a function `key` is registered at this level or at any level
    /// below it.
    pub fn has_function(&self, key: &str) -> (b: bool)
        ensures
            b == self@.has_function(key@),
        decreases self,
    {
        let has_sub_context = match &self.sub_context {
            Some(subc) => subc.has_function(key),
            None => false,
        };
        self.functions.contains_key(key) || has_sub_context
    }

    /// Registers `tok` behind every token registered before.
    pub fn push_token(&mut self, tok: T)
        ensures
            final(self)@ == old(self)@.push_token(tok),
    {
        self.tokens.push(Rc::new(tok));
        assert(final(self)@.tokens =~= old(self)@.tokens.push(tok));
    }

    /// Whether a token is registered at position `idx`.
    pub fn has_token(&self, idx: usize) -> (b: bool)
        ensures
            b == (idx < self@.tokens.len()),
    {
        self.tokens.len() > idx
    }

    /// The token registered at position `idx`.
    pub fn get_token(&self, idx: usize) -> (r: Rc<T>)
        requires
            idx < self@.tokens.len(),
        ensures
            *r == self@.tokens[idx as int],
    {
        self.tokens[idx].clone()
    }
}

impl<T, K, F> Context<T, K, F> {
    /// The position of the first registered token that accepts `tok`, in the
    /// order of registration, or `TokenNotMatched` where every token
    /// declines.
    ///
    /// The tokens are asked one by one, from the first, until one accepts;
    /// those behind it are not asked.
    pub fn token_index<P>(&self, tok: &str) -> (r: Result<usize, Errors>) where T: Token<P>
        ensures
            match r {
                Ok(i) => may_match_first::<P, T>(self@.tokens, tok@, i as int),
                Err(e) => e@ == Fault::TokenNotMatched(tok@) && may_all_decline::<P, T>(
                    self@.tokens,
                    tok@,
                ),
            },
    {
        let mut ix: usize = 0;
        while ix < self.tokens.len()
            invariant
                ix <= self.tokens@.len(),
                forall|j: int|
                    0 <= j < ix ==> may_answer::<P, T>(#[trigger] self@.tokens[j], tok@, false),
            decreases self.tokens@.len() - ix,
        {
            let accepted: bool = self.tokens[ix].is_token(tok);
            assert(may_answer::<P, T>(self@.tokens[ix as int], tok@, accepted));
            if accepted {
                return Ok(ix);
            }
            ix = ix + 1;
        }
        Err(Errors::TokenNotMatched(tok.to_owned()))
    }

    /// The token registered at position `idx`, if there is one.
    pub fn gifs_token(&self, idx: usize) -> (r: Option<Rc<T>>)
        ensures
            match r {
                Some(token) => idx < self@.tokens.len() && *token == self@.tokens[idx as int],
                None => idx >= self@.tokens.len(),
            },
    {
        if self.has_token(idx) {
            Some(self.get_token(idx))
        } else {
            None
        }
    }

    /// The value bound to `key`, if one can be read.
    pub fn gifs_memory(&self, key: &str) -> (r: Option<Values>)
        ensures
            match r {
                Some(value) => self@.get_memory(key@) == Ok::<Value, Fault>(value@),
                None => self@.get_memory(key@) is Err,
            },
    {
        match self.get_memory(key) {
            Ok(value) => Some(value),
            Err(_) => None,
        }
    }

    /// The handler of the key `key`, if one is registered.
    pub fn gifs_key(&self, key: &str) -> (r: Option<Rc<K>>)
        ensures
            match r {
                Some(handler) => self@.get_key(key@) == Ok::<K, Fault>(*handler),
                None => self@.get_key(key@) is Err,
            },
    {
        match self.get_key(key) {
            Ok(handler) => Some(handler),
            Err(_) => None,
        }
    }

    /// The handler of the function `key`, if one can be looked up.
    pub fn gifs_function(&self, key: &str) -> (r: Option<Rc<F>>)
        ensures
            match r {
                Some(handler) => self@.get_function(key@) == Ok::<F, Fault>(*handler),
                None => self@.get_function(key@) is Err,
            },
    {
        match self.get_function(key) {
            Ok(handler) => Some(handler),
            Err(_) => None,
        }
    }
}

} // verus!
