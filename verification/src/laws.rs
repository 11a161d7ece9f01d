//! What holds of scopes and registries, whatever is registered in them.

use vstd::prelude::*;
use crate::context::Scope;
use crate::errors::Fault;
use crate::token::{may_answer, may_match_first, Token};
use crate::values::Value;

verus! {

/// A binding of the outer level is read from inside a nested scope.
pub proof fn nested_scope_reads_outer_binding<T, K, F>(scope: Scope<T, K, F>, name: Seq<char>)
    requires
        scope.memory.contains_key(name),
    ensures
        scope.nested().get_memory(name) == Ok::<Value, Fault>(scope.memory[name]),
{
}

/// A name that is first bound inside a nested scope is bound there only: it
/// is read from inside, and once the nested scope is closed the outer scope
/// is what it was before the nested scope was opened.
pub proof fn new_binding_stays_in_nested_scope<T, K, F>(
    scope: Scope<T, K, F>,
    name: Seq<char>,
    value: Value,
)
    requires
        !scope.memory.contains_key(name),
    ensures
        scope.nested().set_memory(name, value).get_memory(name) == Ok::<Value, Fault>(value),
        scope.nested().set_memory(name, value).with_child(scope.child) == scope,
{
    reveal_with_fuel(Scope::set_memory, 2);
    let child = Scope::<T, K, F>::empty();
    assert(child.set_memory(name, value).memory.contains_key(name));
}

/// A name that is bound for the first time inside a nested scope of a scope
/// without one cannot be read once the nested scope is closed.
pub proof fn new_binding_is_gone_after_nested_scope<T, K, F>(
    scope: Scope<T, K, F>,
    name: Seq<char>,
    value: Value,
)
    requires
        scope.child is None,
        !scope.memory.contains_key(name),
    ensures
        scope.nested().set_memory(name, value).with_child(None).get_memory(name) == Err::<
            Value,
            Fault,
        >(Fault::MemoryNotDefined(name)),
{
    new_binding_stays_in_nested_scope(scope, name, value);
}

/// A name that is bound at the outer level is bound anew at that level by a
/// write from inside a nested scope: the new value is read from inside, and
/// it is still read once the nested scope is closed.
pub proof fn existing_binding_is_updated_in_place<T, K, F>(
    scope: Scope<T, K, F>,
    name: Seq<char>,
    value: Value,
)
    requires
        scope.memory.contains_key(name),
    ensures
        scope.nested().set_memory(name, value).get_memory(name) == Ok::<Value, Fault>(value),
        scope.nested().set_memory(name, value).with_child(scope.child).get_memory(name) == Ok::<
            Value,
            Fault,
        >(value),
        scope.nested().set_memory(name, value).with_child(scope.child).memory
            == scope.memory.insert(name, value),
{
}

/// Of two handlers registered under one key, the second is the one in
/// effect, as if the first had never been registered.
pub proof fn second_key_registration_wins<T, K, F>(
    scope: Scope<T, K, F>,
    name: Seq<char>,
    first: K,
    second: K,
)
    ensures
        scope.set_key(name, first).set_key(name, second).get_key(name) == Ok::<K, Fault>(second),
        scope.set_key(name, first).set_key(name, second) == scope.set_key(name, second),
{
    assert(scope.keys.insert(name, first).insert(name, second) =~= scope.keys.insert(
        name,
        second,
    ));
}

/// Of two handlers registered as one function, the second is the one in
/// effect, as if the first had never been registered.
pub proof fn second_function_registration_wins<T, K, F>(
    scope: Scope<T, K, F>,
    name: Seq<char>,
    first: F,
    second: F,
)
    requires
        scope.well_formed(),
    ensures
        scope.set_function(name, first).set_function(name, second).get_function(name) == Ok::<
            F,
            Fault,
        >(second),
        scope.set_function(name, first).set_function(name, second) == scope.set_function(
            name,
            second,
        ),
{
    reveal_with_fuel(Scope::set_function, 2);
    assert(scope.functions.insert(name, first).insert(name, second) =~= scope.functions.insert(
        name,
        second,
    ));
    if scope.child is Some {
        let child = *scope.child.unwrap();
        assert(child.functions.insert(name, first).insert(name, second)
            =~= child.functions.insert(name, second));
    }
}

/// Of two values bound to one name, the second is the one that is read.
pub proof fn second_binding_wins<T, K, F>(
    scope: Scope<T, K, F>,
    name: Seq<char>,
    first: Value,
    second: Value,
)
    requires
        scope.well_formed(),
    ensures
        scope.set_memory(name, first).set_memory(name, second).get_memory(name) == Ok::<
            Value,
            Fault,
        >(second),
{
    reveal_with_fuel(Scope::set_memory, 2);
}

/// With at most one nested level, a name can be read from memory exactly
/// when it is bound somewhere.
pub proof fn readable_means_bound<T, K, F>(scope: Scope<T, K, F>, name: Seq<char>)
    requires
        scope.well_formed(),
    ensures
        scope.get_memory(name) is Ok <==> scope.has_memory(name),
{
    reveal_with_fuel(Scope::has_memory, 3);
}

/// A binding keeps the shape of a scope: at most one nested level stays at
/// most one nested level.
pub proof fn binding_keeps_shape<T, K, F>(scope: Scope<T, K, F>, name: Seq<char>, value: Value)
    requires
        scope.well_formed(),
    ensures
        scope.set_memory(name, value).well_formed(),
{
    reveal_with_fuel(Scope::set_memory, 2);
}

/// A registration of a function keeps the shape of a scope.
pub proof fn function_registration_keeps_shape<T, K, F>(
    scope: Scope<T, K, F>,
    name: Seq<char>,
    handler: F,
)
    requires
        scope.well_formed(),
    ensures
        scope.set_function(name, handler).well_formed(),
{
    reveal_with_fuel(Scope::set_function, 2);
}

/// The token registered first wins: where a token can only accept a text,
/// no token registered behind it comes out as the first to accept that text.
pub proof fn first_registered_token_wins<P, T: Token<P>>(
    tokens: Seq<T>,
    text: Seq<char>,
    earlier: int,
    chosen: int,
)
    requires
        0 <= earlier < tokens.len(),
        !may_answer::<P, T>(tokens[earlier], text, false),
        may_match_first::<P, T>(tokens, text, chosen),
    ensures
        chosen <= earlier,
{
}

} // verus!
