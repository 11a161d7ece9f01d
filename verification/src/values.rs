//! Result values: what every handler produces and consumes.

use vstd::prelude::*;

verus! {

/// A value produced by an evaluation.
///
/// A `Number` carries the IEEE-754 binary64 bit pattern of the number it
/// stands for, so that two values are equal exactly when they are built the
/// same way. No variant is ever coerced into another.
#[derive(Debug, PartialEq)]
pub enum Values {
    String(String),
    Number(u64),
    Boolean(bool),
    Array(Vec<Values>),
    Null,
}

/// The mathematical content of a [`Values`].
pub ghost enum Value {
    Text(Seq<char>),
    Number(u64),
    Boolean(bool),
    List(Seq<Value>),
    Empty,
}

/// The contents of a list of values, element by element.
pub open spec fn list_view(items: Seq<Values>) -> Seq<Value>
    decreases items,
{
    Seq::new(
        items.len(),
        |i: int|
            if 0 <= i < items.len() {
                items[i]@
            } else {
                Value::Empty
            },
    )
}

impl View for Values {
    type V = Value;

    open spec fn view(&self) -> Value
        decreases self,
    {
        match self {
            Values::String(s) => Value::Text(s@),
            Values::Number(n) => Value::Number(*n),
            Values::Boolean(b) => Value::Boolean(*b),
            Values::Array(v) => Value::List(list_view(v@)),
            Values::Null => Value::Empty,
        }
    }
}

/// Two lists with the same contents, element by element, have the same view.
pub proof fn list_view_pointwise(a: Seq<Values>, b: Seq<Values>)
    requires
        a.len() == b.len(),
        forall|i: int| 0 <= i < a.len() ==> a[i]@ == b[i]@,
    ensures
        list_view(a) == list_view(b),
{
    assert(list_view(a) =~= list_view(b));
}

impl Clone for Values {
    /// A deep copy: the result has the same content as `self`.
    fn clone(&self) -> (r: Self)
        ensures
            r@ == self@,
        decreases self,
    {
        match self {
            Values::String(s) => Values::String(s.clone()),
            Values::Number(n) => Values::Number(*n),
            Values::Boolean(b) => Values::Boolean(*b),
            Values::Array(v) => {
                let mut out: Vec<Values> = Vec::new();
                let mut i: usize = 0;
                while i < v.len()
                    invariant
                        self->Array_0 == *v,
                        *self is Array,
                        i <= v@.len(),
                        out@.len() == i,
                        forall|j: int| 0 <= j < i ==> out@[j]@ == v@[j]@,
                    decreases v@.len() - i,
                {
                    assert(decreases_to!(*self => self->Array_0));
                    assert(decreases_to!(*v => v[i as int]));
                    out.push(v[i].clone());
                    i = i + 1;
                }
                proof {
                    list_view_pointwise(out@, v@);
                }
                Values::Array(out)
            },
            Values::Null => Values::Null,
        }
    }
}

} // verus!
