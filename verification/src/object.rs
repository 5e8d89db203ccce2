//! The values of the tree walker.
use vstd::prelude::*;
use crate::number::Number;
use crate::text::same_text;

verus! {

/// A value: a string, a number, a truth value, something that can be
/// called, or nothing. A callable is held by the place of its entry in the
/// interpreter's list of callables, which is its identity.
#[derive(Debug)]
pub enum Object {
    String(String),
    Number(Number),
    Bool(bool),
    Callable(usize),
    Nil,
}

pub enum ObjectView {
    String(Seq<char>),
    Number(Number),
    Bool(bool),
    Callable(usize),
    Nil,
}

impl View for Object {
    type V = ObjectView;

    open spec fn view(&self) -> ObjectView {
        match self {
            Object::String(text) => ObjectView::String(text@),
            Object::Number(n) => ObjectView::Number(*n),
            Object::Bool(b) => ObjectView::Bool(*b),
            Object::Callable(handle) => ObjectView::Callable(*handle),
            Object::Nil => ObjectView::Nil,
        }
    }
}

impl DeepView for Object {
    type V = ObjectView;

    open spec fn deep_view(&self) -> ObjectView {
        self@
    }
}

impl Clone for Object {
    fn clone(&self) -> (copy: Object)
        ensures
            copy == *self,
    {
        match self {
            Object::String(text) => Object::String(text.clone()),
            Object::Number(n) => Object::Number(*n),
            Object::Bool(b) => Object::Bool(*b),
            Object::Callable(handle) => Object::Callable(*handle),
            Object::Nil => Object::Nil,
        }
    }
}

/// `nil` and `false` are false; every other value is true.
pub open spec fn truthy(v: ObjectView) -> bool {
    match v {
        ObjectView::Nil => false,
        ObjectView::Bool(b) => b,
        _ => true,
    }
}

/// Equality of values: `nil` equals only `nil`; otherwise the kinds must
/// match and the contents be equal, numbers as binary64 compares them,
/// callables by identity.
pub open spec fn equal(a: ObjectView, b: ObjectView) -> bool {
    match (a, b) {
        (ObjectView::Nil, ObjectView::Nil) => true,
        (ObjectView::String(x), ObjectView::String(y)) => x == y,
        (ObjectView::Number(x), ObjectView::Number(y)) => x.same(y),
        (ObjectView::Bool(x), ObjectView::Bool(y)) => x == y,
        (ObjectView::Callable(x), ObjectView::Callable(y)) => x == y,
        _ => false,
    }
}

impl Object {
    pub fn is_truthy(&self) -> (r: bool)
        ensures
            r == truthy(self@),
    {
        match self {
            Object::Nil => false,
            Object::Bool(b) => *b,
            _ => true,
        }
    }

    pub fn is_equal(&self, other: &Object) -> (r: bool)
        ensures
            r == equal(self@, other@),
    {
        match (self, other) {
            (Object::Nil, Object::Nil) => true,
            (Object::String(x), Object::String(y)) => same_text(x.as_str(), y.as_str()),
            (Object::Number(x), Object::Number(y)) => x.equals(y),
            (Object::Bool(x), Object::Bool(y)) => *x == *y,
            (Object::Callable(x), Object::Callable(y)) => *x == *y,
            _ => false,
        }
    }
}

} // verus!

verus! {

/// Equality of values does not depend on the order of the two, and `nil`
/// equals nothing but `nil`.
pub proof fn equality_is_symmetric(a: ObjectView, b: ObjectView)
    ensures
        equal(a, b) == equal(b, a),
        equal(ObjectView::Nil, b) == (b is Nil),
{
}

} // verus!
