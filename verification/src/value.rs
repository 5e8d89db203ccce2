//! The values of the virtual machine.
use vstd::prelude::*;
use std::rc::Rc;
use crate::number::Number;
use crate::text::push_text;

verus! {

/// The heap-allocated kinds of values: strings.
#[derive(Debug)]
pub enum Obj {
    String(String),
}

pub enum ObjView {
    String(Seq<char>),
}

impl View for Obj {
    type V = ObjView;

    open spec fn view(&self) -> ObjView {
        match self {
            Obj::String(text) => ObjView::String(text@),
        }
    }
}

/// `Rc::clone` of the standard library: the new handle points to the same
/// object, so it holds the same value. Not proved.
#[verifier::external_body]
fn share(object: &Rc<Obj>) -> (shared: Rc<Obj>)
    ensures
        shared == *object,
{
    Rc::clone(object)
}

impl Obj {
    pub fn is_string(&self) -> (r: bool)
        ensures
            r == (self@ is String),
    {
        match self {
            Obj::String(_) => true,
        }
    }

    pub fn as_string(&self) -> (text: Option<&str>)
        ensures
            match text {
                Some(t) => self@ == ObjView::String(t@),
                None => !(self@ is String),
            },
    {
        match self {
            Obj::String(text) => Some(text.as_str()),
        }
    }

    /// The text of the first followed by the text of the second, where both
    /// are strings.
    pub fn concat_strings(a: &Rc<Obj>, b: &Rc<Obj>) -> (joined: Option<Value>)
        ensures
            match joined {
                Some(v) => a@ is String && b@ is String && v@ == ValueView::Obj(
                    ObjView::String(a@->String_0 + b@->String_0),
                ),
                None => !(a@ is String && b@ is String),
            },
    {
        match (a.as_string(), b.as_string()) {
            (Some(first), Some(second)) => {
                let mut text = first.to_owned();
                push_text(&mut text, second);
                Some(Value::obj(Obj::String(text)))
            },
            _ => None,
        }
    }
}

/// A value of the virtual machine: small values directly, strings by a
/// shared handle.
#[derive(Debug)]
pub enum Value {
    Bool(bool),
    Nil,
    Number(Number),
    Obj(Rc<Obj>),
}

pub enum ValueView {
    Bool(bool),
    Nil,
    Number(Number),
    Obj(ObjView),
}

impl View for Value {
    type V = ValueView;

    open spec fn view(&self) -> ValueView {
        match self {
            Value::Bool(b) => ValueView::Bool(*b),
            Value::Nil => ValueView::Nil,
            Value::Number(n) => ValueView::Number(*n),
            Value::Obj(o) => ValueView::Obj(o@),
        }
    }
}

impl DeepView for Value {
    type V = ValueView;

    open spec fn deep_view(&self) -> ValueView {
        self@
    }
}

impl Clone for Value {
    fn clone(&self) -> (copy: Value)
        ensures
            copy@ == self@,
    {
        match self {
            Value::Bool(b) => Value::Bool(*b),
            Value::Nil => Value::Nil,
            Value::Number(n) => Value::Number(*n),
            Value::Obj(o) => Value::Obj(share(o)),
        }
    }
}

/// `nil` and `false` are false; every other value is true.
pub open spec fn falsey(v: ValueView) -> bool {
    v is Nil || v == ValueView::Bool(false)
}

/// Equality of values: of the same kind and with equal contents; numbers as
/// binary64 compares them.
pub open spec fn values_equal(a: ValueView, b: ValueView) -> bool {
    match (a, b) {
        (ValueView::Bool(x), ValueView::Bool(y)) => x == y,
        (ValueView::Nil, ValueView::Nil) => true,
        (ValueView::Number(x), ValueView::Number(y)) => x.same(y),
        (ValueView::Obj(x), ValueView::Obj(y)) => x == y,
        _ => false,
    }
}

/// How a value is written: as its text, or as a number, whose digits only
/// the host can write.
#[derive(Debug)]
pub enum Shown {
    Text(String),
    Number(Number),
}

pub enum ShownView {
    Text(Seq<char>),
    Number(Number),
}

impl View for Shown {
    type V = ShownView;

    open spec fn view(&self) -> ShownView {
        match self {
            Shown::Text(text) => ShownView::Text(text@),
            Shown::Number(n) => ShownView::Number(*n),
        }
    }
}

/// What `print` writes for a value: strings without quotes, `nil`, `true`
/// and `false` by their names.
pub open spec fn shown(v: ValueView) -> ShownView {
    match v {
        ValueView::Bool(b) => ShownView::Text(
            if b {
                "true"@
            } else {
                "false"@
            },
        ),
        ValueView::Nil => ShownView::Text("nil"@),
        ValueView::Number(n) => ShownView::Number(n),
        ValueView::Obj(ObjView::String(text)) => ShownView::Text(text),
    }
}

impl Value {
    pub fn bool_val(b: bool) -> (v: Value)
        ensures
            v@ == ValueView::Bool(b),
    {
        Value::Bool(b)
    }

    pub fn nil() -> (v: Value)
        ensures
            v@ == ValueView::Nil,
    {
        Value::Nil
    }

    pub fn number(n: Number) -> (v: Value)
        ensures
            v@ == ValueView::Number(n),
    {
        Value::Number(n)
    }

    pub fn obj(o: Obj) -> (v: Value)
        ensures
            v@ == ValueView::Obj(o@),
    {
        Value::Obj(Rc::new(o))
    }

    pub fn is_falsey(&self) -> (r: bool)
        ensures
            r == falsey(self@),
    {
        match self {
            Value::Bool(b) => !*b,
            Value::Nil => true,
            _ => false,
        }
    }

    pub fn equals(&self, other: &Value) -> (r: bool)
        ensures
            r == values_equal(self@, other@),
    {
        match (self, other) {
            (Value::Bool(x), Value::Bool(y)) => *x == *y,
            (Value::Nil, Value::Nil) => true,
            (Value::Number(x), Value::Number(y)) => x.equals(y),
            (Value::Obj(x), Value::Obj(y)) => match (x.as_string(), y.as_string()) {
                (Some(s), Some(t)) => crate::text::same_text(s, t),
                _ => false,
            },
            _ => false,
        }
    }

    pub fn show(&self) -> (r: Shown)
        ensures
            r@ == shown(self@),
    {
        match self {
            Value::Bool(b) => if *b {
                Shown::Text("true".to_owned())
            } else {
                Shown::Text("false".to_owned())
            },
            Value::Nil => Shown::Text("nil".to_owned()),
            Value::Number(n) => Shown::Number(*n),
            Value::Obj(o) => match o.as_string() {
                Some(text) => Shown::Text(text.to_owned()),
                None => Shown::Text(String::new()),
            },
        }
    }
}

} // verus!
