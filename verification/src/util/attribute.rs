//! Attributes: a key and a value that is a text or a whole number.

use vstd::prelude::*;

verus! {

/// The value of an attribute.
#[derive(Debug, PartialEq, Eq)]
pub enum Value {
    Str(String),
    Int(i64),
}

/// What a value holds.
pub enum ValueView {
    Str(Seq<char>),
    Int(int),
}

impl View for Value {
    type V = ValueView;

    open spec fn view(&self) -> ValueView {
        match self {
            Value::Str(s) => ValueView::Str(s@),
            Value::Int(i) => ValueView::Int(*i as int),
        }
    }
}

impl Clone for Value {
    fn clone(&self) -> (r: Self)
        ensures
            r@ == self@,
    {
        match self {
            Value::Str(s) => Value::Str(s.clone()),
            Value::Int(i) => Value::Int(*i),
        }
    }
}

/// An attribute.
#[derive(Debug, PartialEq, Eq)]
pub struct KeyValue {
    pub key: String,
    pub value: Value,
}

/// What an attribute holds: its key and its value.
pub type Attribute = (Seq<char>, ValueView);

impl View for KeyValue {
    type V = Attribute;

    open spec fn view(&self) -> Attribute {
        (self.key@, self.value@)
    }
}

impl Clone for KeyValue {
    fn clone(&self) -> (r: Self)
        ensures
            r@ == self@,
    {
        KeyValue { key: self.key.clone(), value: self.value.clone() }
    }
}

impl KeyValue {
    /// An attribute whose value is the text `value`.
    pub fn text(key: &str, value: &str) -> (r: Self)
        ensures
            r@ == (key@, ValueView::Str(value@)),
    {
        KeyValue { key: key.to_owned(), value: Value::Str(value.to_owned()) }
    }

    /// An attribute whose value is the number `value`.
    pub fn number(key: &str, value: i64) -> (r: Self)
        ensures
            r@ == (key@, ValueView::Int(value as int)),
    {
        KeyValue { key: key.to_owned(), value: Value::Int(value) }
    }
}

/// What a list of attributes holds.
pub open spec fn views(list: Seq<KeyValue>) -> Seq<Attribute> {
    Seq::new(list.len(), |i: int| list[i]@)
}

/// A list with the attributes of `list`, in the same order.
pub fn clone_attributes(list: &[KeyValue]) -> (r: Vec<KeyValue>)
    ensures
        views(r@) == views(list@),
{
    let mut out: Vec<KeyValue> = Vec::new();
    let mut i: usize = 0;
    while i < list.len()
        invariant
            0 <= i <= list@.len(),
            out@.len() == i,
            forall|j: int| 0 <= j < i ==> out@[j]@ == list@[j]@,
        decreases list@.len() - i,
    {
        out.push(list[i].clone());
        i += 1;
    }
    assert(views(out@) =~= views(list@));
    out
}

} // verus!
