//! Decoded values: scalars and the composites that records and tagged unions are made of.

use vstd::prelude::*;

verus! {

/// A scalar: what a primitive field holds and what an expression evaluates to.
#[derive(Clone, Copy, Debug, PartialEq, Eq, Structural)]
pub enum Datum {
    Bool(bool),
    UInt(u64),
}

/// A decoded or to-be-encoded value.
#[derive(Debug, PartialEq, Eq)]
pub enum Value {
    /// A primitive field.
    Scalar(Datum),
    /// An optional field: absent or present.
    Optional(Option<Box<Value>>),
    /// A repeated field, in wire order.
    List(Vec<Value>),
    /// A record: its fields in declaration order.
    Record(Vec<Value>),
    /// One variant of a tagged union: its position among the declared variants and its fields.
    Variant(usize, Vec<Value>),
}

/// The mathematical value of a [`Value`].
pub enum ValueView {
    Scalar(Datum),
    Optional(Option<Box<ValueView>>),
    List(Seq<ValueView>),
    Record(Seq<ValueView>),
    Variant(nat, Seq<ValueView>),
}

/// The views of a sequence of values, element by element.
pub open spec fn view_values(items: Seq<Value>) -> Seq<ValueView>
    decreases items, 0nat,
{
    Seq::new(
        items.len(),
        |i: int|
            if 0 <= i < items.len() {
                view_value(items[i])
            } else {
                ValueView::Scalar(Datum::Bool(false))
            },
    )
}

/// The view of one value.
pub open spec fn view_value(v: Value) -> ValueView
    decreases v, 1nat,
{
    match v {
        Value::Scalar(d) => ValueView::Scalar(d),
        Value::Optional(None) => ValueView::Optional(None),
        Value::Optional(Some(inner)) => ValueView::Optional(Some(Box::new(view_value(*inner)))),
        Value::List(items) => ValueView::List(view_values(items@)),
        Value::Record(items) => ValueView::Record(view_values(items@)),
        Value::Variant(tag, items) => ValueView::Variant(tag as nat, view_values(items@)),
    }
}

impl View for Value {
    type V = ValueView;

    open spec fn view(&self) -> ValueView {
        view_value(*self)
    }
}

/// `view_values` is the element-wise view.
pub proof fn lemma_view_values(items: Seq<Value>)
    ensures
        view_values(items).len() == items.len(),
        forall|i: int| 0 <= i < items.len() ==> #[trigger] view_values(items)[i] == items[i]@,
{
}

/// Appending a value appends its view.
pub proof fn lemma_view_values_push(items: Seq<Value>, v: Value)
    ensures
        view_values(items.push(v)) == view_values(items).push(v@),
{
    lemma_view_values(items);
    lemma_view_values(items.push(v));
    assert(view_values(items.push(v)) =~= view_values(items).push(v@));
}

/// Replacing a value replaces its view.
pub proof fn lemma_view_values_update(items: Seq<Value>, i: int, v: Value)
    requires
        0 <= i < items.len(),
    ensures
        view_values(items.update(i, v)) == view_values(items).update(i, v@),
{
    lemma_view_values(items);
    lemma_view_values(items.update(i, v));
    assert(view_values(items.update(i, v)) =~= view_values(items).update(i, v@));
}

impl Value {
    /// A deep copy of this value.
    pub fn duplicate(&self) -> (r: Value)
        ensures
            r@ == self@,
        decreases self,
    {
        match self {
            Value::Scalar(d) => Value::Scalar(*d),
            Value::Optional(None) => Value::Optional(None),
            Value::Optional(Some(inner)) => Value::Optional(Some(Box::new(inner.duplicate()))),
            Value::List(items) => Value::List(duplicate_all(items)),
            Value::Record(items) => Value::Record(duplicate_all(items)),
            Value::Variant(tag, items) => Value::Variant(*tag, duplicate_all(items)),
        }
    }
}

/// Deep copies of `items`, in order.
pub fn duplicate_all(items: &Vec<Value>) -> (r: Vec<Value>)
    ensures
        view_values(r@) == view_values(items@),
    decreases items,
{
    let mut out: Vec<Value> = Vec::new();
    let mut i: usize = 0;
    proof {
        lemma_view_values(items@);
        lemma_view_values(out@);
    }
    while i < items.len()
        invariant
            i <= items.len(),
            out.len() == i,
            forall|k: int| 0 <= k < i ==> #[trigger] out[k]@ == items[k]@,
        decreases items.len() - i,
    {
        let copy = items[i].duplicate();
        out.push(copy);
        i = i + 1;
    }
    proof {
        lemma_view_values(items@);
        lemma_view_values(out@);
        assert(view_values(out@) =~= view_values(items@));
    }
    out
}

} // verus!
