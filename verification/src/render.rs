//! Values as text, for messages.

use crate::text::{decimal, spec_decimal};
use crate::value::{lemma_view_values, view_values, Datum, Value, ValueView};
use vstd::prelude::*;

verus! {

/// A scalar as text: `true`, `false`, or a decimal numeral.
pub open spec fn datum_text(d: Datum) -> Seq<char> {
    match d {
        Datum::Bool(true) => "true"@,
        Datum::Bool(false) => "false"@,
        Datum::UInt(n) => spec_decimal(n as nat),
    }
}

/// The first `upto` of `items` as text, separated by `", "`.
pub open spec fn values_text(items: Seq<ValueView>, upto: nat) -> Seq<char>
    decreases items, upto,
{
    if upto == 0 || upto > items.len() {
        Seq::empty()
    } else if upto == 1 {
        value_text(items[0])
    } else {
        values_text(items, (upto - 1) as nat) + ", "@ + value_text(items[upto - 1])
    }
}

/// A value as text: a scalar as itself, an optional as `None` or `Some(..)`, a list in
/// square brackets, a record in braces, a variant as `#<position>(..)`.
pub open spec fn value_text(v: ValueView) -> Seq<char>
    decreases v,
{
    match v {
        ValueView::Scalar(d) => datum_text(d),
        ValueView::Optional(None) => "None"@,
        ValueView::Optional(Some(inner)) => "Some("@ + value_text(*inner) + ")"@,
        ValueView::List(items) => "["@ + values_text(items, items.len()) + "]"@,
        ValueView::Record(items) => "{"@ + values_text(items, items.len()) + "}"@,
        ValueView::Variant(tag, items) => "#"@ + spec_decimal(tag) + "("@ + values_text(
            items,
            items.len(),
        ) + ")"@,
    }
}

/// Renders a scalar.
pub fn render_datum(d: Datum) -> (s: String)
    ensures
        s@ == datum_text(d),
{
    match d {
        Datum::Bool(true) => String::from_str("true"),
        Datum::Bool(false) => String::from_str("false"),
        Datum::UInt(n) => decimal(n),
    }
}

/// Renders a value.
pub fn render_value(v: &Value) -> (s: String)
    ensures
        s@ == value_text(v@),
    decreases v,
{
    match v {
        Value::Scalar(d) => render_datum(*d),
        Value::Optional(None) => String::from_str("None"),
        Value::Optional(Some(inner)) => {
            let mut s = String::from_str("Some(");
            s.append(render_value(inner).as_str());
            s.append(")");
            s
        },
        Value::List(items) => {
            let mut s = String::from_str("[");
            s.append(render_values(items).as_str());
            s.append("]");
            s
        },
        Value::Record(items) => {
            let mut s = String::from_str("{");
            s.append(render_values(items).as_str());
            s.append("}");
            s
        },
        Value::Variant(tag, items) => {
            let mut s = String::from_str("#");
            s.append(decimal(*tag as u64).as_str());
            s.append("(");
            s.append(render_values(items).as_str());
            s.append(")");
            s
        },
    }
}

/// Renders values separated by `", "`.
pub fn render_values(items: &Vec<Value>) -> (s: String)
    ensures
        s@ == values_text(view_values(items@), items@.len()),
    decreases items,
{
    let mut s = String::new();
    let mut i: usize = 0;
    proof {
        lemma_view_values(items@);
    }
    while i < items.len()
        invariant
            i <= items.len(),
            view_values(items@).len() == items@.len(),
            forall|k: int| 0 <= k < items@.len() ==> #[trigger] view_values(items@)[k] == items@[k]@,
            s@ == values_text(view_values(items@), i as nat),
        decreases items.len() - i,
    {
        let ghost before = s@;
        if i > 0 {
            s.append(", ");
        }
        s.append(render_value(&items[i]).as_str());
        proof {
            if i == 0 {
                assert(s@ =~= value_text(items@[0]@));
            } else {
                assert(s@ =~= before + ", "@ + value_text(items@[i as int]@));
            }
        }
        i = i + 1;
    }
    s
}

} // verus!
