//! The identity of a field: a name, or a position for tuple-like shapes.

use crate::text::{numbered, spec_decimal};
use vstd::prelude::*;

verus! {

/// A field's identity.
#[derive(Debug)]
pub enum Member {
    /// A field that was declared with a name.
    Named(String),
    /// A positional field, by its index.
    Unnamed(u32),
}

/// The mathematical value of a [`Member`].
pub enum MemberView {
    Named(Seq<char>),
    Unnamed(u32),
}

impl View for Member {
    type V = MemberView;

    open spec fn view(&self) -> MemberView {
        match self {
            Member::Named(name) => MemberView::Named(name@),
            Member::Unnamed(index) => MemberView::Unnamed(*index),
        }
    }
}

impl MemberView {
    /// The text shown to people: the name, or `Field <index>`.
    pub open spec fn friendly(self) -> Seq<char> {
        match self {
            MemberView::Named(name) => name,
            MemberView::Unnamed(index) => "Field "@ + spec_decimal(index as nat),
        }
    }

    /// The name of the local that holds the field: the name, or `field_<index>`.
    pub open spec fn variable(self) -> Seq<char> {
        match self {
            MemberView::Named(name) => name,
            MemberView::Unnamed(index) => "field_"@ + spec_decimal(index as nat),
        }
    }

    /// Whether the field was declared with a name.
    pub open spec fn is_named(self) -> bool {
        self is Named
    }
}

impl Member {
    /// Builds a field identity from its declared name, or from its position when it has none.
    pub fn from_ident_or_index(ident: Option<String>, index: u32) -> (m: Member)
        ensures
            m == match ident {
                Some(name) => Member::Named(name),
                None => Member::Unnamed(index),
            },
    {
        match ident {
            Some(name) => Member::Named(name),
            None => Member::Unnamed(index),
        }
    }

    /// The field's identity as text for messages.
    pub fn as_friendly_string(&self) -> (s: String)
        ensures
            s@ == self@.friendly(),
    {
        match self {
            Member::Named(name) => name.clone(),
            Member::Unnamed(index) => numbered("Field ", *index as u64),
        }
    }

    /// The field's identity as the name of a local variable.
    pub fn as_variable_name(&self) -> (s: String)
        ensures
            s@ == self@.variable(),
    {
        match self {
            Member::Named(name) => name.clone(),
            Member::Unnamed(index) => numbered("field_", *index as u64),
        }
    }

    /// Whether the field was declared with a name.
    pub fn is_named(&self) -> (b: bool)
        ensures
            b == self@.is_named(),
    {
        match self {
            Member::Named(_) => true,
            Member::Unnamed(_) => false,
        }
    }

    /// A copy of this identity.
    pub fn duplicate(&self) -> (m: Member)
        ensures
            m == *self,
    {
        match self {
            Member::Named(name) => Member::Named(name.clone()),
            Member::Unnamed(index) => Member::Unnamed(*index),
        }
    }
}

} // verus!
