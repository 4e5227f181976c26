//! The shape of a declared type, as far as the compiler looks at it: whether it is an
//! optional or a collection, what it wraps, and which wire type its name stands for.

use crate::plan::TypeRef;
use crate::text::{decimal, spec_decimal};
use crate::wire::Primitive;
use vstd::prelude::*;

verus! {

/// An argument between the angle brackets of a path segment.
#[derive(Debug)]
pub enum GenericArgument {
    /// A type.
    Type(TypeShape),
    /// Anything else: a lifetime, a constant, a binding.
    Other,
}

/// One segment of a type path.
#[derive(Debug)]
pub struct PathSegment {
    pub ident: String,
    /// The arguments between angle brackets, if the segment has any.
    pub arguments: Option<Vec<GenericArgument>>,
}

/// A declared type.
#[derive(Debug)]
pub enum TypeShape {
    /// A path such as `u8`, `Option<T>` or `a::B`; `qualified` if it begins with a
    /// qualified self type.
    Path { qualified: bool, segments: Vec<PathSegment> },
    /// Any other type: a reference, a tuple, an array.
    Other,
}

impl TypeShape {
    /// Whether the type is a path of the single segment `name`.
    pub open spec fn spec_is_named(self, name: Seq<char>) -> bool {
        match self {
            TypeShape::Path { segments, .. } => segments@.len() == 1 && segments@[0].ident@
                == name,
            TypeShape::Other => false,
        }
    }

    /// Whether the type is an optional.
    pub open spec fn spec_is_option(self) -> bool {
        self.spec_is_named("Option"@)
    }

    /// Whether the type is a collection.
    pub open spec fn spec_is_collection(self) -> bool {
        self.spec_is_named("Vec"@)
    }

    /// Whether the type wraps another: an optional or a collection.
    pub open spec fn spec_is_wrapped(self) -> bool {
        self.spec_is_option() || self.spec_is_collection()
    }

    /// The type that a wrapper wraps: the only argument of the only segment of an
    /// unqualified path, if that argument is a type.
    pub open spec fn spec_inner_type(self) -> Option<TypeShape> {
        match self {
            TypeShape::Path { qualified, segments } => if !qualified && segments@.len() == 1 {
                match segments@[0].arguments {
                    Some(args) => if args@.len() == 1 {
                        match args@[0] {
                            GenericArgument::Type(inner) => Some(inner),
                            GenericArgument::Other => None,
                        }
                    } else {
                        None
                    },
                    None => None,
                }
            } else {
                None
            },
            TypeShape::Other => None,
        }
    }

    /// The name of a type that is a bare identifier: an unqualified path of one segment
    /// without arguments.
    pub open spec fn spec_bare_name(self) -> Option<String> {
        match self {
            TypeShape::Path { qualified, segments } => if !qualified && segments@.len() == 1
                && segments@[0].arguments is None {
                Some(segments@[0].ident)
            } else {
                None
            },
            TypeShape::Other => None,
        }
    }

    fn is_named(&self, name: &str) -> (b: bool)
        ensures
            b == self.spec_is_named(name@),
    {
        match self {
            TypeShape::Path { segments, .. } => {
                segments.len() == 1 && segments[0].ident == String::from_str(name)
            },
            TypeShape::Other => false,
        }
    }

    /// Whether the type is `Option<..>`.
    pub fn is_option(&self) -> (b: bool)
        ensures
            b == self.spec_is_option(),
    {
        self.is_named("Option")
    }

    /// Whether the type is `Vec<..>`.
    pub fn is_collection(&self) -> (b: bool)
        ensures
            b == self.spec_is_collection(),
    {
        self.is_named("Vec")
    }

    /// Whether the type wraps another: an optional or a collection.
    pub fn is_wrapped(&self) -> (b: bool)
        ensures
            b == self.spec_is_wrapped(),
    {
        self.is_option() || self.is_collection()
    }

    /// The type that a wrapper wraps.
    pub fn inner_type(&self) -> (r: Option<&TypeShape>)
        ensures
            match self.spec_inner_type() {
                Some(inner) => r matches Some(t) && *t == inner,
                None => r is None,
            },
    {
        let TypeShape::Path { qualified, segments } = self else {
            return None;
        };
        if *qualified {
            return None;
        }
        if segments.len() != 1 {
            return None;
        }
        let Some(args) = &segments[0].arguments else {
            return None;
        };
        if args.len() != 1 {
            return None;
        }
        let GenericArgument::Type(inner_type) = &args[0] else {
            return None;
        };
        Some(inner_type)
    }

    /// The name of a type that is a bare identifier.
    pub fn bare_name(&self) -> (r: Option<&String>)
        ensures
            match self.spec_bare_name() {
                Some(name) => r matches Some(n) && *n == name,
                None => r is None,
            },
    {
        match self {
            TypeShape::Path { qualified, segments } => {
                if !*qualified && segments.len() == 1 && segments[0].arguments.is_none() {
                    Some(&segments[0].ident)
                } else {
                    None
                }
            },
            TypeShape::Other => None,
        }
    }
}

/// The unsigned primitive whose name is `name`, looking at the widths from `from` up to
/// thirty-two: `u<width>`.
pub open spec fn spec_unsigned_named(name: Seq<char>, from: nat) -> Option<Primitive>
    decreases 33 - from,
{
    if from > 32 {
        None
    } else if name == "u"@ + spec_decimal(from) {
        Some(Primitive::UInt(from as u8))
    } else {
        spec_unsigned_named(name, from + 1)
    }
}

/// The primitive whose name is `name`: `bool` is a flag that travels as one byte, zero for
/// false and anything else for true; `u1` to `u32` are the unsigned integers of that many
/// bits.
pub open spec fn spec_primitive_named(name: Seq<char>) -> Option<Primitive> {
    if name == "bool"@ {
        Some(Primitive::Bool(8))
    } else {
        spec_unsigned_named(name, 1)
    }
}

/// The first position at or after `from` at which `names` holds `name`.
pub open spec fn spec_position_of(names: Seq<String>, name: Seq<char>, from: nat) -> Option<
    usize,
>
    decreases names.len() - from,
{
    if from >= names.len() {
        None
    } else if names[from as int]@ == name {
        Some(from as usize)
    } else {
        spec_position_of(names, name, from + 1)
    }
}

/// The wire type that a name stands for: a primitive, or the type of that name in
/// `names`, by its position.
pub open spec fn spec_type_named(name: Seq<char>, names: Seq<String>) -> Option<TypeRef> {
    match spec_primitive_named(name) {
        Some(p) => Some(TypeRef::Primitive(p)),
        None => match spec_position_of(names, name, 0) {
            Some(index) => Some(TypeRef::Named(index)),
            None => None,
        },
    }
}

/// The primitive whose name is `name`, if there is one.
pub fn primitive_named(name: &String) -> (r: Option<Primitive>)
    ensures
        r == spec_primitive_named(name@),
{
    if *name == String::from_str("bool") {
        return Some(Primitive::Bool(8));
    }
    let mut width: u8 = 1;
    while width <= 32
        invariant
            1 <= width <= 33,
            name@ != "bool"@,
            spec_unsigned_named(name@, width as nat) == spec_unsigned_named(name@, 1),
        decreases 33 - width,
    {
        let mut candidate = String::from_str("u");
        candidate.append(decimal(width as u64).as_str());
        if *name == candidate {
            return Some(Primitive::UInt(width));
        }
        width = width + 1;
    }
    None
}

/// The first position at which `names` holds `name`.
pub fn position_of(names: &Vec<String>, name: &String) -> (r: Option<usize>)
    ensures
        r == spec_position_of(names@, name@, 0),
{
    let mut i: usize = 0;
    while i < names.len()
        invariant
            i <= names.len(),
            spec_position_of(names@, name@, i as nat) == spec_position_of(names@, name@, 0),
        decreases names.len() - i,
    {
        if names[i] == *name {
            return Some(i);
        }
        i = i + 1;
    }
    None
}

/// The wire type that a name stands for.
pub fn type_named(name: &String, names: &Vec<String>) -> (r: Option<TypeRef>)
    ensures
        r == spec_type_named(name@, names@),
{
    match primitive_named(name) {
        Some(p) => Some(TypeRef::Primitive(p)),
        None => match position_of(names, name) {
            Some(index) => Some(TypeRef::Named(index)),
            None => None,
        },
    }
}

} // verus!
