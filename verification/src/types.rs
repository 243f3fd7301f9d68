//! Type descriptors: structural descriptions of the shape of a value, used
//! for compatibility checking between nodes and never for storage layout.

use vstd::prelude::*;

verus! {

/// The primitive kinds a concrete value can have.
#[derive(Clone, Copy, Debug, PartialEq, Eq, Structural, Hash)]
pub enum Primitive {
    Unit,
    Bool,
    U32,
    U64,
    F32,
    Color,
    Pair,
}

/// A structural description of a value's shape.
///
/// `Generic(n)` is the `n`-th type parameter of a constructor's declared
/// signature, `Concrete` a primitive kind, and `Fn(input, output)` the kind of
/// a node that maps `input` to `output`.
#[derive(Debug)]
pub enum Type {
    Generic(u32),
    Concrete(Primitive),
    Fn(Box<Type>, Box<Type>),
}

impl Clone for Type {
    fn clone(&self) -> (r: Self)
        ensures
            r == *self,
        decreases *self,
    {
        match self {
            Type::Generic(n) => Type::Generic(*n),
            Type::Concrete(p) => Type::Concrete(*p),
            Type::Fn(a, b) => Type::Fn(Box::new((&**a).clone()), Box::new((&**b).clone())),
        }
    }
}

impl PartialEq for Type {
    fn eq(&self, other: &Self) -> (r: bool)
        decreases *self,
    {
        match (self, other) {
            (Type::Generic(a), Type::Generic(b)) => *a == *b,
            (Type::Concrete(a), Type::Concrete(b)) => *a == *b,
            (Type::Fn(a1, b1), Type::Fn(a2, b2)) => (&**a1).eq(&**a2) && (&**b1).eq(&**b2),
            _ => false,
        }
    }
}

impl vstd::std_specs::cmp::PartialEqSpecImpl for Type {
    open spec fn obeys_eq_spec() -> bool {
        true
    }

    open spec fn eq_spec(&self, other: &Self) -> bool {
        *self == *other
    }
}

impl Type {
    /// The descriptor of the unit value.
    pub open spec fn unit() -> Type {
        Type::Concrete(Primitive::Unit)
    }

    /// Whether a value of type `self` is accepted where `to` is declared.
    ///
    /// Concrete types accept only themselves, function kinds are compared
    /// component by component, a declared type parameter accepts anything
    /// that is not itself a type parameter, and nothing else is accepted.
    pub open spec fn accepted_by(self, to: Type) -> bool
        decreases self,
    {
        match (self, to) {
            (Type::Concrete(a), Type::Concrete(b)) => a == b,
            (Type::Fn(a1, b1), Type::Fn(a2, b2)) => a1.accepted_by(*a2) && b1.accepted_by(*b2),
            (Type::Generic(_), _) => false,
            (_, Type::Generic(_)) => true,
            _ => false,
        }
    }

    /// Decides [`Type::accepted_by`].
    pub fn covariant(&self, to: &Type) -> (r: bool)
        ensures
            r == self.accepted_by(*to),
        decreases *self,
    {
        match (self, to) {
            (Type::Concrete(a), Type::Concrete(b)) => *a == *b,
            (Type::Fn(a1, b1), Type::Fn(a2, b2)) => (&**a1).covariant(&**a2) && (&**b1).covariant(
                &**b2,
            ),
            (Type::Generic(_), _) => false,
            (_, Type::Generic(_)) => true,
            _ => false,
        }
    }

    /// Whether the descriptor is a bare type parameter.
    pub fn is_generic(&self) -> (r: bool)
        ensures
            r == (*self is Generic),
    {
        match self {
            Type::Generic(_) => true,
            _ => false,
        }
    }

    /// Whether the descriptor is a function kind whose output is a bare type
    /// parameter.
    pub open spec fn has_generic_output(self) -> bool {
        match self {
            Type::Fn(_, b) => *b is Generic,
            _ => false,
        }
    }

    /// Decides [`Type::has_generic_output`].
    pub fn returns_generic(&self) -> (r: bool)
        ensures
            r == self.has_generic_output(),
    {
        match self {
            Type::Fn(_, b) => (&**b).is_generic(),
            _ => false,
        }
    }
}

/// A concrete type accepts exactly itself.
pub proof fn lemma_concrete_accepted(from: Type, p: Primitive)
    ensures
        from.accepted_by(Type::Concrete(p)) <==> from == Type::Concrete(p),
{
}

} // verus!
