//! Erased values: a value carried together with a witness of its true type,
//! recoverable only through a checked downcast.

use vstd::prelude::*;
use crate::types::{Primitive, Type};

verus! {

/// An RGBA colour; each channel holds the bit pattern of a 32-bit float.
#[derive(Clone, Copy, Debug, PartialEq, Eq, Structural, Hash)]
pub struct Color {
    pub r: u32,
    pub g: u32,
    pub b: u32,
    pub a: u32,
}

/// A value together with the tag of its type.
#[derive(Clone, Copy, Debug, PartialEq, Eq, Structural, Hash)]
pub enum TaggedValue {
    Unit,
    Bool(bool),
    U32(u32),
    U64(u64),
    Color(Color),
    Pair(u32, u32),
}

/// The failure of a checked downcast: a value tagged `found` met a consumer
/// that expects `expected`.
#[derive(Clone, Copy, Debug, PartialEq, Eq, Structural, Hash)]
pub struct DowncastError {
    pub expected: Primitive,
    pub found: Primitive,
}

impl TaggedValue {
    /// The tag that witnesses the value's type.
    pub open spec fn tag(self) -> Primitive {
        match self {
            TaggedValue::Unit => Primitive::Unit,
            TaggedValue::Bool(_) => Primitive::Bool,
            TaggedValue::U32(_) => Primitive::U32,
            TaggedValue::U64(_) => Primitive::U64,
            TaggedValue::Color(_) => Primitive::Color,
            TaggedValue::Pair(_, _) => Primitive::Pair,
        }
    }

    /// The tag of the value.
    pub fn primitive(&self) -> (p: Primitive)
        ensures
            p == self.tag(),
    {
        match self {
            TaggedValue::Unit => Primitive::Unit,
            TaggedValue::Bool(_) => Primitive::Bool,
            TaggedValue::U32(_) => Primitive::U32,
            TaggedValue::U64(_) => Primitive::U64,
            TaggedValue::Color(_) => Primitive::Color,
            TaggedValue::Pair(_, _) => Primitive::Pair,
        }
    }

    /// The type descriptor of the value.
    pub fn ty(&self) -> (t: Type)
        ensures
            t == Type::Concrete(self.tag()),
    {
        Type::Concrete(self.primitive())
    }
}

/// A statically typed value that can be erased into a [`TaggedValue`] and
/// recovered from one by a checked downcast.
pub trait DynAny: Sized {
    /// The tag every value of this type carries once erased.
    spec fn static_type() -> Primitive;

    /// The erased form of the value.
    spec fn erased(self) -> TaggedValue;

    /// Erasure carries the type's tag and loses nothing.
    proof fn erasure_laws(a: Self, b: Self)
        ensures
            a.erased().tag() == Self::static_type(),
            a.erased() == b.erased() ==> a == b,
    ;

    /// Every value carrying the type's tag is the erasure of some value.
    proof fn erasure_covers(v: TaggedValue) -> (x: Self)
        requires
            v.tag() == Self::static_type(),
        ensures
            x.erased() == v,
    ;

    /// The tag every value of this type carries once erased.
    fn type_tag() -> (p: Primitive)
        ensures
            p == Self::static_type(),
    ;

    /// Erases the value.
    fn upcast(self) -> (v: TaggedValue)
        ensures
            v == self.erased(),
    ;

    /// Recovers a typed value; fails exactly when the tag of `v` is not the
    /// tag of this type.
    fn downcast(v: TaggedValue) -> (r: Result<Self, DowncastError>)
        ensures
            r == if v.tag() == Self::static_type() {
                Ok::<Self, DowncastError>(choose|x: Self| x.erased() == v)
            } else {
                Err::<Self, DowncastError>(
                    DowncastError { expected: Self::static_type(), found: v.tag() },
                )
            },
    ;
}

/// What a checked downcast of `v` to `T` yields: the value that `v` is the
/// erased form of where `v` carries the tag of `T`, and else the mismatch.
pub open spec fn recovered<T: DynAny>(v: TaggedValue) -> Result<T, DowncastError> {
    if v.tag() == T::static_type() {
        Ok(choose|x: T| x.erased() == v)
    } else {
        Err(DowncastError { expected: T::static_type(), found: v.tag() })
    }
}

impl DynAny for () {
    open spec fn static_type() -> Primitive {
        Primitive::Unit
    }

    fn type_tag() -> (p: Primitive) {
        Primitive::Unit
    }

    open spec fn erased(self) -> TaggedValue {
        TaggedValue::Unit
    }

    proof fn erasure_laws(a: Self, b: Self) {
    }

    proof fn erasure_covers(v: TaggedValue) -> (x: Self) {
        ()
    }

    fn upcast(self) -> (v: TaggedValue) {
        TaggedValue::Unit
    }

    fn downcast(v: TaggedValue) -> (r: Result<Self, DowncastError>) {
        match v {
            TaggedValue::Unit => {
                assert(().erased() == v);
                Ok(())
            },
            _ => Err(DowncastError { expected: Primitive::Unit, found: v.primitive() }),
        }
    }
}

impl DynAny for bool {
    open spec fn static_type() -> Primitive {
        Primitive::Bool
    }

    fn type_tag() -> (p: Primitive) {
        Primitive::Bool
    }

    open spec fn erased(self) -> TaggedValue {
        TaggedValue::Bool(self)
    }

    proof fn erasure_laws(a: Self, b: Self) {
    }

    proof fn erasure_covers(v: TaggedValue) -> (x: Self) {
        v->Bool_0
    }

    fn upcast(self) -> (v: TaggedValue) {
        TaggedValue::Bool(self)
    }

    fn downcast(v: TaggedValue) -> (r: Result<Self, DowncastError>) {
        match v {
            TaggedValue::Bool(x) => {
                assert(x.erased() == v);
                Ok(x)
            },
            _ => Err(DowncastError { expected: Primitive::Bool, found: v.primitive() }),
        }
    }
}

impl DynAny for u32 {
    open spec fn static_type() -> Primitive {
        Primitive::U32
    }

    fn type_tag() -> (p: Primitive) {
        Primitive::U32
    }

    open spec fn erased(self) -> TaggedValue {
        TaggedValue::U32(self)
    }

    proof fn erasure_laws(a: Self, b: Self) {
    }

    proof fn erasure_covers(v: TaggedValue) -> (x: Self) {
        v->U32_0
    }

    fn upcast(self) -> (v: TaggedValue) {
        TaggedValue::U32(self)
    }

    fn downcast(v: TaggedValue) -> (r: Result<Self, DowncastError>) {
        match v {
            TaggedValue::U32(x) => {
                assert(x.erased() == v);
                Ok(x)
            },
            _ => Err(DowncastError { expected: Primitive::U32, found: v.primitive() }),
        }
    }
}

impl DynAny for u64 {
    open spec fn static_type() -> Primitive {
        Primitive::U64
    }

    fn type_tag() -> (p: Primitive) {
        Primitive::U64
    }

    open spec fn erased(self) -> TaggedValue {
        TaggedValue::U64(self)
    }

    proof fn erasure_laws(a: Self, b: Self) {
    }

    proof fn erasure_covers(v: TaggedValue) -> (x: Self) {
        v->U64_0
    }

    fn upcast(self) -> (v: TaggedValue) {
        TaggedValue::U64(self)
    }

    fn downcast(v: TaggedValue) -> (r: Result<Self, DowncastError>) {
        match v {
            TaggedValue::U64(x) => {
                assert(x.erased() == v);
                Ok(x)
            },
            _ => Err(DowncastError { expected: Primitive::U64, found: v.primitive() }),
        }
    }
}

impl DynAny for Color {
    open spec fn static_type() -> Primitive {
        Primitive::Color
    }

    fn type_tag() -> (p: Primitive) {
        Primitive::Color
    }

    open spec fn erased(self) -> TaggedValue {
        TaggedValue::Color(self)
    }

    proof fn erasure_laws(a: Self, b: Self) {
    }

    proof fn erasure_covers(v: TaggedValue) -> (x: Self) {
        v->Color_0
    }

    fn upcast(self) -> (v: TaggedValue) {
        TaggedValue::Color(self)
    }

    fn downcast(v: TaggedValue) -> (r: Result<Self, DowncastError>) {
        match v {
            TaggedValue::Color(x) => {
                assert(x.erased() == v);
                Ok(x)
            },
            _ => Err(DowncastError { expected: Primitive::Color, found: v.primitive() }),
        }
    }
}

impl DynAny for (u32, u32) {
    open spec fn static_type() -> Primitive {
        Primitive::Pair
    }

    fn type_tag() -> (p: Primitive) {
        Primitive::Pair
    }

    open spec fn erased(self) -> TaggedValue {
        TaggedValue::Pair(self.0, self.1)
    }

    proof fn erasure_laws(a: Self, b: Self) {
    }

    proof fn erasure_covers(v: TaggedValue) -> (x: Self) {
        (v->Pair_0, v->Pair_1)
    }

    fn upcast(self) -> (v: TaggedValue) {
        TaggedValue::Pair(self.0, self.1)
    }

    fn downcast(v: TaggedValue) -> (r: Result<Self, DowncastError>) {
        match v {
            TaggedValue::Pair(a, b) => {
                assert((a, b).erased() == v);
                Ok((a, b))
            },
            _ => Err(DowncastError { expected: Primitive::Pair, found: v.primitive() }),
        }
    }
}

/// Erasing a value and recovering it gives the value back.
pub proof fn lemma_recover_erased<T: DynAny>(x: T)
    ensures
        recovered::<T>(x.erased()) == Ok::<T, DowncastError>(x),
{
    T::erasure_laws(x, x);
    let y = choose|y: T| y.erased() == x.erased();
    T::erasure_laws(y, x);
}

/// What is recovered from an erased value is a value with that erased form.
pub proof fn lemma_recovered_erases<T: DynAny>(v: TaggedValue)
    requires
        v.tag() == T::static_type(),
    ensures
        recovered::<T>(v) is Ok,
        recovered::<T>(v)->Ok_0.erased() == v,
{
    let x = T::erasure_covers(v);
}

/// Downcast safety: an erased value of one type, handed to a consumer that
/// expects another, is refused with the mismatch reported; no value of the
/// expected type is made up for it.
pub proof fn lemma_downcast_rejects<A: DynAny, B: DynAny>(a: A)
    requires
        A::static_type() != B::static_type(),
    ensures
        recovered::<B>(a.erased()) == Err::<B, DowncastError>(
            DowncastError { expected: B::static_type(), found: A::static_type() },
        ),
{
    A::erasure_laws(a, a);
}

} // verus!
