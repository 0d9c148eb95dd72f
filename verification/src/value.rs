//! Program values: literals with their visibility modes, literal types,
//! identifiers, and composite values.
use vstd::prelude::*;
use crate::field::Field;

verus! {

/// The visibility of a value in a circuit.
#[derive(Clone, Copy, Debug, PartialEq, Eq, Structural)]
pub enum Mode {
    Constant,
    Public,
    Private,
}

/// A program identifier, held as its field encoding and its size in bits.
#[derive(Clone, Copy, Debug, PartialEq, Eq, Structural)]
pub struct Identifier {
    pub field: Field,
    pub size: u8,
}

/// A point of the group, by its affine coordinates.
#[derive(Clone, Copy, Debug, PartialEq, Eq, Structural)]
pub struct Group {
    pub x: Field,
    pub y: Field,
}

/// An element of the scalar field of the group, by its two 128-bit limbs.
#[derive(Clone, Copy, Debug, PartialEq, Eq, Structural)]
pub struct Scalar {
    pub lo: u128,
    pub hi: u128,
}

/// An account address: a point of the group.
#[derive(Clone, Copy, Debug, PartialEq, Eq, Structural)]
pub struct Address {
    pub point: Group,
}

/// A literal value together with its mode.
#[derive(Debug)]
pub enum Literal {
    Address(Mode, Address),
    Boolean(Mode, bool),
    Field(Mode, Field),
    Group(Mode, Group),
    I8(Mode, i8),
    I16(Mode, i16),
    I32(Mode, i32),
    I64(Mode, i64),
    I128(Mode, i128),
    U8(Mode, u8),
    U16(Mode, u16),
    U32(Mode, u32),
    U64(Mode, u64),
    U128(Mode, u128),
    Scalar(Mode, Scalar),
    String(Mode, Vec<u8>),
}

/// The type of a literal, together with its mode.
#[derive(Clone, Copy, Debug, PartialEq, Eq, Structural)]
pub enum LiteralType {
    Address(Mode),
    Boolean(Mode),
    Field(Mode),
    Group(Mode),
    I8(Mode),
    I16(Mode),
    I32(Mode),
    I64(Mode),
    I128(Mode),
    U8(Mode),
    U16(Mode),
    U32(Mode),
    U64(Mode),
    U128(Mode),
    Scalar(Mode),
    String(Mode),
}

/// Either a literal or a literal type.
#[derive(Debug)]
pub enum LiteralOrType {
    Literal(Literal),
    Type(LiteralType),
}

/// A value held in a register: a literal, or a named composite of literals.
#[derive(Debug)]
pub enum Value {
    Literal(Literal),
    Composite(Identifier, Vec<Literal>),
}

/// The type (with mode) of a literal.
pub open spec fn literal_type(l: Literal) -> LiteralType {
    match l {
        Literal::Address(m, _) => LiteralType::Address(m),
        Literal::Boolean(m, _) => LiteralType::Boolean(m),
        Literal::Field(m, _) => LiteralType::Field(m),
        Literal::Group(m, _) => LiteralType::Group(m),
        Literal::I8(m, _) => LiteralType::I8(m),
        Literal::I16(m, _) => LiteralType::I16(m),
        Literal::I32(m, _) => LiteralType::I32(m),
        Literal::I64(m, _) => LiteralType::I64(m),
        Literal::I128(m, _) => LiteralType::I128(m),
        Literal::U8(m, _) => LiteralType::U8(m),
        Literal::U16(m, _) => LiteralType::U16(m),
        Literal::U32(m, _) => LiteralType::U32(m),
        Literal::U64(m, _) => LiteralType::U64(m),
        Literal::U128(m, _) => LiteralType::U128(m),
        Literal::Scalar(m, _) => LiteralType::Scalar(m),
        Literal::String(m, _) => LiteralType::String(m),
    }
}

/// The literal type of a literal-or-type.
pub open spec fn spec_type_of(lt: LiteralOrType) -> LiteralType {
    match lt {
        LiteralOrType::Literal(l) => literal_type(l),
        LiteralOrType::Type(t) => t,
    }
}

/// Two literals are the same: same kind, mode and value (a string by its bytes).
pub open spec fn same_literal(a: Literal, b: Literal) -> bool {
    match (a, b) {
        (Literal::String(ma, sa), Literal::String(mb, sb)) => ma == mb && sa@ == sb@,
        _ => a == b,
    }
}

impl Literal {
    /// Returns the type of the literal.
    pub fn type_(&self) -> (r: LiteralType)
        ensures
            r == literal_type(*self),
    {
        match self {
            Literal::Address(m, _) => LiteralType::Address(*m),
            Literal::Boolean(m, _) => LiteralType::Boolean(*m),
            Literal::Field(m, _) => LiteralType::Field(*m),
            Literal::Group(m, _) => LiteralType::Group(*m),
            Literal::I8(m, _) => LiteralType::I8(*m),
            Literal::I16(m, _) => LiteralType::I16(*m),
            Literal::I32(m, _) => LiteralType::I32(*m),
            Literal::I64(m, _) => LiteralType::I64(*m),
            Literal::I128(m, _) => LiteralType::I128(*m),
            Literal::U8(m, _) => LiteralType::U8(*m),
            Literal::U16(m, _) => LiteralType::U16(*m),
            Literal::U32(m, _) => LiteralType::U32(*m),
            Literal::U64(m, _) => LiteralType::U64(*m),
            Literal::U128(m, _) => LiteralType::U128(*m),
            Literal::Scalar(m, _) => LiteralType::Scalar(*m),
            Literal::String(m, _) => LiteralType::String(*m),
        }
    }

    /// Returns a copy of the literal.
    pub fn copy(&self) -> (r: Literal)
        ensures
            same_literal(r, *self),
    {
        match self {
            Literal::Address(m, v) => Literal::Address(*m, *v),
            Literal::Boolean(m, v) => Literal::Boolean(*m, *v),
            Literal::Field(m, v) => Literal::Field(*m, *v),
            Literal::Group(m, v) => Literal::Group(*m, *v),
            Literal::I8(m, v) => Literal::I8(*m, *v),
            Literal::I16(m, v) => Literal::I16(*m, *v),
            Literal::I32(m, v) => Literal::I32(*m, *v),
            Literal::I64(m, v) => Literal::I64(*m, *v),
            Literal::I128(m, v) => Literal::I128(*m, *v),
            Literal::U8(m, v) => Literal::U8(*m, *v),
            Literal::U16(m, v) => Literal::U16(*m, *v),
            Literal::U32(m, v) => Literal::U32(*m, *v),
            Literal::U64(m, v) => Literal::U64(*m, *v),
            Literal::U128(m, v) => Literal::U128(*m, *v),
            Literal::Scalar(m, v) => Literal::Scalar(*m, *v),
            Literal::String(m, v) => {
                let bytes = v.clone();
                assert(bytes@ =~= v@);
                Literal::String(*m, bytes)
            },
        }
    }
}

impl LiteralOrType {
    /// Returns the literal type: the type of the literal, or the type itself.
    pub fn type_(&self) -> (r: LiteralType)
        ensures
            r == spec_type_of(*self),
    {
        match self {
            LiteralOrType::Literal(l) => l.type_(),
            LiteralOrType::Type(t) => *t,
        }
    }
}

} // verus!
