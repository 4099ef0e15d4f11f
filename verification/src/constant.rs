//! Primitive constants of the core language.

use vstd::prelude::*;

verus! {

/// A primitive constant.
///
/// Floating point constants are carried as their raw bit patterns, so that
/// the kernel itself never computes with floating point numbers; equality on
/// constants is bitwise on the stored representation.
#[derive(Debug, PartialEq, Eq)]
pub enum Constant {
    U8(u8),
    U16(u16),
    U32(u32),
    U64(u64),
    S8(i8),
    S16(i16),
    S32(i32),
    S64(i64),
    /// A 32-bit floating point constant, as raw bits.
    F32(u32),
    /// A 64-bit floating point constant, as raw bits.
    F64(u64),
    Char(char),
    String(String),
}

/// The mathematical mirror of [`Constant`]: identical except that string
/// payloads are character sequences, so that equality is equality of content.
pub ghost enum SpecConstant {
    U8(u8),
    U16(u16),
    U32(u32),
    U64(u64),
    S8(i8),
    S16(i16),
    S32(i32),
    S64(i64),
    F32(u32),
    F64(u64),
    Char(char),
    Str(Seq<char>),
}

impl View for Constant {
    type V = SpecConstant;

    open spec fn view(&self) -> SpecConstant {
        match self {
            Constant::U8(v) => SpecConstant::U8(*v),
            Constant::U16(v) => SpecConstant::U16(*v),
            Constant::U32(v) => SpecConstant::U32(*v),
            Constant::U64(v) => SpecConstant::U64(*v),
            Constant::S8(v) => SpecConstant::S8(*v),
            Constant::S16(v) => SpecConstant::S16(*v),
            Constant::S32(v) => SpecConstant::S32(*v),
            Constant::S64(v) => SpecConstant::S64(*v),
            Constant::F32(v) => SpecConstant::F32(*v),
            Constant::F64(v) => SpecConstant::F64(*v),
            Constant::Char(v) => SpecConstant::Char(*v),
            Constant::String(v) => SpecConstant::Str(v@),
        }
    }
}

impl Constant {
    /// Bitwise equality on the stored representation.
    pub fn bitwise_eq(&self, other: &Constant) -> (r: bool)
        ensures
            r == (self@ == other@),
    {
        match (self, other) {
            (Constant::U8(a), Constant::U8(b)) => *a == *b,
            (Constant::U16(a), Constant::U16(b)) => *a == *b,
            (Constant::U32(a), Constant::U32(b)) => *a == *b,
            (Constant::U64(a), Constant::U64(b)) => *a == *b,
            (Constant::S8(a), Constant::S8(b)) => *a == *b,
            (Constant::S16(a), Constant::S16(b)) => *a == *b,
            (Constant::S32(a), Constant::S32(b)) => *a == *b,
            (Constant::S64(a), Constant::S64(b)) => *a == *b,
            (Constant::F32(a), Constant::F32(b)) => *a == *b,
            (Constant::F64(a), Constant::F64(b)) => *a == *b,
            (Constant::Char(a), Constant::Char(b)) => *a == *b,
            (Constant::String(a), Constant::String(b)) => a.eq(b),
            _ => false,
        }
    }

    /// A copy of the constant with the same content.
    pub fn duplicate(&self) -> (r: Constant)
        ensures
            r@ == self@,
    {
        match self {
            Constant::U8(v) => Constant::U8(*v),
            Constant::U16(v) => Constant::U16(*v),
            Constant::U32(v) => Constant::U32(*v),
            Constant::U64(v) => Constant::U64(*v),
            Constant::S8(v) => Constant::S8(*v),
            Constant::S16(v) => Constant::S16(*v),
            Constant::S32(v) => Constant::S32(*v),
            Constant::S64(v) => Constant::S64(*v),
            Constant::F32(v) => Constant::F32(*v),
            Constant::F64(v) => Constant::F64(*v),
            Constant::Char(v) => Constant::Char(*v),
            Constant::String(v) => Constant::String(v.clone()),
        }
    }
}

} // verus!
