//! Types: the primitive types built into DSDL, and composite (nested) types.

use vstd::prelude::*;
use crate::ast::ident::Ident;
use crate::text::all_digits;
use crate::text::chars_of;
use crate::text::decimal;
use crate::text::digit_value;
use crate::text::digits_value;
use crate::text::is_digit_char;
use crate::text::lemma_decimal;
use crate::text::lemma_decimal_of_digits;
use crate::text::push_char;
use crate::text::push_chars;
use crate::text::push_decimal;
use crate::text::starts_with_at;
use crate::text::string_of_range;

verus! {

/// A UAVCAN data type.
#[derive(Clone, Debug, PartialEq, Eq)]
pub enum Ty {
    Primitive(PrimitiveType),
    Composite(CompositeType),
}

/// A composite type is what the UAVCAN specification calls a "nested data structure":
/// any type that is not primitive (or an array of a primitive type).
#[derive(Clone, Debug, PartialEq, Eq)]
pub struct CompositeType {
    pub namespace: Option<Ident>,
    pub name: Ident,
}

/// A UAVCAN primitive data type.
///
/// These types are built in: any data type of any namespace can refer to them directly.
#[derive(Clone, Copy, Debug, PartialEq, Eq, Structural)]
pub enum PrimitiveType {
    Bool,

    Uint2, Uint3, Uint4, Uint5, Uint6, Uint7, Uint8, Uint9,
    Uint10, Uint11, Uint12, Uint13, Uint14, Uint15, Uint16, Uint17,
    Uint18, Uint19, Uint20, Uint21, Uint22, Uint23, Uint24, Uint25,
    Uint26, Uint27, Uint28, Uint29, Uint30, Uint31, Uint32, Uint33,
    Uint34, Uint35, Uint36, Uint37, Uint38, Uint39, Uint40, Uint41,
    Uint42, Uint43, Uint44, Uint45, Uint46, Uint47, Uint48, Uint49,
    Uint50, Uint51, Uint52, Uint53, Uint54, Uint55, Uint56, Uint57,
    Uint58, Uint59, Uint60, Uint61, Uint62, Uint63, Uint64,

    Int2, Int3, Int4, Int5, Int6, Int7, Int8, Int9,
    Int10, Int11, Int12, Int13, Int14, Int15, Int16, Int17,
    Int18, Int19, Int20, Int21, Int22, Int23, Int24, Int25,
    Int26, Int27, Int28, Int29, Int30, Int31, Int32, Int33,
    Int34, Int35, Int36, Int37, Int38, Int39, Int40, Int41,
    Int42, Int43, Int44, Int45, Int46, Int47, Int48, Int49,
    Int50, Int51, Int52, Int53, Int54, Int55, Int56, Int57,
    Int58, Int59, Int60, Int61, Int62, Int63, Int64,

    Float16, Float32, Float64,

    Void1, Void2, Void3, Void4, Void5, Void6, Void7, Void8,
    Void9, Void10, Void11, Void12, Void13, Void14, Void15, Void16,
    Void17, Void18, Void19, Void20, Void21, Void22, Void23, Void24,
    Void25, Void26, Void27, Void28, Void29, Void30, Void31, Void32,
    Void33, Void34, Void35, Void36, Void37, Void38, Void39, Void40,
    Void41, Void42, Void43, Void44, Void45, Void46, Void47, Void48,
    Void49, Void50, Void51, Void52, Void53, Void54, Void55, Void56,
    Void57, Void58, Void59, Void60, Void61, Void62, Void63, Void64,
}

/// The family of a primitive type; with its bit length it names the type.
#[derive(Clone, Copy, Debug, PartialEq, Eq, Structural)]
pub enum PrimitiveKind {
    Bool,
    Uint,
    Int,
    Float,
    Void,
}

/// The error returned when attempting to parse something that is not a `PrimitiveType`.
#[derive(Clone, Debug, PartialEq, Eq, Structural)]
pub struct NotPrimitiveTypeError;

/// The family and bit length of a primitive type (`bool` has length 0).
#[verifier::opaque]
pub open spec fn prim_parts(p: PrimitiveType) -> (PrimitiveKind, nat) {
    match p {
        PrimitiveType::Bool => (PrimitiveKind::Bool, 0),
        PrimitiveType::Uint2 => (PrimitiveKind::Uint, 2),
        PrimitiveType::Uint3 => (PrimitiveKind::Uint, 3),
        PrimitiveType::Uint4 => (PrimitiveKind::Uint, 4),
        PrimitiveType::Uint5 => (PrimitiveKind::Uint, 5),
        PrimitiveType::Uint6 => (PrimitiveKind::Uint, 6),
        PrimitiveType::Uint7 => (PrimitiveKind::Uint, 7),
        PrimitiveType::Uint8 => (PrimitiveKind::Uint, 8),
        PrimitiveType::Uint9 => (PrimitiveKind::Uint, 9),
        PrimitiveType::Uint10 => (PrimitiveKind::Uint, 10),
        PrimitiveType::Uint11 => (PrimitiveKind::Uint, 11),
        PrimitiveType::Uint12 => (PrimitiveKind::Uint, 12),
        PrimitiveType::Uint13 => (PrimitiveKind::Uint, 13),
        PrimitiveType::Uint14 => (PrimitiveKind::Uint, 14),
        PrimitiveType::Uint15 => (PrimitiveKind::Uint, 15),
        PrimitiveType::Uint16 => (PrimitiveKind::Uint, 16),
        PrimitiveType::Uint17 => (PrimitiveKind::Uint, 17),
        PrimitiveType::Uint18 => (PrimitiveKind::Uint, 18),
        PrimitiveType::Uint19 => (PrimitiveKind::Uint, 19),
        PrimitiveType::Uint20 => (PrimitiveKind::Uint, 20),
        PrimitiveType::Uint21 => (PrimitiveKind::Uint, 21),
        PrimitiveType::Uint22 => (PrimitiveKind::Uint, 22),
        PrimitiveType::Uint23 => (PrimitiveKind::Uint, 23),
        PrimitiveType::Uint24 => (PrimitiveKind::Uint, 24),
        PrimitiveType::Uint25 => (PrimitiveKind::Uint, 25),
        PrimitiveType::Uint26 => (PrimitiveKind::Uint, 26),
        PrimitiveType::Uint27 => (PrimitiveKind::Uint, 27),
        PrimitiveType::Uint28 => (PrimitiveKind::Uint, 28),
        PrimitiveType::Uint29 => (PrimitiveKind::Uint, 29),
        PrimitiveType::Uint30 => (PrimitiveKind::Uint, 30),
        PrimitiveType::Uint31 => (PrimitiveKind::Uint, 31),
        PrimitiveType::Uint32 => (PrimitiveKind::Uint, 32),
        PrimitiveType::Uint33 => (PrimitiveKind::Uint, 33),
        PrimitiveType::Uint34 => (PrimitiveKind::Uint, 34),
        PrimitiveType::Uint35 => (PrimitiveKind::Uint, 35),
        PrimitiveType::Uint36 => (PrimitiveKind::Uint, 36),
        PrimitiveType::Uint37 => (PrimitiveKind::Uint, 37),
        PrimitiveType::Uint38 => (PrimitiveKind::Uint, 38),
        PrimitiveType::Uint39 => (PrimitiveKind::Uint, 39),
        PrimitiveType::Uint40 => (PrimitiveKind::Uint, 40),
        PrimitiveType::Uint41 => (PrimitiveKind::Uint, 41),
        PrimitiveType::Uint42 => (PrimitiveKind::Uint, 42),
        PrimitiveType::Uint43 => (PrimitiveKind::Uint, 43),
        PrimitiveType::Uint44 => (PrimitiveKind::Uint, 44),
        PrimitiveType::Uint45 => (PrimitiveKind::Uint, 45),
        PrimitiveType::Uint46 => (PrimitiveKind::Uint, 46),
        PrimitiveType::Uint47 => (PrimitiveKind::Uint, 47),
        PrimitiveType::Uint48 => (PrimitiveKind::Uint, 48),
        PrimitiveType::Uint49 => (PrimitiveKind::Uint, 49),
        PrimitiveType::Uint50 => (PrimitiveKind::Uint, 50),
        PrimitiveType::Uint51 => (PrimitiveKind::Uint, 51),
        PrimitiveType::Uint52 => (PrimitiveKind::Uint, 52),
        PrimitiveType::Uint53 => (PrimitiveKind::Uint, 53),
        PrimitiveType::Uint54 => (PrimitiveKind::Uint, 54),
        PrimitiveType::Uint55 => (PrimitiveKind::Uint, 55),
        PrimitiveType::Uint56 => (PrimitiveKind::Uint, 56),
        PrimitiveType::Uint57 => (PrimitiveKind::Uint, 57),
        PrimitiveType::Uint58 => (PrimitiveKind::Uint, 58),
        PrimitiveType::Uint59 => (PrimitiveKind::Uint, 59),
        PrimitiveType::Uint60 => (PrimitiveKind::Uint, 60),
        PrimitiveType::Uint61 => (PrimitiveKind::Uint, 61),
        PrimitiveType::Uint62 => (PrimitiveKind::Uint, 62),
        PrimitiveType::Uint63 => (PrimitiveKind::Uint, 63),
        PrimitiveType::Uint64 => (PrimitiveKind::Uint, 64),
        PrimitiveType::Int2 => (PrimitiveKind::Int, 2),
        PrimitiveType::Int3 => (PrimitiveKind::Int, 3),
        PrimitiveType::Int4 => (PrimitiveKind::Int, 4),
        PrimitiveType::Int5 => (PrimitiveKind::Int, 5),
        PrimitiveType::Int6 => (PrimitiveKind::Int, 6),
        PrimitiveType::Int7 => (PrimitiveKind::Int, 7),
        PrimitiveType::Int8 => (PrimitiveKind::Int, 8),
        PrimitiveType::Int9 => (PrimitiveKind::Int, 9),
        PrimitiveType::Int10 => (PrimitiveKind::Int, 10),
        PrimitiveType::Int11 => (PrimitiveKind::Int, 11),
        PrimitiveType::Int12 => (PrimitiveKind::Int, 12),
        PrimitiveType::Int13 => (PrimitiveKind::Int, 13),
        PrimitiveType::Int14 => (PrimitiveKind::Int, 14),
        PrimitiveType::Int15 => (PrimitiveKind::Int, 15),
        PrimitiveType::Int16 => (PrimitiveKind::Int, 16),
        PrimitiveType::Int17 => (PrimitiveKind::Int, 17),
        PrimitiveType::Int18 => (PrimitiveKind::Int, 18),
        PrimitiveType::Int19 => (PrimitiveKind::Int, 19),
        PrimitiveType::Int20 => (PrimitiveKind::Int, 20),
        PrimitiveType::Int21 => (PrimitiveKind::Int, 21),
        PrimitiveType::Int22 => (PrimitiveKind::Int, 22),
        PrimitiveType::Int23 => (PrimitiveKind::Int, 23),
        PrimitiveType::Int24 => (PrimitiveKind::Int, 24),
        PrimitiveType::Int25 => (PrimitiveKind::Int, 25),
        PrimitiveType::Int26 => (PrimitiveKind::Int, 26),
        PrimitiveType::Int27 => (PrimitiveKind::Int, 27),
        PrimitiveType::Int28 => (PrimitiveKind::Int, 28),
        PrimitiveType::Int29 => (PrimitiveKind::Int, 29),
        PrimitiveType::Int30 => (PrimitiveKind::Int, 30),
        PrimitiveType::Int31 => (PrimitiveKind::Int, 31),
        PrimitiveType::Int32 => (PrimitiveKind::Int, 32),
        PrimitiveType::Int33 => (PrimitiveKind::Int, 33),
        PrimitiveType::Int34 => (PrimitiveKind::Int, 34),
        PrimitiveType::Int35 => (PrimitiveKind::Int, 35),
        PrimitiveType::Int36 => (PrimitiveKind::Int, 36),
        PrimitiveType::Int37 => (PrimitiveKind::Int, 37),
        PrimitiveType::Int38 => (PrimitiveKind::Int, 38),
        PrimitiveType::Int39 => (PrimitiveKind::Int, 39),
        PrimitiveType::Int40 => (PrimitiveKind::Int, 40),
        PrimitiveType::Int41 => (PrimitiveKind::Int, 41),
        PrimitiveType::Int42 => (PrimitiveKind::Int, 42),
        PrimitiveType::Int43 => (PrimitiveKind::Int, 43),
        PrimitiveType::Int44 => (PrimitiveKind::Int, 44),
        PrimitiveType::Int45 => (PrimitiveKind::Int, 45),
        PrimitiveType::Int46 => (PrimitiveKind::Int, 46),
        PrimitiveType::Int47 => (PrimitiveKind::Int, 47),
        PrimitiveType::Int48 => (PrimitiveKind::Int, 48),
        PrimitiveType::Int49 => (PrimitiveKind::Int, 49),
        PrimitiveType::Int50 => (PrimitiveKind::Int, 50),
        PrimitiveType::Int51 => (PrimitiveKind::Int, 51),
        PrimitiveType::Int52 => (PrimitiveKind::Int, 52),
        PrimitiveType::Int53 => (PrimitiveKind::Int, 53),
        PrimitiveType::Int54 => (PrimitiveKind::Int, 54),
        PrimitiveType::Int55 => (PrimitiveKind::Int, 55),
        PrimitiveType::Int56 => (PrimitiveKind::Int, 56),
        PrimitiveType::Int57 => (PrimitiveKind::Int, 57),
        PrimitiveType::Int58 => (PrimitiveKind::Int, 58),
        PrimitiveType::Int59 => (PrimitiveKind::Int, 59),
        PrimitiveType::Int60 => (PrimitiveKind::Int, 60),
        PrimitiveType::Int61 => (PrimitiveKind::Int, 61),
        PrimitiveType::Int62 => (PrimitiveKind::Int, 62),
        PrimitiveType::Int63 => (PrimitiveKind::Int, 63),
        PrimitiveType::Int64 => (PrimitiveKind::Int, 64),
        PrimitiveType::Float16 => (PrimitiveKind::Float, 16),
        PrimitiveType::Float32 => (PrimitiveKind::Float, 32),
        PrimitiveType::Float64 => (PrimitiveKind::Float, 64),
        PrimitiveType::Void1 => (PrimitiveKind::Void, 1),
        PrimitiveType::Void2 => (PrimitiveKind::Void, 2),
        PrimitiveType::Void3 => (PrimitiveKind::Void, 3),
        PrimitiveType::Void4 => (PrimitiveKind::Void, 4),
        PrimitiveType::Void5 => (PrimitiveKind::Void, 5),
        PrimitiveType::Void6 => (PrimitiveKind::Void, 6),
        PrimitiveType::Void7 => (PrimitiveKind::Void, 7),
        PrimitiveType::Void8 => (PrimitiveKind::Void, 8),
        PrimitiveType::Void9 => (PrimitiveKind::Void, 9),
        PrimitiveType::Void10 => (PrimitiveKind::Void, 10),
        PrimitiveType::Void11 => (PrimitiveKind::Void, 11),
        PrimitiveType::Void12 => (PrimitiveKind::Void, 12),
        PrimitiveType::Void13 => (PrimitiveKind::Void, 13),
        PrimitiveType::Void14 => (PrimitiveKind::Void, 14),
        PrimitiveType::Void15 => (PrimitiveKind::Void, 15),
        PrimitiveType::Void16 => (PrimitiveKind::Void, 16),
        PrimitiveType::Void17 => (PrimitiveKind::Void, 17),
        PrimitiveType::Void18 => (PrimitiveKind::Void, 18),
        PrimitiveType::Void19 => (PrimitiveKind::Void, 19),
        PrimitiveType::Void20 => (PrimitiveKind::Void, 20),
        PrimitiveType::Void21 => (PrimitiveKind::Void, 21),
        PrimitiveType::Void22 => (PrimitiveKind::Void, 22),
        PrimitiveType::Void23 => (PrimitiveKind::Void, 23),
        PrimitiveType::Void24 => (PrimitiveKind::Void, 24),
        PrimitiveType::Void25 => (PrimitiveKind::Void, 25),
        PrimitiveType::Void26 => (PrimitiveKind::Void, 26),
        PrimitiveType::Void27 => (PrimitiveKind::Void, 27),
        PrimitiveType::Void28 => (PrimitiveKind::Void, 28),
        PrimitiveType::Void29 => (PrimitiveKind::Void, 29),
        PrimitiveType::Void30 => (PrimitiveKind::Void, 30),
        PrimitiveType::Void31 => (PrimitiveKind::Void, 31),
        PrimitiveType::Void32 => (PrimitiveKind::Void, 32),
        PrimitiveType::Void33 => (PrimitiveKind::Void, 33),
        PrimitiveType::Void34 => (PrimitiveKind::Void, 34),
        PrimitiveType::Void35 => (PrimitiveKind::Void, 35),
        PrimitiveType::Void36 => (PrimitiveKind::Void, 36),
        PrimitiveType::Void37 => (PrimitiveKind::Void, 37),
        PrimitiveType::Void38 => (PrimitiveKind::Void, 38),
        PrimitiveType::Void39 => (PrimitiveKind::Void, 39),
        PrimitiveType::Void40 => (PrimitiveKind::Void, 40),
        PrimitiveType::Void41 => (PrimitiveKind::Void, 41),
        PrimitiveType::Void42 => (PrimitiveKind::Void, 42),
        PrimitiveType::Void43 => (PrimitiveKind::Void, 43),
        PrimitiveType::Void44 => (PrimitiveKind::Void, 44),
        PrimitiveType::Void45 => (PrimitiveKind::Void, 45),
        PrimitiveType::Void46 => (PrimitiveKind::Void, 46),
        PrimitiveType::Void47 => (PrimitiveKind::Void, 47),
        PrimitiveType::Void48 => (PrimitiveKind::Void, 48),
        PrimitiveType::Void49 => (PrimitiveKind::Void, 49),
        PrimitiveType::Void50 => (PrimitiveKind::Void, 50),
        PrimitiveType::Void51 => (PrimitiveKind::Void, 51),
        PrimitiveType::Void52 => (PrimitiveKind::Void, 52),
        PrimitiveType::Void53 => (PrimitiveKind::Void, 53),
        PrimitiveType::Void54 => (PrimitiveKind::Void, 54),
        PrimitiveType::Void55 => (PrimitiveKind::Void, 55),
        PrimitiveType::Void56 => (PrimitiveKind::Void, 56),
        PrimitiveType::Void57 => (PrimitiveKind::Void, 57),
        PrimitiveType::Void58 => (PrimitiveKind::Void, 58),
        PrimitiveType::Void59 => (PrimitiveKind::Void, 59),
        PrimitiveType::Void60 => (PrimitiveKind::Void, 60),
        PrimitiveType::Void61 => (PrimitiveKind::Void, 61),
        PrimitiveType::Void62 => (PrimitiveKind::Void, 62),
        PrimitiveType::Void63 => (PrimitiveKind::Void, 63),
        PrimitiveType::Void64 => (PrimitiveKind::Void, 64),
    }
}

/// The family of a primitive type.
pub open spec fn prim_kind(p: PrimitiveType) -> PrimitiveKind {
    prim_parts(p).0
}

/// The bit length of a primitive type.
pub open spec fn prim_bits(p: PrimitiveType) -> nat {
    prim_parts(p).1
}

/// The bit lengths that each family has: `uint2`..`uint64`, `int2`..`int64`,
/// `float16`, `float32`, `float64` and `void1`..`void64`.
pub open spec fn parts_valid(k: PrimitiveKind, n: nat) -> bool {
    match k {
        PrimitiveKind::Bool => n == 0,
        PrimitiveKind::Uint => 2 <= n <= 64,
        PrimitiveKind::Int => 2 <= n <= 64,
        PrimitiveKind::Float => n == 16 || n == 32 || n == 64,
        PrimitiveKind::Void => 1 <= n <= 64,
    }
}

/// The word that a family's names start with.
pub open spec fn kind_prefix(k: PrimitiveKind) -> Seq<char> {
    match k {
        PrimitiveKind::Bool => seq!['b', 'o', 'o', 'l'],
        PrimitiveKind::Uint => seq!['u', 'i', 'n', 't'],
        PrimitiveKind::Int => seq!['i', 'n', 't'],
        PrimitiveKind::Float => seq!['f', 'l', 'o', 'a', 't'],
        PrimitiveKind::Void => seq!['v', 'o', 'i', 'd'],
    }
}

/// The keyword of a primitive type, such as `bool`, `uint8` or `void3`.
pub open spec fn prim_name(p: PrimitiveType) -> Seq<char> {
    if prim_kind(p) == PrimitiveKind::Bool {
        kind_prefix(PrimitiveKind::Bool)
    } else {
        kind_prefix(prim_kind(p)) + decimal(prim_bits(p))
    }
}

/// Whether a primitive type is one of the `void` padding types.
pub open spec fn prim_is_void(p: PrimitiveType) -> bool {
    prim_kind(p) == PrimitiveKind::Void
}

/// Every primitive type has a family and bit length that `parts_valid` allows.
pub proof fn lemma_parts_valid(p: PrimitiveType)
    ensures
        parts_valid(prim_kind(p), prim_bits(p)),
{
    reveal(prim_parts);
}

/// The primitive type of a family and a bit length that `parts_valid` allows.
pub open spec fn prim_of_parts(k: PrimitiveKind, n: nat) -> PrimitiveType {
    match k {
        PrimitiveKind::Bool => PrimitiveType::Bool,
        PrimitiveKind::Uint => if n == 2 { PrimitiveType::Uint2 } else { if n == 3 { PrimitiveType::Uint3 } else { if n == 4 { PrimitiveType::Uint4 } else { if n == 5 { PrimitiveType::Uint5 } else { if n == 6 { PrimitiveType::Uint6 } else { if n == 7 { PrimitiveType::Uint7 } else { if n == 8 { PrimitiveType::Uint8 } else { if n == 9 { PrimitiveType::Uint9 } else { if n == 10 { PrimitiveType::Uint10 } else { if n == 11 { PrimitiveType::Uint11 } else { if n == 12 { PrimitiveType::Uint12 } else { if n == 13 { PrimitiveType::Uint13 } else { if n == 14 { PrimitiveType::Uint14 } else { if n == 15 { PrimitiveType::Uint15 } else { if n == 16 { PrimitiveType::Uint16 } else { if n == 17 { PrimitiveType::Uint17 } else { if n == 18 { PrimitiveType::Uint18 } else { if n == 19 { PrimitiveType::Uint19 } else { if n == 20 { PrimitiveType::Uint20 } else { if n == 21 { PrimitiveType::Uint21 } else { if n == 22 { PrimitiveType::Uint22 } else { if n == 23 { PrimitiveType::Uint23 } else { if n == 24 { PrimitiveType::Uint24 } else { if n == 25 { PrimitiveType::Uint25 } else { if n == 26 { PrimitiveType::Uint26 } else { if n == 27 { PrimitiveType::Uint27 } else { if n == 28 { PrimitiveType::Uint28 } else { if n == 29 { PrimitiveType::Uint29 } else { if n == 30 { PrimitiveType::Uint30 } else { if n == 31 { PrimitiveType::Uint31 } else { if n == 32 { PrimitiveType::Uint32 } else { if n == 33 { PrimitiveType::Uint33 } else { if n == 34 { PrimitiveType::Uint34 } else { if n == 35 { PrimitiveType::Uint35 } else { if n == 36 { PrimitiveType::Uint36 } else { if n == 37 { PrimitiveType::Uint37 } else { if n == 38 { PrimitiveType::Uint38 } else { if n == 39 { PrimitiveType::Uint39 } else { if n == 40 { PrimitiveType::Uint40 } else { if n == 41 { PrimitiveType::Uint41 } else { if n == 42 { PrimitiveType::Uint42 } else { if n == 43 { PrimitiveType::Uint43 } else { if n == 44 { PrimitiveType::Uint44 } else { if n == 45 { PrimitiveType::Uint45 } else { if n == 46 { PrimitiveType::Uint46 } else { if n == 47 { PrimitiveType::Uint47 } else { if n == 48 { PrimitiveType::Uint48 } else { if n == 49 { PrimitiveType::Uint49 } else { if n == 50 { PrimitiveType::Uint50 } else { if n == 51 { PrimitiveType::Uint51 } else { if n == 52 { PrimitiveType::Uint52 } else { if n == 53 { PrimitiveType::Uint53 } else { if n == 54 { PrimitiveType::Uint54 } else { if n == 55 { PrimitiveType::Uint55 } else { if n == 56 { PrimitiveType::Uint56 } else { if n == 57 { PrimitiveType::Uint57 } else { if n == 58 { PrimitiveType::Uint58 } else { if n == 59 { PrimitiveType::Uint59 } else { if n == 60 { PrimitiveType::Uint60 } else { if n == 61 { PrimitiveType::Uint61 } else { if n == 62 { PrimitiveType::Uint62 } else { if n == 63 { PrimitiveType::Uint63 } else { PrimitiveType::Uint64 } } } } } } } } } } } } } } } } } } } } } } } } } } } } } } } } } } } } } } } } } } } } } } } } } } } } } } } } } } } } } },
        PrimitiveKind::Int => if n == 2 { PrimitiveType::Int2 } else { if n == 3 { PrimitiveType::Int3 } else { if n == 4 { PrimitiveType::Int4 } else { if n == 5 { PrimitiveType::Int5 } else { if n == 6 { PrimitiveType::Int6 } else { if n == 7 { PrimitiveType::Int7 } else { if n == 8 { PrimitiveType::Int8 } else { if n == 9 { PrimitiveType::Int9 } else { if n == 10 { PrimitiveType::Int10 } else { if n == 11 { PrimitiveType::Int11 } else { if n == 12 { PrimitiveType::Int12 } else { if n == 13 { PrimitiveType::Int13 } else { if n == 14 { PrimitiveType::Int14 } else { if n == 15 { PrimitiveType::Int15 } else { if n == 16 { PrimitiveType::Int16 } else { if n == 17 { PrimitiveType::Int17 } else { if n == 18 { PrimitiveType::Int18 } else { if n == 19 { PrimitiveType::Int19 } else { if n == 20 { PrimitiveType::Int20 } else { if n == 21 { PrimitiveType::Int21 } else { if n == 22 { PrimitiveType::Int22 } else { if n == 23 { PrimitiveType::Int23 } else { if n == 24 { PrimitiveType::Int24 } else { if n == 25 { PrimitiveType::Int25 } else { if n == 26 { PrimitiveType::Int26 } else { if n == 27 { PrimitiveType::Int27 } else { if n == 28 { PrimitiveType::Int28 } else { if n == 29 { PrimitiveType::Int29 } else { if n == 30 { PrimitiveType::Int30 } else { if n == 31 { PrimitiveType::Int31 } else { if n == 32 { PrimitiveType::Int32 } else { if n == 33 { PrimitiveType::Int33 } else { if n == 34 { PrimitiveType::Int34 } else { if n == 35 { PrimitiveType::Int35 } else { if n == 36 { PrimitiveType::Int36 } else { if n == 37 { PrimitiveType::Int37 } else { if n == 38 { PrimitiveType::Int38 } else { if n == 39 { PrimitiveType::Int39 } else { if n == 40 { PrimitiveType::Int40 } else { if n == 41 { PrimitiveType::Int41 } else { if n == 42 { PrimitiveType::Int42 } else { if n == 43 { PrimitiveType::Int43 } else { if n == 44 { PrimitiveType::Int44 } else { if n == 45 { PrimitiveType::Int45 } else { if n == 46 { PrimitiveType::Int46 } else { if n == 47 { PrimitiveType::Int47 } else { if n == 48 { PrimitiveType::Int48 } else { if n == 49 { PrimitiveType::Int49 } else { if n == 50 { PrimitiveType::Int50 } else { if n == 51 { PrimitiveType::Int51 } else { if n == 52 { PrimitiveType::Int52 } else { if n == 53 { PrimitiveType::Int53 } else { if n == 54 { PrimitiveType::Int54 } else { if n == 55 { PrimitiveType::Int55 } else { if n == 56 { PrimitiveType::Int56 } else { if n == 57 { PrimitiveType::Int57 } else { if n == 58 { PrimitiveType::Int58 } else { if n == 59 { PrimitiveType::Int59 } else { if n == 60 { PrimitiveType::Int60 } else { if n == 61 { PrimitiveType::Int61 } else { if n == 62 { PrimitiveType::Int62 } else { if n == 63 { PrimitiveType::Int63 } else { PrimitiveType::Int64 } } } } } } } } } } } } } } } } } } } } } } } } } } } } } } } } } } } } } } } } } } } } } } } } } } } } } } } } } } } } } },
        PrimitiveKind::Float => if n == 16 { PrimitiveType::Float16 } else { if n == 32 { PrimitiveType::Float32 } else { PrimitiveType::Float64 } },
        PrimitiveKind::Void => if n == 1 { PrimitiveType::Void1 } else { if n == 2 { PrimitiveType::Void2 } else { if n == 3 { PrimitiveType::Void3 } else { if n == 4 { PrimitiveType::Void4 } else { if n == 5 { PrimitiveType::Void5 } else { if n == 6 { PrimitiveType::Void6 } else { if n == 7 { PrimitiveType::Void7 } else { if n == 8 { PrimitiveType::Void8 } else { if n == 9 { PrimitiveType::Void9 } else { if n == 10 { PrimitiveType::Void10 } else { if n == 11 { PrimitiveType::Void11 } else { if n == 12 { PrimitiveType::Void12 } else { if n == 13 { PrimitiveType::Void13 } else { if n == 14 { PrimitiveType::Void14 } else { if n == 15 { PrimitiveType::Void15 } else { if n == 16 { PrimitiveType::Void16 } else { if n == 17 { PrimitiveType::Void17 } else { if n == 18 { PrimitiveType::Void18 } else { if n == 19 { PrimitiveType::Void19 } else { if n == 20 { PrimitiveType::Void20 } else { if n == 21 { PrimitiveType::Void21 } else { if n == 22 { PrimitiveType::Void22 } else { if n == 23 { PrimitiveType::Void23 } else { if n == 24 { PrimitiveType::Void24 } else { if n == 25 { PrimitiveType::Void25 } else { if n == 26 { PrimitiveType::Void26 } else { if n == 27 { PrimitiveType::Void27 } else { if n == 28 { PrimitiveType::Void28 } else { if n == 29 { PrimitiveType::Void29 } else { if n == 30 { PrimitiveType::Void30 } else { if n == 31 { PrimitiveType::Void31 } else { if n == 32 { PrimitiveType::Void32 } else { if n == 33 { PrimitiveType::Void33 } else { if n == 34 { PrimitiveType::Void34 } else { if n == 35 { PrimitiveType::Void35 } else { if n == 36 { PrimitiveType::Void36 } else { if n == 37 { PrimitiveType::Void37 } else { if n == 38 { PrimitiveType::Void38 } else { if n == 39 { PrimitiveType::Void39 } else { if n == 40 { PrimitiveType::Void40 } else { if n == 41 { PrimitiveType::Void41 } else { if n == 42 { PrimitiveType::Void42 } else { if n == 43 { PrimitiveType::Void43 } else { if n == 44 { PrimitiveType::Void44 } else { if n == 45 { PrimitiveType::Void45 } else { if n == 46 { PrimitiveType::Void46 } else { if n == 47 { PrimitiveType::Void47 } else { if n == 48 { PrimitiveType::Void48 } else { if n == 49 { PrimitiveType::Void49 } else { if n == 50 { PrimitiveType::Void50 } else { if n == 51 { PrimitiveType::Void51 } else { if n == 52 { PrimitiveType::Void52 } else { if n == 53 { PrimitiveType::Void53 } else { if n == 54 { PrimitiveType::Void54 } else { if n == 55 { PrimitiveType::Void55 } else { if n == 56 { PrimitiveType::Void56 } else { if n == 57 { PrimitiveType::Void57 } else { if n == 58 { PrimitiveType::Void58 } else { if n == 59 { PrimitiveType::Void59 } else { if n == 60 { PrimitiveType::Void60 } else { if n == 61 { PrimitiveType::Void61 } else { if n == 62 { PrimitiveType::Void62 } else { if n == 63 { PrimitiveType::Void63 } else { PrimitiveType::Void64 } } } } } } } } } } } } } } } } } } } } } } } } } } } } } } } } } } } } } } } } } } } } } } } } } } } } } } } } } } } } } } },
    }
}

/// A primitive type is the one of its family and bit length.
pub proof fn lemma_of_parts(p: PrimitiveType)
    ensures
        prim_of_parts(prim_kind(p), prim_bits(p)) == p,
{
    reveal(prim_parts);
    match p {
        PrimitiveType::Bool => {},
        PrimitiveType::Uint2 => {},
        PrimitiveType::Uint3 => {},
        PrimitiveType::Uint4 => {},
        PrimitiveType::Uint5 => {},
        PrimitiveType::Uint6 => {},
        PrimitiveType::Uint7 => {},
        PrimitiveType::Uint8 => {},
        PrimitiveType::Uint9 => {},
        PrimitiveType::Uint10 => {},
        PrimitiveType::Uint11 => {},
        PrimitiveType::Uint12 => {},
        PrimitiveType::Uint13 => {},
        PrimitiveType::Uint14 => {},
        PrimitiveType::Uint15 => {},
        PrimitiveType::Uint16 => {},
        PrimitiveType::Uint17 => {},
        PrimitiveType::Uint18 => {},
        PrimitiveType::Uint19 => {},
        PrimitiveType::Uint20 => {},
        PrimitiveType::Uint21 => {},
        PrimitiveType::Uint22 => {},
        PrimitiveType::Uint23 => {},
        PrimitiveType::Uint24 => {},
        PrimitiveType::Uint25 => {},
        PrimitiveType::Uint26 => {},
        PrimitiveType::Uint27 => {},
        PrimitiveType::Uint28 => {},
        PrimitiveType::Uint29 => {},
        PrimitiveType::Uint30 => {},
        PrimitiveType::Uint31 => {},
        PrimitiveType::Uint32 => {},
        PrimitiveType::Uint33 => {},
        PrimitiveType::Uint34 => {},
        PrimitiveType::Uint35 => {},
        PrimitiveType::Uint36 => {},
        PrimitiveType::Uint37 => {},
        PrimitiveType::Uint38 => {},
        PrimitiveType::Uint39 => {},
        PrimitiveType::Uint40 => {},
        PrimitiveType::Uint41 => {},
        PrimitiveType::Uint42 => {},
        PrimitiveType::Uint43 => {},
        PrimitiveType::Uint44 => {},
        PrimitiveType::Uint45 => {},
        PrimitiveType::Uint46 => {},
        PrimitiveType::Uint47 => {},
        PrimitiveType::Uint48 => {},
        PrimitiveType::Uint49 => {},
        PrimitiveType::Uint50 => {},
        PrimitiveType::Uint51 => {},
        PrimitiveType::Uint52 => {},
        PrimitiveType::Uint53 => {},
        PrimitiveType::Uint54 => {},
        PrimitiveType::Uint55 => {},
        PrimitiveType::Uint56 => {},
        PrimitiveType::Uint57 => {},
        PrimitiveType::Uint58 => {},
        PrimitiveType::Uint59 => {},
        PrimitiveType::Uint60 => {},
        PrimitiveType::Uint61 => {},
        PrimitiveType::Uint62 => {},
        PrimitiveType::Uint63 => {},
        PrimitiveType::Uint64 => {},
        PrimitiveType::Int2 => {},
        PrimitiveType::Int3 => {},
        PrimitiveType::Int4 => {},
        PrimitiveType::Int5 => {},
        PrimitiveType::Int6 => {},
        PrimitiveType::Int7 => {},
        PrimitiveType::Int8 => {},
        PrimitiveType::Int9 => {},
        PrimitiveType::Int10 => {},
        PrimitiveType::Int11 => {},
        PrimitiveType::Int12 => {},
        PrimitiveType::Int13 => {},
        PrimitiveType::Int14 => {},
        PrimitiveType::Int15 => {},
        PrimitiveType::Int16 => {},
        PrimitiveType::Int17 => {},
        PrimitiveType::Int18 => {},
        PrimitiveType::Int19 => {},
        PrimitiveType::Int20 => {},
        PrimitiveType::Int21 => {},
        PrimitiveType::Int22 => {},
        PrimitiveType::Int23 => {},
        PrimitiveType::Int24 => {},
        PrimitiveType::Int25 => {},
        PrimitiveType::Int26 => {},
        PrimitiveType::Int27 => {},
        PrimitiveType::Int28 => {},
        PrimitiveType::Int29 => {},
        PrimitiveType::Int30 => {},
        PrimitiveType::Int31 => {},
        PrimitiveType::Int32 => {},
        PrimitiveType::Int33 => {},
        PrimitiveType::Int34 => {},
        PrimitiveType::Int35 => {},
        PrimitiveType::Int36 => {},
        PrimitiveType::Int37 => {},
        PrimitiveType::Int38 => {},
        PrimitiveType::Int39 => {},
        PrimitiveType::Int40 => {},
        PrimitiveType::Int41 => {},
        PrimitiveType::Int42 => {},
        PrimitiveType::Int43 => {},
        PrimitiveType::Int44 => {},
        PrimitiveType::Int45 => {},
        PrimitiveType::Int46 => {},
        PrimitiveType::Int47 => {},
        PrimitiveType::Int48 => {},
        PrimitiveType::Int49 => {},
        PrimitiveType::Int50 => {},
        PrimitiveType::Int51 => {},
        PrimitiveType::Int52 => {},
        PrimitiveType::Int53 => {},
        PrimitiveType::Int54 => {},
        PrimitiveType::Int55 => {},
        PrimitiveType::Int56 => {},
        PrimitiveType::Int57 => {},
        PrimitiveType::Int58 => {},
        PrimitiveType::Int59 => {},
        PrimitiveType::Int60 => {},
        PrimitiveType::Int61 => {},
        PrimitiveType::Int62 => {},
        PrimitiveType::Int63 => {},
        PrimitiveType::Int64 => {},
        PrimitiveType::Float16 => {},
        PrimitiveType::Float32 => {},
        PrimitiveType::Float64 => {},
        PrimitiveType::Void1 => {},
        PrimitiveType::Void2 => {},
        PrimitiveType::Void3 => {},
        PrimitiveType::Void4 => {},
        PrimitiveType::Void5 => {},
        PrimitiveType::Void6 => {},
        PrimitiveType::Void7 => {},
        PrimitiveType::Void8 => {},
        PrimitiveType::Void9 => {},
        PrimitiveType::Void10 => {},
        PrimitiveType::Void11 => {},
        PrimitiveType::Void12 => {},
        PrimitiveType::Void13 => {},
        PrimitiveType::Void14 => {},
        PrimitiveType::Void15 => {},
        PrimitiveType::Void16 => {},
        PrimitiveType::Void17 => {},
        PrimitiveType::Void18 => {},
        PrimitiveType::Void19 => {},
        PrimitiveType::Void20 => {},
        PrimitiveType::Void21 => {},
        PrimitiveType::Void22 => {},
        PrimitiveType::Void23 => {},
        PrimitiveType::Void24 => {},
        PrimitiveType::Void25 => {},
        PrimitiveType::Void26 => {},
        PrimitiveType::Void27 => {},
        PrimitiveType::Void28 => {},
        PrimitiveType::Void29 => {},
        PrimitiveType::Void30 => {},
        PrimitiveType::Void31 => {},
        PrimitiveType::Void32 => {},
        PrimitiveType::Void33 => {},
        PrimitiveType::Void34 => {},
        PrimitiveType::Void35 => {},
        PrimitiveType::Void36 => {},
        PrimitiveType::Void37 => {},
        PrimitiveType::Void38 => {},
        PrimitiveType::Void39 => {},
        PrimitiveType::Void40 => {},
        PrimitiveType::Void41 => {},
        PrimitiveType::Void42 => {},
        PrimitiveType::Void43 => {},
        PrimitiveType::Void44 => {},
        PrimitiveType::Void45 => {},
        PrimitiveType::Void46 => {},
        PrimitiveType::Void47 => {},
        PrimitiveType::Void48 => {},
        PrimitiveType::Void49 => {},
        PrimitiveType::Void50 => {},
        PrimitiveType::Void51 => {},
        PrimitiveType::Void52 => {},
        PrimitiveType::Void53 => {},
        PrimitiveType::Void54 => {},
        PrimitiveType::Void55 => {},
        PrimitiveType::Void56 => {},
        PrimitiveType::Void57 => {},
        PrimitiveType::Void58 => {},
        PrimitiveType::Void59 => {},
        PrimitiveType::Void60 => {},
        PrimitiveType::Void61 => {},
        PrimitiveType::Void62 => {},
        PrimitiveType::Void63 => {},
        PrimitiveType::Void64 => {},
    }
}

/// Keywords tell primitive types apart: two types with one keyword are the same type, so
/// parsing the keyword that `Display` writes gives the type back.
pub proof fn law_prim_name_injective(p: PrimitiveType, q: PrimitiveType)
    requires
        prim_name(p) == prim_name(q),
    ensures
        p == q,
{
    lemma_of_parts(p);
    lemma_of_parts(q);
    lemma_parts_valid(p);
    lemma_parts_valid(q);
    if prim_kind(p) == PrimitiveKind::Bool {
        if prim_kind(q) != PrimitiveKind::Bool {
            assert(prim_name(q)[0] == kind_prefix(prim_kind(q))[0]);
        }
    } else {
        lemma_name_decompose(q, prim_kind(p), decimal(prim_bits(p)));
        lemma_decimal(prim_bits(p));
        lemma_decimal(prim_bits(q));
    }
}

/// What a name tells of its type: a name that starts with a family's word belongs to that
/// family, and the digits after it are its bit length.
pub proof fn lemma_name_decompose(p: PrimitiveType, k: PrimitiveKind, rest: Seq<char>)
    requires
        k != PrimitiveKind::Bool,
        prim_name(p) == kind_prefix(k) + rest,
    ensures
        prim_kind(p) == k,
        rest == decimal(prim_bits(p)),
{
    lemma_parts_valid(p);
    let kp = prim_kind(p);
    assert(prim_name(p)[0] == kind_prefix(k)[0]);
    if kp == PrimitiveKind::Bool {
        assert(prim_name(p)[0] == 'b');
    } else {
        assert(prim_name(p)[0] == kind_prefix(kp)[0]);
        assert(kp == k);
        assert(rest =~= prim_name(p).skip(kind_prefix(k).len() as int));
        assert(decimal(prim_bits(p)) =~= prim_name(p).skip(kind_prefix(k).len() as int));
    }
}

/// The numeral of a bit length below 100 has at most two digits.
pub proof fn lemma_decimal_short(n: nat)
    requires
        n < 100,
    ensures
        decimal(n).len() <= 2,
{
    if n >= 10 {
        assert(decimal(n / 10).len() == 1);
    }
}

/// The type's family and bit length.
pub fn parts(p: &PrimitiveType) -> (r: (PrimitiveKind, u64))
    ensures
        r.0 == prim_kind(*p),
        r.1 as nat == prim_bits(*p),
{
    proof {
        reveal(prim_parts);
    }
    match p {
            PrimitiveType::Bool => (PrimitiveKind::Bool, 0u64),
            PrimitiveType::Uint2 => (PrimitiveKind::Uint, 2u64),
            PrimitiveType::Uint3 => (PrimitiveKind::Uint, 3u64),
            PrimitiveType::Uint4 => (PrimitiveKind::Uint, 4u64),
            PrimitiveType::Uint5 => (PrimitiveKind::Uint, 5u64),
            PrimitiveType::Uint6 => (PrimitiveKind::Uint, 6u64),
            PrimitiveType::Uint7 => (PrimitiveKind::Uint, 7u64),
            PrimitiveType::Uint8 => (PrimitiveKind::Uint, 8u64),
            PrimitiveType::Uint9 => (PrimitiveKind::Uint, 9u64),
            PrimitiveType::Uint10 => (PrimitiveKind::Uint, 10u64),
            PrimitiveType::Uint11 => (PrimitiveKind::Uint, 11u64),
            PrimitiveType::Uint12 => (PrimitiveKind::Uint, 12u64),
            PrimitiveType::Uint13 => (PrimitiveKind::Uint, 13u64),
            PrimitiveType::Uint14 => (PrimitiveKind::Uint, 14u64),
            PrimitiveType::Uint15 => (PrimitiveKind::Uint, 15u64),
            PrimitiveType::Uint16 => (PrimitiveKind::Uint, 16u64),
            PrimitiveType::Uint17 => (PrimitiveKind::Uint, 17u64),
            PrimitiveType::Uint18 => (PrimitiveKind::Uint, 18u64),
            PrimitiveType::Uint19 => (PrimitiveKind::Uint, 19u64),
            PrimitiveType::Uint20 => (PrimitiveKind::Uint, 20u64),
            PrimitiveType::Uint21 => (PrimitiveKind::Uint, 21u64),
            PrimitiveType::Uint22 => (PrimitiveKind::Uint, 22u64),
            PrimitiveType::Uint23 => (PrimitiveKind::Uint, 23u64),
            PrimitiveType::Uint24 => (PrimitiveKind::Uint, 24u64),
            PrimitiveType::Uint25 => (PrimitiveKind::Uint, 25u64),
            PrimitiveType::Uint26 => (PrimitiveKind::Uint, 26u64),
            PrimitiveType::Uint27 => (PrimitiveKind::Uint, 27u64),
            PrimitiveType::Uint28 => (PrimitiveKind::Uint, 28u64),
            PrimitiveType::Uint29 => (PrimitiveKind::Uint, 29u64),
            PrimitiveType::Uint30 => (PrimitiveKind::Uint, 30u64),
            PrimitiveType::Uint31 => (PrimitiveKind::Uint, 31u64),
            PrimitiveType::Uint32 => (PrimitiveKind::Uint, 32u64),
            PrimitiveType::Uint33 => (PrimitiveKind::Uint, 33u64),
            PrimitiveType::Uint34 => (PrimitiveKind::Uint, 34u64),
            PrimitiveType::Uint35 => (PrimitiveKind::Uint, 35u64),
            PrimitiveType::Uint36 => (PrimitiveKind::Uint, 36u64),
            PrimitiveType::Uint37 => (PrimitiveKind::Uint, 37u64),
            PrimitiveType::Uint38 => (PrimitiveKind::Uint, 38u64),
            PrimitiveType::Uint39 => (PrimitiveKind::Uint, 39u64),
            PrimitiveType::Uint40 => (PrimitiveKind::Uint, 40u64),
            PrimitiveType::Uint41 => (PrimitiveKind::Uint, 41u64),
            PrimitiveType::Uint42 => (PrimitiveKind::Uint, 42u64),
            PrimitiveType::Uint43 => (PrimitiveKind::Uint, 43u64),
            PrimitiveType::Uint44 => (PrimitiveKind::Uint, 44u64),
            PrimitiveType::Uint45 => (PrimitiveKind::Uint, 45u64),
            PrimitiveType::Uint46 => (PrimitiveKind::Uint, 46u64),
            PrimitiveType::Uint47 => (PrimitiveKind::Uint, 47u64),
            PrimitiveType::Uint48 => (PrimitiveKind::Uint, 48u64),
            PrimitiveType::Uint49 => (PrimitiveKind::Uint, 49u64),
            PrimitiveType::Uint50 => (PrimitiveKind::Uint, 50u64),
            PrimitiveType::Uint51 => (PrimitiveKind::Uint, 51u64),
            PrimitiveType::Uint52 => (PrimitiveKind::Uint, 52u64),
            PrimitiveType::Uint53 => (PrimitiveKind::Uint, 53u64),
            PrimitiveType::Uint54 => (PrimitiveKind::Uint, 54u64),
            PrimitiveType::Uint55 => (PrimitiveKind::Uint, 55u64),
            PrimitiveType::Uint56 => (PrimitiveKind::Uint, 56u64),
            PrimitiveType::Uint57 => (PrimitiveKind::Uint, 57u64),
            PrimitiveType::Uint58 => (PrimitiveKind::Uint, 58u64),
            PrimitiveType::Uint59 => (PrimitiveKind::Uint, 59u64),
            PrimitiveType::Uint60 => (PrimitiveKind::Uint, 60u64),
            PrimitiveType::Uint61 => (PrimitiveKind::Uint, 61u64),
            PrimitiveType::Uint62 => (PrimitiveKind::Uint, 62u64),
            PrimitiveType::Uint63 => (PrimitiveKind::Uint, 63u64),
            PrimitiveType::Uint64 => (PrimitiveKind::Uint, 64u64),
            PrimitiveType::Int2 => (PrimitiveKind::Int, 2u64),
            PrimitiveType::Int3 => (PrimitiveKind::Int, 3u64),
            PrimitiveType::Int4 => (PrimitiveKind::Int, 4u64),
            PrimitiveType::Int5 => (PrimitiveKind::Int, 5u64),
            PrimitiveType::Int6 => (PrimitiveKind::Int, 6u64),
            PrimitiveType::Int7 => (PrimitiveKind::Int, 7u64),
            PrimitiveType::Int8 => (PrimitiveKind::Int, 8u64),
            PrimitiveType::Int9 => (PrimitiveKind::Int, 9u64),
            PrimitiveType::Int10 => (PrimitiveKind::Int, 10u64),
            PrimitiveType::Int11 => (PrimitiveKind::Int, 11u64),
            PrimitiveType::Int12 => (PrimitiveKind::Int, 12u64),
            PrimitiveType::Int13 => (PrimitiveKind::Int, 13u64),
            PrimitiveType::Int14 => (PrimitiveKind::Int, 14u64),
            PrimitiveType::Int15 => (PrimitiveKind::Int, 15u64),
            PrimitiveType::Int16 => (PrimitiveKind::Int, 16u64),
            PrimitiveType::Int17 => (PrimitiveKind::Int, 17u64),
            PrimitiveType::Int18 => (PrimitiveKind::Int, 18u64),
            PrimitiveType::Int19 => (PrimitiveKind::Int, 19u64),
            PrimitiveType::Int20 => (PrimitiveKind::Int, 20u64),
            PrimitiveType::Int21 => (PrimitiveKind::Int, 21u64),
            PrimitiveType::Int22 => (PrimitiveKind::Int, 22u64),
            PrimitiveType::Int23 => (PrimitiveKind::Int, 23u64),
            PrimitiveType::Int24 => (PrimitiveKind::Int, 24u64),
            PrimitiveType::Int25 => (PrimitiveKind::Int, 25u64),
            PrimitiveType::Int26 => (PrimitiveKind::Int, 26u64),
            PrimitiveType::Int27 => (PrimitiveKind::Int, 27u64),
            PrimitiveType::Int28 => (PrimitiveKind::Int, 28u64),
            PrimitiveType::Int29 => (PrimitiveKind::Int, 29u64),
            PrimitiveType::Int30 => (PrimitiveKind::Int, 30u64),
            PrimitiveType::Int31 => (PrimitiveKind::Int, 31u64),
            PrimitiveType::Int32 => (PrimitiveKind::Int, 32u64),
            PrimitiveType::Int33 => (PrimitiveKind::Int, 33u64),
            PrimitiveType::Int34 => (PrimitiveKind::Int, 34u64),
            PrimitiveType::Int35 => (PrimitiveKind::Int, 35u64),
            PrimitiveType::Int36 => (PrimitiveKind::Int, 36u64),
            PrimitiveType::Int37 => (PrimitiveKind::Int, 37u64),
            PrimitiveType::Int38 => (PrimitiveKind::Int, 38u64),
            PrimitiveType::Int39 => (PrimitiveKind::Int, 39u64),
            PrimitiveType::Int40 => (PrimitiveKind::Int, 40u64),
            PrimitiveType::Int41 => (PrimitiveKind::Int, 41u64),
            PrimitiveType::Int42 => (PrimitiveKind::Int, 42u64),
            PrimitiveType::Int43 => (PrimitiveKind::Int, 43u64),
            PrimitiveType::Int44 => (PrimitiveKind::Int, 44u64),
            PrimitiveType::Int45 => (PrimitiveKind::Int, 45u64),
            PrimitiveType::Int46 => (PrimitiveKind::Int, 46u64),
            PrimitiveType::Int47 => (PrimitiveKind::Int, 47u64),
            PrimitiveType::Int48 => (PrimitiveKind::Int, 48u64),
            PrimitiveType::Int49 => (PrimitiveKind::Int, 49u64),
            PrimitiveType::Int50 => (PrimitiveKind::Int, 50u64),
            PrimitiveType::Int51 => (PrimitiveKind::Int, 51u64),
            PrimitiveType::Int52 => (PrimitiveKind::Int, 52u64),
            PrimitiveType::Int53 => (PrimitiveKind::Int, 53u64),
            PrimitiveType::Int54 => (PrimitiveKind::Int, 54u64),
            PrimitiveType::Int55 => (PrimitiveKind::Int, 55u64),
            PrimitiveType::Int56 => (PrimitiveKind::Int, 56u64),
            PrimitiveType::Int57 => (PrimitiveKind::Int, 57u64),
            PrimitiveType::Int58 => (PrimitiveKind::Int, 58u64),
            PrimitiveType::Int59 => (PrimitiveKind::Int, 59u64),
            PrimitiveType::Int60 => (PrimitiveKind::Int, 60u64),
            PrimitiveType::Int61 => (PrimitiveKind::Int, 61u64),
            PrimitiveType::Int62 => (PrimitiveKind::Int, 62u64),
            PrimitiveType::Int63 => (PrimitiveKind::Int, 63u64),
            PrimitiveType::Int64 => (PrimitiveKind::Int, 64u64),
            PrimitiveType::Float16 => (PrimitiveKind::Float, 16u64),
            PrimitiveType::Float32 => (PrimitiveKind::Float, 32u64),
            PrimitiveType::Float64 => (PrimitiveKind::Float, 64u64),
            PrimitiveType::Void1 => (PrimitiveKind::Void, 1u64),
            PrimitiveType::Void2 => (PrimitiveKind::Void, 2u64),
            PrimitiveType::Void3 => (PrimitiveKind::Void, 3u64),
            PrimitiveType::Void4 => (PrimitiveKind::Void, 4u64),
            PrimitiveType::Void5 => (PrimitiveKind::Void, 5u64),
            PrimitiveType::Void6 => (PrimitiveKind::Void, 6u64),
            PrimitiveType::Void7 => (PrimitiveKind::Void, 7u64),
            PrimitiveType::Void8 => (PrimitiveKind::Void, 8u64),
            PrimitiveType::Void9 => (PrimitiveKind::Void, 9u64),
            PrimitiveType::Void10 => (PrimitiveKind::Void, 10u64),
            PrimitiveType::Void11 => (PrimitiveKind::Void, 11u64),
            PrimitiveType::Void12 => (PrimitiveKind::Void, 12u64),
            PrimitiveType::Void13 => (PrimitiveKind::Void, 13u64),
            PrimitiveType::Void14 => (PrimitiveKind::Void, 14u64),
            PrimitiveType::Void15 => (PrimitiveKind::Void, 15u64),
            PrimitiveType::Void16 => (PrimitiveKind::Void, 16u64),
            PrimitiveType::Void17 => (PrimitiveKind::Void, 17u64),
            PrimitiveType::Void18 => (PrimitiveKind::Void, 18u64),
            PrimitiveType::Void19 => (PrimitiveKind::Void, 19u64),
            PrimitiveType::Void20 => (PrimitiveKind::Void, 20u64),
            PrimitiveType::Void21 => (PrimitiveKind::Void, 21u64),
            PrimitiveType::Void22 => (PrimitiveKind::Void, 22u64),
            PrimitiveType::Void23 => (PrimitiveKind::Void, 23u64),
            PrimitiveType::Void24 => (PrimitiveKind::Void, 24u64),
            PrimitiveType::Void25 => (PrimitiveKind::Void, 25u64),
            PrimitiveType::Void26 => (PrimitiveKind::Void, 26u64),
            PrimitiveType::Void27 => (PrimitiveKind::Void, 27u64),
            PrimitiveType::Void28 => (PrimitiveKind::Void, 28u64),
            PrimitiveType::Void29 => (PrimitiveKind::Void, 29u64),
            PrimitiveType::Void30 => (PrimitiveKind::Void, 30u64),
            PrimitiveType::Void31 => (PrimitiveKind::Void, 31u64),
            PrimitiveType::Void32 => (PrimitiveKind::Void, 32u64),
            PrimitiveType::Void33 => (PrimitiveKind::Void, 33u64),
            PrimitiveType::Void34 => (PrimitiveKind::Void, 34u64),
            PrimitiveType::Void35 => (PrimitiveKind::Void, 35u64),
            PrimitiveType::Void36 => (PrimitiveKind::Void, 36u64),
            PrimitiveType::Void37 => (PrimitiveKind::Void, 37u64),
            PrimitiveType::Void38 => (PrimitiveKind::Void, 38u64),
            PrimitiveType::Void39 => (PrimitiveKind::Void, 39u64),
            PrimitiveType::Void40 => (PrimitiveKind::Void, 40u64),
            PrimitiveType::Void41 => (PrimitiveKind::Void, 41u64),
            PrimitiveType::Void42 => (PrimitiveKind::Void, 42u64),
            PrimitiveType::Void43 => (PrimitiveKind::Void, 43u64),
            PrimitiveType::Void44 => (PrimitiveKind::Void, 44u64),
            PrimitiveType::Void45 => (PrimitiveKind::Void, 45u64),
            PrimitiveType::Void46 => (PrimitiveKind::Void, 46u64),
            PrimitiveType::Void47 => (PrimitiveKind::Void, 47u64),
            PrimitiveType::Void48 => (PrimitiveKind::Void, 48u64),
            PrimitiveType::Void49 => (PrimitiveKind::Void, 49u64),
            PrimitiveType::Void50 => (PrimitiveKind::Void, 50u64),
            PrimitiveType::Void51 => (PrimitiveKind::Void, 51u64),
            PrimitiveType::Void52 => (PrimitiveKind::Void, 52u64),
            PrimitiveType::Void53 => (PrimitiveKind::Void, 53u64),
            PrimitiveType::Void54 => (PrimitiveKind::Void, 54u64),
            PrimitiveType::Void55 => (PrimitiveKind::Void, 55u64),
            PrimitiveType::Void56 => (PrimitiveKind::Void, 56u64),
            PrimitiveType::Void57 => (PrimitiveKind::Void, 57u64),
            PrimitiveType::Void58 => (PrimitiveKind::Void, 58u64),
            PrimitiveType::Void59 => (PrimitiveKind::Void, 59u64),
            PrimitiveType::Void60 => (PrimitiveKind::Void, 60u64),
            PrimitiveType::Void61 => (PrimitiveKind::Void, 61u64),
            PrimitiveType::Void62 => (PrimitiveKind::Void, 62u64),
            PrimitiveType::Void63 => (PrimitiveKind::Void, 63u64),
            PrimitiveType::Void64 => (PrimitiveKind::Void, 64u64),
    }
}

/// The primitive type of a family and a bit length.
pub fn from_parts(kind: PrimitiveKind, bits: u64) -> (p: PrimitiveType)
    requires
        parts_valid(kind, bits as nat),
    ensures
        prim_kind(p) == kind,
        prim_bits(p) == bits as nat,
{
    proof {
        reveal(prim_parts);
    }
    match kind {
        PrimitiveKind::Bool => PrimitiveType::Bool,
        PrimitiveKind::Uint => match bits {
            2 => PrimitiveType::Uint2,
            3 => PrimitiveType::Uint3,
            4 => PrimitiveType::Uint4,
            5 => PrimitiveType::Uint5,
            6 => PrimitiveType::Uint6,
            7 => PrimitiveType::Uint7,
            8 => PrimitiveType::Uint8,
            9 => PrimitiveType::Uint9,
            10 => PrimitiveType::Uint10,
            11 => PrimitiveType::Uint11,
            12 => PrimitiveType::Uint12,
            13 => PrimitiveType::Uint13,
            14 => PrimitiveType::Uint14,
            15 => PrimitiveType::Uint15,
            16 => PrimitiveType::Uint16,
            17 => PrimitiveType::Uint17,
            18 => PrimitiveType::Uint18,
            19 => PrimitiveType::Uint19,
            20 => PrimitiveType::Uint20,
            21 => PrimitiveType::Uint21,
            22 => PrimitiveType::Uint22,
            23 => PrimitiveType::Uint23,
            24 => PrimitiveType::Uint24,
            25 => PrimitiveType::Uint25,
            26 => PrimitiveType::Uint26,
            27 => PrimitiveType::Uint27,
            28 => PrimitiveType::Uint28,
            29 => PrimitiveType::Uint29,
            30 => PrimitiveType::Uint30,
            31 => PrimitiveType::Uint31,
            32 => PrimitiveType::Uint32,
            33 => PrimitiveType::Uint33,
            34 => PrimitiveType::Uint34,
            35 => PrimitiveType::Uint35,
            36 => PrimitiveType::Uint36,
            37 => PrimitiveType::Uint37,
            38 => PrimitiveType::Uint38,
            39 => PrimitiveType::Uint39,
            40 => PrimitiveType::Uint40,
            41 => PrimitiveType::Uint41,
            42 => PrimitiveType::Uint42,
            43 => PrimitiveType::Uint43,
            44 => PrimitiveType::Uint44,
            45 => PrimitiveType::Uint45,
            46 => PrimitiveType::Uint46,
            47 => PrimitiveType::Uint47,
            48 => PrimitiveType::Uint48,
            49 => PrimitiveType::Uint49,
            50 => PrimitiveType::Uint50,
            51 => PrimitiveType::Uint51,
            52 => PrimitiveType::Uint52,
            53 => PrimitiveType::Uint53,
            54 => PrimitiveType::Uint54,
            55 => PrimitiveType::Uint55,
            56 => PrimitiveType::Uint56,
            57 => PrimitiveType::Uint57,
            58 => PrimitiveType::Uint58,
            59 => PrimitiveType::Uint59,
            60 => PrimitiveType::Uint60,
            61 => PrimitiveType::Uint61,
            62 => PrimitiveType::Uint62,
            63 => PrimitiveType::Uint63,
            _ => PrimitiveType::Uint64,
        },
        PrimitiveKind::Int => match bits {
            2 => PrimitiveType::Int2,
            3 => PrimitiveType::Int3,
            4 => PrimitiveType::Int4,
            5 => PrimitiveType::Int5,
            6 => PrimitiveType::Int6,
            7 => PrimitiveType::Int7,
            8 => PrimitiveType::Int8,
            9 => PrimitiveType::Int9,
            10 => PrimitiveType::Int10,
            11 => PrimitiveType::Int11,
            12 => PrimitiveType::Int12,
            13 => PrimitiveType::Int13,
            14 => PrimitiveType::Int14,
            15 => PrimitiveType::Int15,
            16 => PrimitiveType::Int16,
            17 => PrimitiveType::Int17,
            18 => PrimitiveType::Int18,
            19 => PrimitiveType::Int19,
            20 => PrimitiveType::Int20,
            21 => PrimitiveType::Int21,
            22 => PrimitiveType::Int22,
            23 => PrimitiveType::Int23,
            24 => PrimitiveType::Int24,
            25 => PrimitiveType::Int25,
            26 => PrimitiveType::Int26,
            27 => PrimitiveType::Int27,
            28 => PrimitiveType::Int28,
            29 => PrimitiveType::Int29,
            30 => PrimitiveType::Int30,
            31 => PrimitiveType::Int31,
            32 => PrimitiveType::Int32,
            33 => PrimitiveType::Int33,
            34 => PrimitiveType::Int34,
            35 => PrimitiveType::Int35,
            36 => PrimitiveType::Int36,
            37 => PrimitiveType::Int37,
            38 => PrimitiveType::Int38,
            39 => PrimitiveType::Int39,
            40 => PrimitiveType::Int40,
            41 => PrimitiveType::Int41,
            42 => PrimitiveType::Int42,
            43 => PrimitiveType::Int43,
            44 => PrimitiveType::Int44,
            45 => PrimitiveType::Int45,
            46 => PrimitiveType::Int46,
            47 => PrimitiveType::Int47,
            48 => PrimitiveType::Int48,
            49 => PrimitiveType::Int49,
            50 => PrimitiveType::Int50,
            51 => PrimitiveType::Int51,
            52 => PrimitiveType::Int52,
            53 => PrimitiveType::Int53,
            54 => PrimitiveType::Int54,
            55 => PrimitiveType::Int55,
            56 => PrimitiveType::Int56,
            57 => PrimitiveType::Int57,
            58 => PrimitiveType::Int58,
            59 => PrimitiveType::Int59,
            60 => PrimitiveType::Int60,
            61 => PrimitiveType::Int61,
            62 => PrimitiveType::Int62,
            63 => PrimitiveType::Int63,
            _ => PrimitiveType::Int64,
        },
        PrimitiveKind::Float => match bits {
            16 => PrimitiveType::Float16,
            32 => PrimitiveType::Float32,
            _ => PrimitiveType::Float64,
        },
        PrimitiveKind::Void => match bits {
            1 => PrimitiveType::Void1,
            2 => PrimitiveType::Void2,
            3 => PrimitiveType::Void3,
            4 => PrimitiveType::Void4,
            5 => PrimitiveType::Void5,
            6 => PrimitiveType::Void6,
            7 => PrimitiveType::Void7,
            8 => PrimitiveType::Void8,
            9 => PrimitiveType::Void9,
            10 => PrimitiveType::Void10,
            11 => PrimitiveType::Void11,
            12 => PrimitiveType::Void12,
            13 => PrimitiveType::Void13,
            14 => PrimitiveType::Void14,
            15 => PrimitiveType::Void15,
            16 => PrimitiveType::Void16,
            17 => PrimitiveType::Void17,
            18 => PrimitiveType::Void18,
            19 => PrimitiveType::Void19,
            20 => PrimitiveType::Void20,
            21 => PrimitiveType::Void21,
            22 => PrimitiveType::Void22,
            23 => PrimitiveType::Void23,
            24 => PrimitiveType::Void24,
            25 => PrimitiveType::Void25,
            26 => PrimitiveType::Void26,
            27 => PrimitiveType::Void27,
            28 => PrimitiveType::Void28,
            29 => PrimitiveType::Void29,
            30 => PrimitiveType::Void30,
            31 => PrimitiveType::Void31,
            32 => PrimitiveType::Void32,
            33 => PrimitiveType::Void33,
            34 => PrimitiveType::Void34,
            35 => PrimitiveType::Void35,
            36 => PrimitiveType::Void36,
            37 => PrimitiveType::Void37,
            38 => PrimitiveType::Void38,
            39 => PrimitiveType::Void39,
            40 => PrimitiveType::Void40,
            41 => PrimitiveType::Void41,
            42 => PrimitiveType::Void42,
            43 => PrimitiveType::Void43,
            44 => PrimitiveType::Void44,
            45 => PrimitiveType::Void45,
            46 => PrimitiveType::Void46,
            47 => PrimitiveType::Void47,
            48 => PrimitiveType::Void48,
            49 => PrimitiveType::Void49,
            50 => PrimitiveType::Void50,
            51 => PrimitiveType::Void51,
            52 => PrimitiveType::Void52,
            53 => PrimitiveType::Void53,
            54 => PrimitiveType::Void54,
            55 => PrimitiveType::Void55,
            56 => PrimitiveType::Void56,
            57 => PrimitiveType::Void57,
            58 => PrimitiveType::Void58,
            59 => PrimitiveType::Void59,
            60 => PrimitiveType::Void60,
            61 => PrimitiveType::Void61,
            62 => PrimitiveType::Void62,
            63 => PrimitiveType::Void63,
            _ => PrimitiveType::Void64,
        },
    }
}

/// A name that starts with a family's word belongs to that family, and the rest of it is
/// the numeral of its bit length.
proof fn lemma_kind_forced(p: PrimitiveType, k: PrimitiveKind, sub: Seq<char>)
    requires
        k != PrimitiveKind::Bool,
        kind_prefix(k).len() <= sub.len(),
        sub.take(kind_prefix(k).len() as int) == kind_prefix(k),
        prim_name(p) == sub,
    ensures
        prim_kind(p) == k,
        sub.skip(kind_prefix(k).len() as int) == decimal(prim_bits(p)),
        prim_bits(p) < 100,
{
    assert(sub =~= kind_prefix(k) + sub.skip(kind_prefix(k).len() as int));
    lemma_name_decompose(p, k, sub.skip(kind_prefix(k).len() as int));
    lemma_parts_valid(p);
}

/// A text that starts with none of the families' words names no primitive type.
proof fn lemma_no_family(sub: Seq<char>)
    requires
        sub != kind_prefix(PrimitiveKind::Bool),
        !(kind_prefix(PrimitiveKind::Uint).len() <= sub.len() && sub.take(4) == kind_prefix(
            PrimitiveKind::Uint,
        )),
        !(kind_prefix(PrimitiveKind::Int).len() <= sub.len() && sub.take(3) == kind_prefix(
            PrimitiveKind::Int,
        )),
        !(kind_prefix(PrimitiveKind::Float).len() <= sub.len() && sub.take(5) == kind_prefix(
            PrimitiveKind::Float,
        )),
        !(kind_prefix(PrimitiveKind::Void).len() <= sub.len() && sub.take(4) == kind_prefix(
            PrimitiveKind::Void,
        )),
    ensures
        forall|p: PrimitiveType| prim_name(p) != sub,
{
    assert forall|p: PrimitiveType| prim_name(p) != sub by {
        if prim_name(p) == sub {
            let k = prim_kind(p);
            if k != PrimitiveKind::Bool {
                assert(sub.take(kind_prefix(k).len() as int) =~= kind_prefix(k));
            }
        }
    }
}

/// The number whose numeral is the text of `v` from `start` up to `end`, when it is below 100.
fn parse_small_decimal(v: &[char], start: usize, end: usize) -> (r: Option<u64>)
    requires
        start <= end <= v@.len(),
    ensures
        r matches Some(n) ==> n < 100 && decimal(n as nat) == v@.subrange(start as int, end as int),
        r is None ==> forall|n: nat| n < 100 ==> #[trigger] decimal(n) != v@.subrange(
            start as int,
            end as int,
        ),
{
    let ghost rest = v@.subrange(start as int, end as int);
    if end == start || end - start > 2 {
        proof {
            assert forall|n: nat| n < 100 implies #[trigger] decimal(n) != rest by {
                lemma_decimal(n);
                lemma_decimal_short(n);
            }
        }
        return None;
    }
    let first = v[start];
    if !(first >= '0' && first <= '9') || (first == '0' && end - start == 2) {
        proof {
            assert forall|n: nat| n < 100 implies #[trigger] decimal(n) != rest by {
                lemma_decimal(n);
                if decimal(n) == rest {
                    assert(decimal(n)[0] == first);
                    if first == '0' {
                        assert(decimal(0) =~= seq!['0']);
                    }
                }
            }
        }
        return None;
    }
    let mut n: u64 = (first as u32 - '0' as u32) as u64;
    assert(n as nat == digit_value(first));
    assert(digits_value(Seq::<char>::empty()) == 0);
    assert(seq![first].drop_last() =~= Seq::<char>::empty());
    assert(seq![first].last() == first);
    assert(digits_value(seq![first]) == digit_value(first));
    if end - start == 2 {
        let second = v[start + 1];
        if !(second >= '0' && second <= '9') {
            proof {
                assert forall|n: nat| n < 100 implies #[trigger] decimal(n) != rest by {
                    lemma_decimal(n);
                    if decimal(n) == rest {
                        assert(decimal(n)[1] == second);
                        assert(is_digit_char(decimal(n)[1]));
                    }
                }
            }
            return None;
        }
        n = n * 10 + (second as u32 - '0' as u32) as u64;
        assert(rest.drop_last() =~= seq![first]);
        assert(rest.last() == second);
    } else {
        assert(rest =~= seq![first]);
    }
    assert(digits_value(rest) == n as nat);
    assert(all_digits(rest));
    proof {
        lemma_decimal_of_digits(rest);
    }
    Some(n)
}

/// Whether `n` is a bit length of the family `kind`.
fn bits_valid(kind: PrimitiveKind, n: u64) -> (r: bool)
    ensures
        r == parts_valid(kind, n as nat),
{
    match kind {
        PrimitiveKind::Bool => n == 0,
        PrimitiveKind::Uint => 2 <= n && n <= 64,
        PrimitiveKind::Int => 2 <= n && n <= 64,
        PrimitiveKind::Float => n == 16 || n == 32 || n == 64,
        PrimitiveKind::Void => 1 <= n && n <= 64,
    }
}

/// The primitive type whose keyword is the text of `v` from `start` up to `end`, if any.
pub fn parse_primitive(v: &[char], start: usize, end: usize) -> (r: Option<PrimitiveType>)
    requires
        start <= end <= v@.len(),
    ensures
        r matches Some(p) ==> prim_name(p) == v@.subrange(start as int, end as int),
        r is None ==> forall|p: PrimitiveType| prim_name(p) != v@.subrange(start as int, end as int),
{
    let ghost sub = v@.subrange(start as int, end as int);
    proof {
        reveal_strlit("bool");
        reveal_strlit("uint");
        reveal_strlit("int");
        reveal_strlit("float");
        reveal_strlit("void");
        assert("bool"@ =~= kind_prefix(PrimitiveKind::Bool));
        assert("uint"@ =~= kind_prefix(PrimitiveKind::Uint));
        assert("int"@ =~= kind_prefix(PrimitiveKind::Int));
        assert("float"@ =~= kind_prefix(PrimitiveKind::Float));
        assert("void"@ =~= kind_prefix(PrimitiveKind::Void));
    }
    let is_bool = end - start == 4 && starts_with_at(v, start, "bool");
    if is_bool {
        let p = from_parts(PrimitiveKind::Bool, 0);
        assert(sub =~= kind_prefix(PrimitiveKind::Bool));
        return Some(p);
    }
    assert(sub != kind_prefix(PrimitiveKind::Bool)) by {
        if sub == kind_prefix(PrimitiveKind::Bool) {
            assert(v@.subrange(start as int, start + 4) =~= sub);
        }
    }
    let (kind, plen): (PrimitiveKind, usize) = if starts_with_at(v, start, "uint") {
        (PrimitiveKind::Uint, 4)
    } else if starts_with_at(v, start, "int") {
        (PrimitiveKind::Int, 3)
    } else if starts_with_at(v, start, "float") {
        (PrimitiveKind::Float, 5)
    } else if starts_with_at(v, start, "void") {
        (PrimitiveKind::Void, 4)
    } else {
        proof {
            assert(sub.len() >= 4 ==> sub.take(4) =~= v@.subrange(start as int, start + 4));
            assert(sub.len() >= 3 ==> sub.take(3) =~= v@.subrange(start as int, start + 3));
            assert(sub.len() >= 5 ==> sub.take(5) =~= v@.subrange(start as int, start + 5));
            lemma_no_family(sub);
        }
        return None;
    };
    if plen > end - start {
        proof {
            assert forall|p: PrimitiveType| prim_name(p) != sub by {
                if prim_name(p) == sub {
                    lemma_parts_valid(p);
                    if prim_kind(p) != PrimitiveKind::Bool {
                        lemma_decimal(prim_bits(p));
                    }
                    assert(prim_name(p).len() >= kind_prefix(prim_kind(p)).len());
                    assert(prim_name(p).take(kind_prefix(prim_kind(p)).len() as int) =~= kind_prefix(
                        prim_kind(p),
                    ));
                    assert(v@.subrange(start as int, start + plen) =~= kind_prefix(kind));
                    assert(prim_name(p)[0] == v@[start as int]);
                }
            }
        }
        return None;
    }
    proof {
        assert(v@.subrange(start as int, start + plen) =~= kind_prefix(kind));
        assert(sub.take(plen as int) =~= kind_prefix(kind));
        assert(v@.subrange((start + plen) as int, end as int) =~= sub.skip(plen as int));
    }
    let bits = parse_small_decimal(v, start + plen, end);
    match bits {
        None => {
            proof {
                assert forall|p: PrimitiveType| prim_name(p) != sub by {
                    if prim_name(p) == sub {
                        lemma_kind_forced(p, kind, sub);
                    }
                }
            }
            None
        },
        Some(n) => {
            if !bits_valid(kind, n) {
                proof {
                    assert forall|p: PrimitiveType| prim_name(p) != sub by {
                        if prim_name(p) == sub {
                            lemma_kind_forced(p, kind, sub);
                            lemma_decimal(prim_bits(p));
                            lemma_decimal(n as nat);
                            lemma_parts_valid(p);
                        }
                    }
                }
                return None;
            }
            let p = from_parts(kind, n);
            assert(prim_name(p) =~= sub);
            Some(p)
        },
    }
}

impl PrimitiveType {
    /// Whether the type is one of the `void` padding types.
    pub fn is_void(&self) -> (r: bool)
        ensures
            r == prim_is_void(*self),
    {
        proof {
            reveal(prim_parts);
        }
        match *self {
            PrimitiveType::Void1 => true,
            PrimitiveType::Void2 => true,
            PrimitiveType::Void3 => true,
            PrimitiveType::Void4 => true,
            PrimitiveType::Void5 => true,
            PrimitiveType::Void6 => true,
            PrimitiveType::Void7 => true,
            PrimitiveType::Void8 => true,
            PrimitiveType::Void9 => true,
            PrimitiveType::Void10 => true,
            PrimitiveType::Void11 => true,
            PrimitiveType::Void12 => true,
            PrimitiveType::Void13 => true,
            PrimitiveType::Void14 => true,
            PrimitiveType::Void15 => true,
            PrimitiveType::Void16 => true,
            PrimitiveType::Void17 => true,
            PrimitiveType::Void18 => true,
            PrimitiveType::Void19 => true,
            PrimitiveType::Void20 => true,
            PrimitiveType::Void21 => true,
            PrimitiveType::Void22 => true,
            PrimitiveType::Void23 => true,
            PrimitiveType::Void24 => true,
            PrimitiveType::Void25 => true,
            PrimitiveType::Void26 => true,
            PrimitiveType::Void27 => true,
            PrimitiveType::Void28 => true,
            PrimitiveType::Void29 => true,
            PrimitiveType::Void30 => true,
            PrimitiveType::Void31 => true,
            PrimitiveType::Void32 => true,
            PrimitiveType::Void33 => true,
            PrimitiveType::Void34 => true,
            PrimitiveType::Void35 => true,
            PrimitiveType::Void36 => true,
            PrimitiveType::Void37 => true,
            PrimitiveType::Void38 => true,
            PrimitiveType::Void39 => true,
            PrimitiveType::Void40 => true,
            PrimitiveType::Void41 => true,
            PrimitiveType::Void42 => true,
            PrimitiveType::Void43 => true,
            PrimitiveType::Void44 => true,
            PrimitiveType::Void45 => true,
            PrimitiveType::Void46 => true,
            PrimitiveType::Void47 => true,
            PrimitiveType::Void48 => true,
            PrimitiveType::Void49 => true,
            PrimitiveType::Void50 => true,
            PrimitiveType::Void51 => true,
            PrimitiveType::Void52 => true,
            PrimitiveType::Void53 => true,
            PrimitiveType::Void54 => true,
            PrimitiveType::Void55 => true,
            PrimitiveType::Void56 => true,
            PrimitiveType::Void57 => true,
            PrimitiveType::Void58 => true,
            PrimitiveType::Void59 => true,
            PrimitiveType::Void60 => true,
            PrimitiveType::Void61 => true,
            PrimitiveType::Void62 => true,
            PrimitiveType::Void63 => true,
            PrimitiveType::Void64 => true,
            _ => false,
        }
    }

    /// Parses the keyword of a primitive type.
    pub fn from_str(s: &str) -> (r: Result<PrimitiveType, NotPrimitiveTypeError>)
        ensures
            r matches Ok(p) ==> prim_name(p) == s@,
            r is Err ==> forall|p: PrimitiveType| prim_name(p) != s@,
    {
        let v = chars_of(s);
        assert(v@.subrange(0, v@.len() as int) =~= v@);
        match parse_primitive(v.as_slice(), 0, v.len()) {
            Some(p) => Ok(p),
            None => Err(NotPrimitiveTypeError),
        }
    }

    /// Appends the type's keyword, as `Display` writes it, to `s`.
    pub fn write_to(&self, s: &mut String)
        ensures
            final(s)@ == old(s)@ + prim_name(*self),
    {
        let (kind, bits) = parts(self);
        let ghost start = s@;
        proof {
            reveal_strlit("bool");
            reveal_strlit("uint");
            reveal_strlit("int");
            reveal_strlit("float");
            reveal_strlit("void");
        }
        let word = match kind {
            PrimitiveKind::Bool => chars_of("bool"),
            PrimitiveKind::Uint => chars_of("uint"),
            PrimitiveKind::Int => chars_of("int"),
            PrimitiveKind::Float => chars_of("float"),
            PrimitiveKind::Void => chars_of("void"),
        };
        assert("bool"@ =~= kind_prefix(PrimitiveKind::Bool));
        assert("uint"@ =~= kind_prefix(PrimitiveKind::Uint));
        assert("int"@ =~= kind_prefix(PrimitiveKind::Int));
        assert("float"@ =~= kind_prefix(PrimitiveKind::Float));
        assert("void"@ =~= kind_prefix(PrimitiveKind::Void));
        assert(word@ =~= kind_prefix(kind));
        push_chars(s, word.as_slice());
        if kind != PrimitiveKind::Bool {
            push_decimal(s, bits);
            assert(start + kind_prefix(kind) + decimal(bits as nat) =~= start + prim_name(*self));
        }
    }

    /// The type's keyword, as `Display` writes it.
    pub fn to_string(&self) -> (s: String)
        ensures
            s@ == prim_name(*self),
    {
        let mut s = String::new();
        self.write_to(&mut s);
        assert(Seq::<char>::empty() + prim_name(*self) =~= prim_name(*self));
        s
    }
}

/// Whether a type is one of the `void` padding types.
pub open spec fn ty_is_void(t: Ty) -> bool {
    match t {
        Ty::Primitive(p) => prim_is_void(p),
        Ty::Composite(_) => false,
    }
}

/// The full name of a composite type: its namespace and its name, joined by a dot.
pub open spec fn composite_text(c: CompositeType) -> Seq<char> {
    match c.namespace {
        Some(ns) => ns@ + seq!['.'] + c.name@,
        None => c.name@,
    }
}

/// The text of a type.
pub open spec fn ty_text(t: Ty) -> Seq<char> {
    match t {
        Ty::Primitive(p) => prim_name(p),
        Ty::Composite(c) => composite_text(c),
    }
}

impl Ty {
    /// Whether the type is one of the `void` padding types.
    pub fn is_void(&self) -> (r: bool)
        ensures
            r == ty_is_void(*self),
    {
        match *self {
            Ty::Primitive(ref x) => x.is_void(),
            Ty::Composite(_) => false,
        }
    }

    /// Appends the type, as `Display` writes it, to `s`.
    pub fn write_to(&self, s: &mut String)
        ensures
            final(s)@ == old(s)@ + ty_text(*self),
    {
        match self {
            Ty::Primitive(p) => p.write_to(s),
            Ty::Composite(c) => c.write_to(s),
        }
    }

    /// The type as `Display` writes it.
    pub fn to_string(&self) -> (s: String)
        ensures
            s@ == ty_text(*self),
    {
        let mut s = String::new();
        self.write_to(&mut s);
        assert(Seq::<char>::empty() + ty_text(*self) =~= ty_text(*self));
        s
    }
}

/// Whether `s` holds a dot.
pub open spec fn has_dot(s: Seq<char>) -> bool {
    exists|i: int| 0 <= i < s.len() && s[i] == '.'
}

/// Whether `d` is the position of the last dot of `s`.
pub open spec fn is_last_dot(s: Seq<char>, d: int) -> bool {
    0 <= d < s.len() && s[d] == '.' && forall|j: int| d < j < s.len() ==> s[j] != '.'
}

impl CompositeType {
    /// Splits a full name at its last dot into a namespace and a name; a name without a dot
    /// has no namespace. Every string is accepted.
    pub fn from_str(s: &str) -> (r: Result<CompositeType, ()>)
        ensures
            r is Ok,
            r matches Ok(c) && (!has_dot(s@) ==> c.namespace is None && c.name@ == s@),
            r matches Ok(c) && (has_dot(s@) ==> exists|d: int|
                is_last_dot(s@, d) && (c.namespace matches Some(ns) && ns@ == s@.take(d))
                    && c.name@ == s@.skip(d + 1)),
    {
        let v = chars_of(s);
        let mut i: usize = v.len();
        while i > 0 && v[i - 1] != '.'
            invariant
                0 <= i <= v@.len(),
                v@ == s@,
                forall|j: int| i <= j < v@.len() ==> v@[j] != '.',
            decreases i,
        {
            i = i - 1;
        }
        if i == 0 {
            assert(!has_dot(s@));
            assert(v@.subrange(0, v@.len() as int) =~= s@);
            Ok(CompositeType { namespace: None, name: Ident(string_of_range(v.as_slice(), 0, v.len())) })
        } else {
            let d = i - 1;
            assert(is_last_dot(s@, d as int));
            assert(v@.subrange(0, d as int) =~= s@.take(d as int));
            assert(v@.subrange(i as int, v@.len() as int) =~= s@.skip(i as int));
            let ns = string_of_range(v.as_slice(), 0, d);
            let name = string_of_range(v.as_slice(), i, v.len());
            Ok(CompositeType { namespace: Some(Ident(ns)), name: Ident(name) })
        }
    }

    /// Appends the full name, as `Display` writes it, to `s`.
    pub fn write_to(&self, s: &mut String)
        ensures
            final(s)@ == old(s)@ + composite_text(*self),
    {
        let ghost start = s@;
        match &self.namespace {
            Some(ns) => {
                let a = chars_of(ns.as_str());
                push_chars(s, a.as_slice());
                push_char(s, '.');
            },
            None => {},
        }
        let b = chars_of(self.name.as_str());
        push_chars(s, b.as_slice());
        proof {
            if self.namespace is Some {
                assert(s@ =~= start + composite_text(*self));
            } else {
                assert(s@ =~= start + composite_text(*self));
            }
        }
    }

    /// The full name as `Display` writes it.
    pub fn to_string(&self) -> (s: String)
        ensures
            s@ == composite_text(*self),
    {
        let mut s = String::new();
        self.write_to(&mut s);
        assert(Seq::<char>::empty() + composite_text(*self) =~= composite_text(*self));
        s
    }
}

} // verus!
