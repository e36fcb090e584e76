//! Configurable options relating to compilation

use vstd::prelude::*;
use crate::text::chars_of;
use crate::text::str_equals;

verus! {

/// Makes certain things in the compilation process configurable. `CompileConfig::default()` is
/// generally safe to use.
pub struct CompileConfig {
    /// Compile data type signatures for types `#[DataTypeSignature = "0x12345678"]`
    pub data_type_signature: bool,
    /// Sets strategy for deriving the `Default` trait
    pub derive_default: DeriveDefault,
}

impl Default for CompileConfig {
    fn default() -> (c: CompileConfig)
        ensures
            !c.data_type_signature,
            c.derive_default == DeriveDefault::PrimitiveTypes,
    {
        CompileConfig { data_type_signature: false, derive_default: DeriveDefault::default() }
    }
}

/// Strategy for deriving the `Default` trait
#[derive(Debug, PartialEq, Eq, Clone, Copy, Structural)]
pub enum DeriveDefault {
    /// Derive default for structs only when the struct consists of primitive types or arrays
    /// of primitive types.
    PrimitiveTypes,
}

/// The error for a name that is no strategy.
#[derive(Debug, PartialEq, Eq, Clone, Copy, Structural)]
pub enum ParseDeriveDefaultError {
    NotVariant,
}

impl Default for DeriveDefault {
    fn default() -> (d: DeriveDefault)
        ensures
            d == DeriveDefault::PrimitiveTypes,
    {
        DeriveDefault::PrimitiveTypes
    }
}

/// The name of the strategy, `primitive-types`.
pub open spec fn primitive_types_name() -> Seq<char> {
    seq!['p', 'r', 'i', 'm', 'i', 't', 'i', 'v', 'e', '-', 't', 'y', 'p', 'e', 's']
}

impl DeriveDefault {
    /// Parses the name of a strategy: `primitive-types`.
    pub fn from_str(s: &str) -> (r: Result<DeriveDefault, ParseDeriveDefaultError>)
        ensures
            s@ == primitive_types_name() ==> r == Ok::<_, ParseDeriveDefaultError>(
                DeriveDefault::PrimitiveTypes,
            ),
            s@ != primitive_types_name() ==> r == Err::<DeriveDefault, _>(
                ParseDeriveDefaultError::NotVariant,
            ),
    {
        let v = chars_of(s);
        proof {
            reveal_strlit("primitive-types");
            assert("primitive-types"@ =~= primitive_types_name());
        }
        if str_equals(v.as_slice(), "primitive-types") {
            Ok(DeriveDefault::PrimitiveTypes)
        } else {
            Err(ParseDeriveDefaultError::NotVariant)
        }
    }
}

} // verus!
