//! Cast modes: how a native value is converted to a field value.

use vstd::prelude::*;
use crate::text::chars_of;
use crate::text::str_equals;

verus! {

/// Cast mode defines the rules of conversion from the native value of a certain programming
/// language to the serialized field value.
///
/// Cast mode may be left undefined, in which case the default will be used.
#[derive(Clone, Copy, Debug, PartialEq, Eq, Structural)]
pub enum CastMode {
    /// The default cast mode: values out of range are clamped to the field's range.
    Saturated,
    /// For integers, the excess most significant bits are discarded.
    Truncated,
}

/// Errors that may occur when parsing a `CastMode`.
#[derive(Clone, Debug, PartialEq, Eq)]
pub enum ParseCastModeError {
    NotCastMode(String),
}

/// The keyword of a cast mode.
pub open spec fn cast_mode_name(m: CastMode) -> Seq<char> {
    match m {
        CastMode::Saturated => seq!['s', 'a', 't', 'u', 'r', 'a', 't', 'e', 'd'],
        CastMode::Truncated => seq!['t', 'r', 'u', 'n', 'c', 'a', 't', 'e', 'd'],
    }
}

impl CastMode {
    /// Parses the keyword `saturated` or `truncated`.
    pub fn from_str(s: &str) -> (r: Result<CastMode, ParseCastModeError>)
        ensures
            s@ == cast_mode_name(CastMode::Saturated) <==> r == Ok::<_, ParseCastModeError>(
                CastMode::Saturated,
            ),
            s@ == cast_mode_name(CastMode::Truncated) <==> r == Ok::<_, ParseCastModeError>(
                CastMode::Truncated,
            ),
            r matches Err(ParseCastModeError::NotCastMode(t)) ==> t@ == s@,
    {
        let v = chars_of(s);
        proof {
            reveal_strlit("saturated");
            reveal_strlit("truncated");
            assert("saturated"@ =~= cast_mode_name(CastMode::Saturated));
            assert("truncated"@ =~= cast_mode_name(CastMode::Truncated));
        }
        if str_equals(v.as_slice(), "saturated") {
            Ok(CastMode::Saturated)
        } else if str_equals(v.as_slice(), "truncated") {
            Ok(CastMode::Truncated)
        } else {
            Err(ParseCastModeError::NotCastMode(s.to_owned()))
        }
    }

    /// The cast mode's keyword, as `Display` writes it.
    pub fn to_string(&self) -> (s: String)
        ensures
            s@ == cast_mode_name(*self),
    {
        proof {
            reveal_strlit("saturated");
            reveal_strlit("truncated");
            assert("saturated"@ =~= cast_mode_name(CastMode::Saturated));
            assert("truncated"@ =~= cast_mode_name(CastMode::Truncated));
        }
        match self {
            CastMode::Saturated => "saturated".to_owned(),
            CastMode::Truncated => "truncated".to_owned(),
        }
    }
}

} // verus!
