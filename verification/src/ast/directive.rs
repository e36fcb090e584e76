//! Directives: `@` followed by a word, such as `@union`.

use vstd::prelude::*;
use crate::ast::ident::Ident;
use crate::text::chars_of;
use crate::text::str_equals;

verus! {

/// A UAVCAN directive.
///
/// A directive is a single case-sensitive word starting with an "at sign" (@),
/// possibly followed by space-separated arguments.
#[derive(Clone, Copy, Debug, PartialEq, Eq, Structural)]
#[non_exhaustive]
pub enum Directive {
    /// The current message, or the current part of a service, is a tagged union: it encodes
    /// one of its fields at a time, with an implicit tag saying which.
    Union,
}

/// Errors that may occur when parsing a `Directive`.
#[derive(Clone, Debug, PartialEq, Eq)]
pub enum ParseDirectiveError {
    NotDirective(String),
}

/// The word `union`.
pub open spec fn union_word() -> Seq<char> {
    seq!['u', 'n', 'i', 'o', 'n']
}

/// The text of a directive, with its `@`.
pub open spec fn directive_text(d: Directive) -> Seq<char> {
    match d {
        Directive::Union => seq!['@'] + union_word(),
    }
}

impl Directive {
    /// The directive that an identifier names: `union` is the only one.
    pub fn try_from(ident: Ident) -> (r: Result<Directive, ParseDirectiveError>)
        ensures
            ident@ == union_word() <==> r == Ok::<_, ParseDirectiveError>(Directive::Union),
            r matches Err(ParseDirectiveError::NotDirective(t)) ==> t@ == ident@,
    {
        let v = chars_of(ident.as_str());
        proof {
            reveal_strlit("union");
            assert("union"@ =~= union_word());
        }
        if str_equals(v.as_slice(), "union") {
            Ok(Directive::Union)
        } else {
            Err(ParseDirectiveError::NotDirective(ident.into_string()))
        }
    }

    /// Parses a directive, written with or without its `@`.
    pub fn from_str(s: &str) -> (r: Result<Directive, ParseDirectiveError>)
        ensures
            (s@ == union_word() || s@ == directive_text(Directive::Union)) <==> r == Ok::<
                _,
                ParseDirectiveError,
            >(Directive::Union),
            r matches Err(ParseDirectiveError::NotDirective(t)) ==> t@ == s@,
    {
        let v = chars_of(s);
        proof {
            reveal_strlit("@union");
            reveal_strlit("union");
            assert("union"@ =~= union_word());
            assert("@union"@ =~= seq!['@'] + union_word());
        }
        if str_equals(v.as_slice(), "@union") {
            Ok(Directive::Union)
        } else if str_equals(v.as_slice(), "union") {
            Ok(Directive::Union)
        } else {
            Err(ParseDirectiveError::NotDirective(s.to_owned()))
        }
    }

    /// The directive as `Display` writes it, with its `@`.
    pub fn to_string(&self) -> (s: String)
        ensures
            s@ == directive_text(*self),
    {
        proof {
            reveal_strlit("@union");
            assert("@union"@ =~= seq!['@'] + union_word());
        }
        match self {
            Directive::Union => "@union".to_owned(),
        }
    }
}

} // verus!
