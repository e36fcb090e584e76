//! Identifiers: names of types, fields, constants and directives.

use vstd::prelude::*;

verus! {

/// An identifier (a name).
#[derive(Clone, Debug, PartialEq, Eq)]
pub struct Ident(pub String);

impl View for Ident {
    type V = Seq<char>;

    open spec fn view(&self) -> Seq<char> {
        self.0@
    }
}

impl Ident {
    /// An identifier holding `s`; every string is accepted.
    pub fn from_str(s: &str) -> (r: Result<Ident, ()>)
        ensures
            r matches Ok(id) && id@ == s@,
    {
        Ok(Ident(s.to_owned()))
    }

    /// The identifier's text.
    pub fn as_str(&self) -> (s: &str)
        ensures
            s@ == self@,
    {
        self.0.as_str()
    }

    /// The identifier's text, as an owned string.
    pub fn into_string(self) -> (s: String)
        ensures
            s@ == self@,
    {
        self.0
    }

    /// The identifier's text, as it is written in a DSDL file.
    pub fn to_string(&self) -> (s: String)
        ensures
            s@ == self@,
    {
        self.0.clone()
    }
}

} // verus!
