//! All the parse errors.

use vstd::prelude::*;
use crate::ast::ident::Ident;
use crate::lexer::Token;
use crate::text::chars_of;
use crate::text::push_chars;

verus! {

/// An error met while parsing, with its severity and where it was met (a byte offset).
#[derive(PartialEq, Debug, Clone)]
pub struct ParseError {
    severity: ParseErrorSeverity,
    kind: ParseErrorKind,
    location: Option<usize>,
}

/// How severe an error is.
#[derive(PartialEq, Debug, Clone, Copy, Eq, Structural)]
pub enum ParseErrorSeverity {
    Info,
    Warning,
    Error,
}

/// What went wrong.
#[derive(PartialEq, Debug, Clone)]
pub enum ParseErrorKind {
    /// Encountered something that is not a valid token.
    InvalidToken,
    /// A directive name that no directive has.
    UnknownDirectiveName(Ident),
    /// A token that the grammar does not allow where it stands.
    UnexpectedToken(Token),
    /// Indicate that the attempted parsed type definition was invalid.
    InvalidTypeDefinition,
}

/// The least severity of an error of a kind: every kind is an error.
pub open spec fn kind_minimum_severity(k: ParseErrorKind) -> ParseErrorSeverity {
    ParseErrorSeverity::Error
}

impl ParseError {
    /// Create an error with minimum required severity.
    ///
    /// Severity can be "upgraded" at a later point, but never "downgraded".
    pub fn new(kind: ParseErrorKind, location: Option<usize>) -> (e: ParseError)
        ensures
            e.severity_spec() == kind_minimum_severity(kind),
            e.kind_spec() == kind,
            e.location_spec() == location,
    {
        let severity = kind.minimum_severity();
        ParseError { kind, severity, location }
    }

    /// The severity.
    pub closed spec fn severity_spec(&self) -> ParseErrorSeverity {
        self.severity
    }

    /// The kind.
    pub closed spec fn kind_spec(&self) -> ParseErrorKind {
        self.kind
    }

    /// The location.
    pub closed spec fn location_spec(&self) -> Option<usize> {
        self.location
    }

    /// The severity of the error.
    pub fn severity(&self) -> (s: ParseErrorSeverity)
        ensures
            s == self.severity_spec(),
    {
        self.severity
    }

    /// What went wrong.
    pub fn kind(&self) -> (k: &ParseErrorKind)
        ensures
            *k == self.kind_spec(),
    {
        &self.kind
    }

    /// Where it went wrong, as a byte offset into the text, when that is known.
    pub fn location(&self) -> (l: Option<usize>)
        ensures
            l == self.location_spec(),
    {
        self.location
    }
}

impl ParseErrorKind {
    /// A sentence that explains the error.
    pub fn explain(&self) -> (s: String)
        ensures
            s@ == explanation(*self),
    {
        proof {
            reveal_strlit("Encountered something that is not recognized as a valid token");
            reveal_strlit("The identifier \"");
            reveal_strlit("\" is not recognized as a directive");
            reveal_strlit("The token \"");
            reveal_strlit("\" is not expected in this context");
            reveal_strlit("Type definition was not valid");
        }
        match self {
            ParseErrorKind::InvalidToken => "Encountered something that is not recognized as a valid token".to_owned(),
            ParseErrorKind::UnknownDirectiveName(x) => {
                let mut s = "The identifier \"".to_owned();
                let v = chars_of(x.as_str());
                push_chars(&mut s, v.as_slice());
                let tail = chars_of("\" is not recognized as a directive");
                push_chars(&mut s, tail.as_slice());
                s
            },
            ParseErrorKind::UnexpectedToken(x) => {
                let mut s = "The token \"".to_owned();
                let t = x.to_string();
                let v = chars_of(t.as_str());
                push_chars(&mut s, v.as_slice());
                let tail = chars_of("\" is not expected in this context");
                push_chars(&mut s, tail.as_slice());
                s
            },
            ParseErrorKind::InvalidTypeDefinition => "Type definition was not valid".to_owned(),
        }
    }

    /// The least severity that an error of this kind has.
    pub fn minimum_severity(&self) -> (s: ParseErrorSeverity)
        ensures
            s == kind_minimum_severity(*self),
    {
        match self {
            ParseErrorKind::InvalidToken => ParseErrorSeverity::Error,
            ParseErrorKind::UnknownDirectiveName(_) => ParseErrorSeverity::Error,
            ParseErrorKind::UnexpectedToken(_) => ParseErrorSeverity::Error,
            ParseErrorKind::InvalidTypeDefinition => ParseErrorSeverity::Error,
        }
    }
}

/// The sentence that explains an error of a kind.
pub open spec fn explanation(k: ParseErrorKind) -> Seq<char> {
    match k {
        ParseErrorKind::InvalidToken => "Encountered something that is not recognized as a valid token"@,
        ParseErrorKind::UnknownDirectiveName(x) => "The identifier \""@ + x@
            + "\" is not recognized as a directive"@,
        ParseErrorKind::UnexpectedToken(t) => "The token \""@ + crate::lexer::token_text(t@)
            + "\" is not expected in this context"@,
        ParseErrorKind::InvalidTypeDefinition => "Type definition was not valid"@,
    }
}

} // verus!
