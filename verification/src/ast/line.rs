//! Lines of a DSDL file.

use vstd::prelude::*;
use crate::ast::attribute_definition::attribute_text;
use crate::ast::attribute_definition::AttributeDefinition;
use crate::ast::comment::Comment;
use crate::ast::directive::directive_text;
use crate::ast::directive::Directive;
use crate::text::chars_of;
use crate::text::push_char;
use crate::text::push_chars;

verus! {

/// A `Line` in a DSDL `File`
///
/// A data structure definition consists of attributes and directives.
/// Any line of the definition file may contain at most one attribute definition or at most one
/// directive. The same line cannot contain an attribute definition and a directive at the same
/// time.
#[derive(Clone, Debug, PartialEq, Eq)]
pub enum Line {
    Empty,
    Comment(Comment),
    Definition { definition: AttributeDefinition, comment: Option<Comment> },
    Directive { directive: Directive, comment: Option<Comment> },
}

/// The text of an optional trailing comment: a space, `#` and the comment.
pub open spec fn trailing_comment_text(c: Option<Comment>) -> Seq<char> {
    match c {
        Some(c) => seq![' ', '#'] + c@,
        None => Seq::<char>::empty(),
    }
}

/// The text of a line, as `Display` writes it.
pub open spec fn line_text(l: Line) -> Seq<char> {
    match l {
        Line::Empty => Seq::<char>::empty(),
        Line::Comment(c) => seq!['#'] + c@,
        Line::Definition { definition, comment } => attribute_text(definition)
            + trailing_comment_text(comment),
        Line::Directive { directive, comment } => directive_text(directive)
            + trailing_comment_text(comment),
    }
}

/// Appends a space, `#` and the comment, if there is one.
fn write_trailing_comment(c: &Option<Comment>, s: &mut String)
    ensures
        final(s)@ == old(s)@ + trailing_comment_text(*c),
{
    let ghost start = s@;
    match c {
        Some(c) => {
            push_char(s, ' ');
            push_char(s, '#');
            let v = chars_of(c.as_str());
            push_chars(s, v.as_slice());
        },
        None => {},
    }
    assert(s@ =~= start + trailing_comment_text(*c));
}

impl Line {
    /// returns true if the `Line` is empty
    pub fn is_empty(&self) -> (r: bool)
        ensures
            r == (*self is Empty),
    {
        match *self {
            Line::Empty => true,
            _ => false,
        }
    }

    /// returns true if the `Line` contains a directive
    pub fn is_directive(&self) -> (r: bool)
        ensures
            r == (*self is Directive),
    {
        match *self {
            Line::Directive { .. } => true,
            _ => false,
        }
    }

    /// returns true if the `Line` contains a definition
    pub fn is_definition(&self) -> (r: bool)
        ensures
            r == (*self is Definition),
    {
        match *self {
            Line::Definition { .. } => true,
            _ => false,
        }
    }

    /// returns true if the `Line` is nothing but a comment
    pub fn is_comment(&self) -> (r: bool)
        ensures
            r == (*self is Comment),
    {
        match *self {
            Line::Comment(_) => true,
            _ => false,
        }
    }

    /// returns true if the `Line` contains a comment
    pub fn has_comment(&self) -> (r: bool)
        ensures
            r == (*self is Comment || (*self matches Line::Directive { comment, .. } && comment is Some)
                || (*self matches Line::Definition { comment, .. } && comment is Some)),
    {
        match *self {
            Line::Comment(_) => true,
            Line::Directive { comment: Some(_), .. } => true,
            Line::Definition { comment: Some(_), .. } => true,
            _ => false,
        }
    }

    /// Appends the line, as `Display` writes it, to `s`.
    pub fn write_to(&self, s: &mut String)
        ensures
            final(s)@ == old(s)@ + line_text(*self),
    {
        let ghost start = s@;
        match self {
            Line::Empty => {
                assert(start + line_text(*self) =~= start);
            },
            Line::Comment(c) => {
                push_char(s, '#');
                let v = chars_of(c.as_str());
                push_chars(s, v.as_slice());
                assert(s@ =~= start + line_text(*self));
            },
            Line::Definition { definition, comment } => {
                definition.write_to(s);
                write_trailing_comment(comment, s);
                assert(s@ =~= start + line_text(*self));
            },
            Line::Directive { directive, comment } => {
                let t = directive.to_string();
                let v = chars_of(t.as_str());
                push_chars(s, v.as_slice());
                write_trailing_comment(comment, s);
                assert(s@ =~= start + line_text(*self));
            },
        }
    }

    /// The line as `Display` writes it.
    pub fn to_string(&self) -> (s: String)
        ensures
            s@ == line_text(*self),
    {
        let mut s = String::new();
        self.write_to(&mut s);
        assert(Seq::<char>::empty() + line_text(*self) =~= line_text(*self));
        s
    }
}

} // verus!
