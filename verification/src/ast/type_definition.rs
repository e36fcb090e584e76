//! Type definitions: messages and services.

use vstd::prelude::*;
use crate::ast::line::line_text;
use crate::ast::line::Line;
use crate::text::push_char;

verus! {

/// A type definition: a message, or a service with a request and a response part.
#[derive(Clone, Debug, PartialEq, Eq)]
pub enum TypeDefinition {
    Message(MessageDefinition),
    Service(ServiceDefinition),
}

/// A message definition: its lines.
#[derive(Clone, Debug, PartialEq, Eq)]
pub struct MessageDefinition(pub Vec<Line>);

/// A service definition: the request part, then the response part after `---`.
#[derive(Clone, Debug, PartialEq, Eq)]
pub struct ServiceDefinition {
    pub request: MessageDefinition,
    pub response: MessageDefinition,
}

/// The text of lines, one after the other, separated by line breaks.
pub open spec fn lines_text(ls: Seq<Line>) -> Seq<char>
    decreases ls.len(),
{
    if ls.len() == 0 {
        Seq::<char>::empty()
    } else if ls.len() == 1 {
        line_text(ls[0])
    } else {
        lines_text(ls.drop_last()) + seq!['\n'] + line_text(ls.last())
    }
}

/// The text of a service definition's separator line, with its line breaks.
pub open spec fn service_separator() -> Seq<char> {
    seq!['\n', '-', '-', '-', '\n']
}

/// The text of lines with a line break before each one.
pub open spec fn broken_lines_text(ls: Seq<Line>) -> Seq<char>
    decreases ls.len(),
{
    if ls.len() == 0 {
        Seq::<char>::empty()
    } else {
        broken_lines_text(ls.drop_last()) + seq!['\n'] + line_text(ls.last())
    }
}

/// The service response marker, after a line break.
pub open spec fn broken_marker() -> Seq<char> {
    seq!['\n', '-', '-', '-']
}

/// The text of a normalized type definition as it follows the full name in the normal form of
/// a file: each line after a line break, and for a service the response marker, after a line
/// break, between the request and the response lines. No line of it is blank.
pub open spec fn normalized_definition_text(t: TypeDefinition) -> Seq<char> {
    match t {
        TypeDefinition::Message(m) => broken_lines_text(m.0@),
        TypeDefinition::Service(s) => broken_lines_text(s.request.0@) + broken_marker()
            + broken_lines_text(s.response.0@),
    }
}

/// The text of a type definition, as `Display` writes it.
pub open spec fn type_definition_text(t: TypeDefinition) -> Seq<char> {
    match t {
        TypeDefinition::Message(m) => lines_text(m.0@),
        TypeDefinition::Service(s) => lines_text(s.request.0@) + service_separator() + lines_text(
            s.response.0@,
        ),
    }
}

impl MessageDefinition {
    /// Appends the lines, separated by line breaks, to `s`.
    pub fn write_to(&self, s: &mut String)
        ensures
            final(s)@ == old(s)@ + lines_text(self.0@),
    {
        let ghost start = s@;
        let mut i: usize = 0;
        assert(self.0@.take(0) =~= Seq::<Line>::empty());
        assert(start + lines_text(Seq::<Line>::empty()) =~= start);
        while i < self.0.len()
            invariant
                0 <= i <= self.0@.len(),
                s@ == start + lines_text(self.0@.take(i as int)),
            decreases self.0@.len() - i,
        {
            let ghost before = s@;
            if i > 0 {
                push_char(s, '\n');
            }
            self.0[i].write_to(s);
            proof {
                let t = self.0@.take(i + 1);
                assert(t.drop_last() =~= self.0@.take(i as int));
                assert(t.last() == self.0@[i as int]);
                if i == 0 {
                    assert(t =~= seq![self.0@[0]]);
                    assert(s@ =~= start + lines_text(t));
                } else {
                    assert(s@ =~= start + lines_text(t));
                }
            }
            i = i + 1;
        }
        assert(self.0@.take(self.0@.len() as int) =~= self.0@);
    }
}

impl MessageDefinition {
    /// Appends the lines to `s`, each after a line break.
    pub fn write_broken_lines_to(&self, s: &mut String)
        ensures
            final(s)@ == old(s)@ + broken_lines_text(self.0@),
    {
        let ghost start = s@;
        let mut i: usize = 0;
        assert(self.0@.take(0) =~= Seq::<Line>::empty());
        assert(start + broken_lines_text(Seq::<Line>::empty()) =~= start);
        while i < self.0.len()
            invariant
                0 <= i <= self.0@.len(),
                s@ == start + broken_lines_text(self.0@.take(i as int)),
            decreases self.0@.len() - i,
        {
            push_char(s, '\n');
            self.0[i].write_to(s);
            proof {
                let t = self.0@.take(i + 1);
                assert(t.drop_last() =~= self.0@.take(i as int));
                assert(t.last() == self.0@[i as int]);
                assert(s@ =~= start + broken_lines_text(t));
            }
            i = i + 1;
        }
        assert(self.0@.take(self.0@.len() as int) =~= self.0@);
    }
}

impl TypeDefinition {
    /// Appends the type definition as it stands in the normal form of a file to `s`.
    pub fn write_normalized_to(&self, s: &mut String)
        ensures
            final(s)@ == old(s)@ + normalized_definition_text(*self),
    {
        let ghost start = s@;
        match self {
            TypeDefinition::Message(m) => m.write_broken_lines_to(s),
            TypeDefinition::Service(x) => {
                x.request.write_broken_lines_to(s);
                push_char(s, '\n');
                push_char(s, '-');
                push_char(s, '-');
                push_char(s, '-');
                x.response.write_broken_lines_to(s);
                assert(s@ =~= start + normalized_definition_text(*self));
            },
        }
    }

    /// Appends the type definition, as `Display` writes it, to `s`.
    pub fn write_to(&self, s: &mut String)
        ensures
            final(s)@ == old(s)@ + type_definition_text(*self),
    {
        let ghost start = s@;
        match self {
            TypeDefinition::Message(m) => m.write_to(s),
            TypeDefinition::Service(x) => {
                x.request.write_to(s);
                push_char(s, '\n');
                push_char(s, '-');
                push_char(s, '-');
                push_char(s, '-');
                push_char(s, '\n');
                x.response.write_to(s);
                assert(s@ =~= start + type_definition_text(*self));
            },
        }
    }

    /// The type definition as `Display` writes it.
    pub fn to_string(&self) -> (s: String)
        ensures
            s@ == type_definition_text(*self),
    {
        let mut s = String::new();
        self.write_to(&mut s);
        assert(Seq::<char>::empty() + type_definition_text(*self) =~= type_definition_text(*self));
        s
    }
}

} // verus!
