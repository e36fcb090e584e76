//! Attribute definitions: fields and constants.

use vstd::prelude::*;
use crate::ast::array::array_text;
use crate::ast::array::ArrayInfo;
use crate::ast::cast_mode::cast_mode_name;
use crate::ast::cast_mode::CastMode;
use crate::ast::ident::Ident;
use crate::ast::lit::lit_text;
use crate::ast::lit::Lit;
use crate::ast::ty::ty_text;
use crate::ast::ty::Ty;
use crate::text::chars_of;
use crate::text::push_char;
use crate::text::push_chars;

verus! {

/// An attribute definition: a field or a constant.
#[derive(Clone, Debug, PartialEq, Eq)]
pub enum AttributeDefinition {
    Field(FieldDefinition),
    Const(ConstDefinition),
}

/// A field definition: `[cast mode] type[array] [name]`; a void field has no name.
#[derive(Clone, Debug, PartialEq, Eq)]
pub struct FieldDefinition {
    pub cast_mode: Option<CastMode>,
    pub field_type: Ty,
    pub array: Option<ArrayInfo>,
    pub name: Option<Ident>,
}

/// A constant definition: `[cast mode] type NAME = literal`.
#[derive(Clone, Debug, PartialEq, Eq)]
pub struct ConstDefinition {
    pub cast_mode: Option<CastMode>,
    pub field_type: Ty,
    pub name: Ident,
    pub literal: Lit,
}

/// The text of an optional cast mode, with the space after it.
pub open spec fn cast_prefix(c: Option<CastMode>) -> Seq<char> {
    match c {
        Some(m) => cast_mode_name(m) + seq![' '],
        None => Seq::<char>::empty(),
    }
}

/// The text of optional array information.
pub open spec fn opt_array_text(a: Option<ArrayInfo>) -> Seq<char> {
    match a {
        Some(x) => array_text(x),
        None => Seq::<char>::empty(),
    }
}

/// The text of a field definition, as `Display` writes it.
pub open spec fn field_text(f: FieldDefinition) -> Seq<char> {
    cast_prefix(f.cast_mode) + ty_text(f.field_type) + opt_array_text(f.array) + match f.name {
        Some(n) => seq![' '] + n@,
        None => Seq::<char>::empty(),
    }
}

/// The text of a constant definition, as `Display` writes it.
pub open spec fn const_text(c: ConstDefinition) -> Seq<char> {
    cast_prefix(c.cast_mode) + ty_text(c.field_type) + seq![' '] + c.name@ + seq![' ', '=', ' ']
        + lit_text(c.literal)
}

/// The text of an attribute definition, as `Display` writes it.
pub open spec fn attribute_text(a: AttributeDefinition) -> Seq<char> {
    match a {
        AttributeDefinition::Field(f) => field_text(f),
        AttributeDefinition::Const(c) => const_text(c),
    }
}

/// Appends an optional cast mode and a space to `s`.
fn write_cast_prefix(c: &Option<CastMode>, s: &mut String)
    ensures
        final(s)@ == old(s)@ + cast_prefix(*c),
{
    let ghost start = s@;
    match c {
        Some(m) => {
            let t = m.to_string();
            let v = chars_of(t.as_str());
            push_chars(s, v.as_slice());
            push_char(s, ' ');
        },
        None => {},
    }
    assert(s@ =~= start + cast_prefix(*c));
}

impl FieldDefinition {
    /// Appends the field definition, as `Display` writes it, to `s`.
    pub fn write_to(&self, s: &mut String)
        ensures
            final(s)@ == old(s)@ + field_text(*self),
    {
        let ghost start = s@;
        write_cast_prefix(&self.cast_mode, s);
        self.field_type.write_to(s);
        match &self.array {
            Some(a) => a.write_to(s),
            None => {},
        }
        let ghost mid = s@;
        assert(mid =~= start + cast_prefix(self.cast_mode) + ty_text(self.field_type) + opt_array_text(self.array));
        match &self.name {
            Some(n) => {
                push_char(s, ' ');
                let v = chars_of(n.as_str());
                push_chars(s, v.as_slice());
            },
            None => {},
        }
        assert(s@ =~= start + field_text(*self));
    }
}

impl ConstDefinition {
    /// Appends the constant definition, as `Display` writes it, to `s`.
    pub fn write_to(&self, s: &mut String)
        ensures
            final(s)@ == old(s)@ + const_text(*self),
    {
        let ghost start = s@;
        write_cast_prefix(&self.cast_mode, s);
        self.field_type.write_to(s);
        push_char(s, ' ');
        let v = chars_of(self.name.as_str());
        push_chars(s, v.as_slice());
        push_char(s, ' ');
        push_char(s, '=');
        push_char(s, ' ');
        self.literal.write_to(s);
        assert(s@ =~= start + const_text(*self));
    }
}

impl AttributeDefinition {
    /// Appends the attribute definition, as `Display` writes it, to `s`.
    pub fn write_to(&self, s: &mut String)
        ensures
            final(s)@ == old(s)@ + attribute_text(*self),
    {
        match self {
            AttributeDefinition::Field(f) => f.write_to(s),
            AttributeDefinition::Const(c) => c.write_to(s),
        }
    }
}

} // verus!
