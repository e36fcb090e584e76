//! Normalization of DSDL definitions, as the UAVCAN specification describes it for the
//! computation of data type signatures.
//!
//! 1. Comments are removed.
//! 2. Constant definitions are removed.
//! 3. Cast specifiers are made explicit where they were left to the default.
//! 4. Dynamic array limits of the form `[<X]` become `[<=X-1]`.
//! 5. Nested data structures are referred to by their full names.

use vstd::prelude::*;
use crate::ast::array::array_normal_form;
use crate::ast::array::array_normalizable;
use crate::ast::array::ArrayInfo;
use crate::ast::attribute_definition::AttributeDefinition;
use crate::ast::attribute_definition::FieldDefinition;
use crate::ast::cast_mode::CastMode;
use crate::ast::file_name::FileName;
use crate::ast::ident::Ident;
use crate::ast::line::Line;
use crate::ast::ty::prim_is_void;
use crate::ast::ty::CompositeType;
use crate::ast::ty::Ty;
use crate::ast::type_definition::MessageDefinition;
use crate::ast::type_definition::ServiceDefinition;
use crate::ast::type_definition::TypeDefinition;

verus! {

/// The normal form of optional array information.
pub open spec fn opt_array_normal_form(a: Option<ArrayInfo>) -> Option<ArrayInfo> {
    match a {
        Some(x) => Some(array_normal_form(x)),
        None => None,
    }
}

/// Whether optional array information can be normalized.
pub open spec fn opt_array_normalizable(a: Option<ArrayInfo>) -> bool {
    match a {
        Some(x) => array_normalizable(x),
        None => true,
    }
}

/// Whether a field definition can be normalized: its array information has a normal form.
pub open spec fn field_normalizable(f: FieldDefinition) -> bool {
    opt_array_normalizable(f.array)
}

/// The normal form of a field definition in the file `file_name`: a primitive field without a
/// cast mode gets `saturated` (void fields get none), a composite type without a namespace
/// gets the file's namespace, and the array information of every field is normalized.
pub open spec fn field_normal_form(f: FieldDefinition, file_name: FileName) -> FieldDefinition {
    FieldDefinition {
        cast_mode: match f.field_type {
            Ty::Primitive(p) => if f.cast_mode is None && !prim_is_void(p) {
                Some(CastMode::Saturated)
            } else {
                f.cast_mode
            },
            Ty::Composite(_) => f.cast_mode,
        },
        field_type: match f.field_type {
            Ty::Composite(c) => if c.namespace is None {
                Ty::Composite(CompositeType { namespace: Some(Ident(file_name.namespace)), name: c.name })
            } else {
                f.field_type
            },
            Ty::Primitive(_) => f.field_type,
        },
        array: opt_array_normal_form(f.array),
        name: f.name,
    }
}

/// The normal form of an attribute definition: constants are dropped.
pub open spec fn attribute_normal_form(a: AttributeDefinition, file_name: FileName) -> Option<AttributeDefinition> {
    match a {
        AttributeDefinition::Field(f) => Some(AttributeDefinition::Field(field_normal_form(f, file_name))),
        AttributeDefinition::Const(_) => None,
    }
}

/// The normal form of a line: empty lines, comment lines and constants are dropped, and the
/// comments after definitions and directives are removed.
pub open spec fn line_normal_form(l: Line, file_name: FileName) -> Option<Line> {
    match l {
        Line::Empty => None,
        Line::Comment(_) => None,
        Line::Definition { definition, .. } => match attribute_normal_form(definition, file_name) {
            Some(d) => Some(Line::Definition { definition: d, comment: None }),
            None => None,
        },
        Line::Directive { directive, .. } => Some(Line::Directive { directive, comment: None }),
    }
}

/// Whether a line can be normalized.
pub open spec fn line_normalizable(l: Line) -> bool {
    l matches Line::Definition { definition: AttributeDefinition::Field(f), .. } ==> field_normalizable(f)
}

/// The normal forms of the lines that have one, in order.
pub open spec fn lines_normal_form(ls: Seq<Line>, file_name: FileName) -> Seq<Line>
    decreases ls.len(),
{
    if ls.len() == 0 {
        Seq::<Line>::empty()
    } else {
        let rest = lines_normal_form(ls.drop_last(), file_name);
        match line_normal_form(ls.last(), file_name) {
            Some(x) => rest.push(x),
            None => rest,
        }
    }
}

/// Whether all lines can be normalized.
pub open spec fn lines_normalizable(ls: Seq<Line>) -> bool {
    forall|i: int| 0 <= i < ls.len() ==> line_normalizable(#[trigger] ls[i])
}

/// Whether `n` is the normal form of the type definition `t`: the same kind, with the lines of
/// each part normalized.
pub open spec fn is_type_definition_normal_form(n: TypeDefinition, t: TypeDefinition, file_name: FileName) -> bool {
    match t {
        TypeDefinition::Message(m) => n matches TypeDefinition::Message(nm) && nm.0@
            == lines_normal_form(m.0@, file_name),
        TypeDefinition::Service(s) => n matches TypeDefinition::Service(ns) && ns.request.0@
            == lines_normal_form(s.request.0@, file_name) && ns.response.0@ == lines_normal_form(
            s.response.0@,
            file_name,
        ),
    }
}

/// Whether every line of a type definition can be normalized.
pub open spec fn type_definition_normalizable(t: TypeDefinition) -> bool {
    match t {
        TypeDefinition::Message(m) => lines_normalizable(m.0@),
        TypeDefinition::Service(s) => lines_normalizable(s.request.0@) && lines_normalizable(
            s.response.0@,
        ),
    }
}

/// Normalizes optional array information.
fn normalize_opt_array(a: Option<ArrayInfo>) -> (r: Option<ArrayInfo>)
    requires
        opt_array_normalizable(a),
    ensures
        r == opt_array_normal_form(a),
{
    match a {
        Some(x) => Some(x.normalize()),
        None => None,
    }
}

impl FieldDefinition {
    /// Makes the cast mode explicit, normalizes array information and gives composite types
    /// their full names.
    pub fn normalize(self, file_name: &FileName) -> (r: FieldDefinition)
        requires
            field_normalizable(self),
        ensures
            r == field_normal_form(self, *file_name),
    {
        match self {
            // 3. Ensure that all cast specifiers are explicitly defined; if not, add default
            // cast specifiers.
            FieldDefinition { cast_mode: None, field_type: Ty::Primitive(primitive_type), array, name } => {
                if primitive_type.is_void() {
                    FieldDefinition {
                        cast_mode: None,
                        field_type: Ty::Primitive(primitive_type),
                        array: normalize_opt_array(array),
                        name: name,
                    }
                } else {
                    FieldDefinition {
                        cast_mode: Some(CastMode::Saturated),
                        field_type: Ty::Primitive(primitive_type),
                        array: normalize_opt_array(array),
                        name: name,
                    }
                }
            },
            // 5. For nested data structures, replace all short names with full names.
            FieldDefinition {
                field_type: Ty::Composite(CompositeType { namespace: None, name: composite_name }),
                cast_mode,
                array,
                name: field_name,
            } => FieldDefinition {
                cast_mode: cast_mode,
                field_type: Ty::Composite(
                    CompositeType {
                        namespace: Some(Ident(file_name.namespace.clone())),
                        name: composite_name,
                    },
                ),
                array: normalize_opt_array(array),
                name: field_name,
            },
            // 4. Every dynamic array limit of the form [<X] becomes [<=X-1].
            FieldDefinition { cast_mode, field_type, array, name } => FieldDefinition {
                cast_mode,
                field_type,
                array: normalize_opt_array(array),
                name,
            },
        }
    }
}

impl AttributeDefinition {
    /// Normalizes a field; drops a constant.
    pub fn normalize(self, file_name: &FileName) -> (r: Option<AttributeDefinition>)
        requires
            self matches AttributeDefinition::Field(f) ==> field_normalizable(f),
        ensures
            r == attribute_normal_form(self, *file_name),
    {
        match self {
            AttributeDefinition::Field(def) => Some(AttributeDefinition::Field(def.normalize(file_name))),
            // 2. Remove all constant definitions
            AttributeDefinition::Const(_) => None,
        }
    }
}

impl Line {
    /// Normalizes a line: drops empty lines, comment lines and constants, and removes comments.
    pub fn normalize(self, file_name: &FileName) -> (r: Option<Line>)
        requires
            line_normalizable(self),
        ensures
            r == line_normal_form(self, *file_name),
    {
        // 1. Remove comments.
        match self {
            Line::Empty => None,
            Line::Comment(_) => None,
            Line::Definition { definition, .. } => match definition.normalize(file_name) {
                Some(norm_def) => Some(Line::Definition { definition: norm_def, comment: None }),
                None => None,
            },
            Line::Directive { directive, .. } => Some(Line::Directive { directive, comment: None }),
        }
    }
}

impl MessageDefinition {
    /// Normalizes each line, keeping those that have a normal form.
    pub fn normalize(self, file_name: &FileName) -> (r: MessageDefinition)
        requires
            lines_normalizable(self.0@),
        ensures
            r.0@ == lines_normal_form(self.0@, *file_name),
    {
        let ghost lines = self.0@;
        let count = self.0.len();
        assert(lines.len() == count);
        let mut normalized_lines: Vec<Line> = Vec::new();
        let mut rest = self.0;
        let mut i: usize = 0;
        assert(lines.take(0) =~= Seq::<Line>::empty());
        while rest.len() > 0
            invariant
                i + rest@.len() == lines.len(),
                lines.len() <= usize::MAX,
                rest@ == lines.skip(i as int),
                lines_normalizable(lines),
                normalized_lines@ == lines_normal_form(lines.take(i as int), *file_name),
            decreases rest@.len(),
        {
            let line = rest.remove(0);
            assert(line == lines[i as int]);
            assert(line_normalizable(lines[i as int]));
            proof {
                let t = lines.take(i + 1);
                assert(t.drop_last() =~= lines.take(i as int));
                assert(t.last() == line);
            }
            match line.normalize(file_name) {
                Some(x) => normalized_lines.push(x),
                None => {},
            }
            assert(rest@ =~= lines.skip(i + 1));
            i = i + 1;
        }
        assert(lines.take(i as int) =~= lines);
        MessageDefinition(normalized_lines)
    }
}

impl ServiceDefinition {
    /// Normalizes the request and the response part.
    pub fn normalize(self, file_name: &FileName) -> (r: ServiceDefinition)
        requires
            lines_normalizable(self.request.0@),
            lines_normalizable(self.response.0@),
        ensures
            r.request.0@ == lines_normal_form(self.request.0@, *file_name),
            r.response.0@ == lines_normal_form(self.response.0@, *file_name),
    {
        ServiceDefinition {
            request: self.request.normalize(file_name),
            response: self.response.normalize(file_name),
        }
    }
}

impl TypeDefinition {
    /// Normalizes each part of the type definition.
    pub fn normalize(self, file_name: &FileName) -> (r: TypeDefinition)
        requires
            type_definition_normalizable(self),
        ensures
            is_type_definition_normal_form(r, self, *file_name),
    {
        match self {
            TypeDefinition::Message(x) => TypeDefinition::Message(x.normalize(file_name)),
            TypeDefinition::Service(x) => TypeDefinition::Service(x.normalize(file_name)),
        }
    }
}

/// The normal form of a field is its own normal form.
proof fn lemma_field_normal_fixed(g: FieldDefinition, file_name: FileName)
    requires
        field_normalizable(g),
    ensures
        field_normalizable(field_normal_form(g, file_name)),
        field_normal_form(field_normal_form(g, file_name), file_name) == field_normal_form(g, file_name),
{
    let f = field_normal_form(g, file_name);
    match g.array {
        Some(a) => {
            assert(array_normal_form(array_normal_form(a)) == array_normal_form(a));
        },
        None => {},
    }
    match g.field_type {
        Ty::Primitive(p) => {
            if g.cast_mode is None && prim_is_void(p) {
                assert(opt_array_normal_form(opt_array_normal_form(g.array)) == opt_array_normal_form(
                    g.array,
                ));
            }
        },
        Ty::Composite(c) => {},
    }
}

/// The normal form of a line is its own normal form.
proof fn lemma_line_normal_fixed(l: Line, file_name: FileName)
    requires
        line_normalizable(l),
        line_normal_form(l, file_name) is Some,
    ensures
        line_normalizable(line_normal_form(l, file_name).unwrap()),
        line_normal_form(line_normal_form(l, file_name).unwrap(), file_name) == line_normal_form(
            l,
            file_name,
        ),
{
    match l {
        Line::Definition { definition: AttributeDefinition::Field(g), .. } => {
            lemma_field_normal_fixed(g, file_name);
        },
        _ => {},
    }
}

/// Normalization is idempotent: the normal form of lines can be normalized, and is its own
/// normal form.
pub proof fn law_normalize_idempotent(ls: Seq<Line>, file_name: FileName)
    requires
        lines_normalizable(ls),
    ensures
        lines_normalizable(lines_normal_form(ls, file_name)),
        lines_normal_form(lines_normal_form(ls, file_name), file_name) == lines_normal_form(
            ls,
            file_name,
        ),
    decreases ls.len(),
{
    if ls.len() > 0 {
        let init = ls.drop_last();
        assert(lines_normalizable(init)) by {
            assert forall|i: int| 0 <= i < init.len() implies line_normalizable(#[trigger] init[i]) by {
                assert(init[i] == ls[i]);
            }
        }
        law_normalize_idempotent(init, file_name);
        let rest = lines_normal_form(init, file_name);
        assert(line_normalizable(ls.last())) by {
            assert(ls.last() == ls[ls.len() - 1]);
        }
        match line_normal_form(ls.last(), file_name) {
            Some(x) => {
                lemma_line_normal_fixed(ls.last(), file_name);
                let n = rest.push(x);
                assert(n.drop_last() =~= rest);
                assert(n.last() == x);
                assert(lines_normalizable(n)) by {
                    assert forall|i: int| 0 <= i < n.len() implies line_normalizable(#[trigger] n[i]) by {
                        if i < rest.len() {
                            assert(n[i] == rest[i]);
                        }
                    }
                }
            },
            None => {},
        }
    }
}

/// A normalized definition holds nothing but field definitions and directives, without
/// comments: no empty lines, comment lines or constants.
pub proof fn law_normal_form_is_bare(ls: Seq<Line>, file_name: FileName)
    ensures
        forall|i: int| 0 <= i < lines_normal_form(ls, file_name).len() ==> {
            let l = #[trigger] lines_normal_form(ls, file_name)[i];
            ||| l matches Line::Definition { definition: AttributeDefinition::Field(_), comment: None }
            ||| l matches Line::Directive { comment: None, .. }
        },
    decreases ls.len(),
{
    if ls.len() > 0 {
        law_normal_form_is_bare(ls.drop_last(), file_name);
        let rest = lines_normal_form(ls.drop_last(), file_name);
        match line_normal_form(ls.last(), file_name) {
            Some(x) => {
                let n = rest.push(x);
                assert forall|i: int| 0 <= i < n.len() implies {
                    let l = #[trigger] n[i];
                    ||| l matches Line::Definition { definition: AttributeDefinition::Field(_), comment: None }
                    ||| l matches Line::Directive { comment: None, .. }
                } by {
                    if i < rest.len() {
                        assert(n[i] == rest[i]);
                    }
                }
            },
            None => {},
        }
    }
}

// Normalizing without taking ownership

/// A copy of an identifier.
pub(crate) fn copy_ident(i: &Ident) -> (r: Ident)
    ensures
        r == *i,
{
    Ident(i.0.clone())
}

/// A copy of a type.
pub(crate) fn copy_ty(t: &Ty) -> (r: Ty)
    ensures
        r == *t,
{
    match t {
        Ty::Primitive(p) => Ty::Primitive(*p),
        Ty::Composite(c) => Ty::Composite(
            CompositeType {
                namespace: match &c.namespace {
                    Some(ns) => Some(copy_ident(ns)),
                    None => None,
                },
                name: copy_ident(&c.name),
            },
        ),
    }
}

/// A copy of optional array information.
fn copy_array(a: &Option<ArrayInfo>) -> (r: Option<ArrayInfo>)
    ensures
        r == *a,
{
    match a {
        Some(ArrayInfo::DynamicLess(n)) => Some(ArrayInfo::DynamicLess(*n)),
        Some(ArrayInfo::DynamicLeq(n)) => Some(ArrayInfo::DynamicLeq(*n)),
        Some(ArrayInfo::Static(n)) => Some(ArrayInfo::Static(*n)),
        None => None,
    }
}

/// A copy of a field definition.
pub(crate) fn copy_field(f: &FieldDefinition) -> (r: FieldDefinition)
    ensures
        r == *f,
{
    FieldDefinition {
        cast_mode: f.cast_mode,
        field_type: copy_ty(&f.field_type),
        array: copy_array(&f.array),
        name: match &f.name {
            Some(n) => Some(copy_ident(n)),
            None => None,
        },
    }
}

/// The normal form of a line, leaving the line as it is.
fn line_normalized(l: &Line, file_name: &FileName) -> (r: Option<Line>)
    requires
        line_normalizable(*l),
    ensures
        r == line_normal_form(*l, *file_name),
{
    match l {
        Line::Empty => None,
        Line::Comment(_) => None,
        Line::Definition { definition: AttributeDefinition::Field(f), .. } => Some(
            Line::Definition {
                definition: AttributeDefinition::Field(copy_field(f).normalize(file_name)),
                comment: None,
            },
        ),
        Line::Definition { definition: AttributeDefinition::Const(_), .. } => None,
        Line::Directive { directive, .. } => Some(Line::Directive { directive: *directive, comment: None }),
    }
}

/// The normal forms of the lines that have one, leaving the lines as they are.
pub fn lines_normalized(lines: &Vec<Line>, file_name: &FileName) -> (r: Vec<Line>)
    requires
        lines_normalizable(lines@),
    ensures
        r@ == lines_normal_form(lines@, *file_name),
{
    let mut out: Vec<Line> = Vec::new();
    let mut i: usize = 0;
    assert(lines@.take(0) =~= Seq::<Line>::empty());
    while i < lines.len()
        invariant
            0 <= i <= lines@.len(),
            lines_normalizable(lines@),
            out@ == lines_normal_form(lines@.take(i as int), *file_name),
        decreases lines@.len() - i,
    {
        proof {
            let t = lines@.take(i + 1);
            assert(t.drop_last() =~= lines@.take(i as int));
            assert(t.last() == lines@[i as int]);
        }
        match line_normalized(&lines[i], file_name) {
            Some(x) => out.push(x),
            None => {},
        }
        i = i + 1;
    }
    assert(lines@.take(lines@.len() as int) =~= lines@);
    out
}

} // verus!
