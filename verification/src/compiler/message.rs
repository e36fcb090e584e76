//! Messages compiled into Rust structs, and unions into Rust enums.

use vstd::prelude::*;
use crate::ast::attribute_definition::AttributeDefinition;
use crate::ast::comment::Comment;
use crate::ast::line::Line;
use crate::ast::ty::ty_is_void;
use crate::ast::type_definition::MessageDefinition;
use crate::compiler::codegen::field_compilable;
use crate::compiler::codegen::field_spec;
use crate::compiler::codegen::pascal_case;
use crate::compiler::codegen::variant_spec;
use crate::compiler::codegen::Compile;
use crate::compiler::rust::attrs_view;
use crate::compiler::rust::fields_view;
use crate::compiler::rust::variants_view;
use crate::compiler::rust::kind_view;
use crate::compiler::rust::Attribute;
use crate::compiler::rust::AttributeV;
use crate::compiler::rust::Field;
use crate::compiler::rust::FieldV;
use crate::compiler::rust::ItemKind;
use crate::compiler::rust::ItemKindV;
use crate::compiler::rust::Variant;
use crate::compiler::rust::VariantV;
use crate::ast::file_name::string_views;
use crate::normalize::copy_field;
use crate::parser::lines::copy_string;
use crate::text::decimal;
use crate::text::push_char;
use crate::text::push_decimal;

verus! {

/// The `#[doc]` lines that open a message: its comment lines up to the first line that is no
/// comment; directives do not count.
pub open spec fn leading_docs(ls: Seq<Line>) -> Seq<AttributeV>
    decreases ls.len(),
{
    if ls.len() == 0 {
        Seq::<AttributeV>::empty()
    } else {
        match ls[0] {
            Line::Comment(c) => seq![AttributeV::Doc(c@)] + leading_docs(ls.drop_first()),
            Line::Directive { .. } => leading_docs(ls.drop_first()),
            _ => Seq::<AttributeV>::empty(),
        }
    }
}

/// Whether a message is a union: it has a directive (`@union` is the only one).
pub open spec fn is_union(ls: Seq<Line>) -> bool {
    exists|i: int| 0 <= i < ls.len() && ls[i] is Directive
}

/// The attributes of the struct or enum of a message: its leading documentation, the derives,
/// and the name of the crate that the generated code uses.
pub open spec fn message_attrs(ls: Seq<Line>) -> Seq<AttributeV> {
    leading_docs(ls) + seq![
        AttributeV::List(
            seq!['d', 'e', 'r', 'i', 'v', 'e'],
            seq![
                seq!['D', 'e', 'b', 'u', 'g'],
                seq!['C', 'l', 'o', 'n', 'e'],
                seq!['U', 'a', 'v', 'c', 'a', 'n', 'S', 't', 'r', 'u', 'c', 't'],
            ],
        ),
        AttributeV::NameValue(
            seq!['U', 'a', 'v', 'c', 'a', 'n', 'C', 'r', 'a', 't', 'e', 'N', 'a', 'm', 'e'],
            seq!['u', 'a', 'v', 'c', 'a', 'n', '_', 'r', 's'],
        )
    ]
}

/// The name of the padding member numbered `n`: `_` and the letter, then the number.
pub open spec fn padding_name(letter: char, n: nat) -> Seq<char> {
    seq!['_', letter] + decimal(n)
}

/// The documentation gathered so far, with a field's trailing comment after it.
pub open spec fn with_comment(docs: Seq<AttributeV>, c: Option<Comment>) -> Seq<AttributeV> {
    match c {
        Some(c) => docs.push(AttributeV::Doc(c@)),
        None => docs,
    }
}

/// The documentation gathered for the next member, the fields so far and the number of
/// padding fields, after the lines of a struct. An empty line drops what was gathered, a
/// comment line adds to it, and a field takes it (with its own comment) and starts afresh;
/// constants and directives change nothing. Padding fields are named `_v0`, `_v1`, ...
pub open spec fn struct_body(ls: Seq<Line>) -> (Seq<AttributeV>, Seq<FieldV>, nat)
    decreases ls.len(),
{
    if ls.len() == 0 {
        (Seq::<AttributeV>::empty(), Seq::<FieldV>::empty(), 0)
    } else {
        let prev = struct_body(ls.drop_last());
        match ls.last() {
            Line::Empty => (Seq::<AttributeV>::empty(), prev.1, prev.2),
            Line::Comment(c) => (prev.0.push(AttributeV::Doc(c@)), prev.1, prev.2),
            Line::Definition { definition: AttributeDefinition::Field(f), comment } => {
                let docs = with_comment(prev.0, comment);
                if ty_is_void(f.field_type) {
                    (
                        Seq::<AttributeV>::empty(),
                        prev.1.push(
                            FieldV { name: Some(padding_name('v', prev.2)), ty: field_spec(f).ty, attrs: docs },
                        ),
                        prev.2 + 1,
                    )
                } else {
                    (
                        Seq::<AttributeV>::empty(),
                        prev.1.push(FieldV { name: field_spec(f).name, ty: field_spec(f).ty, attrs: docs }),
                        prev.2,
                    )
                }
            },
            _ => prev,
        }
    }
}

/// The same for the variants of an enum: a variant is named after its field in PascalCase,
/// and padding variants `_V0`, `_V1`, ...
pub open spec fn enum_body(ls: Seq<Line>) -> (Seq<AttributeV>, Seq<VariantV>, nat)
    decreases ls.len(),
{
    if ls.len() == 0 {
        (Seq::<AttributeV>::empty(), Seq::<VariantV>::empty(), 0)
    } else {
        let prev = enum_body(ls.drop_last());
        match ls.last() {
            Line::Empty => (Seq::<AttributeV>::empty(), prev.1, prev.2),
            Line::Comment(c) => (prev.0.push(AttributeV::Doc(c@)), prev.1, prev.2),
            Line::Definition { definition: AttributeDefinition::Field(f), comment } => {
                let docs = with_comment(prev.0, comment);
                let v = variant_spec(f, pascal_case(f.name->Some_0@));
                if ty_is_void(f.field_type) {
                    (
                        Seq::<AttributeV>::empty(),
                        prev.1.push(VariantV { name: padding_name('V', prev.2), ty: v.ty, attrs: docs }),
                        prev.2 + 1,
                    )
                } else {
                    (Seq::<AttributeV>::empty(), prev.1.push(VariantV { name: v.name, ty: v.ty, attrs: docs }), prev.2)
                }
            },
            _ => prev,
        }
    }
}

/// What a message compiles to: an enum of its fields for a union, else a struct.
pub open spec fn message_kind(ls: Seq<Line>) -> ItemKindV {
    if is_union(ls) {
        ItemKindV::Enum(enum_body(ls).1)
    } else {
        ItemKindV::Struct(struct_body(ls).1)
    }
}

/// Whether a message can be compiled: the types of its fields can be written in Rust, and in a
/// union each field has a name for its variant.
pub open spec fn message_compilable(ls: Seq<Line>) -> bool {
    forall|i: int|
        0 <= i < ls.len() ==> (#[trigger] ls[i] matches Line::Definition {
            definition: AttributeDefinition::Field(f),
            ..
        } ==> field_compilable(f) && (is_union(ls) ==> f.name is Some))
}

/// A copy of an attribute.
fn copy_attribute(a: &Attribute) -> (r: Attribute)
    ensures
        r@ == a@,
{
    match a {
        Attribute::Doc(t) => Attribute::Doc(copy_string(t)),
        Attribute::Word(w) => Attribute::Word(copy_string(w)),
        Attribute::List(n, ws) => {
            let mut out: Vec<String> = Vec::new();
            let mut i: usize = 0;
            while i < ws.len()
                invariant
                    0 <= i <= ws@.len(),
                    out@.len() == i,
                    string_views(out@) == string_views(ws@).take(i as int),
                decreases ws@.len() - i,
            {
                let ghost before = out@;
                out.push(copy_string(&ws[i]));
                assert forall|k: int| 0 <= k < i + 1 implies string_views(out@)[k] == string_views(
                    ws@,
                ).take(i + 1)[k] by {
                    if k < i {
                        assert(out@[k] == before[k]);
                        assert(string_views(before)[k] == string_views(ws@).take(i as int)[k]);
                    }
                }
                assert(string_views(out@) =~= string_views(ws@).take(i + 1));
                i = i + 1;
            }
            assert(string_views(ws@).take(ws@.len() as int) =~= string_views(ws@));
            Attribute::List(copy_string(n), out)
        },
        Attribute::NameValue(n, v) => Attribute::NameValue(copy_string(n), copy_string(v)),
    }
}

/// A copy of attributes.
fn copy_attributes(v: &Vec<Attribute>) -> (r: Vec<Attribute>)
    ensures
        attrs_view(r@) == attrs_view(v@),
{
    let mut out: Vec<Attribute> = Vec::new();
    let mut i: usize = 0;
    while i < v.len()
        invariant
            0 <= i <= v@.len(),
            out@.len() == i,
            attrs_view(out@) == attrs_view(v@).take(i as int),
        decreases v@.len() - i,
    {
        let ghost before = out@;
        out.push(copy_attribute(&v[i]));
        assert forall|k: int| 0 <= k < i + 1 implies attrs_view(out@)[k] == attrs_view(v@).take(
            i + 1,
        )[k] by {
            if k < i {
                assert(out@[k] == before[k]);
                assert(attrs_view(before)[k] == attrs_view(v@).take(i as int)[k]);
            }
        }
        assert(attrs_view(out@) =~= attrs_view(v@).take(i + 1));
        i = i + 1;
    }
    assert(attrs_view(v@).take(v@.len() as int) =~= attrs_view(v@));
    out
}

/// The name of the padding member numbered `n`.
fn padding_string(letter: char, n: u64) -> (s: String)
    ensures
        s@ == padding_name(letter, n as nat),
{
    let mut s = String::new();
    push_char(&mut s, '_');
    push_char(&mut s, letter);
    push_decimal(&mut s, n);
    assert(s@ =~= padding_name(letter, n as nat));
    s
}

/// The leading documentation of lines.
fn leading_docs_of(ls: &Vec<Line>) -> (docs: Vec<Attribute>)
    ensures
        attrs_view(docs@) == leading_docs(ls@),
{
    let mut docs: Vec<Attribute> = Vec::new();
    let mut i: usize = 0;
    assert(ls@.skip(0) =~= ls@);
    assert(attrs_view(docs@) =~= Seq::<AttributeV>::empty());
    while i < ls.len()
        invariant
            0 <= i <= ls@.len(),
            attrs_view(docs@) + leading_docs(ls@.skip(i as int)) == leading_docs(ls@),
        decreases ls@.len() - i,
    {
        let ghost rest = ls@.skip(i as int);
        assert(rest[0] == ls@[i as int]);
        assert(rest.drop_first() =~= ls@.skip(i + 1));
        match &ls[i] {
            Line::Comment(c) => {
                let ghost before = attrs_view(docs@);
                docs.push(Attribute::Doc(copy_string(&c.0)));
                assert(attrs_view(docs@) =~= before.push(AttributeV::Doc(c@)));
                assert(before + leading_docs(rest) =~= attrs_view(docs@) + leading_docs(ls@.skip(i + 1)));
            },
            Line::Directive { .. } => {},
            _ => {
                assert(attrs_view(docs@) + Seq::<AttributeV>::empty() =~= attrs_view(docs@));
                return docs;
            },
        }
        i = i + 1;
    }
    assert(ls@.skip(ls@.len() as int) =~= Seq::<Line>::empty());
    assert(attrs_view(docs@) + Seq::<AttributeV>::empty() =~= attrs_view(docs@));
    docs
}

/// The attributes of the struct or enum of a message.
fn message_attributes(ls: &Vec<Line>) -> (attrs: Vec<Attribute>)
    ensures
        attrs_view(attrs@) == message_attrs(ls@),
{
    proof {
        reveal_strlit("derive");
        reveal_strlit("Debug");
        reveal_strlit("Clone");
        reveal_strlit("UavcanStruct");
        reveal_strlit("UavcanCrateName");
        reveal_strlit("uavcan_rs");
    }
    assert("derive"@ =~= seq!['d', 'e', 'r', 'i', 'v', 'e']);
    assert("Debug"@ =~= seq!['D', 'e', 'b', 'u', 'g']);
    assert("Clone"@ =~= seq!['C', 'l', 'o', 'n', 'e']);
    assert("UavcanStruct"@ =~= seq!['U', 'a', 'v', 'c', 'a', 'n', 'S', 't', 'r', 'u', 'c', 't']);
    assert("UavcanCrateName"@ =~= seq![
        'U', 'a', 'v', 'c', 'a', 'n', 'C', 'r', 'a', 't', 'e', 'N', 'a', 'm', 'e',
    ]);
    assert("uavcan_rs"@ =~= seq!['u', 'a', 'v', 'c', 'a', 'n', '_', 'r', 's']);
    let mut attrs = leading_docs_of(ls);
    let words = vec!["Debug".to_owned(), "Clone".to_owned(), "UavcanStruct".to_owned()];
    assert(string_views(words@) =~= seq![
        seq!['D', 'e', 'b', 'u', 'g'],
        seq!['C', 'l', 'o', 'n', 'e'],
        seq!['U', 'a', 'v', 'c', 'a', 'n', 'S', 't', 'r', 'u', 'c', 't'],
    ]);
    let derive = Attribute::List("derive".to_owned(), words);
    let crate_name = Attribute::NameValue("UavcanCrateName".to_owned(), "uavcan_rs".to_owned());
    assert(derive@ == message_attrs(ls@)[leading_docs(ls@).len() as int]);
    assert(crate_name@ == message_attrs(ls@)[leading_docs(ls@).len() as int + 1]);
    attrs.push(derive);
    attrs.push(crate_name);
    assert(attrs_view(attrs@) =~= message_attrs(ls@));
    attrs
}

/// Whether lines hold a directive.
fn has_directive(ls: &Vec<Line>) -> (r: bool)
    ensures
        r == is_union(ls@),
{
    let mut i: usize = 0;
    while i < ls.len()
        invariant
            0 <= i <= ls@.len(),
            forall|j: int| 0 <= j < i ==> !(ls@[j] is Directive),
        decreases ls@.len() - i,
    {
        if ls[i].is_directive() {
            return true;
        }
        i = i + 1;
    }
    false
}

/// The fields of the struct of a message.
fn struct_members(ls: &Vec<Line>) -> (fields: Vec<Field>)
    requires
        message_compilable(ls@),
    ensures
        fields_view(fields@) == struct_body(ls@).1,
{
    let mut docs: Vec<Attribute> = Vec::new();
    let mut fields: Vec<Field> = Vec::new();
    let mut voids: u64 = 0;
    let mut i: usize = 0;
    assert(ls@.take(0) =~= Seq::<Line>::empty());
    assert(attrs_view(docs@) =~= Seq::<AttributeV>::empty());
    assert(fields_view(fields@) =~= Seq::<FieldV>::empty());
    while i < ls.len()
        invariant
            0 <= i <= ls@.len(),
            voids <= i,
            message_compilable(ls@),
            (attrs_view(docs@), fields_view(fields@), voids as nat) == struct_body(ls@.take(i as int)),
        decreases ls@.len() - i,
    {
        let ghost prev = struct_body(ls@.take(i as int));
        proof {
            let t = ls@.take(i + 1);
            assert(t.drop_last() =~= ls@.take(i as int));
            assert(t.last() == ls@[i as int]);
        }
        match &ls[i] {
            Line::Empty => {
                docs = Vec::new();
                assert(attrs_view(docs@) =~= Seq::<AttributeV>::empty());
            },
            Line::Comment(c) => {
                docs.push(Attribute::Doc(copy_string(&c.0)));
                assert(attrs_view(docs@) =~= prev.0.push(AttributeV::Doc(c@)));
            },
            Line::Definition { definition: AttributeDefinition::Field(f), comment } => {
                assert(field_compilable(*f)) by {
                    assert(ls@[i as int] matches Line::Definition {
                        definition: AttributeDefinition::Field(_),
                        ..
                    });
                }
                match comment {
                    Some(c) => {
                        docs.push(Attribute::Doc(copy_string(&c.0)));
                    },
                    None => {},
                }
                assert(attrs_view(docs@) =~= with_comment(prev.0, *comment));
                let mut field: Field = copy_field(f).compile();
                let ghost given = attrs_view(docs@);
                field.attrs = docs;
                docs = Vec::new();
                if f.field_type.is_void() {
                    field.name = Some(padding_string('v', voids));
                    voids = voids + 1;
                }
                let ghost before = fields@;
                fields.push(field);
                assert(fields_view(fields@) =~= fields_view(before).push(field@));
                assert(attrs_view(docs@) =~= Seq::<AttributeV>::empty());
                assert(given == with_comment(prev.0, *comment));
            },
            _ => {},
        }
        i = i + 1;
    }
    assert(ls@.take(ls@.len() as int) =~= ls@);
    fields
}

/// The variants of the enum of a union.
fn enum_members(ls: &Vec<Line>) -> (variants: Vec<Variant>)
    requires
        message_compilable(ls@),
        is_union(ls@),
    ensures
        variants_view(variants@) == enum_body(ls@).1,
{
    let mut docs: Vec<Attribute> = Vec::new();
    let mut variants: Vec<Variant> = Vec::new();
    let mut voids: u64 = 0;
    let mut i: usize = 0;
    assert(ls@.take(0) =~= Seq::<Line>::empty());
    assert(attrs_view(docs@) =~= Seq::<AttributeV>::empty());
    assert(variants_view(variants@) =~= Seq::<VariantV>::empty());
    while i < ls.len()
        invariant
            0 <= i <= ls@.len(),
            voids <= i,
            message_compilable(ls@),
            is_union(ls@),
            (attrs_view(docs@), variants_view(variants@), voids as nat) == enum_body(ls@.take(i as int)),
        decreases ls@.len() - i,
    {
        let ghost prev = enum_body(ls@.take(i as int));
        proof {
            let t = ls@.take(i + 1);
            assert(t.drop_last() =~= ls@.take(i as int));
            assert(t.last() == ls@[i as int]);
        }
        match &ls[i] {
            Line::Empty => {
                docs = Vec::new();
                assert(attrs_view(docs@) =~= Seq::<AttributeV>::empty());
            },
            Line::Comment(c) => {
                docs.push(Attribute::Doc(copy_string(&c.0)));
                assert(attrs_view(docs@) =~= prev.0.push(AttributeV::Doc(c@)));
            },
            Line::Definition { definition: AttributeDefinition::Field(f), comment } => {
                assert(field_compilable(*f) && f.name is Some) by {
                    assert(ls@[i as int] matches Line::Definition {
                        definition: AttributeDefinition::Field(_),
                        ..
                    });
                }
                match comment {
                    Some(c) => {
                        docs.push(Attribute::Doc(copy_string(&c.0)));
                    },
                    None => {},
                }
                assert(attrs_view(docs@) =~= with_comment(prev.0, *comment));
                let mut variant: Variant = copy_field(f).compile_variant();
                let ghost given = attrs_view(docs@);
                variant.attrs = docs;
                docs = Vec::new();
                if f.field_type.is_void() {
                    variant.name = padding_string('V', voids);
                    voids = voids + 1;
                }
                let ghost before = variants@;
                variants.push(variant);
                assert(variants_view(variants@) =~= variants_view(before).push(variant@));
                assert(attrs_view(docs@) =~= Seq::<AttributeV>::empty());
                assert(given == with_comment(prev.0, *comment));
            },
            _ => {},
        }
        i = i + 1;
    }
    assert(ls@.take(ls@.len() as int) =~= ls@);
    variants
}

impl Compile<(Vec<ItemKind>, Vec<Attribute>)> for MessageDefinition {
    open spec fn compilable(&self) -> bool {
        message_compilable(self.0@)
    }

    /// The struct of the message's fields, or for a union the enum of its fields, with the
    /// attributes of that struct or enum.
    fn compile(self) -> (r: (Vec<ItemKind>, Vec<Attribute>))
        ensures
            r.0@.len() == 1,
            kind_view(r.0@[0]) == message_kind(self.0@),
            attrs_view(r.1@) == message_attrs(self.0@),
    {
        let (kind, attrs) = message_parts(&self.0);
        (vec![kind], attrs)
    }
}

/// The struct or enum of a message with the lines `ls`, and its attributes.
pub(crate) fn message_parts(ls: &Vec<Line>) -> (r: (ItemKind, Vec<Attribute>))
    requires
        message_compilable(ls@),
    ensures
        kind_view(r.0) == message_kind(ls@),
        attrs_view(r.1@) == message_attrs(ls@),
{
    let attrs = message_attributes(ls);
    let kind = if has_directive(ls) {
        ItemKind::Enum(enum_members(ls))
    } else {
        ItemKind::Struct(struct_members(ls))
    };
    (kind, attrs)
}

/// The `#[doc]` lines of comment lines, in order.
pub open spec fn comment_lines_docs(cs: Seq<Line>) -> Seq<AttributeV> {
    cs.map_values(|l: Line| AttributeV::Doc(l->Comment_0@))
}

/// A constant definition line adds nothing to a struct or an enum and leaves what was gathered
/// for the next member as it was: the members are those of the lines without it.
pub proof fn law_constants_change_nothing(a: Seq<Line>, k: Line, b: Seq<Line>)
    requires
        k matches Line::Definition { definition: AttributeDefinition::Const(_), .. },
    ensures
        struct_body(a + seq![k] + b) == struct_body(a + b),
        enum_body(a + seq![k] + b) == enum_body(a + b),
    decreases b.len(),
{
    let x = a + seq![k] + b;
    let y = a + b;
    if b.len() == 0 {
        assert(x.drop_last() =~= a);
        assert(y =~= a);
    } else {
        law_constants_change_nothing(a, k, b.drop_last());
        assert(x.drop_last() =~= a + seq![k] + b.drop_last());
        assert(y.drop_last() =~= a + b.drop_last());
        assert(x.last() == b.last());
        assert(y.last() == b.last());
    }
}

/// Comment lines add their `#[doc]` lines, in order, to what is gathered for the next member.
proof fn lemma_comments_gather(p: Seq<Line>, cs: Seq<Line>)
    requires
        forall|i: int| 0 <= i < cs.len() ==> #[trigger] cs[i] is Comment,
    ensures
        struct_body(p + cs) == (struct_body(p).0 + comment_lines_docs(cs), struct_body(p).1, struct_body(p).2),
    decreases cs.len(),
{
    if cs.len() == 0 {
        assert(p + cs =~= p);
        assert(struct_body(p).0 + comment_lines_docs(cs) =~= struct_body(p).0);
    } else {
        let c = cs.drop_last();
        assert forall|i: int| 0 <= i < c.len() implies #[trigger] c[i] is Comment by {
            assert(c[i] == cs[i]);
        }
        lemma_comments_gather(p, c);
        assert((p + cs).drop_last() =~= p + c);
        assert((p + cs).last() == cs.last());
        assert(cs.last() is Comment);
        assert(comment_lines_docs(cs) =~= comment_lines_docs(c).push(AttributeV::Doc(cs.last()->Comment_0@)));
        assert(struct_body(p).0 + comment_lines_docs(cs) =~= (struct_body(p).0 + comment_lines_docs(c)).push(
            AttributeV::Doc(cs.last()->Comment_0@),
        ));
    }
}

/// After an empty line, the comment lines right before a field of a struct are its `#[doc]`
/// lines, in order, followed by its own trailing comment: the field is added after the fields
/// before, with those attributes.
pub proof fn law_field_docs(a: Seq<Line>, cs: Seq<Line>, f: crate::ast::attribute_definition::FieldDefinition, c: Option<Comment>)
    requires
        forall|i: int| 0 <= i < cs.len() ==> #[trigger] cs[i] is Comment,
    ensures
        ({
            let r = struct_body(a + seq![Line::Empty] + cs + seq![
                Line::Definition { definition: AttributeDefinition::Field(f), comment: c },
            ]).1;
            &&& r.len() == struct_body(a).1.len() + 1
            &&& r.drop_last() == struct_body(a).1
            &&& r.last().attrs == comment_lines_docs(cs) + match c {
                Some(x) => seq![AttributeV::Doc(x@)],
                None => Seq::<AttributeV>::empty(),
            }
        }),
{
    let p = a + seq![Line::Empty];
    assert(p.drop_last() =~= a);
    assert(p.last() == Line::Empty);
    lemma_comments_gather(p, cs);
    let l = Line::Definition { definition: AttributeDefinition::Field(f), comment: c };
    let all = p + cs + seq![l];
    assert(all.drop_last() =~= p + cs);
    assert(all.last() == l);
    assert(Seq::<AttributeV>::empty() + comment_lines_docs(cs) =~= comment_lines_docs(cs));
    match c {
        Some(x) => {
            assert(comment_lines_docs(cs).push(AttributeV::Doc(x@)) =~= comment_lines_docs(cs) + seq![
                AttributeV::Doc(x@),
            ]);
        },
        None => {
            assert(comment_lines_docs(cs) + Seq::<AttributeV>::empty() =~= comment_lines_docs(cs));
        },
    }
}

} // verus!
