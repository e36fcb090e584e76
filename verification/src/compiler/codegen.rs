//! How DSDL maps to Rust: the types of fields, and the structs and enums of messages.

use vstd::prelude::*;
use crate::ast::array::ArrayInfo;
use crate::ast::attribute_definition::FieldDefinition;
use crate::ast::comment::Comment;
use crate::ast::file_name::string_views;
use crate::ast::file_name::strings_of;
use crate::ast::ident::Ident;
use crate::ast::ty::parts;
use crate::ast::ty::prim_bits;
use crate::ast::ty::prim_kind;
use crate::ast::ty::CompositeType;
use crate::ast::ty::PrimitiveKind;
use crate::ast::ty::PrimitiveType;
use crate::ast::ty::Ty;
use crate::compiler::rust::Attribute;
use crate::compiler::rust::AttributeV;
use crate::compiler::rust::Field;
use crate::compiler::rust::FieldV;
use crate::compiler::rust::RustTy;
use crate::compiler::rust::TyV;
use crate::compiler::rust::Variant;
use crate::compiler::rust::VariantV;
use crate::normalize::copy_ty;
use crate::text::chars_of;
use crate::text::decimal;
use crate::text::push_char;
use crate::text::push_decimal;
use crate::text::split_chars;
use crate::text::split_on;

verus! {

/// The trait that must be implemented to compile from DSDL to code
pub trait Compile<T>: Sized {
    /// Whether the value can be compiled.
    spec fn compilable(&self) -> bool;

    /// The function used to compile from DSDL to code
    fn compile(self) -> T
        requires
            self.compilable(),
    ;
}

/// The PascalCase form of a name, as `inflections::case::to_pascal_case` gives it.
pub uninterp spec fn pascal_case(s: Seq<char>) -> Seq<char>;

/// Calls `inflections::case::to_pascal_case`. The result is what that function gives for the
/// name: an upper case letter at the start and after each separator, the separators removed,
/// other letters lowered where they follow an upper case one. Only that the result depends on
/// the name alone is stated, through `pascal_case`.
#[verifier::external_body]
fn to_pascal_case(s: &str) -> (r: String)
    ensures
        r@ == pascal_case(s@),
{
    inflections::case::to_pascal_case(s)
}

/// The Rust name of a primitive type: `bool`, `uN`, `iN`, `fN` or `voidN`.
pub open spec fn prim_rust_name(p: PrimitiveType) -> Seq<char> {
    match prim_kind(p) {
        PrimitiveKind::Bool => seq!['b', 'o', 'o', 'l'],
        PrimitiveKind::Uint => seq!['u'] + decimal(prim_bits(p)),
        PrimitiveKind::Int => seq!['i'] + decimal(prim_bits(p)),
        PrimitiveKind::Float => seq!['f'] + decimal(prim_bits(p)),
        PrimitiveKind::Void => seq!['v', 'o', 'i', 'd'] + decimal(prim_bits(p)),
    }
}

/// Whether Rust has the type itself: `bool`, the integers of 8, 16, 32 and 64 bits, `f32` and
/// `f64`. The others are found at the root of the crate that uses the generated code.
pub open spec fn prim_is_native(p: PrimitiveType) -> bool {
    let n = prim_bits(p);
    match prim_kind(p) {
        PrimitiveKind::Bool => true,
        PrimitiveKind::Uint => n == 8 || n == 16 || n == 32 || n == 64,
        PrimitiveKind::Int => n == 8 || n == 16 || n == 32 || n == 64,
        PrimitiveKind::Float => n == 32 || n == 64,
        PrimitiveKind::Void => false,
    }
}

/// The Rust type of a primitive type: its name, as a global path where Rust lacks it.
pub open spec fn prim_rust_ty(p: PrimitiveType) -> TyV {
    TyV::Path { global: !prim_is_native(p), segments: seq![prim_rust_name(p)] }
}

/// The Rust type of a composite type: a global path through its namespace when it has one.
pub open spec fn composite_rust_ty(c: CompositeType) -> TyV {
    match c.namespace {
        Some(ns) => TyV::Path { global: true, segments: split_on(ns@, '.').push(c.name@) },
        None => TyV::Path { global: false, segments: seq![c.name@] },
    }
}

/// The Rust type of a DSDL type.
pub open spec fn ty_rust_ty(t: Ty) -> TyV {
    match t {
        Ty::Primitive(p) => prim_rust_ty(p),
        Ty::Composite(c) => composite_rust_ty(c),
    }
}

/// The Rust type of a field: its type, in an array or a dynamic array of the field's length.
/// `[<N]` holds at most `N - 1` elements.
pub open spec fn field_rust_ty(f: FieldDefinition) -> TyV {
    let base = ty_rust_ty(f.field_type);
    match f.array {
        None => base,
        Some(ArrayInfo::DynamicLess(n)) => TyV::Dynamic(Box::new(base), (n - 1) as u64),
        Some(ArrayInfo::DynamicLeq(n)) => TyV::Dynamic(Box::new(base), n),
        Some(ArrayInfo::Static(n)) => TyV::Array(Box::new(base), n),
    }
}

/// Whether a field's type can be written in Rust: `[<0]` has no length.
pub open spec fn field_compilable(f: FieldDefinition) -> bool {
    !(f.array matches Some(ArrayInfo::DynamicLess(n)) && n == 0)
}

/// The struct field of a field definition, without documentation.
pub open spec fn field_spec(f: FieldDefinition) -> FieldV {
    FieldV {
        name: match f.name {
            Some(n) => Some(n@),
            None => None,
        },
        ty: field_rust_ty(f),
        attrs: Seq::<AttributeV>::empty(),
    }
}

/// The enum variant of a field definition with the variant name `name`, without
/// documentation.
pub open spec fn variant_spec(f: FieldDefinition, name: Seq<char>) -> VariantV {
    VariantV { name, ty: field_rust_ty(f), attrs: Seq::<AttributeV>::empty() }
}

impl Compile<RustTy> for PrimitiveType {
    open spec fn compilable(&self) -> bool {
        true
    }

    fn compile(self) -> (t: RustTy)
        ensures
            t@ == prim_rust_ty(self),
    {
        let (kind, bits) = parts(&self);
        let mut name = String::new();
        let native = match kind {
            PrimitiveKind::Bool => {
                push_char(&mut name, 'b');
                push_char(&mut name, 'o');
                push_char(&mut name, 'o');
                push_char(&mut name, 'l');
                true
            },
            PrimitiveKind::Uint => {
                push_char(&mut name, 'u');
                push_decimal(&mut name, bits);
                bits == 8 || bits == 16 || bits == 32 || bits == 64
            },
            PrimitiveKind::Int => {
                push_char(&mut name, 'i');
                push_decimal(&mut name, bits);
                bits == 8 || bits == 16 || bits == 32 || bits == 64
            },
            PrimitiveKind::Float => {
                push_char(&mut name, 'f');
                push_decimal(&mut name, bits);
                bits == 32 || bits == 64
            },
            PrimitiveKind::Void => {
                push_char(&mut name, 'v');
                push_char(&mut name, 'o');
                push_char(&mut name, 'i');
                push_char(&mut name, 'd');
                push_decimal(&mut name, bits);
                false
            },
        };
        assert(name@ =~= prim_rust_name(self));
        let segments = vec![name];
        assert(string_views(segments@) =~= seq![prim_rust_name(self)]);
        RustTy::Path { global: !native, segments }
    }
}

impl Compile<RustTy> for CompositeType {
    open spec fn compilable(&self) -> bool {
        true
    }

    fn compile(self) -> (t: RustTy)
        ensures
            t@ == composite_rust_ty(self),
    {
        match self.namespace {
            Some(ns) => {
                let v = chars_of(ns.as_str());
                let parts = split_chars(v.as_slice(), '.');
                let mut segments = strings_of(&parts);
                let ghost before = string_views(segments@);
                segments.push(self.name.into_string());
                assert(string_views(segments@) =~= before.push(self.name@));
                RustTy::Path { global: true, segments }
            },
            None => {
                let segments = vec![self.name.into_string()];
                assert(string_views(segments@) =~= seq![self.name@]);
                RustTy::Path { global: false, segments }
            },
        }
    }
}

impl Compile<RustTy> for Ty {
    open spec fn compilable(&self) -> bool {
        true
    }

    fn compile(self) -> (t: RustTy)
        ensures
            t@ == ty_rust_ty(self),
    {
        match self {
            Ty::Primitive(p) => p.compile(),
            Ty::Composite(c) => c.compile(),
        }
    }
}

/// The Rust type of a field definition.
fn field_type_of(f: &FieldDefinition) -> (t: RustTy)
    requires
        field_compilable(*f),
    ensures
        t@ == field_rust_ty(*f),
{
    let base: RustTy = copy_ty(&f.field_type).compile();
    match f.array {
        None => base,
        Some(ArrayInfo::DynamicLess(n)) => RustTy::Dynamic(Box::new(base), n - 1),
        Some(ArrayInfo::DynamicLeq(n)) => RustTy::Dynamic(Box::new(base), n),
        Some(ArrayInfo::Static(n)) => RustTy::Array(Box::new(base), n),
    }
}

impl Compile<Field> for FieldDefinition {
    open spec fn compilable(&self) -> bool {
        field_compilable(*self)
    }

    fn compile(self) -> (f: Field)
        ensures
            f@ == field_spec(self),
    {
        let ty = field_type_of(&self);
        let name = match self.name {
            Some(n) => Some(n.into_string()),
            None => None,
        };
        let f = Field { name, ty, attrs: Vec::new() };
        assert(f@.attrs =~= Seq::<AttributeV>::empty());
        f
    }
}

/// The enum variant of a field definition, named `name`.
pub fn variant_named(f: &FieldDefinition, name: String) -> (v: Variant)
    requires
        field_compilable(*f),
    ensures
        v@ == variant_spec(*f, name@),
{
    let ty = field_type_of(f);
    let v = Variant { name, ty, attrs: Vec::new() };
    assert(v@.attrs =~= Seq::<AttributeV>::empty());
    v
}

impl FieldDefinition {
    /// The enum variant of a field definition: the field's name in PascalCase, holding a value
    /// of the field's type. A variant takes its name from the field, so the field must have
    /// one.
    pub fn compile_variant(self) -> (v: Variant)
        requires
            field_compilable(self),
            self.name is Some,
        ensures
            v@ == variant_spec(self, pascal_case(self.name->Some_0@)),
    {
        let name = match &self.name {
            Some(n) => to_pascal_case(n.as_str()),
            None => String::new(),
        };
        variant_named(&self, name)
    }
}

impl Compile<Attribute> for Comment {
    open spec fn compilable(&self) -> bool {
        true
    }

    fn compile(self) -> (a: Attribute)
        ensures
            a@ == AttributeV::Doc(self@),
    {
        Attribute::Doc(self.0)
    }
}

impl Compile<String> for Ident {
    open spec fn compilable(&self) -> bool {
        true
    }

    fn compile(self) -> (s: String)
        ensures
            s@ == self@,
    {
        self.into_string()
    }
}

/// The primitive types that Rust has itself, with their Rust names: `bool`, `u8` to `u64`,
/// `i8` to `i64`, `f32` and `f64`.
pub open spec fn rust_builtin(p: PrimitiveType) -> Option<Seq<char>> {
    match p {
        PrimitiveType::Bool => Some(seq!['b', 'o', 'o', 'l']),
        PrimitiveType::Uint8 => Some(seq!['u', '8']),
        PrimitiveType::Uint16 => Some(seq!['u', '1', '6']),
        PrimitiveType::Uint32 => Some(seq!['u', '3', '2']),
        PrimitiveType::Uint64 => Some(seq!['u', '6', '4']),
        PrimitiveType::Int8 => Some(seq!['i', '8']),
        PrimitiveType::Int16 => Some(seq!['i', '1', '6']),
        PrimitiveType::Int32 => Some(seq!['i', '3', '2']),
        PrimitiveType::Int64 => Some(seq!['i', '6', '4']),
        PrimitiveType::Float32 => Some(seq!['f', '3', '2']),
        PrimitiveType::Float64 => Some(seq!['f', '6', '4']),
        _ => None,
    }
}

/// A primitive type compiles to a path of one segment: a type that Rust has itself compiles
/// to that type by its own name, as a path that is not global; every other primitive type
/// (`u2`, `i9`, `f16`, `void3`, ...) to a global path, found at the root of the crate that
/// uses the generated code.
pub proof fn law_primitive_rust_types(p: PrimitiveType)
    ensures
        prim_rust_ty(p) matches TyV::Path { global, segments } && segments.len() == 1 && match rust_builtin(p) {
            Some(n) => !global && segments[0] == n,
            None => global,
        },
{
    crate::ast::ty::lemma_of_parts(p);
    crate::ast::ty::lemma_parts_valid(p);
    reveal(crate::ast::ty::prim_parts);
    reveal_with_fuel(decimal, 3);
    if prim_is_native(p) {
        assert(rust_builtin(p) is Some);
    } else {
        assert(rust_builtin(p) is None);
    }
}

} // verus!
