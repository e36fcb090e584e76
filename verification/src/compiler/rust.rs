//! A model of the Rust code that the compiler generates: items, their attributes, and types.

use vstd::prelude::*;
use crate::ast::file_name::string_views;

verus! {

/// A Rust type, as the compiler writes it.
#[derive(Debug, PartialEq, Eq)]
pub enum RustTy {
    /// A path such as `u8` or `::uavcan::protocol::NodeStatus`; a global path starts with `::`.
    Path { global: bool, segments: Vec<String> },
    /// An array `[T; N]`.
    Array(Box<RustTy>, u64),
    /// A dynamic array of at most `N` elements, `::Dynamic<[T; N]>`.
    Dynamic(Box<RustTy>, u64),
}

/// What a Rust type is, with its names as characters.
pub enum TyV {
    Path { global: bool, segments: Seq<Seq<char>> },
    Array(Box<TyV>, u64),
    Dynamic(Box<TyV>, u64),
}

/// What a Rust type is.
pub open spec fn ty_view(t: RustTy) -> TyV
    decreases t,
{
    match t {
        RustTy::Path { global, segments } => TyV::Path { global, segments: string_views(segments@) },
        RustTy::Array(e, n) => TyV::Array(Box::new(ty_view(*e)), n),
        RustTy::Dynamic(e, n) => TyV::Dynamic(Box::new(ty_view(*e)), n),
    }
}

impl View for RustTy {
    type V = TyV;

    open spec fn view(&self) -> TyV {
        ty_view(*self)
    }
}

/// An attribute of a generated item or field.
#[derive(Debug, PartialEq, Eq)]
pub enum Attribute {
    /// A documentation line, `#[doc = "text"]`.
    Doc(String),
    /// A word, such as `#[macro_use]`.
    Word(String),
    /// A list of words, such as `#[derive(Debug, Clone)]`.
    List(String, Vec<String>),
    /// A name with a string value, such as `#[UavcanCrateName = "uavcan_rs"]`.
    NameValue(String, String),
}

/// What an attribute is, with its texts as characters.
pub enum AttributeV {
    Doc(Seq<char>),
    Word(Seq<char>),
    List(Seq<char>, Seq<Seq<char>>),
    NameValue(Seq<char>, Seq<char>),
}

impl View for Attribute {
    type V = AttributeV;

    open spec fn view(&self) -> AttributeV {
        match self {
            Attribute::Doc(t) => AttributeV::Doc(t@),
            Attribute::Word(w) => AttributeV::Word(w@),
            Attribute::List(n, ws) => AttributeV::List(n@, string_views(ws@)),
            Attribute::NameValue(n, v) => AttributeV::NameValue(n@, v@),
        }
    }
}

/// What each attribute is, in order.
pub open spec fn attrs_view(v: Seq<Attribute>) -> Seq<AttributeV> {
    v.map_values(|a: Attribute| a@)
}

/// A public field of a generated struct; a field without a name is a padding field.
#[derive(Debug, PartialEq, Eq)]
pub struct Field {
    pub name: Option<String>,
    pub ty: RustTy,
    pub attrs: Vec<Attribute>,
}

/// What a field is.
pub struct FieldV {
    pub name: Option<Seq<char>>,
    pub ty: TyV,
    pub attrs: Seq<AttributeV>,
}

impl View for Field {
    type V = FieldV;

    open spec fn view(&self) -> FieldV {
        FieldV {
            name: match self.name {
                Some(n) => Some(n@),
                None => None,
            },
            ty: self.ty@,
            attrs: attrs_view(self.attrs@),
        }
    }
}

/// A variant of a generated enum, holding one value of its type.
#[derive(Debug, PartialEq, Eq)]
pub struct Variant {
    pub name: String,
    pub ty: RustTy,
    pub attrs: Vec<Attribute>,
}

/// What a variant is.
pub struct VariantV {
    pub name: Seq<char>,
    pub ty: TyV,
    pub attrs: Seq<AttributeV>,
}

impl View for Variant {
    type V = VariantV;

    open spec fn view(&self) -> VariantV {
        VariantV { name: self.name@, ty: self.ty@, attrs: attrs_view(self.attrs@) }
    }
}

/// An item of an impl block.
#[derive(Debug, PartialEq, Eq)]
pub enum ImplItem {
    /// `type NAME = TYPE;`
    Type { name: String, ty: String },
    /// `const NAME: Option<INT> = Some(VALUE);`
    OptionConst { name: String, int_ty: String, value: u64 },
}

/// What an impl item is.
pub enum ImplItemV {
    Type { name: Seq<char>, ty: Seq<char> },
    OptionConst { name: Seq<char>, int_ty: Seq<char>, value: u64 },
}

impl View for ImplItem {
    type V = ImplItemV;

    open spec fn view(&self) -> ImplItemV {
        match self {
            ImplItem::Type { name, ty } => ImplItemV::Type { name: name@, ty: ty@ },
            ImplItem::OptionConst { name, int_ty, value } => ImplItemV::OptionConst {
                name: name@,
                int_ty: int_ty@,
                value: *value,
            },
        }
    }
}

/// The visibility of an item.
#[derive(Clone, Copy, Debug, PartialEq, Eq, Structural)]
pub enum Visibility {
    /// `pub`
    Public,
    /// `pub(crate)`
    Crate,
    /// private
    Inherited,
}

/// What an item holds.
#[derive(Debug, PartialEq, Eq)]
pub enum ItemKind {
    /// `extern crate NAME as IDENT;`
    ExternCrate(String),
    /// `use a::b::*;`
    UseGlob(Vec<String>),
    /// `mod IDENT { items }`
    Mod(Vec<Item>),
    /// `struct IDENT { fields }`
    Struct(Vec<Field>),
    /// `enum IDENT { variants }`
    Enum(Vec<Variant>),
    /// `impl ::uavcan_rs::TRAIT for IDENT { items }`
    Impl { trait_name: String, items: Vec<ImplItem> },
}

/// A generated item: its name, visibility, attributes and what it holds.
#[derive(Debug, PartialEq, Eq)]
pub struct Item {
    pub ident: String,
    pub vis: Visibility,
    pub attrs: Vec<Attribute>,
    pub kind: ItemKind,
}

/// What an item holds.
pub enum ItemKindV {
    ExternCrate(Seq<char>),
    UseGlob(Seq<Seq<char>>),
    Mod(Seq<ItemV>),
    Struct(Seq<FieldV>),
    Enum(Seq<VariantV>),
    Impl { trait_name: Seq<char>, items: Seq<ImplItemV> },
}

/// What an item is.
pub struct ItemV {
    pub ident: Seq<char>,
    pub vis: Visibility,
    pub attrs: Seq<AttributeV>,
    pub kind: ItemKindV,
}

/// What each field is, in order.
pub open spec fn fields_view(s: Seq<Field>) -> Seq<FieldV> {
    s.map_values(|f: Field| f@)
}

/// What each variant is, in order.
pub open spec fn variants_view(s: Seq<Variant>) -> Seq<VariantV> {
    s.map_values(|v: Variant| v@)
}

/// What each impl item is, in order.
pub open spec fn impl_items_view(s: Seq<ImplItem>) -> Seq<ImplItemV> {
    s.map_values(|x: ImplItem| x@)
}

/// What an item is.
pub open spec fn item_view(i: Item) -> ItemV
    decreases i, 2nat,
{
    ItemV { ident: i.ident@, vis: i.vis, attrs: attrs_view(i.attrs@), kind: kind_view(i.kind) }
}

/// What an item holds.
pub open spec fn kind_view(k: ItemKind) -> ItemKindV
    decreases k, 1nat,
{
    match k {
        ItemKind::ExternCrate(n) => ItemKindV::ExternCrate(n@),
        ItemKind::UseGlob(p) => ItemKindV::UseGlob(string_views(p@)),
        ItemKind::Mod(items) => ItemKindV::Mod(items_view(items@)),
        ItemKind::Struct(fs) => ItemKindV::Struct(fields_view(fs@)),
        ItemKind::Enum(vs) => ItemKindV::Enum(variants_view(vs@)),
        ItemKind::Impl { trait_name, items } => ItemKindV::Impl {
            trait_name: trait_name@,
            items: impl_items_view(items@),
        },
    }
}

/// What each item is, in order.
pub open spec fn items_view(s: Seq<Item>) -> Seq<ItemV>
    decreases s, 0nat,
{
    if s.len() == 0 {
        Seq::<ItemV>::empty()
    } else {
        items_view(s.drop_last()).push(item_view(s.last()))
    }
}

/// The views of items are the items' views, one for one.
pub proof fn lemma_items_view(s: Seq<Item>)
    ensures
        items_view(s).len() == s.len(),
        forall|k: int| 0 <= k < s.len() ==> #[trigger] items_view(s)[k] == item_view(s[k]),
    decreases s.len(),
{
    if s.len() > 0 {
        lemma_items_view(s.drop_last());
        assert forall|k: int| 0 <= k < s.len() implies #[trigger] items_view(s)[k] == item_view(s[k]) by {
            if k < s.len() - 1 {
                assert(s.drop_last()[k] == s[k]);
            }
        }
    }
}

impl View for Item {
    type V = ItemV;

    open spec fn view(&self) -> ItemV {
        item_view(*self)
    }
}

} // verus!
