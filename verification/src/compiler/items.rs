//! Files compiled into Rust items inside the modules of their namespaces, and a set of files
//! compiled into one tree of modules.

use vstd::prelude::*;
use crate::ast::dsdl::file_dsdl_signature;
use crate::ast::dsdl::file_signature;
use crate::ast::dsdl::DSDL;
use crate::ast::file::File;
use crate::ast::file_name::namespace_parts;
use crate::ast::file_name::string_views;
use crate::ast::line::Line;
use crate::ast::type_definition::TypeDefinition;
use crate::compiler::codegen::Compile;
use crate::compiler::message::message_attrs;
use crate::compiler::message::is_union;
use crate::compiler::message::message_compilable;
use crate::compiler::codegen::field_compilable;
use crate::ast::attribute_definition::AttributeDefinition;
use crate::ast::array::ArrayInfo;
use crate::compiler::message::message_kind;
use crate::compiler::message::message_parts;
use crate::compiler::rust::lemma_items_view;
use crate::compiler::rust::attrs_view;
use crate::compiler::rust::impl_items_view;
use crate::compiler::rust::item_view;
use crate::compiler::rust::items_view;
use crate::compiler::rust::kind_view;
use crate::compiler::rust::Attribute;
use crate::compiler::rust::AttributeV;
use crate::compiler::rust::ImplItem;
use crate::compiler::rust::ImplItemV;
use crate::compiler::rust::Item;
use crate::compiler::rust::ItemKind;
use crate::compiler::rust::ItemKindV;
use crate::compiler::rust::ItemV;
use crate::compiler::rust::Visibility;
use crate::normalize::field_normalizable;
use crate::normalize::line_normalizable;
use crate::normalize::lines_normalizable;
use crate::normalize::type_definition_normalizable;
use crate::parser::lines::copy_string;
use crate::text::hex;
use crate::text::push_char;
use crate::text::push_hex;

verus! {

/// The attribute that records a DSDL signature: `0x` and the signature in lower case
/// hexadecimal.
pub open spec fn signature_attr(sig: u64) -> AttributeV {
    AttributeV::NameValue(
        seq!['D', 'S', 'D', 'L', 'S', 'i', 'g', 'n', 'a', 't', 'u', 'r', 'e'],
        seq!['0', 'x'] + hex(sig as nat),
    )
}

/// The public struct or enum of a message named `ident`, with the DSDL signature of its file.
pub open spec fn message_item(ident: Seq<char>, ls: Seq<Line>, sig: u64) -> ItemV {
    ItemV {
        ident,
        vis: Visibility::Public,
        attrs: message_attrs(ls).push(signature_attr(sig)),
        kind: message_kind(ls),
    }
}

/// `impl ::uavcan_rs::TRAIT for IDENT { items }`
pub open spec fn impl_item(ident: Seq<char>, trait_name: Seq<char>, items: Seq<ImplItemV>) -> ItemV {
    ItemV {
        ident,
        vis: Visibility::Inherited,
        attrs: Seq::<AttributeV>::empty(),
        kind: ItemKindV::Impl { trait_name, items },
    }
}

/// `const TYPE_ID: Option<INT> = Some(id);`
pub open spec fn type_id_item(int_ty: Seq<char>, id: u64) -> ImplItemV {
    ImplItemV::OptionConst { name: seq!['T', 'Y', 'P', 'E', '_', 'I', 'D'], int_ty, value: id }
}

/// The name of a service's request type.
pub open spec fn request_name(name: Seq<char>) -> Seq<char> {
    name + seq!['R', 'e', 'q', 'u', 'e', 's', 't']
}

/// The name of a service's response type.
pub open spec fn response_name(name: Seq<char>) -> Seq<char> {
    name + seq!['R', 'e', 's', 'p', 'o', 'n', 's', 'e']
}

/// The items of a file before they are put in modules: for a message its type, and where the
/// file has an id an impl of `Message` with the id as a `u16`; for a service a request and a
/// response type, and where the file has an id impls of `Request` and `Response` that name
/// each other, with the id as a `u8`.
pub open spec fn file_type_items(f: File, sig: u64) -> Seq<ItemV> {
    let name = f.name.name@;
    match f.definition {
        TypeDefinition::Message(m) => seq![message_item(name, m.0@, sig)] + match f.name.id {
            Some(id) => seq![
                impl_item(name, seq!['M', 'e', 's', 's', 'a', 'g', 'e'], seq![type_id_item(seq!['u', '1', '6'], id)]),
            ],
            None => Seq::<ItemV>::empty(),
        },
        TypeDefinition::Service(s) => seq![
            message_item(request_name(name), s.request.0@, sig),
            message_item(response_name(name), s.response.0@, sig),
        ] + match f.name.id {
            Some(id) => seq![
                impl_item(
                    request_name(name),
                    seq!['R', 'e', 'q', 'u', 'e', 's', 't'],
                    seq![
                        ImplItemV::Type {
                            name: seq!['R', 'E', 'S', 'P', 'O', 'N', 'S', 'E'],
                            ty: response_name(name),
                        },
                        type_id_item(seq!['u', '8'], id),
                    ],
                ),
                impl_item(
                    response_name(name),
                    seq!['R', 'e', 's', 'p', 'o', 'n', 's', 'e'],
                    seq![
                        ImplItemV::Type { name: seq!['R', 'E', 'Q', 'U', 'E', 'S', 'T'], ty: request_name(name) },
                        type_id_item(seq!['u', '8'], id),
                    ],
                ),
            ],
            None => Seq::<ItemV>::empty(),
        },
    }
}

/// Items put in nested public modules, one for each part of a namespace, outermost first.
pub open spec fn in_modules(parts: Seq<Seq<char>>, items: Seq<ItemV>) -> Seq<ItemV>
    decreases parts.len(),
{
    if parts.len() == 0 {
        items
    } else {
        seq![
            ItemV {
                ident: parts[0],
                vis: Visibility::Public,
                attrs: Seq::<AttributeV>::empty(),
                kind: ItemKindV::Mod(in_modules(parts.drop_first(), items)),
            },
        ]
    }
}

/// What a file compiles to: its items, in the modules of its namespace.
pub open spec fn file_items(f: File) -> Seq<ItemV> {
    in_modules(namespace_parts(f.name.namespace@), file_type_items(f, file_dsdl_signature(f)))
}

/// Whether a file can be compiled: it can be normalized, for its signature, and each of its
/// messages can be compiled.
pub open spec fn file_compilable(f: File) -> bool {
    &&& type_definition_normalizable(f.definition)
    &&& match f.definition {
        TypeDefinition::Message(m) => message_compilable(m.0@),
        TypeDefinition::Service(s) => message_compilable(s.request.0@) && message_compilable(
            s.response.0@,
        ),
    }
}

/// The attribute that records a DSDL signature.
fn signature_attribute(sig: u64) -> (a: Attribute)
    ensures
        a@ == signature_attr(sig),
{
    proof {
        reveal_strlit("DSDLSignature");
        assert("DSDLSignature"@ =~= seq!['D', 'S', 'D', 'L', 'S', 'i', 'g', 'n', 'a', 't', 'u', 'r', 'e']);
    }
    let mut value = String::new();
    push_char(&mut value, '0');
    push_char(&mut value, 'x');
    push_hex(&mut value, sig);
    assert(value@ =~= seq!['0', 'x'] + hex(sig as nat));
    Attribute::NameValue("DSDLSignature".to_owned(), value)
}

/// The item of a message named `ident`.
fn message_item_of(ident: String, ls: &Vec<Line>, sig: u64) -> (item: Item)
    requires
        message_compilable(ls@),
    ensures
        item_view(item) == message_item(ident@, ls@, sig),
{
    let (kind, mut attrs) = message_parts(ls);
    let ghost before = attrs@;
    attrs.push(signature_attribute(sig));
    assert(attrs_view(attrs@) =~= attrs_view(before).push(signature_attr(sig)));
    Item { ident, vis: Visibility::Public, attrs, kind }
}

/// `const TYPE_ID: Option<INT> = Some(id);`
fn type_id_of(int_ty: &str, id: u64) -> (x: ImplItem)
    ensures
        x@ == type_id_item(int_ty@, id),
{
    proof {
        reveal_strlit("TYPE_ID");
        assert("TYPE_ID"@ =~= seq!['T', 'Y', 'P', 'E', '_', 'I', 'D']);
    }
    ImplItem::OptionConst { name: "TYPE_ID".to_owned(), int_ty: int_ty.to_owned(), value: id }
}

/// `impl ::uavcan_rs::TRAIT for IDENT { items }`
fn impl_of(ident: String, trait_name: &str, items: Vec<ImplItem>) -> (item: Item)
    ensures
        item_view(item) == impl_item(ident@, trait_name@, impl_items_view(items@)),
{
    let item = Item {
        ident,
        vis: Visibility::Inherited,
        attrs: Vec::new(),
        kind: ItemKind::Impl { trait_name: trait_name.to_owned(), items },
    };
    assert(attrs_view(item.attrs@) =~= Seq::<AttributeV>::empty());
    item
}

/// A name with a suffix.
fn suffixed(name: &String, suffix: &str) -> (s: String)
    ensures
        s@ == name@ + suffix@,
{
    let mut s = copy_string(name);
    let v = crate::text::chars_of(suffix);
    crate::text::push_chars(&mut s, v.as_slice());
    s
}

/// The items of a file before they are put in modules.
fn file_type_items_of(f: &File, sig: u64) -> (items: Vec<Item>)
    requires
        file_compilable(*f),
    ensures
        items_view(items@) == file_type_items(*f, sig),
{
    proof {
        reveal_strlit("Message");
        reveal_strlit("Request");
        reveal_strlit("Response");
        reveal_strlit("RESPONSE");
        reveal_strlit("REQUEST");
        reveal_strlit("u16");
        reveal_strlit("u8");
        assert("Message"@ =~= seq!['M', 'e', 's', 's', 'a', 'g', 'e']);
        assert("Request"@ =~= seq!['R', 'e', 'q', 'u', 'e', 's', 't']);
        assert("Response"@ =~= seq!['R', 'e', 's', 'p', 'o', 'n', 's', 'e']);
        assert("RESPONSE"@ =~= seq!['R', 'E', 'S', 'P', 'O', 'N', 'S', 'E']);
        assert("REQUEST"@ =~= seq!['R', 'E', 'Q', 'U', 'E', 'S', 'T']);
        assert("u16"@ =~= seq!['u', '1', '6']);
        assert("u8"@ =~= seq!['u', '8']);
    }
    let name = &f.name.name;
    let mut items: Vec<Item> = Vec::new();
    match &f.definition {
        TypeDefinition::Message(m) => {
            items.push(message_item_of(copy_string(name), &m.0, sig));
            match f.name.id {
                Some(id) => {
                    let tid = vec![type_id_of("u16", id)];
                    assert(impl_items_view(tid@) =~= seq![type_id_item(seq!['u', '1', '6'], id)]);
                    items.push(impl_of(copy_string(name), "Message", tid));
                },
                None => {},
            }
        },
        TypeDefinition::Service(s) => {
            items.push(message_item_of(suffixed(name, "Request"), &s.request.0, sig));
            items.push(message_item_of(suffixed(name, "Response"), &s.response.0, sig));
            match f.name.id {
                Some(id) => {
                    let req = vec![
                        ImplItem::Type { name: "RESPONSE".to_owned(), ty: suffixed(name, "Response") },
                        type_id_of("u8", id),
                    ];
                    assert(impl_items_view(req@) =~= seq![
                        ImplItemV::Type {
                            name: seq!['R', 'E', 'S', 'P', 'O', 'N', 'S', 'E'],
                            ty: response_name(name@),
                        },
                        type_id_item(seq!['u', '8'], id),
                    ]);
                    items.push(impl_of(suffixed(name, "Request"), "Request", req));
                    let res = vec![
                        ImplItem::Type { name: "REQUEST".to_owned(), ty: suffixed(name, "Request") },
                        type_id_of("u8", id),
                    ];
                    assert(impl_items_view(res@) =~= seq![
                        ImplItemV::Type {
                            name: seq!['R', 'E', 'Q', 'U', 'E', 'S', 'T'],
                            ty: request_name(name@),
                        },
                        type_id_item(seq!['u', '8'], id),
                    ]);
                    items.push(impl_of(suffixed(name, "Response"), "Response", res));
                },
                None => {},
            }
        },
    }
    proof {
        lemma_items_view(items@);
        assert(items_view(items@) =~= file_type_items(*f, sig));
    }
    items
}

/// What a file compiles to.
pub(crate) fn file_items_of(f: &File) -> (items: Vec<Item>)
    requires
        file_compilable(*f),
    ensures
        items_view(items@) == file_items(*f),
{
    let sig = file_signature(f);
    let mut items = file_type_items_of(f, sig);
    let ghost inner = items_view(items@);
    let ghost p = namespace_parts(f.name.namespace@);
    let parts = f.name.rsplit_namespace();
    let n = parts.len();
    let mut k: usize = 0;
    assert(string_views(parts@).len() == parts@.len());
    assert(p.subrange(n as int, n as int) =~= Seq::<Seq<char>>::empty());
    while k < n
        invariant
            0 <= k <= n,
            n == parts@.len(),
            n == p.len(),
            string_views(parts@) == p.reverse(),
            items_view(items@) == in_modules(p.subrange(n - k, n as int), inner),
        decreases n - k,
    {
        let ghost below = items_view(items@);
        assert(string_views(parts@)[k as int] == parts@[k as int]@);
        assert(p.reverse()[k as int] == p[n - 1 - k]);
        let m = Item {
            ident: copy_string(&parts[k]),
            vis: Visibility::Public,
            attrs: Vec::new(),
            kind: ItemKind::Mod(items),
        };
        assert(attrs_view(m.attrs@) =~= Seq::<AttributeV>::empty());
        items = vec![m];
        proof {
            let q = p.subrange(n - k - 1, n as int);
            assert(q.drop_first() =~= p.subrange(n - k, n as int));
            assert(q[0] == p[n - 1 - k]);
            lemma_items_view(items@);
            assert(items@.len() == 1 && items@[0] == m);
            assert(items_view(items@) =~= seq![item_view(m)]);
        }
        k = k + 1;
    }
    assert(p.subrange(0, n as int) =~= p);
    items
}

impl Compile<Vec<Item>> for File {
    open spec fn compilable(&self) -> bool {
        file_compilable(*self)
    }

    /// The items of the file, in the modules of its namespace.
    fn compile(self) -> (items: Vec<Item>)
        ensures
            items_view(items@) == file_items(self),
    {
        file_items_of(&self)
    }
}

// Sets of files

/// Whether an item is a module named `name`.
pub open spec fn is_mod_named(i: ItemV, name: Seq<char>) -> bool {
    i.kind is Mod && i.ident == name
}

/// The position of the first module named `name` among items.
pub open spec fn first_mod(items: Seq<ItemV>, name: Seq<char>) -> Option<int>
    decreases items.len(),
{
    if items.len() == 0 {
        None
    } else if is_mod_named(items[0], name) {
        Some(0)
    } else {
        match first_mod(items.drop_first(), name) {
            Some(i) => Some(i + 1),
            None => None,
        }
    }
}

/// The items of a module (none for anything else).
pub open spec fn mod_items(i: ItemV) -> Seq<ItemV> {
    match i.kind {
        ItemKindV::Mod(s) => s,
        _ => Seq::<ItemV>::empty(),
    }
}

/// Items with one more added: a module joins the first module of its name already there, its
/// items added to that module's one by one; anything else, and a module without a namesake,
/// goes at the end.
pub open spec fn add_item_v(items: Seq<ItemV>, new: ItemV) -> Seq<ItemV>
    decreases new, 1nat,
{
    match new.kind {
        ItemKindV::Mod(subs) => match first_mod(items, new.ident) {
            Some(i) => items.update(
                i,
                ItemV {
                    ident: items[i].ident,
                    vis: items[i].vis,
                    attrs: items[i].attrs,
                    kind: ItemKindV::Mod(add_items_v(mod_items(items[i]), subs)),
                },
            ),
            None => items.push(new),
        },
        _ => items.push(new),
    }
}

/// Items with each of `news` added in turn.
pub open spec fn add_items_v(items: Seq<ItemV>, news: Seq<ItemV>) -> Seq<ItemV>
    decreases news, 0nat,
{
    if news.len() == 0 {
        items
    } else {
        add_item_v(add_items_v(items, news.drop_last()), news.last())
    }
}

/// The items of the files, each file's added in turn.
pub open spec fn files_items(files: Seq<File>) -> Seq<ItemV>
    decreases files.len(),
{
    if files.len() == 0 {
        Seq::<ItemV>::empty()
    } else {
        add_items_v(files_items(files.drop_last()), file_items(files.last()))
    }
}

/// `#[allow(unused_imports)]`
pub open spec fn allow_unused_imports() -> AttributeV {
    AttributeV::List(
        seq!['a', 'l', 'l', 'o', 'w'],
        seq![seq!['u', 'n', 'u', 's', 'e', 'd', '_', 'i', 'm', 'p', 'o', 'r', 't', 's']],
    )
}

/// The items that open the generated code: `extern crate uavcan as uavcan_rs;` (with
/// `#[macro_use]`) and `pub(crate) use uavcan_rs::types::*;`, each allowed to go unused.
pub open spec fn header_items() -> Seq<ItemV> {
    seq![
        ItemV {
            ident: seq!['u', 'a', 'v', 'c', 'a', 'n', '_', 'r', 's'],
            vis: Visibility::Inherited,
            attrs: seq![allow_unused_imports(), AttributeV::Word(seq!['m', 'a', 'c', 'r', 'o', '_', 'u', 's', 'e'])],
            kind: ItemKindV::ExternCrate(seq!['u', 'a', 'v', 'c', 'a', 'n']),
        },
        ItemV {
            ident: Seq::<char>::empty(),
            vis: Visibility::Crate,
            attrs: seq![allow_unused_imports()],
            kind: ItemKindV::UseGlob(
                seq![seq!['u', 'a', 'v', 'c', 'a', 'n', '_', 'r', 's'], seq!['t', 'y', 'p', 'e', 's']],
            ),
        },
    ]
}

/// What a set of files compiles to: the header items, then the files' items merged into one
/// tree of modules.
pub open spec fn dsdl_items(files: Seq<File>) -> Seq<ItemV> {
    header_items() + files_items(files)
}

/// What `first_mod` finds is a module of that name, and no item before it is one.
proof fn lemma_first_mod(items: Seq<ItemV>, name: Seq<char>)
    ensures
        first_mod(items, name) matches Some(i) ==> 0 <= i < items.len() && is_mod_named(items[i], name)
            && forall|j: int| 0 <= j < i ==> !is_mod_named(#[trigger] items[j], name),
        first_mod(items, name) is None ==> forall|j: int|
            0 <= j < items.len() ==> !is_mod_named(#[trigger] items[j], name),
    decreases items.len(),
{
    if items.len() > 0 {
        lemma_first_mod(items.drop_first(), name);
        assert forall|j: int| 1 <= j < items.len() implies #[trigger] items[j] == items.drop_first()[j - 1] by {}
    }
}

/// The size of an item: one, and for a module the sizes of its items.
pub open spec fn item_size(i: ItemV) -> nat
    decreases i, 1nat,
{
    1 + match i.kind {
        ItemKindV::Mod(s) => items_size(s),
        _ => 0,
    }
}

/// The sizes of items, summed.
pub open spec fn items_size(s: Seq<ItemV>) -> nat
    decreases s, 0nat,
{
    if s.len() == 0 {
        0
    } else {
        items_size(s.drop_last()) + item_size(s.last())
    }
}

/// No item is larger than the items it is among.
proof fn lemma_items_size(s: Seq<ItemV>, k: int)
    requires
        0 <= k < s.len(),
    ensures
        item_size(s[k]) <= items_size(s),
    decreases s.len(),
{
    if k < s.len() - 1 {
        lemma_items_size(s.drop_last(), k);
        assert(s.drop_last()[k] == s[k]);
    }
}

/// The position of the first module named `name` among items.
fn find_mod(items: &Vec<Item>, name: &String) -> (r: Option<usize>)
    ensures
        match first_mod(items_view(items@), name@) {
            Some(i) => r == Some(i as usize),
            None => r is None,
        },
{
    let ghost v = items_view(items@);
    proof {
        lemma_items_view(items@);
        lemma_first_mod(v, name@);
    }
    let mut i: usize = 0;
    while i < items.len()
        invariant
            0 <= i <= items@.len(),
            v == items_view(items@),
            v.len() == items@.len(),
            forall|k: int| 0 <= k < items@.len() ==> #[trigger] v[k] == item_view(items@[k]),
            forall|j: int| 0 <= j < i ==> !is_mod_named(#[trigger] v[j], name@),
            first_mod(v, name@) matches Some(j) ==> 0 <= j < v.len() && is_mod_named(v[j], name@)
                && forall|q: int| 0 <= q < j ==> !is_mod_named(#[trigger] v[q], name@),
            first_mod(v, name@) is None ==> forall|q: int|
                0 <= q < v.len() ==> !is_mod_named(#[trigger] v[q], name@),
        decreases items@.len() - i,
    {
        let is_mod = match &items[i].kind {
            ItemKind::Mod(_) => true,
            _ => false,
        };
        assert(v[i as int] == item_view(items@[i as int]));
        if is_mod && items[i].ident == *name {
            assert(is_mod_named(v[i as int], name@));
            return Some(i);
        }
        assert(!is_mod_named(v[i as int], name@));
        i = i + 1;
    }
    None
}

/// Adds an item, merging a module into the first module of its name.
fn add_item(new_item: Item, items: &mut Vec<Item>)
    ensures
        items_view(final(items)@) == add_item_v(items_view(old(items)@), item_view(new_item)),
    decreases item_size(item_view(new_item)), 1nat,
{
    let ghost nv = item_view(new_item);
    let ghost start = items_view(items@);
    proof {
        lemma_items_view(items@);
    }
    let Item { ident, vis, attrs, kind } = new_item;
    proof {
        lemma_first_mod(start, ident@);
    }
    match kind {
        ItemKind::Mod(subs) => {
            match find_mod(items, &ident) {
                Some(i) => {
                    let len = items.len();
                    proof {
                        assert(items_view(items@) == start);
                        assert(start.len() == len);
                        assert(first_mod(start, ident@) is Some);
                        assert(first_mod(start, ident@)->Some_0 == i as int);
                    }
                    let removed = items.remove(i);
                    let ghost target = start[i as int];
                    assert(removed == old(items)@[i as int]);
                    assert(item_view(removed) == target);
                    assert(is_mod_named(target, ident@));
                    let Item { ident: mi, vis: mv, attrs: ma, kind: mk } = removed;
                    match mk {
                        ItemKind::Mod(mut inner) => {
                            let ghost inner0 = inner@;
                            assert(mod_items(target) == items_view(inner0));
                            assert(mod_items(nv) == items_view(subs@));
                            add_items(subs, &mut inner);
                            let merged = Item { ident: mi, vis: mv, attrs: ma, kind: ItemKind::Mod(inner) };
                            items.insert(i, merged);
                            proof {
                                lemma_items_view(items@);
                                lemma_items_view(old(items)@);
                                assert(item_view(merged) == ItemV {
                                    ident: target.ident,
                                    vis: target.vis,
                                    attrs: target.attrs,
                                    kind: ItemKindV::Mod(add_items_v(mod_items(target), mod_items(nv))),
                                });
                                assert(items_view(items@) =~= start.update(i as int, item_view(merged)));
                            }
                        },
                        other => {
                            assert(!(kind_view(other) is Mod));
                            items.insert(i, Item { ident: mi, vis: mv, attrs: ma, kind: other });
                        },
                    }
                },
                None => {
                    let m = Item { ident, vis, attrs, kind: ItemKind::Mod(subs) };
                    let ghost before = items@;
                    items.push(m);
                    assert(items@.drop_last() =~= before);
                },
            }
        },
        other => {
            let m = Item { ident, vis, attrs, kind: other };
            let ghost before = items@;
            items.push(m);
            assert(items@.drop_last() =~= before);
        },
    }
}

/// Adds items one after the other.
fn add_items(news: Vec<Item>, items: &mut Vec<Item>)
    ensures
        items_view(final(items)@) == add_items_v(items_view(old(items)@), items_view(news@)),
    decreases items_size(items_view(news@)), 2nat,
{
    let ghost orig = news@;
    let ghost start = items_view(items@);
    let n0 = news.len();
    let mut rest = news;
    let mut k: usize = 0;
    assert(orig.take(0) =~= Seq::<Item>::empty());
    assert(orig.skip(0) =~= orig);
    while rest.len() > 0
        invariant
            0 <= k <= orig.len(),
            k + rest@.len() == orig.len(),
            orig.len() == n0,
            orig == news@,
            rest@ == orig.skip(k as int),
            items_view(items@) == add_items_v(start, items_view(orig.take(k as int))),
        decreases rest@.len(),
    {
        let x = rest.remove(0);
        assert(x == orig[k as int]);
        assert(rest@ =~= orig.skip(k + 1));
        proof {
            lemma_items_view(orig);
            lemma_items_size(items_view(orig), k as int);
        }
        add_item(x, items);
        proof {
            let t = orig.take(k + 1);
            assert(t.drop_last() =~= orig.take(k as int));
            assert(t.last() == x);
            assert(items_view(t).drop_last() =~= items_view(orig.take(k as int)));
        }
        k = k + 1;
    }
    assert(orig.take(k as int) =~= orig);
}

/// `#[allow(unused_imports)]`
fn allow_unused_imports_attr() -> (a: Attribute)
    ensures
        a@ == allow_unused_imports(),
{
    proof {
        reveal_strlit("allow");
        reveal_strlit("unused_imports");
        assert("allow"@ =~= seq!['a', 'l', 'l', 'o', 'w']);
        assert("unused_imports"@ =~= seq!['u', 'n', 'u', 's', 'e', 'd', '_', 'i', 'm', 'p', 'o', 'r', 't', 's']);
    }
    let words = vec!["unused_imports".to_owned()];
    assert(string_views(words@) =~= seq![seq!['u', 'n', 'u', 's', 'e', 'd', '_', 'i', 'm', 'p', 'o', 'r', 't', 's']]);
    Attribute::List("allow".to_owned(), words)
}

/// The items that open the generated code.
fn header() -> (items: Vec<Item>)
    ensures
        items_view(items@) == header_items(),
{
    proof {
        reveal_strlit("uavcan_rs");
        reveal_strlit("macro_use");
        reveal_strlit("uavcan");
        reveal_strlit("types");
        reveal_strlit("");
        assert("uavcan_rs"@ =~= seq!['u', 'a', 'v', 'c', 'a', 'n', '_', 'r', 's']);
        assert("macro_use"@ =~= seq!['m', 'a', 'c', 'r', 'o', '_', 'u', 's', 'e']);
        assert("uavcan"@ =~= seq!['u', 'a', 'v', 'c', 'a', 'n']);
        assert("types"@ =~= seq!['t', 'y', 'p', 'e', 's']);
        assert(""@ =~= Seq::<char>::empty());
    }
    let extern_attrs = vec![allow_unused_imports_attr(), Attribute::Word("macro_use".to_owned())];
    assert(attrs_view(extern_attrs@) =~= header_items()[0].attrs);
    let extern_item = Item {
        ident: "uavcan_rs".to_owned(),
        vis: Visibility::Inherited,
        attrs: extern_attrs,
        kind: ItemKind::ExternCrate("uavcan".to_owned()),
    };
    let use_attrs = vec![allow_unused_imports_attr()];
    assert(attrs_view(use_attrs@) =~= header_items()[1].attrs);
    let path = vec!["uavcan_rs".to_owned(), "types".to_owned()];
    assert(string_views(path@) =~= seq![
        seq!['u', 'a', 'v', 'c', 'a', 'n', '_', 'r', 's'],
        seq!['t', 'y', 'p', 'e', 's'],
    ]);
    let use_item = Item {
        ident: "".to_owned(),
        vis: Visibility::Crate,
        attrs: use_attrs,
        kind: ItemKind::UseGlob(path),
    };
    assert(item_view(extern_item) == header_items()[0]);
    assert(item_view(use_item) == header_items()[1]);
    let items = vec![extern_item, use_item];
    proof {
        lemma_items_view(items@);
        assert(items_view(items@) =~= header_items());
    }
    items
}

/// Whether every file of a set can be compiled.
pub open spec fn all_compilable(files: Seq<File>) -> bool {
    forall|i: int| 0 <= i < files.len() ==> file_compilable(#[trigger] files[i])
}

impl Compile<Vec<Item>> for DSDL {
    open spec fn compilable(&self) -> bool {
        all_compilable(self@)
    }

    /// The items of all files, merged into one tree of modules, after the header items.
    fn compile(self) -> (items: Vec<Item>)
        ensures
            items_view(items@) == dsdl_items(self@),
    {
        let files = self.files();
        let mut items: Vec<Item> = Vec::new();
        let mut i: usize = 0;
        assert(files@.take(0) =~= Seq::<File>::empty());
        assert(items_view(items@) =~= Seq::<ItemV>::empty());
        while i < files.len()
            invariant
                0 <= i <= files@.len(),
                files@ == self@,
                all_compilable(self@),
                items_view(items@) == files_items(files@.take(i as int)),
            decreases files@.len() - i,
        {
            let new_items = file_items_of(&files[i]);
            add_items(new_items, &mut items);
            proof {
                let t = files@.take(i + 1);
                assert(t.drop_last() =~= files@.take(i as int));
                assert(t.last() == files@[i as int]);
            }
            i = i + 1;
        }
        assert(files@.take(files@.len() as int) =~= files@);
        let mut all = header();
        let ghost h = all@;
        let ghost rest = items@;
        all.append(&mut items);
        proof {
            lemma_items_view(h);
            lemma_items_view(rest);
            lemma_items_view(all@);
            assert(items_view(all@) =~= header_items() + files_items(self@));
        }
        all
    }
}

/// Whether the array of a field is `[<0]`.
fn is_empty_less(a: &Option<ArrayInfo>) -> (r: bool)
    ensures
        r == (*a matches Some(ArrayInfo::DynamicLess(n)) && n == 0),
{
    match a {
        Some(ArrayInfo::DynamicLess(n)) => *n == 0,
        _ => false,
    }
}

/// Whether lines can be normalized and compiled.
fn lines_compilable(ls: &Vec<Line>) -> (r: bool)
    ensures
        r == (lines_normalizable(ls@) && message_compilable(ls@)),
{
    let mut union = false;
    let mut k: usize = 0;
    while k < ls.len()
        invariant
            0 <= k <= ls@.len(),
            union == exists|j: int| 0 <= j < k && ls@[j] is Directive,
        decreases ls@.len() - k,
    {
        if ls[k].is_directive() {
            union = true;
        }
        k = k + 1;
    }
    assert(union == is_union(ls@));
    let mut i: usize = 0;
    while i < ls.len()
        invariant
            0 <= i <= ls@.len(),
            union == is_union(ls@),
            forall|j: int| 0 <= j < i ==> line_normalizable(#[trigger] ls@[j]),
            forall|j: int|
                0 <= j < i ==> (#[trigger] ls@[j] matches Line::Definition {
                    definition: AttributeDefinition::Field(f),
                    ..
                } ==> field_compilable(f) && (is_union(ls@) ==> f.name is Some)),
        decreases ls@.len() - i,
    {
        match &ls[i] {
            Line::Definition { definition: AttributeDefinition::Field(f), .. } => {
                if is_empty_less(&f.array) {
                    assert(!field_compilable(*f));
                    return false;
                }
                if union && f.name.is_none() {
                    return false;
                }
                assert(field_normalizable(*f));
            },
            _ => {},
        }
        i = i + 1;
    }
    true
}

/// Whether every file of a set can be compiled.
pub fn files_compilable(files: &Vec<File>) -> (r: bool)
    ensures
        r == all_compilable(files@),
{
    let mut i: usize = 0;
    while i < files.len()
        invariant
            0 <= i <= files@.len(),
            forall|j: int| 0 <= j < i ==> file_compilable(#[trigger] files@[j]),
        decreases files@.len() - i,
    {
        let ok = match &files[i].definition {
            TypeDefinition::Message(m) => lines_compilable(&m.0),
            TypeDefinition::Service(s) => lines_compilable(&s.request.0) && lines_compilable(&s.response.0),
        };
        if !ok {
            return false;
        }
        i = i + 1;
    }
    true
}

} // verus!
