use dsdl_parser::compiler::codegen::Compile;
use dsdl_parser::compiler::rust::Attribute;
use dsdl_parser::compiler::rust::Field;
use dsdl_parser::compiler::rust::ImplItem;
use dsdl_parser::compiler::rust::Item;
use dsdl_parser::compiler::rust::ItemKind;
use dsdl_parser::compiler::rust::RustTy;
use dsdl_parser::compiler::rust::Variant;
use dsdl_parser::compiler::rust::Visibility;
use dsdl_parser::ArrayInfo;
use dsdl_parser::AttributeDefinition;
use dsdl_parser::Comment;
use dsdl_parser::CompositeType;
use dsdl_parser::Directive;
use dsdl_parser::FieldDefinition;
use dsdl_parser::Ident;
use dsdl_parser::Line;
use dsdl_parser::MessageDefinition;
use dsdl_parser::PrimitiveType;
use dsdl_parser::Ty;
use dsdl_parser::DSDL;

fn path(global: bool, segments: &[&str]) -> RustTy {
    RustTy::Path { global, segments: segments.iter().map(|s| s.to_string()).collect() }
}

fn doc(s: &str) -> Attribute {
    Attribute::Doc(String::from(s))
}

fn struct_attrs(docs: &[&str]) -> Vec<Attribute> {
    let mut attrs: Vec<Attribute> = docs.iter().map(|d| doc(d)).collect();
    attrs.push(Attribute::List(
        String::from("derive"),
        vec![String::from("Debug"), String::from("Clone"), String::from("UavcanStruct")],
    ));
    attrs.push(Attribute::NameValue(String::from("UavcanCrateName"), String::from("uavcan_rs")));
    attrs
}

fn field_def(ty: Ty, array: Option<ArrayInfo>, name: Option<&str>) -> FieldDefinition {
    FieldDefinition { cast_mode: None, field_type: ty, array, name: name.map(|n| Ident(String::from(n))) }
}

fn node_status_type() -> Ty {
    Ty::Composite(CompositeType {
        namespace: Some(Ident(String::from("uavcan.protocol"))),
        name: Ident(String::from("NodeStatus")),
    })
}

fn field_line(def: FieldDefinition, comment: Option<&str>) -> Line {
    Line::Definition {
        definition: AttributeDefinition::Field(def),
        comment: comment.map(|c| Comment(String::from(c))),
    }
}

#[test]
fn compile_primitive_type() {
    assert_eq!(PrimitiveType::Uint2.compile(), path(true, &["u2"]));
    assert_eq!(PrimitiveType::Int9.compile(), path(true, &["i9"]));
    assert_eq!(PrimitiveType::Void23.compile(), path(true, &["void23"]));
    assert_eq!(PrimitiveType::Bool.compile(), path(false, &["bool"]));
    assert_eq!(PrimitiveType::Float64.compile(), path(false, &["f64"]));
    assert_eq!(PrimitiveType::Float16.compile(), path(true, &["f16"]));
    assert_eq!(PrimitiveType::Uint64.compile(), path(false, &["u64"]));
    assert_eq!(PrimitiveType::Int16.compile(), path(false, &["i16"]));
}

#[test]
fn compile_comment() {
    let comment: Attribute = Comment(String::from(" test comment")).compile();
    assert_eq!(comment, doc(" test comment"));
}

#[test]
fn compile_composite_type() {
    let t: RustTy = CompositeType {
        namespace: Some(Ident(String::from("uavcan.protocol"))),
        name: Ident(String::from("NodeStatus")),
    }
    .compile();
    assert_eq!(t, path(true, &["uavcan", "protocol", "NodeStatus"]));
    let local: RustTy = CompositeType { namespace: None, name: Ident(String::from("Empty")) }.compile();
    assert_eq!(local, path(false, &["Empty"]));
}

#[test]
fn compile_type() {
    assert_eq!(node_status_type().compile(), path(true, &["uavcan", "protocol", "NodeStatus"]));
    assert_eq!(Ty::Primitive(PrimitiveType::Uint2).compile(), path(true, &["u2"]));
}

#[test]
fn compile_field_def() {
    let simple: Field = field_def(Ty::Primitive(PrimitiveType::Uint3), None, Some("name")).compile();
    assert_eq!(simple, Field { name: Some(String::from("name")), ty: path(true, &["u3"]), attrs: vec![] });

    let composite: Field = field_def(node_status_type(), None, Some("name")).compile();
    assert_eq!(composite.ty, path(true, &["uavcan", "protocol", "NodeStatus"]));

    let array: Field = field_def(Ty::Primitive(PrimitiveType::Uint3), Some(ArrayInfo::Static(19)), Some("name")).compile();
    assert_eq!(array.ty, RustTy::Array(Box::new(path(true, &["u3"])), 19));

    let dynleq: Field =
        field_def(Ty::Primitive(PrimitiveType::Int29), Some(ArrayInfo::DynamicLeq(191)), Some("name")).compile();
    assert_eq!(dynleq.ty, RustTy::Dynamic(Box::new(path(true, &["i29"])), 191));

    let dynless: Field =
        field_def(Ty::Primitive(PrimitiveType::Bool), Some(ArrayInfo::DynamicLess(371)), Some("name")).compile();
    assert_eq!(dynless.ty, RustTy::Dynamic(Box::new(path(false, &["bool"])), 370));

    let padding: Field = field_def(Ty::Primitive(PrimitiveType::Void3), None, None).compile();
    assert_eq!(padding.name, None);
}

#[test]
fn compile_variant_def() {
    let simple: Variant = field_def(Ty::Primitive(PrimitiveType::Uint3), None, Some("name")).compile_variant();
    assert_eq!(simple, Variant { name: String::from("Name"), ty: path(true, &["u3"]), attrs: vec![] });

    let composite = field_def(node_status_type(), None, Some("name")).compile_variant();
    assert_eq!(composite.ty, path(true, &["uavcan", "protocol", "NodeStatus"]));

    let array = field_def(Ty::Primitive(PrimitiveType::Uint3), Some(ArrayInfo::Static(19)), Some("name")).compile_variant();
    assert_eq!(array.ty, RustTy::Array(Box::new(path(true, &["u3"])), 19));

    let dynleq =
        field_def(Ty::Primitive(PrimitiveType::Int29), Some(ArrayInfo::DynamicLeq(191)), Some("long_name")).compile_variant();
    assert_eq!(dynleq.name, "LongName");
    assert_eq!(dynleq.ty, RustTy::Dynamic(Box::new(path(true, &["i29"])), 191));

    let dynless = field_def(Ty::Primitive(PrimitiveType::Bool), Some(ArrayInfo::DynamicLeq(370)), Some("very_long_name"))
        .compile_variant();
    assert_eq!(dynless.name, "VeryLongName");
    assert_eq!(dynless.ty, RustTy::Dynamic(Box::new(path(false, &["bool"])), 370));
}

fn body_lines(union: bool) -> Vec<Line> {
    let mut lines = Vec::new();
    if union {
        lines.push(Line::Directive { directive: Directive::Union, comment: None });
    }
    lines.push(Line::Comment(Comment(String::from("about struct0"))));
    lines.push(Line::Comment(Comment(String::from("about struct1"))));
    lines.push(Line::Empty);
    lines.push(Line::Comment(Comment(String::from("test comment0"))));
    lines.push(field_line(field_def(Ty::Primitive(PrimitiveType::Uint8), None, Some("node_status")), Some("test comment1")));
    lines.push(Line::Comment(Comment(String::from("ignored comment"))));
    lines.push(Line::Empty);
    lines.push(Line::Comment(Comment(String::from("test comment2"))));
    lines.push(field_line(field_def(Ty::Primitive(PrimitiveType::Uint7), None, Some("node_something")), Some("test comment3")));
    lines
}

#[test]
fn compile_struct_body() {
    let (kinds, attrs) = MessageDefinition(body_lines(false)).compile();
    assert_eq!(attrs, struct_attrs(&["about struct0", "about struct1"]));
    assert_eq!(
        kinds,
        vec![ItemKind::Struct(vec![
            Field {
                name: Some(String::from("node_status")),
                ty: path(false, &["u8"]),
                attrs: vec![doc("test comment0"), doc("test comment1")],
            },
            Field {
                name: Some(String::from("node_something")),
                ty: path(true, &["u7"]),
                attrs: vec![doc("test comment2"), doc("test comment3")],
            },
        ])]
    );
}

#[test]
fn compile_enum_body() {
    let (kinds, attrs) = MessageDefinition(body_lines(true)).compile();
    assert_eq!(attrs, struct_attrs(&["about struct0", "about struct1"]));
    assert_eq!(
        kinds,
        vec![ItemKind::Enum(vec![
            Variant {
                name: String::from("NodeStatus"),
                ty: path(false, &["u8"]),
                attrs: vec![doc("test comment0"), doc("test comment1")],
            },
            Variant {
                name: String::from("NodeSomething"),
                ty: path(true, &["u7"]),
                attrs: vec![doc("test comment2"), doc("test comment3")],
            },
        ])]
    );
}

#[test]
fn compile_padding_fields() {
    let lines = vec![
        field_line(field_def(Ty::Primitive(PrimitiveType::Void2), None, None), None),
        Line::Comment(Comment(String::from(" kept"))),
        field_line(field_def(Ty::Primitive(PrimitiveType::Uint8), None, Some("a")), None),
        field_line(field_def(Ty::Primitive(PrimitiveType::Void5), None, None), None),
    ];
    let (kinds, attrs) = MessageDefinition(lines).compile();
    assert_eq!(attrs, struct_attrs(&[]));
    assert_eq!(
        kinds,
        vec![ItemKind::Struct(vec![
            Field { name: Some(String::from("_v0")), ty: path(true, &["void2"]), attrs: vec![] },
            Field { name: Some(String::from("a")), ty: path(false, &["u8"]), attrs: vec![doc(" kept")] },
            Field { name: Some(String::from("_v1")), ty: path(true, &["void5"]), attrs: vec![] },
        ])]
    );
}

const NODE_STATUS: &str = "#
# Abstract node status information.
#

uint16 MAX_BROADCASTING_PERIOD_MS = 1000

#
# Uptime counter should never overflow.
#
uint32 uptime_sec

uint2 health
";

#[test]
fn compile_struct() {
    let mut dsdl = DSDL::new();
    dsdl.read_file("uavcan.protocol.341.NodeStatus.uavcan", NODE_STATUS).unwrap();
    let file = dsdl.get_file("uavcan.protocol.NodeStatus").unwrap().clone();
    let signature = file.clone().normalize().dsdl_signature();
    let items = file.compile();
    let mut attrs = struct_attrs(&["", " Abstract node status information.", ""]);
    attrs.push(Attribute::NameValue(String::from("DSDLSignature"), format!("0x{:x}", signature)));
    let inner = vec![
        Item {
            ident: String::from("NodeStatus"),
            vis: Visibility::Public,
            attrs,
            kind: ItemKind::Struct(vec![
                Field {
                    name: Some(String::from("uptime_sec")),
                    ty: path(false, &["u32"]),
                    attrs: vec![doc(""), doc(" Uptime counter should never overflow."), doc("")],
                },
                Field { name: Some(String::from("health")), ty: path(true, &["u2"]), attrs: vec![] },
            ]),
        },
        Item {
            ident: String::from("NodeStatus"),
            vis: Visibility::Inherited,
            attrs: vec![],
            kind: ItemKind::Impl {
                trait_name: String::from("Message"),
                items: vec![ImplItem::OptionConst {
                    name: String::from("TYPE_ID"),
                    int_ty: String::from("u16"),
                    value: 341,
                }],
            },
        },
    ];
    let expected = vec![Item {
        ident: String::from("uavcan"),
        vis: Visibility::Public,
        attrs: vec![],
        kind: ItemKind::Mod(vec![Item {
            ident: String::from("protocol"),
            vis: Visibility::Public,
            attrs: vec![],
            kind: ItemKind::Mod(inner),
        }]),
    }];
    assert_eq!(items, expected);
}

#[test]
fn compile_service() {
    let mut dsdl = DSDL::new();
    dsdl.read_file("ns.1.Ask.uavcan", "uint8 a\n---\nint8 b\n").unwrap();
    let file = dsdl.get_file("ns.Ask").unwrap().clone();
    let signature = format!("0x{:x}", file.clone().normalize().dsdl_signature());
    let items = file.compile();
    let module = match &items[0].kind {
        ItemKind::Mod(inner) => inner,
        other => panic!("not a module: {:?}", other),
    };
    let names: Vec<&str> = module.iter().map(|i| i.ident.as_str()).collect();
    assert_eq!(names, vec!["AskRequest", "AskResponse", "AskRequest", "AskResponse"]);
    assert_eq!(module[0].attrs.last(), Some(&Attribute::NameValue(String::from("DSDLSignature"), signature)));
    assert_eq!(
        module[2].kind,
        ItemKind::Impl {
            trait_name: String::from("Request"),
            items: vec![
                ImplItem::Type { name: String::from("RESPONSE"), ty: String::from("AskResponse") },
                ImplItem::OptionConst { name: String::from("TYPE_ID"), int_ty: String::from("u8"), value: 1 },
            ],
        }
    );
    assert_eq!(
        module[3].kind,
        ItemKind::Impl {
            trait_name: String::from("Response"),
            items: vec![
                ImplItem::Type { name: String::from("REQUEST"), ty: String::from("AskRequest") },
                ImplItem::OptionConst { name: String::from("TYPE_ID"), int_ty: String::from("u8"), value: 1 },
            ],
        }
    );
}

#[test]
fn compile_dsdl() {
    let mut dsdl = DSDL::new();
    dsdl.read_file("a.b.X.uavcan", "uint8 x\n").unwrap();
    dsdl.read_file("a.c.Y.uavcan", "uint8 y\n").unwrap();
    dsdl.read_file("a.b.Z.uavcan", "uint8 z\n").unwrap();
    let items = dsdl.compile();
    assert_eq!(items.len(), 3);
    assert_eq!(items[0].ident, "uavcan_rs");
    assert_eq!(items[0].kind, ItemKind::ExternCrate(String::from("uavcan")));
    assert_eq!(items[1].vis, Visibility::Crate);
    assert_eq!(items[1].kind, ItemKind::UseGlob(vec![String::from("uavcan_rs"), String::from("types")]));
    // One module `a`, holding `b` (with X and Z) and `c` (with Y).
    let a = match &items[2].kind {
        ItemKind::Mod(inner) => inner,
        other => panic!("not a module: {:?}", other),
    };
    assert_eq!(items[2].ident, "a");
    assert_eq!(a.len(), 2);
    assert_eq!(a[0].ident, "b");
    assert_eq!(a[1].ident, "c");
    let b = match &a[0].kind {
        ItemKind::Mod(inner) => inner,
        other => panic!("not a module: {:?}", other),
    };
    let names: Vec<&str> = b.iter().map(|i| i.ident.as_str()).collect();
    assert_eq!(names, vec!["X", "Z"]);
}

const PARAM_VALUE: &str = "#
# Single parameter value.
#
# This is a union, which means that this structure can contain either one of the fields below.
# The structure is prefixed with tag - a selector value that indicates which particular field is encoded.
#

@union                                  # Tag is 3 bits long, so outer structure has 5-bit prefix to ensure proper alignment

Empty empty                             # Empty field, used to represent an undefined value.

int64   integer_value

float32 real_value                      # 32-bit type is used to simplify implementation on low-end systems

uint8   boolean_value                   # 8-bit value is used for alignment reasons

uint8[<=128] string_value               # Length prefix is exactly one byte long, which ensures proper alignment of payload
";

#[test]
fn compile_enum() {
    let mut dsdl = DSDL::new();
    dsdl.read_file("uavcan.protocol.param.Value.uavcan", PARAM_VALUE).unwrap();
    let file = dsdl.get_file("uavcan.protocol.param.Value").unwrap().clone();
    assert_eq!(file.clone().normalize().dsdl_signature(), 0xc3d96f448f2b00a1);
    let items = file.compile();
    let mut attrs = struct_attrs(&[
        "",
        " Single parameter value.",
        "",
        " This is a union, which means that this structure can contain either one of the fields below.",
        " The structure is prefixed with tag - a selector value that indicates which particular field is encoded.",
        "",
    ]);
    attrs.push(Attribute::NameValue(String::from("DSDLSignature"), String::from("0xc3d96f448f2b00a1")));
    let value = Item {
        ident: String::from("Value"),
        vis: Visibility::Public,
        attrs,
        kind: ItemKind::Enum(vec![
            Variant {
                name: String::from("Empty"),
                ty: path(false, &["Empty"]),
                attrs: vec![doc(" Empty field, used to represent an undefined value.")],
            },
            Variant { name: String::from("IntegerValue"), ty: path(false, &["i64"]), attrs: vec![] },
            Variant {
                name: String::from("RealValue"),
                ty: path(false, &["f32"]),
                attrs: vec![doc(" 32-bit type is used to simplify implementation on low-end systems")],
            },
            Variant {
                name: String::from("BooleanValue"),
                ty: path(false, &["u8"]),
                attrs: vec![doc(" 8-bit value is used for alignment reasons")],
            },
            Variant {
                name: String::from("StringValue"),
                ty: RustTy::Dynamic(Box::new(path(false, &["u8"])), 128),
                attrs: vec![doc(" Length prefix is exactly one byte long, which ensures proper alignment of payload")],
            },
        ]),
    };
    let module = |name: &str, inner: Vec<Item>| Item {
        ident: String::from(name),
        vis: Visibility::Public,
        attrs: vec![],
        kind: ItemKind::Mod(inner),
    };
    let expected = vec![module("uavcan", vec![module("protocol", vec![module("param", vec![value])])])];
    assert_eq!(items, expected);
}
