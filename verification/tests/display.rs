use dsdl_parser::ArrayInfo;
use dsdl_parser::AttributeDefinition;
use dsdl_parser::CastMode;
use dsdl_parser::Comment;
use dsdl_parser::CompositeType;
use dsdl_parser::ConstDefinition;
use dsdl_parser::Directive;
use dsdl_parser::FieldDefinition;
use dsdl_parser::Ident;
use dsdl_parser::Line;
use dsdl_parser::Lit;
use dsdl_parser::MessageDefinition;
use dsdl_parser::PrimitiveType;
use dsdl_parser::ServiceDefinition;
use dsdl_parser::Sign;
use dsdl_parser::Ty;
use dsdl_parser::TypeDefinition;

#[test]
fn line_display_line() {
    assert_eq!(Line::Empty.to_string(), "");

    assert_eq!(Line::Comment(Comment::from_str("# test comment").unwrap()).to_string(), "# test comment");

    assert_eq!(
        Line::Definition {
            definition: AttributeDefinition::Field(FieldDefinition {
                cast_mode: None,
                field_type: Ty::Primitive(PrimitiveType::Uint32),
                array: None,
                name: Some(Ident::from_str("uptime_sec").unwrap()),
            }),
            comment: None
        }
        .to_string(),
        "uint32 uptime_sec"
    );

    assert_eq!(
        Line::Definition {
            definition: AttributeDefinition::Field(FieldDefinition {
                cast_mode: None,
                field_type: Ty::Primitive(PrimitiveType::Uint32),
                array: None,
                name: Some(Ident::from_str("uptime_sec").unwrap()),
            }),
            comment: Some(Comment::from_str("# test comment").unwrap())
        }
        .to_string(),
        "uint32 uptime_sec # test comment"
    );

    assert_eq!(
        Line::Definition {
            definition: AttributeDefinition::Const(ConstDefinition {
                cast_mode: None,
                field_type: Ty::Primitive(PrimitiveType::Uint2),
                name: Ident::from_str("HEALTH_OK").unwrap(),
                literal: Lit::Dec { sign: Sign::Implicit, value: String::from("0") },
            }),
            comment: Some(Comment::from_str("# test comment").unwrap())
        }
        .to_string(),
        "uint2 HEALTH_OK = 0 # test comment"
    );

    assert_eq!(
        Line::Directive { directive: Directive::Union, comment: Some(Comment::from_str("# test comment").unwrap()) }
            .to_string(),
        "@union # test comment"
    );
}

#[test]
fn display_display_line() {
    assert_eq!(Line::Empty.to_string(), "");

    assert_eq!(Line::Comment(Comment(String::from(" test comment"))).to_string(), "# test comment");

    assert_eq!(
        Line::Definition {
            definition: AttributeDefinition::Field(FieldDefinition {
                cast_mode: None,
                field_type: Ty::Primitive(PrimitiveType::Uint32),
                array: None,
                name: Some(Ident(String::from("uptime_sec"))),
            }),
            comment: None
        }
        .to_string(),
        "uint32 uptime_sec"
    );

    assert_eq!(
        Line::Definition {
            definition: AttributeDefinition::Field(FieldDefinition {
                cast_mode: None,
                field_type: Ty::Primitive(PrimitiveType::Uint32),
                array: None,
                name: Some(Ident(String::from("uptime_sec"))),
            }),
            comment: Some(Comment(String::from(" test comment")))
        }
        .to_string(),
        "uint32 uptime_sec # test comment"
    );

    assert_eq!(
        Line::Definition {
            definition: AttributeDefinition::Const(ConstDefinition {
                cast_mode: None,
                field_type: Ty::Primitive(PrimitiveType::Uint2),
                name: Ident(String::from("HEALTH_OK")),
                literal: Lit::Dec { sign: Sign::Implicit, value: String::from("0") },
            }),
            comment: Some(Comment(String::from(" test comment")))
        }
        .to_string(),
        "uint2 HEALTH_OK = 0 # test comment"
    );

    assert_eq!(
        Line::Directive { directive: Directive::Union, comment: Some(Comment(String::from(" test comment"))) }
            .to_string(),
        "@union # test comment"
    );
}

#[test]
fn display_fields_with_every_part() {
    let f = FieldDefinition {
        cast_mode: Some(CastMode::Saturated),
        field_type: Ty::Composite(CompositeType {
            namespace: Some(Ident(String::from("uavcan.protocol"))),
            name: Ident(String::from("NodeStatus")),
        }),
        array: Some(ArrayInfo::DynamicLess(4)),
        name: Some(Ident(String::from("status"))),
    };
    assert_eq!(
        Line::Definition { definition: AttributeDefinition::Field(f), comment: None }.to_string(),
        "saturated uavcan.protocol.NodeStatus[<4] status"
    );
    assert_eq!(ArrayInfo::Static(7).to_string(), "[7]");
    assert_eq!(ArrayInfo::DynamicLeq(255).to_string(), "[<=255]");
    assert_eq!(Ty::Primitive(PrimitiveType::Float16).to_string(), "float16");
    assert_eq!(Ty::Primitive(PrimitiveType::Bool).to_string(), "bool");
    assert_eq!(CastMode::Truncated.to_string(), "truncated");
    assert_eq!(Directive::Union.to_string(), "@union");
}

#[test]
fn display_literals() {
    assert_eq!(Lit::Hex { sign: Sign::Negative, value: String::from("1f") }.to_string(), "-0x1f");
    assert_eq!(Lit::Oct { sign: Sign::Positive, value: String::from("777") }.to_string(), "+0o777");
    assert_eq!(Lit::Bin { sign: Sign::Implicit, value: String::from("101") }.to_string(), "0b101");
    assert_eq!(Lit::Dec { sign: Sign::Negative, value: String::from("12") }.to_string(), "-12");
    assert_eq!(Lit::Float { sign: Sign::Implicit, value: String::from("1.5e3") }.to_string(), "1.5e3");
    assert_eq!(Lit::Bool(false).to_string(), "false");
    assert_eq!(Lit::Char(String::from("a")).to_string(), "'a'");
}

#[test]
fn display_definitions() {
    let msg = MessageDefinition(vec![
        Line::Comment(Comment(String::from(" status"))),
        Line::Empty,
        Line::Definition {
            definition: AttributeDefinition::Field(FieldDefinition {
                cast_mode: None,
                field_type: Ty::Primitive(PrimitiveType::Uint8),
                array: None,
                name: Some(Ident(String::from("a"))),
            }),
            comment: None,
        },
    ]);
    assert_eq!(TypeDefinition::Message(msg.clone()).to_string(), "# status\n\nuint8 a");
    let srv = TypeDefinition::Service(ServiceDefinition {
        request: MessageDefinition(vec![Line::Empty]),
        response: msg,
    });
    assert_eq!(srv.to_string(), "\n---\n# status\n\nuint8 a");
}
