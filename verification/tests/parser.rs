use dsdl_parser::ast::dsdl::parse_definition;
use dsdl_parser::lexer::tokenize;
use dsdl_parser::lexer::Lit as LexLit;
use dsdl_parser::lexer::Token;
use dsdl_parser::parser::error::ParseError;
use dsdl_parser::parser::error::ParseErrorKind;
use dsdl_parser::parser::error::ParseErrorSeverity;
use dsdl_parser::parser::lines::parse_line;
use dsdl_parser::parser::definition::parse_type_definition;
use dsdl_parser::ArrayInfo;
use dsdl_parser::AttributeDefinition;
use dsdl_parser::CastMode;
use dsdl_parser::Comment;
use dsdl_parser::CompositeType;
use dsdl_parser::ConstDefinition;
use dsdl_parser::Directive;
use dsdl_parser::FieldDefinition;
use dsdl_parser::Ident;
use dsdl_parser::Line;
use dsdl_parser::Lit;
use dsdl_parser::MessageDefinition;
use dsdl_parser::PrimitiveType;
use dsdl_parser::ServiceDefinition;
use dsdl_parser::Sign;
use dsdl_parser::Ty;
use dsdl_parser::TypeDefinition;

/// Parses one line of text (an end of line after it is left out).
fn line(text: &str) -> Result<Line, ParseError> {
    let toks = tokenize(text);
    let mut end = toks.len();
    if end > 0 && toks[end - 1].1 == Token::Eol {
        end -= 1;
    }
    parse_line(&toks, 0, end)
}

fn field(text: &str) -> FieldDefinition {
    match line(text).unwrap() {
        Line::Definition { definition: AttributeDefinition::Field(f), comment: None } => f,
        other => panic!("not a field definition: {:?}", other),
    }
}

fn constant(text: &str) -> ConstDefinition {
    match line(text).unwrap() {
        Line::Definition { definition: AttributeDefinition::Const(c), comment: None } => c,
        other => panic!("not a constant definition: {:?}", other),
    }
}

fn definition(text: &str) -> Result<TypeDefinition, ParseError> {
    parse_type_definition(&tokenize(text))
}

fn void2() -> Line {
    Line::Definition {
        definition: AttributeDefinition::Field(FieldDefinition {
            cast_mode: None,
            field_type: Ty::Primitive(PrimitiveType::Void2),
            array: None,
            name: None,
        }),
        comment: None,
    }
}

#[test]
fn parser_parse_array_info() {
    assert_eq!(field("uint8[2] a").array, Some(ArrayInfo::Static(2)));
    assert_eq!(field("uint8[<2] a").array, Some(ArrayInfo::DynamicLess(2)));
    assert_eq!(field("uint8[<=2] a").array, Some(ArrayInfo::DynamicLeq(2)));
}

#[test]
fn parser_parse_directive() {
    assert_eq!(line("@union"), Ok(Line::Directive { directive: Directive::Union, comment: None }));
}

#[test]
fn parser_parse_field_definition() {
    assert_eq!(
        FieldDefinition {
            cast_mode: None,
            field_type: Ty::Primitive(PrimitiveType::Void2),
            array: None,
            name: None,
        },
        field("void2")
    );
    assert_eq!(
        FieldDefinition {
            cast_mode: None,
            field_type: Ty::Primitive(PrimitiveType::Uint32),
            array: None,
            name: Some(Ident::from_str("uptime_sec").unwrap()),
        },
        field("uint32 uptime_sec")
    );
    assert_eq!(
        FieldDefinition {
            cast_mode: Some(CastMode::Truncated),
            field_type: Ty::Primitive(PrimitiveType::Uint32),
            array: None,
            name: Some(Ident::from_str("test").unwrap()),
        },
        field("truncated uint32 test")
    );
    assert_eq!(
        FieldDefinition {
            cast_mode: None,
            field_type: Ty::Composite(CompositeType { namespace: None, name: Ident(String::from("Test")) }),
            array: None,
            name: Some(Ident::from_str("test").unwrap()),
        },
        field("Test test")
    );
    assert_eq!(
        FieldDefinition {
            cast_mode: None,
            field_type: Ty::Primitive(PrimitiveType::Uint8),
            array: Some(ArrayInfo::Static(10)),
            name: Some(Ident::from_str("test").unwrap()),
        },
        field("uint8[10] test")
    );
}

#[test]
fn parser_parse_const_definition() {
    assert_eq!(
        ConstDefinition {
            cast_mode: None,
            field_type: Ty::Primitive(PrimitiveType::Uint2),
            name: Ident::from_str("HEALTH_OK").unwrap(),
            literal: Lit::Dec { sign: Sign::Implicit, value: String::from("0") },
        },
        constant("uint2 HEALTH_OK = 0")
    );
}

#[test]
fn parser_parse_type_definition() {
    assert_eq!(
        definition("void2\n\n"),
        Ok(TypeDefinition::Message(MessageDefinition(vec![void2(), Line::Empty])))
    );
    assert_eq!(definition("void2\n"), Ok(TypeDefinition::Message(MessageDefinition(vec![void2()]))));
    let status = Line::Definition {
        definition: AttributeDefinition::Field(FieldDefinition {
            cast_mode: None,
            field_type: Ty::Primitive(PrimitiveType::Uint16),
            array: None,
            name: Some(Ident::from_str("vendor_specific_status_code").unwrap()),
        }),
        comment: None,
    };
    assert_eq!(
        definition("void2\nuint16 vendor_specific_status_code\n\n"),
        Ok(TypeDefinition::Message(MessageDefinition(vec![void2(), status.clone(), Line::Empty])))
    );
    assert_eq!(
        definition("void2\nuint16 vendor_specific_status_code\n"),
        Ok(TypeDefinition::Message(MessageDefinition(vec![void2(), status])))
    );
    assert_eq!(
        definition("void32\n---\nvoid2 # test comment\n"),
        Ok(TypeDefinition::Service(ServiceDefinition {
            request: MessageDefinition(vec![Line::Definition {
                definition: AttributeDefinition::Field(FieldDefinition {
                    cast_mode: None,
                    field_type: Ty::Primitive(PrimitiveType::Void32),
                    array: None,
                    name: None,
                }),
                comment: None,
            }]),
            response: MessageDefinition(vec![Line::Definition {
                definition: AttributeDefinition::Field(FieldDefinition {
                    cast_mode: None,
                    field_type: Ty::Primitive(PrimitiveType::Void2),
                    array: None,
                    name: None,
                }),
                comment: Some(Comment::from_str("# test comment").unwrap()),
            }]),
        }))
    );
}

#[test]
fn parse_directive_error() {
    assert_eq!(
        line("@unionasd"),
        Err(ParseError::new(ParseErrorKind::UnknownDirectiveName(Ident::from_str("unionasd").unwrap()), None))
    );
    assert_eq!(
        line("@bad_directive 123 12345"),
        Err(ParseError::new(ParseErrorKind::UnknownDirectiveName(Ident::from_str("bad_directive").unwrap()), None))
    );
}

#[test]
fn parse_line_error() {
    assert_eq!(
        line("@unionasd\n"),
        Err(ParseError::new(ParseErrorKind::UnknownDirectiveName(Ident::from_str("unionasd").unwrap()), None))
    );
    assert_eq!(
        line("@bad_directive 123 12345\n"),
        Err(ParseError::new(ParseErrorKind::UnknownDirectiveName(Ident::from_str("bad_directive").unwrap()), None))
    );
    assert_eq!(
        line("uint2 123\n"),
        Err(ParseError::new(ParseErrorKind::UnexpectedToken(Token::Lit(LexLit::Dec(String::from("123")))), Some(6)))
    );
}

#[test]
fn parse_lines_of_every_kind() {
    assert_eq!(line(""), Ok(Line::Empty));
    assert_eq!(line("# Test comment"), Ok(Line::Comment(Comment(String::from(" Test comment")))));
    assert_eq!(
        line("void2 # test comment"),
        Ok(Line::Definition {
            definition: AttributeDefinition::Field(FieldDefinition {
                cast_mode: None,
                field_type: Ty::Primitive(PrimitiveType::Void2),
                array: None,
                name: None,
            }),
            comment: Some(Comment(String::from(" test comment"))),
        })
    );
    assert_eq!(
        line("@union # why"),
        Ok(Line::Directive { directive: Directive::Union, comment: Some(Comment(String::from(" why"))) })
    );
    assert_eq!(
        constant("saturated int8 NEG = -0x1f"),
        ConstDefinition {
            cast_mode: Some(CastMode::Saturated),
            field_type: Ty::Primitive(PrimitiveType::Int8),
            name: Ident(String::from("NEG")),
            literal: Lit::Hex { sign: Sign::Negative, value: String::from("1f") },
        }
    );
    assert_eq!(
        constant("bool FLAG = true"),
        ConstDefinition {
            cast_mode: None,
            field_type: Ty::Primitive(PrimitiveType::Bool),
            name: Ident(String::from("FLAG")),
            literal: Lit::Bool(true),
        }
    );
    assert_eq!(
        field("uavcan.protocol.NodeStatus[<=3] statuses"),
        FieldDefinition {
            cast_mode: None,
            field_type: Ty::Composite(CompositeType {
                namespace: Some(Ident(String::from("uavcan.protocol"))),
                name: Ident(String::from("NodeStatus")),
            }),
            array: Some(ArrayInfo::DynamicLeq(3)),
            name: Some(Ident(String::from("statuses"))),
        }
    );
}

#[test]
fn lines_that_are_no_lines() {
    // A field needs a type before its name.
    assert_eq!(
        line("uptime_sec uint32"),
        Err(ParseError::new(ParseErrorKind::UnexpectedToken(Token::PrimitiveType(PrimitiveType::Uint32)), Some(11)))
    );
    // A line that ends too early.
    assert_eq!(line("uint8["), Err(ParseError::new(ParseErrorKind::InvalidTypeDefinition, None)));
    // Something after a comment.
    assert!(line("@").is_err());
}

#[test]
fn type_definition_errors() {
    assert!(definition("uint8 a b\n").is_err());
    assert!(definition("---\n---\n").is_err());
    assert!(parse_definition("uint8 a\n=\n").is_err());
    assert_eq!(
        parse_definition("uint8 a\n"),
        Ok(TypeDefinition::Message(MessageDefinition(vec![Line::Definition {
            definition: AttributeDefinition::Field(FieldDefinition {
                cast_mode: None,
                field_type: Ty::Primitive(PrimitiveType::Uint8),
                array: None,
                name: Some(Ident(String::from("a"))),
            }),
            comment: None,
        }])))
    );
}

#[test]
fn error_kinds_explain_themselves() {
    let e = ParseError::new(ParseErrorKind::UnknownDirectiveName(Ident(String::from("x"))), None);
    assert_eq!(e.severity(), ParseErrorSeverity::Error);
    assert_eq!(e.location(), None);
    assert_eq!(e.kind().explain(), "The identifier \"x\" is not recognized as a directive");
    assert_eq!(ParseErrorKind::InvalidToken.explain(), "Encountered something that is not recognized as a valid token");
    assert_eq!(ParseErrorKind::InvalidTypeDefinition.explain(), "Type definition was not valid");
    assert_eq!(
        ParseErrorKind::UnexpectedToken(Token::Eq).explain(),
        "The token \"=\" is not expected in this context"
    );
    assert_eq!(ParseErrorKind::InvalidToken.minimum_severity(), ParseErrorSeverity::Error);
    let located = ParseError::new(ParseErrorKind::InvalidTypeDefinition, Some(4));
    assert_eq!(located.location(), Some(4));
    assert_eq!(located.kind(), &ParseErrorKind::InvalidTypeDefinition);
}

#[test]
fn parsing_displayed_text_displays_alike() {
    let texts = [
        "# head\n\n@union\nsaturated uint8[<=3] a # c\nfloat32 B = -1.5\nvoid2\n---\nbool ok\nuavcan.protocol.NodeStatus status",
        "truncated int16[4] x\n# only a comment",
    ];
    for text in texts.iter() {
        let t = definition(text).unwrap();
        let shown = t.to_string();
        let again = definition(&shown).unwrap();
        assert_eq!(again.to_string(), shown);
        assert_eq!(again, t);
    }
}

#[test]
fn displayed_text_lexes_to_the_same_tokens() {
    let text = "# head\n@union\nsaturated uint8[<=3] a # c\nuint2 B = 0x1f\nvoid2\n---\nbool[<4] ok\n";
    let t = definition(text).unwrap();
    let shown = t.to_string();
    let before: Vec<Token> = tokenize(text).into_iter().map(|x| x.1).collect();
    let mut after: Vec<Token> = tokenize(&shown).into_iter().map(|x| x.1).collect();
    // the display writes no line break after the last line
    after.push(Token::Eol);
    assert_eq!(after, before);
}

#[test]
fn display_drops_a_trailing_empty_line() {
    let t = definition("uint8 a\n\n").unwrap();
    let shown = t.to_string();
    assert_eq!(shown, "uint8 a\n");
    let again = definition(&shown).unwrap();
    assert_eq!(again.to_string(), "uint8 a");
}

#[test]
fn a_definition_reports_the_error_of_its_first_bad_line() {
    // the first bad line is the second; its unexpected token is the `c` at byte 16
    let e = definition("uint8 a\nuint8 b c\nuint8 = 1\n").unwrap_err();
    assert_eq!(e.kind(), &ParseErrorKind::UnexpectedToken(Token::Ident(Ident(String::from("c")))));
    assert_eq!(e.location(), Some(16));
    // a second `---` is no line
    let e = definition("---\nuint8 a\n---\n").unwrap_err();
    assert_eq!(e.kind(), &ParseErrorKind::UnexpectedToken(Token::ServiceResponseMarker));
    assert_eq!(e.location(), Some(12));
    // a line that ends too early, before an end of line or at the end of the text
    let e = definition("uint8 a\nuint8[\n").unwrap_err();
    assert_eq!(e.kind(), &ParseErrorKind::UnexpectedToken(Token::Eol));
    assert_eq!(e.location(), Some(14));
    let e = definition("uint8 a\nuint8[").unwrap_err();
    assert_eq!(e.kind(), &ParseErrorKind::InvalidTypeDefinition);
    assert_eq!(e.location(), None);
}

#[test]
fn parsing_splits_names_at_the_last_dot_and_signs_off_digits() {
    let f = field("uavcan.protocol.NodeStatus status");
    assert_eq!(
        f.field_type,
        Ty::Composite(CompositeType {
            namespace: Some(Ident(String::from("uavcan.protocol"))),
            name: Ident(String::from("NodeStatus")),
        })
    );
    assert_eq!(
        field("NodeStatus status").field_type,
        Ty::Composite(CompositeType { namespace: None, name: Ident(String::from("NodeStatus")) })
    );
    assert_eq!(constant("int8 A = -12").literal, Lit::Dec { sign: Sign::Negative, value: String::from("12") });
    assert_eq!(constant("float32 B = +2.5").literal, Lit::Float { sign: Sign::Positive, value: String::from("2.5") });
    assert_eq!(constant("int8 C = 12").literal, Lit::Dec { sign: Sign::Implicit, value: String::from("12") });
}
