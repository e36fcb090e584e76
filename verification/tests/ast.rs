use dsdl_parser::ast::cast_mode::ParseCastModeError;
use dsdl_parser::ast::comment::ParseCommentError;
use dsdl_parser::ast::directive::ParseDirectiveError;
use dsdl_parser::ast::lit::ParseLitError;
use dsdl_parser::ast::ty::NotPrimitiveTypeError;
use dsdl_parser::lexer::Lit as LexLit;
use dsdl_parser::lexer::ParseLitError as LexError;
use dsdl_parser::ArrayInfo;
use dsdl_parser::AttributeDefinition;
use dsdl_parser::CastMode;
use dsdl_parser::Comment;
use dsdl_parser::CompositeType;
use dsdl_parser::Directive;
use dsdl_parser::FieldDefinition;
use dsdl_parser::Ident;
use dsdl_parser::Line;
use dsdl_parser::Lit;
use dsdl_parser::PrimitiveType;
use dsdl_parser::Sign;
use dsdl_parser::Ty;

#[test]
fn comments_from_text() {
    assert_eq!(Comment::from_str("#This is a comment"), Ok(Comment(String::from("This is a comment"))));
    assert_eq!(Comment::from_str("#"), Ok(Comment(String::new())));
    assert_eq!(Comment::from_str("This is a comment"), Err(ParseCommentError::NoStartingHash));
    assert_eq!(Comment::from_str(""), Err(ParseCommentError::NoStartingHash));
    assert_eq!(Comment::from_str("#This is a comment\n"), Err(ParseCommentError::ContainsEol));
    assert_eq!(Comment::from_str("#a\rb"), Err(ParseCommentError::ContainsEol));
    assert_eq!(Comment(String::from(" x")).as_str(), " x");
    assert_eq!(Comment(String::from(" x")).to_string(), " x");
}

#[test]
fn cast_modes_from_text() {
    assert_eq!(CastMode::from_str("saturated"), Ok(CastMode::Saturated));
    assert_eq!(CastMode::from_str("truncated"), Ok(CastMode::Truncated));
    assert_eq!(CastMode::from_str("2variable23"), Err(ParseCastModeError::NotCastMode(String::from("2variable23"))));
    assert_eq!(CastMode::Saturated.to_string(), "saturated");
}

#[test]
fn directives_from_text() {
    assert_eq!(Directive::from_str("@union"), Ok(Directive::Union));
    assert_eq!(Directive::from_str("union"), Ok(Directive::Union));
    assert_eq!(Directive::from_str("@unionasd"), Err(ParseDirectiveError::NotDirective(String::from("@unionasd"))));
    assert_eq!(Directive::try_from(Ident(String::from("union"))), Ok(Directive::Union));
    assert_eq!(
        Directive::try_from(Ident(String::from("bad_directive"))),
        Err(ParseDirectiveError::NotDirective(String::from("bad_directive")))
    );
}

#[test]
fn idents_hold_any_text() {
    let id = Ident::from_str("uptime_sec").unwrap();
    assert_eq!(id.as_str(), "uptime_sec");
    assert_eq!(id.to_string(), "uptime_sec");
    assert_eq!(id.into_string(), String::from("uptime_sec"));
    assert_eq!(Ident::from_str("2 x"), Ok(Ident(String::from("2 x"))));
}

#[test]
fn literals_from_text() {
    assert_eq!(Lit::from_str("true"), Ok(Lit::Bool(true)));
    assert_eq!(Lit::from_str("false"), Ok(Lit::Bool(false)));
    assert_eq!(Lit::from_str("0x123"), Ok(Lit::Hex { sign: Sign::Implicit, value: String::from("123") }));
    assert_eq!(Lit::from_str("0xAABBCC"), Ok(Lit::Hex { sign: Sign::Implicit, value: String::from("AABBCC") }));
    assert_eq!(Lit::from_str("-0x12"), Ok(Lit::Hex { sign: Sign::Negative, value: String::from("12") }));
    assert_eq!(Lit::from_str("+0o777"), Ok(Lit::Oct { sign: Sign::Positive, value: String::from("777") }));
    assert_eq!(Lit::from_str("0b000111"), Ok(Lit::Bin { sign: Sign::Implicit, value: String::from("000111") }));
    assert_eq!(Lit::from_str("-0b101"), Ok(Lit::Bin { sign: Sign::Negative, value: String::from("101") }));
    assert_eq!(Lit::from_str("12354"), Ok(Lit::Dec { sign: Sign::Implicit, value: String::from("12354") }));
    assert_eq!(Lit::from_str("-12"), Ok(Lit::Dec { sign: Sign::Negative, value: String::from("12") }));
    assert_eq!(Lit::from_str("+12"), Ok(Lit::Dec { sign: Sign::Positive, value: String::from("12") }));
    assert_eq!(Lit::from_str("0"), Ok(Lit::Dec { sign: Sign::Implicit, value: String::from("0") }));
    assert_eq!(Lit::from_str("15.75"), Ok(Lit::Float { sign: Sign::Implicit, value: String::from("15.75") }));
    assert_eq!(Lit::from_str("-2.5e-3"), Ok(Lit::Float { sign: Sign::Negative, value: String::from("2.5e-3") }));
    assert_eq!(Lit::from_str("'b'"), Ok(Lit::Char(String::from("b"))));
    assert_eq!(Lit::from_str("'\\n'"), Ok(Lit::Char(String::from("\\n"))));
}

#[test]
fn literal_errors() {
    assert_eq!(Lit::from_str("0x12g"), Err(ParseLitError::NotValidHex(4, 'g')));
    assert_eq!(Lit::from_str("+0x1z"), Err(ParseLitError::NotValidHex(4, 'z')));
    assert_eq!(Lit::from_str("0o78"), Err(ParseLitError::NotValidOct(3, '8')));
    assert_eq!(Lit::from_str("0b102"), Err(ParseLitError::NotValidBin(4, '2')));
    assert_eq!(Lit::from_str("+0b102"), Err(ParseLitError::NotValidBin(5, '2')));
    assert_eq!(Lit::from_str("-0b12"), Err(ParseLitError::NotValidBin(4, '2')));
    assert_eq!(Lit::from_str("1234a"), Err(ParseLitError::NotValidDec(4, 'a')));
    assert_eq!(Lit::from_str("1a"), Err(ParseLitError::NotValidDec(1, 'a')));
    assert_eq!(Lit::from_str("12x4"), Err(ParseLitError::NotValidDec(2, 'x')));
    assert_eq!(Lit::from_str("-1a"), Err(ParseLitError::NotValidDec(2, 'a')));
    assert_eq!(Lit::from_str("1.5x"), Err(ParseLitError::NotValidFloat(3, 'x')));
    assert_eq!(Lit::from_str("1x.5"), Err(ParseLitError::NotValidFloat(1, 'x')));
    assert_eq!(Lit::from_str("'e'"), Ok(Lit::Char(String::from("e"))));
    assert_eq!(Lit::from_str("'.'"), Ok(Lit::Char(String::from("."))));
}

#[test]
fn lexer_literal_errors() {
    assert_eq!(LexLit::from_str("0"), Ok(LexLit::Dec(String::from("0"))));
    assert_eq!(LexLit::from_str("012"), Err(LexError::DecStartsWithZero));
    assert_eq!(LexLit::from_str("-012"), Err(LexError::DecStartsWithNegZero));
    assert_eq!(LexLit::from_str("+0"), Err(LexError::DecStartsWithPosZero));
    assert_eq!(LexLit::from_str("0x1A"), Err(LexError::NotValidHex(3, 'A')));
    assert_eq!(LexLit::from_str("-0o9"), Err(LexError::NotValidOct(3, '9')));
    assert_eq!(LexLit::from_str("0b12"), Err(LexError::NotValidBin(3, '2')));
    assert_eq!(LexLit::from_str("-0b12"), Err(LexError::NotValidBin(4, '2')));
    assert_eq!(LexLit::from_str("1.5x"), Err(LexError::NotValidFloat(3, 'x')));
    assert_eq!(LexLit::from_str("1x.5"), Err(LexError::NotValidFloat(1, 'x')));
    assert_eq!(LexLit::from_str("1234a"), Err(LexError::NotValidDec(4, 'a')));
    assert_eq!(LexLit::from_str("1a"), Err(LexError::NotValidDec(1, 'a')));
    assert_eq!(LexLit::from_str("'e'"), Ok(LexLit::Char(String::from("e"))));
    assert_eq!(LexLit::from_str("'a'"), Ok(LexLit::Char(String::from("a"))));
    assert_eq!(LexLit::from_str("-0x1f"), Ok(LexLit::Hex(String::from("-0x1f"))));
}

#[test]
fn primitive_types_from_text() {
    assert_eq!(PrimitiveType::from_str("uint2"), Ok(PrimitiveType::Uint2));
    assert_eq!(PrimitiveType::from_str("uint3"), Ok(PrimitiveType::Uint3));
    assert_eq!(PrimitiveType::from_str("uint16"), Ok(PrimitiveType::Uint16));
    assert_eq!(PrimitiveType::from_str("int64"), Ok(PrimitiveType::Int64));
    assert_eq!(PrimitiveType::from_str("void64"), Ok(PrimitiveType::Void64));
    assert_eq!(PrimitiveType::from_str("float16"), Ok(PrimitiveType::Float16));
    assert_eq!(PrimitiveType::from_str("bool"), Ok(PrimitiveType::Bool));
    assert_eq!(PrimitiveType::from_str("2variable23"), Err(NotPrimitiveTypeError));
    assert_eq!(PrimitiveType::from_str("uint65"), Err(NotPrimitiveTypeError));
    assert_eq!(PrimitiveType::from_str("uint0"), Err(NotPrimitiveTypeError));
    assert_eq!(PrimitiveType::from_str("float8"), Err(NotPrimitiveTypeError));
    assert_eq!(PrimitiveType::from_str("uint02"), Err(NotPrimitiveTypeError));
    assert_eq!(PrimitiveType::from_str("int1"), Err(NotPrimitiveTypeError));
    assert_eq!(PrimitiveType::from_str("uint1"), Err(NotPrimitiveTypeError));
    for n in 2..=64u32 {
        let name = format!("int{}", n);
        assert_eq!(PrimitiveType::from_str(&name).unwrap().to_string(), name);
        let name = format!("uint{}", n);
        assert_eq!(PrimitiveType::from_str(&name).unwrap().to_string(), name);
    }
    for n in 1..=64u32 {
        let name = format!("void{}", n);
        assert_eq!(PrimitiveType::from_str(&name).unwrap().to_string(), name);
    }
}

#[test]
fn void_types() {
    assert!(PrimitiveType::Void1.is_void());
    assert!(PrimitiveType::Void64.is_void());
    assert!(!PrimitiveType::Uint8.is_void());
    assert!(!PrimitiveType::Bool.is_void());
    assert!(Ty::Primitive(PrimitiveType::Void3).is_void());
    assert!(!Ty::Composite(CompositeType { namespace: None, name: Ident(String::from("void3")) }).is_void());
}

#[test]
fn composite_types_from_text() {
    assert_eq!(
        CompositeType::from_str("TypeName"),
        Ok(CompositeType { namespace: None, name: Ident(String::from("TypeName")) })
    );
    assert_eq!(
        CompositeType::from_str("uavcan.protocol.TypeName1234"),
        Ok(CompositeType {
            namespace: Some(Ident(String::from("uavcan.protocol"))),
            name: Ident(String::from("TypeName1234")),
        })
    );
    assert_eq!(
        CompositeType::from_str("uavcan.protocol.TypeName").unwrap().to_string(),
        "uavcan.protocol.TypeName"
    );
}

#[test]
fn array_normal_forms() {
    assert_eq!(ArrayInfo::DynamicLess(5).normalize(), ArrayInfo::DynamicLeq(4));
    assert_eq!(ArrayInfo::DynamicLess(129).normalize(), ArrayInfo::DynamicLeq(128));
    assert_eq!(ArrayInfo::DynamicLeq(4).normalize(), ArrayInfo::DynamicLeq(4));
    assert_eq!(ArrayInfo::Static(4).normalize(), ArrayInfo::Static(4));
}

#[test]
fn line_kinds() {
    let comment = Some(Comment(String::from(" c")));
    let def = Line::Definition {
        definition: AttributeDefinition::Field(FieldDefinition {
            cast_mode: None,
            field_type: Ty::Primitive(PrimitiveType::Void2),
            array: None,
            name: None,
        }),
        comment: comment.clone(),
    };
    let dir = Line::Directive { directive: Directive::Union, comment: None };
    let com = Line::Comment(Comment(String::from(" c")));
    assert!(Line::Empty.is_empty() && !def.is_empty() && !dir.is_empty() && !com.is_empty());
    assert!(def.is_definition() && !Line::Empty.is_definition() && !dir.is_definition());
    assert!(dir.is_directive() && !def.is_directive() && !com.is_directive());
    assert!(com.is_comment() && !def.is_comment() && !Line::Empty.is_comment());
    assert!(def.has_comment() && com.has_comment() && !dir.has_comment() && !Line::Empty.has_comment());
}
