use dsdl_parser::lexer::tokenize;
use dsdl_parser::lexer::Lexer;
use dsdl_parser::lexer::Lit;
use dsdl_parser::lexer::Token;
use dsdl_parser::CastMode;
use dsdl_parser::Comment;
use dsdl_parser::Ident;
use dsdl_parser::PrimitiveType;

#[test]
fn tokenize_bool_literal() {
    let mut lexer = Lexer::new("true true false false true false");

    assert_eq!(lexer.next().unwrap().unwrap().1, Token::Lit(Lit::Bool(true)));
    assert_eq!(lexer.next().unwrap().unwrap().1, Token::Lit(Lit::Bool(true)));
    assert_eq!(lexer.next().unwrap().unwrap().1, Token::Lit(Lit::Bool(false)));
    assert_eq!(lexer.next().unwrap().unwrap().1, Token::Lit(Lit::Bool(false)));
    assert_eq!(lexer.next().unwrap().unwrap().1, Token::Lit(Lit::Bool(true)));
    assert_eq!(lexer.next().unwrap().unwrap().1, Token::Lit(Lit::Bool(false)));

    assert_eq!(lexer.next(), None);
}

#[test]
fn tokenize_symbols() {
    // array related symbols are tested in seperate test
    let mut lexer = Lexer::new(
"@
=
---
---"
    );

    assert_eq!(lexer.next().unwrap().unwrap().1, Token::DirectiveMarker);
    assert_eq!(lexer.next().unwrap().unwrap().1, Token::Eol);
    assert_eq!(lexer.next().unwrap().unwrap().1, Token::Eq);
    assert_eq!(lexer.next().unwrap().unwrap().1, Token::Eol);
    assert_eq!(lexer.next().unwrap().unwrap().1, Token::ServiceResponseMarker);
    assert_eq!(lexer.next().unwrap().unwrap().1, Token::Eol);
    assert_eq!(lexer.next().unwrap().unwrap().1, Token::ServiceResponseMarker);

    assert_eq!(lexer.next(), None);
}

#[test]
fn tokenize_cast_mode() {
    let mut lexer = Lexer::new("truncated saturated saturated truncated");

    assert_eq!(lexer.next().unwrap().unwrap().1, Token::CastMode(CastMode::Truncated));
    assert_eq!(lexer.next().unwrap().unwrap().1, Token::CastMode(CastMode::Saturated));
    assert_eq!(lexer.next().unwrap().unwrap().1, Token::CastMode(CastMode::Saturated));
    assert_eq!(lexer.next().unwrap().unwrap().1, Token::CastMode(CastMode::Truncated));

    assert_eq!(lexer.next(), None);
}

#[test]
fn tokenize_array_symbols() {
    let mut lexer = Lexer::new("[<=123][456][<789]");
    assert_eq!(lexer.next().unwrap().unwrap().1, Token::LeftBracket);
    assert_eq!(lexer.next().unwrap().unwrap().1, Token::LessEq);
    assert_eq!(lexer.next().unwrap().unwrap().1, Token::Lit(Lit::Dec(String::from("123"))));
    assert_eq!(lexer.next().unwrap().unwrap().1, Token::RightBracket);

    assert_eq!(lexer.next().unwrap().unwrap().1, Token::LeftBracket);
    assert_eq!(lexer.next().unwrap().unwrap().1, Token::Lit(Lit::Dec(String::from("456"))));
    assert_eq!(lexer.next().unwrap().unwrap().1, Token::RightBracket);

    assert_eq!(lexer.next().unwrap().unwrap().1, Token::LeftBracket);
    assert_eq!(lexer.next().unwrap().unwrap().1, Token::Less);
    assert_eq!(lexer.next().unwrap().unwrap().1, Token::Lit(Lit::Dec(String::from("789"))));
    assert_eq!(lexer.next().unwrap().unwrap().1, Token::RightBracket);

    assert_eq!(lexer.next(), None);
}

#[test]
fn tokenize_comment() {
    let mut lexer = Lexer::new(
"#This is a comment\n#This is a comment\r\n#This is a comment
#This is a longer comment
# This is a comment
#"
    );

    assert_eq!(lexer.next().unwrap().unwrap().1, Token::Comment(Comment(String::from("This is a comment"))));
    assert_eq!(lexer.next().unwrap().unwrap().1, Token::Eol);
    assert_eq!(lexer.next().unwrap().unwrap().1, Token::Comment(Comment(String::from("This is a comment"))));
    assert_eq!(lexer.next().unwrap().unwrap().1, Token::Eol);
    assert_eq!(lexer.next().unwrap().unwrap().1, Token::Comment(Comment(String::from("This is a comment"))));
    assert_eq!(lexer.next().unwrap().unwrap().1, Token::Eol);
    assert_eq!(lexer.next().unwrap().unwrap().1, Token::Comment(Comment(String::from("This is a longer comment"))));
    assert_eq!(lexer.next().unwrap().unwrap().1, Token::Eol);
    assert_eq!(lexer.next().unwrap().unwrap().1, Token::Comment(Comment(String::from(" This is a comment"))));
    assert_eq!(lexer.next().unwrap().unwrap().1, Token::Eol);
    assert_eq!(lexer.next().unwrap().unwrap().1, Token::Comment(Comment(String::from(""))));

    assert_eq!(lexer.next(), None);
}

#[test]
fn tokenize_literal() {
    let mut lexer = Lexer::new("12354 -12 +12 0x123 -0x12 +0x123 0b1101 -0b101101 +0b101101 -0o123 0o777 +0o777 15.75 1.575E1 1575e-2 -2.5e-3 +25e-4 true false 'a' '\\x61' '\\n'");

    assert_eq!(lexer.next().unwrap().unwrap().1, Token::Lit(Lit::Dec(String::from("12354"))));
    assert_eq!(lexer.next().unwrap().unwrap().1, Token::Lit(Lit::Dec(String::from("-12"))));
    assert_eq!(lexer.next().unwrap().unwrap().1, Token::Lit(Lit::Dec(String::from("+12"))));

    assert_eq!(lexer.next().unwrap().unwrap().1, Token::Lit(Lit::Hex(String::from("0x123"))));
    assert_eq!(lexer.next().unwrap().unwrap().1, Token::Lit(Lit::Hex(String::from("-0x12"))));
    assert_eq!(lexer.next().unwrap().unwrap().1, Token::Lit(Lit::Hex(String::from("+0x123"))));

    assert_eq!(lexer.next().unwrap().unwrap().1, Token::Lit(Lit::Bin(String::from("0b1101"))));
    assert_eq!(lexer.next().unwrap().unwrap().1, Token::Lit(Lit::Bin(String::from("-0b101101"))));
    assert_eq!(lexer.next().unwrap().unwrap().1, Token::Lit(Lit::Bin(String::from("+0b101101"))));

    assert_eq!(lexer.next().unwrap().unwrap().1, Token::Lit(Lit::Oct(String::from("-0o123"))));
    assert_eq!(lexer.next().unwrap().unwrap().1, Token::Lit(Lit::Oct(String::from("0o777"))));
    assert_eq!(lexer.next().unwrap().unwrap().1, Token::Lit(Lit::Oct(String::from("+0o777"))));

    assert_eq!(lexer.next().unwrap().unwrap().1, Token::Lit(Lit::Float(String::from("15.75"))));
    assert_eq!(lexer.next().unwrap().unwrap().1, Token::Lit(Lit::Float(String::from("1.575E1"))));
    assert_eq!(lexer.next().unwrap().unwrap().1, Token::Lit(Lit::Float(String::from("1575e-2"))));
    assert_eq!(lexer.next().unwrap().unwrap().1, Token::Lit(Lit::Float(String::from("-2.5e-3"))));
    assert_eq!(lexer.next().unwrap().unwrap().1, Token::Lit(Lit::Float(String::from("+25e-4"))));

    assert_eq!(lexer.next().unwrap().unwrap().1, Token::Lit(Lit::Bool(true)));
    assert_eq!(lexer.next().unwrap().unwrap().1, Token::Lit(Lit::Bool(false)));

    assert_eq!(lexer.next().unwrap().unwrap().1, Token::Lit(Lit::Char(String::from("a"))));
    assert_eq!(lexer.next().unwrap().unwrap().1, Token::Lit(Lit::Char(String::from("\\x61"))));
    assert_eq!(lexer.next().unwrap().unwrap().1, Token::Lit(Lit::Char(String::from("\\n"))));

    assert_eq!(lexer.next(), None);
}

#[test]
fn tokenize_directive() {
    let mut lexer = Lexer::new("@union");

    assert_eq!(lexer.next().unwrap().unwrap().1, Token::DirectiveMarker);
    assert_eq!(lexer.next().unwrap().unwrap().1, Token::Ident(Ident(String::from("union"))));

    assert_eq!(lexer.next(), None);
}

#[test]
fn tokenize_field_names() {
    let mut lexer = Lexer::new("variable23 var_iable23");

    assert_eq!(lexer.next().unwrap().unwrap().1, Token::Ident(Ident(String::from("variable23"))));
    assert_eq!(lexer.next().unwrap().unwrap().1, Token::Ident(Ident(String::from("var_iable23"))));

    assert_eq!(lexer.next(), None);
}

#[test]
fn tokenize_const_name() {
    let mut lexer = Lexer::new("CONST CONST23 CON_ST CON_ST1_2345");

    assert_eq!(lexer.next().unwrap().unwrap().1, Token::Ident(Ident(String::from("CONST"))));
    assert_eq!(lexer.next().unwrap().unwrap().1, Token::Ident(Ident(String::from("CONST23"))));
    assert_eq!(lexer.next().unwrap().unwrap().1, Token::Ident(Ident(String::from("CON_ST"))));
    assert_eq!(lexer.next().unwrap().unwrap().1, Token::Ident(Ident(String::from("CON_ST1_2345"))));

    assert_eq!(lexer.next(), None);
}

#[test]
fn tokenize_composite_type_name() {
    let mut lexer = Lexer::new("TypeName TypeName1234 uavcan.protocol.TypeName uavcan.protocol.TypeName1234");

    assert_eq!(lexer.next().unwrap().unwrap().1, Token::Ident(Ident(String::from("TypeName"))));
    assert_eq!(lexer.next().unwrap().unwrap().1, Token::Ident(Ident(String::from("TypeName1234"))));
    assert_eq!(lexer.next().unwrap().unwrap().1, Token::Ident(Ident(String::from("uavcan.protocol.TypeName"))));
    assert_eq!(lexer.next().unwrap().unwrap().1, Token::Ident(Ident(String::from("uavcan.protocol.TypeName1234"))));

    assert_eq!(lexer.next(), None);
}

#[test]
fn tokenize_primitive_type() {
    let mut lexer = Lexer::new("uint2 int3 void16 uint32 float64");

    assert_eq!(lexer.next().unwrap().unwrap().1, Token::PrimitiveType(PrimitiveType::Uint2));
    assert_eq!(lexer.next().unwrap().unwrap().1, Token::PrimitiveType(PrimitiveType::Int3));
    assert_eq!(lexer.next().unwrap().unwrap().1, Token::PrimitiveType(PrimitiveType::Void16));
    assert_eq!(lexer.next().unwrap().unwrap().1, Token::PrimitiveType(PrimitiveType::Uint32));
    assert_eq!(lexer.next().unwrap().unwrap().1, Token::PrimitiveType(PrimitiveType::Float64));

    assert_eq!(lexer.next(), None);
}

#[test]
fn token_spans_are_in_order() {
    let text = "# c\nuint8[<=3] a # d";
    let toks = tokenize(text);
    for (k, t) in toks.iter().enumerate() {
        assert!(t.0 < t.2);
        let reach = if matches!(t.1, Token::Comment(_)) { 1 } else { 0 };
        assert!(t.2 <= text.len() + reach);
        if k + 1 < toks.len() {
            assert!(toks[k + 1].0 + reach >= t.2);
        }
    }
    // a comment's span reaches past its line ending, and past the end of the text
    assert_eq!((toks[0].0, toks[0].2), (0, 4));
    assert_eq!((toks[1].0, toks[1].2), (3, 4));
    assert_eq!(toks.last().unwrap().2, text.len() + 1);
}
