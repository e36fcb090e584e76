//! Parsing lines from tokens.

use vstd::prelude::*;
use crate::ast::array::ArrayInfo;
use crate::ast::attribute_definition::AttributeDefinition;
use crate::ast::attribute_definition::ConstDefinition;
use crate::ast::attribute_definition::FieldDefinition;
use crate::ast::cast_mode::CastMode;
use crate::ast::comment::Comment;
use crate::ast::directive::union_word;
use crate::ast::directive::Directive;
use crate::ast::ident::Ident;
use crate::ast::line::Line;
use crate::ast::lit::has_prefix;
use crate::ast::lit::leading_sign;
use crate::ast::lit::sign_text;
use crate::ast::lit::Lit;
use crate::ast::lit::Sign;
use crate::ast::ty::composite_text;
use crate::ast::ty::has_dot;
use crate::ast::ty::is_last_dot;
use crate::ast::ty::CompositeType;
use crate::ast::ty::Ty;
use crate::lexer;
use crate::lexer::Token;
use crate::lexer::LitView;
use crate::lexer::TokenView;
use crate::parser::error::ParseError;
use crate::parser::error::ParseErrorKind;
use crate::parser::grammar::lemma_read_line_complete;
use crate::parser::grammar::lemma_read_line_sound;
use crate::parser::grammar::line_sketch;
use crate::parser::grammar::line_tokens;
use crate::parser::grammar::lit_convertible;
use crate::parser::grammar::composite_as_read;
use crate::parser::grammar::line_as_read;
use crate::parser::grammar::lit_as_read;
use crate::parser::grammar::ty_as_read;
use crate::parser::grammar::lit_token;
use crate::parser::grammar::read_array;
use crate::parser::grammar::read_attribute;
use crate::parser::grammar::read_attribute_rest;
use crate::parser::grammar::read_attribute_tail;
use crate::parser::grammar::read_comment_end;
use crate::parser::grammar::read_line;
use crate::parser::grammar::size_at;
use crate::parser::grammar::ParseFail;
use crate::parser::grammar::TyTok;
use crate::text::chars_of;
use crate::text::decimal_string;
use crate::text::parse_unsigned;
use crate::text::str_equals;
use crate::text::string_of_range;

verus! {

/// A token with the byte offsets where it starts and ends.
pub type SpannedToken = (usize, Token, usize);

/// What the tokens hold, in order.
pub open spec fn token_views(toks: Seq<SpannedToken>) -> Seq<TokenView> {
    toks.map_values(|t: SpannedToken| t.1@)
}

/// The error for a token sequence that is no line, where the line's tokens are those of
/// `toks` from `start` up to `end`: the first token that does not fit (the token after the
/// line if the line ends too early), or the unknown directive name.
pub open spec fn line_error(toks: Seq<SpannedToken>, start: int, f: ParseFail, e: ParseError) -> bool {
    match f {
        ParseFail::UnknownDirective(x) => e.kind_spec() matches ParseErrorKind::UnknownDirectiveName(id)
            && id@ == x && e.location_spec() is None,
        ParseFail::At(p) => if start + p < toks.len() {
            e.kind_spec() matches ParseErrorKind::UnexpectedToken(t) && t@ == toks[start + p].1@
                && e.location_spec() == Some(toks[start + p].0)
        } else {
            e.kind_spec() == ParseErrorKind::InvalidTypeDefinition && e.location_spec() is None
        },
    }
}

/// The error for position `a` of `toks`.
fn error_at(toks: &[SpannedToken], a: usize) -> (e: ParseError)
    ensures
        a < toks@.len() ==> (e.kind_spec() matches ParseErrorKind::UnexpectedToken(t) && t@
            == toks@[a as int].1@ && e.location_spec() == Some(toks@[a as int].0)),
        a >= toks@.len() ==> e.kind_spec() == ParseErrorKind::InvalidTypeDefinition
            && e.location_spec() is None,
{
    if a < toks.len() {
        ParseError::new(ParseErrorKind::UnexpectedToken(copy_token(&toks[a].1)), Some(toks[a].0))
    } else {
        ParseError::new(ParseErrorKind::InvalidTypeDefinition, None)
    }
}

/// A copy of a string.
pub(crate) fn copy_string(s: &String) -> (r: String)
    ensures
        r@ == s@,
{
    s.clone()
}

/// A copy of a literal token.
fn copy_lit(l: &lexer::Lit) -> (r: lexer::Lit)
    ensures
        r@ == l@,
{
    match l {
        lexer::Lit::Dec(t) => lexer::Lit::Dec(copy_string(t)),
        lexer::Lit::Hex(t) => lexer::Lit::Hex(copy_string(t)),
        lexer::Lit::Oct(t) => lexer::Lit::Oct(copy_string(t)),
        lexer::Lit::Bin(t) => lexer::Lit::Bin(copy_string(t)),
        lexer::Lit::Bool(b) => lexer::Lit::Bool(*b),
        lexer::Lit::Char(t) => lexer::Lit::Char(copy_string(t)),
        lexer::Lit::Float(t) => lexer::Lit::Float(copy_string(t)),
    }
}

/// A copy of a token.
fn copy_token(t: &Token) -> (r: Token)
    ensures
        r@ == t@,
{
    match t {
        Token::Comment(c) => Token::Comment(Comment(copy_string(&c.0))),
        Token::Ident(i) => Token::Ident(Ident(copy_string(&i.0))),
        Token::Lit(l) => Token::Lit(copy_lit(l)),
        Token::PrimitiveType(p) => Token::PrimitiveType(*p),
        Token::CastMode(m) => Token::CastMode(*m),
        Token::LeftBracket => Token::LeftBracket,
        Token::RightBracket => Token::RightBracket,
        Token::Less => Token::Less,
        Token::LessEq => Token::LessEq,
        Token::Eq => Token::Eq,
        Token::DirectiveMarker => Token::DirectiveMarker,
        Token::ServiceResponseMarker => Token::ServiceResponseMarker,
        Token::Eol => Token::Eol,
    }
}

/// The literal of the syntax tree that a literal token is written for: its sign, radix prefix
/// and digits split apart.
pub fn lit_from_token(l: &lexer::Lit) -> (r: Option<Lit>)
    ensures
        r is Some <==> lit_convertible(l@),
        r matches Some(a) ==> lit_token(a) == l@ && lit_as_read(a),
        l@ matches LitView::Dec(t) ==> r matches Some(Lit::Dec { sign, value }) && sign == leading_sign(
            t,
        ).0 && value@ == t.skip(leading_sign(t).1),
        l@ matches LitView::Float(t) ==> r matches Some(Lit::Float { sign, value }) && sign
            == leading_sign(t).0 && value@ == t.skip(leading_sign(t).1),
{
    match l {
        lexer::Lit::Bool(b) => Some(Lit::Bool(*b)),
        lexer::Lit::Char(t) => Some(Lit::Char(copy_string(t))),
        lexer::Lit::Dec(t) => {
            let (sign, v) = split_sign(t);
            Some(Lit::Dec { sign, value: v })
        },
        lexer::Lit::Float(t) => {
            let (sign, v) = split_sign(t);
            Some(Lit::Float { sign, value: v })
        },
        lexer::Lit::Hex(t) => match split_radix(t, 'x') {
            Some((sign, v)) => Some(Lit::Hex { sign, value: v }),
            None => None,
        },
        lexer::Lit::Oct(t) => match split_radix(t, 'o') {
            Some((sign, v)) => Some(Lit::Oct { sign, value: v }),
            None => None,
        },
        lexer::Lit::Bin(t) => match split_radix(t, 'b') {
            Some((sign, v)) => Some(Lit::Bin { sign, value: v }),
            None => None,
        },
    }
}

/// Splits a leading `+` or `-` off a text.
fn split_sign(t: &String) -> (r: (Sign, String))
    ensures
        r.0 == leading_sign(t@).0,
        r.1@ == t@.skip(leading_sign(t@).1),
        sign_text(r.0) + r.1@ == t@,
{
    let v = chars_of(t.as_str());
    let (sign, k): (Sign, usize) = if v.len() > 0 && v[0] == '+' {
        (Sign::Positive, 1)
    } else if v.len() > 0 && v[0] == '-' {
        (Sign::Negative, 1)
    } else {
        (Sign::Implicit, 0)
    };
    let rest = string_of_range(v.as_slice(), k, v.len());
    assert(v@.subrange(k as int, v@.len() as int) =~= t@.skip(k as int));
    assert(sign_text(sign) + rest@ =~= t@);
    (sign, rest)
}

/// Splits a leading sign and `0` and the radix letter `r` off a text, if it has them.
fn split_radix(t: &String, r: char) -> (out: Option<(Sign, String)>)
    ensures
        out is Some <==> has_prefix(t@.skip(leading_sign(t@).1), seq!['0', r]),
        out matches Some((sign, v)) ==> sign_text(sign) + seq!['0', r] + v@ == t@,
{
    let v = chars_of(t.as_str());
    let (sign, k): (Sign, usize) = if v.len() > 0 && v[0] == '+' {
        (Sign::Positive, 1)
    } else if v.len() > 0 && v[0] == '-' {
        (Sign::Negative, 1)
    } else {
        (Sign::Implicit, 0)
    };
    let ghost after = t@.skip(k as int);
    if k + 2 <= v.len() && v[k] == '0' && v[k + 1] == r {
        assert(after.take(2) =~= seq!['0', r]);
        let rest = string_of_range(v.as_slice(), k + 2, v.len());
        assert(sign_text(sign) + seq!['0', r] + rest@ =~= t@);
        Some((sign, rest))
    } else {
        proof {
            if after.len() >= 2 && after.take(2) == seq!['0', r] {
                assert(after.take(2)[0] == v@[k as int]);
                assert(after.take(2)[1] == v@[k + 1]);
            }
        }
        None
    }
}

/// The composite type named by a full name, split at its last dot.
fn composite_of(x: &Ident) -> (c: CompositeType)
    ensures
        composite_text(c) == x@,
        composite_as_read(c),
        !has_dot(x@) ==> c.namespace is None && c.name@ == x@,
        has_dot(x@) ==> exists|d: int|
            is_last_dot(x@, d) && (c.namespace matches Some(ns) && ns@ == x@.take(d)) && c.name@
                == x@.skip(d + 1),
{
    match CompositeType::from_str(x.as_str()) {
        Ok(c) => {
            proof {
                if has_dot(x@) {
                    let d = choose|d: int|
                        is_last_dot(x@, d) && (c.namespace matches Some(ns) && ns@ == x@.take(d))
                            && c.name@ == x@.skip(d + 1);
                    assert(x@ =~= x@.take(d) + seq!['.'] + x@.skip(d + 1));
                    assert forall|i: int| 0 <= i < c.name@.len() implies c.name@[i] != '.' by {
                        assert(c.name@[i] == x@[d + 1 + i]);
                    }
                }
            }
            c
        },
        Err(_) => {
            proof {
                assert(false);
            }
            CompositeType { namespace: None, name: Ident(String::new()) }
        },
    }
}

/// The line's tokens: those of `toks` from `start` up to `end`.
pub open spec fn segment(toks: Seq<SpannedToken>, start: int, end: int) -> Seq<TokenView> {
    token_views(toks).subrange(start, end)
}

/// The token at a position of the segment is the token at that position after `start`.
proof fn lemma_segment_index(toks: Seq<SpannedToken>, start: int, end: int, k: int)
    requires
        0 <= start <= end <= toks.len(),
        0 <= k < end - start,
    ensures
        segment(toks, start, end)[k] == toks[start + k].1@,
{
}

/// Reads an optional comment that ends the line at position `a`.
fn comment_end(toks: &[SpannedToken], start: usize, end: usize, a: usize) -> (r: Result<Option<Comment>, usize>)
    requires
        start <= a,
        start <= end <= toks@.len(),
    ensures
        match read_comment_end(segment(toks@, start as int, end as int), a - start) {
            Ok(c) => r matches Ok(x) && opt_text(x) == c,
            Err(p) => r == Err::<Option<Comment>, usize>((start + p) as usize),
        },
{
    let ghost seg = segment(toks@, start as int, end as int);
    if a == end {
        return Ok(None);
    }
    if a < end {
        proof {
            lemma_segment_index(toks@, start as int, end as int, a - start);
        }
        match &toks[a].1 {
            Token::Comment(c) => {
                if a + 1 == end {
                    return Ok(Some(Comment(copy_string(&c.0))));
                } else {
                    return Err(a + 1);
                }
            },
            _ => {
                return Err(a);
            },
        }
    }
    Err(a)
}

/// The text of an optional comment.
pub open spec fn opt_text(c: Option<Comment>) -> Option<Seq<char>> {
    match c {
        Some(c) => Some(c@),
        None => None,
    }
}

/// Reads array information that starts with the `[` at position `a`.
fn parse_array(toks: &[SpannedToken], start: usize, end: usize, a: usize) -> (r: Result<(ArrayInfo, usize), usize>)
    requires
        start <= a < end <= toks@.len(),
    ensures
        match read_array(segment(toks@, start as int, end as int), a - start) {
            Ok((info, q)) => r == Ok::<(ArrayInfo, usize), usize>((info, (start + q) as usize)),
            Err(p) => r == Err::<(ArrayInfo, usize), usize>((start + p) as usize),
        },
{
    let ghost seg = segment(toks@, start as int, end as int);
    let j = a + 1;
    let (kind, j2): (u8, usize) = if j < end && matches!(toks[j].1, Token::Less) {
        (1, j + 1)
    } else if j < end && matches!(toks[j].1, Token::LessEq) {
        (2, j + 1)
    } else {
        (0, j)
    };
    proof {
        if j < end {
            lemma_segment_index(toks@, start as int, end as int, j - start);
        }
    }
    if j2 >= end {
        return Err(j2);
    }
    proof {
        lemma_segment_index(toks@, start as int, end as int, j2 - start);
    }
    let size: Option<u64> = match &toks[j2].1 {
        Token::Lit(lexer::Lit::Dec(d)) => {
            let v = chars_of(d.as_str());
            match parse_unsigned(v.as_slice(), u64::MAX) {
                Some(n) => {
                    let canonical = decimal_string(n);
                    if str_equals(v.as_slice(), canonical.as_str()) {
                        Some(n)
                    } else {
                        None
                    }
                },
                None => None,
            }
        },
        _ => None,
    };
    assert(size == size_at(seg, j2 - start));
    match size {
        None => Err(j2),
        Some(n) => {
            if j2 + 1 < end {
                proof {
                    lemma_segment_index(toks@, start as int, end as int, j2 + 1 - start);
                }
            }
            if j2 + 1 < end && matches!(toks[j2 + 1].1, Token::RightBracket) {
                let info = if kind == 1 {
                    ArrayInfo::DynamicLess(n)
                } else if kind == 2 {
                    ArrayInfo::DynamicLeq(n)
                } else {
                    ArrayInfo::Static(n)
                };
                Ok((info, j2 + 2))
            } else {
                Err(j2 + 1)
            }
        },
    }
}

/// The type that a type token as read stands for.
pub open spec fn ty_of_tok(ty: Ty, t: TyTok) -> bool {
    match t {
        TyTok::Prim(p) => ty == Ty::Primitive(p),
        TyTok::Name(x) => ty is Composite && composite_text(ty->Composite_0) == x,
    }
}

/// The error for a failure to read the tokens from `start` up to `end` as a line.
fn fail_error(toks: &[SpannedToken], start: usize, end: usize, a: usize) -> (e: ParseError)
    requires
        start <= a,
        start <= end <= toks@.len(),
    ensures
        line_error(toks@, start as int, ParseFail::At(a - start), e),
{
    error_at(toks, a)
}

/// Reads the tail of an attribute definition at position `a3`.
fn parse_attribute_tail(
    toks: &[SpannedToken],
    start: usize,
    end: usize,
    cast: Option<CastMode>,
    field_type: Ty,
    array: Option<ArrayInfo>,
    name: Option<Ident>,
    a3: usize,
    Ghost(ty): Ghost<TyTok>,
) -> (r: Result<Line, ParseError>)
    requires
        start <= a3 <= end <= toks@.len(),
        ty_of_tok(field_type, ty),
        ty_as_read(field_type),
    ensures
        r matches Ok(l) ==> line_as_read(l),
        ({
            let spec_r = read_attribute_tail(
                segment(toks@, start as int, end as int),
                cast,
                ty,
                array,
                opt_ident_text(name),
                a3 - start,
            );
            &&& r is Ok <==> spec_r is Ok
            &&& r matches Ok(l) ==> line_sketch(l) == spec_r->Ok_0
            &&& r matches Err(e) ==> line_error(toks@, start as int, spec_r->Err_0, e)
        }),
{
    let ghost seg = segment(toks@, start as int, end as int);
    if a3 < end {
        proof {
            lemma_segment_index(toks@, start as int, end as int, a3 - start);
        }
    }
    if array.is_none() && name.is_some() && a3 < end && matches!(toks[a3].1, Token::Eq) {
        if a3 + 1 < end {
            proof {
                lemma_segment_index(toks@, start as int, end as int, a3 + 1 - start);
            }
        }
        let lit: Option<Lit> = if a3 + 1 < end {
            match &toks[a3 + 1].1 {
                Token::Lit(l) => lit_from_token(l),
                _ => None,
            }
        } else {
            None
        };
        match lit {
            None => Err(fail_error(toks, start, end, a3 + 1)),
            Some(literal) => match comment_end(toks, start, end, a3 + 2) {
                Ok(comment) => {
                    let n = match name {
                        Some(n) => n,
                        None => Ident(String::new()),
                    };
                    Ok(
                        Line::Definition {
                            definition: AttributeDefinition::Const(
                                ConstDefinition { cast_mode: cast, field_type, name: n, literal },
                            ),
                            comment,
                        },
                    )
                },
                Err(p) => Err(fail_error(toks, start, end, p)),
            },
        }
    } else {
        match comment_end(toks, start, end, a3) {
            Ok(comment) => Ok(
                Line::Definition {
                    definition: AttributeDefinition::Field(
                        FieldDefinition { cast_mode: cast, field_type, array, name },
                    ),
                    comment,
                },
            ),
            Err(p) => Err(fail_error(toks, start, end, p)),
        }
    }
}

/// The text of an optional name.
pub open spec fn opt_ident_text(n: Option<Ident>) -> Option<Seq<char>> {
    match n {
        Some(i) => Some(i@),
        None => None,
    }
}

/// Reads the rest of an attribute definition after its type, at position `a1`.
fn parse_attribute_rest(
    toks: &[SpannedToken],
    start: usize,
    end: usize,
    cast: Option<CastMode>,
    field_type: Ty,
    a1: usize,
    Ghost(ty): Ghost<TyTok>,
) -> (r: Result<Line, ParseError>)
    requires
        start <= a1 <= end <= toks@.len(),
        ty_of_tok(field_type, ty),
        ty_as_read(field_type),
    ensures
        r matches Ok(l) ==> line_as_read(l),
        ({
            let spec_r = read_attribute_rest(segment(toks@, start as int, end as int), cast, ty, a1 - start);
            &&& r is Ok <==> spec_r is Ok
            &&& r matches Ok(l) ==> line_sketch(l) == spec_r->Ok_0
            &&& r matches Err(e) ==> line_error(toks@, start as int, spec_r->Err_0, e)
        }),
{
    let ghost seg = segment(toks@, start as int, end as int);
    if a1 < end {
        proof {
            lemma_segment_index(toks@, start as int, end as int, a1 - start);
        }
    }
    let (array, a2): (Option<ArrayInfo>, usize) = if a1 < end && matches!(toks[a1].1, Token::LeftBracket) {
        match parse_array(toks, start, end, a1) {
            Ok((info, q)) => (Some(info), q),
            Err(p) => {
                return Err(fail_error(toks, start, end, p));
            },
        }
    } else {
        (None, a1)
    };
    if a2 < end {
        proof {
            lemma_segment_index(toks@, start as int, end as int, a2 - start);
        }
    }
    let (name, a3): (Option<Ident>, usize) = if a2 < end {
        match &toks[a2].1 {
            Token::Ident(x) => (Some(Ident(copy_string(&x.0))), a2 + 1),
            _ => (None, a2),
        }
    } else {
        (None, a2)
    };
    parse_attribute_tail(toks, start, end, cast, field_type, array, name, a3, Ghost(ty))
}

/// Reads an attribute definition and its comment from the tokens from `start` up to `end`.
fn parse_attribute(toks: &[SpannedToken], start: usize, end: usize) -> (r: Result<Line, ParseError>)
    requires
        start < end <= toks@.len(),
    ensures
        r is Ok <==> read_attribute(segment(toks@, start as int, end as int)) is Ok,
        r matches Ok(l) ==> line_as_read(l),
        r matches Ok(l) ==> line_sketch(l) == read_attribute(segment(toks@, start as int, end as int))->Ok_0,
        r matches Err(e) ==> line_error(toks@, start as int, read_attribute(segment(toks@, start as int, end as int))->Err_0, e),
{
    let ghost seg = segment(toks@, start as int, end as int);
    proof {
        lemma_segment_index(toks@, start as int, end as int, 0);
    }
    let (cast, a0): (Option<CastMode>, usize) = match &toks[start].1 {
        Token::CastMode(m) => (Some(*m), start + 1),
        _ => (None, start),
    };
    if a0 >= end {
        return Err(fail_error(toks, start, end, a0));
    }
    proof {
        lemma_segment_index(toks@, start as int, end as int, a0 - start);
    }
    let field_type: Ty = match &toks[a0].1 {
        Token::PrimitiveType(p) => Ty::Primitive(*p),
        Token::Ident(x) => Ty::Composite(composite_of(x)),
        _ => {
            return Err(fail_error(toks, start, end, a0));
        },
    };
    let ghost ty = if seg[a0 - start] is PrimitiveType {
        TyTok::Prim(seg[a0 - start]->PrimitiveType_0)
    } else {
        TyTok::Name(seg[a0 - start]->Ident_0)
    };
    parse_attribute_rest(toks, start, end, cast, field_type, a0 + 1, Ghost(ty))
}

/// Reads the tokens from `start` up to `end` as one line.
fn parse_line_sketch(toks: &[SpannedToken], start: usize, end: usize) -> (r: Result<Line, ParseError>)
    requires
        start <= end <= toks@.len(),
    ensures
        r is Ok <==> read_line(segment(toks@, start as int, end as int)) is Ok,
        r matches Ok(l) ==> line_as_read(l),
        r matches Ok(l) ==> line_sketch(l) == read_line(segment(toks@, start as int, end as int))->Ok_0,
        r matches Err(e) ==> line_error(toks@, start as int, read_line(segment(toks@, start as int, end as int))->Err_0, e),
{
    let ghost seg = segment(toks@, start as int, end as int);
    if start == end {
        return Ok(Line::Empty);
    }
    proof {
        lemma_segment_index(toks@, start as int, end as int, 0);
    }
    match &toks[start].1 {
        Token::Comment(c) => {
            if end - start == 1 {
                Ok(Line::Comment(Comment(copy_string(&c.0))))
            } else {
                Err(fail_error(toks, start, end, start + 1))
            }
        },
        Token::DirectiveMarker => {
            if end - start < 2 {
                return Err(fail_error(toks, start, end, start + 1));
            }
            proof {
                lemma_segment_index(toks@, start as int, end as int, 1);
            }
            match &toks[start + 1].1 {
                Token::Ident(x) => {
                    let v = chars_of(x.as_str());
                    proof {
                        reveal_strlit("union");
                        assert("union"@ =~= union_word());
                    }
                    if !str_equals(v.as_slice(), "union") {
                        return Err(
                            ParseError::new(
                                ParseErrorKind::UnknownDirectiveName(Ident(copy_string(&x.0))),
                                None,
                            ),
                        );
                    }
                    match comment_end(toks, start, end, start + 2) {
                        Ok(comment) => Ok(Line::Directive { directive: Directive::Union, comment }),
                        Err(p) => Err(fail_error(toks, start, end, p)),
                    }
                },
                _ => Err(fail_error(toks, start, end, start + 1)),
            }
        },
        _ => parse_attribute(toks, start, end),
    }
}

/// Parses the tokens from `start` up to `end` (a line without its end of line) as a line.
///
/// The line is the one written with exactly those tokens, as parsing reads lines: a composite
/// type's full name split at its last dot, and a decimal or float literal's sign taken off its
/// digits. Only one such line has those tokens (`law_line_read_unique`).
pub fn parse_line(toks: &[SpannedToken], start: usize, end: usize) -> (r: Result<Line, ParseError>)
    requires
        start <= end <= toks@.len(),
    ensures
        r matches Ok(l) ==> line_tokens(l) == segment(toks@, start as int, end as int),
        r matches Ok(l) ==> line_as_read(l),
        r is Ok <==> exists|l: Line| line_tokens(l) == segment(toks@, start as int, end as int),
        r matches Err(e) ==> line_error(toks@, start as int, read_line(segment(toks@, start as int, end as int))->Err_0, e),
{
    let ghost seg = segment(toks@, start as int, end as int);
    let r = parse_line_sketch(toks, start, end);
    proof {
        if r is Ok {
            lemma_read_line_sound(seg);
            crate::parser::grammar::lemma_line_sketch_tokens(r->Ok_0);
        } else {
            assert forall|l: Line| line_tokens(l) != seg by {
                lemma_read_line_complete(l);
            }
        }
    }
    r
}

} // verus!
