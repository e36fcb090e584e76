//! The grammar of DSDL lines: the tokens that each piece of syntax is written with, and a
//! deterministic reading of token sequences that inverts it.

use vstd::prelude::*;
use crate::ast::array::ArrayInfo;
use crate::ast::attribute_definition::AttributeDefinition;
use crate::ast::attribute_definition::ConstDefinition;
use crate::ast::attribute_definition::FieldDefinition;
use crate::ast::cast_mode::CastMode;
use crate::ast::comment::Comment;
use crate::ast::directive::union_word;
use crate::ast::ident::Ident;
use crate::ast::lit::has_prefix;
use crate::ast::lit::leading_sign;
use crate::ast::lit::sign_text;
use crate::ast::lit::Lit;
use crate::ast::line::Line;
use crate::ast::ty::composite_text;
use crate::ast::ty::has_dot;
use crate::ast::ty::CompositeType;
use crate::ast::lit::Sign;
use crate::ast::ty::PrimitiveType;
use crate::ast::ty::Ty;
use crate::ast::type_definition::TypeDefinition;
use crate::lexer::LitView;
use crate::lexer::TokenView;
use crate::text::decimal;
use crate::text::unsigned_value;

verus! {

/// The tokens of an optional cast mode.
pub open spec fn cast_tokens(c: Option<CastMode>) -> Seq<TokenView> {
    match c {
        Some(m) => seq![TokenView::CastMode(m)],
        None => Seq::<TokenView>::empty(),
    }
}

/// The token of a type: the primitive type's keyword, or the composite type's full name.
pub open spec fn ty_token(t: Ty) -> TokenView {
    match t {
        Ty::Primitive(p) => TokenView::PrimitiveType(p),
        Ty::Composite(c) => TokenView::Ident(composite_text(c)),
    }
}

/// The token of an array size: its decimal numeral.
pub open spec fn size_token(n: u64) -> TokenView {
    TokenView::Lit(LitView::Dec(decimal(n as nat)))
}

/// The tokens of optional array information.
pub open spec fn array_tokens(a: Option<ArrayInfo>) -> Seq<TokenView> {
    match a {
        None => Seq::<TokenView>::empty(),
        Some(ArrayInfo::Static(n)) => seq![TokenView::LeftBracket, size_token(n), TokenView::RightBracket],
        Some(ArrayInfo::DynamicLess(n)) => seq![
            TokenView::LeftBracket,
            TokenView::Less,
            size_token(n),
            TokenView::RightBracket,
        ],
        Some(ArrayInfo::DynamicLeq(n)) => seq![
            TokenView::LeftBracket,
            TokenView::LessEq,
            size_token(n),
            TokenView::RightBracket,
        ],
    }
}

/// The tokens of an optional name.
pub open spec fn name_tokens(n: Option<Ident>) -> Seq<TokenView> {
    match n {
        Some(i) => seq![TokenView::Ident(i@)],
        None => Seq::<TokenView>::empty(),
    }
}

/// The tokens of a field definition.
pub open spec fn field_tokens(f: FieldDefinition) -> Seq<TokenView> {
    cast_tokens(f.cast_mode) + seq![ty_token(f.field_type)] + array_tokens(f.array) + name_tokens(
        f.name,
    )
}

/// The literal token of a literal: its sign, radix prefix and digits as one text.
pub open spec fn lit_token(l: Lit) -> LitView {
    match l {
        Lit::Dec { sign, value } => LitView::Dec(sign_text(sign) + value@),
        Lit::Hex { sign, value } => LitView::Hex(sign_text(sign) + seq!['0', 'x'] + value@),
        Lit::Oct { sign, value } => LitView::Oct(sign_text(sign) + seq!['0', 'o'] + value@),
        Lit::Bin { sign, value } => LitView::Bin(sign_text(sign) + seq!['0', 'b'] + value@),
        Lit::Bool(b) => LitView::Bool(b),
        Lit::Char(c) => LitView::Char(c@),
        Lit::Float { sign, value } => LitView::Float(sign_text(sign) + value@),
    }
}

/// The tokens of a constant definition.
pub open spec fn const_tokens(c: ConstDefinition) -> Seq<TokenView> {
    cast_tokens(c.cast_mode) + seq![
        ty_token(c.field_type),
        TokenView::Ident(c.name@),
        TokenView::Eq,
        TokenView::Lit(lit_token(c.literal)),
    ]
}

/// The tokens of an attribute definition.
pub open spec fn attribute_tokens(a: AttributeDefinition) -> Seq<TokenView> {
    match a {
        AttributeDefinition::Field(f) => field_tokens(f),
        AttributeDefinition::Const(c) => const_tokens(c),
    }
}

/// The tokens of an optional comment.
pub open spec fn comment_tokens(c: Option<Comment>) -> Seq<TokenView> {
    match c {
        Some(c) => seq![TokenView::Comment(c@)],
        None => Seq::<TokenView>::empty(),
    }
}

/// The tokens of a line, without its end of line.
pub open spec fn line_tokens(l: Line) -> Seq<TokenView> {
    match l {
        Line::Empty => Seq::<TokenView>::empty(),
        Line::Comment(c) => seq![TokenView::Comment(c@)],
        Line::Definition { definition, comment } => attribute_tokens(definition) + comment_tokens(
            comment,
        ),
        Line::Directive { comment, .. } => seq![
            TokenView::DirectiveMarker,
            TokenView::Ident(union_word()),
        ] + comment_tokens(comment),
    }
}

// Reading token sequences

/// The type token of a line, as read.
pub enum TyTok {
    Prim(PrimitiveType),
    Name(Seq<char>),
}

/// A line as read from its tokens, with its texts as characters.
pub enum Sketch {
    Empty,
    Comment(Seq<char>),
    Directive(Option<Seq<char>>),
    Field {
        cast: Option<CastMode>,
        ty: TyTok,
        array: Option<ArrayInfo>,
        name: Option<Seq<char>>,
        comment: Option<Seq<char>>,
    },
    Const {
        cast: Option<CastMode>,
        ty: TyTok,
        name: Seq<char>,
        lit: LitView,
        comment: Option<Seq<char>>,
    },
}

/// Why a token sequence is no line: the position of the first token that does not fit, or
/// a directive name that no directive has.
pub enum ParseFail {
    At(int),
    UnknownDirective(Seq<char>),
}

/// The token of a type token as read.
pub open spec fn ty_tok_token(t: TyTok) -> TokenView {
    match t {
        TyTok::Prim(p) => TokenView::PrimitiveType(p),
        TyTok::Name(x) => TokenView::Ident(x),
    }
}

/// The tokens of an optional text as a comment.
pub open spec fn opt_comment_tokens(c: Option<Seq<char>>) -> Seq<TokenView> {
    match c {
        Some(c) => seq![TokenView::Comment(c)],
        None => Seq::<TokenView>::empty(),
    }
}

/// The tokens of an optional text as a name.
pub open spec fn opt_name_tokens(n: Option<Seq<char>>) -> Seq<TokenView> {
    match n {
        Some(x) => seq![TokenView::Ident(x)],
        None => Seq::<TokenView>::empty(),
    }
}

/// The tokens of a line as read.
pub open spec fn sketch_tokens(s: Sketch) -> Seq<TokenView> {
    match s {
        Sketch::Empty => Seq::<TokenView>::empty(),
        Sketch::Comment(c) => seq![TokenView::Comment(c)],
        Sketch::Directive(c) => seq![TokenView::DirectiveMarker, TokenView::Ident(union_word())]
            + opt_comment_tokens(c),
        Sketch::Field { cast, ty, array, name, comment } => cast_tokens(cast) + seq![
            ty_tok_token(ty),
        ] + array_tokens(array) + opt_name_tokens(name) + opt_comment_tokens(comment),
        Sketch::Const { cast, ty, name, lit, comment } => cast_tokens(cast) + seq![
            ty_tok_token(ty),
            TokenView::Ident(name),
            TokenView::Eq,
            TokenView::Lit(lit),
        ] + opt_comment_tokens(comment),
    }
}

/// The type of a line as a type token.
pub open spec fn ty_tok_of(t: Ty) -> TyTok {
    match t {
        Ty::Primitive(p) => TyTok::Prim(p),
        Ty::Composite(c) => TyTok::Name(composite_text(c)),
    }
}

/// The text of an optional comment.
pub open spec fn opt_comment_text(c: Option<Comment>) -> Option<Seq<char>> {
    match c {
        Some(c) => Some(c@),
        None => None,
    }
}

/// The text of an optional name.
pub open spec fn opt_name_text(n: Option<Ident>) -> Option<Seq<char>> {
    match n {
        Some(i) => Some(i@),
        None => None,
    }
}

/// A line, as read from its tokens.
pub open spec fn line_sketch(l: Line) -> Sketch {
    match l {
        Line::Empty => Sketch::Empty,
        Line::Comment(c) => Sketch::Comment(c@),
        Line::Directive { comment, .. } => Sketch::Directive(opt_comment_text(comment)),
        Line::Definition { definition: AttributeDefinition::Field(f), comment } => Sketch::Field {
            cast: f.cast_mode,
            ty: ty_tok_of(f.field_type),
            array: f.array,
            name: opt_name_text(f.name),
            comment: opt_comment_text(comment),
        },
        Line::Definition { definition: AttributeDefinition::Const(c), comment } => Sketch::Const {
            cast: c.cast_mode,
            ty: ty_tok_of(c.field_type),
            name: c.name@,
            lit: lit_token(c.literal),
            comment: opt_comment_text(comment),
        },
    }
}

/// The size that a literal's text gives: a decimal numeral without sign or leading zeros.
pub open spec fn size_of_text(d: Seq<char>) -> Option<u64> {
    match unsigned_value(d, u64::MAX as nat) {
        Some(n) => if decimal(n) == d {
            Some(n as u64)
        } else {
            None
        },
        None => None,
    }
}

/// Whether the literal token's text has the prefix that its kind needs after its sign.
pub open spec fn lit_convertible(l: LitView) -> bool {
    match l {
        LitView::Hex(t) => has_prefix(t.skip(leading_sign(t).1), seq!['0', 'x']),
        LitView::Oct(t) => has_prefix(t.skip(leading_sign(t).1), seq!['0', 'o']),
        LitView::Bin(t) => has_prefix(t.skip(leading_sign(t).1), seq!['0', 'b']),
        _ => true,
    }
}

/// Whether a composite type is split as parsing splits its full name: at the last dot, so
/// that the name holds no dot (and a full name without a dot has no namespace).
pub open spec fn composite_as_read(c: CompositeType) -> bool {
    !has_dot(c.name@)
}

/// Whether a type is as parsing reads it.
pub open spec fn ty_as_read(t: Ty) -> bool {
    t matches Ty::Composite(c) ==> composite_as_read(c)
}

/// Whether a literal is as parsing reads it from its token: the sign of a decimal or float is
/// its token's leading `+` or `-`, so that without a sign the digits start with none.
pub open spec fn lit_as_read(l: Lit) -> bool {
    match l {
        Lit::Dec { sign, value } => sign == Sign::Implicit ==> leading_sign(value@).1 == 0,
        Lit::Float { sign, value } => sign == Sign::Implicit ==> leading_sign(value@).1 == 0,
        _ => true,
    }
}

/// Whether a line is as parsing reads it from its tokens: its types and literal are.
pub open spec fn line_as_read(l: Line) -> bool {
    match l {
        Line::Definition { definition: AttributeDefinition::Field(f), .. } => ty_as_read(f.field_type),
        Line::Definition { definition: AttributeDefinition::Const(c), .. } => ty_as_read(c.field_type)
            && lit_as_read(c.literal),
        _ => true,
    }
}

/// Whether all lines are as parsing reads them.
pub open spec fn lines_as_read(ls: Seq<Line>) -> bool {
    forall|i: int| 0 <= i < ls.len() ==> line_as_read(#[trigger] ls[i])
}

/// Whether every line of a type definition is as parsing reads it.
pub open spec fn definition_as_read(t: TypeDefinition) -> bool {
    match t {
        TypeDefinition::Message(m) => lines_as_read(m.0@),
        TypeDefinition::Service(s) => lines_as_read(s.request.0@) && lines_as_read(s.response.0@),
    }
}

/// Reads an optional comment that ends the line at position `k`.
pub open spec fn read_comment_end(seg: Seq<TokenView>, k: int) -> Result<Option<Seq<char>>, int> {
    if k == seg.len() {
        Ok(None)
    } else if k < seg.len() && seg[k] is Comment {
        if k + 1 == seg.len() {
            Ok(Some(seg[k]->Comment_0))
        } else {
            Err(k + 1)
        }
    } else {
        Err(k)
    }
}

/// The array size that the token at position `j` gives, if it is a decimal literal of the
/// right form.
pub open spec fn size_at(seg: Seq<TokenView>, j: int) -> Option<u64> {
    if 0 <= j < seg.len() && seg[j] is Lit && seg[j]->Lit_0 is Dec {
        size_of_text(seg[j]->Lit_0->Dec_0)
    } else {
        None
    }
}

/// Reads array information that starts with a `[` at position `k`: the information and the
/// position after it.
pub open spec fn read_array(seg: Seq<TokenView>, k: int) -> Result<(ArrayInfo, int), int> {
    let j = k + 1;
    let (kind, j2) = if j < seg.len() && seg[j] is Less {
        (1int, j + 1)
    } else if j < seg.len() && seg[j] is LessEq {
        (2int, j + 1)
    } else {
        (0int, j)
    };
    if size_at(seg, j2) is Some {
        let n = size_at(seg, j2).unwrap();
        if j2 + 1 < seg.len() && seg[j2 + 1] is RightBracket {
            let a = if kind == 1 {
                ArrayInfo::DynamicLess(n)
            } else if kind == 2 {
                ArrayInfo::DynamicLeq(n)
            } else {
                ArrayInfo::Static(n)
            };
            Ok((a, j2 + 2))
        } else {
            Err(j2 + 1)
        }
    } else {
        Err(j2)
    }
}

/// Reads the rest of an attribute definition once its name, if any, has been read: a
/// constant's `= literal`, then an optional comment.
pub open spec fn read_attribute_tail(
    seg: Seq<TokenView>,
    cast: Option<CastMode>,
    ty: TyTok,
    array: Option<ArrayInfo>,
    name: Option<Seq<char>>,
    k3: int,
) -> Result<Sketch, ParseFail> {
    if array is None && name is Some && 0 <= k3 < seg.len() && seg[k3] is Eq {
        if k3 + 1 < seg.len() && seg[k3 + 1] is Lit && lit_convertible(seg[k3 + 1]->Lit_0) {
            match read_comment_end(seg, k3 + 2) {
                Ok(c) => Ok(
                    Sketch::Const {
                        cast,
                        ty,
                        name: name.unwrap(),
                        lit: seg[k3 + 1]->Lit_0,
                        comment: c,
                    },
                ),
                Err(p) => Err(ParseFail::At(p)),
            }
        } else {
            Err(ParseFail::At(k3 + 1))
        }
    } else {
        match read_comment_end(seg, k3) {
            Ok(c) => Ok(Sketch::Field { cast, ty, array, name, comment: c }),
            Err(p) => Err(ParseFail::At(p)),
        }
    }
}

/// Reads the rest of an attribute definition once its type has been read: optional array
/// information, an optional name, and the tail.
pub open spec fn read_attribute_rest(seg: Seq<TokenView>, cast: Option<CastMode>, ty: TyTok, k1: int) -> Result<Sketch, ParseFail> {
    let arr: Result<(Option<ArrayInfo>, int), int> = if 0 <= k1 < seg.len() && seg[k1] is LeftBracket {
        match read_array(seg, k1) {
            Ok((a, k2)) => Ok((Some(a), k2)),
            Err(p) => Err(p),
        }
    } else {
        Ok((None, k1))
    };
    match arr {
        Err(p) => Err(ParseFail::At(p)),
        Ok((array, k2)) => {
            let (name, k3) = if 0 <= k2 < seg.len() && seg[k2] is Ident {
                (Some(seg[k2]->Ident_0), k2 + 1)
            } else {
                (None, k2)
            };
            read_attribute_tail(seg, cast, ty, array, name, k3)
        },
    }
}

/// Reads an attribute definition and its comment from the whole of `seg`.
pub open spec fn read_attribute(seg: Seq<TokenView>) -> Result<Sketch, ParseFail> {
    let (cast, k0) = if seg.len() > 0 && seg[0] is CastMode {
        (Some(seg[0]->CastMode_0), 1int)
    } else {
        (None, 0int)
    };
    if k0 >= seg.len() {
        Err(ParseFail::At(k0))
    } else if !(seg[k0] is PrimitiveType || seg[k0] is Ident) {
        Err(ParseFail::At(k0))
    } else {
        let ty = if seg[k0] is PrimitiveType {
            TyTok::Prim(seg[k0]->PrimitiveType_0)
        } else {
            TyTok::Name(seg[k0]->Ident_0)
        };
        read_attribute_rest(seg, cast, ty, k0 + 1)
    }
}

/// Reads a line from the whole of `seg`.
pub open spec fn read_line(seg: Seq<TokenView>) -> Result<Sketch, ParseFail> {
    if seg.len() == 0 {
        Ok(Sketch::Empty)
    } else if seg[0] is Comment {
        if seg.len() == 1 {
            Ok(Sketch::Comment(seg[0]->Comment_0))
        } else {
            Err(ParseFail::At(1))
        }
    } else if seg[0] is DirectiveMarker {
        if seg.len() >= 2 && seg[1] is Ident {
            if seg[1]->Ident_0 != union_word() {
                Err(ParseFail::UnknownDirective(seg[1]->Ident_0))
            } else {
                match read_comment_end(seg, 2) {
                    Ok(c) => Ok(Sketch::Directive(c)),
                    Err(p) => Err(ParseFail::At(p)),
                }
            }
        } else {
            Err(ParseFail::At(1))
        }
    } else {
        read_attribute(seg)
    }
}

/// The tokens of a line are those of the line as read.
pub proof fn lemma_line_sketch_tokens(l: Line)
    ensures
        sketch_tokens(line_sketch(l)) == line_tokens(l),
{
    match l {
        Line::Definition { definition: AttributeDefinition::Field(f), comment } => {
            match f.field_type {
                Ty::Primitive(_) => {},
                Ty::Composite(_) => {},
            }
            match f.name {
                Some(_) => {},
                None => {},
            }
            match comment {
                Some(_) => {},
                None => {},
            }
            assert(sketch_tokens(line_sketch(l)) =~= line_tokens(l));
        },
        Line::Definition { definition: AttributeDefinition::Const(c), comment } => {
            match c.field_type {
                Ty::Primitive(_) => {},
                Ty::Composite(_) => {},
            }
            match comment {
                Some(_) => {},
                None => {},
            }
            assert(sketch_tokens(line_sketch(l)) =~= line_tokens(l));
        },
        Line::Directive { comment, .. } => {
            match comment {
                Some(_) => {},
                None => {},
            }
            assert(sketch_tokens(line_sketch(l)) =~= line_tokens(l));
        },
        _ => {},
    }
}

/// The numeral of a size gives the size back.
pub proof fn lemma_size_of_decimal(n: u64)
    ensures
        size_of_text(decimal(n as nat)) == Some(n),
{
    crate::text::lemma_decimal(n as nat);
    let d = decimal(n as nat);
    assert(d.len() > 0);
    if d[0] == '+' {
        assert(crate::text::is_digit_char(d[0]));
    }
    assert(unsigned_value(d, u64::MAX as nat) == Some(n as nat));
}

/// The token of a literal has the prefix that its kind needs.
pub proof fn lemma_lit_token_convertible(l: Lit)
    ensures
        lit_convertible(lit_token(l)),
{
    match l {
        Lit::Hex { sign, value } => {
            let t = sign_text(sign) + seq!['0', 'x'] + value@;
            assert(t.skip(leading_sign(t).1).take(2) =~= seq!['0', 'x']);
        },
        Lit::Oct { sign, value } => {
            let t = sign_text(sign) + seq!['0', 'o'] + value@;
            assert(t.skip(leading_sign(t).1).take(2) =~= seq!['0', 'o']);
        },
        Lit::Bin { sign, value } => {
            let t = sign_text(sign) + seq!['0', 'b'] + value@;
            assert(t.skip(leading_sign(t).1).take(2) =~= seq!['0', 'b']);
        },
        _ => {},
    }
}

/// Reading the tokens of array information, followed by anything, gives it back.
proof fn lemma_read_array_complete(seg: Seq<TokenView>, k: int, a: ArrayInfo)
    requires
        0 <= k,
        k + array_tokens(Some(a)).len() <= seg.len(),
        seg.subrange(k, k + array_tokens(Some(a)).len()) == array_tokens(Some(a)),
    ensures
        read_array(seg, k) == Ok::<(ArrayInfo, int), int>((a, k + array_tokens(Some(a)).len())),
{
    let t = array_tokens(Some(a));
    assert forall|i: int| 0 <= i < t.len() implies seg[k + i] == t[i] by {
        assert(seg.subrange(k, k + t.len())[i] == seg[k + i]);
    }
    match a {
        ArrayInfo::Static(n) => {
            lemma_size_of_decimal(n);
            assert(seg[k + 1] == size_token(n));
        },
        ArrayInfo::DynamicLess(n) => {
            lemma_size_of_decimal(n);
            assert(seg[k + 2] == size_token(n));
        },
        ArrayInfo::DynamicLeq(n) => {
            lemma_size_of_decimal(n);
            assert(seg[k + 2] == size_token(n));
        },
    }
}

/// Reading the tokens of a line gives the line back, as read: every line can be read.
#[verifier::spinoff_prover]
#[verifier::rlimit(40)]
pub proof fn lemma_read_line_complete(l: Line)
    ensures
        read_line(line_tokens(l)) == Ok::<Sketch, ParseFail>(line_sketch(l)),
{
    lemma_line_sketch_tokens(l);
    let seg = line_tokens(l);
    match l {
        Line::Empty => {},
        Line::Comment(c) => {},
        Line::Directive { comment, .. } => {
            assert(seg[0] == TokenView::DirectiveMarker);
            assert(seg[1] == TokenView::Ident(union_word()));
            match comment {
                Some(c) => {
                    assert(seg.len() == 3);
                    assert(seg[2] == TokenView::Comment(c@));
                },
                None => {
                    assert(seg.len() == 2);
                },
            }
        },
        Line::Definition { definition: AttributeDefinition::Field(f), comment } => {
            let cl = cast_tokens(f.cast_mode).len() as int;
            let al = array_tokens(f.array).len() as int;
            let nl = name_tokens(f.name).len() as int;
            assert(seg =~= cast_tokens(f.cast_mode) + seq![ty_token(f.field_type)] + array_tokens(
                f.array,
            ) + name_tokens(f.name) + comment_tokens(comment));
            assert(seg[cl] == ty_token(f.field_type));
            if f.cast_mode is Some {
                assert(seg[0] == TokenView::CastMode(f.cast_mode.unwrap()));
            } else {
                assert(seg[0] == ty_token(f.field_type));
            }
            match f.field_type {
                Ty::Primitive(_) => {},
                Ty::Composite(_) => {},
            }
            let k1 = cl + 1;
            match f.array {
                Some(a) => {
                    assert(seg.subrange(k1, k1 + al) =~= array_tokens(f.array));
                    lemma_read_array_complete(seg, k1, a);
                    assert(seg[k1] == TokenView::LeftBracket);
                },
                None => {
                    if k1 < seg.len() {
                        assert(!(seg[k1] is LeftBracket));
                    }
                },
            }
            let k2 = k1 + al;
            match f.name {
                Some(x) => {
                    assert(seg[k2] == TokenView::Ident(x@));
                },
                None => {
                    if k2 < seg.len() {
                        assert(!(seg[k2] is Ident));
                    }
                },
            }
            let k3 = k2 + nl;
            match comment {
                Some(c) => {
                    assert(seg[k3] == TokenView::Comment(c@));
                    assert(seg.len() == k3 + 1);
                },
                None => {
                    assert(seg.len() == k3);
                },
            }
        },
        Line::Definition { definition: AttributeDefinition::Const(c), comment } => {
            let cl = cast_tokens(c.cast_mode).len() as int;
            assert(seg =~= cast_tokens(c.cast_mode) + seq![
                ty_token(c.field_type),
                TokenView::Ident(c.name@),
                TokenView::Eq,
                TokenView::Lit(lit_token(c.literal)),
            ] + comment_tokens(comment));
            if c.cast_mode is Some {
                assert(seg[0] == TokenView::CastMode(c.cast_mode.unwrap()));
            } else {
                assert(seg[0] == ty_token(c.field_type));
            }
            match c.field_type {
                Ty::Primitive(_) => {},
                Ty::Composite(_) => {},
            }
            assert(seg[cl] == ty_token(c.field_type));
            assert(seg[cl + 1] == TokenView::Ident(c.name@));
            assert(seg[cl + 2] == TokenView::Eq);
            assert(seg[cl + 3] == TokenView::Lit(lit_token(c.literal)));
            lemma_lit_token_convertible(c.literal);
            match comment {
                Some(x) => {
                    assert(seg[cl + 4] == TokenView::Comment(x@));
                },
                None => {},
            }
        },
    }
}

/// What is read from a token sequence is written with exactly those tokens.
pub proof fn lemma_read_line_sound(seg: Seq<TokenView>)
    requires
        read_line(seg) is Ok,
    ensures
        sketch_tokens(read_line(seg)->Ok_0) == seg,
{
    let s = read_line(seg)->Ok_0;
    match s {
        Sketch::Empty => {
            assert(seg =~= Seq::<TokenView>::empty());
        },
        Sketch::Comment(c) => {
            assert(seg =~= seq![TokenView::Comment(c)]);
        },
        Sketch::Directive(c) => {
            assert(sketch_tokens(s) =~= seg);
        },
        Sketch::Field { cast, ty, array, name, comment } => {
            assert(sketch_tokens(s) =~= seg);
        },
        Sketch::Const { cast, ty, name, lit, comment } => {
            assert(sketch_tokens(s) =~= seg);
        },
    }
}

// Type definitions

/// The tokens of lines, each followed by an end of line.
pub open spec fn lines_tokens(ls: Seq<Line>) -> Seq<TokenView>
    decreases ls.len(),
{
    if ls.len() == 0 {
        Seq::<TokenView>::empty()
    } else {
        line_tokens(ls[0]) + seq![TokenView::Eol] + lines_tokens(ls.drop_first())
    }
}

/// The tokens of a type definition: its lines, and for a service the `---` line between the
/// request and the response part.
pub open spec fn type_definition_tokens(t: TypeDefinition) -> Seq<TokenView> {
    match t {
        TypeDefinition::Message(m) => lines_tokens(m.0@),
        TypeDefinition::Service(s) => lines_tokens(s.request.0@) + seq![
            TokenView::ServiceResponseMarker,
            TokenView::Eol,
        ] + lines_tokens(s.response.0@),
    }
}

/// The first end of line from `i` on is not before `i`.
pub proof fn lemma_next_eol_bounds(t: Seq<TokenView>, i: int)
    requires
        0 <= i,
    ensures
        i <= next_eol(t, i) <= t.len() || i > t.len(),
        next_eol(t, i) < t.len() ==> t[next_eol(t, i)] is Eol,
        forall|j: int| i <= j < next_eol(t, i) ==> !(#[trigger] t[j] is Eol),
    decreases t.len() - i,
{
    if i < t.len() && !(t[i] is Eol) {
        lemma_next_eol_bounds(t, i + 1);
    }
}

/// The position of the first end of line from `i` on, or the length if there is none.
pub open spec fn next_eol(t: Seq<TokenView>, i: int) -> int
    decreases t.len() - i,
{
    if i < 0 || i >= t.len() {
        t.len() as int
    } else if t[i] is Eol {
        i
    } else {
        next_eol(t, i + 1)
    }
}

/// The token sequences of the lines of `t`: the pieces before each end of line, and what
/// follows the last end of line if that is not empty.
pub open spec fn lines_of(t: Seq<TokenView>) -> Seq<Seq<TokenView>>
    decreases t.len(),
{
    if t.len() == 0 {
        Seq::<Seq<TokenView>>::empty()
    } else {
        let e = next_eol(t, 0);
        if e >= t.len() {
            seq![t]
        } else {
            proof {
                lemma_next_eol_bounds(t, 0);
            }
            seq![t.take(e)] + lines_of(t.skip(e + 1))
        }
    }
}

/// Whether a token sequence holds no end of line.
pub open spec fn no_eol(s: Seq<TokenView>) -> bool {
    forall|i: int| 0 <= i < s.len() ==> !(#[trigger] s[i] is Eol)
}

/// The token sequences of lines.
pub open spec fn lines_token_seqs(ls: Seq<Line>) -> Seq<Seq<TokenView>> {
    ls.map_values(|l: Line| line_tokens(l))
}

/// The tokens of a line hold no end of line, and are never a lone `---`.
pub proof fn lemma_line_tokens_plain(l: Line)
    ensures
        no_eol(line_tokens(l)),
        line_tokens(l) != seq![TokenView::ServiceResponseMarker],
{
    lemma_read_line_complete(l);
    let t = line_tokens(l);
    assert forall|i: int| 0 <= i < t.len() implies !(#[trigger] t[i] is Eol) by {
        match l {
            Line::Definition { definition: AttributeDefinition::Field(f), comment } => {
                assert(t =~= cast_tokens(f.cast_mode) + seq![ty_token(f.field_type)] + array_tokens(
                    f.array,
                ) + name_tokens(f.name) + comment_tokens(comment));
                match f.array {
                    Some(ArrayInfo::Static(_)) => {},
                    Some(ArrayInfo::DynamicLess(_)) => {},
                    Some(ArrayInfo::DynamicLeq(_)) => {},
                    None => {},
                }
                match f.field_type {
                    Ty::Primitive(_) => {},
                    Ty::Composite(_) => {},
                }
            },
            Line::Definition { definition: AttributeDefinition::Const(c), comment } => {
                assert(t =~= cast_tokens(c.cast_mode) + seq![
                    ty_token(c.field_type),
                    TokenView::Ident(c.name@),
                    TokenView::Eq,
                    TokenView::Lit(lit_token(c.literal)),
                ] + comment_tokens(comment));
                match c.field_type {
                    Ty::Primitive(_) => {},
                    Ty::Composite(_) => {},
                }
            },
            _ => {},
        }
    }
    if t == seq![TokenView::ServiceResponseMarker] {
        assert(read_line(t) is Err);
    }
}

/// The first end of line after a piece without one is the one right after it.
proof fn lemma_next_eol_after(s: Seq<TokenView>, r: Seq<TokenView>, i: int)
    requires
        no_eol(s),
        0 <= i <= s.len(),
    ensures
        next_eol(s + seq![TokenView::Eol] + r, i) == s.len(),
    decreases s.len() - i,
{
    let t = s + seq![TokenView::Eol] + r;
    if i < s.len() {
        assert(t[i] == s[i]);
        lemma_next_eol_after(s, r, i + 1);
    } else {
        assert(t[i] == TokenView::Eol);
    }
}

/// A piece without end of line, an end of line, and the rest: the piece is the first line.
pub proof fn lemma_lines_of_cons(s: Seq<TokenView>, r: Seq<TokenView>)
    requires
        no_eol(s),
    ensures
        lines_of(s + seq![TokenView::Eol] + r) == seq![s] + lines_of(r),
{
    let t = s + seq![TokenView::Eol] + r;
    lemma_next_eol_after(s, r, 0);
    assert(t.take(s.len() as int) =~= s);
    assert(t.skip(s.len() as int + 1) =~= r);
}

/// The lines of the tokens of lines, followed by more tokens, are those lines' tokens, then the
/// lines of the rest.
pub proof fn lemma_lines_of_lines_tokens(ls: Seq<Line>, r: Seq<TokenView>)
    ensures
        lines_of(lines_tokens(ls) + r) == lines_token_seqs(ls) + lines_of(r),
    decreases ls.len(),
{
    if ls.len() == 0 {
        assert(lines_tokens(ls) + r =~= r);
        assert(lines_token_seqs(ls) + lines_of(r) =~= lines_of(r));
    } else {
        lemma_line_tokens_plain(ls[0]);
        lemma_lines_of_lines_tokens(ls.drop_first(), r);
        assert(lines_tokens(ls) + r =~= line_tokens(ls[0]) + seq![TokenView::Eol] + (lines_tokens(
            ls.drop_first(),
        ) + r));
        lemma_lines_of_cons(line_tokens(ls[0]), lines_tokens(ls.drop_first()) + r);
        assert(lines_token_seqs(ls) =~= seq![line_tokens(ls[0])] + lines_token_seqs(ls.drop_first()));
    }
}

/// The lines of the tokens of a type definition: the lines' tokens, and for a service the lone
/// `---` between its parts.
pub proof fn lemma_lines_of_type_definition(t: TypeDefinition)
    ensures
        lines_of(type_definition_tokens(t)) == match t {
            TypeDefinition::Message(m) => lines_token_seqs(m.0@),
            TypeDefinition::Service(s) => lines_token_seqs(s.request.0@) + seq![
                seq![TokenView::ServiceResponseMarker],
            ] + lines_token_seqs(s.response.0@),
        },
{
    match t {
        TypeDefinition::Message(m) => {
            lemma_lines_of_lines_tokens(m.0@, Seq::<TokenView>::empty());
            assert(lines_tokens(m.0@) + Seq::<TokenView>::empty() =~= lines_tokens(m.0@));
            assert(lines_of(Seq::<TokenView>::empty()) =~= Seq::<Seq<TokenView>>::empty());
            assert(lines_token_seqs(m.0@) + Seq::<Seq<TokenView>>::empty() =~= lines_token_seqs(m.0@));
        },
        TypeDefinition::Service(s) => {
            let rest = seq![TokenView::ServiceResponseMarker, TokenView::Eol] + lines_tokens(
                s.response.0@,
            );
            lemma_lines_of_lines_tokens(s.request.0@, rest);
            assert(type_definition_tokens(t) =~= lines_tokens(s.request.0@) + rest);
            assert(no_eol(seq![TokenView::ServiceResponseMarker]));
            assert(rest =~= seq![TokenView::ServiceResponseMarker] + seq![TokenView::Eol] + lines_tokens(
                s.response.0@,
            ));
            lemma_lines_of_cons(seq![TokenView::ServiceResponseMarker], lines_tokens(s.response.0@));
            lemma_lines_of_lines_tokens(s.response.0@, Seq::<TokenView>::empty());
            assert(lines_tokens(s.response.0@) + Seq::<TokenView>::empty() =~= lines_tokens(
                s.response.0@,
            ));
            assert(lines_of(Seq::<TokenView>::empty()) =~= Seq::<Seq<TokenView>>::empty());
            assert(lines_token_seqs(s.response.0@) + Seq::<Seq<TokenView>>::empty()
                =~= lines_token_seqs(s.response.0@));
        },
    }
}

// The tree that parsing reads is the only one of its tokens

/// Whether two composite types have the same namespace and name.
pub open spec fn composite_same(a: CompositeType, b: CompositeType) -> bool {
    opt_name_text(a.namespace) == opt_name_text(b.namespace) && a.name@ == b.name@
}

/// Whether two types are the same.
pub open spec fn ty_same(a: Ty, b: Ty) -> bool {
    match (a, b) {
        (Ty::Primitive(p), Ty::Primitive(q)) => p == q,
        (Ty::Composite(c), Ty::Composite(d)) => composite_same(c, d),
        _ => false,
    }
}

/// Whether two literals are the same: the same kind, sign and digits.
pub open spec fn lit_same(a: Lit, b: Lit) -> bool {
    match (a, b) {
        (Lit::Dec { sign: s, value: v }, Lit::Dec { sign: t, value: w }) => s == t && v@ == w@,
        (Lit::Hex { sign: s, value: v }, Lit::Hex { sign: t, value: w }) => s == t && v@ == w@,
        (Lit::Oct { sign: s, value: v }, Lit::Oct { sign: t, value: w }) => s == t && v@ == w@,
        (Lit::Bin { sign: s, value: v }, Lit::Bin { sign: t, value: w }) => s == t && v@ == w@,
        (Lit::Float { sign: s, value: v }, Lit::Float { sign: t, value: w }) => s == t && v@ == w@,
        (Lit::Bool(x), Lit::Bool(y)) => x == y,
        (Lit::Char(x), Lit::Char(y)) => x@ == y@,
        _ => false,
    }
}

/// Whether two lines are the same: the same kind, with the same parts.
pub open spec fn line_same(a: Line, b: Line) -> bool {
    match (a, b) {
        (Line::Empty, Line::Empty) => true,
        (Line::Comment(x), Line::Comment(y)) => x@ == y@,
        (Line::Directive { directive: d, comment: c }, Line::Directive { directive: e, comment: k }) => d
            == e && opt_comment_text(c) == opt_comment_text(k),
        (
            Line::Definition { definition: AttributeDefinition::Field(f), comment: c },
            Line::Definition { definition: AttributeDefinition::Field(g), comment: k },
        ) => f.cast_mode == g.cast_mode && ty_same(f.field_type, g.field_type) && f.array == g.array
            && opt_name_text(f.name) == opt_name_text(g.name) && opt_comment_text(c)
            == opt_comment_text(k),
        (
            Line::Definition { definition: AttributeDefinition::Const(f), comment: c },
            Line::Definition { definition: AttributeDefinition::Const(g), comment: k },
        ) => f.cast_mode == g.cast_mode && ty_same(f.field_type, g.field_type) && f.name@ == g.name@
            && lit_same(f.literal, g.literal) && opt_comment_text(c) == opt_comment_text(k),
        _ => false,
    }
}

/// Two composite types split at the last dot of one full name are the same.
pub proof fn lemma_composite_read_unique(a: CompositeType, b: CompositeType)
    requires
        composite_text(a) == composite_text(b),
        composite_as_read(a),
        composite_as_read(b),
    ensures
        composite_same(a, b),
{
    let t = composite_text(a);
    match (a.namespace, b.namespace) {
        (Some(x), Some(y)) => {
            let i = x@.len() as int;
            let j = y@.len() as int;
            assert(t == x@ + seq!['.'] + a.name@);
            assert(t == y@ + seq!['.'] + b.name@);
            assert(t[i] == '.');
            assert(t[j] == '.');
            if i < j {
                assert((x@ + seq!['.'] + a.name@)[j] == a.name@[j - i - 1]);
                assert(has_dot(a.name@));
            } else if j < i {
                assert((y@ + seq!['.'] + b.name@)[i] == b.name@[i - j - 1]);
                assert(has_dot(b.name@));
            }
            assert(x@ =~= t.take(i));
            assert(y@ =~= t.take(j));
            assert(a.name@ =~= t.skip(i + 1));
            assert(b.name@ =~= t.skip(j + 1));
        },
        (Some(x), None) => {
            assert(t == x@ + seq!['.'] + a.name@);
            assert(b.name@[x@.len() as int] == '.');
            assert(has_dot(b.name@));
        },
        (None, Some(y)) => {
            assert(t == y@ + seq!['.'] + b.name@);
            assert(a.name@[y@.len() as int] == '.');
            assert(has_dot(a.name@));
        },
        (None, None) => {},
    }
}

/// A sign, then text that starts with no sign: the sign and the text are told apart.
proof fn lemma_sign_split(s: Sign, v: Seq<char>, t: Sign, w: Seq<char>)
    requires
        sign_text(s) + v == sign_text(t) + w,
        s == Sign::Implicit ==> leading_sign(v).1 == 0,
        t == Sign::Implicit ==> leading_sign(w).1 == 0,
    ensures
        s == t,
        v == w,
{
    let x = sign_text(s) + v;
    if s != t {
        match s {
            Sign::Positive => assert(x[0] == '+'),
            Sign::Negative => assert(x[0] == '-'),
            Sign::Implicit => assert(x[0] == v[0]),
        }
        match t {
            Sign::Positive => assert(x[0] == '+'),
            Sign::Negative => assert(x[0] == '-'),
            Sign::Implicit => assert(x[0] == w[0]),
        }
    }
    assert(v =~= x.skip(sign_text(s).len() as int));
    assert(w =~= x.skip(sign_text(t).len() as int));
}

/// A sign and a radix prefix before digits: the sign and the digits are told apart.
proof fn lemma_radix_split(s: Sign, v: Seq<char>, t: Sign, w: Seq<char>, r: char)
    requires
        sign_text(s) + seq!['0', r] + v == sign_text(t) + seq!['0', r] + w,
    ensures
        s == t,
        v == w,
{
    let x = sign_text(s) + seq!['0', r] + v;
    if s != t {
        match s {
            Sign::Positive => assert(x[0] == '+'),
            Sign::Negative => assert(x[0] == '-'),
            Sign::Implicit => assert(x[0] == '0'),
        }
        match t {
            Sign::Positive => assert(x[0] == '+'),
            Sign::Negative => assert(x[0] == '-'),
            Sign::Implicit => assert(x[0] == '0'),
        }
    }
    assert(v =~= x.skip(sign_text(s).len() + 2int));
    assert(w =~= x.skip(sign_text(t).len() + 2int));
}

/// Two literals as parsing reads them from one token are the same.
pub proof fn lemma_lit_read_unique(a: Lit, b: Lit)
    requires
        lit_token(a) == lit_token(b),
        lit_as_read(a),
        lit_as_read(b),
    ensures
        lit_same(a, b),
{
    match (a, b) {
        (Lit::Dec { sign: s, value: v }, Lit::Dec { sign: t, value: w }) => lemma_sign_split(s, v@, t, w@),
        (Lit::Float { sign: s, value: v }, Lit::Float { sign: t, value: w }) => lemma_sign_split(s, v@, t, w@),
        (Lit::Hex { sign: s, value: v }, Lit::Hex { sign: t, value: w }) => lemma_radix_split(s, v@, t, w@, 'x'),
        (Lit::Oct { sign: s, value: v }, Lit::Oct { sign: t, value: w }) => lemma_radix_split(s, v@, t, w@, 'o'),
        (Lit::Bin { sign: s, value: v }, Lit::Bin { sign: t, value: w }) => lemma_radix_split(s, v@, t, w@, 'b'),
        _ => {},
    }
}

/// Two types as parsing reads them from one token are the same.
proof fn lemma_ty_read_unique(a: Ty, b: Ty)
    requires
        ty_tok_of(a) == ty_tok_of(b),
        ty_as_read(a),
        ty_as_read(b),
    ensures
        ty_same(a, b),
{
    if let (Ty::Composite(c), Ty::Composite(d)) = (a, b) {
        lemma_composite_read_unique(c, d);
    }
}

/// Two lines with the same tokens, each as parsing reads it, are the same: the tokens of a
/// line determine the line that parsing gives back.
pub proof fn law_line_read_unique(a: Line, b: Line)
    requires
        line_tokens(a) == line_tokens(b),
        line_as_read(a),
        line_as_read(b),
    ensures
        line_same(a, b),
{
    lemma_read_line_complete(a);
    lemma_read_line_complete(b);
    assert(line_sketch(a) == line_sketch(b));
    match (a, b) {
        (
            Line::Definition { definition: AttributeDefinition::Field(f), .. },
            Line::Definition { definition: AttributeDefinition::Field(g), .. },
        ) => {
            lemma_ty_read_unique(f.field_type, g.field_type);
        },
        (
            Line::Definition { definition: AttributeDefinition::Const(f), .. },
            Line::Definition { definition: AttributeDefinition::Const(g), .. },
        ) => {
            lemma_ty_read_unique(f.field_type, g.field_type);
            lemma_lit_read_unique(f.literal, g.literal);
        },
        (Line::Directive { directive: d, .. }, Line::Directive { directive: e, .. }) => {
            match d {
                crate::ast::directive::Directive::Union => {},
            }
            match e {
                crate::ast::directive::Directive::Union => {},
            }
        },
        _ => {},
    }
}

} // verus!
