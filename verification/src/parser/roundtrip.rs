//! What reading gives back of what display wrote. The tokens of a type definition determine
//! its display; and the display of a definition read from ASCII text is read back by the lexer
//! to the definition's own tokens, unless displaying loses a line break.

use vstd::prelude::*;
use crate::ast::attribute_definition::AttributeDefinition;
use crate::ast::line::line_text;
use crate::ast::line::Line;
use crate::ast::array::ArrayInfo;
use crate::ast::ty::Ty;
use crate::ast::type_definition::lines_text;
use crate::ast::type_definition::type_definition_text;
use crate::ast::type_definition::TypeDefinition;
use crate::lexer::token_text;
use crate::lexer::TokenView;
use crate::parser::grammar::array_tokens;
use crate::parser::grammar::cast_tokens;
use crate::parser::grammar::comment_tokens;
use crate::parser::grammar::lemma_line_tokens_plain;
use crate::parser::grammar::lemma_lines_of_type_definition;
use crate::parser::grammar::line_tokens;
use crate::parser::grammar::lines_token_seqs;
use crate::parser::grammar::lit_token;
use crate::parser::grammar::name_tokens;
use crate::parser::grammar::ty_token;
use crate::parser::grammar::type_definition_tokens;
use crate::parser::grammar::lines_tokens;
use crate::parser::grammar::definition_as_read;
use crate::parser::grammar::law_line_read_unique;
use crate::parser::grammar::line_same;
use crate::parser::grammar::lines_as_read;
use crate::parser::grammar::no_eol;
use crate::ast::dsdl::definition_result;
use crate::ast::type_definition::MessageDefinition;
use crate::ast::type_definition::ServiceDefinition;
use crate::lexer::is_lexing_of;
use crate::lexer::lex_trace;
use crate::lexer::lexes_fully;
use crate::parser::definition::parse_outcome;
use crate::parser::definition::terminated;
use crate::parser::lines::token_views;
use crate::parser::lines::SpannedToken;
use crate::parser::relex::ascii;
use crate::parser::relex::layout;
use crate::parser::relex::lemma_layout_lexes;
use crate::parser::relex::lemma_lexing_tok_ok;
use crate::parser::relex::tok_ok;
use crate::parser::relex::layout_gap;
use crate::parser::relex::pair_ok;
use crate::parser::relex::pairs_ok;

verus! {

/// Whether two neighbouring tokens of a line are written with a space between them: always,
/// but after `@` and inside array information (`[`, `<`, `<=`, the size and `]`).
pub open spec fn spaced(a: TokenView, b: TokenView) -> bool {
    !(a is DirectiveMarker || a is LeftBracket || a is Less || a is LessEq || b is LeftBracket
        || b is RightBracket || b is Less || b is LessEq)
}

/// The space between two neighbouring tokens, if any.
pub open spec fn gap(a: TokenView, b: TokenView) -> Seq<char> {
    if spaced(a, b) {
        seq![' ']
    } else {
        Seq::<char>::empty()
    }
}

/// The text that tokens are written with on a line: each token's text, with the gaps between
/// them.
pub open spec fn tokens_text(ts: Seq<TokenView>) -> Seq<char>
    decreases ts.len(),
{
    if ts.len() == 0 {
        Seq::<char>::empty()
    } else if ts.len() == 1 {
        token_text(ts[0])
    } else {
        tokens_text(ts.drop_last()) + gap(ts[ts.len() - 2], ts.last()) + token_text(ts.last())
    }
}

/// The text of two token sequences one after the other, with the gap where they meet.
proof fn lemma_tokens_text_concat(x: Seq<TokenView>, y: Seq<TokenView>)
    requires
        x.len() > 0,
    ensures
        tokens_text(x + y) == if y.len() == 0 {
            tokens_text(x)
        } else {
            tokens_text(x) + gap(x.last(), y[0]) + tokens_text(y)
        },
    decreases y.len(),
{
    if y.len() == 0 {
        assert(x + y =~= x);
    } else if y.len() == 1 {
        let s = x + y;
        assert(s.drop_last() =~= x);
        assert(s[s.len() - 2] == x.last());
    } else {
        let s = x + y;
        lemma_tokens_text_concat(x, y.drop_last());
        assert(s.drop_last() =~= x + y.drop_last());
        assert(s[s.len() - 2] == y[y.len() - 2]);
        assert(s.last() == y.last());
        assert((x + y.drop_last()).len() > 0);
        assert(y.drop_last()[0] == y[0]);
    }
}

/// Array information is displayed as the text of its tokens.
proof fn lemma_array_text(x: ArrayInfo)
    ensures
        tokens_text(array_tokens(Some(x))) == crate::ast::array::array_text(x),
{
    reveal_with_fuel(tokens_text, 5);
    let t = array_tokens(Some(x));
    match x {
        ArrayInfo::Static(n) => {
            assert(t.drop_last().drop_last() =~= seq![TokenView::LeftBracket]);
            assert(t.drop_last() =~= seq![TokenView::LeftBracket, t[1]]);
        },
        ArrayInfo::DynamicLess(n) => {
            assert(t.drop_last().drop_last().drop_last() =~= seq![TokenView::LeftBracket]);
            assert(t.drop_last().drop_last() =~= seq![TokenView::LeftBracket, TokenView::Less]);
            assert(t.drop_last() =~= seq![TokenView::LeftBracket, TokenView::Less, t[2]]);
        },
        ArrayInfo::DynamicLeq(n) => {
            assert(t.drop_last().drop_last().drop_last() =~= seq![TokenView::LeftBracket]);
            assert(t.drop_last().drop_last() =~= seq![TokenView::LeftBracket, TokenView::LessEq]);
            assert(t.drop_last() =~= seq![TokenView::LeftBracket, TokenView::LessEq, t[2]]);
        },
    }
    assert(tokens_text(t) =~= crate::ast::array::array_text(x));
}

/// An optional cast mode and a type are displayed as the text of their tokens.
proof fn lemma_head_text(c: Option<crate::ast::cast_mode::CastMode>, ty: Ty)
    ensures
        tokens_text(cast_tokens(c) + seq![ty_token(ty)]) == crate::ast::attribute_definition::cast_prefix(c)
            + crate::ast::ty::ty_text(ty),
{
    reveal_with_fuel(tokens_text, 3);
    let a = cast_tokens(c) + seq![ty_token(ty)];
    assert(token_text(ty_token(ty)) == crate::ast::ty::ty_text(ty));
    match c {
        Some(m) => {
            assert(a =~= seq![TokenView::CastMode(m), ty_token(ty)]);
            assert(a.drop_last() =~= seq![TokenView::CastMode(m)]);
            assert(tokens_text(a.drop_last()) == crate::ast::cast_mode::cast_mode_name(m));
        },
        None => {
            assert(a =~= seq![ty_token(ty)]);
        },
    }
    assert(tokens_text(a) =~= crate::ast::attribute_definition::cast_prefix(c) + crate::ast::ty::ty_text(ty));
}

/// A directive line is displayed as the text of its tokens.
proof fn lemma_directive_text(l: Line)
    requires
        l is Directive,
    ensures
        tokens_text(line_tokens(l)) == line_text(l),
{
    let comment = l->Directive_comment;
    let head = seq![TokenView::DirectiveMarker, TokenView::Ident(crate::ast::directive::union_word())];
    reveal_with_fuel(tokens_text, 3);
    assert(head.drop_last() =~= seq![TokenView::DirectiveMarker]);
    assert(tokens_text(head.drop_last()) == seq!['@']);
    assert(tokens_text(head) =~= seq!['@'] + crate::ast::directive::union_word());
    assert(crate::ast::directive::directive_text(l->Directive_directive) =~= seq!['@']
        + crate::ast::directive::union_word()) by {
        match l->Directive_directive {
            crate::ast::directive::Directive::Union => {},
        }
    }
    lemma_tokens_text_concat(head, comment_tokens(comment));
    assert(line_tokens(l) =~= head + comment_tokens(comment));
    assert(tokens_text(head + comment_tokens(comment)) =~= line_text(l));
}

/// A field definition line is displayed as the text of its tokens.
proof fn lemma_field_line_text(f: crate::ast::attribute_definition::FieldDefinition, comment: Option<crate::ast::comment::Comment>)
    ensures
        tokens_text(line_tokens(Line::Definition { definition: AttributeDefinition::Field(f), comment }))
            == line_text(Line::Definition { definition: AttributeDefinition::Field(f), comment }),
{
    let l = Line::Definition { definition: AttributeDefinition::Field(f), comment };
    let a = cast_tokens(f.cast_mode) + seq![ty_token(f.field_type)];
    let b = a + array_tokens(f.array);
    let c = b + name_tokens(f.name);
    let d = c + comment_tokens(comment);
    assert(line_tokens(l) == d);
    lemma_head_text(f.cast_mode, f.field_type);
    lemma_tokens_text_concat(a, array_tokens(f.array));
    match f.array {
        Some(x) => {
            lemma_array_text(x);
        },
        None => {},
    }
    assert(tokens_text(b) =~= crate::ast::attribute_definition::cast_prefix(f.cast_mode)
        + crate::ast::ty::ty_text(f.field_type) + crate::ast::attribute_definition::opt_array_text(f.array));
    lemma_tokens_text_concat(b, name_tokens(f.name));
    assert(tokens_text(c) =~= crate::ast::attribute_definition::field_text(f));
    lemma_tokens_text_concat(c, comment_tokens(comment));
    assert(tokens_text(d) =~= line_text(l));
}

/// A constant definition line is displayed as the text of its tokens.
proof fn lemma_const_line_text(k: crate::ast::attribute_definition::ConstDefinition, comment: Option<crate::ast::comment::Comment>)
    ensures
        tokens_text(line_tokens(Line::Definition { definition: AttributeDefinition::Const(k), comment }))
            == line_text(Line::Definition { definition: AttributeDefinition::Const(k), comment }),
{
    let l = Line::Definition { definition: AttributeDefinition::Const(k), comment };
    let a = cast_tokens(k.cast_mode) + seq![ty_token(k.field_type)];
    let rest = seq![TokenView::Ident(k.name@), TokenView::Eq, TokenView::Lit(lit_token(k.literal))];
    let b = a + rest;
    let d = b + comment_tokens(comment);
    assert(line_tokens(l) =~= d);
    lemma_head_text(k.cast_mode, k.field_type);
    assert(tokens_text(rest) =~= k.name@ + seq![' ', '='] + seq![' '] + crate::ast::lit::lit_text(
        k.literal,
    )) by {
        reveal_with_fuel(tokens_text, 4);
        assert(rest.drop_last().drop_last() =~= seq![TokenView::Ident(k.name@)]);
        assert(rest.drop_last() =~= seq![TokenView::Ident(k.name@), TokenView::Eq]);
        assert(crate::lexer::lit_token_text(lit_token(k.literal)) =~= crate::ast::lit::lit_text(
            k.literal,
        ));
    }
    lemma_tokens_text_concat(a, rest);
    assert(tokens_text(b) =~= crate::ast::attribute_definition::const_text(k));
    lemma_tokens_text_concat(b, comment_tokens(comment));
    assert(tokens_text(d) =~= line_text(l));
}

/// A line is displayed as the text of its tokens.
pub proof fn lemma_line_text_of_tokens(l: Line)
    ensures
        tokens_text(line_tokens(l)) == line_text(l),
{
    match l {
        Line::Empty => {},
        Line::Comment(c) => {},
        Line::Directive { .. } => lemma_directive_text(l),
        Line::Definition { definition: AttributeDefinition::Field(f), comment } => lemma_field_line_text(f, comment),
        Line::Definition { definition: AttributeDefinition::Const(k), comment } => lemma_const_line_text(k, comment),
    }
}

/// The text of lines given by their tokens: each line's token text, with line breaks between.
pub open spec fn seqs_text(ss: Seq<Seq<TokenView>>) -> Seq<char>
    decreases ss.len(),
{
    if ss.len() == 0 {
        Seq::<char>::empty()
    } else if ss.len() == 1 {
        tokens_text(ss[0])
    } else {
        seqs_text(ss.drop_last()) + seq!['\n'] + tokens_text(ss.last())
    }
}

/// Lines are displayed as the text of their token sequences.
proof fn lemma_seqs_text_of_lines(ls: Seq<Line>)
    ensures
        seqs_text(lines_token_seqs(ls)) == lines_text(ls),
    decreases ls.len(),
{
    let ss = lines_token_seqs(ls);
    if ls.len() == 0 {
    } else if ls.len() == 1 {
        lemma_line_text_of_tokens(ls[0]);
    } else {
        lemma_seqs_text_of_lines(ls.drop_last());
        assert(ss.drop_last() =~= lines_token_seqs(ls.drop_last()));
        lemma_line_text_of_tokens(ls.last());
    }
}

/// Where the token sequences of two line lists meet the lone `---` at the same place, the
/// lists before it and after it have equal token sequences.
proof fn lemma_split_at_marker(a: Seq<Line>, p: Seq<Line>, b: Seq<Line>, q: Seq<Line>)
    requires
        lines_token_seqs(a) + seq![seq![TokenView::ServiceResponseMarker]] + lines_token_seqs(p)
            == lines_token_seqs(b) + seq![seq![TokenView::ServiceResponseMarker]] + lines_token_seqs(q),
    ensures
        lines_token_seqs(a) == lines_token_seqs(b),
        lines_token_seqs(p) == lines_token_seqs(q),
{
    let m = seq![TokenView::ServiceResponseMarker];
    let x = lines_token_seqs(a) + seq![m] + lines_token_seqs(p);
    let y = lines_token_seqs(b) + seq![m] + lines_token_seqs(q);
    if a.len() < b.len() {
        assert(x[a.len() as int] == m);
        assert(y[a.len() as int] == line_tokens(b[a.len() as int]));
        lemma_line_tokens_plain(b[a.len() as int]);
    } else if b.len() < a.len() {
        assert(y[b.len() as int] == m);
        assert(x[b.len() as int] == line_tokens(a[b.len() as int]));
        lemma_line_tokens_plain(a[b.len() as int]);
    }
    assert(a.len() == b.len());
    assert(lines_token_seqs(a) =~= x.take(a.len() as int));
    assert(lines_token_seqs(b) =~= y.take(b.len() as int));
    assert(lines_token_seqs(p) =~= x.skip(a.len() + 1int));
    assert(lines_token_seqs(q) =~= y.skip(b.len() + 1int));
}

/// No message's lines have the token sequences of a service's parts around the `---`.
proof fn lemma_message_not_service(a: Seq<Line>, b: Seq<Line>, q: Seq<Line>)
    ensures
        lines_token_seqs(a) != lines_token_seqs(b) + seq![seq![TokenView::ServiceResponseMarker]]
            + lines_token_seqs(q),
{
    let m = seq![TokenView::ServiceResponseMarker];
    let y = lines_token_seqs(b) + seq![m] + lines_token_seqs(q);
    if lines_token_seqs(a) == y {
        assert(y[b.len() as int] == m);
        assert(y.len() == b.len() + 1 + q.len());
        assert(lines_token_seqs(a).len() == a.len());
        assert(b.len() < a.len());
        assert(lines_token_seqs(a)[b.len() as int] == line_tokens(a[b.len() as int]));
        lemma_line_tokens_plain(a[b.len() as int]);
    }
}

/// Two type definitions with the same tokens are displayed alike. So a definition that parsing
/// gives back from the tokens of another, which has the same tokens, displays as that one did.
pub proof fn law_tokens_determine_display(a: TypeDefinition, b: TypeDefinition)
    requires
        type_definition_tokens(a) == type_definition_tokens(b),
    ensures
        type_definition_text(a) == type_definition_text(b),
{
    lemma_lines_of_type_definition(a);
    lemma_lines_of_type_definition(b);
    match a {
        TypeDefinition::Message(ma) => match b {
            TypeDefinition::Message(mb) => {
                lemma_seqs_text_of_lines(ma.0@);
                lemma_seqs_text_of_lines(mb.0@);
            },
            TypeDefinition::Service(sb) => {
                lemma_message_not_service(ma.0@, sb.request.0@, sb.response.0@);
            },
        },
        TypeDefinition::Service(sa) => match b {
            TypeDefinition::Message(mb) => {
                lemma_message_not_service(mb.0@, sa.request.0@, sa.response.0@);
            },
            TypeDefinition::Service(sb) => {
                lemma_split_at_marker(sa.request.0@, sa.response.0@, sb.request.0@, sb.response.0@);
                lemma_seqs_text_of_lines(sa.request.0@);
                lemma_seqs_text_of_lines(sb.request.0@);
                lemma_seqs_text_of_lines(sa.response.0@);
                lemma_seqs_text_of_lines(sb.response.0@);
            },
        },
    }
}

/// Tokens of a line are laid out as the text that they are written with on a line.
proof fn lemma_layout_of_plain(ts: Seq<TokenView>)
    requires
        no_eol(ts),
    ensures
        layout(ts) == tokens_text(ts),
    decreases ts.len(),
{
    if ts.len() > 1 {
        let h = seq![ts[0]];
        let r = ts.drop_first();
        assert(ts =~= h + r);
        assert(no_eol(r)) by {
            assert forall|i: int| 0 <= i < r.len() implies !((#[trigger] r[i]) is Eol) by {
                assert(r[i] == ts[i + 1]);
            }
        }
        lemma_layout_of_plain(r);
        lemma_tokens_text_concat(h, r);
        assert(ts[1] == r[0]);
        assert(!(ts[0] is Eol) && !(ts[1] is Eol));
        assert(tokens_text(h) == token_text(ts[0]));
    }
}

/// Two token sequences laid out one after the other, with the gap where they meet.
proof fn lemma_layout_concat(a: Seq<TokenView>, b: Seq<TokenView>)
    requires
        a.len() > 0,
        b.len() > 0,
    ensures
        layout(a + b) == layout(a) + layout_gap(a.last(), b[0]) + layout(b),
    decreases a.len(),
{
    let ab = a + b;
    assert(ab[0] == a[0]);
    if a.len() == 1 {
        assert(ab.drop_first() =~= b);
        assert(ab[1] == b[0]);
    } else {
        lemma_layout_concat(a.drop_first(), b);
        assert(ab.drop_first() =~= a.drop_first() + b);
        assert(ab[1] == a[1]);
        assert(a.drop_first().last() == a.last());
    }
}

/// A line and its end of line are laid out as the line's text and a line break.
proof fn lemma_layout_line(l: Line, rest: Seq<TokenView>)
    ensures
        layout(line_tokens(l) + seq![TokenView::Eol] + rest) == line_text(l) + seq!['\n'] + layout(rest),
{
    let lt = line_tokens(l);
    let tail = seq![TokenView::Eol] + rest;
    lemma_line_tokens_plain(l);
    lemma_layout_of_plain(lt);
    lemma_line_text_of_tokens(l);
    assert(lt + seq![TokenView::Eol] + rest =~= lt + tail);
    assert(layout(tail) == seq!['\n'] + layout(rest)) by {
        if rest.len() > 0 {
            assert(tail.drop_first() =~= rest);
            assert(tail[1] == rest[0]);
        } else {
            assert(tail =~= seq![TokenView::Eol]);
        }
    }
    if lt.len() > 0 {
        lemma_layout_concat(lt, tail);
    } else {
        assert(lt + tail =~= tail);
    }
}

/// The text of two or more lines: the first line, a line break and the rest.
proof fn lemma_lines_text_cons(ls: Seq<Line>)
    requires
        ls.len() >= 2,
    ensures
        lines_text(ls) == line_text(ls[0]) + seq!['\n'] + lines_text(ls.drop_first()),
    decreases ls.len(),
{
    let nl = seq!['\n'];
    if ls.len() > 2 {
        lemma_lines_text_cons(ls.drop_last());
        assert(ls.drop_last().drop_first() =~= ls.drop_first().drop_last());
        assert(ls.drop_first().last() == ls.last());
        assert(ls.drop_last()[0] == ls[0]);
        let mid = lines_text(ls.drop_first().drop_last());
        assert(lines_text(ls) == lines_text(ls.drop_last()) + nl + line_text(ls.last()));
        assert(lines_text(ls.drop_first()) == mid + nl + line_text(ls.last()));
        assert(lines_text(ls.drop_last()) == line_text(ls[0]) + nl + mid);
        assert(lines_text(ls) =~= line_text(ls[0]) + nl + lines_text(ls.drop_first()));
    } else {
        assert(ls.drop_last() =~= seq![ls[0]]);
        assert(ls.drop_first() =~= seq![ls[1]]);
        assert(lines_text(ls) == lines_text(ls.drop_last()) + nl + line_text(ls.last()));
    }
}

/// Lines are laid out as their text followed by a line break.
proof fn lemma_layout_lines(ls: Seq<Line>, rest: Seq<TokenView>)
    requires
        ls.len() > 0,
    ensures
        layout(lines_tokens(ls) + rest) == lines_text(ls) + seq!['\n'] + layout(rest),
    decreases ls.len(),
{
    let tail = lines_tokens(ls.drop_first()) + rest;
    assert(lines_tokens(ls) + rest =~= line_tokens(ls[0]) + seq![TokenView::Eol] + tail);
    lemma_layout_line(ls[0], tail);
    if ls.len() == 1 {
        assert(lines_tokens(ls.drop_first()) =~= Seq::<TokenView>::empty());
        assert(tail =~= rest);
    } else {
        lemma_layout_lines(ls.drop_first(), rest);
        lemma_lines_text_cons(ls);
    }
}

/// The tokens of lines end with those of the last line and its end of line.
proof fn lemma_lines_tokens_snoc(ls: Seq<Line>)
    requires
        ls.len() > 0,
    ensures
        lines_tokens(ls) == lines_tokens(ls.drop_last()) + line_tokens(ls.last()) + seq![TokenView::Eol],
    decreases ls.len(),
{
    if ls.len() == 1 {
        assert(ls.drop_first() =~= Seq::<Line>::empty());
        assert(ls.drop_last() =~= Seq::<Line>::empty());
    } else {
        lemma_lines_tokens_snoc(ls.drop_first());
        assert(ls.drop_first().drop_last() =~= ls.drop_last().drop_first());
        assert(ls.drop_last()[0] == ls[0]);
        assert(ls.drop_first().last() == ls.last());
    }
}

/// Pairs of neighbours of two sequences one after the other.
proof fn lemma_pairs_ok_concat(a: Seq<TokenView>, b: Seq<TokenView>)
    requires
        pairs_ok(a),
        pairs_ok(b),
        a.len() > 0 && b.len() > 0 ==> pair_ok(a.last(), b[0]),
    ensures
        pairs_ok(a + b),
{
    let ab = a + b;
    assert forall|i: int| 0 <= i < ab.len() - 1 implies pair_ok(#[trigger] ab[i], ab[i + 1]) by {
        if i < a.len() - 1 {
            assert(ab[i] == a[i] && ab[i + 1] == a[i + 1]);
        } else if i == a.len() - 1 {
            assert(ab[i] == a.last() && ab[i + 1] == b[0]);
        } else {
            assert(ab[i] == b[i - a.len()] && ab[i + 1] == b[i - a.len() + 1]);
        }
    }
}

/// The neighbours of a line's tokens, and the line's end of line, may stand together.
proof fn lemma_line_pairs_ok(l: Line)
    ensures
        pairs_ok(line_tokens(l) + seq![TokenView::Eol]),
{
    let lt = line_tokens(l);
    assert(pairs_ok(lt)) by {
        match l {
            Line::Empty => {},
            Line::Comment(c) => {},
            Line::Directive { comment, .. } => {
                let head = seq![TokenView::DirectiveMarker, TokenView::Ident(crate::ast::directive::union_word())];
                lemma_pairs_ok_concat(head, comment_tokens(comment));
            },
            Line::Definition { definition: AttributeDefinition::Field(f), comment } => {
                let a = cast_tokens(f.cast_mode);
                let b = a + seq![ty_token(f.field_type)];
                let c = b + array_tokens(f.array);
                let d = c + name_tokens(f.name);
                lemma_pairs_ok_concat(a, seq![ty_token(f.field_type)]);
                lemma_pairs_ok_concat(b, array_tokens(f.array));
                lemma_pairs_ok_concat(c, name_tokens(f.name));
                lemma_pairs_ok_concat(d, comment_tokens(comment));
                assert(lt == d + comment_tokens(comment));
            },
            Line::Definition { definition: AttributeDefinition::Const(k), comment } => {
                let a = cast_tokens(k.cast_mode);
                let rest = seq![
                    ty_token(k.field_type),
                    TokenView::Ident(k.name@),
                    TokenView::Eq,
                    TokenView::Lit(lit_token(k.literal)),
                ];
                lemma_pairs_ok_concat(a, rest);
                lemma_pairs_ok_concat(a + rest, comment_tokens(comment));
                assert(lt =~= a + rest + comment_tokens(comment));
            },
        }
    }
    lemma_pairs_ok_concat(lt, seq![TokenView::Eol]);
}

/// The neighbours among the tokens of lines may stand together.
proof fn lemma_lines_pairs_ok(ls: Seq<Line>)
    ensures
        pairs_ok(lines_tokens(ls)),
    decreases ls.len(),
{
    if ls.len() > 0 {
        lemma_lines_pairs_ok(ls.drop_first());
        lemma_line_pairs_ok(ls[0]);
        let a = line_tokens(ls[0]) + seq![TokenView::Eol];
        lemma_pairs_ok_concat(a, lines_tokens(ls.drop_first()));
        assert(lines_tokens(ls) == a + lines_tokens(ls.drop_first()));
    }
}

/// The neighbours among the tokens of a type definition may stand together.
proof fn lemma_definition_pairs_ok(t: TypeDefinition)
    ensures
        pairs_ok(type_definition_tokens(t)),
{
    match t {
        TypeDefinition::Message(m) => lemma_lines_pairs_ok(m.0@),
        TypeDefinition::Service(s) => {
            lemma_lines_pairs_ok(s.request.0@);
            lemma_lines_pairs_ok(s.response.0@);
            let a = lines_tokens(s.request.0@);
            let m = seq![TokenView::ServiceResponseMarker, TokenView::Eol];
            if s.request.0@.len() > 0 {
                lemma_lines_tokens_snoc(s.request.0@);
            }
            lemma_pairs_ok_concat(a, m);
            lemma_pairs_ok_concat(a + m, lines_tokens(s.response.0@));
        },
    }
}

/// A line other than an empty one has tokens.
proof fn lemma_line_tokens_nonempty(l: Line)
    requires
        !(l is Empty),
    ensures
        line_tokens(l).len() > 0,
{
    match l {
        Line::Definition { definition: AttributeDefinition::Field(f), comment } => {
            let a = cast_tokens(f.cast_mode) + seq![ty_token(f.field_type)];
            assert(line_tokens(l) =~= a + array_tokens(f.array) + name_tokens(f.name) + comment_tokens(comment));
        },
        Line::Definition { definition: AttributeDefinition::Const(k), comment } => {
            let a = cast_tokens(k.cast_mode) + seq![ty_token(k.field_type)];
            assert(line_tokens(l).len() >= 4);
        },
        _ => {},
    }
}

/// A last end of line is laid out as a line break.
proof fn lemma_layout_push_eol(u: Seq<TokenView>)
    requires
        u.len() > 0,
    ensures
        layout(u.push(TokenView::Eol)) == layout(u) + seq!['\n'],
{
    lemma_layout_concat(u, seq![TokenView::Eol]);
    assert(u + seq![TokenView::Eol] =~= u.push(TokenView::Eol));
}

/// Whether displaying a definition loses a line break: where its last line is empty, or it is
/// a service with no request line, a line break that its tokens hold is not written.
pub open spec fn display_loses_line(t: TypeDefinition) -> bool {
    match t {
        TypeDefinition::Message(m) => m.0@.len() > 0 && m.0@.last() is Empty,
        TypeDefinition::Service(s) => s.request.0@.len() == 0 || (s.response.0@.len() > 0
            && s.response.0@.last() is Empty),
    }
}

/// Lines that end with a line other than an empty one, after some tokens: all but the last end
/// of line are laid out as the text of the lines, and terminating them gives the tokens back.
proof fn lemma_strip_last_eol(pre: Seq<TokenView>, ls: Seq<Line>)
    requires
        ls.len() > 0,
        !(ls.last() is Empty),
    ensures
        (pre + lines_tokens(ls)).len() > 0,
        (pre + lines_tokens(ls)).drop_last().len() > 0,
        !((pre + lines_tokens(ls)).drop_last().last() is Eol),
        (pre + lines_tokens(ls)).drop_last().push(TokenView::Eol) == pre + lines_tokens(ls),
{
    lemma_lines_tokens_snoc(ls);
    lemma_line_tokens_nonempty(ls.last());
    lemma_line_tokens_plain(ls.last());
    let lt = line_tokens(ls.last());
    let all = pre + lines_tokens(ls);
    let u = pre + lines_tokens(ls.drop_last()) + lt;
    assert(all =~= u.push(TokenView::Eol));
    assert(all.drop_last() =~= u);
    assert(u.last() == lt.last());
}

/// The `---` line and its end of line, before other tokens, are laid out as `---` and a line
/// break before those tokens.
proof fn lemma_layout_marker(l: Seq<TokenView>)
    ensures
        layout(seq![TokenView::ServiceResponseMarker, TokenView::Eol] + l) == seq!['-', '-', '-', '\n']
            + layout(l),
{
    let rest = seq![TokenView::ServiceResponseMarker, TokenView::Eol] + l;
    let e = seq![TokenView::Eol] + l;
    assert(rest.drop_first() =~= e);
    assert(e.drop_first() =~= l);
    if l.len() > 0 {
        assert(e[1] == l[0]);
        assert(layout_gap(e[0], e[1]) =~= Seq::<char>::empty());
        assert(layout(e) == token_text(e[0]) + layout_gap(e[0], e[1]) + layout(e.drop_first()));
    } else {
        assert(e =~= seq![TokenView::Eol]);
    }
    assert(layout(e) =~= seq!['\n'] + layout(l));
    assert(rest[0] == TokenView::ServiceResponseMarker);
    assert(rest[1] == TokenView::Eol);
    assert(layout_gap(rest[0], rest[1]) =~= Seq::<char>::empty());
    assert(layout(rest) == token_text(rest[0]) + layout_gap(rest[0], rest[1]) + layout(rest.drop_first()));
    assert(layout(rest) =~= seq!['-', '-', '-', '\n'] + layout(l));
}

/// The display of a message that loses no line break is the layout of its tokens, or of all
/// but their last end of line.
proof fn lemma_display_message(m: MessageDefinition) -> (u: Seq<TokenView>)
    requires
        !display_loses_line(TypeDefinition::Message(m)),
    ensures
        layout(u) == lines_text(m.0@),
        terminated(u) == lines_tokens(m.0@),
        u.len() <= lines_tokens(m.0@).len(),
        forall|i: int| 0 <= i < u.len() ==> #[trigger] u[i] == lines_tokens(m.0@)[i],
{
    let ls = m.0@;
    let all = lines_tokens(ls);
    let nl = seq!['\n'];
    if ls.len() == 0 {
        assert(all =~= Seq::<TokenView>::empty());
        all
    } else {
        lemma_strip_last_eol(Seq::<TokenView>::empty(), ls);
        assert(Seq::<TokenView>::empty() + all =~= all);
        let u = all.drop_last();
        lemma_layout_push_eol(u);
        lemma_layout_lines(ls, Seq::<TokenView>::empty());
        assert(all + Seq::<TokenView>::empty() =~= all);
        assert(layout(u) =~= (layout(u) + nl).drop_last());
        assert(lines_text(ls) =~= (lines_text(ls) + nl + Seq::<char>::empty()).drop_last());
        u
    }
}

/// The display of a service that loses no line break is the layout of its tokens, or of all
/// but their last end of line.
proof fn lemma_display_service(sv: ServiceDefinition) -> (u: Seq<TokenView>)
    requires
        !display_loses_line(TypeDefinition::Service(sv)),
    ensures
        layout(u) == type_definition_text(TypeDefinition::Service(sv)),
        terminated(u) == type_definition_tokens(TypeDefinition::Service(sv)),
        u.len() <= type_definition_tokens(TypeDefinition::Service(sv)).len(),
        forall|i: int| 0 <= i < u.len() ==> #[trigger] u[i] == type_definition_tokens(TypeDefinition::Service(sv))[i],
{
    let t = TypeDefinition::Service(sv);
    let all = type_definition_tokens(t);
    let d = type_definition_text(t);
    let nl = seq!['\n'];
    let req = sv.request.0@;
    let resp = sv.response.0@;
    let marker = seq![TokenView::ServiceResponseMarker, TokenView::Eol];
    let rest = marker + lines_tokens(resp);
    assert(all =~= lines_tokens(req) + rest);
    lemma_layout_lines(req, rest);
    lemma_layout_marker(lines_tokens(resp));
    if resp.len() == 0 {
        assert(lines_tokens(resp) =~= Seq::<TokenView>::empty());
        assert(lines_text(resp) =~= Seq::<char>::empty());
        assert(layout(all) =~= d);
        all
    } else {
        lemma_layout_lines(resp, Seq::<TokenView>::empty());
        assert(lines_tokens(resp) + Seq::<TokenView>::empty() =~= lines_tokens(resp));
        assert(layout(all) =~= d + nl);
        let pre = lines_tokens(req) + marker;
        assert(pre + lines_tokens(resp) =~= all);
        lemma_strip_last_eol(pre, resp);
        let u = all.drop_last();
        lemma_layout_push_eol(u);
        assert(layout(u) =~= (layout(u) + nl).drop_last());
        assert(d =~= (d + nl).drop_last());
        u
    }
}

/// The display of a definition that loses no line break is the layout of its tokens, or of all
/// but their last end of line; terminating that gives the tokens back.
proof fn lemma_display_is_layout(t: TypeDefinition) -> (u: Seq<TokenView>)
    requires
        !display_loses_line(t),
    ensures
        layout(u) == type_definition_text(t),
        terminated(u) == type_definition_tokens(t),
        u.len() <= type_definition_tokens(t).len(),
        forall|i: int| 0 <= i < u.len() ==> #[trigger] u[i] == type_definition_tokens(t)[i],
{
    match t {
        TypeDefinition::Message(m) => lemma_display_message(m),
        TypeDefinition::Service(sv) => lemma_display_service(sv),
    }
}

/// A definition read from ASCII text, where displaying it loses no line break, is displayed as
/// a text that the lexer gets through and reads back to the definition's own tokens.
pub proof fn law_display_reads_back(s: Seq<char>, toks: Seq<SpannedToken>, t: TypeDefinition, again: Seq<SpannedToken>)
    requires
        ascii(s),
        is_lexing_of(s, toks),
        type_definition_tokens(t) == terminated(token_views(toks)),
        !display_loses_line(t),
    ensures
        lexes_fully(type_definition_text(t), 0),
        is_lexing_of(type_definition_text(t), again) ==> terminated(token_views(again))
            == type_definition_tokens(t),
{
    let all = type_definition_tokens(t);
    let d = type_definition_text(t);
    let v = token_views(toks);
    lemma_lexing_tok_ok(s, toks);
    assert forall|i: int| 0 <= i < all.len() implies tok_ok(#[trigger] all[i]) by {
        if i < v.len() {
            assert(all[i] == v[i]);
            assert(v[i] == toks[i].1@);
        } else {
            assert(all[i] == TokenView::Eol);
        }
    }
    lemma_definition_pairs_ok(t);
    let u = lemma_display_is_layout(t);
    assert forall|i: int| 0 <= i < u.len() implies tok_ok(#[trigger] u[i]) by {
        assert(u[i] == all[i]);
    }
    assert forall|i: int| 0 <= i < u.len() - 1 implies pair_ok(#[trigger] u[i], u[i + 1]) by {
        assert(u[i] == all[i]);
        assert(u[i + 1] == all[i + 1]);
    }
    lemma_layout_lexes(u);
    if is_lexing_of(d, again) {
        let tr = lex_trace(d, 0);
        assert forall|k: int| 0 <= k < u.len() implies #[trigger] token_views(again)[k] == u[k] by {
            let st = tr[k];
            assert(crate::lexer::emitted(d, st, again[k]));
            assert(crate::lexer::token_matches(d, st->shape, st->start, st->Emit_next, again[k].1));
        }
        assert(token_views(again) =~= u);
    }
}

/// Parsing ASCII text, displaying the definition and parsing the display again: wherever
/// displaying loses no line break, the lexer gets through the display, parsing it succeeds,
/// and gives back the same definition, with the same tokens and the same display.
pub proof fn law_parse_display_parse(text: Seq<char>, t: TypeDefinition, r: Result<TypeDefinition, crate::parser::error::ParseError>)
    requires
        ascii(text),
        definition_result(text, Ok(t)),
        !display_loses_line(t),
        definition_result(type_definition_text(t), r),
    ensures
        lexes_fully(type_definition_text(t), 0),
        r is Ok,
        r matches Ok(t2) ==> type_definition_tokens(t2) == type_definition_tokens(t)
            && type_definition_text(t2) == type_definition_text(t) && definition_same(t2, t),
{
    let toks = choose|toks: Seq<SpannedToken>|
        is_lexing_of(text, toks) && parse_outcome(toks, Ok::<TypeDefinition, crate::parser::error::ParseError>(t));
    let d = type_definition_text(t);
    let again = choose|again: Seq<SpannedToken>| is_lexing_of(d, again) && parse_outcome(again, r);
    law_display_reads_back(text, toks, t, again);
    assert(type_definition_tokens(t) == terminated(token_views(again)));
    if let Ok(t2) = r {
        law_tokens_determine_display(t2, t);
        law_definition_read_unique(t2, t);
    }
}

/// Whether two sequences of lines are the same, line by line.
pub open spec fn lines_same(x: Seq<Line>, y: Seq<Line>) -> bool {
    x.len() == y.len() && forall|i: int| 0 <= i < x.len() ==> line_same(#[trigger] x[i], y[i])
}

/// Whether two type definitions are the same: the same kind, with the same lines.
pub open spec fn definition_same(a: TypeDefinition, b: TypeDefinition) -> bool {
    match (a, b) {
        (TypeDefinition::Message(m), TypeDefinition::Message(n)) => lines_same(m.0@, n.0@),
        (TypeDefinition::Service(s), TypeDefinition::Service(t)) => lines_same(s.request.0@, t.request.0@)
            && lines_same(s.response.0@, t.response.0@),
        _ => false,
    }
}

/// Lines with the same token sequences, each as parsing reads it, are the same.
proof fn lemma_lines_read_unique(x: Seq<Line>, y: Seq<Line>)
    requires
        lines_token_seqs(x) == lines_token_seqs(y),
        lines_as_read(x),
        lines_as_read(y),
    ensures
        lines_same(x, y),
{
    assert(lines_token_seqs(x).len() == x.len());
    assert(lines_token_seqs(y).len() == y.len());
    assert forall|i: int| 0 <= i < x.len() implies line_same(#[trigger] x[i], y[i]) by {
        assert(lines_token_seqs(x)[i] == line_tokens(x[i]));
        assert(lines_token_seqs(y)[i] == line_tokens(y[i]));
        law_line_read_unique(x[i], y[i]);
    }
}

/// Two type definitions with the same tokens, each as parsing reads it, are the same. So the
/// definition that parsing gives back is the only one, as parsing reads definitions, that
/// is written with the tokens it read.
pub proof fn law_definition_read_unique(a: TypeDefinition, b: TypeDefinition)
    requires
        type_definition_tokens(a) == type_definition_tokens(b),
        definition_as_read(a),
        definition_as_read(b),
    ensures
        definition_same(a, b),
{
    lemma_lines_of_type_definition(a);
    lemma_lines_of_type_definition(b);
    match a {
        TypeDefinition::Message(ma) => match b {
            TypeDefinition::Message(mb) => {
                lemma_lines_read_unique(ma.0@, mb.0@);
            },
            TypeDefinition::Service(sb) => {
                lemma_message_not_service(ma.0@, sb.request.0@, sb.response.0@);
            },
        },
        TypeDefinition::Service(sa) => match b {
            TypeDefinition::Message(mb) => {
                lemma_message_not_service(mb.0@, sa.request.0@, sa.response.0@);
            },
            TypeDefinition::Service(sb) => {
                lemma_split_at_marker(sa.request.0@, sa.response.0@, sb.request.0@, sb.response.0@);
                lemma_lines_read_unique(sa.request.0@, sb.request.0@);
                lemma_lines_read_unique(sa.response.0@, sb.response.0@);
            },
        },
    }
}

} // verus!
