//! How the lexer reads text that is laid out token by token. On ASCII text the lexer reads
//! the same tokens wherever a piece of text stands, and it reads the text of each token that
//! it once emitted back as that token.

use vstd::prelude::*;
use crate::ast::cast_mode::cast_mode_name;
use crate::ast::cast_mode::CastMode;
use crate::ast::ty::law_prim_name_injective;
use crate::ast::ty::prim_name;
use crate::ast::ty::PrimitiveType;
use crate::lexer::allowed_as_identifier_start;
use crate::lexer::allowed_as_literal_start;
use crate::lexer::allowed_in_identifier;
use crate::lexer::allowed_in_literal;
use crate::lexer::boundary_at;
use crate::parser::roundtrip::spaced;
use crate::lexer::lit_outcome;
use crate::lexer::lit_token_text;
use crate::lexer::token_text;
use crate::lexer::LitKind;
use crate::lexer::LitOutcome;
use crate::lexer::LitView;
use crate::lexer::Token;
use crate::lexer::TokenView;
use crate::lexer::lemma_lex_step_progress;
use crate::lexer::lemma_run_end_bounds;
use crate::lexer::lex_step;
use crate::lexer::lex_trace;
use crate::lexer::lexes_fully;
use crate::lexer::look;
use crate::lexer::run_end;
use crate::lexer::run_ok;
use crate::lexer::token_matches;
use crate::lexer::LexStep;
use crate::lexer::Run;
use crate::lexer::TokenShape;
use crate::text::byte_off;
use crate::text::lemma_byte_off_step;
use crate::text::lemma_scalar_width;

verus! {

/// Whether every character of a text is ASCII, so that each takes one byte.
pub open spec fn ascii(s: Seq<char>) -> bool {
    forall|i: int| 0 <= i < s.len() ==> (#[trigger] s[i] as u32) < 0x80
}

/// A piece of an ASCII text is ASCII.
pub proof fn lemma_ascii_subrange(s: Seq<char>, i: int, j: int)
    requires
        ascii(s),
        0 <= i <= j <= s.len(),
    ensures
        ascii(s.subrange(i, j)),
{
    assert forall|k: int| 0 <= k < s.subrange(i, j).len() implies (#[trigger] s.subrange(i, j)[k]
        as u32) < 0x80 by {
        assert(s.subrange(i, j)[k] == s[i + k]);
    }
}

/// Two ASCII texts one after the other are ASCII.
pub proof fn lemma_ascii_concat(a: Seq<char>, b: Seq<char>)
    requires
        ascii(a),
        ascii(b),
    ensures
        ascii(a + b),
{
    assert forall|k: int| 0 <= k < (a + b).len() implies (#[trigger] (a + b)[k] as u32) < 0x80 by {
        if k < a.len() {
            assert((a + b)[k] == a[k]);
        } else {
            assert((a + b)[k] == b[k - a.len()]);
        }
    }
}

/// In ASCII text the byte offset of a position is the position.
pub proof fn lemma_ascii_byte_off(s: Seq<char>, j: int)
    requires
        ascii(s),
        0 <= j <= s.len(),
    ensures
        byte_off(s, j) == j,
    decreases j,
{
    if j == 0 {
        assert(s.take(0) =~= Seq::<char>::empty());
        assert(crate::text::byte_off(s, 0) == 0) by {
            assert(vstd::utf8::encode_utf8(Seq::<char>::empty()) =~= Seq::<u8>::empty());
        }
    } else {
        lemma_ascii_byte_off(s, j - 1);
        lemma_byte_off_step(s, j - 1);
        lemma_scalar_width(s[j - 1]);
        assert((s[j - 1] as u32) < 0x80);
    }
}

/// In ASCII text every position up to the end is a character boundary.
proof fn lemma_ascii_boundary(s: Seq<char>, j: int, target: int)
    requires
        ascii(s),
        0 <= j <= s.len(),
    ensures
        boundary_at(s, j, target) == if j <= target <= s.len() {
            Some(target)
        } else {
            None::<int>
        },
    decreases s.len() - j,
{
    lemma_ascii_byte_off(s, j);
    if j != target && j < target && j != s.len() {
        lemma_ascii_boundary(s, j + 1, target);
    }
}

/// A run in a text that follows another text ends where it ends in the text alone.
proof fn lemma_run_end_shift(a: Seq<char>, b: Seq<char>, q: int, r: Run)
    requires
        0 <= q <= b.len(),
    ensures
        run_end(a + b, a.len() + q, r) == a.len() + run_end(b, q, r),
    decreases b.len() - q,
{
    if q < b.len() {
        assert((a + b)[a.len() + q] == b[q]);
        if run_ok(r, b[q]) {
            lemma_run_end_shift(a, b, q + 1, r);
        }
    }
}

/// A lexing step moved on by `n` characters.
pub open spec fn shift_step(st: LexStep, n: int) -> LexStep {
    match st {
        LexStep::End { next } => LexStep::End { next: next + n },
        LexStep::Stuck => LexStep::Stuck,
        LexStep::Emit { shape, start, next, span_end } => LexStep::Emit {
            shape: match shape {
                TokenShape::Comment { text_end } => TokenShape::Comment { text_end: text_end + n },
                _ => shape,
            },
            start: start + n,
            next: next + n,
            span_end: span_end + n,
        },
    }
}

/// Where ASCII text follows another text, the lexer takes the same step in it as in the text
/// alone, moved on by the length of what stands before.
pub proof fn lemma_lex_step_shift(a: Seq<char>, b: Seq<char>, q: int)
    requires
        ascii(a + b),
        0 <= q <= b.len(),
    ensures
        lex_step(a + b, a.len() + q) == shift_step(lex_step(b, q), a.len() as int),
{
    let s = a + b;
    let n = a.len() as int;
    lemma_ascii_subrange(s, n, s.len() as int);
    assert(s.subrange(n, s.len() as int) =~= b);
    lemma_run_end_shift(a, b, q, Run::Whitespace);
    lemma_run_end_bounds(b, q, Run::Whitespace);
    let p = run_end(b, q, Run::Whitespace);
    lemma_ascii_byte_off(s, n + p);
    lemma_ascii_byte_off(b, p);
    if p < b.len() {
        assert(s[n + p] == b[p]);
        assert(look(s, n + p + 1) == look(b, p + 1)) by {
            if p + 1 < b.len() {
                assert(s[n + p + 1] == b[p + 1]);
            }
        }
        lemma_run_end_shift(a, b, p + 1, Run::LineText);
        lemma_run_end_shift(a, b, p + 1, Run::Dash);
        lemma_run_end_shift(a, b, p + 1, Run::Literal);
        lemma_run_end_shift(a, b, p + 1, Run::Identifier);
        lemma_run_end_bounds(b, p + 1, Run::LineText);
        lemma_run_end_bounds(b, p + 1, Run::Literal);
        let e = run_end(b, p + 1, Run::LineText);
        lemma_ascii_boundary(s, n + p, n + p + (e - p));
        lemma_ascii_boundary(b, p, p + (e - p));
        let el = run_end(b, p + 1, Run::Literal);
        assert(s.subrange(n + p, n + el) =~= b.subrange(p, el));
        if p + 1 < b.len() {
            assert(s[n + p + 1] == b[p + 1]);
        }
    }
}

/// Where ASCII text follows another text, the lexer emits the same steps in it as in the text
/// alone, moved on by the length of what stands before, and gets through it alike.
pub proof fn lemma_lex_trace_shift(a: Seq<char>, b: Seq<char>, q: int)
    requires
        ascii(a + b),
        0 <= q <= b.len(),
    ensures
        lex_trace(a + b, a.len() + q) == lex_trace(b, q).map_values(
            |st: LexStep| shift_step(st, a.len() as int),
        ),
        lexes_fully(a + b, a.len() + q) == lexes_fully(b, q),
    decreases b.len() - q,
{
    let n = a.len() as int;
    lemma_lex_step_shift(a, b, q);
    lemma_lex_step_progress(b, q);
    match lex_step(b, q) {
        LexStep::Emit { next, .. } => {
            lemma_lex_trace_shift(a, b, next);
            assert(lex_trace(a + b, n + q) == seq![lex_step(a + b, n + q)] + lex_trace(a + b, n + next));
            assert(lex_trace(b, q) == seq![lex_step(b, q)] + lex_trace(b, next));
            assert(lex_trace(a + b, n + q) =~= lex_trace(b, q).map_values(
                |st: LexStep| shift_step(st, n),
            ));
        },
        _ => {
            assert(lex_trace(a + b, n + q) =~= lex_trace(b, q).map_values(
                |st: LexStep| shift_step(st, n),
            ));
        },
    }
}

/// A token read from a piece of text that follows another is read alike from the piece alone.
pub proof fn lemma_token_matches_shift(a: Seq<char>, b: Seq<char>, shape: TokenShape, start: int, next: int, tok: Token)
    requires
        0 <= start <= next <= b.len(),
        shape matches TokenShape::Comment { text_end } ==> start + 1 <= text_end <= b.len(),
    ensures
        token_matches(a + b, match shape {
            TokenShape::Comment { text_end } => TokenShape::Comment { text_end: text_end + a.len() },
            _ => shape,
        }, start + a.len(), next + a.len(), tok) == token_matches(b, shape, start, next, tok),
{
    let n = a.len() as int;
    assert((a + b).subrange(start + n, next + n) =~= b.subrange(start, next));
    match shape {
        TokenShape::Comment { text_end } => {
            assert((a + b).subrange(start + n + 1, text_end + n) =~= b.subrange(start + 1, text_end));
        },
        _ => {},
    }
}

/// A run that every character from `a` up to `b` continues, and that the character at `b`
/// (if any) does not, ends at `b`.
proof fn lemma_run_end_exact(s: Seq<char>, a: int, b: int, r: Run)
    requires
        0 <= a <= b <= s.len(),
        forall|k: int| a <= k < b ==> run_ok(r, #[trigger] s[k]),
        b == s.len() || !run_ok(r, s[b]),
    ensures
        run_end(s, a, r) == b,
    decreases b - a,
{
    if a < b {
        lemma_run_end_exact(s, a + 1, b, r);
    }
}

/// The first character of a text, if any.
pub open spec fn first(s: Seq<char>) -> Option<char> {
    if s.len() > 0 {
        Some(s[0])
    } else {
        None
    }
}

/// Whether a word has the characters of an identifier.
pub open spec fn word_chars(w: Seq<char>) -> bool {
    &&& w.len() > 0
    &&& allowed_as_identifier_start(w[0])
    &&& forall|i: int| 0 <= i < w.len() ==> allowed_in_identifier(#[trigger] w[i])
}

/// Whether no primitive type is named by a word.
pub open spec fn no_prim_named(w: Seq<char>) -> bool {
    forall|q: PrimitiveType| #[trigger] prim_name(q) != w
}

/// Whether a text has the characters of a literal, and does not start as `---` does.
pub open spec fn lit_chars(t: Seq<char>) -> bool {
    &&& t.len() > 0
    &&& allowed_as_literal_start(t[0])
    &&& forall|i: int| 0 <= i < t.len() ==> allowed_in_literal(#[trigger] t[i])
    &&& !(t[0] == '-' && t.len() > 1 && t[1] == '-')
}

/// The literal token that the lexer reads from a literal's text, if it reads one.
pub open spec fn lit_view_of(t: Seq<char>) -> Option<LitView> {
    match lit_outcome(t) {
        LitOutcome::Whole(LitKind::Dec) => Some(LitView::Dec(t)),
        LitOutcome::Whole(LitKind::Hex) => Some(LitView::Hex(t)),
        LitOutcome::Whole(LitKind::Oct) => Some(LitView::Oct(t)),
        LitOutcome::Whole(LitKind::Bin) => Some(LitView::Bin(t)),
        LitOutcome::Whole(LitKind::Float) => Some(LitView::Float(t)),
        LitOutcome::Char => Some(LitView::Char(t.subrange(1, t.len() - 1))),
        _ => None,
    }
}

/// Whether the lexer reads the text of a token back as that token: its text is ASCII, a
/// comment holds no line break, a word is no keyword of another kind, and a literal's text is
/// read as that literal.
pub open spec fn tok_ok(v: TokenView) -> bool {
    &&& ascii(token_text(v))
    &&& match v {
        TokenView::Comment(c) => forall|i: int| 0 <= i < c.len() ==> (#[trigger] c[i]) != '\n' && c[i] != '\r',
        TokenView::Ident(x) => word_chars(x) && no_prim_named(x) && x != cast_mode_name(
            CastMode::Truncated,
        ) && x != cast_mode_name(CastMode::Saturated) && x != lit_token_text(LitView::Bool(true))
            && x != lit_token_text(LitView::Bool(false)),
        TokenView::PrimitiveType(p) => word_chars(prim_name(p)),
        TokenView::CastMode(m) => word_chars(cast_mode_name(m)) && no_prim_named(cast_mode_name(m)),
        TokenView::Lit(LitView::Bool(b)) => no_prim_named(lit_token_text(LitView::Bool(b))),
        TokenView::Lit(l) => lit_chars(lit_token_text(l)) && lit_view_of(lit_token_text(l)) == Some(l),
        _ => true,
    }
}

/// Whether the character after a token's text (if any) ends the token where its text ends.
pub open spec fn follow_ok(v: TokenView, f: Option<char>) -> bool {
    match f {
        None => true,
        Some(c) => match v {
            TokenView::Comment(_) => c == '\n' || c == '\r',
            TokenView::Ident(_) => !allowed_in_identifier(c),
            TokenView::PrimitiveType(_) => !allowed_in_identifier(c),
            TokenView::CastMode(_) => !allowed_in_identifier(c),
            TokenView::Lit(LitView::Bool(_)) => !allowed_in_identifier(c),
            TokenView::Lit(_) => !allowed_in_literal(c),
            TokenView::Less => c != '=',
            TokenView::ServiceResponseMarker => c != '-',
            _ => true,
        },
    }
}

/// Whether the step emits a token, and every token that fits it holds `v`.
pub open spec fn reads_as(s: Seq<char>, st: LexStep, v: TokenView) -> bool {
    &&& st is Emit
    &&& forall|tok: Token| #[trigger] token_matches(s, st->shape, st->start, st->Emit_next, tok) ==> tok@ == v
}

/// Whether a step emits a token within a text of length `len`: its characters, and for a
/// comment its text, lie in the text.
pub open spec fn step_in(st: LexStep, len: int) -> bool {
    &&& st matches LexStep::Emit { start, next, .. } && 0 <= start <= next <= len
    &&& st matches LexStep::Emit { shape: TokenShape::Comment { text_end }, start, .. } ==> start
        + 1 <= text_end <= len
}

/// Read as a word, the text of a word token gives that token.
proof fn lemma_word_reads_as(w: Seq<char>, v: TokenView)
    requires
        tok_ok(v),
        v is Ident || v is PrimitiveType || v is CastMode || (v matches TokenView::Lit(LitView::Bool(_))),
        w == token_text(v),
    ensures
        forall|tok: Token| #[trigger] crate::lexer::word_token(w, tok) ==> tok@ == v,
{
    assert forall|tok: Token| #[trigger] crate::lexer::word_token(w, tok) implies tok@ == v by {
        match v {
            TokenView::PrimitiveType(p) => {
                assert(prim_name(p) == w);
                if let Token::PrimitiveType(q) = tok {
                    law_prim_name_injective(q, p);
                }
            },
            _ => {},
        }
    }
}

/// The lexer reads a token's text, followed by a character that ends it, as that token.
pub proof fn lemma_single_step(v: TokenView, rest: Seq<char>)
    requires
        tok_ok(v),
        ascii(token_text(v) + rest),
        follow_ok(v, first(rest)),
    ensures
        lex_step(token_text(v) + rest, 0) matches LexStep::Emit { start, next, .. } && start == 0
            && next == token_text(v).len(),
        step_in(lex_step(token_text(v) + rest, 0), (token_text(v) + rest).len() as int),
        reads_as(token_text(v) + rest, lex_step(token_text(v) + rest, 0), v),
{
    let t = token_text(v);
    let x = t + rest;
    let n = t.len() as int;
    assert(n > 0) by {
        match v {
            TokenView::Comment(c) => {},
            TokenView::Lit(LitView::Bool(b)) => {},
            TokenView::Lit(l) => {},
            _ => {},
        }
    }
    assert(x[0] == t[0]);
    lemma_ascii_byte_off(x, 0);
    assert(run_end(x, 0, Run::Whitespace) == 0);
    if n < x.len() {
        assert(x[n] == rest[0]);
    }
    assert forall|k: int| 0 <= k < n implies #[trigger] x[k] == t[k] by {}
    match v {
        TokenView::Comment(c) => {
            assert forall|k: int| 1 <= k < n implies run_ok(Run::LineText, #[trigger] x[k]) by {
                assert(x[k] == c[k - 1]);
            }
            lemma_run_end_exact(x, 1, n, Run::LineText);
            lemma_ascii_boundary(x, 0, n);
            assert(x.subrange(1, n) =~= c);
        },
        TokenView::Ident(_) | TokenView::PrimitiveType(_) | TokenView::CastMode(_) | TokenView::Lit(LitView::Bool(_)) => {
            assert(word_chars(t)) by {
                match v {
                    TokenView::Lit(LitView::Bool(b)) => {
                        if b {
                            assert(t =~= seq!['t', 'r', 'u', 'e']);
                        } else {
                            assert(t =~= seq!['f', 'a', 'l', 's', 'e']);
                        }
                    },
                    TokenView::CastMode(m) => {},
                    _ => {},
                }
            }
            lemma_run_end_exact(x, 1, n, Run::Identifier);
            assert(x.subrange(0, n) =~= t);
            lemma_word_reads_as(t, v);
        },
        TokenView::Lit(l) => {
            lemma_run_end_exact(x, 1, n, Run::Literal);
            assert(x.subrange(0, n) =~= t);
            if n > 1 {
                assert(x[1] == t[1]);
            }
        },
        TokenView::ServiceResponseMarker => {
            lemma_run_end_exact(x, 1, 3, Run::Dash);
        },
        _ => {},
    }
}

/// A token read from a piece of text is read alike where the piece follows another text.
pub proof fn lemma_reads_as_shift(a: Seq<char>, b: Seq<char>, st: LexStep, v: TokenView)
    requires
        step_in(st, b.len() as int),
        reads_as(b, st, v),
    ensures
        step_in(shift_step(st, a.len() as int), (a + b).len() as int),
        reads_as(a + b, shift_step(st, a.len() as int), v),
{
    let sh = shift_step(st, a.len() as int);
    assert forall|tok: Token| #[trigger] token_matches(a + b, sh->shape, sh->start, sh->Emit_next, tok)
        implies tok@ == v by {
        lemma_token_matches_shift(a, b, st->shape, st->start, st->Emit_next, tok);
        assert(token_matches(b, st->shape, st->start, st->Emit_next, tok));
    }
}

/// The first character of a token's text, for each kind of token.
pub proof fn lemma_first_char(v: TokenView)
    requires
        tok_ok(v),
    ensures
        token_text(v).len() > 0,
        v is Eol ==> token_text(v)[0] == '\n',
        v is LeftBracket ==> token_text(v)[0] == '[',
        v is RightBracket ==> token_text(v)[0] == ']',
        v is Less || v is LessEq ==> token_text(v)[0] == '<',
        v is Eq ==> token_text(v)[0] == '=',
        v is DirectiveMarker ==> token_text(v)[0] == '@',
        v is ServiceResponseMarker ==> token_text(v)[0] == '-',
        v is Comment ==> token_text(v)[0] == '#',
        (v is Ident || v is PrimitiveType || v is CastMode || (v matches TokenView::Lit(LitView::Bool(_))))
            ==> allowed_as_identifier_start(token_text(v)[0]),
        (v is Lit && !(v matches TokenView::Lit(LitView::Bool(_)))) ==> allowed_as_literal_start(
            token_text(v)[0],
        ),
{
    match v {
        TokenView::Lit(LitView::Bool(b)) => {},
        _ => {},
    }
}

/// Whether a token may stand right before another in a laid-out text: a comment ends its
/// line, and `<` is not followed by `=`.
pub open spec fn pair_ok(a: TokenView, b: TokenView) -> bool {
    !(a is Comment && !(b is Eol)) && !(a is Less && b is Eq)
}

/// Whether each token of a sequence may stand right before the next.
pub open spec fn pairs_ok(ts: Seq<TokenView>) -> bool {
    forall|i: int| 0 <= i < ts.len() - 1 ==> pair_ok(#[trigger] ts[i], ts[i + 1])
}

/// The space between two neighbouring tokens of a text laid out line by line: one between
/// tokens of a line that are spaced, none at a line break.
pub open spec fn layout_gap(a: TokenView, b: TokenView) -> Seq<char> {
    if !(a is Eol) && !(b is Eol) && spaced(a, b) {
        seq![' ']
    } else {
        Seq::<char>::empty()
    }
}

/// The text of tokens laid out line by line: each token's text, with the gaps between them,
/// and a line break for each end of line.
pub open spec fn layout(ts: Seq<TokenView>) -> Seq<char>
    decreases ts.len(),
{
    if ts.len() == 0 {
        Seq::<char>::empty()
    } else if ts.len() == 1 {
        token_text(ts[0])
    } else {
        token_text(ts[0]) + layout_gap(ts[0], ts[1]) + layout(ts.drop_first())
    }
}

/// The character after a token in a laid-out text ends the token.
proof fn lemma_layout_follow(h: TokenView, r: TokenView)
    requires
        tok_ok(h),
        tok_ok(r),
        pair_ok(h, r),
    ensures
        follow_ok(h, first(layout_gap(h, r) + token_text(r))),
{
    lemma_first_char(r);
    let g = layout_gap(h, r);
    if g.len() == 0 {
        assert((g + token_text(r))[0] == token_text(r)[0]);
    } else {
        assert((g + token_text(r))[0] == ' ');
    }
}

/// Tokens laid out line by line are read back by the lexer as those tokens, where each
/// token's text is read back as the token and each may stand before the next.
pub proof fn lemma_layout_lexes(ts: Seq<TokenView>)
    requires
        forall|i: int| 0 <= i < ts.len() ==> tok_ok(#[trigger] ts[i]),
        pairs_ok(ts),
    ensures
        ascii(layout(ts)),
        lexes_fully(layout(ts), 0),
        lex_trace(layout(ts), 0).len() == ts.len(),
        forall|k: int| 0 <= k < ts.len() ==> step_in(#[trigger] lex_trace(layout(ts), 0)[k], layout(ts).len() as int),
        forall|k: int| 0 <= k < ts.len() ==> reads_as(layout(ts), #[trigger] lex_trace(layout(ts), 0)[k], ts[k]),
    decreases ts.len(),
{
    let x = layout(ts);
    if ts.len() == 0 {
        assert(run_end(x, 0, Run::Whitespace) == 0);
        assert(lex_step(x, 0) is End);
        assert(lex_trace(x, 0) =~= Seq::<LexStep>::empty());
    } else {
        let h = ts[0];
        let r = ts.drop_first();
        assert forall|i: int| 0 <= i < r.len() implies tok_ok(#[trigger] r[i]) by {
            assert(r[i] == ts[i + 1]);
        }
        assert forall|i: int| 0 <= i < r.len() - 1 implies pair_ok(#[trigger] r[i], r[i + 1]) by {
            assert(r[i] == ts[i + 1]);
            assert(r[i + 1] == ts[i + 2]);
        }
        lemma_layout_lexes(r);
        let t = token_text(h);
        let n = t.len() as int;
        lemma_first_char(h);
        let g = if r.len() > 0 {
            layout_gap(h, r[0])
        } else {
            Seq::<char>::empty()
        };
        let b = if r.len() > 0 {
            layout(r)
        } else {
            Seq::<char>::empty()
        };
        let a = t + g;
        assert(x =~= a + b);
        assert(x =~= t + (g + b));
        assert(ascii(g)) by {
            if g.len() > 0 {
                assert(g =~= seq![' ']);
            }
        }
        lemma_ascii_concat(t, g);
        lemma_ascii_concat(a, b);
        if r.len() > 0 {
            assert(pair_ok(ts[0], ts[1]));
            lemma_layout_follow(h, r[0]);
            lemma_first_char(r[0]);
            lemma_layout_starts(r);
            assert(first(g + b) == first(g + token_text(r[0]))) by {
                if g.len() == 0 {
                    assert((g + b)[0] == b[0]);
                    assert((g + token_text(r[0]))[0] == token_text(r[0])[0]);
                } else {
                    assert((g + b)[0] == g[0]);
                    assert((g + token_text(r[0]))[0] == g[0]);
                }
            }
        }
        lemma_single_step(h, g + b);
        let st0 = lex_step(x, 0);
        lemma_lex_step_progress(x, 0);
        assert(lex_trace(x, 0) == seq![st0] + lex_trace(x, n));
        // the gap is skipped as whitespace
        assert(run_end(x, n, Run::Whitespace) == run_end(x, a.len() as int, Run::Whitespace)) by {
            if g.len() > 0 {
                assert(g =~= seq![' ']);
                assert(x[n] == ' ');
            }
        }
        assert(lex_step(x, n) == lex_step(x, a.len() as int));
        lemma_lex_trace_shift(a, b, 0);
        lemma_lex_step_progress(x, a.len() as int);
        assert(lex_trace(x, n) == lex_trace(x, a.len() as int));
        assert(lexes_fully(x, n) == lexes_fully(x, a.len() as int));
        assert(lex_trace(b, 0).len() == r.len()) by {
            if r.len() == 0 {
                assert(run_end(b, 0, Run::Whitespace) == 0);
                assert(lex_trace(b, 0) =~= Seq::<LexStep>::empty());
            }
        }
        assert(lexes_fully(b, 0)) by {
            if r.len() == 0 {
                assert(run_end(b, 0, Run::Whitespace) == 0);
            }
        }
        assert forall|k: int| 0 <= k < ts.len() implies step_in(#[trigger] lex_trace(x, 0)[k], x.len() as int)
            && reads_as(x, lex_trace(x, 0)[k], ts[k]) by {
            if k > 0 {
                let st = lex_trace(b, 0)[k - 1];
                assert(lex_trace(x, 0)[k] == shift_step(st, a.len() as int));
                assert(ts[k] == r[k - 1]);
                lemma_reads_as_shift(a, b, st, r[k - 1]);
            }
        }
    }
}

/// A laid-out text starts with the text of its first token.
proof fn lemma_layout_starts(ts: Seq<TokenView>)
    requires
        ts.len() > 0,
    ensures
        layout(ts).len() >= token_text(ts[0]).len(),
        forall|k: int| 0 <= k < token_text(ts[0]).len() ==> #[trigger] layout(ts)[k] == token_text(ts[0])[k],
{
    if ts.len() > 1 {
        let t = token_text(ts[0]);
        assert(layout(ts) == t + layout_gap(ts[0], ts[1]) + layout(ts.drop_first()));
        assert forall|k: int| 0 <= k < t.len() implies #[trigger] layout(ts)[k] == t[k] by {
            assert((t + layout_gap(ts[0], ts[1]) + layout(ts.drop_first()))[k] == t[k]);
        }
    }
}

/// Every character of a run continues it, and the run ends in the text.
proof fn lemma_run_end_chars(s: Seq<char>, p: int, r: Run)
    requires
        0 <= p <= s.len(),
    ensures
        p <= run_end(s, p, r) <= s.len(),
        forall|k: int| p <= k < run_end(s, p, r) ==> run_ok(r, #[trigger] s[k]),
    decreases s.len() - p,
{
    if p < s.len() && run_ok(r, s[p]) {
        lemma_run_end_chars(s, p + 1, r);
    }
}

/// Every token that the lexer emits from ASCII text is read back from its own text.
pub proof fn lemma_step_tok_ok(s: Seq<char>, q: int, tok: Token)
    requires
        ascii(s),
        0 <= q <= s.len(),
        lex_step(s, q) is Emit,
        token_matches(s, lex_step(s, q)->shape, lex_step(s, q)->start, lex_step(s, q)->Emit_next, tok),
    ensures
        tok_ok(tok@),
{
    lemma_run_end_chars(s, q, Run::Whitespace);
    let p = run_end(s, q, Run::Whitespace);
    lemma_ascii_byte_off(s, p);
    let c = s[p];
    if p + 1 <= s.len() {
        lemma_run_end_chars(s, p + 1, Run::LineText);
        lemma_run_end_chars(s, p + 1, Run::Literal);
        lemma_run_end_chars(s, p + 1, Run::Identifier);
    }
    let v = tok@;
    if c == '#' {
        let e = run_end(s, p + 1, Run::LineText);
        lemma_ascii_boundary(s, p, p + (e - p));
        lemma_ascii_subrange(s, p, e);
        assert(token_text(v) =~= s.subrange(p, e));
    } else if c == '\r' && look(s, p + 1) == Some('\n') {
        lemma_ascii_subrange(s, p + 1, p + 2);
        assert(token_text(v) =~= s.subrange(p + 1, p + 2));
    } else if c == '\n' || c == '@' || c == '[' || c == ']' || c == '=' {
        lemma_ascii_subrange(s, p, p + 1);
        assert(token_text(v) =~= s.subrange(p, p + 1));
    } else if c == '-' && look(s, p + 1) == Some('-') {
        lemma_run_end_chars(s, p + 1, Run::Dash);
        lemma_ascii_subrange(s, p, p + 3);
        assert(token_text(v) =~= s.subrange(p, p + 3));
    } else if c == '<' && look(s, p + 1) == Some('=') {
        lemma_ascii_subrange(s, p, p + 2);
        assert(token_text(v) =~= s.subrange(p, p + 2));
    } else if c == '<' {
        lemma_ascii_subrange(s, p, p + 1);
        assert(token_text(v) =~= s.subrange(p, p + 1));
    } else if allowed_as_literal_start(c) {
        let e = run_end(s, p + 1, Run::Literal);
        let t = s.subrange(p, e);
        lemma_ascii_subrange(s, p, e);
        assert(t[0] == c);
        assert forall|i: int| 0 <= i < t.len() implies allowed_in_literal(#[trigger] t[i]) by {
            assert(t[i] == s[p + i]);
        }
        if t.len() > 1 {
            assert(t[1] == s[p + 1]);
        }
        assert(t != seq!['t', 'r', 'u', 'e'] && t != seq!['f', 'a', 'l', 's', 'e']) by {
            if t.len() > 0 {
                assert(seq!['t', 'r', 'u', 'e'][0] == 't');
                assert(seq!['f', 'a', 'l', 's', 'e'][0] == 'f');
            }
        }
        match lit_outcome(t) {
            LitOutcome::Char => {
                assert(token_text(v) =~= t);
            },
            _ => {
                assert(token_text(v) =~= t);
            },
        }
    } else {
        let e = run_end(s, p + 1, Run::Identifier);
        let w = s.subrange(p, e);
        lemma_ascii_subrange(s, p, e);
        assert(w[0] == c);
        assert forall|i: int| 0 <= i < w.len() implies allowed_in_identifier(#[trigger] w[i]) by {
            assert(w[i] == s[p + i]);
        }
        assert(token_text(v) =~= w);
    }
}

/// Every token that the lexer emits from ASCII text, from a position on, is read back from
/// its own text.
proof fn lemma_trace_tok_ok(s: Seq<char>, p: int)
    requires
        ascii(s),
        0 <= p <= s.len(),
    ensures
        forall|k: int, tok: Token| 0 <= k < lex_trace(s, p).len() && #[trigger] token_matches(
            s,
            lex_trace(s, p)[k]->shape,
            lex_trace(s, p)[k]->start,
            lex_trace(s, p)[k]->Emit_next,
            tok,
        ) ==> tok_ok(tok@),
    decreases s.len() - p,
{
    lemma_lex_step_progress(s, p);
    match lex_step(s, p) {
        LexStep::Emit { next, .. } => {
            lemma_trace_tok_ok(s, next);
            let tr = lex_trace(s, p);
            assert(tr == seq![lex_step(s, p)] + lex_trace(s, next));
            assert forall|k: int, tok: Token| 0 <= k < tr.len() && #[trigger] token_matches(
                s,
                tr[k]->shape,
                tr[k]->start,
                tr[k]->Emit_next,
                tok,
            ) implies tok_ok(tok@) by {
                if k == 0 {
                    lemma_step_tok_ok(s, p, tok);
                } else {
                    assert(tr[k] == lex_trace(s, next)[k - 1]);
                }
            }
        },
        _ => {},
    }
}

/// Every token of a lexing of ASCII text is read back from its own text.
pub proof fn lemma_lexing_tok_ok(s: Seq<char>, toks: Seq<(usize, Token, usize)>)
    requires
        ascii(s),
        crate::lexer::is_lexing_of(s, toks),
    ensures
        forall|k: int| 0 <= k < toks.len() ==> tok_ok(#[trigger] toks[k].1@),
{
    lemma_trace_tok_ok(s, 0);
    assert forall|k: int| 0 <= k < toks.len() implies tok_ok(#[trigger] toks[k].1@) by {
        let st = lex_trace(s, 0)[k];
        assert(crate::lexer::emitted(s, st, toks[k]));
        assert(token_matches(s, st->shape, st->start, st->Emit_next, toks[k].1));
    }
}

} // verus!
