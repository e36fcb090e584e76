//! Parsing type definitions: messages, and services with their `---` line.

use vstd::prelude::*;
use crate::ast::line::Line;
use crate::ast::type_definition::MessageDefinition;
use crate::ast::type_definition::ServiceDefinition;
use crate::ast::type_definition::TypeDefinition;
use crate::lexer::Token;
use crate::lexer::TokenView;
use crate::parser::error::ParseError;
use crate::parser::grammar::definition_as_read;
use crate::parser::grammar::lemma_line_tokens_plain;
use crate::parser::grammar::lines_as_read;
use crate::parser::grammar::lemma_lines_of_cons;
use crate::parser::grammar::lemma_lines_of_type_definition;
use crate::parser::grammar::lemma_next_eol_bounds;
use crate::parser::grammar::line_tokens;
use crate::parser::grammar::lines_of;
use crate::parser::grammar::lines_token_seqs;
use crate::parser::grammar::lines_tokens;
use crate::parser::grammar::next_eol;
use crate::parser::grammar::no_eol;
use crate::parser::grammar::type_definition_tokens;
use crate::parser::grammar::read_line;
use crate::parser::lines::line_error;
use crate::parser::lines::parse_line;
use crate::parser::lines::segment;
use crate::parser::lines::token_views;
use crate::parser::lines::SpannedToken;

verus! {

/// The tokens, with an end of line added when the last line has none.
pub open spec fn terminated(t: Seq<TokenView>) -> Seq<TokenView> {
    if t.len() > 0 && !(t.last() is Eol) {
        t.push(TokenView::Eol)
    } else {
        t
    }
}

/// Whether a token sequence is empty or ends with an end of line.
pub open spec fn is_terminated(t: Seq<TokenView>) -> bool {
    t.len() == 0 || t.last() is Eol
}

/// The pieces, each followed by an end of line.
pub open spec fn unlines(segs: Seq<Seq<TokenView>>) -> Seq<TokenView>
    decreases segs.len(),
{
    if segs.len() == 0 {
        Seq::<TokenView>::empty()
    } else {
        segs[0] + seq![TokenView::Eol] + unlines(segs.drop_first())
    }
}

/// A terminated token sequence is its lines, each followed by an end of line.
proof fn lemma_unlines_lines_of(t: Seq<TokenView>)
    requires
        is_terminated(t),
    ensures
        unlines(lines_of(t)) == t,
    decreases t.len(),
{
    if t.len() > 0 {
        lemma_next_eol_bounds(t, 0);
        let e = next_eol(t, 0);
        if e >= t.len() {
            assert(t[t.len() - 1] is Eol);
            assert(false);
        }
        let rest = t.skip(e + 1);
        assert(rest.len() > 0 ==> rest.last() == t.last());
        lemma_unlines_lines_of(rest);
        let segs = lines_of(t);
        assert(segs == seq![t.take(e)] + lines_of(rest));
        assert(segs.drop_first() =~= lines_of(rest));
        assert(t =~= t.take(e) + seq![TokenView::Eol] + rest);
    }
}

/// Terminating tokens gives a terminated sequence.
proof fn lemma_terminated(t: Seq<TokenView>)
    ensures
        is_terminated(terminated(t)),
{
}

/// The tokens of a type definition are terminated.
proof fn lemma_type_definition_terminated(t: TypeDefinition)
    ensures
        is_terminated(type_definition_tokens(t)),
{
    lemma_lines_of_type_definition(t);
    match t {
        TypeDefinition::Message(m) => lemma_lines_tokens_terminated(m.0@),
        TypeDefinition::Service(s) => {
            lemma_lines_tokens_terminated(s.response.0@);
            let a = lines_tokens(s.request.0@) + seq![TokenView::ServiceResponseMarker, TokenView::Eol];
            assert(type_definition_tokens(t) == a + lines_tokens(s.response.0@));
        },
    }
}

/// The tokens of lines are terminated.
proof fn lemma_lines_tokens_terminated(ls: Seq<Line>)
    ensures
        is_terminated(lines_tokens(ls)),
    decreases ls.len(),
{
    if ls.len() > 0 {
        lemma_lines_tokens_terminated(ls.drop_first());
        let a = line_tokens(ls[0]) + seq![TokenView::Eol];
        assert(lines_tokens(ls) == a + lines_tokens(ls.drop_first()));
    }
}

/// The position of the first end of line from `pos` on, or the number of tokens.
fn find_eol(toks: &[SpannedToken], pos: usize) -> (e: usize)
    requires
        pos <= toks@.len(),
    ensures
        e as int == next_eol(token_views(toks@), pos as int),
        pos <= e <= toks@.len(),
{
    let ghost tv = token_views(toks@);
    let mut i = pos;
    while i < toks.len()
        invariant
            pos <= i <= toks@.len(),
            tv == token_views(toks@),
            next_eol(tv, pos as int) == next_eol(tv, i as int),
        decreases toks@.len() - i,
    {
        assert(tv[i as int] == toks@[i as int].1@);
        if matches!(toks[i].1, Token::Eol) {
            return i;
        }
        i = i + 1;
    }
    i
}

/// The index of a lone `---` among the lines of a type definition, if there is one.
proof fn lemma_marker_unique(t: TypeDefinition, j: int)
    requires
        0 <= j < lines_of(type_definition_tokens(t)).len(),
        lines_of(type_definition_tokens(t))[j] == seq![TokenView::ServiceResponseMarker],
    ensures
        t matches TypeDefinition::Service(s) && j == s.request.0@.len(),
{
    lemma_lines_of_type_definition(t);
    let segs = lines_of(type_definition_tokens(t));
    match t {
        TypeDefinition::Message(m) => {
            lemma_line_tokens_plain(m.0@[j]);
        },
        TypeDefinition::Service(s) => {
            let r = s.request.0@.len() as int;
            if j < r {
                lemma_line_tokens_plain(s.request.0@[j]);
            } else if j > r {
                lemma_line_tokens_plain(s.response.0@[j - r - 1]);
            }
        },
    }
}

/// Whether `e` is the error met reading the lines of `toks` from position `pos` on, the
/// first lone `---` having been met already where `service` holds: the error of the first line
/// whose tokens form no line, the first lone `---` aside, as `parse_line` reports it.
pub open spec fn first_line_error(toks: Seq<SpannedToken>, pos: int, service: bool, e: ParseError) -> bool
    decreases toks.len() + 1 - pos,
{
    if pos < 0 || pos >= toks.len() {
        false
    } else {
        let end = next_eol(token_views(toks), pos);
        let seg = segment(toks, pos, end);
        proof {
            assert(token_views(toks).len() == toks.len());
            lemma_next_eol_bounds(token_views(toks), pos);
        }
        if !service && seg == seq![TokenView::ServiceResponseMarker] {
            first_line_error(toks, end + 1, true, e)
        } else if exists|l: Line| line_tokens(l) == seg {
            first_line_error(toks, end + 1, service, e)
        } else {
            line_error(toks, pos, read_line(seg)->Err_0, e)
        }
    }
}

/// What parsing the tokens `toks` as a type definition gives: a definition whose tokens they
/// are (with an end of line after a last line that has none), exactly when there is one; else
/// the error of the first line that is no line.
pub open spec fn parse_outcome(toks: Seq<SpannedToken>, r: Result<TypeDefinition, ParseError>) -> bool {
    &&& r matches Ok(t) ==> type_definition_tokens(t) == terminated(token_views(toks))
    &&& r matches Ok(t) ==> definition_as_read(t)
    &&& r is Ok <==> exists|t: TypeDefinition| type_definition_tokens(t) == terminated(token_views(toks))
    &&& r matches Err(e) ==> first_line_error(toks, 0, false, e)
}

/// Parses the tokens of a type definition: lines, and for a service a line holding only `---`
/// between its request and its response part. A last line without an end of line is read as if
/// it had one.
pub fn parse_type_definition(toks: &[SpannedToken]) -> (r: Result<TypeDefinition, ParseError>)
    ensures
        r matches Ok(t) ==> type_definition_tokens(t) == terminated(token_views(toks@)),
        r is Ok <==> exists|t: TypeDefinition|
            type_definition_tokens(t) == terminated(token_views(toks@)),
        r matches Err(e) ==> first_line_error(toks@, 0, false, e),
        r matches Ok(t) ==> definition_as_read(t),
{
    let ghost tv = token_views(toks@);
    let ghost big = terminated(tv);
    let n = toks.len();
    let mut pos: usize = 0;
    let mut first: Vec<Line> = Vec::new();
    let mut second: Vec<Line> = Vec::new();
    let mut service = false;
    let ghost mut done: Seq<Seq<TokenView>> = Seq::empty();
    let ghost mut rest: Seq<TokenView> = big;
    assert(big.skip(0) =~= big);
    while pos < n
        invariant
            pos <= n == toks@.len(),
            tv == token_views(toks@),
            big == terminated(tv),
            lines_of(big) == done + lines_of(rest),
            pos < n ==> rest == big.skip(pos as int),
            pos == n ==> rest.len() == 0,
            !service ==> done == lines_token_seqs(first@) && second@.len() == 0,
            service ==> done == lines_token_seqs(first@) + seq![
                seq![TokenView::ServiceResponseMarker],
            ] + lines_token_seqs(second@),
            service ==> done[first@.len() as int] == seq![TokenView::ServiceResponseMarker],
            service ==> done.len() == first@.len() + 1 + second@.len(),
            lines_as_read(first@),
            lines_as_read(second@),
            forall|er: ParseError| first_line_error(toks@, 0, false, er) == #[trigger] first_line_error(
                toks@,
                pos as int,
                service,
                er,
            ),
        decreases n - pos,
    {
        let ghost old_pos = pos;
        let ghost old_service = service;
        let e = find_eol(toks, pos);
        proof {
            lemma_next_eol_bounds(tv, pos as int);
        }
        let ghost seg = segment(toks@, pos as int, e as int);
        assert(no_eol(seg)) by {
            assert forall|i: int| 0 <= i < seg.len() implies !(#[trigger] seg[i] is Eol) by {
                assert(seg[i] == tv[pos + i]);
            }
        }
        let ghost next_rest = if e < n {
            big.skip(e + 1)
        } else {
            Seq::<TokenView>::empty()
        };
        proof {
            if e < n {
                assert(rest =~= seg + seq![TokenView::Eol] + next_rest);
            } else {
                assert(tv.last() == tv[n - 1]);
                assert(!(tv[n - 1] is Eol));
                assert(rest =~= seg + seq![TokenView::Eol] + next_rest);
            }
            lemma_lines_of_cons(seg, next_rest);
        }
        let is_marker = e == pos + 1 && matches!(toks[pos].1, Token::ServiceResponseMarker);
        proof {
            if e == pos + 1 {
                assert(seg[0] == tv[pos as int]);
                if is_marker {
                    assert(seg =~= seq![TokenView::ServiceResponseMarker]);
                } else {
                    assert(seg != seq![TokenView::ServiceResponseMarker]);
                }
            } else {
                assert(seg.len() != 1);
            }
        }
        if is_marker && !service {
            service = true;
            proof {
                done = done + seq![seg];
                rest = next_rest;
                assert(done =~= lines_token_seqs(first@) + seq![
                    seq![TokenView::ServiceResponseMarker],
                ] + lines_token_seqs(second@));
            }
        } else {
            match parse_line(toks, pos, e) {
                Ok(l) => {
                    let ghost old_done = done;
                    if service {
                        second.push(l);
                        proof {
                            assert(lines_token_seqs(second@) =~= lines_token_seqs(
                                second@.drop_last(),
                            ).push(line_tokens(l)));
                        }
                    } else {
                        first.push(l);
                        proof {
                            assert(lines_token_seqs(first@) =~= lines_token_seqs(
                                first@.drop_last(),
                            ).push(line_tokens(l)));
                        }
                    }
                    proof {
                        done = done + seq![seg];
                        rest = next_rest;
                        if service {
                            assert(done =~= lines_token_seqs(first@) + seq![
                                seq![TokenView::ServiceResponseMarker],
                            ] + lines_token_seqs(second@));
                            assert(done[first@.len() as int] == old_done[first@.len() as int]);
                        } else {
                            assert(done =~= lines_token_seqs(first@));
                        }
                    }
                },
                Err(err) => {
                    proof {
                        assert forall|t: TypeDefinition| type_definition_tokens(t) != big by {
                            if type_definition_tokens(t) == big {
                                lemma_lines_of_type_definition(t);
                                let k = done.len() as int;
                                let segs = lines_of(big);
                                assert(segs[k] == seg);
                                match t {
                                    TypeDefinition::Message(m) => {
                                        assert(segs == lines_token_seqs(m.0@));
                                        assert(segs.len() == m.0@.len());
                                        assert(segs[k] == line_tokens(m.0@[k]));
                                    },
                                    TypeDefinition::Service(s) => {
                                        let rl = s.request.0@.len() as int;
                                        if k < rl {
                                            let req_segs = lines_token_seqs(s.request.0@);
                                            assert(segs == req_segs + seq![
                                                seq![TokenView::ServiceResponseMarker],
                                            ] + lines_token_seqs(s.response.0@));
                                            assert(segs[k] == req_segs[k]);
                                            assert(segs[k] == line_tokens(s.request.0@[k]));
                                        } else if k > rl {
                                            let req_segs = lines_token_seqs(s.request.0@);
                                            let resp_segs = lines_token_seqs(s.response.0@);
                                            assert(segs == req_segs + seq![
                                                seq![TokenView::ServiceResponseMarker],
                                            ] + resp_segs);
                                            assert(segs.len() == rl + 1 + resp_segs.len());
                                            assert(segs[k] == resp_segs[k - rl - 1]);
                                            assert(segs[k] == line_tokens(s.response.0@[k - rl - 1]));
                                        } else {
                                            if service {
                                                let j = first@.len() as int;
                                                assert(segs[j] == seq![TokenView::ServiceResponseMarker]);
                                                lemma_marker_unique(t, j);
                                            }
                                        }
                                    },
                                }
                            }
                        }
                    }
                    proof {
                        assert(token_views(toks@).len() == toks@.len());
                        assert(next_eol(token_views(toks@), pos as int) == e);
                        assert(segment(toks@, pos as int, e as int) == seg);
                        assert(first_line_error(toks@, pos as int, service, err));
                    }
                    return Err(err);
                },
            }
        }
        if e < n {
            pos = e + 1;
            proof {
                if pos < n {
                    assert(rest =~= big.skip(pos as int));
                } else {
                    assert(big.len() == n);
                    assert(rest.len() == 0);
                }
            }
        } else {
            pos = n;
        }
        proof {
            assert(token_views(toks@).len() == toks@.len());
            assert forall|er: ParseError| first_line_error(toks@, old_pos as int, old_service, er)
                == #[trigger] first_line_error(toks@, pos as int, service, er) by {
                assert(next_eol(token_views(toks@), old_pos as int) == e);
                assert(segment(toks@, old_pos as int, e as int) == seg);
                if !(is_marker && !old_service) {
                    assert(exists|l: Line| line_tokens(l) == seg);
                }
                if e as int >= n {
                    assert(!first_line_error(toks@, e + 1, service, er));
                    assert(!first_line_error(toks@, n as int, service, er));
                }
            }
        }
    }
    proof {
        assert(lines_of(rest) =~= Seq::<Seq<TokenView>>::empty());
        assert(done + Seq::<Seq<TokenView>>::empty() =~= done);
    }
    let result = if service {
        TypeDefinition::Service(
            ServiceDefinition { request: MessageDefinition(first), response: MessageDefinition(second) },
        )
    } else {
        TypeDefinition::Message(MessageDefinition(first))
    };
    proof {
        lemma_lines_of_type_definition(result);
        lemma_type_definition_terminated(result);
        lemma_terminated(tv);
        lemma_unlines_lines_of(type_definition_tokens(result));
        lemma_unlines_lines_of(big);
    }
    Ok(result)
}

} // verus!
