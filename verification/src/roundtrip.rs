//! The round-trip law: when a token stream parses, the compact display of
//! the parsed expression is the canonical text of the tokens — children
//! separated by single spaces, parenthesized forms tight against their
//! parens, string literals printed without their quotes.

use vstd::prelude::*;

use crate::display::{display_chars, display_list_chars};
use crate::list::Cons;
use crate::numfmt::{float_chars, int_chars};
use crate::parse::{spec_parse_expr, spec_parse_list, PListStep, PStep};
use crate::types::{view_cons, view_sexps, Lexeme, Sexps, Sx};

verus! {

/// The canonical compact text of the expression whose tokens start at
/// `pos`: defined only where the grammar accepts the stream.
pub open spec fn render_expr(toks: Seq<Lexeme>, pos: int) -> Seq<char>
    decreases toks.len() - pos, 0int,
{
    if pos < 0 || pos >= toks.len() {
        Seq::empty()
    } else {
        match toks[pos] {
            Lexeme::OpenParen => "("@ + render_list(toks, pos + 1) + ")"@,
            Lexeme::CloseParen => Seq::empty(),
            Lexeme::Str(s) => s@,
            Lexeme::Sym(s) => s@,
            Lexeme::Int(n) => int_chars(n as int),
            Lexeme::Float(f) => float_chars(f),
            Lexeme::Quote(_) => Seq::empty(),
        }
    }
}

/// The canonical compact text of the children whose tokens start at `pos`,
/// up to the matching closing paren.
pub open spec fn render_list(toks: Seq<Lexeme>, pos: int) -> Seq<char>
    decreases toks.len() - pos, 1int,
{
    if pos < 0 || pos >= toks.len() {
        Seq::empty()
    } else {
        match toks[pos] {
            Lexeme::CloseParen => Seq::empty(),
            _ => match spec_parse_expr(toks, pos) {
                PStep::Val(_, next) => if pos < next <= toks.len() {
                    if next >= toks.len() {
                        render_expr(toks, pos)
                    } else {
                        match toks[next] {
                            Lexeme::CloseParen => render_expr(toks, pos),
                            _ => render_expr(toks, pos) + " "@ + render_list(toks, next),
                        }
                    }
                } else {
                    Seq::empty()
                },
                PStep::Fail(_, _) => Seq::empty(),
            },
        }
    }
}

/// An expression that parses from `pos` displays as the canonical text of
/// its tokens.
pub proof fn lemma_round_expr(toks: Seq<Lexeme>, pos: int, e: Sexps)
    requires
        spec_parse_expr(toks, pos) matches PStep::Val(x, _) && x == view_sexps(e),
    ensures
        display_chars(e) == render_expr(toks, pos),
    decreases toks.len() - pos, 0int,
{
    match toks[pos] {
        Lexeme::OpenParen => {
            match spec_parse_list(toks, pos + 1) {
                PListStep::Val(cs, _) => {
                    match e {
                        Sexps::Sub(l) => {
                            lemma_round_list(toks, pos + 1, *l);
                        }
                        _ => {}
                    }
                }
                PListStep::Fail(_, _) => {}
            }
        }
        _ => {
            match e {
                Sexps::Str(_) => {}
                Sexps::Int(_) => {}
                Sexps::Float(_) => {}
                Sexps::Var(_) => {}
                Sexps::Error(_) => {}
                Sexps::Sub(_) => {}
                Sexps::Lambda(_, _) => {}
                Sexps::Bool(_) => {}
            }
        }
    }
}

/// A child list that parses from `pos` displays as the canonical text of
/// its tokens.
pub proof fn lemma_round_list(toks: Seq<Lexeme>, pos: int, c: Cons<Sexps>)
    requires
        spec_parse_list(toks, pos) matches PListStep::Val(cs, _) && cs == view_cons(c),
    ensures
        display_list_chars(c) == render_list(toks, pos),
    decreases toks.len() - pos, 1int,
{
    if pos < 0 || pos >= toks.len() {
        // the grammar rejects a list that the stream ends inside
    } else {
        match toks[pos] {
            Lexeme::CloseParen => {
                match c {
                    Cons::Nil => {}
                    Cons::Cons(_, _) => {
                        assert(view_cons(c).len() >= 1);
                    }
                }
            }
            _ => {
                match spec_parse_expr(toks, pos) {
                    PStep::Val(x, next) => {
                        if pos < next <= toks.len() {
                            match spec_parse_list(toks, next) {
                                PListStep::Val(cs2, _) => {
                                    match c {
                                        Cons::Nil => {
                                            assert(view_cons(c).len() == 0);
                                            assert((seq![x] + cs2).len() >= 1);
                                        }
                                        Cons::Cons(h, t) => {
                                            let vc = seq![view_sexps(h)] + view_cons(*t);
                                            assert(view_cons(c) == vc);
                                            assert(vc[0] == view_sexps(h));
                                            assert((seq![x] + cs2)[0] == x);
                                            assert(view_sexps(h) == x);
                                            assert(view_cons(*t) =~= cs2) by {
                                                assert forall|i: int|
                                                    0 <= i < view_cons(*t).len() implies view_cons(
                                                    *t,
                                                )[i] == cs2[i] by {
                                                    assert(vc[i + 1] == view_cons(*t)[i]);
                                                    assert((seq![x] + cs2)[i + 1] == cs2[i]);
                                                }
                                            }
                                            lemma_round_expr(toks, pos, h);
                                            if next >= toks.len() {
                                                // a non-empty remainder is required: the list
                                                // must still reach its closing paren
                                                assert(spec_parse_list(toks, next)
                                                    matches PListStep::Fail(_, _));
                                            } else {
                                                match toks[next] {
                                                    Lexeme::CloseParen => {
                                                        assert(cs2 =~= Seq::<Sx>::empty());
                                                        match *t {
                                                            Cons::Nil => {}
                                                            Cons::Cons(_, _) => {
                                                                assert(view_cons(*t).len() >= 1);
                                                            }
                                                        }
                                                    }
                                                    _ => {
                                                        lemma_round_list(toks, next, *t);
                                                        match *t {
                                                            Cons::Nil => {
                                                                assert(cs2.len() == 0);
                                                                assert(spec_parse_list(toks, next)
                                                                    matches PListStep::Val(
                                                                    inner,
                                                                    _,
                                                                ) ==> inner.len() >= 1);
                                                            }
                                                            Cons::Cons(_, _) => {}
                                                        }
                                                    }
                                                }
                                            }
                                        }
                                    }
                                }
                                PListStep::Fail(_, _) => {}
                            }
                        }
                    }
                    PStep::Fail(_, _) => {}
                }
            }
        }
    }
}

/// The round-trip law: a token stream accepted by the grammar prints back,
/// through the compact display of its parsed expression, as exactly the
/// canonical text of its tokens.
pub proof fn lemma_parse_display_round_trip(toks: Seq<Lexeme>, e: Sexps)
    requires
        spec_parse_expr(toks, 0) matches PStep::Val(x, _) && x == view_sexps(e),
    ensures
        display_chars(e) == render_expr(toks, 0),
{
    lemma_round_expr(toks, 0, e);
}

/// The round-trip law at the public parser: whenever `parse` succeeds on a
/// token stream, the expression it hands back displays as exactly the
/// canonical text of the tokens.
pub proof fn lemma_parse_ok_displays_tokens(toks: Seq<Lexeme>, e: Sexps)
    requires
        crate::parse::spec_parse(toks) matches Ok(x) && x == view_sexps(e),
    ensures
        display_chars(e) == render_expr(toks, 0),
{
    crate::parse::lemma_parse_first_form(toks);
    lemma_round_expr(toks, 0, e);
}

} // verus!
