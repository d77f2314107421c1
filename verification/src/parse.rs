//! The parser: a fully-parenthesized grammar over the token stream. The
//! grammar is stated as recursive specification functions over the token
//! sequence, and the executable parser is proved to follow them exactly,
//! reporting each structural defect with the position where the input
//! diverged.

use vstd::prelude::*;

use crate::list::Cons;
use crate::types::{view_cons, view_sexps, Lexeme, ParseFail, ParseResult, Sexps, Sx};

verus! {

/// The outcome of parsing one expression: its model and the position just
/// past it, or a failure kind and position.
pub enum PStep {
    Val(Sx, int),
    Fail(ParseFail, int),
}

/// The outcome of parsing the children of a parenthesized form up to and
/// including the closing paren.
pub enum PListStep {
    Val(Seq<Sx>, int),
    Fail(ParseFail, int),
}

/// Parses one expression starting at `pos`: an atom token stands for
/// itself, an opening paren starts a parenthesized form, a closing paren
/// here is an unmatched extra one, a quote marker is not part of this
/// grammar, and a missing token means the stream ended too early.
pub open spec fn spec_parse_expr(toks: Seq<Lexeme>, pos: int) -> PStep
    decreases toks.len() - pos, 0int,
{
    if pos < 0 || pos >= toks.len() {
        PStep::Fail(ParseFail::NoEndParen, toks.len() as int)
    } else {
        match toks[pos] {
            Lexeme::OpenParen => match spec_parse_list(toks, pos + 1) {
                PListStep::Val(cs, next) => PStep::Val(Sx::Sub(cs), next),
                PListStep::Fail(f, p) => PStep::Fail(f, p),
            },
            Lexeme::CloseParen => PStep::Fail(ParseFail::ExtraCloseParen, pos),
            Lexeme::Str(s) => PStep::Val(Sx::Str(s@), pos + 1),
            Lexeme::Sym(s) => PStep::Val(Sx::Var(s@), pos + 1),
            Lexeme::Int(n) => PStep::Val(Sx::Int(n as int), pos + 1),
            Lexeme::Float(f) => PStep::Val(Sx::Float(f), pos + 1),
            Lexeme::Quote(_) => PStep::Fail(ParseFail::BadLexeme, pos),
        }
    }
}

/// Parses children until the matching closing paren; the stream ending
/// before that paren is the missing-close-paren defect, reported at the
/// position one past the last token.
pub open spec fn spec_parse_list(toks: Seq<Lexeme>, pos: int) -> PListStep
    decreases toks.len() - pos, 1int,
{
    if pos < 0 || pos >= toks.len() {
        PListStep::Fail(ParseFail::NoEndParen, toks.len() as int)
    } else {
        match toks[pos] {
            Lexeme::CloseParen => PListStep::Val(Seq::empty(), pos + 1),
            _ => match spec_parse_expr(toks, pos) {
                PStep::Val(x, next) => if pos < next <= toks.len() {
                    match spec_parse_list(toks, next) {
                        PListStep::Val(cs, after) => PListStep::Val(seq![x] + cs, after),
                        PListStep::Fail(f, p) => PListStep::Fail(f, p),
                    }
                } else {
                    PListStep::Fail(ParseFail::ChildParseFail, pos)
                },
                PStep::Fail(f, p) => PListStep::Fail(f, p),
            },
        }
    }
}

/// A successful parse consumes at least one token and never runs past the
/// end of the stream.
pub proof fn lemma_parse_advances(toks: Seq<Lexeme>, pos: int)
    ensures
        spec_parse_expr(toks, pos) matches PStep::Val(_, next) ==> pos < next <= toks.len(),
        spec_parse_list(toks, pos) matches PListStep::Val(_, next) ==> pos < next <= toks.len(),
    decreases toks.len() - pos,
{
    if 0 <= pos < toks.len() {
        match toks[pos] {
            Lexeme::OpenParen => {
                lemma_parse_advances(toks, pos + 1);
            }
            _ => {}
        }
        match spec_parse_expr(toks, pos) {
            PStep::Val(_, next) => {
                if pos < next <= toks.len() {
                    lemma_parse_advances(toks, next);
                }
            }
            PStep::Fail(_, _) => {}
        }
    }
}

/// Parses one expression from `pos`, returning the expression and the
/// position just past it, or the failure the grammar assigns.
pub fn parse_expr(tokens: &Vec<Lexeme>, pos: usize) -> (r: Result<
    (Sexps, usize),
    (ParseFail, usize),
>)
    requires
        pos <= tokens@.len(),
    ensures
        r matches Ok(p) ==> spec_parse_expr(tokens@, pos as int) == PStep::Val(
            view_sexps(p.0),
            p.1 as int,
        ),
        r matches Err(e) ==> spec_parse_expr(tokens@, pos as int) == PStep::Fail(
            e.0,
            e.1 as int,
        ),
    decreases tokens@.len() - pos, 0int,
{
    if pos >= tokens.len() {
        return Err((ParseFail::NoEndParen, tokens.len()));
    }
    match &tokens[pos] {
        Lexeme::OpenParen => match parse_list(tokens, pos + 1) {
            Ok((c, next)) => Ok((Sexps::Sub(Box::new(c)), next)),
            Err(e) => Err(e),
        },
        Lexeme::CloseParen => Err((ParseFail::ExtraCloseParen, pos)),
        Lexeme::Str(s) => Ok((Sexps::Str(s.clone()), pos + 1)),
        Lexeme::Sym(s) => Ok((Sexps::Var(s.clone()), pos + 1)),
        Lexeme::Int(n) => Ok((Sexps::Int(*n), pos + 1)),
        Lexeme::Float(f) => Ok((Sexps::Float(*f), pos + 1)),
        Lexeme::Quote(_) => Err((ParseFail::BadLexeme, pos)),
    }
}

/// Parses children up to and including the matching closing paren.
pub fn parse_list(tokens: &Vec<Lexeme>, pos: usize) -> (r: Result<
    (Cons<Sexps>, usize),
    (ParseFail, usize),
>)
    requires
        pos <= tokens@.len(),
    ensures
        r matches Ok(p) ==> spec_parse_list(tokens@, pos as int) == PListStep::Val(
            view_cons(p.0),
            p.1 as int,
        ),
        r matches Err(e) ==> spec_parse_list(tokens@, pos as int) == PListStep::Fail(
            e.0,
            e.1 as int,
        ),
    decreases tokens@.len() - pos, 1int,
{
    if pos >= tokens.len() {
        return Err((ParseFail::NoEndParen, tokens.len()));
    }
    if let Lexeme::CloseParen = &tokens[pos] {
        proof {
            assert(view_cons(Cons::Nil) =~= Seq::<Sx>::empty());
        }
        return Ok((Cons::Nil, pos + 1));
    }
    match parse_expr(tokens, pos) {
        Err(e) => Err(e),
        Ok((x, next)) => {
            proof {
                lemma_parse_advances(tokens@, pos as int);
            }
            match parse_list(tokens, next) {
                Err(e) => Err(e),
                Ok((rest, after)) => {
                    let r = Cons::Cons(x, Box::new(rest));
                    proof {
                        assert(view_cons(r) =~= seq![view_sexps(x)] + view_cons(rest));
                    }
                    Ok((r, after))
                }
            }
        }
    }
}

/// The models and start positions of the top-level forms of the whole
/// stream, or the failure the grammar assigns to the first defect.
pub open spec fn spec_parse_all(toks: Seq<Lexeme>, pos: int) -> Result<
    Seq<(Sx, int)>,
    (ParseFail, int),
>
    decreases toks.len() - pos,
{
    if pos < 0 || pos >= toks.len() {
        Ok(Seq::empty())
    } else {
        match spec_parse_expr(toks, pos) {
            PStep::Val(x, next) => if pos < next <= toks.len() {
                match spec_parse_all(toks, next) {
                    Ok(rest) => Ok(seq![(x, pos)] + rest),
                    Err(e) => Err(e),
                }
            } else {
                Err((ParseFail::ChildParseFail, pos))
            },
            PStep::Fail(f, p) => Err((f, p)),
        }
    }
}

/// What a whole-stream parse yields: the first top-level form, the
/// missing-start defect for an empty stream, or the first structural
/// defect found anywhere in the stream.
pub open spec fn spec_parse(toks: Seq<Lexeme>) -> Result<Sx, (ParseFail, int)> {
    match spec_parse_all(toks, 0) {
        Ok(forms) => if forms.len() == 0 {
            Err((ParseFail::NoStartParen, 0))
        } else {
            Ok(forms[0].0)
        },
        Err(e) => Err(e),
    }
}

/// A whole-stream parse that succeeds returns exactly what parsing one
/// expression at the start of the stream yields.
pub proof fn lemma_parse_first_form(toks: Seq<Lexeme>)
    ensures
        spec_parse(toks) matches Ok(x) ==> (spec_parse_expr(toks, 0) matches PStep::Val(y, _) && y
            == x),
{
    if toks.len() > 0 {
        match spec_parse_expr(toks, 0) {
            PStep::Val(_, _) => {}
            PStep::Fail(_, _) => {}
        }
    }
}

/// The models and start positions of a parsed form vector.
pub open spec fn forms_view(v: Seq<(Sexps, usize)>) -> Seq<(Sx, int)> {
    v.map_values(|p: (Sexps, usize)| (view_sexps(p.0), p.1 as int))
}

/// Parses every top-level form of the stream, pairing each with its start
/// position; fails on the first structural defect anywhere in the stream.
pub fn parse_forms(tokens: &Vec<Lexeme>) -> (r: Result<Vec<(Sexps, usize)>, (ParseFail, usize)>)
    ensures
        r matches Ok(v) ==> spec_parse_all(tokens@, 0) == Ok::<_, (ParseFail, int)>(
            forms_view(v@),
        ),
        r matches Err(e) ==> spec_parse_all(tokens@, 0) == Err::<Seq<(Sx, int)>, _>(
            (e.0, e.1 as int),
        ),
{
    let mut forms: Vec<(Sexps, usize)> = Vec::new();
    let mut pos: usize = 0;
    proof {
        assert(forms_view(forms@) =~= Seq::<(Sx, int)>::empty());
    }
    while pos < tokens.len()
        invariant
            pos <= tokens@.len(),
            spec_parse_all(tokens@, 0) == (match spec_parse_all(tokens@, pos as int) {
                Ok(rest) => Ok::<_, (ParseFail, int)>(forms_view(forms@) + rest),
                Err(e) => Err::<Seq<(Sx, int)>, _>(e),
            }),
        decreases tokens@.len() - pos,
    {
        match parse_expr(tokens, pos) {
            Err(e) => {
                return Err(e);
            }
            Ok((x, next)) => {
                proof {
                    lemma_parse_advances(tokens@, pos as int);
                }
                let ghost old_forms = forms@;
                forms.push((x, pos));
                proof {
                    let step = seq![(view_sexps(x), pos as int)];
                    assert(forms_view(forms@) =~= forms_view(old_forms) + step);
                    match spec_parse_all(tokens@, next as int) {
                        Ok(rest) => {
                            assert((forms_view(old_forms) + step) + rest =~= forms_view(old_forms)
                                + (step + rest));
                        }
                        Err(_) => {}
                    }
                }
                pos = next;
            }
        }
    }
    proof {
        assert(forms_view(forms@) + Seq::<(Sx, int)>::empty() =~= forms_view(forms@));
    }
    Ok(forms)
}

/// Parses the token stream: validates the whole stream against the
/// grammar and returns its first top-level form; an empty stream has no
/// form to return, and any structural defect anywhere in the stream is
/// reported with its position.
pub fn parse(tokens: &Vec<Lexeme>) -> (r: ParseResult)
    ensures
        r matches Ok(e) ==> spec_parse(tokens@) == Ok::<_, (ParseFail, int)>(view_sexps(e)),
        r matches Err(q) ==> spec_parse(tokens@) == Err::<Sx, _>((q.0, q.1 as int)),
{
    match parse_forms(tokens) {
        Err(e) => Err(e),
        Ok(mut v) => {
            if v.len() == 0 {
                Err((ParseFail::NoStartParen, 0))
            } else {
                let (e, _) = v.remove(0);
                Ok(e)
            }
        }
    }
}

} // verus!
