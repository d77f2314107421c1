//! The s-expression data model: the tagged union of evaluable entities, the
//! lex/parse/eval failure taxonomy, shallow structural equality, and the
//! argument-extraction routines that let consumers take the model apart
//! safely.

use vstd::prelude::*;

use crate::list::Cons;
use crate::numfmt::{spec_float_of_int, float_of_int, FloatLit};

verus! {

/// One token handed over by the lexer.
pub enum Lexeme {
    OpenParen,
    CloseParen,
    Str(String),
    Sym(String),
    Int(i64),
    Float(FloatLit),
    Quote(char),
}

/// An environment is referenced through an opaque numeric identifier.
pub type EnvId = usize;

/// The tagged union representing every evaluable or printable entity:
/// literals, variable references, error markers, closures, and nested
/// cons-list subtrees. The `Sub` variant is the only recursive one.
#[derive(Debug)]
pub enum Sexps {
    Str(String),
    Int(i64),
    Float(FloatLit),
    Var(String),
    Error(String),
    Sub(Box<Cons<Sexps>>),
    Lambda(EnvId, String),
    Bool(bool),
}

/// The mathematical model of an s-expression: payloads as sequences and
/// integers, children as a sequence of models.
pub enum Sx {
    Str(Seq<char>),
    Int(int),
    Float(FloatLit),
    Var(Seq<char>),
    Error(Seq<char>),
    Sub(Seq<Sx>),
    Lambda(int, Seq<char>),
    Bool(bool),
}

/// The model of an s-expression value.
pub open spec fn view_sexps(e: Sexps) -> Sx
    decreases e,
{
    match e {
        Sexps::Str(s) => Sx::Str(s@),
        Sexps::Int(n) => Sx::Int(n as int),
        Sexps::Float(f) => Sx::Float(f),
        Sexps::Var(s) => Sx::Var(s@),
        Sexps::Error(s) => Sx::Error(s@),
        Sexps::Sub(b) => Sx::Sub(view_cons(*b)),
        Sexps::Lambda(id, s) => Sx::Lambda(id as int, s@),
        Sexps::Bool(b) => Sx::Bool(b),
    }
}

/// The models of the elements of a cons list of s-expressions.
pub open spec fn view_cons(c: Cons<Sexps>) -> Seq<Sx>
    decreases c,
{
    match c {
        Cons::Nil => Seq::empty(),
        Cons::Cons(head, tail) => seq![view_sexps(head)] + view_cons(*tail),
    }
}

impl Clone for Cons<Sexps> {
    /// A clone of a cons list of s-expressions equals the original.
    fn clone(&self) -> (res: Self)
        ensures
            res == *self,
        decreases *self,
    {
        match self {
            Cons::Nil => Cons::Nil,
            Cons::Cons(head, tail) => Cons::Cons(head.clone(), Box::new((**tail).clone())),
        }
    }
}

impl Clone for Sexps {
    /// A clone of an s-expression equals the original.
    fn clone(&self) -> (res: Self)
        ensures
            res == *self,
        decreases *self,
    {
        match self {
            Sexps::Str(s) => Sexps::Str(s.clone()),
            Sexps::Int(n) => Sexps::Int(*n),
            Sexps::Float(f) => Sexps::Float(*f),
            Sexps::Var(s) => Sexps::Var(s.clone()),
            Sexps::Error(s) => Sexps::Error(s.clone()),
            Sexps::Sub(b) => Sexps::Sub(Box::new((**b).clone())),
            Sexps::Lambda(id, s) => Sexps::Lambda(*id, s.clone()),
            Sexps::Bool(b) => Sexps::Bool(*b),
        }
    }
}

impl PartialEq for Sexps {
    /// Shallow structural equality: same-variant literal pairs compare by
    /// payload; every other pair, including two subexpressions or two
    /// closures, compares unequal.
    fn eq(&self, other: &Sexps) -> bool {
        match (self, other) {
            (Sexps::Str(s1), Sexps::Str(s2)) => *s1 == *s2,
            (Sexps::Int(n1), Sexps::Int(n2)) => *n1 == *n2,
            (Sexps::Float(f1), Sexps::Float(f2)) => *f1 == *f2,
            (Sexps::Bool(b1), Sexps::Bool(b2)) => *b1 == *b2,
            _ => false,
        }
    }
}

/// What `==` means on s-expressions: payload equality for same-kind
/// literal pairs, false for everything else.
pub open spec fn sexps_eq(a: Sexps, b: Sexps) -> bool {
    match (a, b) {
        (Sexps::Str(s1), Sexps::Str(s2)) => s1@ == s2@,
        (Sexps::Int(n1), Sexps::Int(n2)) => n1 == n2,
        (Sexps::Float(f1), Sexps::Float(f2)) => f1 == f2,
        (Sexps::Bool(b1), Sexps::Bool(b2)) => b1 == b2,
        _ => false,
    }
}

impl vstd::std_specs::cmp::PartialEqSpecImpl for Sexps {
    open spec fn obeys_eq_spec() -> bool {
        true
    }

    open spec fn eq_spec(&self, other: &Sexps) -> bool {
        sexps_eq(*self, *other)
    }
}

/// True iff both values carry the same variant tag, whatever the payloads.
pub open spec fn same_variant(e1: Sexps, e2: Sexps) -> bool {
    match (e1, e2) {
        (Sexps::Str(_), Sexps::Str(_)) => true,
        (Sexps::Int(_), Sexps::Int(_)) => true,
        (Sexps::Float(_), Sexps::Float(_)) => true,
        (Sexps::Var(_), Sexps::Var(_)) => true,
        (Sexps::Error(_), Sexps::Error(_)) => true,
        (Sexps::Sub(_), Sexps::Sub(_)) => true,
        (Sexps::Lambda(_, _), Sexps::Lambda(_, _)) => true,
        (Sexps::Bool(_), Sexps::Bool(_)) => true,
        _ => false,
    }
}

/// True iff both values are the same tagged variant, regardless of payload.
pub fn same_type(exp1: &Sexps, exp2: &Sexps) -> (same: bool)
    ensures
        same == same_variant(*exp1, *exp2),
{
    let mut same = false;
    match *exp1 {
        Sexps::Str(..) => if let Sexps::Str(..) = *exp2 {
            same = true;
        },
        Sexps::Int(..) => if let Sexps::Int(..) = *exp2 {
            same = true;
        },
        Sexps::Float(..) => if let Sexps::Float(..) = *exp2 {
            same = true;
        },
        Sexps::Var(..) => if let Sexps::Var(..) = *exp2 {
            same = true;
        },
        Sexps::Error(..) => if let Sexps::Error(..) = *exp2 {
            same = true;
        },
        Sexps::Sub(..) => if let Sexps::Sub(..) = *exp2 {
            same = true;
        },
        Sexps::Lambda(..) => if let Sexps::Lambda(..) = *exp2 {
            same = true;
        },
        Sexps::Bool(..) => if let Sexps::Bool(..) = *exp2 {
            same = true;
        },
    }
    same
}

/// Equality on s-expressions is shallow by design: same-kind literal pairs
/// compare by payload value; a pair of differing kinds, and any pair whose
/// left side is a subexpression, closure, variable or error marker, compares
/// unequal — even a subexpression against a structurally identical copy.
pub proof fn lemma_literal_equality(a: Sexps, b: Sexps)
    ensures
        a matches Sexps::Str(x) ==> b matches Sexps::Str(y) ==> (sexps_eq(a, b) <==> x@ == y@),
        a matches Sexps::Int(x) ==> b matches Sexps::Int(y) ==> (sexps_eq(a, b) <==> x == y),
        a matches Sexps::Float(x) ==> b matches Sexps::Float(y) ==> (sexps_eq(a, b) <==> x == y),
        a matches Sexps::Bool(x) ==> b matches Sexps::Bool(y) ==> (sexps_eq(a, b) <==> x == y),
        !same_variant(a, b) ==> !sexps_eq(a, b),
        a matches Sexps::Sub(_) ==> !sexps_eq(a, b),
        a matches Sexps::Lambda(_, _) ==> !sexps_eq(a, b),
        a matches Sexps::Var(_) ==> !sexps_eq(a, b),
        a matches Sexps::Error(_) ==> !sexps_eq(a, b),
{
}

/// True when some direct child is itself a subexpression.
pub open spec fn has_sub_child(s: Seq<Sexps>) -> bool {
    exists|i: int| 0 <= i < s.len() && (#[trigger] s[i]) matches Sexps::Sub(_)
}

/// What flat argument extraction yields: the direct children of a
/// subexpression, unless some child is itself a subexpression or the value
/// is not a subexpression at all.
pub open spec fn flat_args(e: Sexps) -> Option<Seq<Sexps>> {
    match e {
        Sexps::Sub(l) => if has_sub_child(l.seq()) {
            None
        } else {
            Some(l.seq())
        },
        _ => None,
    }
}

/// Given a subexpression, walks its cons list once, left to right, and
/// returns the flat sequence of direct children; yields nothing the moment
/// any child is itself a subexpression, and nothing when the input is not a
/// subexpression at all.
pub fn arg_extractor(exp: &Sexps) -> (r: Option<Vec<Sexps>>)
    ensures
        flat_args(*exp) is None ==> r is None,
        flat_args(*exp) matches Some(s) ==> r matches Some(v) && v@ == s,
{
    match exp {
        Sexps::Sub(l) => {
            let mut ret: Vec<Sexps> = Vec::new();
            if collect_flat(l, &mut ret) {
                Some(ret)
            } else {
                None
            }
        }
        _ => None,
    }
}

/// A list headed by `h` has a subexpression among its elements exactly when
/// `h` is one or the rest has one.
pub proof fn lemma_has_sub_unfold(h: Sexps, t: Seq<Sexps>)
    ensures
        has_sub_child(seq![h] + t) <==> (h matches Sexps::Sub(_) || has_sub_child(t)),
{
    let s = seq![h] + t;
    if h matches Sexps::Sub(_) {
        assert(s[0] matches Sexps::Sub(_));
    }
    if has_sub_child(t) {
        let i = choose|i: int| 0 <= i < t.len() && (#[trigger] t[i]) matches Sexps::Sub(_);
        assert(s[i + 1] matches Sexps::Sub(_));
    }
    if has_sub_child(s) {
        let i = choose|i: int| 0 <= i < s.len() && (#[trigger] s[i]) matches Sexps::Sub(_);
        if i > 0 {
            assert(t[i - 1] matches Sexps::Sub(_));
        }
    }
}

/// Walks one cons list left to right, appending clones of its elements to
/// `out`; stops and reports failure the moment an element is itself a
/// subexpression.
fn collect_flat(c: &Cons<Sexps>, out: &mut Vec<Sexps>) -> (ok: bool)
    ensures
        ok == !has_sub_child(c.seq()),
        ok ==> final(out)@ == old(out)@ + c.seq(),
    decreases *c,
{
    match c {
        Cons::Nil => {
            proof {
                assert(c.seq() =~= Seq::<Sexps>::empty());
                assert(final(out)@ =~= old(out)@ + c.seq());
            }
            true
        }
        Cons::Cons(arg, rest) => {
            proof {
                lemma_has_sub_unfold(*arg, rest.seq());
            }
            if let Sexps::Sub(_) = arg {
                false
            } else {
                out.push(arg.clone());
                let ok = collect_flat(rest, out);
                proof {
                    if ok {
                        assert(final(out)@ =~= old(out)@ + c.seq());
                    }
                }
                ok
            }
        }
    }
}

/// Projects the positional argument at `index` to its string payload; the
/// index must be in range, arity having been validated by the caller.
pub fn arg_extract_str(args: &Vec<Sexps>, index: usize) -> (r: Option<String>)
    requires
        index < args@.len(),
    ensures
        args@[index as int] matches Sexps::Str(s) ==> r == Some(s),
        !(args@[index as int] matches Sexps::Str(_)) ==> r is None,
{
    if let Sexps::Str(s) = &args[index] {
        Some(s.clone())
    } else {
        None
    }
}

/// Projects the positional argument at `index` to a float literal, widening
/// an integer argument to a float of the same value; the index must be in
/// range, arity having been validated by the caller.
pub fn arg_extract_float(args: &Vec<Sexps>, index: usize) -> (r: Option<FloatLit>)
    requires
        index < args@.len(),
    ensures
        args@[index as int] matches Sexps::Float(f) ==> r == Some(f),
        args@[index as int] matches Sexps::Int(n) ==> r == Some(spec_float_of_int(n)),
        !(args@[index as int] matches Sexps::Float(_)) && !(args@[index as int]
            matches Sexps::Int(_)) ==> r is None,
{
    if let Sexps::Float(f) = &args[index] {
        Some(*f)
    } else if let Sexps::Int(n) = &args[index] {
        Some(float_of_int(*n))
    } else {
        None
    }
}

/// Wraps a cons list of children as a subexpression value.
pub fn cons_to_sexps(c: Cons<Sexps>) -> (r: Sexps)
    ensures
        r matches Sexps::Sub(b) && *b == c,
{
    Sexps::Sub(Box::new(c))
}

/// Builds an error-marker value carrying the given message.
pub fn err(s: &str) -> (r: Sexps)
    ensures
        r matches Sexps::Error(m) && m@ == s@,
{
    Sexps::Error(s.to_owned())
}

/// Tokenizer-level failures: an extension point. No specific failure kind
/// is populated in this core; the one variant is a placeholder that the
/// verifier requires a datatype to have, and nothing ever produces it.
#[derive(Clone, Copy, PartialEq, Eq, Structural, Debug)]
pub enum LexFail {
    Reserved,
}

/// Evaluator-level failures: an extension point. No specific failure kind
/// is populated in this core; the one variant is a placeholder that the
/// verifier requires a datatype to have, and nothing ever produces it.
#[derive(Clone, Copy, PartialEq, Eq, Structural, Debug)]
pub enum EvalFail {
    Reserved,
}

/// Structural defects that the parser can find in a token stream relative
/// to a fully-parenthesized grammar.
#[derive(Clone, Copy, PartialEq, Eq, Structural, Debug)]
pub enum ParseFail {
    NoStartParen,
    NoEndParen,
    ExtraCloseParen,
    ChildParseFail,
    BadLexeme,
}

/// Either a successfully built expression, or a failure kind paired with
/// the token-stream position where the input diverged from the grammar.
pub type ParseResult = Result<Sexps, (ParseFail, usize)>;

/// The top-level failure wrapper: one of the three families, or a parse
/// that consumed fewer tokens than were supplied.
pub enum RunFail {
    FailParse(ParseFail),
    FailLex(LexFail),
    FailEval(EvalFail),
    UncompleteExp,
}

/// Either a successfully evaluated expression, or a run failure paired with
/// a token-stream position.
pub type RunResult = Result<Sexps, (RunFail, usize)>;

} // verus!
