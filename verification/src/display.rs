//! The compact textual form of expressions and results: literals print
//! their primitive value, closures print an opaque placeholder, and
//! subexpressions print fully parenthesized with children separated by
//! single spaces.

use vstd::prelude::*;

use crate::list::Cons;
use crate::numfmt::{dec_chars, float_chars, int_chars, push_float, push_int};
use crate::types::{Lexeme, ParseFail, RunFail, RunResult, Sexps};

verus! {

/// The compact text of one expression.
pub open spec fn display_chars(e: Sexps) -> Seq<char>
    decreases e,
{
    match e {
        Sexps::Str(s) => s@,
        Sexps::Int(n) => int_chars(n as int),
        Sexps::Float(f) => float_chars(f),
        Sexps::Var(s) => s@,
        Sexps::Error(s) => s@,
        Sexps::Lambda(_, _) => "<lambda>"@,
        Sexps::Bool(b) => if b {
            "true"@
        } else {
            "false"@
        },
        Sexps::Sub(l) => "("@ + display_list_chars(*l) + ")"@,
    }
}

/// The compact text of a list of children, separated by single spaces.
pub open spec fn display_list_chars(c: Cons<Sexps>) -> Seq<char>
    decreases c,
{
    match c {
        Cons::Nil => Seq::empty(),
        Cons::Cons(h, t) => display_chars(h) + match *t {
            Cons::Nil => Seq::<char>::empty(),
            Cons::Cons(_, _) => " "@ + display_list_chars(*t),
        },
    }
}

/// Relies on std's `String::push`: appends exactly the one character.
#[verifier::external_body]
fn push_char(out: &mut String, c: char)
    ensures
        final(out)@ == old(out)@.push(c),
{
    out.push(c);
}

/// Appends the compact text of `e` to `out`.
pub fn push_display(out: &mut String, e: &Sexps)
    ensures
        final(out)@ == old(out)@ + display_chars(*e),
    decreases *e,
{
    match e {
        Sexps::Str(s) => out.append(s.as_str()),
        Sexps::Int(n) => push_int(out, *n),
        Sexps::Float(f) => push_float(out, f),
        Sexps::Var(s) => out.append(s.as_str()),
        Sexps::Error(s) => out.append(s.as_str()),
        Sexps::Lambda(_, _) => out.append("<lambda>"),
        Sexps::Bool(b) => if *b {
            out.append("true")
        } else {
            out.append("false")
        },
        Sexps::Sub(l) => {
            out.append("(");
            push_display_list(out, l);
            out.append(")");
        }
    }
    proof {
        assert(final(out)@ =~= old(out)@ + display_chars(*e));
    }
}

/// Appends the compact text of the children in `c` to `out`.
pub fn push_display_list(out: &mut String, c: &Cons<Sexps>)
    ensures
        final(out)@ == old(out)@ + display_list_chars(*c),
    decreases *c,
{
    match c {
        Cons::Nil => {
            proof {
                assert(final(out)@ =~= old(out)@ + display_list_chars(*c));
            }
        }
        Cons::Cons(h, t) => {
            push_display(out, h);
            match &**t {
                Cons::Nil => {
                    proof {
                        assert(final(out)@ =~= old(out)@ + display_list_chars(*c));
                    }
                }
                Cons::Cons(_, _) => {
                    out.append(" ");
                    push_display_list(out, t);
                    proof {
                        assert(final(out)@ =~= old(out)@ + display_list_chars(*c));
                    }
                }
            }
        }
    }
}

/// The compact text of one expression: literals as their primitive value
/// (strings without quotes), closures as an opaque placeholder, and
/// subexpressions fully parenthesized.
pub fn display_sexps(exp: &Sexps) -> (r: String)
    ensures
        r@ == display_chars(*exp),
{
    let mut out = String::new();
    push_display(&mut out, exp);
    proof {
        assert(out@ =~= display_chars(*exp));
    }
    out
}

/// The compact text of one expression followed by a line break, as the
/// compact tree printer emits it.
pub fn print_compact_tree(t: &Sexps) -> (r: String)
    ensures
        r@ == display_chars(*t) + "\n"@,
{
    let mut out = String::new();
    push_display(&mut out, t);
    out.append("\n");
    proof {
        assert(out@ =~= display_chars(*t) + "\n"@);
    }
    out
}

/// `n` space characters.
pub open spec fn spaces(n: nat) -> Seq<char>
    decreases n,
{
    if n == 0 {
        Seq::empty()
    } else {
        spaces((n - 1) as nat).push(' ')
    }
}

/// The indentation step of the nested printer, saturating instead of
/// growing past the width a counter can hold.
pub open spec fn next_depth(d: nat) -> nat {
    if d + 4 <= u32::MAX {
        d + 4
    } else {
        d
    }
}

/// The indented, nested debug text of one expression: each atom on its own
/// line at the given indentation, each subexpression bracketed by `(` and
/// `)` lines with its children four spaces deeper.
pub open spec fn tree_chars(e: Sexps, depth: nat) -> Seq<char>
    decreases e,
{
    match e {
        Sexps::Sub(l) => spaces(depth) + "(\n"@ + tree_list_chars(*l, next_depth(depth)) + spaces(
            depth,
        ) + ")\n"@,
        _ => spaces(depth) + display_chars(e) + "\n"@,
    }
}

/// The indented text of a list of children, one under another.
pub open spec fn tree_list_chars(c: Cons<Sexps>, depth: nat) -> Seq<char>
    decreases c,
{
    match c {
        Cons::Nil => Seq::empty(),
        Cons::Cons(h, t) => tree_chars(h, depth) + tree_list_chars(*t, depth),
    }
}

/// Appends `n` space characters to `out`.
fn push_spaces(out: &mut String, n: u32)
    ensures
        final(out)@ == old(out)@ + spaces(n as nat),
{
    let mut i: u32 = 0;
    while i < n
        invariant
            i <= n,
            out@ == old(out)@ + spaces(i as nat),
        decreases n - i,
    {
        out.append(" ");
        proof {
            reveal_strlit(" ");
            assert(out@ =~= old(out)@ + spaces((i + 1) as nat));
        }
        i = i + 1;
    }
}

/// Appends the indented text of `t` to `out`.
fn push_tree(out: &mut String, t: &Sexps, depth: u32)
    ensures
        final(out)@ == old(out)@ + tree_chars(*t, depth as nat),
    decreases *t,
{
    match t {
        Sexps::Sub(l) => {
            push_spaces(out, depth);
            out.append("(\n");
            let nd = if depth <= u32::MAX - 4 {
                depth + 4
            } else {
                depth
            };
            push_tree_list(out, l, nd);
            push_spaces(out, depth);
            out.append(")\n");
            proof {
                assert(final(out)@ =~= old(out)@ + tree_chars(*t, depth as nat));
            }
        }
        _ => {
            push_spaces(out, depth);
            push_display(out, t);
            out.append("\n");
            proof {
                assert(final(out)@ =~= old(out)@ + tree_chars(*t, depth as nat));
            }
        }
    }
}

/// Appends the indented text of each child of `c` to `out`.
fn push_tree_list(out: &mut String, c: &Cons<Sexps>, depth: u32)
    ensures
        final(out)@ == old(out)@ + tree_list_chars(*c, depth as nat),
    decreases *c,
{
    match c {
        Cons::Nil => {
            proof {
                assert(final(out)@ =~= old(out)@ + tree_list_chars(*c, depth as nat));
            }
        }
        Cons::Cons(h, t) => {
            push_tree(out, h, depth);
            push_tree_list(out, t, depth);
            proof {
                assert(final(out)@ =~= old(out)@ + tree_list_chars(*c, depth as nat));
            }
        }
    }
}

/// The indented, nested debug text of one expression, starting at the
/// given indentation in spaces, for the host program to print.
pub fn print_tree(t: &Sexps, deepness: u32) -> (r: String)
    ensures
        r@ == tree_chars(*t, deepness as nat),
{
    let mut out = String::new();
    push_tree(&mut out, t, deepness);
    proof {
        assert(out@ =~= tree_chars(*t, deepness as nat));
    }
    out
}

/// The name of a parse failure kind.
pub open spec fn parse_fail_chars(f: ParseFail) -> Seq<char> {
    match f {
        ParseFail::NoStartParen => "NoStartParen"@,
        ParseFail::NoEndParen => "NoEndParen"@,
        ParseFail::ExtraCloseParen => "ExtraCloseParen"@,
        ParseFail::ChildParseFail => "ChildParseFail"@,
        ParseFail::BadLexeme => "BadLexeme"@,
    }
}

/// The name of a run failure kind.
pub open spec fn run_fail_chars(f: RunFail) -> Seq<char> {
    match f {
        RunFail::FailParse(p) => "FailParse "@ + parse_fail_chars(p),
        RunFail::FailLex(_) => "FailLex"@,
        RunFail::FailEval(_) => "FailEval"@,
        RunFail::UncompleteExp => "UncompleteExp"@,
    }
}

/// The text of a run result: the compact form of a successful value, or the
/// failure kind and the token position where the input diverged.
pub open spec fn run_result_chars(r: RunResult) -> Seq<char> {
    match r {
        Ok(e) => display_chars(e),
        Err((f, pos)) => "error: "@ + run_fail_chars(f) + " at "@ + dec_chars(pos as nat),
    }
}

/// The text of a run result, for the host program to print.
pub fn display_run_result(res: &RunResult) -> (r: String)
    ensures
        r@ == run_result_chars(*res),
{
    match res {
        Ok(exp) => display_sexps(exp),
        Err((f, pos)) => {
            let mut out = String::new();
            out.append("error: ");
            match f {
                RunFail::FailParse(p) => {
                    out.append("FailParse ");
                    match p {
                        ParseFail::NoStartParen => out.append("NoStartParen"),
                        ParseFail::NoEndParen => out.append("NoEndParen"),
                        ParseFail::ExtraCloseParen => out.append("ExtraCloseParen"),
                        ParseFail::ChildParseFail => out.append("ChildParseFail"),
                        ParseFail::BadLexeme => out.append("BadLexeme"),
                    }
                }
                RunFail::FailLex(_) => out.append("FailLex"),
                RunFail::FailEval(_) => out.append("FailEval"),
                RunFail::UncompleteExp => out.append("UncompleteExp"),
            }
            out.append(" at ");
            crate::numfmt::push_dec(&mut out, *pos as u64);
            proof {
                assert(out@ =~= run_result_chars(*res));
            }
            out
        }
    }
}

/// One descriptive line for each token kind, as the lexer debugging aid
/// prints it.
pub open spec fn lexeme_line(l: Lexeme) -> Seq<char> {
    match l {
        Lexeme::OpenParen => "open paren"@,
        Lexeme::CloseParen => "close paren"@,
        Lexeme::Str(s) => "string "@ + s@,
        Lexeme::Sym(s) => "sym "@ + s@,
        Lexeme::Int(n) => "integer "@ + int_chars(n as int),
        Lexeme::Float(f) => "float "@ + float_chars(f),
        Lexeme::Quote(c) => "quote "@ + Seq::empty().push(c),
    }
}

/// The descriptive lines for a whole token stream, one per token, each
/// ended by a newline.
pub open spec fn lexeme_lines(s: Seq<Lexeme>) -> Seq<char>
    decreases s.len(),
{
    if s.len() == 0 {
        Seq::empty()
    } else {
        lexeme_lines(s.drop_last()) + lexeme_line(s.last()) + "\n"@
    }
}

/// The descriptive text of a token stream, one line per token, for the host
/// program to print.
pub fn print_lexemes(lexemes: &Vec<Lexeme>) -> (r: String)
    ensures
        r@ == lexeme_lines(lexemes@),
{
    let mut out = String::new();
    let mut i: usize = 0;
    while i < lexemes.len()
        invariant
            i <= lexemes@.len(),
            out@ == lexeme_lines(lexemes@.subrange(0, i as int)),
        decreases lexemes@.len() - i,
    {
        match &lexemes[i] {
            Lexeme::OpenParen => out.append("open paren"),
            Lexeme::CloseParen => out.append("close paren"),
            Lexeme::Str(s) => {
                out.append("string ");
                out.append(s.as_str());
            }
            Lexeme::Sym(s) => {
                out.append("sym ");
                out.append(s.as_str());
            }
            Lexeme::Int(n) => {
                out.append("integer ");
                push_int(&mut out, *n);
            }
            Lexeme::Float(f) => {
                out.append("float ");
                push_float(&mut out, f);
            }
            Lexeme::Quote(c) => {
                out.append("quote ");
                push_char(&mut out, *c);
            }
        }
        out.append("\n");
        proof {
            let pre = lexemes@.subrange(0, i as int);
            let now = lexemes@.subrange(0, i + 1 as int);
            assert(now.drop_last() =~= pre);
            assert(now.last() == lexemes@[i as int]);
            assert(out@ =~= lexeme_lines(now));
        }
        i = i + 1;
    }
    proof {
        assert(lexemes@.subrange(0, lexemes@.len() as int) =~= lexemes@);
    }
    out
}

} // verus!
