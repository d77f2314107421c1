use lisp_core::display::{display_run_result, display_sexps, print_compact_tree, print_lexemes, print_tree};
use lisp_core::env::{
    get_sym_table_val, make_sym_table_val, sym_table_is_var, Builtin, Callable, Env,
};
use lisp_core::eval::{eval, run};
use lisp_core::list::Cons;
use lisp_core::numfmt::FloatLit;
use lisp_core::parse::parse;
use lisp_core::types::{cons_to_sexps, Lexeme, ParseFail, RunFail, Sexps};

fn fl(neg: bool, mantissa: u64, scale: u32) -> FloatLit {
    FloatLit { neg, mantissa, scale }
}

fn sub(children: Vec<Sexps>) -> Sexps {
    let mut list = Cons::Nil;
    for c in children.into_iter().rev() {
        list = Cons::Cons(c, Box::new(list));
    }
    cons_to_sexps(list)
}

fn error_text(e: &Sexps) -> String {
    match e {
        Sexps::Error(m) => m.clone(),
        _ => panic!("expected an error marker"),
    }
}

#[test]
fn parse_round_trip_compact_display() {
    // tokens for (1 2.5 "x") print back as (1 2.5 x)
    let tokens = vec![
        Lexeme::OpenParen,
        Lexeme::Int(1),
        Lexeme::Float(fl(false, 25, 1)),
        Lexeme::Str("x".to_string()),
        Lexeme::CloseParen,
    ];
    let e = parse(&tokens).unwrap();
    assert_eq!(display_sexps(&e), "(1 2.5 x)");
}

#[test]
fn parse_round_trip_nested() {
    // tokens for (f (-2 3) "s") print back fully parenthesized and compact
    let tokens = vec![
        Lexeme::OpenParen,
        Lexeme::Sym("f".to_string()),
        Lexeme::OpenParen,
        Lexeme::Int(-2),
        Lexeme::Int(3),
        Lexeme::CloseParen,
        Lexeme::Str("s".to_string()),
        Lexeme::CloseParen,
    ];
    let e = parse(&tokens).unwrap();
    assert_eq!(display_sexps(&e), "(f (-2 3) s)");
}

#[test]
fn parse_missing_close_paren() {
    // (1 2 with no closing paren: NoEndParen at the end of the stream
    let tokens = vec![Lexeme::OpenParen, Lexeme::Int(1), Lexeme::Int(2)];
    let e = parse(&tokens).unwrap_err();
    assert_eq!(e, (ParseFail::NoEndParen, 3));
}

#[test]
fn parse_extra_close_paren() {
    // 1 2) with an unmatched close paren: ExtraCloseParen at its position
    let tokens = vec![Lexeme::Int(1), Lexeme::Int(2), Lexeme::CloseParen];
    let e = parse(&tokens).unwrap_err();
    assert_eq!(e, (ParseFail::ExtraCloseParen, 2));
}

#[test]
fn parse_empty_stream() {
    let tokens: Vec<Lexeme> = vec![];
    let e = parse(&tokens).unwrap_err();
    assert_eq!(e, (ParseFail::NoStartParen, 0));
}

#[test]
fn parse_quote_marker_rejected() {
    let tokens = vec![Lexeme::OpenParen, Lexeme::Quote('\''), Lexeme::CloseParen];
    let e = parse(&tokens).unwrap_err();
    assert_eq!(e, (ParseFail::BadLexeme, 1));
}

#[test]
fn run_trailing_form_is_uncomplete() {
    let tokens = vec![Lexeme::Int(1), Lexeme::Int(2)];
    let mut env = Env::new();
    let r = run(&tokens, &mut env, 0).unwrap_err();
    assert!(matches!(r.0, RunFail::UncompleteExp));
    assert_eq!(r.1, 1);
}

#[test]
fn run_single_literal() {
    let tokens = vec![Lexeme::Int(5)];
    let mut env = Env::new();
    let r = run(&tokens, &mut env, 0);
    assert_eq!(display_run_result(&r), "5");
}

#[test]
fn run_reports_parse_failure() {
    let tokens = vec![Lexeme::OpenParen, Lexeme::Int(1)];
    let mut env = Env::new();
    let r = run(&tokens, &mut env, 0);
    assert_eq!(display_run_result(&r), "error: FailParse NoEndParen at 2");
}

#[test]
fn var_slot_protocol() {
    // a protocol binding is a variable and yields back exactly the value
    let c = make_sym_table_val(Sexps::Int(42));
    assert!(sym_table_is_var(Some(&c)));
    assert!(get_sym_table_val(Some(&c)) == Sexps::Int(42));
    // an ordinary zero-arity builtin is not a variable and yields Bad value
    let t = Callable::BuiltIn(0, Builtin::TrueConst);
    assert!(!sym_table_is_var(Some(&t)));
    assert_eq!(error_text(&get_sym_table_val(Some(&t))), "Bad value");
    // an absent entry yields Not found
    assert!(!sym_table_is_var(None));
    assert_eq!(error_text(&get_sym_table_val(None)), "Not found");
    // a closure entry is not a variable either
    let l = Callable::Lambda(0, "f".to_string());
    assert!(!sym_table_is_var(Some(&l)));
    assert_eq!(error_text(&get_sym_table_val(Some(&l))), "Bad value");
}

#[test]
fn var_slot_stores_strings() {
    let c = make_sym_table_val(Sexps::Str("hi".to_string()));
    assert!(get_sym_table_val(Some(&c)) == Sexps::Str("hi".to_string()));
}

#[test]
fn eval_literal_is_itself() {
    let mut env = Env::new();
    assert!(eval(&Sexps::Int(7), &mut env, 0) == Sexps::Int(7));
    assert!(eval(&Sexps::Bool(true), &mut env, 0) == Sexps::Bool(true));
    assert!(eval(&Sexps::Str("s".to_string()), &mut env, 0) == Sexps::Str("s".to_string()));
}

#[test]
fn eval_uncallable_head_is_typed_failure() {
    // (1) where 1 is no callable: a typed error value, never a silent no-op
    let mut env = Env::new();
    let r = eval(&sub(vec![Sexps::Int(1)]), &mut env, 0);
    assert!(matches!(r, Sexps::Error(_)));
}

#[test]
fn eval_bound_variable() {
    let mut env = Env::new();
    env.insert(0, "x".to_string(), make_sym_table_val(Sexps::Str("hi".to_string())));
    let r = eval(&Sexps::Var("x".to_string()), &mut env, 0);
    assert!(r == Sexps::Str("hi".to_string()));
}

#[test]
fn eval_unbound_variable() {
    let mut env = Env::new();
    let r = eval(&Sexps::Var("nope".to_string()), &mut env, 0);
    assert_eq!(error_text(&r), "Not found");
}

#[test]
fn eval_builtin_application() {
    let mut env = Env::new();
    env.insert(0, "fst".to_string(), Callable::BuiltIn(1, Builtin::FirstArg));
    env.insert(0, "t".to_string(), Callable::BuiltIn(0, Builtin::TrueConst));
    let r = eval(&sub(vec![Sexps::Var("fst".to_string()), Sexps::Int(42)]), &mut env, 0);
    assert!(r == Sexps::Int(42));
    let r2 = eval(&sub(vec![Sexps::Var("t".to_string())]), &mut env, 0);
    assert!(r2 == Sexps::Bool(true));
}

#[test]
fn eval_closure_application() {
    // the identity closure: parameters (a), body a, stored under "iddef"
    let mut env = Env::new();
    let params = sub(vec![Sexps::Var("a".to_string())]);
    let body = Sexps::Var("a".to_string());
    env.insert(0, "iddef".to_string(), make_sym_table_val(sub(vec![params, body])));
    env.insert(0, "id".to_string(), Callable::Lambda(0, "iddef".to_string()));
    let r = eval(&sub(vec![Sexps::Var("id".to_string()), Sexps::Int(9)]), &mut env, 0);
    assert!(r == Sexps::Int(9));
}

#[test]
fn lookup_shadowing_and_nesting() {
    let mut env = Env::new();
    env.insert(0, "x".to_string(), make_sym_table_val(Sexps::Int(1)));
    env.insert(0, "x".to_string(), make_sym_table_val(Sexps::Int(2)));
    assert!(eval(&Sexps::Var("x".to_string()), &mut env, 0) == Sexps::Int(2));
    let child = env.add_frame(0);
    // the child sees the parent's binding until it shadows it
    assert!(eval(&Sexps::Var("x".to_string()), &mut env, child) == Sexps::Int(2));
    env.insert(child, "x".to_string(), make_sym_table_val(Sexps::Int(3)));
    assert!(eval(&Sexps::Var("x".to_string()), &mut env, child) == Sexps::Int(3));
    // the parent does not see the child's binding
    assert!(eval(&Sexps::Var("x".to_string()), &mut env, 0) == Sexps::Int(2));
}

#[test]
fn display_forms() {
    assert_eq!(display_sexps(&Sexps::Bool(true)), "true");
    assert_eq!(display_sexps(&Sexps::Lambda(0, "f".to_string())), "<lambda>");
    assert_eq!(display_sexps(&Sexps::Str("abc".to_string())), "abc");
    assert_eq!(display_sexps(&Sexps::Int(-7)), "-7");
    assert_eq!(
        display_sexps(&sub(vec![Sexps::Int(1), sub(vec![Sexps::Int(2), Sexps::Int(3)])])),
        "(1 (2 3))"
    );
    assert_eq!(display_sexps(&sub(vec![])), "()");
}

#[test]
fn lexeme_lines_text() {
    let tokens = vec![
        Lexeme::OpenParen,
        Lexeme::Sym("f".to_string()),
        Lexeme::Int(3),
        Lexeme::CloseParen,
    ];
    assert_eq!(print_lexemes(&tokens), "open paren\nsym f\ninteger 3\nclose paren\n");
}

#[test]
fn compact_tree_text_ends_with_newline() {
    let e = sub(vec![Sexps::Int(1), Sexps::Int(2)]);
    assert_eq!(print_compact_tree(&e), "(1 2)\n");
}

#[test]
fn nested_tree_text_indents_children() {
    let e = sub(vec![Sexps::Int(1), sub(vec![Sexps::Int(2)])]);
    assert_eq!(print_tree(&e, 0), "(\n    1\n    (\n        2\n    )\n)\n");
    assert_eq!(print_tree(&Sexps::Int(7), 4), "    7\n");
}

#[test]
fn lexeme_lines_cover_all_token_kinds() {
    let tokens = vec![
        Lexeme::Quote('\''),
        Lexeme::Str("ab".to_string()),
        Lexeme::Float(fl(true, 5, 1)),
    ];
    assert_eq!(print_lexemes(&tokens), "quote '\nstring ab\nfloat -0.5\n");
}

#[test]
fn parse_empty_form_displays_as_empty_parens() {
    let tokens = vec![Lexeme::OpenParen, Lexeme::CloseParen];
    let e = parse(&tokens).unwrap();
    assert_eq!(display_sexps(&e), "()");
}

#[test]
fn eval_empty_application_is_error() {
    let mut env = Env::new();
    let r = eval(&sub(vec![]), &mut env, 0);
    assert!(matches!(r, Sexps::Error(_)));
}

#[test]
fn run_empty_stream_has_no_form() {
    let tokens: Vec<Lexeme> = vec![];
    let mut env = Env::new();
    let r = run(&tokens, &mut env, 0).unwrap_err();
    assert!(matches!(r.0, RunFail::FailParse(ParseFail::NoStartParen)));
    assert_eq!(r.1, 0);
    let trailing = vec![Lexeme::Int(1), Lexeme::Int(2)];
    let r2 = run(&trailing, &mut env, 0);
    assert_eq!(display_run_result(&r2), "error: UncompleteExp at 1");
}
