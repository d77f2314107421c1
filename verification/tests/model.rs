use lisp_core::list::Cons;
use lisp_core::numfmt::{float_lit, float_of_int, float_to_string, int_to_string, FloatLit};
use lisp_core::types::{
    arg_extract_float, arg_extract_str, arg_extractor, cons_to_sexps, err, same_type, Sexps,
};

fn fl(neg: bool, mantissa: u64, scale: u32) -> FloatLit {
    FloatLit { neg, mantissa, scale }
}

fn sub(children: Vec<Sexps>) -> Sexps {
    let mut list = Cons::Nil;
    for c in children.into_iter().rev() {
        list = Cons::Cons(c, Box::new(list));
    }
    cons_to_sexps(list)
}

#[test]
fn equality_same_kind_literals() {
    assert!(Sexps::Str("a".to_string()) == Sexps::Str("a".to_string()));
    assert!(Sexps::Str("a".to_string()) != Sexps::Str("b".to_string()));
    assert!(Sexps::Int(1) == Sexps::Int(1));
    assert!(Sexps::Int(1) != Sexps::Int(2));
    assert!(Sexps::Float(fl(false, 25, 1)) == Sexps::Float(fl(false, 25, 1)));
    assert!(Sexps::Float(fl(false, 25, 1)) != Sexps::Float(fl(true, 25, 1)));
    assert!(Sexps::Bool(true) == Sexps::Bool(true));
    assert!(Sexps::Bool(true) != Sexps::Bool(false));
}

#[test]
fn equality_differing_kinds_is_false() {
    assert!(Sexps::Int(1) != Sexps::Float(fl(false, 1, 0)));
    assert!(Sexps::Str("1".to_string()) != Sexps::Int(1));
    assert!(Sexps::Bool(true) != Sexps::Int(1));
}

#[test]
fn equality_shallow_for_non_literals() {
    // variables, error markers, closures and subexpressions never compare
    // equal, even to structurally identical copies
    assert!(Sexps::Var("x".to_string()) != Sexps::Var("x".to_string()));
    assert!(err("boom") != err("boom"));
    assert!(Sexps::Lambda(0, "f".to_string()) != Sexps::Lambda(0, "f".to_string()));
    let a = sub(vec![Sexps::Int(1), Sexps::Int(2)]);
    let b = sub(vec![Sexps::Int(1), Sexps::Int(2)]);
    assert!(a != b);
}

#[test]
fn same_type_compares_tags_only() {
    assert!(same_type(&Sexps::Int(1), &Sexps::Int(99)));
    assert!(same_type(&Sexps::Str("a".to_string()), &Sexps::Str("b".to_string())));
    assert!(!same_type(&Sexps::Int(1), &Sexps::Float(fl(false, 1, 0))));
    assert!(same_type(&sub(vec![]), &sub(vec![Sexps::Int(1)])));
    assert!(!same_type(&Sexps::Var("x".to_string()), &Sexps::Str("x".to_string())));
}

#[test]
fn arg_extractor_flat_literals() {
    let e = sub(vec![
        Sexps::Int(1),
        Sexps::Float(fl(false, 25, 1)),
        Sexps::Str("x".to_string()),
    ]);
    let args = arg_extractor(&e).unwrap();
    assert_eq!(args.len(), 3);
    assert!(args[0] == Sexps::Int(1));
    assert!(args[1] == Sexps::Float(fl(false, 25, 1)));
    assert!(args[2] == Sexps::Str("x".to_string()));
}

#[test]
fn arg_extractor_rejects_nested_sub() {
    let e = sub(vec![Sexps::Int(1), sub(vec![Sexps::Int(2)])]);
    assert!(arg_extractor(&e).is_none());
}

#[test]
fn arg_extractor_rejects_non_sub() {
    assert!(arg_extractor(&Sexps::Int(7)).is_none());
    assert!(arg_extractor(&Sexps::Str("a".to_string())).is_none());
}

#[test]
fn arg_extractor_empty_list() {
    let args = arg_extractor(&sub(vec![])).unwrap();
    assert_eq!(args.len(), 0);
}

#[test]
fn arg_extract_str_projects() {
    let args = vec![Sexps::Str("hello".to_string()), Sexps::Int(3)];
    assert_eq!(arg_extract_str(&args, 0), Some("hello".to_string()));
    assert_eq!(arg_extract_str(&args, 1), None);
}

#[test]
fn arg_extract_float_widens_ints() {
    let args = vec![
        Sexps::Float(fl(true, 5, 1)),
        Sexps::Int(-3),
        Sexps::Str("x".to_string()),
    ];
    assert_eq!(arg_extract_float(&args, 0), Some(fl(true, 5, 1)));
    assert_eq!(arg_extract_float(&args, 1), Some(fl(true, 3, 0)));
    assert_eq!(arg_extract_float(&args, 2), None);
}

#[test]
fn int_strings() {
    assert_eq!(int_to_string(0), "0");
    assert_eq!(int_to_string(123), "123");
    assert_eq!(int_to_string(-45), "-45");
    assert_eq!(int_to_string(i64::MAX), "9223372036854775807");
    assert_eq!(int_to_string(i64::MIN), "-9223372036854775808");
}

#[test]
fn float_strings() {
    assert_eq!(float_to_string(&fl(false, 25, 1)), "2.5");
    assert_eq!(float_to_string(&fl(true, 5, 1)), "-0.5");
    assert_eq!(float_to_string(&fl(false, 0, 0)), "0");
    assert_eq!(float_to_string(&fl(false, 5, 2)), "0.05");
    assert_eq!(float_to_string(&fl(false, 12345, 2)), "123.45");
    assert_eq!(float_to_string(&fl(false, 25, 0)), "25");
}

#[test]
fn float_lit_normalizes() {
    assert_eq!(float_lit(false, 2500, 3), fl(false, 25, 1));
    assert_eq!(float_lit(false, 10, 1), fl(false, 1, 0));
    assert_eq!(float_lit(true, 0, 5), fl(false, 0, 0));
    assert_eq!(float_lit(true, 7, 2), fl(true, 7, 2));
}

#[test]
fn float_of_int_keeps_value() {
    assert_eq!(float_of_int(-3), fl(true, 3, 0));
    assert_eq!(float_of_int(0), fl(false, 0, 0));
    assert_eq!(float_of_int(42), fl(false, 42, 0));
}

#[test]
fn float_strings_with_leading_zero_padding() {
    assert_eq!(float_to_string(&fl(false, 7, 5)), "0.00007");
    assert_eq!(float_to_string(&fl(true, 1, 4)), "-0.0001");
    assert_eq!(float_to_string(&fl(false, u64::MAX, 0)), "18446744073709551615");
}
