//! The evaluator: expressions are reduced against the environment arena.
//! Literals and closures evaluate to themselves, a variable reference looks
//! its binding up through the symbol-table protocol, and an application
//! form resolves its head to a callable, reduces the arguments, and invokes
//! the callable through the uniform interface. Recursion is bounded by an
//! explicit depth budget, which the verifier requires for termination; an
//! exhausted budget surfaces as an error value.

use vstd::prelude::*;

use crate::env::{
    builtin_result, exec_builtin, get_sym_table_val, make_sym_table_val, stored_of,
    sym_table_is_var, Builtin, Callable, Env,
};
use crate::list::Cons;
use crate::parse::{parse_forms, spec_parse_all};
use crate::types::{cons_to_sexps, err, EnvId, Lexeme, ParseFail, RunFail, RunResult, Sexps, Sx};

verus! {

/// The depth budget that the public entry points give the evaluator.
pub const DEFAULT_EVAL_FUEL: u64 = 1000000;

/// The arena `post` extends `pre`: every environment and binding of `pre`
/// is still there unchanged, and every new binding belongs to an
/// environment that `pre` did not have, so lookups in old environments are
/// undisturbed.
pub open spec fn env_extends(pre: Env, post: Env) -> bool {
    &&& post.parents@.len() >= pre.parents@.len()
    &&& post.parents@.subrange(0, pre.parents@.len() as int) == pre.parents@
    &&& post.binds@.len() >= pre.binds@.len()
    &&& post.binds@.subrange(0, pre.binds@.len() as int) == pre.binds@
    &&& forall|j: int|
        pre.binds@.len() <= j < post.binds@.len() ==> (#[trigger] post.binds@[j]).0
            >= pre.parents@.len()
}

/// Extension is reflexive.
pub proof fn lemma_extends_refl(e: Env)
    ensures
        env_extends(e, e),
{
    assert(e.parents@.subrange(0, e.parents@.len() as int) =~= e.parents@);
    assert(e.binds@.subrange(0, e.binds@.len() as int) =~= e.binds@);
}

/// Extension is transitive.
pub proof fn lemma_extends_trans(a: Env, b: Env, c: Env)
    requires
        env_extends(a, b),
        env_extends(b, c),
    ensures
        env_extends(a, c),
{
    assert(c.parents@.subrange(0, a.parents@.len() as int) =~= a.parents@);
    assert(c.binds@.subrange(0, a.binds@.len() as int) =~= a.binds@);
    assert forall|j: int|
        a.binds@.len() <= j < c.binds@.len() implies (#[trigger] c.binds@[j]).0
        >= a.parents@.len() by {
        if j < b.binds@.len() {
            assert(c.binds@.subrange(0, b.binds@.len() as int)[j] == c.binds@[j]);
            assert(b.binds@[j].0 >= a.parents@.len());
        } else {
            assert(c.binds@[j].0 >= b.parents@.len());
        }
    }
}

/// A binding search for an environment the arena already had is not
/// affected by appended bindings that belong only to newer environments.
proof fn lemma_find_stable(
    pre: Seq<(EnvId, String, Callable)>,
    post: Seq<(EnvId, String, Callable)>,
    f: int,
    name: Seq<char>,
)
    requires
        post.len() >= pre.len(),
        post.subrange(0, pre.len() as int) == pre,
        forall|j: int| pre.len() <= j < post.len() ==> (#[trigger] post[j]).0 != f,
    ensures
        crate::env::find_in_binds(post, f, name) == crate::env::find_in_binds(pre, f, name),
    decreases post.len(),
{
    if post.len() > pre.len() {
        assert(post.last().0 != f);
        let shorter = post.drop_last();
        assert(shorter.subrange(0, pre.len() as int) =~= pre) by {
            assert forall|i: int| 0 <= i < pre.len() implies shorter.subrange(
                0,
                pre.len() as int,
            )[i] == pre[i] by {
                assert(post.subrange(0, pre.len() as int)[i] == post[i]);
            }
        }
        lemma_find_stable(pre, shorter, f, name);
    } else {
        assert(post =~= pre);
    }
}

/// Lookups from an environment the arena already had find the same binding
/// after the arena is extended: new environments and their bindings are
/// invisible to the old parent chains.
pub proof fn lemma_lookup_stable(pre: Env, post: Env, env: int, name: Seq<char>)
    requires
        pre.wf(),
        env_extends(pre, post),
        0 <= env < pre.parents@.len(),
    ensures
        post.spec_lookup(env, name) == pre.spec_lookup(env, name),
    decreases env,
{
    lemma_find_stable(pre.binds@, post.binds@, env, name);
    assert(post.parents@[env] == pre.parents@[env]) by {
        assert(post.parents@.subrange(0, pre.parents@.len() as int)[env] == post.parents@[env]);
    }
    match pre.parents@[env] {
        Some(p) => {
            if p < env {
                lemma_lookup_stable(pre, post, p as int, name);
            }
        }
        None => {}
    }
}

/// What evaluation promises for each input shape: literals, error markers
/// and closures are their own value; a variable reference yields the value
/// stored under it, or the protocol's error markers; an empty application
/// and an application whose head is a plain literal yield an error value.
/// An application with a resolvable head is reduced by invocation, and its
/// result is constrained only by the callable's own contract.
pub open spec fn eval_cases(pre: Env, env: int, expr: Sexps, r: Sexps) -> bool {
    match expr {
        Sexps::Str(_) => r == expr,
        Sexps::Int(_) => r == expr,
        Sexps::Float(_) => r == expr,
        Sexps::Bool(_) => r == expr,
        Sexps::Error(_) => r == expr,
        Sexps::Lambda(_, _) => r == expr,
        Sexps::Var(nm) => match pre.spec_lookup(env, nm@) {
            None => r matches Sexps::Error(m) && m@ == "Not found"@,
            Some(c) => match stored_of(c) {
                Some(x) => r == x,
                None => r matches Sexps::Error(m) && m@ == "Bad value"@,
            },
        },
        Sexps::Sub(l) => match *l {
            Cons::Nil => r matches Sexps::Error(_),
            Cons::Cons(head, rest) => match head {
                Sexps::Str(_) => r matches Sexps::Error(_),
                Sexps::Int(_) => r matches Sexps::Error(_),
                Sexps::Float(_) => r matches Sexps::Error(_),
                Sexps::Bool(_) => r matches Sexps::Error(_),
                Sexps::Error(_) => r matches Sexps::Error(_),
                Sexps::Var(nm) => match pre.spec_lookup(env, nm@) {
                    None => r matches Sexps::Error(m) && m@ == "Not found"@,
                    Some(c) => match c {
                        Callable::BuiltIn(_, bi) => match bi {
                            Builtin::TrueConst => r == Sexps::Bool(true),
                            Builtin::StoredVal(v) => !(*v matches Sexps::Lambda(_, _))
                                ==> (r matches Sexps::Error(_)),
                            Builtin::FirstArg => (*rest matches Cons::Nil) ==> (r
                                matches Sexps::Error(_)),
                        },
                        Callable::Lambda(_, _) => true,
                    },
                },
                _ => true,
            },
        },
    }
}

/// Binds each parameter name of `params` to the corresponding element of
/// `args` in environment `frame`, through the variable-slot protocol;
/// reports failure on a non-symbol parameter or an arity mismatch.
fn bind_params(root: &mut Env, frame: EnvId, params: &Cons<Sexps>, args: &Cons<Sexps>) -> (ok:
    bool)
    requires
        old(root).wf(),
        frame < old(root).num_frames(),
    ensures
        final(root).wf(),
        final(root).parents@ == old(root).parents@,
        final(root).binds@.len() >= old(root).binds@.len(),
        final(root).binds@.subrange(0, old(root).binds@.len() as int) == old(root).binds@,
        forall|j: int|
            old(root).binds@.len() <= j < final(root).binds@.len() ==> (#[trigger] final(root).binds@[j]).0 == frame,
    decreases *params,
{
    match (params, args) {
        (Cons::Nil, Cons::Nil) => {
            proof {
                assert(final(root).binds@.subrange(0, old(root).binds@.len() as int) =~= old(root).binds@);
            }
            true
        }
        (Cons::Cons(p, pt), Cons::Cons(a, at)) => match p {
            Sexps::Var(nm) => {
                let ghost pre = *root;
                root.insert(frame, nm.clone(), make_sym_table_val(a.clone()));
                let ghost mid = *root;
                let ok = bind_params(root, frame, pt, at);
                proof {
                    assert(mid.binds@.subrange(0, pre.binds@.len() as int) =~= pre.binds@);
                    assert(final(root).binds@.subrange(0, pre.binds@.len() as int) =~= pre.binds@);
                    assert forall|j: int|
                        pre.binds@.len() <= j < final(root).binds@.len() implies (#[trigger] final(root).binds@[j]).0 == frame by {
                        if j < mid.binds@.len() {
                            assert(final(root).binds@.subrange(0, mid.binds@.len() as int)[j]
                                == final(root).binds@[j]);
                            assert(j == pre.binds@.len());
                        }
                    }
                }
                ok
            }
            _ => {
                proof {
                    lemma_extends_refl(*root);
                    assert(final(root).binds@.subrange(0, old(root).binds@.len() as int) =~= old(root).binds@);
                }
                false
            }
        },
        _ => {
            proof {
                assert(final(root).binds@.subrange(0, old(root).binds@.len() as int) =~= old(root).binds@);
            }
            false
        }
    }
}

/// Invokes a callable on an argument expression: a builtin runs its body;
/// a closure looks its parameters and body up in its defining environment,
/// binds the arguments in a fresh child environment, and evaluates the
/// body there. A closure whose symbol is not bound in its environment
/// yields an error value.
pub fn exec_callable(c: &Callable, args: Sexps, root: &mut Env, fuel: u64) -> (r: Sexps)
    requires
        old(root).wf(),
    ensures
        final(root).wf(),
        env_extends(*old(root), *final(root)),
        *c matches Callable::BuiltIn(_, b) ==> builtin_result(b, args, r),
        *c matches Callable::Lambda(eid, nm) ==> (old(root).spec_lookup(eid as int, nm@) is None
            ==> r matches Sexps::Error(_)),
    decreases fuel,
{
    match c {
        Callable::BuiltIn(_, b) => {
            proof {
                lemma_extends_refl(*root);
            }
            exec_builtin(b, args)
        }
        Callable::Lambda(eid, nm) => {
            let copt = root.lookup(*eid, nm);
            match copt {
                None => {
                    proof {
                        lemma_extends_refl(*root);
                    }
                    err("Not found")
                }
                Some(entry) => {
                    if fuel == 0 {
                        proof {
                            lemma_extends_refl(*root);
                        }
                        return err("Fuel exhausted");
                    }
                    let stored = get_sym_table_val(Some(&entry));
                    match stored {
                        Sexps::Sub(pb) => {
                            match *pb {
                                Cons::Cons(params, tail) => match *tail {
                                    Cons::Cons(body, _) => match (params, args) {
                                        (Sexps::Sub(plist), Sexps::Sub(alist)) => {
                                            let ghost pre = *root;
                                            let frame = root.add_frame(*eid);
                                            let ghost mid = *root;
                                            proof {
                                                assert(mid.parents@.subrange(
                                                    0,
                                                    pre.parents@.len() as int,
                                                ) =~= pre.parents@);
                                                assert(mid.binds@.subrange(
                                                    0,
                                                    pre.binds@.len() as int,
                                                ) =~= pre.binds@);
                                            }
                                            let ok = bind_params(root, frame, &*plist, &*alist);
                                            let ghost bound = *root;
                                            proof {
                                                assert(bound.parents@.subrange(
                                                    0,
                                                    pre.parents@.len() as int,
                                                ) =~= pre.parents@);
                                                assert(bound.binds@.subrange(
                                                    0,
                                                    pre.binds@.len() as int,
                                                ) =~= pre.binds@);
                                                assert(env_extends(pre, bound));
                                            }
                                            if ok {
                                                let r = eval_fuel(&body, root, frame, fuel - 1);
                                                proof {
                                                    lemma_extends_trans(pre, bound, *final(root));
                                                }
                                                r
                                            } else {
                                                err("Bad args")
                                            }
                                        }
                                        _ => {
                                            proof {
                                                lemma_extends_refl(*root);
                                            }
                                            err("Bad lambda")
                                        }
                                    },
                                    Cons::Nil => {
                                        proof {
                                            lemma_extends_refl(*root);
                                        }
                                        err("Bad lambda")
                                    }
                                },
                                Cons::Nil => {
                                    proof {
                                        lemma_extends_refl(*root);
                                    }
                                    err("Bad lambda")
                                }
                            }
                        }
                        _ => {
                            proof {
                                lemma_extends_refl(*root);
                            }
                            err("Bad lambda")
                        }
                    }
                }
            }
        }
    }
}

/// Evaluates each element of a list, left to right, and returns the list
/// of results.
fn eval_list(c: &Cons<Sexps>, root: &mut Env, env: EnvId, fuel: u64) -> (r: Cons<Sexps>)
    requires
        old(root).wf(),
        env < old(root).num_frames(),
    ensures
        final(root).wf(),
        env_extends(*old(root), *final(root)),
        *c matches Cons::Nil ==> r matches Cons::Nil,
    decreases fuel,
{
    if fuel == 0 {
        proof {
            lemma_extends_refl(*root);
        }
        return Cons::Nil;
    }
    match c {
        Cons::Nil => {
            proof {
                lemma_extends_refl(*root);
            }
            Cons::Nil
        }
        Cons::Cons(h, t) => {
            let ghost pre = *root;
            let v = eval_fuel(h, root, env, fuel - 1);
            let ghost mid = *root;
            let rest = eval_list(t, root, env, fuel - 1);
            proof {
                lemma_extends_trans(pre, mid, *final(root));
            }
            Cons::Cons(v, Box::new(rest))
        }
    }
}

/// Evaluates one expression against environment `env` of the arena, with
/// an explicit recursion budget.
pub fn eval_fuel(expr: &Sexps, root: &mut Env, env: EnvId, fuel: u64) -> (r: Sexps)
    requires
        old(root).wf(),
        env < old(root).num_frames(),
    ensures
        final(root).wf(),
        env_extends(*old(root), *final(root)),
        fuel > 0 ==> eval_cases(*old(root), env as int, *expr, r),
    decreases fuel,
{
    if fuel == 0 {
        proof {
            lemma_extends_refl(*root);
        }
        return err("Fuel exhausted");
    }
    match expr {
        Sexps::Str(_) => {
            proof {
                lemma_extends_refl(*root);
            }
            expr.clone()
        }
        Sexps::Int(_) => {
            proof {
                lemma_extends_refl(*root);
            }
            expr.clone()
        }
        Sexps::Float(_) => {
            proof {
                lemma_extends_refl(*root);
            }
            expr.clone()
        }
        Sexps::Bool(_) => {
            proof {
                lemma_extends_refl(*root);
            }
            expr.clone()
        }
        Sexps::Error(_) => {
            proof {
                lemma_extends_refl(*root);
            }
            expr.clone()
        }
        Sexps::Lambda(_, _) => {
            proof {
                lemma_extends_refl(*root);
            }
            expr.clone()
        }
        Sexps::Var(nm) => {
            proof {
                lemma_extends_refl(*root);
            }
            let copt = root.lookup(env, nm);
            match &copt {
                None => err("Not found"),
                Some(cc) => get_sym_table_val(Some(cc)),
            }
        }
        Sexps::Sub(l) => match &**l {
            Cons::Nil => {
                proof {
                    lemma_extends_refl(*root);
                }
                err("Empty expression")
            }
            Cons::Cons(head, rest) => match head {
                Sexps::Str(_) => {
                    proof {
                        lemma_extends_refl(*root);
                    }
                    err("Not a procedure")
                }
                Sexps::Int(_) => {
                    proof {
                        lemma_extends_refl(*root);
                    }
                    err("Not a procedure")
                }
                Sexps::Float(_) => {
                    proof {
                        lemma_extends_refl(*root);
                    }
                    err("Not a procedure")
                }
                Sexps::Bool(_) => {
                    proof {
                        lemma_extends_refl(*root);
                    }
                    err("Not a procedure")
                }
                Sexps::Error(_) => {
                    proof {
                        lemma_extends_refl(*root);
                    }
                    err("Not a procedure")
                }
                Sexps::Var(nm) => {
                    let copt = root.lookup(env, nm);
                    match copt {
                        None => {
                            proof {
                                lemma_extends_refl(*root);
                            }
                            err("Not found")
                        }
                        Some(c) => {
                            let ghost pre = *root;
                            let args = eval_list(rest, root, env, fuel - 1);
                            let ghost mid = *root;
                            let args_exp = cons_to_sexps(args);
                            let r = if sym_table_is_var(Some(&c)) {
                                let sv = get_sym_table_val(Some(&c));
                                match sv {
                                    Sexps::Lambda(eid, nm2) => exec_callable(
                                        &Callable::Lambda(eid, nm2),
                                        args_exp,
                                        root,
                                        fuel - 1,
                                    ),
                                    _ => {
                                        proof {
                                            lemma_extends_refl(*root);
                                        }
                                        err("Not a procedure")
                                    },
                                }
                            } else {
                                exec_callable(&c, args_exp, root, fuel - 1)
                            };
                            proof {
                                lemma_extends_trans(pre, mid, *final(root));
                            }
                            r
                        }
                    }
                }
                Sexps::Lambda(eid, nm) => {
                    let ghost pre = *root;
                    let args = eval_list(rest, root, env, fuel - 1);
                    let ghost mid = *root;
                    let r = exec_callable(
                        &Callable::Lambda(*eid, nm.clone()),
                        cons_to_sexps(args),
                        root,
                        fuel - 1,
                    );
                    proof {
                        lemma_extends_trans(pre, mid, *final(root));
                    }
                    r
                }
                Sexps::Sub(_) => {
                    let ghost pre = *root;
                    let f = eval_fuel(head, root, env, fuel - 1);
                    let ghost mid = *root;
                    let args = eval_list(rest, root, env, fuel - 1);
                    let ghost mid2 = *root;
                    let r = match f {
                        Sexps::Lambda(eid, nm2) => exec_callable(
                            &Callable::Lambda(eid, nm2),
                            cons_to_sexps(args),
                            root,
                            fuel - 1,
                        ),
                        _ => {
                            proof {
                                lemma_extends_refl(*root);
                            }
                            err("Not a procedure")
                        },
                    };
                    proof {
                        lemma_extends_trans(pre, mid, mid2);
                        lemma_extends_trans(pre, mid2, *final(root));
                    }
                    r
                }
            },
        },
    }
}

/// Evaluates one expression against environment `env` of the arena, with
/// the default recursion budget.
pub fn eval(expr: &Sexps, root: &mut Env, env: EnvId) -> (r: Sexps)
    requires
        old(root).wf(),
        env < old(root).num_frames(),
    ensures
        final(root).wf(),
        env_extends(*old(root), *final(root)),
        eval_cases(*old(root), env as int, *expr, r),
{
    eval_fuel(expr, root, env, DEFAULT_EVAL_FUEL)
}

/// True of the models of the self-evaluating literals.
pub open spec fn is_literal_sx(x: Sx) -> bool {
    match x {
        Sx::Str(_) => true,
        Sx::Int(_) => true,
        Sx::Float(_) => true,
        Sx::Bool(_) => true,
        _ => false,
    }
}

/// Parses the whole token stream and evaluates its single top-level form:
/// a structural defect surfaces as the parse failure with its position; an
/// empty stream has no form; a stream with more than one form is an
/// incomplete parse, reported at the start of the second form; a single
/// self-evaluating literal form evaluates to itself.
pub fn run(tokens: &Vec<Lexeme>, root: &mut Env, env: EnvId) -> (r: RunResult)
    requires
        old(root).wf(),
        env < old(root).num_frames(),
    ensures
        final(root).wf(),
        env_extends(*old(root), *final(root)),
        spec_parse_all(tokens@, 0) matches Err(e) ==> (r matches Err(q) && q.0
            == RunFail::FailParse(e.0) && q.1 as int == e.1),
        spec_parse_all(tokens@, 0) matches Ok(forms) ==> {
            &&& forms.len() == 0 ==> (r matches Err(q) && q.0 == RunFail::FailParse(
                ParseFail::NoStartParen,
            ) && q.1 == 0)
            &&& forms.len() > 1 ==> (r matches Err(q) && q.0 == RunFail::UncompleteExp && q.1 as int
                == forms[1].1)
            &&& forms.len() == 1 ==> r is Ok
            &&& (forms.len() == 1 && is_literal_sx(forms[0].0)) ==> (r matches Ok(v)
                && crate::types::view_sexps(v) == forms[0].0)
        },
{
    proof {
        lemma_extends_refl(*root);
    }
    match parse_forms(tokens) {
        Err((f, p)) => Err((RunFail::FailParse(f), p)),
        Ok(forms) => {
            if forms.len() == 0 {
                Err((RunFail::FailParse(ParseFail::NoStartParen), 0))
            } else if forms.len() > 1 {
                Err((RunFail::UncompleteExp, forms[1].1))
            } else {
                let e = &forms[0].0;
                let v = eval(e, root, env);
                proof {
                    match *e {
                        Sexps::Str(_) => {}
                        Sexps::Int(_) => {}
                        Sexps::Float(_) => {}
                        Sexps::Bool(_) => {}
                        Sexps::Var(_) => {}
                        Sexps::Error(_) => {}
                        Sexps::Lambda(_, _) => {}
                        Sexps::Sub(_) => {}
                    }
                }
                Ok(v)
            }
        }
    }
}

} // verus!
