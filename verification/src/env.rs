//! The callable/environment contract: environments live in a central arena
//! indexed by numeric identifiers, closures hold only such an identifier,
//! and built-in functions and closures share one callable representation.
//! A "variable" entry in the symbol table is a zero-arity builtin that
//! answers a sentinel probe with a tagged two-element list.

use vstd::prelude::*;

use crate::list::{cons, Cons};
use crate::types::{arg_extractor, cons_to_sexps, err, flat_args, EnvId, Sexps};

verus! {

/// The built-in function bodies of this core, one variant per builtin.
pub enum Builtin {
    /// The variable-slot carrier of the symbol-table protocol: whatever the
    /// arguments, it returns `(Error("__var") <stored value>)`.
    StoredVal(Box<Sexps>),
    /// An ordinary zero-arity builtin that does not follow the sentinel
    /// convention: it returns the boolean true.
    TrueConst,
    /// A demonstration builtin: returns its first argument, or an error
    /// marker when the argument list is absent, nested or empty.
    FirstArg,
}

/// The uniform invocation interface: a built-in function with an arity
/// marker, or a closure referencing its defining environment by identifier
/// and the symbol under which its parameters and body are stored there.
pub enum Callable {
    BuiltIn(usize, Builtin),
    Lambda(EnvId, String),
}

impl Clone for Builtin {
    /// A clone of a builtin equals the original.
    fn clone(&self) -> (res: Self)
        ensures
            res == *self,
    {
        match self {
            Builtin::StoredVal(v) => Builtin::StoredVal(Box::new((**v).clone())),
            Builtin::TrueConst => Builtin::TrueConst,
            Builtin::FirstArg => Builtin::FirstArg,
        }
    }
}

impl Clone for Callable {
    /// A clone of a callable equals the original.
    fn clone(&self) -> (res: Self)
        ensures
            res == *self,
    {
        match self {
            Callable::BuiltIn(arity, b) => Callable::BuiltIn(*arity, b.clone()),
            Callable::Lambda(id, s) => Callable::Lambda(*id, s.clone()),
        }
    }
}

/// The value stored in a variable-slot callable, if it is one.
pub open spec fn stored_of(c: Callable) -> Option<Sexps> {
    match c {
        Callable::BuiltIn(_, Builtin::StoredVal(v)) => Some(*v),
        _ => None,
    }
}

/// True of exactly the callables that the variable-slot protocol stores.
pub open spec fn is_var_slot(c: Callable) -> bool {
    stored_of(c) is Some
}

/// The shape that a variable-slot probe answers with: a two-element list of
/// the `__var` error tag and the stored value.
pub open spec fn var_probe_shape(r: Sexps, stored: Sexps) -> bool {
    match r {
        Sexps::Sub(l) => match *l {
            Cons::Cons(first, rest) => (first matches Sexps::Error(m) && m@ == "__var"@) && match *rest {
                Cons::Cons(v, nil) => v == stored && (*nil matches Cons::Nil),
                Cons::Nil => false,
            },
            Cons::Nil => false,
        },
        _ => false,
    }
}

/// What invoking each builtin on an argument expression returns.
pub open spec fn builtin_result(b: Builtin, args: Sexps, r: Sexps) -> bool {
    match b {
        Builtin::StoredVal(v) => var_probe_shape(r, *v),
        Builtin::TrueConst => r == Sexps::Bool(true),
        Builtin::FirstArg => match flat_args(args) {
            Some(s) => if s.len() >= 1 {
                r == s[0]
            } else {
                r matches Sexps::Error(_)
            },
            None => r matches Sexps::Error(_),
        },
    }
}

/// Invokes a built-in function body on an argument expression.
pub fn exec_builtin(b: &Builtin, args: Sexps) -> (r: Sexps)
    ensures
        builtin_result(*b, args, r),
{
    match b {
        Builtin::StoredVal(v) => {
            let stored = (**v).clone();
            cons_to_sexps(cons(err("__var"), cons(stored, Cons::Nil)))
        }
        Builtin::TrueConst => Sexps::Bool(true),
        Builtin::FirstArg => match arg_extractor(&args) {
            Some(v) => if v.len() >= 1 {
                let first = v[0].clone();
                first
            } else {
                err("Bad args")
            },
            None => err("Bad args"),
        },
    }
}

/// Wraps an expression as a symbol-table variable binding: a zero-arity
/// builtin that follows the sentinel protocol and carries the value.
pub fn make_sym_table_val(exp: Sexps) -> (r: Callable)
    ensures
        stored_of(r) == Some(exp),
        r matches Callable::BuiltIn(arity, _) && arity == 0,
{
    Callable::BuiltIn(0, Builtin::StoredVal(Box::new(exp)))
}

/// Classifies a symbol-table entry: true exactly of variable bindings made
/// by the sentinel protocol, false of ordinary builtins, closures and
/// absent entries. The classification probes the callable with the sentinel
/// argument and inspects the shape of the answer.
pub fn sym_table_is_var(v: Option<&Callable>) -> (r: bool)
    ensures
        r == (v matches Some(c) && is_var_slot(*c)),
{
    match v {
        None => false,
        Some(c) => match c {
            Callable::BuiltIn(_, b) => {
                let res = exec_builtin(b, err("__sym"));
                match res {
                    Sexps::Sub(l) => match &*l {
                        Cons::Cons(first, _) => match first {
                            Sexps::Error(s) => *s == "__var".to_owned(),
                            _ => false,
                        },
                        Cons::Nil => false,
                    },
                    _ => false,
                }
            }
            // probing a closure against a fresh, empty environment finds no
            // body definition, so it answers with an error value and never
            // with the protocol shape
            Callable::Lambda(_, _) => false,
        },
    }
}

/// Extracts the value stored in a symbol-table variable binding: exactly
/// the stored expression for a protocol binding, the "Bad value" error for
/// an entry that does not follow the protocol, and the "Not found" error
/// for an absent entry.
pub fn get_sym_table_val(v: Option<&Callable>) -> (r: Sexps)
    ensures
        v is None ==> (r matches Sexps::Error(m) && m@ == "Not found"@),
        v matches Some(c) ==> match stored_of(*c) {
            Some(x) => r == x,
            None => r matches Sexps::Error(m) && m@ == "Bad value"@,
        },
{
    match v {
        None => err("Not found"),
        Some(c) => match c {
            Callable::BuiltIn(_, b) => {
                let res = exec_builtin(b, err("__sym"));
                match res {
                    Sexps::Sub(l) => match &*l {
                        Cons::Cons(first, rest) => {
                            let tagged = match first {
                                Sexps::Error(s) => *s == "__var".to_owned(),
                                _ => false,
                            };
                            if tagged {
                                match &**rest {
                                    Cons::Cons(val, _) => val.clone(),
                                    Cons::Nil => err("Bad value"),
                                }
                            } else {
                                err("Bad value")
                            }
                        }
                        Cons::Nil => err("Bad value"),
                    },
                    _ => err("Bad value"),
                }
            }
            // as in the classification above: a closure probed against a
            // fresh environment never answers with the protocol shape
            Callable::Lambda(_, _) => err("Bad value"),
        },
    }
}

/// The central arena of environments. Each environment is one entry of
/// `parents` (its parent identifier, if any); all bindings live in one flat
/// list tagged with the owning environment, later entries shadowing earlier
/// ones.
pub struct Env {
    pub parents: Vec<Option<EnvId>>,
    pub binds: Vec<(EnvId, String, Callable)>,
}

/// The binding for `name` in environment `env` alone, later insertions
/// shadowing earlier ones.
pub open spec fn find_in_binds(
    binds: Seq<(EnvId, String, Callable)>,
    env: int,
    name: Seq<char>,
) -> Option<Callable>
    decreases binds.len(),
{
    if binds.len() == 0 {
        None
    } else if binds.last().0 == env && binds.last().1@ == name {
        Some(binds.last().2)
    } else {
        find_in_binds(binds.drop_last(), env, name)
    }
}

/// The binding for `name` visible from environment `env`: the environment's
/// own binding, or the nearest one up the parent chain.
pub open spec fn lookup_in(
    parents: Seq<Option<EnvId>>,
    binds: Seq<(EnvId, String, Callable)>,
    env: int,
    name: Seq<char>,
) -> Option<Callable>
    decreases env,
{
    if 0 <= env < parents.len() {
        match find_in_binds(binds, env, name) {
            Some(c) => Some(c),
            None => match parents[env] {
                Some(p) => if p < env {
                    lookup_in(parents, binds, p as int, name)
                } else {
                    None
                },
                None => None,
            },
        }
    } else {
        None
    }
}

impl Env {
    /// Arena well-formedness: every parent points to an earlier
    /// environment, and every binding belongs to an existing environment.
    pub open spec fn wf(self) -> bool {
        &&& forall|i: int|
            0 <= i < self.parents@.len() ==> ((#[trigger] self.parents@[i]) matches Some(p) ==> p
                < i)
        &&& forall|j: int|
            0 <= j < self.binds@.len() ==> (#[trigger] self.binds@[j]).0 < self.parents@.len()
    }

    /// How many environments the arena holds.
    pub open spec fn num_frames(self) -> nat {
        self.parents@.len()
    }

    /// The binding for `name` visible from environment `env`.
    pub open spec fn spec_lookup(self, env: int, name: Seq<char>) -> Option<Callable> {
        lookup_in(self.parents@, self.binds@, env, name)
    }

    /// A fresh arena holding one root environment, with no bindings.
    pub fn new() -> (r: Env)
        ensures
            r.wf(),
            r.num_frames() == 1,
            r.binds@.len() == 0,
            r.parents@[0] is None,
    {
        let mut parents: Vec<Option<EnvId>> = Vec::new();
        parents.push(None);
        Env { parents, binds: Vec::new() }
    }

    /// Creates a new environment whose parent is `parent` and returns its
    /// identifier.
    pub fn add_frame(&mut self, parent: EnvId) -> (id: EnvId)
        requires
            old(self).wf(),
            parent < old(self).num_frames(),
        ensures
            final(self).wf(),
            id == old(self).num_frames(),
            final(self).parents@ == old(self).parents@.push(Some(parent)),
            final(self).binds@ == old(self).binds@,
    {
        let id = self.parents.len();
        self.parents.push(Some(parent));
        id
    }

    /// Binds `name` to `c` in environment `env`, shadowing any earlier
    /// binding of the same name there.
    pub fn insert(&mut self, env: EnvId, name: String, c: Callable)
        requires
            old(self).wf(),
            env < old(self).num_frames(),
        ensures
            final(self).wf(),
            final(self).binds@ == old(self).binds@.push((env, name, c)),
            final(self).parents@ == old(self).parents@,
    {
        self.binds.push((env, name, c));
    }

    /// The binding for `name` in environment `env` alone, ignoring parents.
    fn find_in_frame(&self, env: EnvId, name: &String) -> (r: Option<Callable>)
        ensures
            r == find_in_binds(self.binds@, env as int, name@),
    {
        let mut j: usize = self.binds.len();
        proof {
            assert(self.binds@.subrange(0, j as int) =~= self.binds@);
        }
        while j > 0
            invariant
                j <= self.binds@.len(),
                find_in_binds(self.binds@, env as int, name@) == find_in_binds(
                    self.binds@.subrange(0, j as int),
                    env as int,
                    name@,
                ),
            decreases j,
        {
            j = j - 1;
            let entry = &self.binds[j];
            proof {
                let pre = self.binds@.subrange(0, j + 1 as int);
                assert(pre.last() == self.binds@[j as int]);
                assert(pre.drop_last() =~= self.binds@.subrange(0, j as int));
            }
            if entry.0 == env && entry.1 == *name {
                return Some(entry.2.clone());
            }
        }
        proof {
            assert(self.binds@.subrange(0, 0).len() == 0);
        }
        None
    }

    /// Looks `name` up from environment `env`, walking the parent chain;
    /// an out-of-range identifier finds nothing.
    pub fn lookup(&self, env: EnvId, name: &String) -> (r: Option<Callable>)
        requires
            self.wf(),
        ensures
            r == self.spec_lookup(env as int, name@),
    {
        if env >= self.parents.len() {
            return None;
        }
        let mut cur: EnvId = env;
        loop
            invariant
                self.wf(),
                cur < self.parents@.len(),
                self.spec_lookup(env as int, name@) == self.spec_lookup(cur as int, name@),
            decreases cur,
        {
            match self.find_in_frame(cur, name) {
                Some(c) => {
                    return Some(c);
                }
                None => {
                    match self.parents[cur] {
                        Some(p) => {
                            cur = p;
                        }
                        None => {
                            return None;
                        }
                    }
                }
            }
        }
    }
}

} // verus!
