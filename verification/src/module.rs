//! Module assembly: from a list of definitions to a table of lowered,
//! checked functions.
//!
//! `from_ast` is the one door into a [`Module`]: it registers every
//! function name, lowers every body, and then holds each function to the
//! structural well-formedness checks of [`crate::wf`].  A module it hands
//! out therefore carries the representation invariants — terminator
//! discipline, jump arity and types, boolean branch conditions, matching
//! return types, single assignment — as a proved postcondition, and its
//! scope is exactly the definitions' names declared in order, each to its
//! table index.

use vstd::prelude::*;
use crate::ast::{Ast, FuncDef};
use crate::interp::{F64Ops, Trap, exec_ir};
use crate::ir::{Blocks, BuildError, Func};
use crate::scope::{Scope, find_entry, spec_upsert, sv_get};
use crate::sem::model_exec;
use crate::value::{Mem, TypeDef, Value};
use crate::wf::{calls_ok, check_calls, check_func, func_wf};

verus! {

/// The function definitions among a list of parsed top-level items, in
/// their order.
pub open spec fn func_defs_of(defs: Seq<Ast>) -> Seq<FuncDef>
    decreases defs.len(),
{
    if defs.len() == 0 {
        Seq::empty()
    } else {
        func_defs_of(defs.drop_last()) + match defs.last() {
            Ast::FuncDef(fd) => seq![fd],
            _ => Seq::<FuncDef>::empty(),
        }
    }
}

/// The module scope's bindings after declaring every definition's name,
/// in order, each to its table index: a later definition of the same name
/// rebinds it in place.
pub open spec fn decl_entries(fds: Seq<FuncDef>) -> Seq<(Seq<char>, usize)>
    decreases fds.len(),
{
    if fds.len() == 0 {
        Seq::empty()
    } else {
        spec_upsert(decl_entries(fds.drop_last()), fds.last().name@, (fds.len() - 1) as usize)
    }
}

/// A compiled module: the function table and the module scope mapping each
/// function name to its table index.
pub struct Module {
    pub scope: Scope,
    pub funcs: Vec<Func>,
}

impl Module {
    /// Every function is structurally well formed and calls only existing
    /// functions with the arity and the types they declare.
    pub open spec fn wf(self) -> bool {
        forall|i: int|
            0 <= i < self.funcs@.len() ==> func_wf(#[trigger] self.funcs@[i]) && calls_ok(
                self.funcs@[i].ir,
                self.funcs@,
            )
    }

    /// Lower and check a whole module.  On success the module is well
    /// formed; its function table mirrors the definitions — one entry per
    /// definition, in order, with the definition's name, arity and return
    /// type — and its scope is exactly the definitions' names declared in
    /// order, each to its table index.
    pub fn from_ast(defs: &Vec<Ast>) -> (r: Result<Module, BuildError>)
        ensures
            r matches Ok(m) ==> {
                &&& m.wf()
                &&& m.funcs@.len() == func_defs_of(defs@).len()
                &&& forall|i: int|
                    0 <= i < m.funcs@.len() ==> {
                        &&& (#[trigger] m.funcs@[i]).name@ == func_defs_of(defs@)[i].name@
                        &&& m.funcs@[i].num_params == func_defs_of(defs@)[i].params@.len()
                        &&& m.funcs@[i].return_type == func_defs_of(defs@)[i].return_type
                    }
                &&& m.scope@.locals == decl_entries(func_defs_of(defs@))
                &&& m.scope@.assign == Seq::<(Seq<char>, usize)>::empty()
                &&& m.scope@.parent is None
            },
            defs@.len() == 0 ==> r is Ok,
    {
        let ghost fds = func_defs_of(defs@);
        let mut module = Module { scope: Scope::new(), funcs: Vec::new() };
        let mut rets: Vec<TypeDef> = Vec::new();
        let n: usize = defs.len();
        proof {
            assert(defs@.take(0) =~= Seq::<Ast>::empty());
        }
        // Register every function name and return type first, so that
        // bodies can call forward as well as backward.
        let mut count: usize = 0;
        let mut i: usize = 0;
        while i < n
            invariant
                i <= n,
                n == defs@.len(),
                count == func_defs_of(defs@.take(i as int)).len(),
                count <= i,
                rets@.len() == count,
                forall|j: int|
                    0 <= j < count ==> rets@[j] == func_defs_of(defs@.take(i as int))[
                        j
                    ].return_type,
                module.scope@.locals == decl_entries(func_defs_of(defs@.take(i as int))),
                module.scope@.assign == Seq::<(Seq<char>, usize)>::empty(),
                module.scope@.parent is None,
                module.funcs@.len() == 0,
            decreases n - i,
        {
            proof {
                assert(defs@.take(i + 1).drop_last() =~= defs@.take(i as int));
                assert(defs@.take(i + 1).last() == defs@[i as int]);
            }
            match &defs[i] {
                Ast::FuncDef(fd) => {
                    proof {
                        assert(func_defs_of(defs@.take(i + 1)).drop_last() =~= func_defs_of(
                            defs@.take(i as int),
                        ));
                    }
                    module.scope.declair(fd.name.clone(), count);
                    rets.push(fd.return_type);
                    count = count + 1;
                },
                _ => {},
            }
            i = i + 1;
        }
        // Lower each definition in order; `Func::new` holds each to the
        // structural checks.
        proof {
            assert(defs@.take(n as int) =~= defs@);
            assert(func_defs_of(defs@.take(0)) =~= Seq::<FuncDef>::empty());
        }
        let mut k: usize = 0;
        while k < n
            invariant
                k <= n,
                n == defs@.len(),
                fds == func_defs_of(defs@),
                rets@.len() == fds.len(),
                forall|j: int| 0 <= j < fds.len() ==> rets@[j] == fds[j].return_type,
                module.scope@.locals == decl_entries(fds),
                module.scope@.assign == Seq::<(Seq<char>, usize)>::empty(),
                module.scope@.parent is None,
                module.funcs@.len() == func_defs_of(defs@.take(k as int)).len(),
                module.funcs@.len() <= fds.len(),
                forall|j: int|
                    0 <= j < module.funcs@.len() ==> func_defs_of(defs@.take(k as int))[j] == fds[j],
                forall|j: int|
                    0 <= j < module.funcs@.len() ==> {
                        &&& func_wf(#[trigger] module.funcs@[j])
                        &&& (module.funcs@[j]).name@ == fds[j].name@
                        &&& module.funcs@[j].num_params == fds[j].params@.len()
                        &&& module.funcs@[j].return_type == fds[j].return_type
                    },
            decreases n - k,
        {
            proof {
                assert(defs@.take(k + 1).drop_last() =~= defs@.take(k as int));
                assert(defs@.take(k + 1).last() == defs@[k as int]);
                lemma_func_defs_prefix(defs@, k + 1);
            }
            match &defs[k] {
                Ast::FuncDef(fd) => {
                    let f: Func = match Func::new(&module, &rets, fd) {
                        Ok(f) => f,
                        Err(e) => {
                            return Err(e);
                        },
                    };
                    module.funcs.push(f);
                },
                _ => {},
            }
            k = k + 1;
        }
        proof {
            assert(defs@.take(n as int) =~= defs@);
        }
        // Call sites can only be checked once the whole table stands.
        let m: usize = module.funcs.len();
        let mut c: usize = 0;
        while c < m
            invariant
                c <= m,
                m == module.funcs@.len(),
                m <= defs@.len(),
                forall|j: int| 0 <= j < c ==> calls_ok((#[trigger] module.funcs@[j]).ir, module.funcs@),
            decreases m - c,
        {
            if !check_calls(&module.funcs[c].ir, &module.funcs) {
                return Err(BuildError::IllFormed);
            }
            c = c + 1;
        }
        Ok(module)
    }

    /// The function a name is bound to, when the binding is a valid table
    /// index.
    pub fn get(&self, name: &str) -> (r: Option<&Func>)
        ensures
            r matches Some(f) ==> {
                &&& sv_get(self.scope@, name@) matches Some(id)
                &&& id < self.funcs@.len()
                &&& *f == self.funcs@[sv_get(self.scope@, name@)->0 as int]
            },
            r is None ==> match sv_get(self.scope@, name@) {
                Some(id) => id >= self.funcs@.len(),
                None => true,
            },
    {
        match self.scope.get(name) {
            Some(id) => {
                if id < self.funcs.len() {
                    Some(&self.funcs[id])
                } else {
                    None
                }
            },
            None => None,
        }
    }

    /// Execute the named function on the given arguments, with the default
    /// step budget.  The float arithmetic of the host comes in through
    /// `alu`.  With the name bound and every argument well formed, the
    /// call is the specification-level run [`model_exec`] of the bound
    /// function: any run the model pins — every run clear of host float
    /// arithmetic — returns exactly the model's value or trap.  A
    /// returned value is well formed and carries the named function's
    /// declared return type, and the no-such-function error comes exactly
    /// when the name is not bound to a table entry.
    pub fn exec<A: F64Ops>(&self, alu: &A, name: &str, args: Vec<Value>) -> (r: Result<Value, Trap>)
        ensures
            r matches Ok(v) ==> {
                &&& v.wf()
                &&& sv_get(self.scope@, name@) matches Some(id)
                &&& id < self.funcs@.len()
                &&& v.spec_type() == self.funcs@[sv_get(self.scope@, name@)->0 as int].return_type
            },
            r == Err::<Value, Trap>(Trap::NoSuchFunction) <==> match sv_get(self.scope@, name@) {
                Some(id) => id >= self.funcs@.len(),
                None => true,
            },
            (forall|j: int| 0 <= j < args@.len() ==> (#[trigger] args@[j]).wf()) && (match sv_get(
                self.scope@,
                name@,
            ) {
                Some(id) => id < self.funcs@.len(),
                None => false,
            }) ==> match model_exec(
                self.funcs@[sv_get(self.scope@, name@)->0 as int],
                self.funcs@,
                args@.map_values(|a: Value| a@),
                u64::MAX as nat,
            ) {
                Some(res) => match res {
                    Ok(mv) => r matches Ok(v) && v@ == mv,
                    Err(t) => r == Err::<Value, Trap>(t),
                },
                None => true,
            },
    {
        match self.get(name) {
            Some(func) => {
                let mut memory: Mem = Mem::default();
                exec_ir(alu, func, &self.funcs, &mut memory, args, u64::MAX)
            },
            None => Err(Trap::NoSuchFunction),
        }
    }
}

/// A prefix of the definition list contributes a prefix of the function
/// definitions.
proof fn lemma_func_defs_prefix(defs: Seq<Ast>, i: int)
    requires
        0 <= i <= defs.len(),
    ensures
        func_defs_of(defs.take(i)).len() <= func_defs_of(defs).len(),
        forall|j: int|
            0 <= j < func_defs_of(defs.take(i)).len() ==> func_defs_of(defs.take(i))[j]
                == func_defs_of(defs)[j],
    decreases defs.len() - i,
{
    if i == defs.len() {
        assert(defs.take(i) =~= defs);
    } else {
        lemma_func_defs_prefix(defs, i + 1);
        assert(defs.take(i + 1).drop_last() =~= defs.take(i));
        assert(defs.take(i + 1).last() == defs[i]);
    }
}

/// A scan that matches at `i`, with no earlier match, finds that binding.
proof fn lemma_find_entry_at(entries: Seq<(Seq<char>, usize)>, name: Seq<char>, i: int)
    requires
        0 <= i < entries.len(),
        entries[i].0 == name,
        forall|j: int| 0 <= j < i ==> entries[j].0 != name,
    ensures
        find_entry(entries, name) == Some(entries[i].1),
    decreases i,
{
    if i > 0 {
        lemma_find_entry_at(entries.drop_first(), name, i - 1);
    }
}

/// A scan over a list without the key finds nothing.
proof fn lemma_find_entry_none(entries: Seq<(Seq<char>, usize)>, name: Seq<char>)
    requires
        forall|j: int| 0 <= j < entries.len() ==> entries[j].0 != name,
    ensures
        find_entry(entries, name) is None,
    decreases entries.len(),
{
    if entries.len() > 0 {
        lemma_find_entry_none(entries.drop_first(), name);
    }
}

/// With pairwise distinct definition names, declaring every name in order
/// appends one binding per definition: entry `j` binds the name of
/// definition `j` to `j`.
proof fn lemma_decl_entries_distinct(fds: Seq<FuncDef>)
    requires
        forall|j: int, k: int| 0 <= j < k < fds.len() ==> fds[j].name@ != fds[k].name@,
    ensures
        decl_entries(fds).len() == fds.len(),
        forall|j: int|
            0 <= j < fds.len() ==> #[trigger] decl_entries(fds)[j] == (
                fds[j].name@,
                j as usize,
            ),
    decreases fds.len(),
{
    if fds.len() > 0 {
        let prev = fds.drop_last();
        lemma_decl_entries_distinct(prev);
        assert forall|j: int|
            0 <= j < decl_entries(prev).len() implies decl_entries(prev)[j].0 != fds.last().name@ by {
            assert(prev[j] == fds[j]);
        }
        lemma_find_entry_none(decl_entries(prev), fds.last().name@);
    }
}

/// The law of module assembly's scope: with pairwise distinct definition
/// names, a built module's scope binds each definition's name to its
/// index in the function table, so `get` on that name yields exactly the
/// definition's lowered function.
pub proof fn lemma_module_scope_binds(m: Module, fds: Seq<FuncDef>, i: int)
    requires
        m.scope@.locals == decl_entries(fds),
        m.scope@.assign == Seq::<(Seq<char>, usize)>::empty(),
        m.scope@.parent is None,
        0 <= i < fds.len(),
        forall|j: int, k: int| 0 <= j < k < fds.len() ==> fds[j].name@ != fds[k].name@,
    ensures
        sv_get(m.scope@, fds[i].name@) == Some(i as usize),
{
    lemma_decl_entries_distinct(fds);
    assert forall|j: int| 0 <= j < i implies decl_entries(fds)[j].0 != fds[i].name@ by {
        assert(decl_entries(fds)[j] == (fds[j].name@, j as usize));
    }
    assert(decl_entries(fds)[i] == (fds[i].name@, i as usize));
    lemma_find_entry_at(m.scope@.locals, fds[i].name@, i);
}

impl Func {
    /// Lower one definition against the module scope built so far, and
    /// hold the result to the structural well-formedness checks.  `rets`
    /// is the declared return type of every definition of the module, in
    /// table order, so that calls lowered here type their result from
    /// their callee.  A function this returns is well formed: terminator
    /// discipline, jump arity and types, boolean branch conditions,
    /// return types matching the declaration, and single assignment all
    /// hold of it, and its first variables are the formal parameters with
    /// their declared types.
    pub fn new(module: &Module, rets: &Vec<TypeDef>, func_def: &FuncDef) -> (r: Result<
        Func,
        BuildError,
    >)
        ensures
            r matches Ok(f) ==> {
                &&& f.name@ == func_def.name@
                &&& f.num_params == func_def.params@.len()
                &&& f.return_type == func_def.return_type
                &&& func_wf(f)
                &&& forall|i: int|
                    0 <= i < func_def.params@.len() ==> f.ir.var_type@[i] == func_def.params@[
                        i
                    ].param_type
                &&& f.ir.func_rets@ == rets@
            },
    {
        let mut ir: Blocks = Blocks::new(&func_def.params, rets);
        let mut scope: Scope = module.scope.child();
        let num_params: usize = func_def.params.len();
        let mut i: usize = 0;
        while i < num_params
            invariant
                i <= num_params,
                num_params == func_def.params@.len(),
            decreases num_params - i,
        {
            scope.declair(func_def.params[i].name.clone(), i);
            i = i + 1;
        }
        match ir.add(&func_def.body, &mut scope) {
            Ok(_v) => {},
            Err(e) => {
                return Err(e);
            },
        }
        let f = Func {
            name: func_def.name.clone(),
            num_params,
            return_type: func_def.return_type,
            ir,
        };
        if !check_func(&f) {
            return Err(BuildError::IllFormed);
        }
        Ok(f)
    }
}

} // verus!
