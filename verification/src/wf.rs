//! Structural well-formedness of built functions and modules.
//!
//! These predicates state the universal invariants of the representation:
//! every block is closed by a terminator (or is an empty trailing block,
//! which only unreachable code can produce), jumps feed exactly the
//! parameters of their target with matching types, branch conditions are
//! boolean, returns carry the declared return type, calls agree with
//! their callee's signature, and every variable has exactly one defining
//! site.  The executable checker proves them for every function the
//! builder hands out.

use vstd::prelude::*;
use crate::ir::{Block, Blocks, Func, Inst, is_terminator};
use crate::value::TypeDef;

verus! {

/// All variable operands of the instruction are in range, and constants
/// carry as many bytes as their tag demands.
pub open spec fn inst_vars_ok(inst: Inst, num_vars: int) -> bool {
    match inst {
        Inst::Op(v, _op, a, b) => v < num_vars && a < num_vars && b < num_vars,
        Inst::UOp(v, _op, a) => v < num_vars && a < num_vars,
        Inst::Call(v, _f, args) => v < num_vars && forall|i: int|
            0 <= i < args@.len() ==> args@[i] < num_vars,
        Inst::Const(v, val) => v < num_vars && val.wf(),
        Inst::Branch(c, _paths) => c < num_vars,
        Inst::JumpTo(_t, args) => forall|i: int| 0 <= i < args@.len() ==> args@[i] < num_vars,
        Inst::Return(v) => v < num_vars,
    }
}

/// Control flow targets exist, jumps match the arity and the types of
/// their target's parameters, and branch conditions are boolean.
pub open spec fn inst_targets_ok(inst: Inst, b: Blocks) -> bool {
    match inst {
        Inst::Branch(c, paths) => {
            &&& paths.0 < b.blocks@.len()
            &&& paths.1 < b.blocks@.len()
            &&& b.var_type@[c as int] == TypeDef::Bool
        },
        Inst::JumpTo(t, args) => {
            &&& t < b.blocks@.len()
            &&& args@.len() == b.block_params@[t as int].1
            &&& forall|i: int|
                0 <= i < args@.len() ==> b.var_type@[args@[i] as int] == b.var_type@[
                    b.block_params@[t as int].0 + i
                ]
        },
        _ => true,
    }
}

/// Whether a terminator stands at or after `i`.
pub open spec fn has_terminator_from(insts: Seq<Inst>, i: int) -> bool
    decreases insts.len() - i,
    when 0 <= i <= insts.len()
{
    if i >= insts.len() {
        false
    } else if is_terminator(insts[i]) {
        true
    } else {
        has_terminator_from(insts, i + 1)
    }
}

/// Whether the instruction defines `v` (block parameters define variables
/// too, but are counted separately).
pub open spec fn inst_defines(inst: Inst, v: usize) -> bool {
    match inst {
        Inst::Op(d, _op, _a, _b) => d == v,
        Inst::UOp(d, _op, _a) => d == v,
        Inst::Call(d, _f, _args) => d == v,
        Inst::Const(d, _val) => d == v,
        _ => false,
    }
}

/// How many instructions define `v`.
pub open spec fn def_count(insts: Seq<Inst>, v: usize) -> nat
    decreases insts.len(),
{
    if insts.len() == 0 {
        0
    } else {
        def_count(insts.drop_last(), v) + if inst_defines(insts.last(), v) {
            1nat
        } else {
            0nat
        }
    }
}

/// How many block parameter slots hold `v`.
pub open spec fn param_count(params: Seq<(usize, usize)>, v: usize) -> nat
    decreases params.len(),
{
    if params.len() == 0 {
        0
    } else {
        param_count(params.drop_last(), v) + if params.last().0 <= v < params.last().0
            + params.last().1 {
            1nat
        } else {
            0nat
        }
    }
}

/// Static single assignment: every variable has exactly one defining site,
/// an instruction or a block parameter slot.
pub open spec fn ssa_single_def(b: Blocks) -> bool {
    forall|v: usize|
        v < b.num_vars ==> #[trigger] def_count(b.insts@, v) + param_count(b.block_params@, v) == 1
}

/// A structurally well-formed function body.
pub open spec fn blocks_wf(b: Blocks) -> bool {
    &&& b.consistent()
    &&& forall|i: int|
        0 <= i < b.insts@.len() ==> inst_vars_ok(#[trigger] b.insts@[i], b.num_vars as int)
            && inst_targets_ok(b.insts@[i], b)
    &&& forall|k: int|
        0 <= k < b.blocks@.len() ==> (#[trigger] b.blocks@[k] == b.insts@.len()
            || has_terminator_from(b.insts@, b.blocks@[k] as int))
    &&& forall|k: int|
        0 <= k < b.block_params@.len() ==> #[trigger] b.block_params@[k].0
            + b.block_params@[k].1 <= b.num_vars
    &&& ssa_single_def(b)
}

/// Every return hands back a variable of the declared return type.
pub open spec fn returns_ok(b: Blocks, ret: TypeDef) -> bool {
    forall|i: int|
        0 <= i < b.insts@.len() ==> match #[trigger] b.insts@[i] {
            Inst::Return(v) => b.var_type@[v as int] == ret,
            _ => true,
        }
}

/// A structurally well-formed function: a well-formed body whose entry
/// block carries the formal parameters and whose returns carry the
/// declared return type.  `Unit` has no run-time representation and no
/// WebAssembly value type, so no variable and no return type carries it;
/// a definition asking for one is refused at build time.
pub open spec fn func_wf(f: Func) -> bool {
    &&& blocks_wf(f.ir)
    &&& f.num_params <= f.ir.num_vars
    &&& f.ir.block_params@[0] == (0usize, f.num_params)
    &&& returns_ok(f.ir, f.return_type)
    &&& f.return_type != TypeDef::Unit
    &&& forall|v: int| 0 <= v < f.ir.var_type@.len() ==> f.ir.var_type@[v] != TypeDef::Unit
}

/// Call instructions of one function agree with the function table: the
/// callee exists, takes as many arguments as are passed, the arguments
/// carry the callee's parameter types, and the result variable carries
/// the callee's return type.
pub open spec fn calls_ok(b: Blocks, funcs: Seq<Func>) -> bool {
    forall|i: int|
        0 <= i < b.insts@.len() ==> match #[trigger] b.insts@[i] {
            Inst::Call(v, f, args) => {
                &&& f < funcs.len()
                &&& args@.len() == funcs[f as int].num_params
                &&& b.var_type@[v as int] == funcs[f as int].return_type
                &&& forall|k: int|
                    0 <= k < args@.len() ==> b.var_type@[args@[k] as int] == funcs[
                        f as int
                    ].ir.var_type@[k]
            },
            _ => true,
        }
}

/// A terminator found at `p` closes every scan that starts at or before it.
pub proof fn lemma_terminator_reaches_back(insts: Seq<Inst>, i: int, p: int)
    requires
        0 <= i <= p < insts.len(),
        is_terminator(insts[p]),
    ensures
        has_terminator_from(insts, i),
    decreases p - i,
{
    if i < p {
        lemma_terminator_reaches_back(insts, i + 1, p);
    }
}

/// Appending one instruction adds its definition to the count.
pub proof fn lemma_def_count_step(insts: Seq<Inst>, i: int, v: usize)
    requires
        0 <= i < insts.len(),
    ensures
        def_count(insts.take(i + 1), v) == def_count(insts.take(i), v) + if inst_defines(
            insts[i],
            v,
        ) {
            1nat
        } else {
            0nat
        },
{
    assert(insts.take(i + 1).drop_last() =~= insts.take(i));
    assert(insts.take(i + 1).last() == insts[i]);
}

/// Appending one block's descriptor adds its parameter run to the count.
pub proof fn lemma_param_count_step(params: Seq<(usize, usize)>, k: int, v: usize)
    requires
        0 <= k < params.len(),
    ensures
        param_count(params.take(k + 1), v) == param_count(params.take(k), v) + if params[k].0 <= v
            < params[k].0 + params[k].1 {
            1nat
        } else {
            0nat
        },
{
    assert(params.take(k + 1).drop_last() =~= params.take(k));
    assert(params.take(k + 1).last() == params[k]);
}

/// Check every variable operand of one instruction.
fn check_inst_vars(inst: &Inst, num_vars: usize) -> (r: bool)
    ensures
        r ==> inst_vars_ok(*inst, num_vars as int),
{
    match inst {
        Inst::Op(v, _op, a, b) => *v < num_vars && *a < num_vars && *b < num_vars,
        Inst::UOp(v, _op, a) => *v < num_vars && *a < num_vars,
        Inst::Call(v, _f, args) => *v < num_vars && check_vars_in_range(args, num_vars),
        Inst::Const(v, val) => {
            let wf: bool = val.get_bytes().bytes.len() == val.get_type().size();
            *v < num_vars && wf
        },
        Inst::Branch(c, _paths) => *c < num_vars,
        Inst::JumpTo(_t, args) => check_vars_in_range(args, num_vars),
        Inst::Return(v) => *v < num_vars,
    }
}

/// Check that every variable of a list is in range.
fn check_vars_in_range(args: &Vec<usize>, num_vars: usize) -> (r: bool)
    ensures
        r ==> forall|i: int| 0 <= i < args@.len() ==> args@[i] < num_vars,
{
    let n: usize = args.len();
    let mut i: usize = 0;
    while i < n
        invariant
            i <= n,
            n == args@.len(),
            forall|j: int| 0 <= j < i ==> args@[j] < num_vars,
        decreases n - i,
    {
        if args[i] >= num_vars {
            return false;
        }
        i = i + 1;
    }
    true
}

/// Check the control flow targets of one instruction.
fn check_inst_targets(inst: &Inst, b: &Blocks) -> (r: bool)
    requires
        b.consistent(),
        inst_vars_ok(*inst, b.num_vars as int),
    ensures
        r ==> inst_targets_ok(*inst, *b),
{
    match inst {
        Inst::Branch(c, paths) => {
            let nb: usize = b.blocks.len();
            paths.0 < nb && paths.1 < nb && b.var_type[*c] == TypeDef::Bool
        },
        Inst::JumpTo(t, args) => {
            let nb: usize = b.blocks.len();
            if *t >= nb {
                return false;
            }
            let first: usize = b.block_params[*t].0;
            let count: usize = b.block_params[*t].1;
            if args.len() != count {
                return false;
            }
            if first > b.num_vars - count {
                return false;
            }
            let mut i: usize = 0;
            while i < count
                invariant
                    i <= count,
                    b.consistent(),
                    *t < b.block_params@.len(),
                    first == b.block_params@[*t as int].0,
                    count == b.block_params@[*t as int].1,
                    first + count <= b.num_vars,
                    args@.len() == count,
                    forall|j: int| 0 <= j < args@.len() ==> args@[j] < b.num_vars,
                    forall|j: int|
                        0 <= j < i ==> b.var_type@[args@[j] as int] == b.var_type@[first + j],
                decreases count - i,
            {
                if b.var_type[args[i]] != b.var_type[first + i] {
                    return false;
                }
                i = i + 1;
            }
            true
        },
        _ => true,
    }
}

/// Check that a terminator stands at or after `start`.
fn check_terminator_from(insts: &Vec<Inst>, start: usize) -> (r: bool)
    requires
        start <= insts@.len(),
    ensures
        r ==> has_terminator_from(insts@, start as int),
{
    let n: usize = insts.len();
    let mut p: usize = start;
    while p < n
        invariant
            start <= p <= n,
            n == insts@.len(),
        decreases n - p,
    {
        let found: bool = match &insts[p] {
            Inst::Branch(..) => true,
            Inst::JumpTo(..) => true,
            Inst::Return(..) => true,
            _ => false,
        };
        if found {
            proof {
                lemma_terminator_reaches_back(insts@, start as int, p as int);
            }
            return true;
        }
        p = p + 1;
    }
    false
}

/// Check single assignment: walk every defining site, fail on the second
/// definition of any variable, and ask one for each at the end.
fn check_ssa(b: &Blocks) -> (r: bool)
    requires
        b.consistent(),
    ensures
        r ==> ssa_single_def(*b),
{
    let mut counts: Vec<usize> = Vec::new();
    let nv: usize = b.num_vars;
    let mut i: usize = 0;
    while i < nv
        invariant
            i <= nv,
            counts@.len() == i,
            forall|v: int| 0 <= v < i ==> counts@[v] == 0,
        decreases nv - i,
    {
        counts.push(0);
        i = i + 1;
    }
    proof {
        assert(b.insts@.take(0) =~= Seq::<Inst>::empty());
    }
    let n: usize = b.insts.len();
    let mut p: usize = 0;
    while p < n
        invariant
            p <= n,
            n == b.insts@.len(),
            b.consistent(),
            counts@.len() == nv,
            nv == b.num_vars,
            forall|v: usize| v < nv ==> counts@[v as int] == def_count(b.insts@.take(p as int), v),
            forall|v: usize| v < nv ==> counts@[v as int] <= 1,
        decreases n - p,
    {
        let dst: Option<usize> = match &b.insts[p] {
            Inst::Op(d, ..) => Some(*d),
            Inst::UOp(d, ..) => Some(*d),
            Inst::Call(d, ..) => Some(*d),
            Inst::Const(d, ..) => Some(*d),
            _ => None,
        };
        proof {
            assert forall|v: usize| v < nv implies def_count(b.insts@.take(p + 1), v) == def_count(
                b.insts@.take(p as int),
                v,
            ) + if inst_defines(b.insts@[p as int], v) {
                1nat
            } else {
                0nat
            } by {
                lemma_def_count_step(b.insts@, p as int, v);
            }
        }
        match dst {
            Some(d) => {
                if d >= nv {
                    return false;
                }
                if counts[d] != 0 {
                    return false;
                }
                counts.set(d, 1);
            },
            None => {},
        }
        p = p + 1;
    }
    proof {
        assert(b.insts@.take(n as int) =~= b.insts@);
        assert(b.block_params@.take(0) =~= Seq::<(usize, usize)>::empty());
    }
    let nb: usize = b.block_params.len();
    let mut k: usize = 0;
    while k < nb
        invariant
            k <= nb,
            nb == b.block_params@.len(),
            b.consistent(),
            counts@.len() == nv,
            nv == b.num_vars,
            forall|v: usize|
                v < nv ==> counts@[v as int] == def_count(b.insts@, v) + param_count(
                    b.block_params@.take(k as int),
                    v,
                ),
            forall|v: usize| v < nv ==> counts@[v as int] <= 1,
        decreases nb - k,
    {
        let first: usize = b.block_params[k].0;
        let count: usize = b.block_params[k].1;
        proof {
            assert forall|v: usize| v < nv implies param_count(
                b.block_params@.take(k + 1),
                v,
            ) == param_count(b.block_params@.take(k as int), v) + if b.block_params@[k as int].0
                <= v < b.block_params@[k as int].0 + b.block_params@[k as int].1 {
                1nat
            } else {
                0nat
            } by {
                lemma_param_count_step(b.block_params@, k as int, v);
            }
        }
        if first > nv - count {
            return false;
        }
        let mut j: usize = 0;
        while j < count
            invariant
                j <= count,
                counts@.len() == nv,
                nv == b.num_vars,
                first + count <= nv,
                first == b.block_params@[k as int].0,
                count == b.block_params@[k as int].1,
                forall|v: usize|
                    v < nv && !(first <= v < first + j) ==> counts@[v as int] == def_count(
                        b.insts@,
                        v,
                    ) + param_count(b.block_params@.take(k as int), v),
                forall|v: usize|
                    v < nv && first <= v < first + j ==> counts@[v as int] == def_count(b.insts@, v)
                        + param_count(b.block_params@.take(k as int), v) + 1,
                forall|v: usize| v < nv ==> counts@[v as int] <= 1,
            decreases count - j,
        {
            let v: usize = first + j;
            if counts[v] != 0 {
                return false;
            }
            counts.set(v, 1);
            j = j + 1;
        }
        k = k + 1;
    }
    proof {
        assert(b.block_params@.take(nb as int) =~= b.block_params@);
    }
    let mut v: usize = 0;
    while v < nv
        invariant
            v <= nv,
            counts@.len() == nv,
            nv == b.num_vars,
            forall|w: usize|
                w < nv ==> counts@[w as int] == def_count(b.insts@, w) + param_count(
                    b.block_params@,
                    w,
                ),
            forall|w: usize| w < v ==> def_count(b.insts@, w) + param_count(b.block_params@, w) == 1,
        decreases nv - v,
    {
        if counts[v] != 1 {
            return false;
        }
        v = v + 1;
    }
    true
}

/// Check one function body whole.
pub fn check_blocks(b: &Blocks) -> (r: bool)
    ensures
        r ==> blocks_wf(*b),
{
    let nv: usize = b.num_vars;
    if b.var_type.len() != nv || b.var_decl.len() != nv {
        return false;
    }
    let nb: usize = b.blocks.len();
    if b.block_params.len() != nb || nb == 0 {
        return false;
    }
    let n: usize = b.insts.len();
    let mut k: usize = 0;
    while k < nb
        invariant
            k <= nb,
            nb == b.blocks@.len(),
            nb == b.block_params@.len(),
            n == b.insts@.len(),
            nv == b.num_vars,
            forall|j: int| 0 <= j < k ==> b.blocks@[j] <= n,
            forall|j: int|
                0 <= j < k ==> #[trigger] b.block_params@[j].0 + b.block_params@[j].1 <= nv,
            forall|j: int|
                0 <= j < k ==> (#[trigger] b.blocks@[j] == n || has_terminator_from(
                    b.insts@,
                    b.blocks@[j] as int,
                )),
        decreases nb - k,
    {
        let label: usize = b.blocks[k];
        if label > n {
            return false;
        }
        let first: usize = b.block_params[k].0;
        let count: usize = b.block_params[k].1;
        if count > nv || first > nv - count {
            return false;
        }
        if label < n {
            if !check_terminator_from(&b.insts, label) {
                return false;
            }
        }
        k = k + 1;
    }
    proof {
        assert forall|j: int| 0 <= j < nb implies b.block_params@[j].1 <= nv by {
            assert(b.block_params@[j].0 + b.block_params@[j].1 <= nv);
        }
        assert(b.consistent());
    }
    let mut i: usize = 0;
    while i < n
        invariant
            i <= n,
            n == b.insts@.len(),
            nv == b.num_vars,
            b.consistent(),
            forall|j: int|
                0 <= j < i ==> inst_vars_ok(#[trigger] b.insts@[j], nv as int) && inst_targets_ok(
                    b.insts@[j],
                    *b,
                ),
        decreases n - i,
    {
        if !check_inst_vars(&b.insts[i], nv) {
            return false;
        }
        if !check_inst_targets(&b.insts[i], b) {
            return false;
        }
        i = i + 1;
    }
    check_ssa(b)
}

/// Check the call instructions of one body against the function table.
pub fn check_calls(b: &Blocks, funcs: &Vec<Func>) -> (r: bool)
    ensures
        r ==> calls_ok(*b, funcs@),
{
    let n: usize = b.insts.len();
    let mut i: usize = 0;
    while i < n
        invariant
            i <= n,
            n == b.insts@.len(),
            forall|j: int|
                0 <= j < i ==> match #[trigger] b.insts@[j] {
                    Inst::Call(v, f, args) => {
                        &&& f < funcs@.len()
                        &&& args@.len() == funcs@[f as int].num_params
                        &&& b.var_type@[v as int] == funcs@[f as int].return_type
                        &&& forall|k: int|
                            0 <= k < args@.len() ==> b.var_type@[args@[k] as int] == funcs@[
                                f as int
                            ].ir.var_type@[k]
                    },
                    _ => true,
                },
        decreases n - i,
    {
        match &b.insts[i] {
            Inst::Call(v, f, args) => {
                if *f >= funcs.len() {
                    return false;
                }
                if args.len() != funcs[*f].num_params {
                    return false;
                }
                if *v >= b.var_type.len() {
                    return false;
                }
                if b.var_type[*v] != funcs[*f].return_type {
                    return false;
                }
                let na: usize = args.len();
                let mut k: usize = 0;
                while k < na
                    invariant
                        k <= na,
                        na == args@.len(),
                        *f < funcs@.len(),
                        forall|j: int|
                            0 <= j < k ==> (#[trigger] args@[j]) < b.var_type@.len()
                                && b.var_type@[args@[j] as int] == funcs@[*f as int].ir.var_type@[
                                j
                            ],
                    decreases na - k,
                {
                    let av: usize = args[k];
                    if av >= b.var_type.len() {
                        return false;
                    }
                    if k >= funcs[*f].ir.var_type.len() {
                        return false;
                    }
                    if b.var_type[av] != funcs[*f].ir.var_type[k] {
                        return false;
                    }
                    proof {
                        assert(args@[k as int] < b.var_type@.len());
                        assert(b.var_type@[args@[k as int] as int] == funcs@[*f as int].ir.var_type@[
                            k as int
                        ]);
                    }
                    k = k + 1;
                }
            },
            _ => {},
        }
        i = i + 1;
    }
    true
}

/// Check one function whole.
pub fn check_func(f: &Func) -> (r: bool)
    ensures
        r ==> func_wf(*f),
{
    if !check_blocks(&f.ir) {
        return false;
    }
    if f.num_params > f.ir.num_vars {
        return false;
    }
    let first: usize = f.ir.block_params[0].0;
    let count: usize = f.ir.block_params[0].1;
    if first != 0 || count != f.num_params {
        return false;
    }
    if f.return_type == TypeDef::Unit {
        return false;
    }
    let ntypes: usize = f.ir.var_type.len();
    let mut w: usize = 0;
    while w < ntypes
        invariant
            w <= ntypes,
            ntypes == f.ir.var_type@.len(),
            forall|v: int| 0 <= v < w ==> f.ir.var_type@[v] != TypeDef::Unit,
        decreases ntypes - w,
    {
        if f.ir.var_type[w] == TypeDef::Unit {
            return false;
        }
        w = w + 1;
    }
    let n: usize = f.ir.insts.len();
    let mut i: usize = 0;
    while i < n
        invariant
            i <= n,
            n == f.ir.insts@.len(),
            blocks_wf(f.ir),
            forall|j: int|
                0 <= j < i ==> match #[trigger] f.ir.insts@[j] {
                    Inst::Return(v) => f.ir.var_type@[v as int] == f.return_type,
                    _ => true,
                },
        decreases n - i,
    {
        match &f.ir.insts[i] {
            Inst::Return(v) => {
                proof {
                    assert(inst_vars_ok(f.ir.insts@[i as int], f.ir.num_vars as int));
                }
                if f.ir.var_type[*v] != f.return_type {
                    return false;
                }
            },
            _ => {},
        }
        i = i + 1;
    }
    true
}

} // verus!
