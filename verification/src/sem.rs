//! The specification-level run of the interpreter.
//!
//! `model_exec` is a mathematical reading of one interpreter call frame:
//! a register file of scalar models, stepped instruction by instruction
//! exactly as the executable walk steps, with the same fuel accounting,
//! the same bump allocation bound and the same traps in the same order.
//! [`crate::interp::exec_ir`] proves that, whenever every argument is
//! well formed, its result is the run's result.
//!
//! The one thing the model does not fix is host floating point: a binary
//! operation on two doubles goes through the [`crate::interp::F64Ops`]
//! interface, whose answers the library cannot state.  A run that reaches
//! such an operation leaves the model, returning `None`; every run that
//! stays inside it — all integer, boolean and float-negation work — has
//! its value pinned exactly.

use vstd::prelude::*;
use crate::interp::{Trap, f64_sign_mask, spec_i32_op, wrap_i32};
use crate::ir::{Func, Inst, Op, UOp};
use crate::value::{
    TypeDef, Value, ValueModel, spec_u32_from_be_bytes, spec_u64_from_be_bytes,
};

verus! {

/// The scratch buffer a frame starts with, in bytes.
pub open spec fn frame_capacity() -> nat {
    1024
}

/// A specification-level register file: per variable its scalar model
/// once assigned and its declared type, plus the bump allocation
/// watermark and the scratch capacity.
pub ghost struct RegModel {
    pub vals: Seq<Option<ValueModel>>,
    pub types: Seq<TypeDef>,
    pub used: nat,
    pub cap: nat,
}

/// The type of a scalar model.
pub open spec fn model_type(m: ValueModel) -> TypeDef {
    match m {
        ValueModel::Unit => TypeDef::Unit,
        ValueModel::Bool(_b) => TypeDef::Bool,
        ValueModel::I32(_x) => TypeDef::I32,
        ValueModel::F64(_x) => TypeDef::F64,
    }
}

/// The scalar a type tag and its representation bytes denote; this is
/// exactly the view of a [`Value`] holding them.
pub open spec fn decode(t: TypeDef, bytes: Seq<u8>) -> ValueModel {
    match t {
        TypeDef::Unit => ValueModel::Unit,
        TypeDef::Bool => ValueModel::Bool(bytes[0] == 1),
        TypeDef::I32 => ValueModel::I32(spec_u32_from_be_bytes(bytes) as i32),
        TypeDef::F64 => ValueModel::F64(spec_u64_from_be_bytes(bytes)),
    }
}

/// A value's view is the decoding of its tag and bytes.
pub proof fn lemma_decode_view(v: Value)
    ensures
        decode(v.spec_type(), v.spec_bytes()) == v@,
        model_type(v@) == v.spec_type(),
{
}

/// Read a register: out of range is a bounds trap, an unassigned slot a
/// type trap.
pub open spec fn model_get(m: RegModel, var: usize) -> Result<ValueModel, Trap> {
    if var >= m.vals.len() {
        Err(Trap::OutOfBounds)
    } else {
        match m.vals[var as int] {
            Some(v) => Ok(v),
            None => Err(Trap::TypeMismatch),
        }
    }
}

/// Write a register, allocating its slot on first assignment: the value
/// must carry the declared type, and a first assignment needs room under
/// the capacity.
pub open spec fn model_assign(m: RegModel, var: usize, val: ValueModel) -> Result<
    RegModel,
    Trap,
> {
    if var >= m.types.len() {
        Err(Trap::OutOfBounds)
    } else if model_type(val) != m.types[var as int] {
        Err(Trap::TypeMismatch)
    } else if var < m.vals.len() && m.vals[var as int] is Some {
        Ok(
            RegModel {
                vals: m.vals.update(var as int, Some(val)),
                types: m.types,
                used: m.used,
                cap: m.cap,
            },
        )
    } else if m.used + m.types[var as int].spec_size() <= m.cap {
        Ok(
            RegModel {
                vals: m.vals.update(var as int, Some(val)),
                types: m.types,
                used: m.used + m.types[var as int].spec_size(),
                cap: m.cap,
            },
        )
    } else {
        Err(Trap::OutOfBounds)
    }
}

/// A binary operation on two scalar models: mismatched or unit operands
/// trap, integer and boolean work is pinned, and a float pair leaves the
/// model (`None`) — its result belongs to the host.
pub open spec fn model_do_op(op: Op, a: ValueModel, b: ValueModel) -> Option<Result<
    ValueModel,
    Trap,
>> {
    match (a, b) {
        (ValueModel::Bool(x), ValueModel::Bool(y)) => match op {
            Op::Eq => Some(Ok(ValueModel::Bool(x == y))),
            Op::Ne => Some(Ok(ValueModel::Bool(x != y))),
            _ => Some(Err(Trap::TypeMismatch)),
        },
        (ValueModel::I32(x), ValueModel::I32(y)) => Some(spec_i32_op(op, x, y)),
        (ValueModel::F64(_x), ValueModel::F64(_y)) => None,
        _ => Some(Err(Trap::TypeMismatch)),
    }
}

/// A unary operation on a scalar model: integer negation wraps, float
/// negation flips the sign bit, `Not` inverts a boolean; everything else
/// traps.
pub open spec fn model_do_uop(op: UOp, a: ValueModel) -> Result<ValueModel, Trap> {
    match (op, a) {
        (UOp::Neg, ValueModel::I32(x)) => Ok(ValueModel::I32(wrap_i32(0 - x))),
        (UOp::Neg, ValueModel::F64(bits)) => Ok(ValueModel::F64(bits ^ f64_sign_mask())),
        (UOp::Not, ValueModel::Bool(x)) => Ok(ValueModel::Bool(!x)),
        _ => Err(Trap::TypeMismatch),
    }
}

/// Bind the call arguments to the formal parameters, in order; the first
/// failing write decides.
pub open spec fn model_init_args(m: RegModel, args: Seq<ValueModel>, i: int) -> Result<
    RegModel,
    Trap,
>
    decreases args.len() - i,
{
    if i < 0 || i >= args.len() {
        Ok(m)
    } else {
        match model_assign(m, i as usize, args[i]) {
            Ok(m2) => model_init_args(m2, args, i + 1),
            Err(t) => Err(t),
        }
    }
}

/// Read the argument registers of a call, in order; the first failing
/// read decides.
pub open spec fn model_gather(m: RegModel, regs: Seq<usize>, k: int) -> Result<
    Seq<ValueModel>,
    Trap,
>
    decreases regs.len() - k,
{
    if k < 0 || k >= regs.len() {
        Ok(Seq::empty())
    } else {
        match model_get(m, regs[k]) {
            Ok(v) => match model_gather(m, regs, k + 1) {
                Ok(rest) => Ok(seq![v] + rest),
                Err(t) => Err(t),
            },
            Err(t) => Err(t),
        }
    }
}

/// Copy the jump arguments into the target's parameter slots, in order;
/// the first failing read or write decides.
pub open spec fn model_pass(m: RegModel, jargs: Seq<usize>, first: usize, k: int) -> Result<
    RegModel,
    Trap,
>
    decreases jargs.len() - k,
{
    if k < 0 || k >= jargs.len() {
        Ok(m)
    } else {
        match model_get(m, jargs[k]) {
            Ok(v) => match model_assign(m, (first + k) as usize, v) {
                Ok(m2) => model_pass(m2, jargs, first, k + 1),
                Err(t) => Err(t),
            },
            Err(t) => Err(t),
        }
    }
}

/// One walk from instruction `step` with `gas` steps left, exactly as
/// section by section the executable walk goes: straight-line
/// instructions assign and move on, a jump feeds its target's parameters
/// and transfers, a branch reads a boolean, a return hands back a value
/// of the declared return type.  `None` means the run met host floating
/// point and left the model.
pub open spec fn model_step(
    f: Func,
    funcs: Seq<Func>,
    m: RegModel,
    step: int,
    gas: nat,
) -> Option<Result<ValueModel, Trap>>
    decreases gas, 0int,
{
    if gas == 0 {
        Some(Err(Trap::OutOfFuel))
    } else {
        let g = (gas - 1) as nat;
        if step < 0 || step >= f.ir.insts@.len() {
            Some(Err(Trap::OutOfBounds))
        } else {
            match f.ir.insts@[step] {
                Inst::Op(var, op, a, b) => match model_get(m, a) {
                    Ok(va) => match model_get(m, b) {
                        Ok(vb) => match model_do_op(op, va, vb) {
                            None => None,
                            Some(Err(t)) => Some(Err(t)),
                            Some(Ok(res)) => match model_assign(m, var, res) {
                                Ok(m2) => model_step(f, funcs, m2, step + 1, g),
                                Err(t) => Some(Err(t)),
                            },
                        },
                        Err(t) => Some(Err(t)),
                    },
                    Err(t) => Some(Err(t)),
                },
                Inst::UOp(var, op, a) => match model_get(m, a) {
                    Ok(va) => match model_do_uop(op, va) {
                        Ok(res) => match model_assign(m, var, res) {
                            Ok(m2) => model_step(f, funcs, m2, step + 1, g),
                            Err(t) => Some(Err(t)),
                        },
                        Err(t) => Some(Err(t)),
                    },
                    Err(t) => Some(Err(t)),
                },
                Inst::Const(var, val) => if !val.wf() {
                    Some(Err(Trap::TypeMismatch))
                } else {
                    match model_assign(m, var, val@) {
                        Ok(m2) => model_step(f, funcs, m2, step + 1, g),
                        Err(t) => Some(Err(t)),
                    }
                },
                Inst::Call(var, fid, pregs) => if fid >= funcs.len() {
                    Some(Err(Trap::OutOfBounds))
                } else {
                    match model_gather(m, pregs@, 0) {
                        Ok(vals) => match model_exec(funcs[fid as int], funcs, vals, g) {
                            None => None,
                            Some(Err(t)) => Some(Err(t)),
                            Some(Ok(res)) => match model_assign(m, var, res) {
                                Ok(m2) => model_step(f, funcs, m2, step + 1, g),
                                Err(t) => Some(Err(t)),
                            },
                        },
                        Err(t) => Some(Err(t)),
                    }
                },
                Inst::JumpTo(block, jargs) => if block >= f.ir.blocks@.len() || block
                    >= f.ir.block_params@.len() {
                    Some(Err(Trap::OutOfBounds))
                } else {
                    let first = f.ir.block_params@[block as int].0;
                    let count = f.ir.block_params@[block as int].1;
                    if jargs@.len() != count {
                        Some(Err(Trap::OutOfBounds))
                    } else if first > usize::MAX - count {
                        Some(Err(Trap::OutOfBounds))
                    } else {
                        match model_pass(m, jargs@, first, 0) {
                            Ok(m2) => model_step(
                                f,
                                funcs,
                                m2,
                                f.ir.blocks@[block as int] as int,
                                g,
                            ),
                            Err(t) => Some(Err(t)),
                        }
                    }
                },
                Inst::Branch(cond, paths) => match model_get(m, cond) {
                    Ok(v) => match v {
                        ValueModel::Bool(taken) => {
                            let target = if taken {
                                paths.0
                            } else {
                                paths.1
                            };
                            if target >= f.ir.blocks@.len() {
                                Some(Err(Trap::OutOfBounds))
                            } else {
                                model_step(
                                    f,
                                    funcs,
                                    m,
                                    f.ir.blocks@[target as int] as int,
                                    g,
                                )
                            }
                        },
                        _ => Some(Err(Trap::TypeMismatch)),
                    },
                    Err(t) => Some(Err(t)),
                },
                Inst::Return(var) => match model_get(m, var) {
                    Ok(v) => if model_type(v) != f.return_type {
                        Some(Err(Trap::TypeMismatch))
                    } else {
                        Some(Ok(v))
                    },
                    Err(t) => Some(Err(t)),
                },
            }
        }
    }
}

/// The fresh register file of a frame over the function's variable
/// table: nothing assigned, nothing allocated, the default capacity.
pub open spec fn model_fresh(f: Func) -> RegModel {
    RegModel {
        vals: Seq::new(f.ir.var_type@.len(), |i: int| None),
        types: f.ir.var_type@,
        used: 0,
        cap: frame_capacity(),
    }
}

/// One interpreter call frame, specification level: spend one fuel, ask
/// the arity, bind the arguments and walk from the entry.  `None` means
/// the run met host floating point and left the model; every other run
/// has its outcome — value or trap — pinned.
pub open spec fn model_exec(f: Func, funcs: Seq<Func>, args: Seq<ValueModel>, fuel: nat) -> Option<
    Result<ValueModel, Trap>,
>
    decreases fuel, 1int,
{
    if fuel == 0 {
        Some(Err(Trap::OutOfFuel))
    } else if args.len() != f.num_params {
        Some(Err(Trap::TypeMismatch))
    } else {
        match model_init_args(model_fresh(f), args, 0) {
            Ok(m1) => model_step(f, funcs, m1, 0, (fuel - 1) as nat),
            Err(t) => Some(Err(t)),
        }
    }
}

} // verus!
