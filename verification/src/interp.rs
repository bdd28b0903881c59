//! The IR interpreter.
//!
//! One frame holds a register file: a scratch byte buffer plus, per
//! variable, the offset of its slot.  Slots are bump-allocated on first
//! assignment and sized by the variable's type, so distinct variables
//! occupy disjoint byte ranges; both facts are proved invariants of
//! [`Regs`].  Execution walks the instruction list, dispatching on each
//! instruction; every structural fault of the program is a deterministic
//! [`Trap`], never a panic.
//!
//! Floating point arithmetic cannot be written, nor specified, inside the
//! verified library; the interpreter therefore receives it through the
//! [`F64Ops`] interface, whose implementation the surrounding program
//! supplies.  Float negation alone is pure bit play (the sign bit flips)
//! and stays here.

use vstd::prelude::*;
use crate::ir::{Func, Inst, Op, UOp};
use crate::sem::{
    RegModel, decode, lemma_decode_view, model_assign, model_do_op, model_do_uop, model_exec,
    model_fresh, model_gather, model_get, model_init_args, model_pass, model_step,
};
use crate::value::{Mem, TypeDef, Value, ValueModel};

verus! {

/// Host-supplied IEEE 754 double arithmetic, over bit patterns.
pub trait F64Ops {
    /// Addition of two doubles given and returned as bit patterns.
    fn f64_add(&self, a: u64, b: u64) -> u64;

    /// Subtraction of two doubles given and returned as bit patterns.
    fn f64_sub(&self, a: u64, b: u64) -> u64;

    /// Multiplication of two doubles given and returned as bit patterns.
    fn f64_mul(&self, a: u64, b: u64) -> u64;

    /// Division of two doubles given and returned as bit patterns.
    fn f64_div(&self, a: u64, b: u64) -> u64;

    /// IEEE equality of two doubles given as bit patterns.
    fn f64_eq(&self, a: u64, b: u64) -> bool;

    /// IEEE inequality of two doubles given as bit patterns.
    fn f64_ne(&self, a: u64, b: u64) -> bool;

    /// IEEE less-than of two doubles given as bit patterns.
    fn f64_lt(&self, a: u64, b: u64) -> bool;

    /// IEEE less-or-equal of two doubles given as bit patterns.
    fn f64_le(&self, a: u64, b: u64) -> bool;

    /// IEEE greater-than of two doubles given as bit patterns.
    fn f64_gt(&self, a: u64, b: u64) -> bool;

    /// IEEE greater-or-equal of two doubles given as bit patterns.
    fn f64_ge(&self, a: u64, b: u64) -> bool;
}

/// A deterministic runtime fault.
#[derive(Debug, Clone, Copy, PartialEq, Eq, Structural)]
pub enum Trap {
    /// Integer division by zero, or overflow of `i32::MIN / -1`.
    DivByZero,
    /// Integer division overflow.
    Overflow,
    /// An operator met operand types it is not defined for, or a register
    /// was read or written against its declared type.
    TypeMismatch,
    /// An instruction, block, variable or function index was out of range,
    /// or the frame's scratch buffer is full.
    OutOfBounds,
    /// The step budget ran out: a runaway loop or too deep a recursion.
    OutOfFuel,
    /// No function of the requested name exists in the module.
    NoSuchFunction,
}

/// One frame's register file.
pub struct Regs {
    /// The scratch byte buffer.
    pub mem: Mem,
    /// The bump allocation watermark.
    pub current_reg: usize,
    /// Per variable, the offset of its slot once assigned.
    pub vars: Vec<Option<usize>>,
    /// Per variable, its declared type; fixes each slot's size.
    pub types: Vec<TypeDef>,
}

impl Regs {
    /// Slots lie below the watermark, the watermark inside the buffer, and
    /// slots of distinct variables are disjoint.
    pub open spec fn wf(self) -> bool {
        &&& self.vars@.len() == self.types@.len()
        &&& self.current_reg <= self.mem@.len()
        &&& forall|v: int|
            0 <= v < self.vars@.len() ==> (#[trigger] self.vars@[v] matches Some(off) ==> off
                + self.types@[v].spec_size() <= self.current_reg)
        &&& forall|v: int, w: int|
            0 <= v < self.vars@.len() && 0 <= w < self.vars@.len() && v != w && (
            #[trigger] self.vars@[v]) is Some && (#[trigger] self.vars@[w]) is Some ==> {
                let ov = self.vars@[v]->0;
                let ow = self.vars@[w]->0;
                ov + self.types@[v].spec_size() <= ow || ow + self.types@[w].spec_size() <= ov
            }
    }

    /// The bytes currently held in a variable's slot.
    pub open spec fn stored(self, v: int) -> Seq<u8>
        recommends
            0 <= v < self.vars@.len(),
            self.vars@[v] is Some,
    {
        self.mem@.subrange(self.vars@[v]->0 as int, self.vars@[v]->0 + self.types@[v].spec_size())
    }

    /// A fresh register file over the given variable types.
    pub fn new(types: Vec<TypeDef>) -> (r: Regs)
        ensures
            r.wf(),
            r.types@ == types@,
            forall|v: int| 0 <= v < r.vars@.len() ==> r.vars@[v] is None,
            r.vars@.len() == types@.len(),
            r.current_reg == 0,
            r.mem@.len() == 1024,
    {
        let n: usize = types.len();
        let mut vars: Vec<Option<usize>> = Vec::new();
        let mut i: usize = 0;
        while i < n
            invariant
                i <= n,
                vars@.len() == i,
                forall|v: int| 0 <= v < i ==> vars@[v] is None,
            decreases n - i,
        {
            vars.push(None);
            i = i + 1;
        }
        Regs { mem: Mem::default(), current_reg: 0, vars, types }
    }

    /// Write a value into a variable's slot, allocating the slot on first
    /// assignment.  The value must match the variable's declared type.
    /// Every other variable's slot is untouched.
    pub fn assign(&mut self, var: usize, val: &Value) -> (r: Result<(), Trap>)
        requires
            old(self).wf(),
            val.wf(),
        ensures
            final(self).wf(),
            final(self).types@ == old(self).types@,
            final(self).vars@.len() == old(self).vars@.len(),
            r is Ok ==> {
                &&& var < old(self).types@.len()
                &&& val.spec_type() == old(self).types@[var as int]
                &&& final(self).vars@[var as int] is Some
                &&& final(self).stored(var as int) == val.spec_bytes()
                &&& forall|w: int|
                    0 <= w < old(self).vars@.len() && w != var ==> (#[trigger] final(self).vars@[
                        w
                    ]) == old(self).vars@[w]
                &&& forall|w: int|
                    0 <= w < old(self).vars@.len() && w != var && old(self).vars@[w] is Some ==> (
                    #[trigger] final(self).stored(w)) == old(self).stored(w)
            },
            r is Err ==> *final(self) == *old(self),
            r is Err ==> r == Err::<(), Trap>(Trap::OutOfBounds) || r == Err::<(), Trap>(
                Trap::TypeMismatch,
            ),
            var < old(self).types@.len() && val.spec_type() == old(self).types@[var as int] && (old(
                self,
            ).vars@[var as int] is Some || old(self).current_reg + val.spec_type().spec_size()
                <= old(self).mem@.len()) ==> r is Ok,
            var >= old(self).types@.len() ==> r == Err::<(), Trap>(Trap::OutOfBounds),
            var < old(self).types@.len() && val.spec_type() != old(self).types@[var as int] ==> r
                == Err::<(), Trap>(Trap::TypeMismatch),
            var < old(self).types@.len() && val.spec_type() == old(self).types@[var as int] && old(
                self,
            ).vars@[var as int] is None && old(self).current_reg + val.spec_type().spec_size()
                > old(self).mem@.len() ==> r == Err::<(), Trap>(Trap::OutOfBounds),
            final(self).mem@.len() == old(self).mem@.len(),
            r is Ok && old(self).vars@[var as int] is Some ==> final(self).current_reg == old(
                self,
            ).current_reg && final(self).vars@ == old(self).vars@,
            r is Ok && old(self).vars@[var as int] is None ==> final(self).current_reg == old(
                self,
            ).current_reg + val.spec_type().spec_size(),
    {
        if var >= self.types.len() {
            return Err(Trap::OutOfBounds);
        }
        let t: TypeDef = self.types[var];
        if val.get_type() != t {
            return Err(Trap::TypeMismatch);
        }
        let size: usize = val.get_size();
        match self.vars[var] {
            Some(off) => {
                self.mem.set(off, val.get_bytes());
                proof {
                    assert(self.stored(var as int) =~= val.spec_bytes());
                    assert forall|w: int|
                        0 <= w < self.vars@.len() && w != var && self.vars@[w] is Some implies self
                        .stored(w) =~= old(self).stored(w) by {
                        assert(old(self).vars@[w] matches Some(ow) ==> ow + old(self).types@[
                            w
                        ].spec_size() <= old(self).current_reg);
                    }
                }
                Ok(())
            },
            None => {
                let room: usize = self.mem.bytes.len() - self.current_reg;
                if size > room {
                    return Err(Trap::OutOfBounds);
                }
                let off: usize = self.current_reg;
                self.vars.set(var, Some(off));
                self.mem.set(off, val.get_bytes());
                self.current_reg = off + size;
                proof {
                    assert(self.stored(var as int) =~= val.spec_bytes());
                    assert forall|w: int|
                        0 <= w < self.vars@.len() && w != var && self.vars@[w] is Some implies self
                        .stored(w) =~= old(self).stored(w) by {
                        assert(old(self).vars@[w] matches Some(ow) ==> ow + old(self).types@[
                            w
                        ].spec_size() <= old(self).current_reg);
                    }
                }
                Ok(())
            },
        }
    }

    /// Read a variable's slot back as a value of its declared type.
    pub fn get(&self, var: usize) -> (r: Result<Value, Trap>)
        requires
            self.wf(),
        ensures
            r matches Ok(v) ==> {
                &&& var < self.vars@.len()
                &&& self.vars@[var as int] is Some
                &&& v.wf()
                &&& v.spec_type() == self.types@[var as int]
                &&& v.spec_bytes() == self.stored(var as int)
            },
            r is Err ==> var >= self.vars@.len() || self.vars@[var as int] is None,
            r is Err ==> r == Err::<Value, Trap>(Trap::OutOfBounds) || r == Err::<Value, Trap>(
                Trap::TypeMismatch,
            ),
            var >= self.vars@.len() ==> r == Err::<Value, Trap>(Trap::OutOfBounds),
            var < self.vars@.len() && self.vars@[var as int] is None ==> r == Err::<Value, Trap>(
                Trap::TypeMismatch,
            ),
            var < self.vars@.len() && self.vars@[var as int] is Some ==> r is Ok,
    {
        if var >= self.vars.len() {
            return Err(Trap::OutOfBounds);
        }
        match self.vars[var] {
            Some(off) => {
                let t: TypeDef = self.types[var];
                Ok(self.mem.get(off, t))
            },
            None => Err(Trap::TypeMismatch),
        }
    }
}

/// Truncating 32-bit wrap of an unbounded integer.
pub open spec fn wrap_i32(x: int) -> i32 {
    x as i32
}

/// What a binary operator yields on two 32-bit integers: the wrapped
/// result for arithmetic, a boolean for comparisons, and a trap for
/// division by zero or overflowing division.
pub open spec fn spec_i32_op(op: Op, x: i32, y: i32) -> Result<ValueModel, Trap> {
    match op {
        Op::Add => Ok(ValueModel::I32(wrap_i32(x + y))),
        Op::Sub => Ok(ValueModel::I32(wrap_i32(x - y))),
        Op::Mul => Ok(ValueModel::I32(wrap_i32(x * y))),
        Op::Div => if y == 0 {
            Err(Trap::DivByZero)
        } else {
            match x.checked_div(y) {
                Some(q) => Ok(ValueModel::I32(q)),
                None => Err(Trap::Overflow),
            }
        },
        Op::Eq => Ok(ValueModel::Bool(x == y)),
        Op::Ne => Ok(ValueModel::Bool(x != y)),
        Op::Le => Ok(ValueModel::Bool(x <= y)),
        Op::Lt => Ok(ValueModel::Bool(x < y)),
        Op::Ge => Ok(ValueModel::Bool(x >= y)),
        Op::Gt => Ok(ValueModel::Bool(x > y)),
    }
}

/// Apply a binary operator to two values.  Defined exactly for matching
/// boolean, integer and float operand pairs as the operator's signature
/// dictates; every other pairing traps.  Integer arithmetic wraps as the
/// stack machine's does; what float arithmetic returns is the host
/// interface's business, but its type is pinned.
pub fn do_op<A: F64Ops>(alu: &A, op: Op, a: &Value, b: &Value) -> (r: Result<Value, Trap>)
    requires
        a.wf(),
        b.wf(),
    ensures
        a.spec_type() == TypeDef::I32 && b.spec_type() == TypeDef::I32 ==> match spec_i32_op(
            op,
            a@->I32_0,
            b@->I32_0,
        ) {
            Ok(m) => r matches Ok(v) && v.wf() && v@ == m,
            Err(t) => r == Err::<Value, Trap>(t),
        },
        a.spec_type() == TypeDef::Bool && b.spec_type() == TypeDef::Bool ==> match op {
            Op::Eq => r matches Ok(v) && v.wf() && v@ == ValueModel::Bool(
                a@->Bool_0 == b@->Bool_0,
            ),
            Op::Ne => r matches Ok(v) && v.wf() && v@ == ValueModel::Bool(
                a@->Bool_0 != b@->Bool_0,
            ),
            _ => r == Err::<Value, Trap>(Trap::TypeMismatch),
        },
        a.spec_type() == TypeDef::F64 && b.spec_type() == TypeDef::F64 ==> match op {
            Op::Add | Op::Sub | Op::Mul | Op::Div => r matches Ok(v) && v.wf() && v.spec_type()
                == TypeDef::F64,
            _ => r matches Ok(v) && v.wf() && v.spec_type() == TypeDef::Bool,
        },
        a.spec_type() != b.spec_type() || a.spec_type() == TypeDef::Unit ==> r == Err::<
            Value,
            Trap,
        >(Trap::TypeMismatch),
        r is Err ==> r == Err::<Value, Trap>(Trap::TypeMismatch) || r == Err::<Value, Trap>(
            Trap::DivByZero,
        ) || r == Err::<Value, Trap>(Trap::Overflow),
{
    let ta: TypeDef = a.get_type();
    let tb: TypeDef = b.get_type();
    if ta != tb {
        return Err(Trap::TypeMismatch);
    }
    match ta {
        TypeDef::Unit => Err(Trap::TypeMismatch),
        TypeDef::Bool => {
            let x: bool = a.as_bool();
            let y: bool = b.as_bool();
            match op {
                Op::Eq => Ok(Value::bool(x == y)),
                Op::Ne => Ok(Value::bool(x != y)),
                _ => Err(Trap::TypeMismatch),
            }
        },
        TypeDef::I32 => {
            let x: i32 = a.as_i32();
            let y: i32 = b.as_i32();
            match op {
                Op::Add => {
                    let wide: i64 = x as i64 + y as i64;
                    Ok(Value::i32(#[verifier::truncate] (wide as i32)))
                },
                Op::Sub => {
                    let wide: i64 = x as i64 - y as i64;
                    Ok(Value::i32(#[verifier::truncate] (wide as i32)))
                },
                Op::Mul => {
                    proof {
                        assert((x as int) * (y as int) < 0x8000_0000_0000_0000 && (x as int) * (
                        y as int) >= -0x8000_0000_0000_0000) by (nonlinear_arith)
                            requires
                                -0x8000_0000 <= x as int <= 0x7fff_ffff,
                                -0x8000_0000 <= y as int <= 0x7fff_ffff,
                        ;
                    }
                    let wide: i64 = x as i64 * y as i64;
                    Ok(Value::i32(#[verifier::truncate] (wide as i32)))
                },
                Op::Div => {
                    if y == 0 {
                        Err(Trap::DivByZero)
                    } else {
                        match x.checked_div(y) {
                            Some(q) => Ok(Value::i32(q)),
                            None => Err(Trap::Overflow),
                        }
                    }
                },
                Op::Eq => Ok(Value::bool(x == y)),
                Op::Ne => Ok(Value::bool(x != y)),
                Op::Le => Ok(Value::bool(x <= y)),
                Op::Lt => Ok(Value::bool(x < y)),
                Op::Ge => Ok(Value::bool(x >= y)),
                Op::Gt => Ok(Value::bool(x > y)),
            }
        },
        TypeDef::F64 => {
            let x: u64 = a.as_f64_bits();
            let y: u64 = b.as_f64_bits();
            match op {
                Op::Add => Ok(Value::f64_from_bits(alu.f64_add(x, y))),
                Op::Sub => Ok(Value::f64_from_bits(alu.f64_sub(x, y))),
                Op::Mul => Ok(Value::f64_from_bits(alu.f64_mul(x, y))),
                Op::Div => Ok(Value::f64_from_bits(alu.f64_div(x, y))),
                Op::Eq => Ok(Value::bool(alu.f64_eq(x, y))),
                Op::Ne => Ok(Value::bool(alu.f64_ne(x, y))),
                Op::Le => Ok(Value::bool(alu.f64_le(x, y))),
                Op::Lt => Ok(Value::bool(alu.f64_lt(x, y))),
                Op::Ge => Ok(Value::bool(alu.f64_ge(x, y))),
                Op::Gt => Ok(Value::bool(alu.f64_gt(x, y))),
            }
        },
    }
}

/// The sign bit of a 64-bit float's bit pattern.
pub open spec fn f64_sign_mask() -> u64 {
    0x8000_0000_0000_0000u64
}

/// Apply a unary operator.  Negation is defined for the numeric types:
/// integer negation wraps like `0 - x` on the stack machine, float
/// negation flips the sign bit, which is exactly IEEE 754 negation.
/// `Not` is defined for booleans.  Everything else traps.
pub fn do_uop(op: UOp, a: &Value) -> (r: Result<Value, Trap>)
    requires
        a.wf(),
    ensures
        op == UOp::Neg && a.spec_type() == TypeDef::I32 ==> (r matches Ok(v) && v.wf() && v@
            == ValueModel::I32(wrap_i32(0 - a@->I32_0))),
        op == UOp::Neg && a.spec_type() == TypeDef::F64 ==> (r matches Ok(v) && v.wf() && v@
            == ValueModel::F64(a@->F64_0 ^ f64_sign_mask())),
        op == UOp::Not && a.spec_type() == TypeDef::Bool ==> (r matches Ok(v) && v.wf() && v@
            == ValueModel::Bool(!a@->Bool_0)),
        op == UOp::Neg && a.spec_type() == TypeDef::Bool ==> r is Err,
        op == UOp::Neg && a.spec_type() == TypeDef::Unit ==> r is Err,
        op == UOp::Not && a.spec_type() != TypeDef::Bool ==> r is Err,
        r is Err ==> r == Err::<Value, Trap>(Trap::TypeMismatch),
{
    match op {
        UOp::Neg => match a.get_type() {
            TypeDef::I32 => {
                let x: i32 = a.as_i32();
                let wide: i64 = 0i64 - x as i64;
                Ok(Value::i32(#[verifier::truncate] (wide as i32)))
            },
            TypeDef::F64 => {
                let bits: u64 = a.as_f64_bits();
                Ok(Value::f64_from_bits(bits ^ 0x8000_0000_0000_0000u64))
            },
            _ => Err(Trap::TypeMismatch),
        },
        UOp::Not => match a.get_type() {
            TypeDef::Bool => {
                let x: bool = a.as_bool();
                Ok(Value::bool(!x))
            },
            _ => Err(Trap::TypeMismatch),
        },
    }
}

/// The specification-level reading of a register file: per variable the
/// decoded scalar of its slot once assigned, the declared types, the
/// watermark and the capacity.
pub open spec fn regs_model(r: Regs) -> RegModel {
    RegModel {
        vals: Seq::new(
            r.vars@.len(),
            |v: int|
                if r.vars@[v] is Some {
                    Some(decode(r.types@[v], r.stored(v)))
                } else {
                    None
                },
        ),
        types: r.types@,
        used: r.current_reg as nat,
        cap: r.mem@.len() as nat,
    }
}

/// A successful executable read hands out exactly the model's scalar.
proof fn lemma_get_model(r: Regs, var: usize, v: Value)
    requires
        r.wf(),
        var < r.vars@.len(),
        r.vars@[var as int] is Some,
        v.spec_type() == r.types@[var as int],
        v.spec_bytes() == r.stored(var as int),
    ensures
        model_get(regs_model(r), var) == Ok::<ValueModel, Trap>(v@),
{
    lemma_decode_view(v);
}

/// A successful executable write is exactly the model write.
proof fn lemma_assign_model(pre: Regs, post: Regs, var: usize, val: Value)
    requires
        pre.wf(),
        post.wf(),
        val.wf(),
        var < pre.types@.len(),
        val.spec_type() == pre.types@[var as int],
        post.types@ == pre.types@,
        post.vars@.len() == pre.vars@.len(),
        post.mem@.len() == pre.mem@.len(),
        post.vars@[var as int] is Some,
        post.stored(var as int) == val.spec_bytes(),
        forall|w: int|
            0 <= w < pre.vars@.len() && w != var ==> (#[trigger] post.vars@[w]) == pre.vars@[w],
        forall|w: int|
            0 <= w < pre.vars@.len() && w != var && pre.vars@[w] is Some ==> (
            #[trigger] post.stored(w)) == pre.stored(w),
        pre.vars@[var as int] is Some ==> post.current_reg == pre.current_reg,
        pre.vars@[var as int] is None ==> post.current_reg == pre.current_reg
            + val.spec_type().spec_size(),
    ensures
        model_assign(regs_model(pre), var, val@) == Ok::<RegModel, Trap>(regs_model(post)),
{
    lemma_decode_view(val);
    assert(regs_model(post).vals =~= regs_model(pre).vals.update(var as int, Some(val@)));
    if pre.vars@[var as int] is None {
        assert(post.current_reg <= post.mem@.len());
    }
    assert(model_assign(regs_model(pre), var, val@) matches Ok(m2) && m2 == regs_model(post));
}

/// A failing executable write fails the model write with the same trap.
proof fn lemma_assign_model_err(pre: Regs, var: usize, val: Value, t: Trap)
    requires
        pre.wf(),
        val.wf(),
        var >= pre.types@.len() ==> t == Trap::OutOfBounds,
        var < pre.types@.len() ==> val.spec_type() != pre.types@[var as int] && t
            == Trap::TypeMismatch || val.spec_type() == pre.types@[var as int] && pre.vars@[
            var as int
        ] is None && pre.current_reg + val.spec_type().spec_size() > pre.mem@.len() && t
            == Trap::OutOfBounds,
    ensures
        model_assign(regs_model(pre), var, val@) == Err::<RegModel, Trap>(t),
{
    lemma_decode_view(val);
}

/// A copy of a type table.
fn copy_types(types: &Vec<TypeDef>) -> (r: Vec<TypeDef>)
    ensures
        r@ == types@,
{
    let mut r: Vec<TypeDef> = Vec::new();
    let n: usize = types.len();
    let mut i: usize = 0;
    while i < n
        invariant
            i <= n,
            n == types@.len(),
            r@ == types@.take(i as int),
        decreases n - i,
    {
        r.push(types[i]);
        proof {
            assert(r@ =~= types@.take(i + 1));
        }
        i = i + 1;
    }
    proof {
        assert(types@.take(n as int) =~= types@);
    }
    r
}

/// Execute one function of the module on the given arguments.
///
/// `mem` is the process memory, one byte buffer threaded through the
/// frames of a run; the scalar instruction set leaves it untouched.
/// `fuel` bounds the number of executed instructions and the call depth
/// together; running out is the deterministic image of a runaway loop or
/// of stack exhaustion.  Every malformed instruction the walk meets — an
/// index out of range, a type clash, a missing register — is a [`Trap`],
/// and so is an argument list whose length is not the function's arity.
/// The one value returned is well formed and carries the function's
/// declared return type.  Above all, when every argument is well formed
/// the call is the specification-level run [`model_exec`]: any run the
/// model pins — every run that stays clear of host float arithmetic —
/// returns exactly the model's value or trap.
#[verifier::rlimit(100)]
#[verifier::spinoff_prover]
pub fn exec_ir<A: F64Ops>(
    alu: &A,
    func: &Func,
    funcs: &Vec<Func>,
    mem: &mut Mem,
    args: Vec<Value>,
    fuel: u64,
) -> (r: Result<Value, Trap>)
    ensures
        r matches Ok(v) ==> v.wf() && v.spec_type() == func.return_type,
        final(mem)@ == old(mem)@,
        fuel > 0 && args@.len() != func.num_params ==> r == Err::<Value, Trap>(
            Trap::TypeMismatch,
        ),
        r != Err::<Value, Trap>(Trap::NoSuchFunction),
        (forall|j: int| 0 <= j < args@.len() ==> (#[trigger] args@[j]).wf()) ==> match model_exec(
            *func,
            funcs@,
            args@.map_values(|a: Value| a@),
            fuel as nat,
        ) {
            Some(res) => match res {
                Ok(mv) => r matches Ok(v) && v@ == mv,
                Err(t) => r == Err::<Value, Trap>(t),
            },
            None => true,
        },
    decreases fuel,
{
    let ghost margs = args@.map_values(|a: Value| a@);
    let ghost all_wf = forall|j: int| 0 <= j < args@.len() ==> (#[trigger] args@[j]).wf();
    let ghost goal = model_exec(*func, funcs@, margs, fuel as nat);
    if fuel == 0 {
        return Err(Trap::OutOfFuel);
    }
    let types: Vec<TypeDef> = copy_types(&func.ir.var_type);
    let mut regs: Regs = Regs::new(types);
    let mut i: usize = 0;
    let num_args: usize = args.len();
    if num_args != func.num_params {
        return Err(Trap::TypeMismatch);
    }
    proof {
        assert(regs_model(regs).vals =~= model_fresh(*func).vals);
        assert(regs_model(regs) == model_fresh(*func));
    }
    while i < num_args
        invariant
            i <= num_args,
            num_args == args@.len(),
            num_args == func.num_params,
            mem@ == old(mem)@,
            regs.wf(),
            regs.types@ == func.ir.var_type@,
            regs.vars@.len() == func.ir.var_type@.len(),
            fuel >= 1,
            margs == args@.map_values(|a: Value| a@),
            all_wf == (forall|j: int| 0 <= j < args@.len() ==> (#[trigger] args@[j]).wf()),
            goal == model_exec(*func, funcs@, margs, fuel as nat),
            all_wf ==> match model_init_args(regs_model(regs), margs, i as int) {
                Ok(m1) => model_step(*func, funcs@, m1, 0, (fuel - 1) as nat) == goal,
                Err(t) => goal == Some(Err::<ValueModel, Trap>(t)),
            },
        decreases num_args - i,
    {
        let arg: &Value = &args[i];
        let arg_ok: bool = arg.get_bytes().bytes.len() == arg.get_type().size();
        proof {
            if all_wf {
                assert(args@[i as int].wf());
            }
        }
        if !arg_ok {
            return Err(Trap::TypeMismatch);
        }
        let ghost pre = regs;
        match regs.assign(i, arg) {
            Ok(()) => {
                proof {
                    if all_wf {
                        lemma_assign_model(pre, regs, i, *arg);
                        assert(margs[i as int] == args@[i as int]@);
                    }
                }
            },
            Err(t) => {
                proof {
                    if all_wf {
                        lemma_assign_model_err(pre, i, *arg, t);
                        assert(margs[i as int] == args@[i as int]@);
                        assert(model_init_args(regs_model(pre), margs, i as int) == Err::<
                            RegModel,
                            Trap,
                        >(t));
                    }
                }
                return Err(t);
            },
        }
        i = i + 1;
    }
    let mut step: usize = 0;
    let mut gas: u64 = fuel - 1;
    let ghost fuel0 = fuel;
    proof {
        if all_wf {
            assert(model_init_args(regs_model(regs), margs, num_args as int) == Ok::<
                RegModel,
                Trap,
            >(regs_model(regs)));
        }
    }
    loop
        invariant
            regs.wf(),
            regs.types@ == func.ir.var_type@,
            regs.vars@.len() == func.ir.var_type@.len(),
            gas < fuel0,
            fuel0 == fuel,
            mem@ == old(mem)@,
            args@.len() == func.num_params,
            margs == args@.map_values(|a: Value| a@),
            all_wf == (forall|j: int| 0 <= j < args@.len() ==> (#[trigger] args@[j]).wf()),
            goal == model_exec(*func, funcs@, margs, fuel as nat),
            all_wf && goal is Some ==> model_step(
                *func,
                funcs@,
                regs_model(regs),
                step as int,
                gas as nat,
            ) == goal,
        decreases gas,
    {
        let ghost gas0 = gas as nat;
        if gas == 0 {
            return Err(Trap::OutOfFuel);
        }
        gas = gas - 1;
        if step >= func.ir.insts.len() {
            return Err(Trap::OutOfBounds);
        }
        let mut next: usize = step + 1;
        match &func.ir.insts[step] {
            Inst::Op(var, op, a, b) => {
                let va: Value = match regs.get(*a) {
                    Ok(v) => v,
                    Err(t) => {
                        return Err(t);
                    },
                };
                proof {
                    if all_wf && goal is Some {
                        lemma_get_model(regs, *a, va);
                    }
                }
                let vb: Value = match regs.get(*b) {
                    Ok(v) => v,
                    Err(t) => {
                        return Err(t);
                    },
                };
                proof {
                    if all_wf && goal is Some {
                        lemma_get_model(regs, *b, vb);
                        lemma_decode_view(va);
                        lemma_decode_view(vb);
                    }
                }
                let res: Value = match do_op(alu, *op, &va, &vb) {
                    Ok(v) => v,
                    Err(t) => {
                        proof {
                            if all_wf && goal is Some {
                                assert(model_do_op(*op, va@, vb@) == Some(Err::<ValueModel, Trap>(
                                    t,
                                )));
                            }
                        }
                        return Err(t);
                    },
                };
                proof {
                    if all_wf && goal is Some {
                        if va.spec_type() == TypeDef::F64 && vb.spec_type() == TypeDef::F64 {
                            assert(model_do_op(*op, va@, vb@) is None);
                            assert(goal is None);
                            assert(false);
                        } else {
                            assert(model_do_op(*op, va@, vb@) == Some(Ok::<ValueModel, Trap>(
                                res@,
                            )));
                        }
                    }
                }
                let ghost pre = regs;
                match regs.assign(*var, &res) {
                    Ok(()) => {
                        proof {
                            if all_wf && goal is Some {
                                lemma_assign_model(pre, regs, *var, res);
                            }
                        }
                    },
                    Err(t) => {
                        proof {
                            if all_wf && goal is Some {
                                lemma_assign_model_err(pre, *var, res, t);
                            }
                        }
                        return Err(t);
                    },
                }
            },
            Inst::UOp(var, op, a) => {
                let va: Value = match regs.get(*a) {
                    Ok(v) => v,
                    Err(t) => {
                        return Err(t);
                    },
                };
                proof {
                    if all_wf && goal is Some {
                        lemma_get_model(regs, *a, va);
                        lemma_decode_view(va);
                    }
                }
                let res: Value = match do_uop(*op, &va) {
                    Ok(v) => v,
                    Err(t) => {
                        proof {
                            if all_wf && goal is Some {
                                assert(model_do_uop(*op, va@) == Err::<ValueModel, Trap>(t));
                            }
                        }
                        return Err(t);
                    },
                };
                proof {
                    if all_wf && goal is Some {
                        assert(model_do_uop(*op, va@) == Ok::<ValueModel, Trap>(res@));
                    }
                }
                let ghost pre = regs;
                match regs.assign(*var, &res) {
                    Ok(()) => {
                        proof {
                            if all_wf && goal is Some {
                                lemma_assign_model(pre, regs, *var, res);
                            }
                        }
                    },
                    Err(t) => {
                        proof {
                            if all_wf && goal is Some {
                                lemma_assign_model_err(pre, *var, res, t);
                            }
                        }
                        return Err(t);
                    },
                }
            },
            Inst::Const(var, val) => {
                let val_ok: bool = val.get_bytes().bytes.len() == val.get_type().size();
                if !val_ok {
                    return Err(Trap::TypeMismatch);
                }
                let ghost pre = regs;
                match regs.assign(*var, val) {
                    Ok(()) => {
                        proof {
                            if all_wf && goal is Some {
                                lemma_assign_model(pre, regs, *var, *val);
                            }
                        }
                    },
                    Err(t) => {
                        proof {
                            if all_wf && goal is Some {
                                lemma_assign_model_err(pre, *var, *val, t);
                            }
                        }
                        return Err(t);
                    },
                }
            },
            Inst::Call(var, func_id, param_regs) => {
                let dst: usize = *var;
                let fid: usize = *func_id;
                if fid >= funcs.len() {
                    return Err(Trap::OutOfBounds);
                }
                let mut call_args: Vec<Value> = Vec::new();
                let nargs: usize = param_regs.len();
                let mut k: usize = 0;
                while k < nargs
                    invariant
                        k <= nargs,
                        nargs == param_regs@.len(),
                        call_args@.len() == k,
                        forall|j: int| 0 <= j < k ==> (#[trigger] call_args@[j]).wf(),
                        regs.wf(),
                        regs.types@ == func.ir.var_type@,
                        regs.vars@.len() == func.ir.var_type@.len(),
                        mem@ == old(mem)@,
                        args@.len() == func.num_params,
                        margs == args@.map_values(|a: Value| a@),
                        all_wf == (forall|j: int|
                            0 <= j < args@.len() ==> (#[trigger] args@[j]).wf()),
                        goal == model_exec(*func, funcs@, margs, fuel as nat),
                        fuel0 == fuel,
                        gas < fuel0,
                        gas0 == gas as nat + 1,
                        step < func.ir.insts@.len(),
                        func.ir.insts@[step as int] matches Inst::Call(d, f2, a2) && d == dst && f2
                            == fid && a2@ == param_regs@,
                        fid < funcs@.len(),
                        all_wf && goal is Some ==> model_step(
                            *func,
                            funcs@,
                            regs_model(regs),
                            step as int,
                            gas0,
                        ) == goal,
                        all_wf && goal is Some ==> match model_gather(
                            regs_model(regs),
                            param_regs@,
                            k as int,
                        ) {
                            Ok(rest) => model_gather(regs_model(regs), param_regs@, 0) == Ok::<
                                Seq<ValueModel>,
                                Trap,
                            >(call_args@.map_values(|v: Value| v@) + rest),
                            Err(t) => model_gather(regs_model(regs), param_regs@, 0) == Err::<
                                Seq<ValueModel>,
                                Trap,
                            >(t),
                        },
                    decreases nargs - k,
                {
                    let v: Value = match regs.get(param_regs[k]) {
                        Ok(v) => v,
                        Err(t) => {
                            return Err(t);
                        },
                    };
                    proof {
                        if all_wf && goal is Some {
                            lemma_get_model(regs, param_regs@[k as int], v);
                            assert(call_args@.push(v).map_values(|w: Value| w@) =~= call_args@
                                .map_values(|w: Value| w@).push(v@));
                            // prepending the value just gathered associates with
                            // the prefix collected so far
                            if let Ok(rest) = model_gather(regs_model(regs), param_regs@, k + 1) {
                                assert((call_args@.map_values(|w: Value| w@) + (seq![v@] + rest))
                                    =~= (call_args@.map_values(|w: Value| w@).push(v@) + rest));
                            }
                        }
                    }
                    call_args.push(v);
                    k = k + 1;
                }
                proof {
                    if all_wf && goal is Some {
                        assert(call_args@.map_values(|w: Value| w@) + Seq::<ValueModel>::empty()
                            =~= call_args@.map_values(|w: Value| w@));
                        assert(model_gather(regs_model(regs), param_regs@, 0) == Ok::<
                            Seq<ValueModel>,
                            Trap,
                        >(call_args@.map_values(|w: Value| w@)));
                    }
                }
                let callee: &Func = &funcs[fid];
                let ghost sub = model_exec(
                    *callee,
                    funcs@,
                    call_args@.map_values(|w: Value| w@),
                    gas as nat,
                );
                let res: Value = match exec_ir(alu, callee, funcs, mem, call_args, gas) {
                    Ok(v) => v,
                    Err(t) => {
                        proof {
                            if all_wf && goal is Some {
                                if sub is None {
                                    assert(goal is None);
                                    assert(false);
                                }
                            }
                        }
                        return Err(t);
                    },
                };
                proof {
                    if all_wf && goal is Some {
                        if sub is None {
                            assert(goal is None);
                            assert(false);
                        }
                        assert(sub matches Some(r2) && r2 == Ok::<ValueModel, Trap>(res@));
                    }
                }
                let ghost pre = regs;
                match regs.assign(dst, &res) {
                    Ok(()) => {
                        proof {
                            if all_wf && goal is Some {
                                lemma_assign_model(pre, regs, dst, res);
                            }
                        }
                    },
                    Err(t) => {
                        proof {
                            if all_wf && goal is Some {
                                lemma_assign_model_err(pre, dst, res, t);
                            }
                        }
                        return Err(t);
                    },
                }
            },
            Inst::JumpTo(block, jargs) => {
                if *block >= func.ir.blocks.len() || *block >= func.ir.block_params.len() {
                    return Err(Trap::OutOfBounds);
                }
                let first: usize = func.ir.block_params[*block].0;
                let count: usize = func.ir.block_params[*block].1;
                if jargs.len() != count {
                    return Err(Trap::OutOfBounds);
                }
                if first > usize::MAX - count {
                    return Err(Trap::OutOfBounds);
                }
                let target_pc: usize = func.ir.blocks[*block];
                let mut k: usize = 0;
                while k < count
                    invariant
                        k <= count,
                        count == jargs@.len(),
                        first + count <= usize::MAX,
                        regs.wf(),
                        regs.types@ == func.ir.var_type@,
                        regs.vars@.len() == func.ir.var_type@.len(),
                        mem@ == old(mem)@,
                        args@.len() == func.num_params,
                        margs == args@.map_values(|a: Value| a@),
                        all_wf == (forall|j: int|
                            0 <= j < args@.len() ==> (#[trigger] args@[j]).wf()),
                        goal == model_exec(*func, funcs@, margs, fuel as nat),
                        fuel0 == fuel,
                        gas < fuel0,
                        gas0 == gas as nat + 1,
                        all_wf && goal is Some ==> match model_pass(
                            regs_model(regs),
                            jargs@,
                            first,
                            k as int,
                        ) {
                            Ok(m2) => model_step(
                                *func,
                                funcs@,
                                m2,
                                target_pc as int,
                                gas as nat,
                            ) == goal,
                            Err(t) => goal == Some(Err::<ValueModel, Trap>(t)),
                        },
                    decreases count - k,
                {
                    let v: Value = match regs.get(jargs[k]) {
                        Ok(v) => v,
                        Err(t) => {
                            return Err(t);
                        },
                    };
                    proof {
                        if all_wf && goal is Some {
                            lemma_get_model(regs, jargs@[k as int], v);
                        }
                    }
                    let ghost pre = regs;
                    match regs.assign(first + k, &v) {
                        Ok(()) => {
                            proof {
                                if all_wf && goal is Some {
                                    lemma_assign_model(pre, regs, (first + k) as usize, v);
                                }
                            }
                        },
                        Err(t) => {
                            proof {
                                if all_wf && goal is Some {
                                    lemma_assign_model_err(pre, (first + k) as usize, v, t);
                                }
                            }
                            return Err(t);
                        },
                    }
                    k = k + 1;
                }
                next = target_pc;
            },
            Inst::Branch(cond, paths) => {
                let v: Value = match regs.get(*cond) {
                    Ok(v) => v,
                    Err(t) => {
                        return Err(t);
                    },
                };
                proof {
                    if all_wf && goal is Some {
                        lemma_get_model(regs, *cond, v);
                        lemma_decode_view(v);
                    }
                }
                let taken: bool = match v.get_type() {
                    TypeDef::Bool => v.as_bool(),
                    _ => {
                        return Err(Trap::TypeMismatch);
                    },
                };
                let target: usize = if taken {
                    paths.0
                } else {
                    paths.1
                };
                if target >= func.ir.blocks.len() {
                    return Err(Trap::OutOfBounds);
                }
                next = func.ir.blocks[target];
            },
            Inst::Return(var) => {
                let v: Value = match regs.get(*var) {
                    Ok(v) => v,
                    Err(t) => {
                        return Err(t);
                    },
                };
                proof {
                    if all_wf && goal is Some {
                        lemma_get_model(regs, *var, v);
                        lemma_decode_view(v);
                    }
                }
                if v.get_type() != func.return_type {
                    return Err(Trap::TypeMismatch);
                }
                return Ok(v);
            },
        }
        step = next;
    }
}

} // verus!
