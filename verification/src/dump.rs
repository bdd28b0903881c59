//! The textual dump of the representation, for inspection and tests.
//!
//! The format is stable and a pure function of the module:
//!
//! ```text
//! function NAME ():
//! 'BLOCK (vPARAM vPARAM ...):
//!   vDST = (Add vA vB)
//!   vDST = I32(5)
//!   vDST = $FUNC(vA vB)
//!   if vCOND then 'T else 'E
//!   'TARGET(vA vB)
//!   return vV
//! ```
//!
//! Block headers stand before the first instruction of their block; float
//! constants print as the exact hexadecimal notation of their bit pattern.

use vstd::prelude::*;
use vstd::utf8::encode_utf8;
use crate::ir::{Func, Inst, Op, UOp};
use crate::module::Module;
use crate::text::{dec_bytes, dec_bytes_signed, f64_wat_bytes, push_dec, push_dec_i32, push_f64_wat};
use crate::value::{TypeDef, Value, ValueModel};
use crate::wf::func_wf;

verus! {

/// The name of a binary operator.
pub open spec fn op_name(op: Op) -> Seq<u8> {
    match op {
        Op::Add => seq![65u8, 100u8, 100u8],
        Op::Sub => seq![83u8, 117u8, 98u8],
        Op::Mul => seq![77u8, 117u8, 108u8],
        Op::Div => seq![68u8, 105u8, 118u8],
        Op::Eq => seq![69u8, 113u8],
        Op::Ne => seq![78u8, 101u8],
        Op::Le => seq![76u8, 101u8],
        Op::Lt => seq![76u8, 116u8],
        Op::Ge => seq![71u8, 101u8],
        Op::Gt => seq![71u8, 116u8],
    }
}

/// The name of a unary operator.
pub open spec fn uop_name(op: UOp) -> Seq<u8> {
    match op {
        UOp::Neg => seq![78u8, 101u8, 103u8],
        UOp::Not => seq![78u8, 111u8, 116u8],
    }
}

/// A variable reference: `v` and the number.
pub open spec fn var_text(v: usize) -> Seq<u8> {
    seq![118u8] + dec_bytes(v as nat)
}

/// A space-separated variable list from index `i` on.
pub open spec fn vars_text(args: Seq<usize>, i: int) -> Seq<u8>
    decreases (if i < args.len() {
        args.len() - i
    } else {
        0
    }),
{
    if i < 0 || i >= args.len() {
        Seq::empty()
    } else {
        (if i > 0 {
            seq![32u8]
        } else {
            Seq::<u8>::empty()
        }) + var_text(args[i]) + vars_text(args, i + 1)
    }
}

/// A space-separated run of the parameter variables `first..first+count`.
pub open spec fn params_text(first: int, count: int, j: int) -> Seq<u8>
    decreases (if j < count {
        count - j
    } else {
        0
    }),
{
    if j < 0 || j >= count {
        Seq::empty()
    } else {
        (if j > 0 {
            seq![32u8]
        } else {
            Seq::<u8>::empty()
        }) + var_text((first + j) as usize) + params_text(first, count, j + 1)
    }
}

/// A constant's rendering: its type tag and the scalar inside.
pub open spec fn value_text(val: Value) -> Seq<u8> {
    match val@ {
        ValueModel::I32(x) => seq![73u8, 51u8, 50u8, 40u8] + dec_bytes_signed(x as int) + seq![
            41u8,
        ],
        ValueModel::F64(bits) => seq![70u8, 54u8, 52u8, 40u8] + f64_wat_bytes(bits) + seq![41u8],
        ValueModel::Bool(x) => if x {
            seq![66u8, 111u8, 111u8, 108u8, 40u8, 116u8, 114u8, 117u8, 101u8, 41u8]
        } else {
            seq![66u8, 111u8, 111u8, 108u8, 40u8, 102u8, 97u8, 108u8, 115u8, 101u8, 41u8]
        },
        ValueModel::Unit => seq![85u8, 110u8, 105u8, 116u8],
    }
}

/// One instruction's line, indentation and line break included.
pub open spec fn inst_text(inst: Inst) -> Seq<u8> {
    seq![32u8, 32u8] + (match inst {
        Inst::Op(d, op, a, b) => var_text(d) + seq![32u8, 61u8, 32u8, 40u8] + op_name(op) + seq![
            32u8,
        ] + var_text(a) + seq![32u8] + var_text(b) + seq![41u8],
        Inst::UOp(d, op, a) => var_text(d) + seq![32u8, 61u8, 32u8, 40u8] + uop_name(op) + seq![
            32u8,
        ] + var_text(a) + seq![41u8],
        Inst::Const(d, val) => var_text(d) + seq![32u8, 61u8, 32u8] + value_text(val),
        Inst::Call(d, f, args) => var_text(d) + seq![32u8, 61u8, 32u8, 36u8] + dec_bytes(f as nat)
            + seq![40u8] + vars_text(args@, 0) + seq![41u8],
        Inst::Branch(c, paths) => seq![105u8, 102u8, 32u8] + var_text(c) + seq![
            32u8,
            116u8,
            104u8,
            101u8,
            110u8,
            32u8,
            39u8,
        ] + dec_bytes(paths.0 as nat) + seq![32u8, 101u8, 108u8, 115u8, 101u8, 32u8, 39u8]
            + dec_bytes(paths.1 as nat),
        Inst::JumpTo(t, args) => seq![39u8] + dec_bytes(t as nat) + seq![40u8] + vars_text(
            args@,
            0,
        ) + seq![41u8],
        Inst::Return(v) => seq![114u8, 101u8, 116u8, 117u8, 114u8, 110u8, 32u8] + var_text(v),
    }) + seq![10u8]
}

/// One block header: the block number and its parameter variables.
pub open spec fn header_text(f: Func, b: int) -> Seq<u8> {
    seq![39u8] + dec_bytes(b as nat) + seq![32u8, 40u8] + params_text(
        f.ir.block_params@[b].0 as int,
        f.ir.block_params@[b].1 as int,
        0,
    ) + seq![41u8, 58u8, 10u8]
}

/// The headers of every block whose label is `i`, from block `b` on.
pub open spec fn headers_at(f: Func, i: int, b: int) -> Seq<u8>
    decreases (if b < f.ir.blocks@.len() {
        f.ir.blocks@.len() - b
    } else {
        0
    }),
{
    if b < 0 || b >= f.ir.blocks@.len() {
        Seq::empty()
    } else {
        (if f.ir.blocks@[b] == i {
            header_text(f, b)
        } else {
            Seq::<u8>::empty()
        }) + headers_at(f, i, b + 1)
    }
}

/// The dump of the instructions from `i` on, block headers interleaved.
pub open spec fn insts_text(f: Func, i: int) -> Seq<u8>
    decreases (if i < f.ir.insts@.len() {
        f.ir.insts@.len() - i
    } else {
        0
    }),
{
    if i < 0 || i >= f.ir.insts@.len() {
        Seq::empty()
    } else {
        headers_at(f, i, 0) + inst_text(f.ir.insts@[i]) + insts_text(f, i + 1)
    }
}

/// One function's dump: the header line and the instruction walk.
pub open spec fn func_text(f: Func) -> Seq<u8> {
    seq![102u8, 117u8, 110u8, 99u8, 116u8, 105u8, 111u8, 110u8, 32u8] + encode_utf8(f.name@)
        + seq![32u8, 40u8, 41u8, 58u8, 10u8] + insts_text(f, 0)
}

/// The whole module's dump, from function `i` on.
pub open spec fn spec_dump(funcs: Seq<Func>, i: int) -> Seq<u8>
    decreases (if i < funcs.len() {
        funcs.len() - i
    } else {
        0
    }),
{
    if i < 0 || i >= funcs.len() {
        Seq::empty()
    } else {
        func_text(funcs[i]) + spec_dump(funcs, i + 1)
    }
}

/// Append a variable reference.
fn push_var(out: &mut Vec<u8>, v: usize)
    ensures
        final(out)@ == old(out)@ + var_text(v),
{
    out.push(118);
    push_dec(out, v as u64);
    proof {
        assert(out@ =~= old(out)@ + var_text(v));
    }
}

/// Append a space-separated variable list.
fn push_vars(out: &mut Vec<u8>, args: &Vec<usize>)
    ensures
        final(out)@ == old(out)@ + vars_text(args@, 0),
{
    let n: usize = args.len();
    let mut i: usize = 0;
    while i < n
        invariant
            i <= n,
            n == args@.len(),
            old(out)@ + vars_text(args@, 0) == out@ + vars_text(args@, i as int),
        decreases n - i,
    {
        if i > 0 {
            out.push(32);
        }
        push_var(out, args[i]);
        proof {
            assert(old(out)@ + vars_text(args@, 0) =~= out@ + vars_text(args@, i + 1));
        }
        i = i + 1;
    }
}

/// Append a parameter run.
fn push_params(out: &mut Vec<u8>, first: usize, count: usize)
    requires
        first + count <= usize::MAX,
    ensures
        final(out)@ == old(out)@ + params_text(first as int, count as int, 0),
{
    let mut j: usize = 0;
    while j < count
        invariant
            j <= count,
            first + count <= usize::MAX,
            old(out)@ + params_text(first as int, count as int, 0) == out@ + params_text(
                first as int,
                count as int,
                j as int,
            ),
        decreases count - j,
    {
        if j > 0 {
            out.push(32);
        }
        push_var(out, first + j);
        proof {
            assert(old(out)@ + params_text(first as int, count as int, 0) =~= out@ + params_text(
                first as int,
                count as int,
                j + 1,
            ));
        }
        j = j + 1;
    }
}

/// Append a constant's rendering.
fn push_value(out: &mut Vec<u8>, val: &Value)
    requires
        val.wf(),
    ensures
        final(out)@ == old(out)@ + value_text(*val),
{
    match val.get_type() {
        TypeDef::I32 => {
            out.push(73);
            out.push(51);
            out.push(50);
            out.push(40);
            push_dec_i32(out, val.as_i32());
            out.push(41);
        },
        TypeDef::F64 => {
            out.push(70);
            out.push(54);
            out.push(52);
            out.push(40);
            push_f64_wat(out, val.as_f64_bits());
            out.push(41);
        },
        TypeDef::Bool => {
            if val.as_bool() {
                out.push(66);
                out.push(111);
                out.push(111);
                out.push(108);
                out.push(40);
                out.push(116);
                out.push(114);
                out.push(117);
                out.push(101);
                out.push(41);
            } else {
                out.push(66);
                out.push(111);
                out.push(111);
                out.push(108);
                out.push(40);
                out.push(102);
                out.push(97);
                out.push(108);
                out.push(115);
                out.push(101);
                out.push(41);
            }
        },
        TypeDef::Unit => {
            out.push(85);
            out.push(110);
            out.push(105);
            out.push(116);
        },
    }
    proof {
        assert(out@ =~= old(out)@ + value_text(*val));
    }
}

/// Append one instruction's line.
#[verifier::rlimit(100)]
#[verifier::spinoff_prover]
fn push_inst(out: &mut Vec<u8>, inst: &Inst)
    requires
        match *inst {
            Inst::Const(_d, val) => val.wf(),
            _ => true,
        },
    ensures
        final(out)@ == old(out)@ + inst_text(*inst),
{
    out.push(32);
    out.push(32);
    match inst {
        Inst::Op(d, op, a, b) => {
            push_var(out, *d);
            out.push(32);
            out.push(61);
            out.push(32);
            out.push(40);
            match op {
                Op::Add => { out.push(65); out.push(100); out.push(100); },
                Op::Sub => { out.push(83); out.push(117); out.push(98); },
                Op::Mul => { out.push(77); out.push(117); out.push(108); },
                Op::Div => { out.push(68); out.push(105); out.push(118); },
                Op::Eq => { out.push(69); out.push(113); },
                Op::Ne => { out.push(78); out.push(101); },
                Op::Le => { out.push(76); out.push(101); },
                Op::Lt => { out.push(76); out.push(116); },
                Op::Ge => { out.push(71); out.push(101); },
                Op::Gt => { out.push(71); out.push(116); },
            }
            out.push(32);
            push_var(out, *a);
            out.push(32);
            push_var(out, *b);
            out.push(41);
            out.push(10);
            proof {
                assert(out@ =~= old(out)@ + inst_text(*inst));
            }
        },
        Inst::UOp(d, op, a) => {
            push_var(out, *d);
            out.push(32);
            out.push(61);
            out.push(32);
            out.push(40);
            match op {
                UOp::Neg => { out.push(78); out.push(101); out.push(103); },
                UOp::Not => { out.push(78); out.push(111); out.push(116); },
            }
            out.push(32);
            push_var(out, *a);
            out.push(41);
            out.push(10);
            proof {
                assert(out@ =~= old(out)@ + inst_text(*inst));
            }
        },
        Inst::Const(d, val) => {
            push_var(out, *d);
            out.push(32);
            out.push(61);
            out.push(32);
            push_value(out, val);
            out.push(10);
            proof {
                assert(out@ =~= old(out)@ + inst_text(*inst));
            }
        },
        Inst::Call(d, f, args) => {
            push_var(out, *d);
            out.push(32);
            out.push(61);
            out.push(32);
            out.push(36);
            push_dec(out, *f as u64);
            out.push(40);
            push_vars(out, args);
            out.push(41);
            out.push(10);
            proof {
                assert(out@ =~= old(out)@ + inst_text(*inst));
            }
        },
        Inst::Branch(c, paths) => {
            out.push(105);
            out.push(102);
            out.push(32);
            push_var(out, *c);
            out.push(32);
            out.push(116);
            out.push(104);
            out.push(101);
            out.push(110);
            out.push(32);
            out.push(39);
            push_dec(out, paths.0 as u64);
            out.push(32);
            out.push(101);
            out.push(108);
            out.push(115);
            out.push(101);
            out.push(32);
            out.push(39);
            push_dec(out, paths.1 as u64);
            out.push(10);
            proof {
                assert(out@ =~= old(out)@ + inst_text(*inst));
            }
        },
        Inst::JumpTo(t, args) => {
            out.push(39);
            push_dec(out, *t as u64);
            out.push(40);
            push_vars(out, args);
            out.push(41);
            out.push(10);
            proof {
                assert(out@ =~= old(out)@ + inst_text(*inst));
            }
        },
        Inst::Return(v) => {
            out.push(114);
            out.push(101);
            out.push(116);
            out.push(117);
            out.push(114);
            out.push(110);
            out.push(32);
            push_var(out, *v);
            out.push(10);
            proof {
                assert(out@ =~= old(out)@ + inst_text(*inst));
            }
        },
    }
}

/// Append the headers of every block labelled `i`.
fn push_headers(out: &mut Vec<u8>, func: &Func, i: usize)
    requires
        func_wf(*func),
    ensures
        final(out)@ == old(out)@ + headers_at(*func, i as int, 0),
{
    let nb: usize = func.ir.blocks.len();
    let mut b: usize = 0;
    while b < nb
        invariant
            b <= nb,
            nb == func.ir.blocks@.len(),
            func_wf(*func),
            old(out)@ + headers_at(*func, i as int, 0) == out@ + headers_at(
                *func,
                i as int,
                b as int,
            ),
        decreases nb - b,
    {
        if func.ir.blocks[b] == i {
            out.push(39);
            push_dec(out, b as u64);
            out.push(32);
            out.push(40);
            let first: usize = func.ir.block_params[b].0;
            let count: usize = func.ir.block_params[b].1;
            push_params(out, first, count);
            out.push(41);
            out.push(58);
            out.push(10);
        }
        proof {
            assert(old(out)@ + headers_at(*func, i as int, 0) =~= out@ + headers_at(
                *func,
                i as int,
                b + 1,
            ));
        }
        b = b + 1;
    }
}

/// Append one function's dump.
fn push_func_dump(out: &mut Vec<u8>, func: &Func)
    requires
        func_wf(*func),
    ensures
        final(out)@ == old(out)@ + func_text(*func),
{
    out.push(102);
    out.push(117);
    out.push(110);
    out.push(99);
    out.push(116);
    out.push(105);
    out.push(111);
    out.push(110);
    out.push(32);
    let name_bytes: &[u8] = func.name.as_str().as_bytes();
    out.extend_from_slice(name_bytes);
    out.push(32);
    out.push(40);
    out.push(41);
    out.push(58);
    out.push(10);
    let ghost g1 = out@;
    proof {
        assert(g1 =~= old(out)@ + (seq![
            102u8,
            117u8,
            110u8,
            99u8,
            116u8,
            105u8,
            111u8,
            110u8,
            32u8,
        ] + encode_utf8(func.name@) + seq![32u8, 40u8, 41u8, 58u8, 10u8]));
    }
    let n: usize = func.ir.insts.len();
    let mut i: usize = 0;
    while i < n
        invariant
            i <= n,
            n == func.ir.insts@.len(),
            func_wf(*func),
            g1 + insts_text(*func, 0) == out@ + insts_text(*func, i as int),
        decreases n - i,
    {
        push_headers(out, func, i);
        proof {
            assert(crate::wf::inst_vars_ok(
                func.ir.insts@[i as int],
                func.ir.num_vars as int,
            ));
        }
        push_inst(out, &func.ir.insts[i]);
        proof {
            assert(g1 + insts_text(*func, 0) =~= out@ + insts_text(*func, i + 1));
        }
        i = i + 1;
    }
    proof {
        assert(out@ =~= old(out)@ + func_text(*func));
    }
}

impl Module {
    /// Render the whole module's dump.  The bytes are a pure function of
    /// the function table, so the dump of one representation never varies.
    pub fn dump_ir(&self) -> (r: Vec<u8>)
        requires
            self.wf(),
        ensures
            r@ == spec_dump(self.funcs@, 0),
    {
        let mut out: Vec<u8> = Vec::new();
        let n: usize = self.funcs.len();
        let mut i: usize = 0;
        proof {
            assert(out@ =~= Seq::<u8>::empty());
        }
        while i < n
            invariant
                i <= n,
                n == self.funcs@.len(),
                self.wf(),
                spec_dump(self.funcs@, 0) == out@ + spec_dump(self.funcs@, i as int),
            decreases n - i,
        {
            proof {
                assert(func_wf(self.funcs@[i as int]));
            }
            push_func_dump(&mut out, &self.funcs[i]);
            proof {
                assert(spec_dump(self.funcs@, 0) =~= out@ + spec_dump(self.funcs@, i + 1));
            }
            i = i + 1;
        }
        proof {
            assert(out@ =~= spec_dump(self.funcs@, 0));
        }
        out
    }
}

} // verus!
