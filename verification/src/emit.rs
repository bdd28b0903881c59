//! The emission protocol: one small set of primitive operations
//! (`get_local`, `const_i32`, `start_loop`, ...) over one buffer, with two
//! back ends behind a tag — WebAssembly binary opcodes and text format
//! lines.  Every primitive's output is pinned byte for byte, so everything
//! built on top of the protocol is a pure function of its inputs.

use vstd::prelude::*;
use crate::cfg::{is_loop, spec_is_loop};
use crate::ir::{Func, Inst, Op, UOp};
use crate::leb128::{spec_sleb128, spec_uleb128, write_sleb, write_uleb};
use crate::text::{dec_bytes, dec_bytes_signed, f64_wat_bytes, push_dec, push_dec_i32, push_f64_wat};
use crate::value::{TypeDef, spec_u64_to_be_bytes};
use crate::wf::blocks_wf;

verus! {

/// A stack machine instruction without immediate operands.
#[derive(Debug, Clone, Copy, PartialEq, Eq, Structural)]
pub enum WasmInst {
    I32Add,
    F64Add,
    I32Sub,
    F64Sub,
    I32Mul,
    F64Mul,
    I32DivS,
    F64DivS,
    I32Eq,
    F64Eq,
    I32Ne,
    F64Ne,
    I32GeS,
    F64GeS,
    I32GtS,
    F64GtS,
    I32LeS,
    F64LeS,
    I32LtS,
    F64LtS,
    F64Neg,
    Unreachable,
}

/// The text format mnemonic of an instruction.
pub open spec fn op_text(i: WasmInst) -> Seq<u8> {
    match i {
        WasmInst::I32Add => seq![105u8, 51u8, 50u8, 46u8, 97u8, 100u8, 100u8],
        WasmInst::F64Add => seq![102u8, 54u8, 52u8, 46u8, 97u8, 100u8, 100u8],
        WasmInst::I32Sub => seq![105u8, 51u8, 50u8, 46u8, 115u8, 117u8, 98u8],
        WasmInst::F64Sub => seq![102u8, 54u8, 52u8, 46u8, 115u8, 117u8, 98u8],
        WasmInst::I32Mul => seq![105u8, 51u8, 50u8, 46u8, 109u8, 117u8, 108u8],
        WasmInst::F64Mul => seq![102u8, 54u8, 52u8, 46u8, 109u8, 117u8, 108u8],
        WasmInst::I32DivS => seq![105u8, 51u8, 50u8, 46u8, 100u8, 105u8, 118u8, 95u8, 115u8],
        WasmInst::F64DivS => seq![102u8, 54u8, 52u8, 46u8, 100u8, 105u8, 118u8, 95u8, 115u8],
        WasmInst::I32Eq => seq![105u8, 51u8, 50u8, 46u8, 101u8, 113u8],
        WasmInst::F64Eq => seq![102u8, 54u8, 52u8, 46u8, 101u8, 113u8],
        WasmInst::I32Ne => seq![105u8, 51u8, 50u8, 46u8, 110u8, 101u8],
        WasmInst::F64Ne => seq![102u8, 54u8, 52u8, 46u8, 110u8, 101u8],
        WasmInst::I32GeS => seq![105u8, 51u8, 50u8, 46u8, 103u8, 101u8, 95u8, 115u8],
        WasmInst::F64GeS => seq![102u8, 54u8, 52u8, 46u8, 103u8, 101u8, 95u8, 115u8],
        WasmInst::I32GtS => seq![105u8, 51u8, 50u8, 46u8, 103u8, 116u8, 95u8, 115u8],
        WasmInst::F64GtS => seq![102u8, 54u8, 52u8, 46u8, 103u8, 116u8, 95u8, 115u8],
        WasmInst::I32LeS => seq![105u8, 51u8, 50u8, 46u8, 108u8, 101u8, 95u8, 115u8],
        WasmInst::F64LeS => seq![102u8, 54u8, 52u8, 46u8, 108u8, 101u8, 95u8, 115u8],
        WasmInst::I32LtS => seq![105u8, 51u8, 50u8, 46u8, 108u8, 116u8, 95u8, 115u8],
        WasmInst::F64LtS => seq![102u8, 54u8, 52u8, 46u8, 108u8, 116u8, 95u8, 115u8],
        WasmInst::F64Neg => seq![102u8, 54u8, 52u8, 46u8, 110u8, 101u8, 103u8],
        WasmInst::Unreachable => seq![
            117u8,
            110u8,
            114u8,
            101u8,
            97u8,
            99u8,
            104u8,
            97u8,
            98u8,
            108u8,
            101u8,
        ],
    }
}

/// The binary opcode of an instruction.
pub open spec fn op_code(i: WasmInst) -> u8 {
    match i {
        WasmInst::I32Add => 106,
        WasmInst::F64Add => 160,
        WasmInst::I32Sub => 107,
        WasmInst::F64Sub => 161,
        WasmInst::I32Mul => 108,
        WasmInst::F64Mul => 162,
        WasmInst::I32DivS => 109,
        WasmInst::F64DivS => 163,
        WasmInst::I32Eq => 70,
        WasmInst::F64Eq => 97,
        WasmInst::I32Ne => 71,
        WasmInst::F64Ne => 98,
        WasmInst::I32GeS => 78,
        WasmInst::F64GeS => 102,
        WasmInst::I32GtS => 74,
        WasmInst::F64GtS => 100,
        WasmInst::I32LeS => 76,
        WasmInst::F64LeS => 101,
        WasmInst::I32LtS => 72,
        WasmInst::F64LtS => 99,
        WasmInst::F64Neg => 154,
        WasmInst::Unreachable => 0,
    }
}

/// The text `local.get `.
pub open spec fn txt_get_local() -> Seq<u8> {
    seq![108u8, 111u8, 99u8, 97u8, 108u8, 46u8, 103u8, 101u8, 116u8, 32u8]
}

/// The text `local.set `.
pub open spec fn txt_set_local() -> Seq<u8> {
    seq![108u8, 111u8, 99u8, 97u8, 108u8, 46u8, 115u8, 101u8, 116u8, 32u8]
}

/// The text `br `.
pub open spec fn txt_br() -> Seq<u8> {
    seq![98u8, 114u8, 32u8]
}

/// The text `call `.
pub open spec fn txt_call() -> Seq<u8> {
    seq![99u8, 97u8, 108u8, 108u8, 32u8]
}

/// The text `i32.const `.
pub open spec fn txt_i32_const() -> Seq<u8> {
    seq![105u8, 51u8, 50u8, 46u8, 99u8, 111u8, 110u8, 115u8, 116u8, 32u8]
}

/// The text `f64.const `.
pub open spec fn txt_f64_const() -> Seq<u8> {
    seq![102u8, 54u8, 52u8, 46u8, 99u8, 111u8, 110u8, 115u8, 116u8, 32u8]
}

/// The text `return`.
pub open spec fn txt_return() -> Seq<u8> {
    seq![114u8, 101u8, 116u8, 117u8, 114u8, 110u8]
}

/// The text `(loop`.
pub open spec fn txt_open_loop() -> Seq<u8> {
    seq![40u8, 108u8, 111u8, 111u8, 112u8]
}

/// The text `(if (then`.
pub open spec fn txt_open_if() -> Seq<u8> {
    seq![40u8, 105u8, 102u8, 32u8, 40u8, 116u8, 104u8, 101u8, 110u8]
}

/// The text `) (else`.
pub open spec fn txt_else() -> Seq<u8> {
    seq![41u8, 32u8, 40u8, 101u8, 108u8, 115u8, 101u8]
}

/// The text `))`.
pub open spec fn txt_end() -> Seq<u8> {
    seq![41u8, 41u8]
}

/// The text `)`.
pub open spec fn txt_close() -> Seq<u8> {
    seq![41u8]
}

/// The indent of a text line: one tab per nesting level above the first.
pub open spec fn tabs(tab: nat) -> Seq<u8> {
    Seq::new(if tab == 0 { 0 } else { (tab - 1) as nat }, |_i: int| 9u8)
}

/// One text line: indent, content, newline.
pub open spec fn line(tab: nat, content: Seq<u8>) -> Seq<u8> {
    tabs(tab) + content + seq![10u8]
}

/// One nesting level less, stopping at zero.
pub open spec fn sat_dec(tab: nat) -> nat {
    if tab == 0 { 0 } else { (tab - 1) as nat }
}

/// One nesting level more, capped at the address space limit so that the
/// executable counter mirrors this exactly.
pub open spec fn sat_inc(tab: nat) -> nat {
    if tab < usize::MAX { tab + 1 } else { tab }
}

/// What `get_local` appends.
pub open spec fn get_local_bytes(wat: bool, tab: nat, var: usize) -> Seq<u8> {
    if wat {
        line(tab, txt_get_local() + dec_bytes(var as nat))
    } else {
        seq![32u8] + spec_uleb128(var as nat)
    }
}

/// What `set_local` appends.
pub open spec fn set_local_bytes(wat: bool, tab: nat, var: usize) -> Seq<u8> {
    if wat {
        line(tab, txt_set_local() + dec_bytes(var as nat))
    } else {
        seq![33u8] + spec_uleb128(var as nat)
    }
}

/// What `add_break` appends.
pub open spec fn br_bytes(wat: bool, tab: nat, label: usize) -> Seq<u8> {
    if wat {
        line(tab, txt_br() + dec_bytes(label as nat))
    } else {
        seq![12u8] + spec_uleb128(label as nat)
    }
}

/// What `add_func_call` appends.
pub open spec fn call_bytes(wat: bool, tab: nat, func_id: usize) -> Seq<u8> {
    if wat {
        line(tab, txt_call() + dec_bytes(func_id as nat))
    } else {
        seq![16u8] + spec_uleb128(func_id as nat)
    }
}

/// What `add_const_i32` appends.
pub open spec fn const_i32_bytes(wat: bool, tab: nat, value: i32) -> Seq<u8> {
    if wat {
        line(tab, txt_i32_const() + dec_bytes_signed(value as int))
    } else {
        seq![65u8] + spec_sleb128(value as int)
    }
}

/// What `add_const_f64` appends: the text rendering, or the opcode and the
/// eight bits of the pattern in little-endian order.
pub open spec fn const_f64_bytes(wat: bool, tab: nat, bits: u64) -> Seq<u8> {
    if wat {
        line(tab, txt_f64_const() + f64_wat_bytes(bits))
    } else {
        seq![68u8] + spec_u64_to_be_bytes(bits).reverse()
    }
}

/// What `add_return` appends.
pub open spec fn return_bytes(wat: bool, tab: nat) -> Seq<u8> {
    if wat {
        line(tab, txt_return())
    } else {
        seq![15u8]
    }
}

/// What `add_inst` appends.
pub open spec fn inst_op_bytes(wat: bool, tab: nat, i: WasmInst) -> Seq<u8> {
    if wat {
        line(tab, op_text(i))
    } else {
        seq![op_code(i)]
    }
}

/// What `start_loop` appends.
pub open spec fn start_loop_bytes(wat: bool, tab: nat) -> Seq<u8> {
    if wat {
        line(tab, txt_open_loop())
    } else {
        seq![3u8, 64u8]
    }
}

/// What `if_block` appends.
pub open spec fn if_block_bytes(wat: bool, tab: nat) -> Seq<u8> {
    if wat {
        line(tab, txt_open_if())
    } else {
        seq![4u8, 64u8]
    }
}

/// What `else_block` appends; the line sits one level out.
pub open spec fn else_block_bytes(wat: bool, tab: nat) -> Seq<u8> {
    if wat {
        line(sat_dec(tab), txt_else())
    } else {
        seq![5u8]
    }
}

/// What `end_block` appends; the line sits one level out.
pub open spec fn end_block_bytes(wat: bool, tab: nat) -> Seq<u8> {
    if wat {
        line(sat_dec(tab), txt_end())
    } else {
        seq![11u8]
    }
}

/// What `close_loop` appends; the line sits one level out.
pub open spec fn close_loop_bytes(wat: bool, tab: nat) -> Seq<u8> {
    if wat {
        line(sat_dec(tab), txt_close())
    } else {
        seq![11u8]
    }
}

/// The nesting level after a structural primitive: text nesting moves,
/// binary emission keeps no nesting state.
pub open spec fn tab_after_open(wat: bool, tab: nat) -> nat {
    if wat { sat_inc(tab) } else { tab }
}

/// The nesting level after `else_block`.
pub open spec fn tab_after_else(wat: bool, tab: nat) -> nat {
    if wat { sat_inc(sat_dec(tab)) } else { tab }
}

/// The nesting level after `end_block` or `close_loop`.
pub open spec fn tab_after_close(wat: bool, tab: nat) -> nat {
    if wat { sat_dec(tab) } else { tab }
}

/// One emission buffer with its back end tag: text format when `wat`
/// holds, binary opcodes otherwise, plus the text nesting level.
pub struct Emitter {
    pub wat: bool,
    pub buffer: Vec<u8>,
    pub tab: usize,
}

impl Emitter {
    /// A fresh binary emitter.
    pub fn new_wasm() -> (r: Emitter)
        ensures
            r.wat == false,
            r.buffer@ == Seq::<u8>::empty(),
            r.tab == 0,
    {
        let r = Emitter { wat: false, buffer: Vec::new(), tab: 0 };
        proof {
            assert(r.buffer@ =~= Seq::<u8>::empty());
        }
        r
    }

    /// A fresh text emitter, indented for a function body.
    pub fn new_wat() -> (r: Emitter)
        ensures
            r.wat == true,
            r.buffer@ == Seq::<u8>::empty(),
            r.tab == 2,
    {
        let r = Emitter { wat: true, buffer: Vec::new(), tab: 2 };
        proof {
            assert(r.buffer@ =~= Seq::<u8>::empty());
        }
        r
    }

    /// Append the indent of the current nesting level.
    fn put_tabs(&mut self)
        ensures
            final(self).buffer@ == old(self).buffer@ + tabs(old(self).tab as nat),
            final(self).tab == old(self).tab,
            final(self).wat == old(self).wat,
    {
        let k: usize = if self.tab == 0 { 0 } else { self.tab - 1 };
        let mut i: usize = 0;
        while i < k
            invariant
                i <= k,
                self.buffer@ == old(self).buffer@ + tabs(old(self).tab as nat).take(i as int),
                self.tab == old(self).tab,
                self.wat == old(self).wat,
                k == sat_dec(old(self).tab as nat),
            decreases k - i,
        {
            self.buffer.push(9);
            proof {
                assert(self.buffer@ =~= old(self).buffer@ + tabs(old(self).tab as nat).take(
                    i + 1,
                ));
            }
            i = i + 1;
        }
        proof {
            assert(tabs(old(self).tab as nat).take(k as int) =~= tabs(old(self).tab as nat));
        }
    }

    /// Append a full mnemonic line for an instruction.
    fn put_op_line(&mut self, i: WasmInst)
        ensures
            final(self).buffer@ == old(self).buffer@ + line(old(self).tab as nat, op_text(i)),
            final(self).tab == old(self).tab,
            final(self).wat == old(self).wat,
    {
        self.put_tabs();
        match i {
            WasmInst::I32Add => { self.buffer.push(105); self.buffer.push(51); self.buffer.push(50); self.buffer.push(46); self.buffer.push(97); self.buffer.push(100); self.buffer.push(100); },
            WasmInst::F64Add => { self.buffer.push(102); self.buffer.push(54); self.buffer.push(52); self.buffer.push(46); self.buffer.push(97); self.buffer.push(100); self.buffer.push(100); },
            WasmInst::I32Sub => { self.buffer.push(105); self.buffer.push(51); self.buffer.push(50); self.buffer.push(46); self.buffer.push(115); self.buffer.push(117); self.buffer.push(98); },
            WasmInst::F64Sub => { self.buffer.push(102); self.buffer.push(54); self.buffer.push(52); self.buffer.push(46); self.buffer.push(115); self.buffer.push(117); self.buffer.push(98); },
            WasmInst::I32Mul => { self.buffer.push(105); self.buffer.push(51); self.buffer.push(50); self.buffer.push(46); self.buffer.push(109); self.buffer.push(117); self.buffer.push(108); },
            WasmInst::F64Mul => { self.buffer.push(102); self.buffer.push(54); self.buffer.push(52); self.buffer.push(46); self.buffer.push(109); self.buffer.push(117); self.buffer.push(108); },
            WasmInst::I32DivS => { self.buffer.push(105); self.buffer.push(51); self.buffer.push(50); self.buffer.push(46); self.buffer.push(100); self.buffer.push(105); self.buffer.push(118); self.buffer.push(95); self.buffer.push(115); },
            WasmInst::F64DivS => { self.buffer.push(102); self.buffer.push(54); self.buffer.push(52); self.buffer.push(46); self.buffer.push(100); self.buffer.push(105); self.buffer.push(118); self.buffer.push(95); self.buffer.push(115); },
            WasmInst::I32Eq => { self.buffer.push(105); self.buffer.push(51); self.buffer.push(50); self.buffer.push(46); self.buffer.push(101); self.buffer.push(113); },
            WasmInst::F64Eq => { self.buffer.push(102); self.buffer.push(54); self.buffer.push(52); self.buffer.push(46); self.buffer.push(101); self.buffer.push(113); },
            WasmInst::I32Ne => { self.buffer.push(105); self.buffer.push(51); self.buffer.push(50); self.buffer.push(46); self.buffer.push(110); self.buffer.push(101); },
            WasmInst::F64Ne => { self.buffer.push(102); self.buffer.push(54); self.buffer.push(52); self.buffer.push(46); self.buffer.push(110); self.buffer.push(101); },
            WasmInst::I32GeS => { self.buffer.push(105); self.buffer.push(51); self.buffer.push(50); self.buffer.push(46); self.buffer.push(103); self.buffer.push(101); self.buffer.push(95); self.buffer.push(115); },
            WasmInst::F64GeS => { self.buffer.push(102); self.buffer.push(54); self.buffer.push(52); self.buffer.push(46); self.buffer.push(103); self.buffer.push(101); self.buffer.push(95); self.buffer.push(115); },
            WasmInst::I32GtS => { self.buffer.push(105); self.buffer.push(51); self.buffer.push(50); self.buffer.push(46); self.buffer.push(103); self.buffer.push(116); self.buffer.push(95); self.buffer.push(115); },
            WasmInst::F64GtS => { self.buffer.push(102); self.buffer.push(54); self.buffer.push(52); self.buffer.push(46); self.buffer.push(103); self.buffer.push(116); self.buffer.push(95); self.buffer.push(115); },
            WasmInst::I32LeS => { self.buffer.push(105); self.buffer.push(51); self.buffer.push(50); self.buffer.push(46); self.buffer.push(108); self.buffer.push(101); self.buffer.push(95); self.buffer.push(115); },
            WasmInst::F64LeS => { self.buffer.push(102); self.buffer.push(54); self.buffer.push(52); self.buffer.push(46); self.buffer.push(108); self.buffer.push(101); self.buffer.push(95); self.buffer.push(115); },
            WasmInst::I32LtS => { self.buffer.push(105); self.buffer.push(51); self.buffer.push(50); self.buffer.push(46); self.buffer.push(108); self.buffer.push(116); self.buffer.push(95); self.buffer.push(115); },
            WasmInst::F64LtS => { self.buffer.push(102); self.buffer.push(54); self.buffer.push(52); self.buffer.push(46); self.buffer.push(108); self.buffer.push(116); self.buffer.push(95); self.buffer.push(115); },
            WasmInst::F64Neg => { self.buffer.push(102); self.buffer.push(54); self.buffer.push(52); self.buffer.push(46); self.buffer.push(110); self.buffer.push(101); self.buffer.push(103); },
            WasmInst::Unreachable => { self.buffer.push(117); self.buffer.push(110); self.buffer.push(114); self.buffer.push(101); self.buffer.push(97); self.buffer.push(99); self.buffer.push(104); self.buffer.push(97); self.buffer.push(98); self.buffer.push(108); self.buffer.push(101); },
        }
        self.buffer.push(10);
        proof {
            assert(self.buffer@ =~= old(self).buffer@ + line(old(self).tab as nat, op_text(i)));
        }
    }

    /// Emit a `get_local`.
    pub fn get_local(&mut self, var: usize)
        ensures
            final(self).buffer@ == old(self).buffer@ + get_local_bytes(
                old(self).wat,
                old(self).tab as nat,
                var,
            ),
            final(self).tab == old(self).tab,
            final(self).wat == old(self).wat,
    {
        if self.wat {
            self.put_tabs();
            self.buffer.push(108);
            self.buffer.push(111);
            self.buffer.push(99);
            self.buffer.push(97);
            self.buffer.push(108);
            self.buffer.push(46);
            self.buffer.push(103);
            self.buffer.push(101);
            self.buffer.push(116);
            self.buffer.push(32);
            push_dec(&mut self.buffer, var as u64);
            self.buffer.push(10);
        } else {
            self.buffer.push(32);
            write_uleb(&mut self.buffer, var as u64);
        }
        proof {
            assert(self.buffer@ =~= old(self).buffer@ + get_local_bytes(
                old(self).wat,
                old(self).tab as nat,
                var,
            ));
        }
    }

    /// Emit a `set_local`.
    pub fn set_local(&mut self, var: usize)
        ensures
            final(self).buffer@ == old(self).buffer@ + set_local_bytes(
                old(self).wat,
                old(self).tab as nat,
                var,
            ),
            final(self).tab == old(self).tab,
            final(self).wat == old(self).wat,
    {
        if self.wat {
            self.put_tabs();
            self.buffer.push(108);
            self.buffer.push(111);
            self.buffer.push(99);
            self.buffer.push(97);
            self.buffer.push(108);
            self.buffer.push(46);
            self.buffer.push(115);
            self.buffer.push(101);
            self.buffer.push(116);
            self.buffer.push(32);
            push_dec(&mut self.buffer, var as u64);
            self.buffer.push(10);
        } else {
            self.buffer.push(33);
            write_uleb(&mut self.buffer, var as u64);
        }
        proof {
            assert(self.buffer@ =~= old(self).buffer@ + set_local_bytes(
                old(self).wat,
                old(self).tab as nat,
                var,
            ));
        }
    }

    /// Emit a `br` to the given label depth.
    pub fn add_break(&mut self, label: usize)
        ensures
            final(self).buffer@ == old(self).buffer@ + br_bytes(
                old(self).wat,
                old(self).tab as nat,
                label,
            ),
            final(self).tab == old(self).tab,
            final(self).wat == old(self).wat,
    {
        if self.wat {
            self.put_tabs();
            self.buffer.push(98);
            self.buffer.push(114);
            self.buffer.push(32);
            push_dec(&mut self.buffer, label as u64);
            self.buffer.push(10);
        } else {
            self.buffer.push(12);
            write_uleb(&mut self.buffer, label as u64);
        }
        proof {
            assert(self.buffer@ =~= old(self).buffer@ + br_bytes(
                old(self).wat,
                old(self).tab as nat,
                label,
            ));
        }
    }

    /// Emit a call of a function by table index.
    pub fn add_func_call(&mut self, func_id: usize)
        ensures
            final(self).buffer@ == old(self).buffer@ + call_bytes(
                old(self).wat,
                old(self).tab as nat,
                func_id,
            ),
            final(self).tab == old(self).tab,
            final(self).wat == old(self).wat,
    {
        if self.wat {
            self.put_tabs();
            self.buffer.push(99);
            self.buffer.push(97);
            self.buffer.push(108);
            self.buffer.push(108);
            self.buffer.push(32);
            push_dec(&mut self.buffer, func_id as u64);
            self.buffer.push(10);
        } else {
            self.buffer.push(16);
            write_uleb(&mut self.buffer, func_id as u64);
        }
        proof {
            assert(self.buffer@ =~= old(self).buffer@ + call_bytes(
                old(self).wat,
                old(self).tab as nat,
                func_id,
            ));
        }
    }

    /// Emit an `i32.const`.
    pub fn add_const_i32(&mut self, value: i32)
        ensures
            final(self).buffer@ == old(self).buffer@ + const_i32_bytes(
                old(self).wat,
                old(self).tab as nat,
                value,
            ),
            final(self).tab == old(self).tab,
            final(self).wat == old(self).wat,
    {
        if self.wat {
            self.put_tabs();
            self.buffer.push(105);
            self.buffer.push(51);
            self.buffer.push(50);
            self.buffer.push(46);
            self.buffer.push(99);
            self.buffer.push(111);
            self.buffer.push(110);
            self.buffer.push(115);
            self.buffer.push(116);
            self.buffer.push(32);
            push_dec_i32(&mut self.buffer, value);
            self.buffer.push(10);
        } else {
            self.buffer.push(65);
            write_sleb(&mut self.buffer, value as i64);
        }
        proof {
            assert(self.buffer@ =~= old(self).buffer@ + const_i32_bytes(
                old(self).wat,
                old(self).tab as nat,
                value,
            ));
        }
    }

    /// Emit an `f64.const` from the IEEE 754 bit pattern.
    pub fn add_const_f64(&mut self, bits: u64)
        ensures
            final(self).buffer@ == old(self).buffer@ + const_f64_bytes(
                old(self).wat,
                old(self).tab as nat,
                bits,
            ),
            final(self).tab == old(self).tab,
            final(self).wat == old(self).wat,
    {
        if self.wat {
            self.put_tabs();
            self.buffer.push(102);
            self.buffer.push(54);
            self.buffer.push(52);
            self.buffer.push(46);
            self.buffer.push(99);
            self.buffer.push(111);
            self.buffer.push(110);
            self.buffer.push(115);
            self.buffer.push(116);
            self.buffer.push(32);
            push_f64_wat(&mut self.buffer, bits);
            self.buffer.push(10);
        } else {
            self.buffer.push(68);
            self.buffer.push((bits & 0xff) as u8);
            self.buffer.push(((bits >> 8) & 0xff) as u8);
            self.buffer.push(((bits >> 16) & 0xff) as u8);
            self.buffer.push(((bits >> 24) & 0xff) as u8);
            self.buffer.push(((bits >> 32) & 0xff) as u8);
            self.buffer.push(((bits >> 40) & 0xff) as u8);
            self.buffer.push(((bits >> 48) & 0xff) as u8);
            self.buffer.push(((bits >> 56) & 0xff) as u8);
            proof {
                assert(spec_u64_to_be_bytes(bits).reverse() =~= seq![
                    (bits & 0xff) as u8,
                    ((bits >> 8) & 0xff) as u8,
                    ((bits >> 16) & 0xff) as u8,
                    ((bits >> 24) & 0xff) as u8,
                    ((bits >> 32) & 0xff) as u8,
                    ((bits >> 40) & 0xff) as u8,
                    ((bits >> 48) & 0xff) as u8,
                    ((bits >> 56) & 0xff) as u8,
                ]);
            }
        }
        proof {
            assert(self.buffer@ =~= old(self).buffer@ + const_f64_bytes(
                old(self).wat,
                old(self).tab as nat,
                bits,
            ));
        }
    }

    /// Emit a `return`.
    pub fn add_return(&mut self)
        ensures
            final(self).buffer@ == old(self).buffer@ + return_bytes(
                old(self).wat,
                old(self).tab as nat,
            ),
            final(self).tab == old(self).tab,
            final(self).wat == old(self).wat,
    {
        if self.wat {
            self.put_tabs();
            self.buffer.push(114);
            self.buffer.push(101);
            self.buffer.push(116);
            self.buffer.push(117);
            self.buffer.push(114);
            self.buffer.push(110);
            self.buffer.push(10);
        } else {
            self.buffer.push(15);
        }
        proof {
            assert(self.buffer@ =~= old(self).buffer@ + return_bytes(
                old(self).wat,
                old(self).tab as nat,
            ));
        }
    }

    /// Emit a plain stack instruction.
    pub fn add_inst(&mut self, i: WasmInst)
        ensures
            final(self).buffer@ == old(self).buffer@ + inst_op_bytes(
                old(self).wat,
                old(self).tab as nat,
                i,
            ),
            final(self).tab == old(self).tab,
            final(self).wat == old(self).wat,
    {
        if self.wat {
            self.put_op_line(i);
        } else {
            let code: u8 = match i {
                WasmInst::I32Add => 106,
                WasmInst::F64Add => 160,
                WasmInst::I32Sub => 107,
                WasmInst::F64Sub => 161,
                WasmInst::I32Mul => 108,
                WasmInst::F64Mul => 162,
                WasmInst::I32DivS => 109,
                WasmInst::F64DivS => 163,
                WasmInst::I32Eq => 70,
                WasmInst::F64Eq => 97,
                WasmInst::I32Ne => 71,
                WasmInst::F64Ne => 98,
                WasmInst::I32GeS => 78,
                WasmInst::F64GeS => 102,
                WasmInst::I32GtS => 74,
                WasmInst::F64GtS => 100,
                WasmInst::I32LeS => 76,
                WasmInst::F64LeS => 101,
                WasmInst::I32LtS => 72,
                WasmInst::F64LtS => 99,
                WasmInst::F64Neg => 154,
                WasmInst::Unreachable => 0,
            };
            self.buffer.push(code);
        }
        proof {
            assert(self.buffer@ =~= old(self).buffer@ + inst_op_bytes(
                old(self).wat,
                old(self).tab as nat,
                i,
            ));
        }
    }

    /// Open a loop construct.
    pub fn start_loop(&mut self)
        ensures
            final(self).buffer@ == old(self).buffer@ + start_loop_bytes(
                old(self).wat,
                old(self).tab as nat,
            ),
            final(self).tab as nat == tab_after_open(old(self).wat, old(self).tab as nat),
            final(self).wat == old(self).wat,
    {
        if self.wat {
            self.put_tabs();
            self.buffer.push(40);
            self.buffer.push(108);
            self.buffer.push(111);
            self.buffer.push(111);
            self.buffer.push(112);
            self.buffer.push(10);
            if self.tab < usize::MAX {
                self.tab = self.tab + 1;
            }
        } else {
            self.buffer.push(3);
            self.buffer.push(64);
        }
        proof {
            assert(self.buffer@ =~= old(self).buffer@ + start_loop_bytes(
                old(self).wat,
                old(self).tab as nat,
            ));
        }
    }

    /// Open an `if`/`then` construct.
    pub fn if_block(&mut self)
        ensures
            final(self).buffer@ == old(self).buffer@ + if_block_bytes(
                old(self).wat,
                old(self).tab as nat,
            ),
            final(self).tab as nat == tab_after_open(old(self).wat, old(self).tab as nat),
            final(self).wat == old(self).wat,
    {
        if self.wat {
            self.put_tabs();
            self.buffer.push(40);
            self.buffer.push(105);
            self.buffer.push(102);
            self.buffer.push(32);
            self.buffer.push(40);
            self.buffer.push(116);
            self.buffer.push(104);
            self.buffer.push(101);
            self.buffer.push(110);
            self.buffer.push(10);
            if self.tab < usize::MAX {
                self.tab = self.tab + 1;
            }
        } else {
            self.buffer.push(4);
            self.buffer.push(64);
        }
        proof {
            assert(self.buffer@ =~= old(self).buffer@ + if_block_bytes(
                old(self).wat,
                old(self).tab as nat,
            ));
        }
    }

    /// Switch to the else arm of the open `if`.
    pub fn else_block(&mut self)
        ensures
            final(self).buffer@ == old(self).buffer@ + else_block_bytes(
                old(self).wat,
                old(self).tab as nat,
            ),
            final(self).tab as nat == tab_after_else(old(self).wat, old(self).tab as nat),
            final(self).wat == old(self).wat,
    {
        if self.wat {
            if self.tab > 0 {
                self.tab = self.tab - 1;
            }
            self.put_tabs();
            self.buffer.push(41);
            self.buffer.push(32);
            self.buffer.push(40);
            self.buffer.push(101);
            self.buffer.push(108);
            self.buffer.push(115);
            self.buffer.push(101);
            self.buffer.push(10);
            if self.tab < usize::MAX {
                self.tab = self.tab + 1;
            }
        } else {
            self.buffer.push(5);
        }
        proof {
            assert(self.buffer@ =~= old(self).buffer@ + else_block_bytes(
                old(self).wat,
                old(self).tab as nat,
            ));
        }
    }

    /// Close the open `if` construct.
    pub fn end_block(&mut self)
        ensures
            final(self).buffer@ == old(self).buffer@ + end_block_bytes(
                old(self).wat,
                old(self).tab as nat,
            ),
            final(self).tab as nat == tab_after_close(old(self).wat, old(self).tab as nat),
            final(self).wat == old(self).wat,
    {
        if self.wat {
            if self.tab > 0 {
                self.tab = self.tab - 1;
            }
            self.put_tabs();
            self.buffer.push(41);
            self.buffer.push(41);
            self.buffer.push(10);
        } else {
            self.buffer.push(11);
        }
        proof {
            assert(self.buffer@ =~= old(self).buffer@ + end_block_bytes(
                old(self).wat,
                old(self).tab as nat,
            ));
        }
    }

    /// Close the open loop construct.
    pub fn close_loop(&mut self)
        ensures
            final(self).buffer@ == old(self).buffer@ + close_loop_bytes(
                old(self).wat,
                old(self).tab as nat,
            ),
            final(self).tab as nat == tab_after_close(old(self).wat, old(self).tab as nat),
            final(self).wat == old(self).wat,
    {
        if self.wat {
            if self.tab > 0 {
                self.tab = self.tab - 1;
            }
            self.put_tabs();
            self.buffer.push(41);
            self.buffer.push(10);
        } else {
            self.buffer.push(11);
        }
        proof {
            assert(self.buffer@ =~= old(self).buffer@ + close_loop_bytes(
                old(self).wat,
                old(self).tab as nat,
            ));
        }
    }
}


/// The stack instruction implementing a binary operator on a given operand
/// type, when the pair is in the emission table.
pub open spec fn spec_op_for(op: Op, t: TypeDef) -> Option<WasmInst> {
    match (op, t) {
        (Op::Add, TypeDef::I32) => Some(WasmInst::I32Add),
        (Op::Add, TypeDef::F64) => Some(WasmInst::F64Add),
        (Op::Sub, TypeDef::I32) => Some(WasmInst::I32Sub),
        (Op::Sub, TypeDef::F64) => Some(WasmInst::F64Sub),
        (Op::Mul, TypeDef::I32) => Some(WasmInst::I32Mul),
        (Op::Mul, TypeDef::F64) => Some(WasmInst::F64Mul),
        (Op::Div, TypeDef::I32) => Some(WasmInst::I32DivS),
        (Op::Div, TypeDef::F64) => Some(WasmInst::F64DivS),
        (Op::Eq, TypeDef::Bool) => Some(WasmInst::I32Eq),
        (Op::Eq, TypeDef::I32) => Some(WasmInst::I32Eq),
        (Op::Eq, TypeDef::F64) => Some(WasmInst::F64Eq),
        (Op::Ne, TypeDef::Bool) => Some(WasmInst::I32Ne),
        (Op::Ne, TypeDef::I32) => Some(WasmInst::I32Ne),
        (Op::Ne, TypeDef::F64) => Some(WasmInst::F64Ne),
        (Op::Ge, TypeDef::I32) => Some(WasmInst::I32GeS),
        (Op::Ge, TypeDef::F64) => Some(WasmInst::F64GeS),
        (Op::Gt, TypeDef::I32) => Some(WasmInst::I32GtS),
        (Op::Gt, TypeDef::F64) => Some(WasmInst::F64GtS),
        (Op::Le, TypeDef::I32) => Some(WasmInst::I32LeS),
        (Op::Le, TypeDef::F64) => Some(WasmInst::F64LeS),
        (Op::Lt, TypeDef::I32) => Some(WasmInst::I32LtS),
        (Op::Lt, TypeDef::F64) => Some(WasmInst::F64LtS),
        _ => None,
    }
}

/// The executable form of the emission table.
pub fn op_for(op: Op, t: TypeDef) -> (r: Option<WasmInst>)
    ensures
        r == spec_op_for(op, t),
{
    match (op, t) {
        (Op::Add, TypeDef::I32) => Some(WasmInst::I32Add),
        (Op::Add, TypeDef::F64) => Some(WasmInst::F64Add),
        (Op::Sub, TypeDef::I32) => Some(WasmInst::I32Sub),
        (Op::Sub, TypeDef::F64) => Some(WasmInst::F64Sub),
        (Op::Mul, TypeDef::I32) => Some(WasmInst::I32Mul),
        (Op::Mul, TypeDef::F64) => Some(WasmInst::F64Mul),
        (Op::Div, TypeDef::I32) => Some(WasmInst::I32DivS),
        (Op::Div, TypeDef::F64) => Some(WasmInst::F64DivS),
        (Op::Eq, TypeDef::Bool) => Some(WasmInst::I32Eq),
        (Op::Eq, TypeDef::I32) => Some(WasmInst::I32Eq),
        (Op::Eq, TypeDef::F64) => Some(WasmInst::F64Eq),
        (Op::Ne, TypeDef::Bool) => Some(WasmInst::I32Ne),
        (Op::Ne, TypeDef::I32) => Some(WasmInst::I32Ne),
        (Op::Ne, TypeDef::F64) => Some(WasmInst::F64Ne),
        (Op::Ge, TypeDef::I32) => Some(WasmInst::I32GeS),
        (Op::Ge, TypeDef::F64) => Some(WasmInst::F64GeS),
        (Op::Gt, TypeDef::I32) => Some(WasmInst::I32GtS),
        (Op::Gt, TypeDef::F64) => Some(WasmInst::F64GtS),
        (Op::Le, TypeDef::I32) => Some(WasmInst::I32LeS),
        (Op::Le, TypeDef::F64) => Some(WasmInst::F64LeS),
        (Op::Lt, TypeDef::I32) => Some(WasmInst::I32LtS),
        (Op::Lt, TypeDef::F64) => Some(WasmInst::F64LtS),
        _ => None,
    }
}

/// `get_local` for each argument in order.
pub open spec fn spec_get_locals(args: Seq<usize>, wat: bool, tab: nat) -> Seq<u8>
    decreases args.len(),
{
    if args.len() == 0 {
        Seq::empty()
    } else {
        get_local_bytes(wat, tab, args[0]) + spec_get_locals(args.drop_first(), wat, tab)
    }
}

/// Block parameter passing: each argument read and stored into the
/// target's parameter slots in order.
pub open spec fn spec_pass_params(args: Seq<usize>, slot: int, wat: bool, tab: nat) -> Seq<u8>
    decreases args.len(),
{
    if args.len() == 0 {
        Seq::empty()
    } else {
        get_local_bytes(wat, tab, args[0]) + set_local_bytes(wat, tab, slot as usize)
            + spec_pass_params(args.drop_first(), slot + 1, wat, tab)
    }
}

/// The stack code of one straight-line instruction; terminators are
/// handled by the relooper itself.
pub open spec fn spec_inst_bytes(f: Func, inst: Inst, wat: bool, tab: nat) -> Seq<u8> {
    match inst {
        Inst::Call(var, call, args) => spec_get_locals(args@, wat, tab) + call_bytes(
            wat,
            tab,
            call,
        ) + set_local_bytes(wat, tab, var),
        Inst::Op(var, op, a, _b2) => get_local_bytes(wat, tab, a) + get_local_bytes(
            wat,
            tab,
            _b2,
        ) + (match spec_op_for(op, f.ir.var_type@[a as int]) {
            Some(w) => inst_op_bytes(wat, tab, w),
            None => Seq::empty(),
        }) + set_local_bytes(wat, tab, var),
        Inst::UOp(var, op, a) => (match (op, f.ir.var_type@[a as int]) {
            (UOp::Neg, TypeDef::I32) => const_i32_bytes(wat, tab, 0) + get_local_bytes(
                wat,
                tab,
                a,
            ) + inst_op_bytes(wat, tab, WasmInst::I32Sub),
            (UOp::Neg, TypeDef::F64) => get_local_bytes(wat, tab, a) + inst_op_bytes(
                wat,
                tab,
                WasmInst::F64Neg,
            ),
            _ => Seq::empty(),
        }) + set_local_bytes(wat, tab, var),
        Inst::Const(var, val) => (match val.spec_type() {
            TypeDef::Bool => const_i32_bytes(
                wat,
                tab,
                if val@ == crate::value::ValueModel::Bool(true) {
                    1
                } else {
                    0
                },
            ),
            TypeDef::I32 => const_i32_bytes(wat, tab, val@->I32_0),
            TypeDef::F64 => const_f64_bytes(wat, tab, val@->F64_0),
            TypeDef::Unit => Seq::empty(),
        }) + set_local_bytes(wat, tab, var),
        _ => Seq::empty(),
    }
}

/// The instruction range still ahead of position `p`, clamped for use as a
/// termination measure.
pub open spec fn ahead(f: Func, p: int) -> int {
    if 0 <= p <= f.ir.insts@.len() {
        f.ir.insts@.len() - p
    } else {
        0
    }
}

/// The open structured constructs around the current emission point,
/// innermost last: `Some(h)` for a loop construct wrapping the loop header
/// `h`, `None` for an `if` construct.  A jump whose target is an open loop
/// header is a back edge; its `br` label is the number of constructs
/// between the jump and that loop.
pub open spec fn spec_frame_label(frames: Seq<Option<usize>>, target: usize) -> Option<nat>
    decreases frames.len(),
{
    if frames.len() == 0 {
        None
    } else if frames.last() == Some(target) {
        Some(0nat)
    } else {
        match spec_frame_label(frames.drop_last(), target) {
            Some(l) => Some((l + 1) as nat),
            None => None,
        }
    }
}

/// What reconstructing structured control flow from `block` emits: the
/// bytes, the nesting level after them, and the hint where emission should
/// go on (always `None` under the conservative dominance answer).  A loop
/// header is wrapped in a loop construct, which opens one more frame
/// around its body.
pub open spec fn spec_reloop(
    f: Func,
    block: usize,
    wat: bool,
    tab: nat,
    frames: Seq<Option<usize>>,
    fuel: nat,
) -> (Seq<u8>, nat, Option<usize>)
    decreases fuel, 2int, 0int,
{
    if block >= f.ir.blocks@.len() {
        (Seq::empty(), tab, None)
    } else if spec_is_loop(f, block) {
        let open = start_loop_bytes(wat, tab);
        let t1 = tab_after_open(wat, tab);
        let body = spec_add_block(
            f,
            block,
            f.ir.blocks@[block as int] as int,
            wat,
            t1,
            frames.push(Some(block)),
            fuel,
        );
        let close = close_loop_bytes(wat, body.1);
        (open + body.0 + close, tab_after_close(wat, body.1), body.2)
    } else {
        spec_add_block(f, block, f.ir.blocks@[block as int] as int, wat, tab, frames, fuel)
    }
}

/// What emitting a conditional branch emits: the condition read, the two
/// arms as nested constructs, and the close.
pub open spec fn spec_branch(
    f: Func,
    cond: usize,
    then_block: usize,
    else_arm: usize,
    wat: bool,
    tab: nat,
    frames: Seq<Option<usize>>,
    fuel: nat,
) -> (Seq<u8>, nat, Option<usize>)
    decreases fuel, 0int, 0int,
{
    if fuel == 0 {
        (Seq::empty(), tab, None)
    } else {
        let head = get_local_bytes(wat, tab, cond) + if_block_bytes(wat, tab);
        let t1 = tab_after_open(wat, tab);
        let fr1 = frames.push(None);
        let a = spec_reloop(f, then_block, wat, t1, fr1, (fuel - 1) as nat);
        let eb = else_block_bytes(wat, a.1);
        let t2 = tab_after_else(wat, a.1);
        let b = spec_reloop(f, else_arm, wat, t2, fr1, (fuel - 1) as nat);
        let en = end_block_bytes(wat, b.1);
        (head + a.0 + eb + b.0 + en, tab_after_close(wat, b.1), None)
    }
}

/// What a jump emits: the block parameter passing, then either a `br` back
/// to an enclosing open loop (a back edge) or the target's own emission.
pub open spec fn spec_jump(
    f: Func,
    target: usize,
    args: Seq<usize>,
    wat: bool,
    tab: nat,
    frames: Seq<Option<usize>>,
    fuel: nat,
) -> (Seq<u8>, nat, Option<usize>)
    decreases fuel, 0int, 0int,
{
    if fuel == 0 || target >= f.ir.block_params@.len() {
        (Seq::empty(), tab, None)
    } else {
        let first = f.ir.block_params@[target as int].0;
        let pass = spec_pass_params(args, first as int, wat, tab);
        match spec_frame_label(frames, target) {
            Some(l) => (pass + br_bytes(wat, tab, l as usize), tab, None),
            None => {
                let r = spec_reloop(f, target, wat, tab, frames, (fuel - 1) as nat);
                (pass + r.0, r.1, r.2)
            },
        }
    }
}

/// What the straight-line walk from position `p` of `block` emits, and how
/// it ends: a return closes the walk; a branch emits both arms as nested
/// constructs; a jump either breaks back to the enclosing loop (a back
/// edge) or continues into its target.
pub open spec fn spec_add_block(
    f: Func,
    block: usize,
    p: int,
    wat: bool,
    tab: nat,
    frames: Seq<Option<usize>>,
    fuel: nat,
) -> (Seq<u8>, nat, Option<usize>)
    decreases fuel, 1int, ahead(f, p),
{
    if fuel == 0 || p < 0 || p >= f.ir.insts@.len() {
        (Seq::empty(), tab, None)
    } else {
        match f.ir.insts@[p] {
            Inst::Return(var) => (
                get_local_bytes(wat, tab, var) + return_bytes(wat, tab),
                tab,
                None,
            ),
            Inst::Branch(cond, paths) => spec_branch(
                f,
                cond,
                paths.0,
                paths.1,
                wat,
                tab,
                frames,
                fuel,
            ),
            Inst::JumpTo(target, args) => spec_jump(f, target, args@, wat, tab, frames, fuel),
            _ => {
                let bytes = spec_inst_bytes(f, f.ir.insts@[p], wat, tab);
                let rest = spec_add_block(f, block, p + 1, wat, tab, frames, fuel);
                (bytes + rest.0, rest.1, rest.2)
            },
        }
    }
}

/// Emit one straight-line instruction.
#[verifier::rlimit(100)]
#[verifier::spinoff_prover]
fn emit_inst(e: &mut Emitter, func: &Func, p: usize)
    requires
        blocks_wf(func.ir),
        p < func.ir.insts@.len(),
        !crate::ir::is_terminator(func.ir.insts@[p as int]),
    ensures
        final(e).buffer@ == old(e).buffer@ + spec_inst_bytes(
            *func,
            func.ir.insts@[p as int],
            old(e).wat,
            old(e).tab as nat,
        ),
        final(e).tab == old(e).tab,
        final(e).wat == old(e).wat,
{
    proof {
        assert(crate::wf::inst_vars_ok(func.ir.insts@[p as int], func.ir.num_vars as int));
    }
    match &func.ir.insts[p] {
        Inst::Call(var, call, args) => {
            let n: usize = args.len();
            let mut i: usize = 0;
            while i < n
                invariant
                    i <= n,
                    n == args@.len(),
                    forall|j: int| 0 <= j < n ==> args@[j] < func.ir.num_vars,
                    e.wat == old(e).wat,
                    e.tab == old(e).tab,
                    e.buffer@ == old(e).buffer@ + spec_get_locals(
                        args@.take(i as int),
                        old(e).wat,
                        old(e).tab as nat,
                    ),
                decreases n - i,
            {
                proof {
                    lemma_get_locals_take_step(args@, i as int, old(e).wat, old(e).tab as nat);
                }
                e.get_local(args[i]);
                proof {
                    assert(e.buffer@ =~= old(e).buffer@ + spec_get_locals(
                        args@.take(i + 1),
                        old(e).wat,
                        old(e).tab as nat,
                    ));
                }
                i = i + 1;
            }
            proof {
                assert(args@.take(n as int) =~= args@);
            }
            e.add_func_call(*call);
            e.set_local(*var);
        },
        Inst::Op(var, op, a, b) => {
            e.get_local(*a);
            e.get_local(*b);
            match op_for(*op, func.ir.var_type[*a]) {
                Some(w) => {
                    e.add_inst(w);
                },
                None => {},
            }
            e.set_local(*var);
        },
        Inst::UOp(var, op, a) => {
            let t: TypeDef = func.ir.var_type[*a];
            match (op, t) {
                (UOp::Neg, TypeDef::I32) => {
                    e.add_const_i32(0);
                    e.get_local(*a);
                    e.add_inst(WasmInst::I32Sub);
                },
                (UOp::Neg, TypeDef::F64) => {
                    e.get_local(*a);
                    e.add_inst(WasmInst::F64Neg);
                },
                _ => {},
            }
            e.set_local(*var);
        },
        Inst::Const(var, val) => {
            match val.get_type() {
                TypeDef::Bool => {
                    let v: bool = val.as_bool();
                    e.add_const_i32(if v { 1 } else { 0 });
                },
                TypeDef::I32 => {
                    e.add_const_i32(val.as_i32());
                },
                TypeDef::F64 => {
                    e.add_const_f64(val.as_f64_bits());
                },
                TypeDef::Unit => {},
            }
            e.set_local(*var);
        },
        _ => {
            proof {
                assert(false);
            }
        },
    }
    proof {
        assert(e.buffer@ =~= old(e).buffer@ + spec_inst_bytes(
            *func,
            func.ir.insts@[p as int],
            old(e).wat,
            old(e).tab as nat,
        ));
    }
}

/// Reading one more argument extends the emitted prefix by one access.
proof fn lemma_get_locals_take_step(args: Seq<usize>, i: int, wat: bool, tab: nat)
    requires
        0 <= i < args.len(),
    ensures
        spec_get_locals(args.take(i + 1), wat, tab) == spec_get_locals(args.take(i), wat, tab)
            + get_local_bytes(wat, tab, args[i]),
    decreases i,
{
    if i == 0 {
        assert(args.take(1).drop_first() =~= Seq::<usize>::empty());
        assert(args.take(1)[0] == args[0]);
        assert(args.take(0) =~= Seq::<usize>::empty());
        assert(spec_get_locals(args.take(1), wat, tab) =~= spec_get_locals(args.take(0), wat, tab)
            + get_local_bytes(wat, tab, args[0]));
    } else {
        lemma_get_locals_take_step(args.drop_first(), i - 1, wat, tab);
        assert(args.take(i + 1).drop_first() =~= args.drop_first().take(i));
        assert(args.take(i).drop_first() =~= args.drop_first().take(i - 1));
        assert(args.take(i + 1)[0] == args[0]);
        assert(args.take(i)[0] == args[0]);
        assert(args.drop_first()[i - 1] == args[i]);
        assert(spec_get_locals(args.take(i + 1), wat, tab) =~= spec_get_locals(
            args.take(i),
            wat,
            tab,
        ) + get_local_bytes(wat, tab, args[i]));
    }
}

/// A structurally equal copy of a frame stack.
fn copy_frames(frames: &Vec<Option<usize>>) -> (r: Vec<Option<usize>>)
    ensures
        r@ == frames@,
{
    let mut r: Vec<Option<usize>> = Vec::new();
    let n: usize = frames.len();
    let mut i: usize = 0;
    while i < n
        invariant
            i <= n,
            n == frames@.len(),
            r@ == frames@.take(i as int),
        decreases n - i,
    {
        r.push(frames[i]);
        proof {
            assert(r@ =~= frames@.take(i + 1));
        }
        i = i + 1;
    }
    proof {
        assert(frames@.take(n as int) =~= frames@);
    }
    r
}

/// No branch crosses a non-enclosing scope: a back edge's label depth
/// always names one of the constructs open around the jump — the loop
/// construct of its own target — so every emitted `br` stays inside the
/// nesting that encloses it.
pub proof fn lemma_br_stays_enclosed(frames: Seq<Option<usize>>, target: usize, l: nat)
    requires
        spec_frame_label(frames, target) == Some(l),
    ensures
        l < frames.len(),
        frames[frames.len() - 1 - l] == Some(target),
    decreases frames.len(),
{
    if frames.len() > 0 && frames.last() != Some(target) {
        lemma_br_stays_enclosed(frames.drop_last(), target, (l - 1) as nat);
    }
}

/// With no open loop around `target` from position `i` on, the label scan
/// is decided by the frames before `i`, offset by the constructs skipped.
proof fn lemma_frame_label_skip(frames: Seq<Option<usize>>, target: usize, i: int)
    requires
        0 <= i <= frames.len(),
        forall|j: int| i <= j < frames.len() ==> frames[j] != Some(target),
    ensures
        spec_frame_label(frames, target) == match spec_frame_label(frames.take(i), target) {
            Some(l) => Some((l + frames.len() - i) as nat),
            None => None::<nat>,
        },
    decreases frames.len() - i,
{
    if i == frames.len() {
        assert(frames.take(i) =~= frames);
    } else {
        lemma_frame_label_skip(frames.drop_last(), target, i);
        assert(frames.drop_last().take(i) =~= frames.take(i));
    }
}

/// Find the innermost open loop construct around `target`, as a `br`
/// label depth.
fn find_frame(frames: &Vec<Option<usize>>, target: usize) -> (r: Option<usize>)
    ensures
        match spec_frame_label(frames@, target) {
            Some(l) => r == Some(l as usize),
            None => r is None,
        },
{
    let n: usize = frames.len();
    let mut i: usize = n;
    while i > 0
        invariant
            i <= n,
            n == frames@.len(),
            forall|j: int| i <= j < n ==> frames@[j] != Some(target),
        decreases i,
    {
        i = i - 1;
        let hit: bool = match frames[i] {
            Some(h) => h == target,
            None => false,
        };
        if hit {
            proof {
                lemma_frame_label_skip(frames@, target, i + 1);
                assert(frames@.take(i + 1).last() == frames@[i as int]);
                assert(spec_frame_label(frames@.take(i + 1), target) == Some(0nat));
            }
            return Some(n - 1 - i);
        }
    }
    proof {
        lemma_frame_label_skip(frames@, target, 0);
        assert(frames@.take(0) =~= Seq::<Option<usize>>::empty());
    }
    None
}

/// Reconstruct structured control flow from `block`: wrap loop headers in
/// a loop construct, opening a frame for it, and walk the straight-line
/// code.
pub fn reloop(
    e: &mut Emitter,
    func: &Func,
    block: usize,
    frames: &Vec<Option<usize>>,
    fuel: usize,
) -> (hint: Option<usize>)
    requires
        blocks_wf(func.ir),
        block < func.ir.blocks@.len(),
    ensures
        ({
            let r = spec_reloop(*func, block, old(e).wat, old(e).tab as nat, frames@, fuel as nat);
            &&& final(e).buffer@ == old(e).buffer@ + r.0
            &&& final(e).tab as nat == r.1
            &&& hint == r.2
            &&& final(e).wat == old(e).wat
        }),
    decreases fuel, 2int, 0int,
{
    if is_loop(func, block) {
        e.start_loop();
        let mut inner: Vec<Option<usize>> = copy_frames(frames);
        inner.push(Some(block));
        proof {
            assert(inner@ =~= frames@.push(Some(block)));
        }
        let hint: Option<usize> = add_block(e, func, block, &inner, fuel);
        e.close_loop();
        proof {
            let r = spec_reloop(*func, block, old(e).wat, old(e).tab as nat, frames@, fuel as nat);
            assert(e.buffer@ =~= old(e).buffer@ + r.0);
        }
        hint
    } else {
        add_block(e, func, block, frames, fuel)
    }
}

/// Emit a conditional branch: the condition read, both arms, the close.
#[verifier::rlimit(100)]
#[verifier::spinoff_prover]
fn emit_branch(
    e: &mut Emitter,
    func: &Func,
    cond: usize,
    then_block: usize,
    else_arm: usize,
    frames: &Vec<Option<usize>>,
    fuel: usize,
) -> (hint: Option<usize>)
    requires
        blocks_wf(func.ir),
        then_block < func.ir.blocks@.len(),
        else_arm < func.ir.blocks@.len(),
        fuel >= 1,
    ensures
        ({
            let r = spec_branch(
                *func,
                cond,
                then_block,
                else_arm,
                old(e).wat,
                old(e).tab as nat,
                frames@,
                fuel as nat,
            );
            &&& final(e).buffer@ == old(e).buffer@ + r.0
            &&& final(e).tab as nat == r.1
            &&& hint == r.2
            &&& final(e).wat == old(e).wat
        }),
    decreases fuel, 0int, 0int,
{
    let ghost wat0 = e.wat;
    let ghost tab0 = e.tab as nat;
    e.get_local(cond);
    e.if_block();
    let ghost g1 = e.buffer@;
    proof {
        assert(g1 =~= old(e).buffer@ + (get_local_bytes(wat0, tab0, cond) + if_block_bytes(
            wat0,
            tab0,
        )));
    }
    let mut inner: Vec<Option<usize>> = copy_frames(frames);
    inner.push(None);
    proof {
        assert(inner@ =~= frames@.push(None));
    }
    let _a: Option<usize> = reloop(e, func, then_block, &inner, fuel - 1);
    e.else_block();
    let ghost a = spec_reloop(*func, then_block, wat0, tab_after_open(wat0, tab0), inner@, (
    fuel - 1) as nat);
    let ghost g2 = e.buffer@;
    proof {
        assert(g2 =~= g1 + (a.0 + else_block_bytes(wat0, a.1)));
    }
    let _b: Option<usize> = reloop(e, func, else_arm, &inner, fuel - 1);
    e.end_block();
    let ghost b = spec_reloop(*func, else_arm, wat0, tab_after_else(wat0, a.1), inner@, (
    fuel - 1) as nat);
    proof {
        let head = get_local_bytes(wat0, tab0, cond) + if_block_bytes(wat0, tab0);
        let eb = else_block_bytes(wat0, a.1);
        let en = end_block_bytes(wat0, b.1);
        assert(e.buffer@ == ((((old(e).buffer@ + head) + a.0) + eb) + b.0) + en);
        vstd::seq_lib::lemma_concat_associative(old(e).buffer@ + head, a.0, eb);
        vstd::seq_lib::lemma_concat_associative(old(e).buffer@, head, a.0 + eb);
        vstd::seq_lib::lemma_concat_associative(old(e).buffer@, head + (a.0 + eb), b.0);
        vstd::seq_lib::lemma_concat_associative(old(e).buffer@, (head + (a.0 + eb)) + b.0, en);
        let r = spec_branch(
            *func,
            cond,
            then_block,
            else_arm,
            wat0,
            tab0,
            frames@,
            fuel as nat,
        );
        assert(r.0 == head + a.0 + eb + b.0 + en);
        assert(e.buffer@ =~= old(e).buffer@ + r.0);
    }
    None
}

/// Emit a jump: pass the block parameters, then break back to an
/// enclosing open loop on a back edge or continue into the target.
fn emit_jump(
    e: &mut Emitter,
    func: &Func,
    target: usize,
    args: &Vec<usize>,
    frames: &Vec<Option<usize>>,
    fuel: usize,
) -> (hint: Option<usize>)
    requires
        blocks_wf(func.ir),
        target < func.ir.block_params@.len(),
        args@.len() == func.ir.block_params@[target as int].1,
        forall|j: int| 0 <= j < args@.len() ==> args@[j] < func.ir.num_vars,
        func.ir.block_params@[target as int].0 + func.ir.block_params@[target as int].1
            <= func.ir.num_vars,
        fuel >= 1,
    ensures
        ({
            let r = spec_jump(
                *func,
                target,
                args@,
                old(e).wat,
                old(e).tab as nat,
                frames@,
                fuel as nat,
            );
            &&& final(e).buffer@ == old(e).buffer@ + r.0
            &&& final(e).tab as nat == r.1
            &&& hint == r.2
            &&& final(e).wat == old(e).wat
        }),
    decreases fuel, 0int, 0int,
{
    let ghost wat0 = e.wat;
    let ghost tab0 = e.tab as nat;
    let first: usize = func.ir.block_params[target].0;
    let nargs: usize = args.len();
    proof {
        assert(args@.skip(0) =~= args@);
    }
    let mut i: usize = 0;
    while i < nargs
        invariant
            i <= nargs,
            nargs == args@.len(),
            forall|j: int| 0 <= j < nargs ==> args@[j] < func.ir.num_vars,
            first + nargs <= func.ir.num_vars,
            e.wat == wat0,
            wat0 == old(e).wat,
            e.tab as nat == tab0,
            tab0 == old(e).tab as nat,
            old(e).buffer@ + spec_pass_params(args@, first as int, wat0, tab0) == e.buffer@
                + spec_pass_params(args@.skip(i as int), first + i, wat0, tab0),
        decreases nargs - i,
    {
        proof {
            assert(args@.skip(i as int)[0] == args@[i as int]);
            assert(args@.skip(i as int).drop_first() =~= args@.skip(i as int + 1));
        }
        e.get_local(args[i]);
        e.set_local(first + i);
        proof {
            assert(old(e).buffer@ + spec_pass_params(args@, first as int, wat0, tab0) =~= e.buffer@
                + spec_pass_params(args@.skip(i as int + 1), first + i + 1, wat0, tab0));
        }
        i = i + 1;
    }
    proof {
        assert(args@.skip(nargs as int) =~= Seq::<usize>::empty());
        assert(e.buffer@ =~= old(e).buffer@ + spec_pass_params(args@, first as int, wat0, tab0));
    }
    match find_frame(frames, target) {
        Some(label) => {
            e.add_break(label);
            proof {
                let r = spec_jump(*func, target, args@, wat0, tab0, frames@, fuel as nat);
                assert(e.buffer@ =~= old(e).buffer@ + r.0);
            }
            None
        },
        None => {
            let hint: Option<usize> = reloop(e, func, target, frames, fuel - 1);
            proof {
                let r = spec_jump(*func, target, args@, wat0, tab0, frames@, fuel as nat);
                assert(e.buffer@ =~= old(e).buffer@ + r.0);
            }
            hint
        },
    }
}

/// Walk the instructions of `block` from its label, emitting stack code,
/// until a terminator decides how to go on.
#[verifier::rlimit(50)]
pub fn add_block(
    e: &mut Emitter,
    func: &Func,
    block: usize,
    frames: &Vec<Option<usize>>,
    fuel: usize,
) -> (hint: Option<usize>)
    requires
        blocks_wf(func.ir),
        block < func.ir.blocks@.len(),
    ensures
        ({
            let r = spec_add_block(
                *func,
                block,
                func.ir.blocks@[block as int] as int,
                old(e).wat,
                old(e).tab as nat,
                frames@,
                fuel as nat,
            );
            &&& final(e).buffer@ == old(e).buffer@ + r.0
            &&& final(e).tab as nat == r.1
            &&& hint == r.2
            &&& final(e).wat == old(e).wat
        }),
    decreases fuel, 1int, 0int,
{
    let ghost wat0 = e.wat;
    let ghost tab0 = e.tab as nat;
    let ghost n0 = e.buffer@.len() as int;
    let ghost target3 = spec_add_block(
        *func,
        block,
        func.ir.blocks@[block as int] as int,
        wat0,
        tab0,
        frames@,
        fuel as nat,
    );
    let n: usize = func.ir.insts.len();
    let mut p: usize = func.ir.blocks[block];
    proof {
        assert(e.buffer@.skip(n0) =~= Seq::<u8>::empty());
        assert(e.buffer@.skip(n0) + target3.0 =~= target3.0);
    }
    while p < n
        invariant
            p <= n,
            n == func.ir.insts@.len(),
            blocks_wf(func.ir),
            block < func.ir.blocks@.len(),
            e.wat == wat0,
            wat0 == old(e).wat,
            tab0 == old(e).tab as nat,
            e.buffer@.len() >= n0 >= 0,
            n0 == old(e).buffer@.len(),
            e.buffer@.take(n0) == old(e).buffer@,
            target3 == spec_add_block(
                *func,
                block,
                func.ir.blocks@[block as int] as int,
                wat0,
                tab0,
                frames@,
                fuel as nat,
            ),
            ({
                let rest = spec_add_block(
                    *func,
                    block,
                    p as int,
                    wat0,
                    e.tab as nat,
                    frames@,
                    fuel as nat,
                );
                &&& target3.0 == e.buffer@.skip(n0) + rest.0
                &&& target3.1 == rest.1
                &&& target3.2 == rest.2
            }),
        decreases n - p,
    {
        if fuel == 0 {
            proof {
                assert(target3.0 =~= e.buffer@.skip(n0));
                assert(e.buffer@ =~= old(e).buffer@ + e.buffer@.skip(n0));
            }
            return None;
        }
        proof {
            assert(crate::wf::inst_targets_ok(func.ir.insts@[p as int], func.ir));
            assert(crate::wf::inst_vars_ok(func.ir.insts@[p as int], func.ir.num_vars as int));
        }
        match &func.ir.insts[p] {
            Inst::Return(var) => {
                e.get_local(*var);
                e.add_return();
                proof {
                    assert(target3.0 =~= e.buffer@.skip(n0));
                    assert(e.buffer@ =~= old(e).buffer@ + e.buffer@.skip(n0));
                }
                return None;
            },
            Inst::Branch(cond, paths) => {
                let hint: Option<usize> = emit_branch(e, func, *cond, paths.0, paths.1, frames, fuel);
                proof {
                    assert(target3.0 =~= e.buffer@.skip(n0));
                    assert(e.buffer@ =~= old(e).buffer@ + e.buffer@.skip(n0));
                }
                return hint;
            },
            Inst::JumpTo(jt, args) => {
                let hint: Option<usize> = emit_jump(e, func, *jt, args, frames, fuel);
                proof {
                    assert(target3.0 =~= e.buffer@.skip(n0));
                    assert(e.buffer@ =~= old(e).buffer@ + e.buffer@.skip(n0));
                }
                return hint;
            },
            _ => {
                proof {
                    assert(!crate::ir::is_terminator(func.ir.insts@[p as int]));
                }
                emit_inst(e, func, p);
                proof {
                    assert(e.buffer@.take(n0) =~= old(e).buffer@);
                    let rest = spec_add_block(
                        *func,
                        block,
                        p + 1,
                        wat0,
                        e.tab as nat,
                        frames@,
                        fuel as nat,
                    );
                    assert(target3.0 =~= e.buffer@.skip(n0) + rest.0);
                }
                p = p + 1;
            },
        }
    }
    proof {
        assert(target3.0 =~= e.buffer@.skip(n0));
        assert(e.buffer@ =~= old(e).buffer@ + e.buffer@.skip(n0));
    }
    None
}

} // verus!
