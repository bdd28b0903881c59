//! Whole-module emission: the WebAssembly text rendering and the binary
//! module with its type, function, export and code sections.
//!
//! Both outputs are pinned byte for byte to specification functions over
//! the module's functions, so emission is deterministic: two modules with
//! equal function tables emit identical bytes, and emitting twice from one
//! module cannot differ.

use vstd::prelude::*;
use vstd::utf8::encode_utf8;
use crate::emit::{
    Emitter, WasmInst, inst_op_bytes, spec_reloop, reloop,
};
use crate::ir::Func;
use crate::leb128::{spec_uleb128, write_uleb};
use crate::module::Module;
use crate::text::dec_bytes;
use crate::value::TypeDef;
use crate::wf::{blocks_wf, func_wf};

verus! {

/// The binary value type of a scalar type; booleans ride in `i32`, and the
/// unit type, which has no representation, is mapped like `i32` so that
/// the rendering is total.
pub open spec fn spec_valtype_byte(t: TypeDef) -> u8 {
    // `Unit` never reaches emission: a built module refuses it, so only
    // the three representable types are ever rendered.
    match t {
        TypeDef::F64 => 124,
        _ => 127,
    }
}

/// The text value type of a scalar type.
pub open spec fn spec_valtype_text(t: TypeDef) -> Seq<u8> {
    match t {
        TypeDef::F64 => seq![102u8, 54u8, 52u8],
        _ => seq![105u8, 51u8, 50u8],
    }
}

/// The executable binary value type.
pub fn valtype_byte(t: TypeDef) -> (r: u8)
    ensures
        r == spec_valtype_byte(t),
{
    match t {
        TypeDef::F64 => 124,
        _ => 127,
    }
}

/// The emission budget of one function: enough for one reconstruction
/// round per block and the wrap.
pub open spec fn emit_fuel(f: Func) -> nat {
    if f.ir.blocks@.len() < usize::MAX - 2 {
        (f.ir.blocks@.len() + 2) as nat
    } else {
        0
    }
}

/// One function's body code: the reconstructed control flow and a final
/// `unreachable` that closes every path the validator cannot see ending.
pub open spec fn spec_func_body(f: Func, wat: bool, tab: nat) -> Seq<u8> {
    let r = spec_reloop(f, 0, wat, tab, Seq::<Option<usize>>::empty(), emit_fuel(f));
    r.0 + inst_op_bytes(wat, r.1, WasmInst::Unreachable)
}

/// Emit one function's body code.
pub fn build_body(e: &mut Emitter, func: &Func)
    requires
        blocks_wf(func.ir),
    ensures
        final(e).buffer@ == old(e).buffer@ + spec_func_body(
            *func,
            old(e).wat,
            old(e).tab as nat,
        ),
        final(e).wat == old(e).wat,
{
    let nb: usize = func.ir.blocks.len();
    let fuel: usize = if nb >= usize::MAX - 2 {
        0
    } else {
        nb + 2
    };
    let frames: Vec<Option<usize>> = Vec::new();
    proof {
        assert(frames@ =~= Seq::<Option<usize>>::empty());
    }
    let _hint: Option<usize> = reloop(e, func, 0, &frames, fuel);
    e.add_inst(WasmInst::Unreachable);
    proof {
        assert(e.buffer@ =~= old(e).buffer@ + spec_func_body(
            *func,
            old(e).wat,
            old(e).tab as nat,
        ));
    }
}

/// One text line per variable in `lo..hi`: the given opening, the
/// variable's number, a space, its value type, and the close.
pub open spec fn spec_wat_var_lines(
    types: Seq<TypeDef>,
    lo: int,
    hi: int,
    opening: Seq<u8>,
) -> Seq<u8>
    decreases (if lo < hi {
        hi - lo
    } else {
        0
    }),
{
    if lo < 0 || lo >= hi || hi > types.len() {
        Seq::empty()
    } else {
        opening + dec_bytes(lo as nat) + seq![32u8] + spec_valtype_text(types[lo]) + seq![
            41u8,
            10u8,
        ] + spec_wat_var_lines(types, lo + 1, hi, opening)
    }
}

/// The text `\t(param $`.
pub open spec fn txt_param_open() -> Seq<u8> {
    seq![9u8, 40u8, 112u8, 97u8, 114u8, 97u8, 109u8, 32u8, 36u8]
}

/// The text `\t(local $`.
pub open spec fn txt_local_open() -> Seq<u8> {
    seq![9u8, 40u8, 108u8, 111u8, 99u8, 97u8, 108u8, 32u8, 36u8]
}

/// The text rendering of one function: header, export name, parameters,
/// result type, locals, body, close.
pub open spec fn spec_wat_func(f: Func, i: int) -> Seq<u8> {
    seq![40u8, 102u8, 117u8, 110u8, 99u8, 32u8, 36u8] + dec_bytes(i as nat) + seq![10u8] + seq![
        9u8,
        40u8,
        101u8,
        120u8,
        112u8,
        111u8,
        114u8,
        116u8,
        32u8,
        34u8,
    ] + encode_utf8(f.name@) + seq![34u8, 41u8, 10u8] + spec_wat_var_lines(
        f.ir.var_type@,
        0,
        f.num_params as int,
        txt_param_open(),
    ) + seq![9u8, 40u8, 114u8, 101u8, 115u8, 117u8, 108u8, 116u8, 32u8] + spec_valtype_text(
        f.return_type,
    ) + seq![41u8, 10u8] + spec_wat_var_lines(
        f.ir.var_type@,
        f.num_params as int,
        f.ir.var_type@.len() as int,
        txt_local_open(),
    ) + spec_func_body(f, true, 2) + seq![41u8, 10u8]
}

/// The text renderings of the functions from index `i` on.
pub open spec fn spec_wat_funcs(funcs: Seq<Func>, i: int) -> Seq<u8>
    decreases (if i < funcs.len() {
        funcs.len() - i
    } else {
        0
    }),
{
    if i < 0 || i >= funcs.len() {
        Seq::empty()
    } else {
        spec_wat_func(funcs[i], i) + spec_wat_funcs(funcs, i + 1)
    }
}

/// The text rendering of a whole module.
pub open spec fn spec_to_wat(funcs: Seq<Func>) -> Seq<u8> {
    seq![40u8, 109u8, 111u8, 100u8, 117u8, 108u8, 101u8, 10u8] + spec_wat_funcs(funcs, 0) + seq![
        41u8,
        10u8,
    ]
}

/// Append the variable lines of `lo..hi` with the given opening.
#[verifier::rlimit(100)]
#[verifier::spinoff_prover]
fn push_var_lines(out: &mut Vec<u8>, types: &Vec<TypeDef>, lo: usize, hi: usize, param: bool)
    requires
        hi <= types@.len(),
    ensures
        final(out)@ == old(out)@ + spec_wat_var_lines(
            types@,
            lo as int,
            hi as int,
            if param {
                txt_param_open()
            } else {
                txt_local_open()
            },
        ),
{
    let ghost opening = if param {
        txt_param_open()
    } else {
        txt_local_open()
    };
    let mut v: usize = lo;
    while v < hi
        invariant
            lo <= v <= hi || (v == lo && lo >= hi),
            hi <= types@.len(),
            opening == if param {
                txt_param_open()
            } else {
                txt_local_open()
            },
            old(out)@ + spec_wat_var_lines(types@, lo as int, hi as int, opening) == out@
                + spec_wat_var_lines(types@, v as int, hi as int, opening),
        decreases hi - v,
    {
        if param {
            out.push(9);
            out.push(40);
            out.push(112);
            out.push(97);
            out.push(114);
            out.push(97);
            out.push(109);
            out.push(32);
            out.push(36);
        } else {
            out.push(9);
            out.push(40);
            out.push(108);
            out.push(111);
            out.push(99);
            out.push(97);
            out.push(108);
            out.push(32);
            out.push(36);
        }
        crate::text::push_dec(out, v as u64);
        out.push(32);
        match types[v] {
            TypeDef::F64 => {
                out.push(102);
                out.push(54);
                out.push(52);
            },
            _ => {
                out.push(105);
                out.push(51);
                out.push(50);
            },
        }
        out.push(41);
        out.push(10);
        proof {
            assert(old(out)@ + spec_wat_var_lines(types@, lo as int, hi as int, opening) =~= out@
                + spec_wat_var_lines(types@, v + 1, hi as int, opening));
        }
        v = v + 1;
    }
}

/// Append `(func $N` and the line break.
fn push_func_head(out: &mut Vec<u8>, i: usize)
    ensures
        final(out)@ == old(out)@ + (seq![40u8, 102u8, 117u8, 110u8, 99u8, 32u8, 36u8] + dec_bytes(
            i as nat,
        ) + seq![10u8]),
{
    out.push(40);
    out.push(102);
    out.push(117);
    out.push(110);
    out.push(99);
    out.push(32);
    out.push(36);
    crate::text::push_dec(out, i as u64);
    out.push(10);
    proof {
        assert(out@ =~= old(out)@ + (seq![40u8, 102u8, 117u8, 110u8, 99u8, 32u8, 36u8]
            + dec_bytes(i as nat) + seq![10u8]));
    }
}

/// Append the export line with the function's name.
fn push_export_line(out: &mut Vec<u8>, name: &String)
    ensures
        final(out)@ == old(out)@ + (seq![
            9u8,
            40u8,
            101u8,
            120u8,
            112u8,
            111u8,
            114u8,
            116u8,
            32u8,
            34u8,
        ] + encode_utf8(name@) + seq![34u8, 41u8, 10u8]),
{
    out.push(9);
    out.push(40);
    out.push(101);
    out.push(120);
    out.push(112);
    out.push(111);
    out.push(114);
    out.push(116);
    out.push(32);
    out.push(34);
    let name_bytes: &[u8] = name.as_str().as_bytes();
    out.extend_from_slice(name_bytes);
    out.push(34);
    out.push(41);
    out.push(10);
    proof {
        assert(out@ =~= old(out)@ + (seq![
            9u8,
            40u8,
            101u8,
            120u8,
            112u8,
            111u8,
            114u8,
            116u8,
            32u8,
            34u8,
        ] + encode_utf8(name@) + seq![34u8, 41u8, 10u8]));
    }
}

/// Append the result type line.
fn push_result_line(out: &mut Vec<u8>, t: TypeDef)
    ensures
        final(out)@ == old(out)@ + (seq![9u8, 40u8, 114u8, 101u8, 115u8, 117u8, 108u8, 116u8, 32u8]
            + spec_valtype_text(t) + seq![41u8, 10u8]),
{
    out.push(9);
    out.push(40);
    out.push(114);
    out.push(101);
    out.push(115);
    out.push(117);
    out.push(108);
    out.push(116);
    out.push(32);
    match t {
        TypeDef::F64 => {
            out.push(102);
            out.push(54);
            out.push(52);
        },
        _ => {
            out.push(105);
            out.push(51);
            out.push(50);
        },
    }
    out.push(41);
    out.push(10);
    proof {
        assert(out@ =~= old(out)@ + (seq![
            9u8,
            40u8,
            114u8,
            101u8,
            115u8,
            117u8,
            108u8,
            116u8,
            32u8,
        ] + spec_valtype_text(t) + seq![41u8, 10u8]));
    }
}

/// Append the text rendering of one function.
#[verifier::rlimit(100)]
#[verifier::spinoff_prover]
fn push_wat_func(out: &mut Vec<u8>, func: &Func, i: usize)
    requires
        func_wf(*func),
    ensures
        final(out)@ == old(out)@ + spec_wat_func(*func, i as int),
{
    let ghost g0 = out@;
    push_func_head(out, i);
    push_export_line(out, &func.name);
    push_var_lines(out, &func.ir.var_type, 0, func.num_params, true);
    push_result_line(out, func.return_type);
    let nv: usize = func.ir.var_type.len();
    push_var_lines(out, &func.ir.var_type, func.num_params, nv, false);
    let mut body: Emitter = Emitter::new_wat();
    build_body(&mut body, func);
    let mut body_buf: Vec<u8> = body.buffer;
    out.append(&mut body_buf);
    out.push(41);
    out.push(10);
    proof {
        assert(out@ =~= g0 + spec_wat_func(*func, i as int));
    }
}

impl Module {
    /// Render the module in the WebAssembly text format.  The bytes are a
    /// pure function of the function table.
    pub fn to_wat(&self) -> (r: Vec<u8>)
        requires
            self.wf(),
        ensures
            r@ == spec_to_wat(self.funcs@),
    {
        let mut out: Vec<u8> = Vec::new();
        out.push(40);
        out.push(109);
        out.push(111);
        out.push(100);
        out.push(117);
        out.push(108);
        out.push(101);
        out.push(10);
        let n: usize = self.funcs.len();
        let mut i: usize = 0;
        proof {
            assert(out@ =~= seq![40u8, 109u8, 111u8, 100u8, 117u8, 108u8, 101u8, 10u8]);
        }
        while i < n
            invariant
                i <= n,
                n == self.funcs@.len(),
                self.wf(),
                seq![40u8, 109u8, 111u8, 100u8, 117u8, 108u8, 101u8, 10u8] + spec_wat_funcs(
                    self.funcs@,
                    0,
                ) == out@ + spec_wat_funcs(self.funcs@, i as int),
            decreases n - i,
        {
            proof {
                assert(func_wf(self.funcs@[i as int]));
            }
            push_wat_func(&mut out, &self.funcs[i], i);
            proof {
                assert(seq![40u8, 109u8, 111u8, 100u8, 117u8, 108u8, 101u8, 10u8] + spec_wat_funcs(
                    self.funcs@,
                    0,
                ) =~= out@ + spec_wat_funcs(self.funcs@, i + 1));
            }
            i = i + 1;
        }
        out.push(41);
        out.push(10);
        proof {
            assert(out@ =~= spec_to_wat(self.funcs@));
        }
        out
    }
}

/// The binary value types of the variables in `lo..hi`.
pub open spec fn spec_valtypes(types: Seq<TypeDef>, lo: int, hi: int) -> Seq<u8>
    decreases (if lo < hi {
        hi - lo
    } else {
        0
    }),
{
    if lo < 0 || lo >= hi || hi > types.len() {
        Seq::empty()
    } else {
        seq![spec_valtype_byte(types[lo])] + spec_valtypes(types, lo + 1, hi)
    }
}

/// The binary value types of the variables in `lo..hi`, each preceded by a
/// run length of one, as the code section lists locals.
pub open spec fn spec_local_runs(types: Seq<TypeDef>, lo: int, hi: int) -> Seq<u8>
    decreases (if lo < hi {
        hi - lo
    } else {
        0
    }),
{
    if lo < 0 || lo >= hi || hi > types.len() {
        Seq::empty()
    } else {
        spec_uleb128(1) + seq![spec_valtype_byte(types[lo])] + spec_local_runs(types, lo + 1, hi)
    }
}

/// One function's entry in the type section: the function type tag, the
/// parameter count and types, and the one result type.
pub open spec fn spec_type_entry(f: Func) -> Seq<u8> {
    seq![96u8] + spec_uleb128(f.num_params as nat) + spec_valtypes(
        f.ir.var_type@,
        0,
        f.num_params as int,
    ) + spec_uleb128(1) + seq![spec_valtype_byte(f.return_type)]
}

/// The type section entries from index `i` on.
pub open spec fn spec_type_entries(funcs: Seq<Func>, i: int) -> Seq<u8>
    decreases (if i < funcs.len() {
        funcs.len() - i
    } else {
        0
    }),
{
    if i < 0 || i >= funcs.len() {
        Seq::empty()
    } else {
        spec_type_entry(funcs[i]) + spec_type_entries(funcs, i + 1)
    }
}

/// The function section entries: each function refers to its own type.
pub open spec fn spec_func_indices(n: int, i: int) -> Seq<u8>
    decreases (if i < n {
        n - i
    } else {
        0
    }),
{
    if i < 0 || i >= n {
        Seq::empty()
    } else {
        spec_uleb128(i as nat) + spec_func_indices(n, i + 1)
    }
}

/// One function's export entry: name length, name, the function tag, and
/// the function index.
pub open spec fn spec_export_entry(f: Func, i: int) -> Seq<u8> {
    spec_uleb128(encode_utf8(f.name@).len()) + encode_utf8(f.name@) + seq![0u8] + spec_uleb128(
        i as nat,
    )
}

/// The export section entries from index `i` on.
pub open spec fn spec_export_entries(funcs: Seq<Func>, i: int) -> Seq<u8>
    decreases (if i < funcs.len() {
        funcs.len() - i
    } else {
        0
    }),
{
    if i < 0 || i >= funcs.len() {
        Seq::empty()
    } else {
        spec_export_entry(funcs[i], i) + spec_export_entries(funcs, i + 1)
    }
}

/// One function's code entry before its length prefix: the locals list,
/// the body, and the terminating `end`.
pub open spec fn spec_code_inner(f: Func) -> Seq<u8> {
    spec_uleb128(f.ir.num_vars as nat) + spec_local_runs(
        f.ir.var_type@,
        0,
        f.ir.var_type@.len() as int,
    ) + spec_func_body(f, false, 0) + seq![11u8]
}

/// The code section entries from index `i` on, each length-prefixed.
pub open spec fn spec_code_entries(funcs: Seq<Func>, i: int) -> Seq<u8>
    decreases (if i < funcs.len() {
        funcs.len() - i
    } else {
        0
    }),
{
    if i < 0 || i >= funcs.len() {
        Seq::empty()
    } else {
        spec_uleb128(spec_code_inner(funcs[i]).len()) + spec_code_inner(funcs[i])
            + spec_code_entries(funcs, i + 1)
    }
}

/// A section: its id and its length-prefixed content.
pub open spec fn spec_section(id: u8, content: Seq<u8>) -> Seq<u8> {
    seq![id] + spec_uleb128(content.len()) + content
}

/// The binary module: magic, version, and the type, function, export and
/// code sections.
pub open spec fn spec_to_wasm(funcs: Seq<Func>) -> Seq<u8> {
    seq![0u8, 97u8, 115u8, 109u8, 1u8, 0u8, 0u8, 0u8] + spec_section(
        1,
        spec_uleb128(funcs.len()) + spec_type_entries(funcs, 0),
    ) + spec_section(3, spec_uleb128(funcs.len()) + spec_func_indices(funcs.len() as int, 0))
        + spec_section(7, spec_uleb128(funcs.len()) + spec_export_entries(funcs, 0))
        + spec_section(10, spec_uleb128(funcs.len()) + spec_code_entries(funcs, 0))
}

/// Append a section: its id byte, the content's length, the content.
fn append_section(out: &mut Vec<u8>, id: u8, content: Vec<u8>)
    ensures
        final(out)@ == old(out)@ + spec_section(id, content@),
{
    let ghost c0 = content@;
    out.push(id);
    write_uleb(out, content.len() as u64);
    let mut moved: Vec<u8> = content;
    out.append(&mut moved);
    proof {
        assert(out@ =~= old(out)@ + spec_section(id, c0));
    }
}

/// Append the binary value types of the variables in `lo..hi`, each with a
/// run length of one when `runs` is set.
fn push_valtypes(out: &mut Vec<u8>, types: &Vec<TypeDef>, lo: usize, hi: usize, runs: bool)
    requires
        hi <= types@.len(),
    ensures
        runs ==> final(out)@ == old(out)@ + spec_local_runs(types@, lo as int, hi as int),
        !runs ==> final(out)@ == old(out)@ + spec_valtypes(types@, lo as int, hi as int),
{
    let mut v: usize = lo;
    while v < hi
        invariant
            lo <= v <= hi || (v == lo && lo >= hi),
            hi <= types@.len(),
            runs ==> old(out)@ + spec_local_runs(types@, lo as int, hi as int) == out@
                + spec_local_runs(types@, v as int, hi as int),
            !runs ==> old(out)@ + spec_valtypes(types@, lo as int, hi as int) == out@
                + spec_valtypes(types@, v as int, hi as int),
        decreases hi - v,
    {
        if runs {
            write_uleb(out, 1);
        }
        out.push(valtype_byte(types[v]));
        proof {
            if runs {
                assert(old(out)@ + spec_local_runs(types@, lo as int, hi as int) =~= out@
                    + spec_local_runs(types@, v + 1, hi as int));
            } else {
                assert(old(out)@ + spec_valtypes(types@, lo as int, hi as int) =~= out@
                    + spec_valtypes(types@, v + 1, hi as int));
            }
        }
        v = v + 1;
    }
}

impl Module {
    /// Render the module as a binary WebAssembly module.  The bytes are a
    /// pure function of the function table.
    pub fn to_wasm(&self) -> (r: Vec<u8>)
        requires
            self.wf(),
        ensures
            r@ == spec_to_wasm(self.funcs@),
    {
        let n: usize = self.funcs.len();
        let mut out: Vec<u8> = Vec::new();
        out.push(0);
        out.push(97);
        out.push(115);
        out.push(109);
        out.push(1);
        out.push(0);
        out.push(0);
        out.push(0);
        proof {
            assert(out@ =~= seq![0u8, 97u8, 115u8, 109u8, 1u8, 0u8, 0u8, 0u8]);
        }
        // Type section.
        let mut types_content: Vec<u8> = Vec::new();
        write_uleb(&mut types_content, n as u64);
        let ghost types_head = types_content@;
        let mut i: usize = 0;
        while i < n
            invariant
                i <= n,
                n == self.funcs@.len(),
                self.wf(),
                types_head + spec_type_entries(self.funcs@, 0) == types_content@
                    + spec_type_entries(self.funcs@, i as int),
            decreases n - i,
        {
            proof {
                assert(func_wf(self.funcs@[i as int]));
            }
            let func: &Func = &self.funcs[i];
            types_content.push(96);
            write_uleb(&mut types_content, func.num_params as u64);
            push_valtypes(&mut types_content, &func.ir.var_type, 0, func.num_params, false);
            write_uleb(&mut types_content, 1);
            types_content.push(valtype_byte(func.return_type));
            proof {
                assert(types_head + spec_type_entries(self.funcs@, 0) =~= types_content@
                    + spec_type_entries(self.funcs@, i + 1));
            }
            i = i + 1;
        }
        append_section(&mut out, 1, types_content);
        // Function section.
        let mut fn_content: Vec<u8> = Vec::new();
        write_uleb(&mut fn_content, n as u64);
        let ghost fn_head = fn_content@;
        let mut k: usize = 0;
        while k < n
            invariant
                k <= n,
                fn_head + spec_func_indices(n as int, 0) == fn_content@ + spec_func_indices(
                    n as int,
                    k as int,
                ),
            decreases n - k,
        {
            write_uleb(&mut fn_content, k as u64);
            proof {
                assert(fn_head + spec_func_indices(n as int, 0) =~= fn_content@
                    + spec_func_indices(n as int, k + 1));
            }
            k = k + 1;
        }
        append_section(&mut out, 3, fn_content);
        // Export section.
        let mut ex_content: Vec<u8> = Vec::new();
        write_uleb(&mut ex_content, n as u64);
        let ghost ex_head = ex_content@;
        let mut x: usize = 0;
        while x < n
            invariant
                x <= n,
                n == self.funcs@.len(),
                self.wf(),
                ex_head + spec_export_entries(self.funcs@, 0) == ex_content@
                    + spec_export_entries(self.funcs@, x as int),
            decreases n - x,
        {
            let func: &Func = &self.funcs[x];
            let name_bytes: &[u8] = func.name.as_str().as_bytes();
            write_uleb(&mut ex_content, name_bytes.len() as u64);
            ex_content.extend_from_slice(name_bytes);
            ex_content.push(0);
            write_uleb(&mut ex_content, x as u64);
            proof {
                assert(ex_head + spec_export_entries(self.funcs@, 0) =~= ex_content@
                    + spec_export_entries(self.funcs@, x + 1));
            }
            x = x + 1;
        }
        append_section(&mut out, 7, ex_content);
        // Code section.
        let mut code_content: Vec<u8> = Vec::new();
        write_uleb(&mut code_content, n as u64);
        let ghost code_head = code_content@;
        let mut c: usize = 0;
        while c < n
            invariant
                c <= n,
                n == self.funcs@.len(),
                self.wf(),
                code_head + spec_code_entries(self.funcs@, 0) == code_content@
                    + spec_code_entries(self.funcs@, c as int),
            decreases n - c,
        {
            proof {
                assert(func_wf(self.funcs@[c as int]));
            }
            let func: &Func = &self.funcs[c];
            let mut inner: Vec<u8> = Vec::new();
            write_uleb(&mut inner, func.ir.num_vars as u64);
            let nv: usize = func.ir.var_type.len();
            push_valtypes(&mut inner, &func.ir.var_type, 0, nv, true);
            let mut body: Emitter = Emitter::new_wasm();
            build_body(&mut body, func);
            let mut body_buf: Vec<u8> = body.buffer;
            inner.append(&mut body_buf);
            inner.push(11);
            proof {
                assert(inner@ =~= spec_code_inner(self.funcs@[c as int]));
            }
            write_uleb(&mut code_content, inner.len() as u64);
            let mut inner2: Vec<u8> = inner;
            code_content.append(&mut inner2);
            proof {
                assert(code_head + spec_code_entries(self.funcs@, 0) =~= code_content@
                    + spec_code_entries(self.funcs@, c + 1));
            }
            c = c + 1;
        }
        append_section(&mut out, 10, code_content);
        proof {
            assert(out@ =~= spec_to_wasm(self.funcs@));
        }
        out
    }
}

} // verus!
