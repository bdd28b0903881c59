//! Module-level laws of emission.
//!
//! Both emitters return, by their postconditions, exactly the bytes of a
//! specification function of the module's function table.  The lemmas here
//! state what follows and callers rely on: emission has no hidden state —
//! equal modules emit equal bytes, and one module emits the same bytes
//! however often it is asked.

use vstd::prelude::*;
use crate::dump::spec_dump;
use crate::ir::Func;
use crate::module::Module;
use crate::wasm::{spec_to_wasm, spec_to_wat};

verus! {

/// Emission is deterministic: two modules with equal function tables
/// render to identical bytes, in the binary and in the text form alike.
pub proof fn lemma_emission_deterministic(funcs1: Seq<Func>, funcs2: Seq<Func>)
    requires
        funcs1 == funcs2,
    ensures
        spec_to_wasm(funcs1) == spec_to_wasm(funcs2),
        spec_to_wat(funcs1) == spec_to_wat(funcs2),
{
}

/// Emitting one module twice yields identical byte strings.  The two
/// premises are exactly the postcondition of `Module::to_wasm`, once per
/// call.
pub proof fn lemma_to_wasm_idempotent(m: Module, first: Seq<u8>, second: Seq<u8>)
    requires
        first == spec_to_wasm(m.funcs@),
        second == spec_to_wasm(m.funcs@),
    ensures
        first == second,
{
}

/// The same, for the text form.
pub proof fn lemma_to_wat_idempotent(m: Module, first: Seq<u8>, second: Seq<u8>)
    requires
        first == spec_to_wat(m.funcs@),
        second == spec_to_wat(m.funcs@),
    ensures
        first == second,
{
}

/// The textual dump is one-way stable: it is a pure function of the
/// representation, so one representation always dumps to the same text.
pub proof fn lemma_dump_stable(funcs1: Seq<Func>, funcs2: Seq<Func>)
    requires
        funcs1 == funcs2,
    ensures
        spec_dump(funcs1, 0) == spec_dump(funcs2, 0),
{
}

} // verus!
