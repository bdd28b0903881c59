//! Control flow analysis over a function's blocks: exit instructions,
//! successor edges, loop detection and reachability.
//!
//! Everything here is a pure function of the function body, stated as such
//! in the contracts; the emitter's output is deterministic because these
//! answers are.

use vstd::prelude::*;
use crate::ir::{Func, Inst, is_terminator};

verus! {

/// The first terminator at or after `i`, if any.
pub open spec fn exit_of(insts: Seq<Inst>, i: int) -> Option<Inst>
    decreases insts.len() - i,
    when 0 <= i <= insts.len()
{
    if i >= insts.len() {
        None
    } else if is_terminator(insts[i]) {
        Some(insts[i])
    } else {
        exit_of(insts, i + 1)
    }
}

/// The successor blocks a terminator hands control to.
pub open spec fn children_of_exit(exit: Option<Inst>) -> Seq<usize> {
    match exit {
        Some(Inst::Branch(_c, paths)) => seq![paths.0, paths.1],
        Some(Inst::JumpTo(t, _args)) => seq![t],
        _ => Seq::empty(),
    }
}

/// The successor blocks of a block.
pub open spec fn spec_children(f: Func, block: int) -> Seq<usize> {
    children_of_exit(exit_of(f.ir.insts@, f.ir.blocks@[block] as int))
}

/// One scan step: a terminator closes the scan, anything else moves it on.
proof fn lemma_exit_of_step(insts: Seq<Inst>, start: int, p: int)
    requires
        0 <= start <= p < insts.len(),
        exit_of(insts, p) == exit_of(insts, start),
    ensures
        is_terminator(insts[p]) ==> exit_of(insts, start) == Some(insts[p]),
        !is_terminator(insts[p]) ==> exit_of(insts, p + 1) == exit_of(insts, start),
{
}

/// The final instruction of a block: the first terminator at or after its
/// label.  A block that runs off the end of the list has none.
pub fn get_exit_inst<'a>(func: &'a Func, block: usize) -> (r: Option<&'a Inst>)
    requires
        func.ir.consistent(),
        block < func.ir.blocks@.len(),
    ensures
        match r {
            Some(inst) => exit_of(func.ir.insts@, func.ir.blocks@[block as int] as int) == Some(
                *inst,
            ),
            None => exit_of(func.ir.insts@, func.ir.blocks@[block as int] as int) is None,
        },
{
    let start: usize = func.ir.blocks[block];
    let n: usize = func.ir.insts.len();
    let mut p: usize = start;
    while p < n
        invariant
            start <= p <= n,
            n == func.ir.insts@.len(),
            start == func.ir.blocks@[block as int],
            exit_of(func.ir.insts@, p as int) == exit_of(func.ir.insts@, start as int),
        decreases n - p,
    {
        let found: bool = match &func.ir.insts[p] {
            Inst::Branch(..) => true,
            Inst::JumpTo(..) => true,
            Inst::Return(..) => true,
            _ => false,
        };
        proof {
            lemma_exit_of_step(func.ir.insts@, start as int, p as int);
        }
        if found {
            return Some(&func.ir.insts[p]);
        }
        p = p + 1;
    }
    None
}

/// The immediate successors of a block: none after a return or a missing
/// terminator, both arms of a branch, the target of a jump.
pub fn get_children(func: &Func, block: usize) -> (r: Vec<usize>)
    requires
        func.ir.consistent(),
        block < func.ir.blocks@.len(),
    ensures
        r@ == spec_children(*func, block as int),
{
    let mut r: Vec<usize> = Vec::new();
    match get_exit_inst(func, block) {
        Some(inst) => match inst {
            Inst::Branch(_c, paths) => {
                r.push(paths.0);
                r.push(paths.1);
            },
            Inst::JumpTo(t, _args) => {
                r.push(*t);
            },
            _ => {},
        },
        None => {},
    }
    proof {
        assert(r@ =~= spec_children(*func, block as int));
    }
    r
}

/// Whether every path from the entry to `b` passes through `a`.  This is
/// the conservative answer: it holds everything dominated, which is sound
/// for the emitter — it may only inline more, duplicating some blocks.
pub fn dominates(_f: &Func, _a: usize, _b: usize) -> (r: bool)
    ensures
        r == true,
{
    true
}

/// Whether a terminator in the instructions from the block's label to the
/// end of the list targets the block itself.
pub open spec fn spec_is_loop(f: Func, block: usize) -> bool {
    exists|i: int|
        f.ir.blocks@[block as int] <= i < f.ir.insts@.len() && inst_targets(
            #[trigger] f.ir.insts@[i],
            block,
        )
}

/// Whether the instruction transfers control to `block`.
pub open spec fn inst_targets(inst: Inst, block: usize) -> bool {
    match inst {
        Inst::Branch(_c, paths) => paths.0 == block || paths.1 == block,
        Inst::JumpTo(t, _args) => t == block,
        _ => false,
    }
}

/// Whether some later terminator points back at this block, making it a
/// loop header.
pub fn is_loop(f: &Func, block: usize) -> (r: bool)
    requires
        f.ir.consistent(),
        block < f.ir.blocks@.len(),
    ensures
        r == spec_is_loop(*f, block),
{
    let start: usize = f.ir.blocks[block];
    let n: usize = f.ir.insts.len();
    let mut p: usize = start;
    while p < n
        invariant
            start <= p <= n,
            n == f.ir.insts@.len(),
            start == f.ir.blocks@[block as int],
            forall|j: int| start <= j < p ==> !inst_targets(#[trigger] f.ir.insts@[j], block),
        decreases n - p,
    {
        let hit: bool = match &f.ir.insts[p] {
            Inst::Branch(_c, paths) => paths.0 == block || paths.1 == block,
            Inst::JumpTo(t, _args) => *t == block,
            _ => false,
        };
        if hit {
            return true;
        }
        p = p + 1;
    }
    false
}

/// Push the unseen members of `cs` onto the stack, marking them seen.
pub open spec fn spec_push_unseen(
    cs: Seq<usize>,
    todo: Seq<usize>,
    seen: Seq<bool>,
) -> (Seq<usize>, Seq<bool>)
    decreases cs.len(),
{
    if cs.len() == 0 {
        (todo, seen)
    } else {
        let c = cs[0];
        if c < seen.len() && !seen[c as int] {
            spec_push_unseen(cs.drop_first(), todo.push(c), seen.update(c as int, true))
        } else {
            spec_push_unseen(cs.drop_first(), todo, seen)
        }
    }
}

/// One depth-first search round: pop a block, report success when `b` is
/// among its children, otherwise push the unseen children and go on.
pub open spec fn spec_dfs(f: Func, todo: Seq<usize>, seen: Seq<bool>, b: usize, fuel: nat) -> bool
    decreases fuel,
{
    if fuel == 0 {
        false
    } else if todo.len() == 0 {
        false
    } else {
        let x = todo.last();
        let rest = todo.drop_last();
        if x >= f.ir.blocks@.len() {
            spec_dfs(f, rest, seen, b, (fuel - 1) as nat)
        } else {
            let cs = spec_children(f, x as int);
            if cs.contains(b) {
                true
            } else {
                let next = spec_push_unseen(cs, rest, seen);
                spec_dfs(f, next.0, next.1, b, (fuel - 1) as nat)
            }
        }
    }
}

/// Whether `b` is reachable from `a` along one or more successor edges.
/// The search marks each block once, so a budget of one round per block
/// and one more always suffices; a block table within two entries of the
/// address space limit cannot be searched and counts as unreachable.
pub open spec fn init_seen(n: nat, a: usize) -> Seq<bool> {
    Seq::new(n, |i: int| i == a)
}

pub open spec fn spec_is_parent_of(f: Func, a: usize, b: usize) -> bool {
    if a < f.ir.blocks@.len() && f.ir.blocks@.len() < usize::MAX - 2 {
        spec_dfs(f, seq![a], init_seen(f.ir.blocks@.len(), a), b, (f.ir.blocks@.len() + 2) as nat)
    } else {
        false
    }
}

/// Whether a variable list holds `b`.
fn vars_contain(cs: &Vec<usize>, b: usize) -> (r: bool)
    ensures
        r == cs@.contains(b),
{
    let n: usize = cs.len();
    let mut j: usize = 0;
    while j < n
        invariant
            j <= n,
            n == cs@.len(),
            forall|k: int| 0 <= k < j ==> cs@[k] != b,
        decreases n - j,
    {
        if cs[j] == b {
            return true;
        }
        j = j + 1;
    }
    proof {
        assert(!cs@.contains(b)) by {
            if cs@.contains(b) {
                let k = choose|k: int| 0 <= k < cs@.len() && cs@[k] == b;
                assert(cs@[k] != b);
            }
        }
    }
    false
}

/// Push the unseen members of `cs` onto the stack, marking them seen.
fn push_unseen(cs: &Vec<usize>, todo: &mut Vec<usize>, seen: &mut Vec<bool>)
    ensures
        final(seen)@.len() == old(seen)@.len(),
        (final(todo)@, final(seen)@) == spec_push_unseen(cs@, old(todo)@, old(seen)@),
{
    proof {
        assert(cs@.skip(0) =~= cs@);
    }
    let n: usize = cs.len();
    let mut k: usize = 0;
    while k < n
        invariant
            k <= n,
            n == cs@.len(),
            seen@.len() == old(seen)@.len(),
            spec_push_unseen(cs@.skip(k as int), todo@, seen@) == spec_push_unseen(
                cs@,
                old(todo)@,
                old(seen)@,
            ),
        decreases n - k,
    {
        proof {
            assert(cs@.skip(k as int)[0] == cs@[k as int]);
            assert(cs@.skip(k as int).drop_first() =~= cs@.skip(k as int + 1));
        }
        let c: usize = cs[k];
        if c < seen.len() {
            if !seen[c] {
                seen.set(c, true);
                todo.push(c);
            }
        }
        k = k + 1;
    }
    proof {
        assert(cs@.skip(n as int) =~= Seq::<usize>::empty());
    }
}

/// Whether `a` leads into `b`: a depth-first search over successor edges.
pub fn is_parent_of(func: &Func, a: usize, b: usize) -> (r: bool)
    requires
        func.ir.consistent(),
    ensures
        r == spec_is_parent_of(*func, a, b),
{
    let nb: usize = func.ir.blocks.len();
    if a >= nb || nb >= usize::MAX - 2 {
        return false;
    }
    let mut seen: Vec<bool> = Vec::new();
    let mut i: usize = 0;
    while i < nb
        invariant
            i <= nb,
            seen@.len() == i,
            forall|j: int| 0 <= j < i ==> seen@[j] == (j == a),
        decreases nb - i,
    {
        seen.push(i == a);
        i = i + 1;
    }
    let mut todo: Vec<usize> = Vec::new();
    todo.push(a);
    let mut fuel: usize = nb + 2;
    let ghost target = spec_is_parent_of(*func, a, b);
    proof {
        assert(seen@ =~= init_seen(func.ir.blocks@.len(), a));
        assert(todo@ =~= seq![a]);
        assert(spec_dfs(*func, todo@, seen@, b, fuel as nat) == target);
    }
    loop
        invariant
            nb == func.ir.blocks@.len(),
            func.ir.consistent(),
            seen@.len() == nb,
            target == spec_is_parent_of(*func, a, b),
            spec_dfs(*func, todo@, seen@, b, fuel as nat) == target,
        decreases fuel,
    {
        if fuel == 0 {
            proof {
                assert(spec_dfs(*func, todo@, seen@, b, fuel as nat) == false);
            }
            return false;
        }
        if todo.len() == 0 {
            proof {
                assert(spec_dfs(*func, todo@, seen@, b, fuel as nat) == false);
            }
            return false;
        }
        let ghost todo0 = todo@;
        let ghost seen0 = seen@;
        let ghost fuel0 = fuel as nat;
        fuel = fuel - 1;
        let x: usize = match todo.pop() {
            Some(x) => x,
            None => {
                proof {
                    assert(false);
                }
                return false;
            },
        };
        proof {
            assert(x == todo0.last());
            assert(todo@ =~= todo0.drop_last());
        }
        if x >= nb {
            proof {
                assert(spec_dfs(*func, todo0, seen0, b, fuel0) == spec_dfs(
                    *func,
                    todo0.drop_last(),
                    seen0,
                    b,
                    (fuel0 - 1) as nat,
                ));
            }
            continue ;
        }
        let cs: Vec<usize> = get_children(func, x);
        if vars_contain(&cs, b) {
            proof {
                assert(spec_dfs(*func, todo0, seen0, b, fuel0) == true);
            }
            return true;
        }
        push_unseen(&cs, &mut todo, &mut seen);
        proof {
            assert(spec_dfs(*func, todo0, seen0, b, fuel0) == spec_dfs(
                *func,
                todo@,
                seen@,
                b,
                (fuel0 - 1) as nat,
            ));
        }
    }
}

} // verus!
