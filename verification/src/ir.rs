//! The intermediate representation and its builder.
//!
//! A function body is one arena: a flat instruction list, a table of block
//! start offsets, a parameter descriptor per block, and a variable table.
//! The builder lowers a syntax tree into that arena in SSA form: every
//! variable has one defining site, and joins are expressed as block
//! parameters fed by the arguments of the jumps that enter the block.

use vstd::prelude::*;
use crate::ast::{Ast, FuncDef, Param, def_yields, has_assign, never_yields, touches_name};
use crate::scope::{Scope, entries_view, find_entry, find_in, lemma_entry_has_key, lemma_upsert_other, sv_get};
use crate::value::{TypeDef, Value, ValueModel};

verus! {

/// A variable index into a function's variable table.
pub type Var = usize;

/// An index into the module's function table.
pub type FuncId = usize;

/// A block index into a function's block table.
pub type Block = usize;

/// The sentinel a lowering step returns when the expression produces no
/// value (a statement, a loop, an empty block).
pub const NO_VALUE: usize = usize::MAX;

/// A user-visible reason why a syntax tree was refused.
#[derive(Debug, Clone, Copy, PartialEq, Eq, Structural)]
pub enum BuildError {
    /// An identifier was read or assigned that no scope declares.
    UndeclaredName,
    /// An operator was applied to operands it is not defined for, or the
    /// two arms of an `if` disagree about the value they produce.
    TypeMismatch,
    /// The tree holds a parse error marker or a shape the builder rejects.
    MalformedAst,
    /// The built function fails a structural well-formedness check.
    IllFormed,
}

/// A binary operator.
#[derive(Debug, Clone, Copy, PartialEq, Eq, Structural)]
pub enum Op {
    Add,
    Sub,
    Mul,
    Div,
    Eq,
    Ne,
    Le,
    Lt,
    Ge,
    Gt,
}

/// A unary operator.
#[derive(Debug, Clone, Copy, PartialEq, Eq, Structural)]
pub enum UOp {
    Neg,
    Not,
}

/// One instruction of the arena.  `Branch`, `JumpTo` and `Return` are the
/// terminators; nothing else transfers control.
#[derive(Debug)]
pub enum Inst {
    /// Define the first variable as `op` of the two others.
    Op(Var, Op, Var, Var),
    /// Define the first variable as `op` of the other.
    UOp(Var, UOp, Var),
    /// Define the first variable by calling a peer function on arguments.
    Call(Var, FuncId, Vec<Var>),
    /// Define the variable from a literal.
    Const(Var, Value),
    /// Branch on a boolean variable to (then, else).
    Branch(Var, (Block, Block)),
    /// Jump to a block, feeding its parameters.
    JumpTo(Block, Vec<Var>),
    /// Return the value of the variable.
    Return(Var),
}

/// Whether an instruction is a terminator.
pub open spec fn is_terminator(inst: Inst) -> bool {
    match inst {
        Inst::Branch(..) => true,
        Inst::JumpTo(..) => true,
        Inst::Return(..) => true,
        _ => false,
    }
}

/// Replace `from` by `to`, leave every other variable alone.
pub open spec fn rewrite_var(x: usize, from: usize, to: usize) -> usize {
    if x == from {
        to
    } else {
        x
    }
}

/// One instruction with every use of `from` replaced by `to`; defining
/// sites are left alone.
pub open spec fn rewrite_inst(inst: Inst, from: usize, to: usize) -> Inst {
    match inst {
        Inst::Op(var, op, a, b) => Inst::Op(var, op, rewrite_var(a, from, to), rewrite_var(b, from, to)),
        Inst::UOp(var, op, a) => Inst::UOp(var, op, rewrite_var(a, from, to)),
        Inst::Call(var, func, args) => Inst::Call(var, func, args),
        Inst::Const(var, val) => Inst::Const(var, val),
        Inst::Branch(cond, paths) => Inst::Branch(rewrite_var(cond, from, to), paths),
        Inst::JumpTo(block, args) => Inst::JumpTo(block, args),
        Inst::Return(var) => Inst::Return(rewrite_var(var, from, to)),
    }
}

/// The rewrite of a variable list.
pub open spec fn rewrite_args(args: Seq<usize>, from: usize, to: usize) -> Seq<usize> {
    args.map_values(|x: usize| rewrite_var(x, from, to))
}

/// Whether `after` is `before` with every use of `from` replaced by `to`.
/// Stated as a relation because the argument lists live inside `Vec`s.
pub open spec fn inst_rewritten(before: Inst, after: Inst, from: usize, to: usize) -> bool {
    match before {
        Inst::Call(var, func, args) => after matches Inst::Call(var2, func2, args2)
            && var2 == var && func2 == func && args2@ == rewrite_args(args@, from, to),
        Inst::JumpTo(block, args) => after matches Inst::JumpTo(block2, args2)
            && block2 == block && args2@ == rewrite_args(args@, from, to),
        _ => after == rewrite_inst(before, from, to),
    }
}

/// Whether `after` is `before` with `arg` appended to the argument list,
/// when `before` is a jump; any other instruction is left alone.
pub open spec fn jump_extended(before: Inst, after: Inst, arg: usize) -> bool {
    match before {
        Inst::JumpTo(block, args) => after matches Inst::JumpTo(block2, args2)
            && block2 == block && args2@ == args@.push(arg),
        _ => after == before,
    }
}

/// The arena of one function body.
#[derive(Debug)]
pub struct Blocks {
    /// The flat instruction list.
    pub insts: Vec<Inst>,
    /// Number of variables allocated so far.
    pub num_vars: usize,
    /// Per variable, the instruction count at its creation.
    pub var_decl: Vec<usize>,
    /// Per variable, its type.
    pub var_type: Vec<TypeDef>,
    /// Per block, the offset of its first instruction.
    pub blocks: Vec<usize>,
    /// Per block, its first parameter variable and its parameter count.
    pub block_params: Vec<(usize, usize)>,
    /// Per module function, its declared return type; a call's result
    /// variable is typed from this table.
    pub func_rets: Vec<TypeDef>,
}

impl Blocks {
    /// The structural bookkeeping every builder step preserves.
    pub open spec fn consistent(self) -> bool {
        &&& self.var_type@.len() == self.num_vars
        &&& self.var_decl@.len() == self.num_vars
        &&& self.blocks@.len() == self.block_params@.len()
        &&& 1 <= self.blocks@.len()
        &&& forall|b: int| 0 <= b < self.blocks@.len() ==> self.blocks@[b] <= self.insts@.len()
        &&& forall|b: int|
            0 <= b < self.block_params@.len() ==> self.block_params@[b].1 <= self.num_vars
    }

    /// A fresh arena for a function with the given formal parameters:
    /// block 0 is the entry and carries the formals as its parameters.
    /// `func_rets` is the module's return type table, one entry per
    /// definition in order, so that calls can be typed while the body is
    /// lowered.
    pub fn new(params: &Vec<Param>, func_rets: &Vec<TypeDef>) -> (r: Blocks)
        ensures
            r.consistent(),
            r.insts@.len() == 0,
            r.num_vars == params@.len(),
            r.var_type@.len() == params@.len(),
            forall|i: int| 0 <= i < params@.len() ==> r.var_type@[i] == params@[i].param_type,
            r.blocks@ == seq![0usize],
            r.block_params@ == seq![(0usize, params@.len() as usize)],
            r.func_rets@ == func_rets@,
    {
        let mut rets: Vec<TypeDef> = Vec::new();
        let nr: usize = func_rets.len();
        let mut k: usize = 0;
        while k < nr
            invariant
                k <= nr,
                nr == func_rets@.len(),
                rets@ == func_rets@.take(k as int),
            decreases nr - k,
        {
            rets.push(func_rets[k]);
            proof {
                assert(rets@ =~= func_rets@.take(k + 1));
            }
            k = k + 1;
        }
        proof {
            assert(func_rets@.take(nr as int) =~= func_rets@);
        }
        let mut var_decl: Vec<usize> = Vec::new();
        let mut var_type: Vec<TypeDef> = Vec::new();
        let n: usize = params.len();
        let mut i: usize = 0;
        while i < n
            invariant
                i <= n,
                n == params@.len(),
                var_decl@.len() == i,
                var_type@.len() == i,
                forall|j: int| 0 <= j < i ==> var_type@[j] == params@[j].param_type,
            decreases n - i,
        {
            var_decl.push(0);
            var_type.push(params[i].param_type);
            i = i + 1;
        }
        let mut blocks: Vec<usize> = Vec::new();
        blocks.push(0);
        let mut block_params: Vec<(usize, usize)> = Vec::new();
        block_params.push((0, n));
        let r = Blocks {
            insts: Vec::new(),
            num_vars: n,
            var_decl,
            var_type,
            blocks,
            block_params,
            func_rets: rets,
        };
        proof {
            assert(r.blocks@ =~= seq![0usize]);
            assert(r.block_params@ =~= seq![(0usize, params@.len() as usize)]);
        }
        r
    }

    /// Allocate a fresh variable of the given type; its declaration site is
    /// the instruction count at creation.
    pub fn new_var(&mut self, t: TypeDef) -> (v: Var)
        requires
            old(self).consistent(),
        ensures
            final(self).consistent(),
            v == old(self).num_vars,
            final(self).num_vars == old(self).num_vars + 1,
            final(self).var_type@ == old(self).var_type@.push(t),
            final(self).insts@ == old(self).insts@,
            final(self).blocks@ == old(self).blocks@,
            final(self).block_params@ == old(self).block_params@,
            final(self).func_rets@ == old(self).func_rets@,
    {
        let site: usize = self.insts.len();
        self.var_type.push(t);
        self.var_decl.push(site);
        let v: usize = self.var_type.len() - 1;
        self.num_vars = self.var_type.len();
        v
    }

    /// Allocate a fresh, still unlabelled block.
    pub fn new_block(&mut self) -> (b: Block)
        requires
            old(self).consistent(),
        ensures
            final(self).consistent(),
            b == old(self).blocks@.len(),
            final(self).blocks@ == old(self).blocks@.push(0usize),
            final(self).block_params@ == old(self).block_params@.push((0usize, 0usize)),
            final(self).insts@ == old(self).insts@,
            final(self).var_type@ == old(self).var_type@,
            final(self).num_vars == old(self).num_vars,
            final(self).func_rets@ == old(self).func_rets@,
    {
        self.blocks.push(0);
        self.block_params.push((0, 0));
        self.blocks.len() - 1
    }

    /// Point a block at the current end of the instruction list.
    pub fn add_label(&mut self, block: Block)
        requires
            old(self).consistent(),
            block < old(self).blocks@.len(),
        ensures
            final(self).consistent(),
            final(self).blocks@ == old(self).blocks@.update(block as int, old(self).insts@.len() as usize),
            final(self).insts@ == old(self).insts@,
            final(self).block_params@ == old(self).block_params@,
            final(self).var_type@ == old(self).var_type@,
            final(self).num_vars == old(self).num_vars,
            final(self).func_rets@ == old(self).func_rets@,
    {
        let here: usize = self.insts.len();
        self.blocks.set(block, here);
    }

    /// The result type an operator gives for an operand type, when the
    /// operator is defined for it.
    pub open spec fn spec_op_result(op: Op, t: TypeDef) -> Option<TypeDef> {
        match op {
            Op::Add | Op::Sub | Op::Mul | Op::Div => match t {
                TypeDef::I32 => Some(TypeDef::I32),
                TypeDef::F64 => Some(TypeDef::F64),
                _ => None,
            },
            Op::Eq | Op::Ne => match t {
                TypeDef::Bool | TypeDef::I32 | TypeDef::F64 => Some(TypeDef::Bool),
                _ => None,
            },
            Op::Le | Op::Lt | Op::Ge | Op::Gt => match t {
                TypeDef::I32 | TypeDef::F64 => Some(TypeDef::Bool),
                _ => None,
            },
        }
    }

    /// Append a binary operation on two already lowered operands.  The
    /// operands must be in range, agree on their type, and the operator
    /// must be defined for that type; otherwise the tree is refused.
    pub fn add_op(&mut self, op: Op, a: Var, b: Var) -> (r: Result<Var, BuildError>)
        requires
            old(self).consistent(),
        ensures
            final(self).consistent(),
            final(self).num_vars >= old(self).num_vars,
            final(self).blocks@ == old(self).blocks@,
            final(self).block_params@ == old(self).block_params@,
            final(self).func_rets@ == old(self).func_rets@,
            r is Err ==> *final(self) == *old(self),
            r matches Ok(v) ==> {
                &&& a < old(self).num_vars && b < old(self).num_vars
                &&& old(self).var_type@[a as int] == old(self).var_type@[b as int]
                &&& Blocks::spec_op_result(op, old(self).var_type@[a as int]) is Some
                &&& v == old(self).num_vars
                &&& final(self).num_vars == old(self).num_vars + 1
                &&& final(self).var_type@ == old(self).var_type@.push(
                    Blocks::spec_op_result(op, old(self).var_type@[a as int]).unwrap(),
                )
                &&& final(self).insts@ == old(self).insts@.push(Inst::Op(v, op, a, b))
            },
            a < old(self).num_vars && b < old(self).num_vars && old(self).var_type@[a as int]
                == old(self).var_type@[b as int] && Blocks::spec_op_result(
                op,
                old(self).var_type@[a as int],
            ) is Some ==> r is Ok,
    {
        if a >= self.var_type.len() || b >= self.var_type.len() {
            return Err(BuildError::TypeMismatch);
        }
        let ta: TypeDef = self.var_type[a];
        let tb: TypeDef = self.var_type[b];
        if ta != tb {
            return Err(BuildError::TypeMismatch);
        }
        let result_type: TypeDef = match op {
            Op::Add | Op::Sub | Op::Mul | Op::Div => match ta {
                TypeDef::I32 => TypeDef::I32,
                TypeDef::F64 => TypeDef::F64,
                _ => {
                    return Err(BuildError::TypeMismatch);
                },
            },
            Op::Eq | Op::Ne => match ta {
                TypeDef::Bool | TypeDef::I32 | TypeDef::F64 => TypeDef::Bool,
                _ => {
                    return Err(BuildError::TypeMismatch);
                },
            },
            Op::Le | Op::Lt | Op::Ge | Op::Gt => match ta {
                TypeDef::I32 | TypeDef::F64 => TypeDef::Bool,
                _ => {
                    return Err(BuildError::TypeMismatch);
                },
            },
        };
        let var: usize = self.new_var(result_type);
        self.insts.push(Inst::Op(var, op, a, b));
        Ok(var)
    }

    /// Whether a unary operator is defined for an operand type: `Neg`
    /// asks a numeric operand, `Not` a boolean one.
    pub open spec fn spec_uop_defined(op: UOp, t: TypeDef) -> bool {
        match op {
            UOp::Neg => t == TypeDef::I32 || t == TypeDef::F64,
            UOp::Not => t == TypeDef::Bool,
        }
    }

    /// Append a unary operation; `Neg` asks a numeric operand, `Not` a
    /// boolean one.
    pub fn add_uop(&mut self, op: UOp, a: Var) -> (r: Result<Var, BuildError>)
        requires
            old(self).consistent(),
        ensures
            final(self).consistent(),
            final(self).num_vars >= old(self).num_vars,
            final(self).blocks@ == old(self).blocks@,
            final(self).block_params@ == old(self).block_params@,
            final(self).func_rets@ == old(self).func_rets@,
            r is Err ==> *final(self) == *old(self),
            r matches Ok(v) ==> {
                &&& a < old(self).num_vars
                &&& Blocks::spec_uop_defined(op, old(self).var_type@[a as int])
                &&& v == old(self).num_vars
                &&& final(self).num_vars == old(self).num_vars + 1
                &&& final(self).var_type@ == old(self).var_type@.push(
                    old(self).var_type@[a as int],
                )
                &&& final(self).insts@ == old(self).insts@.push(Inst::UOp(v, op, a))
            },
            a < old(self).num_vars && Blocks::spec_uop_defined(op, old(self).var_type@[a as int]) ==> r
                is Ok,
    {
        if a >= self.var_type.len() {
            return Err(BuildError::TypeMismatch);
        }
        let ta: TypeDef = self.var_type[a];
        let defined: bool = match op {
            UOp::Neg => match ta {
                TypeDef::I32 | TypeDef::F64 => true,
                _ => false,
            },
            UOp::Not => match ta {
                TypeDef::Bool => true,
                _ => false,
            },
        };
        if !defined {
            return Err(BuildError::TypeMismatch);
        }
        let var: usize = self.new_var(ta);
        self.insts.push(Inst::UOp(var, op, a));
        Ok(var)
    }

    /// Append a constant definition.
    pub fn add_consts(&mut self, value: Value) -> (v: Var)
        requires
            old(self).consistent(),
            value.wf(),
        ensures
            final(self).consistent(),
            v == old(self).num_vars,
            final(self).num_vars == old(self).num_vars + 1,
            final(self).var_type@ == old(self).var_type@.push(value.spec_type()),
            final(self).insts@ == old(self).insts@.push(Inst::Const(v, value)),
            final(self).blocks@ == old(self).blocks@,
            final(self).block_params@ == old(self).block_params@,
            final(self).func_rets@ == old(self).func_rets@,
    {
        let t: TypeDef = value.get_type();
        let reg: usize = self.new_var(t);
        self.insts.push(Inst::Const(reg, value));
        reg
    }

    /// Append a jump with an empty argument list; arguments are filled in
    /// later.  Returns the index of the new instruction.
    pub fn add_jump(&mut self, block: Block) -> (j: usize)
        requires
            old(self).consistent(),
        ensures
            final(self).consistent(),
            j == old(self).insts@.len(),
            final(self).insts@.len() == old(self).insts@.len() + 1,
            final(self).insts@[j as int] matches Inst::JumpTo(b, args) && b == block
                && args@ == Seq::<usize>::empty(),
            forall|i: int| 0 <= i < j ==> final(self).insts@[i] == old(self).insts@[i],
            final(self).blocks@ == old(self).blocks@,
            final(self).block_params@ == old(self).block_params@,
            final(self).var_type@ == old(self).var_type@,
            final(self).num_vars == old(self).num_vars,
            final(self).func_rets@ == old(self).func_rets@,
    {
        let j: usize = self.insts.len();
        let args: Vec<usize> = Vec::new();
        proof {
            assert(args@ =~= Seq::<usize>::empty());
        }
        self.insts.push(Inst::JumpTo(block, args));
        j
    }

    /// Append a conditional branch; the condition must be a boolean
    /// variable.
    pub fn add_branch(&mut self, cond: Var, then_block: Block, else_block: Block) -> (r: Result<
        (),
        BuildError,
    >)
        requires
            old(self).consistent(),
        ensures
            final(self).consistent(),
            final(self).blocks@ == old(self).blocks@,
            final(self).block_params@ == old(self).block_params@,
            final(self).var_type@ == old(self).var_type@,
            final(self).num_vars == old(self).num_vars,
            final(self).func_rets@ == old(self).func_rets@,
            r is Err ==> *final(self) == *old(self),
            r is Ok ==> {
                &&& cond < old(self).num_vars
                &&& old(self).var_type@[cond as int] == TypeDef::Bool
                &&& final(self).insts@ == old(self).insts@.push(
                    Inst::Branch(cond, (then_block, else_block)),
                )
            },
            cond < old(self).num_vars && old(self).var_type@[cond as int] == TypeDef::Bool ==> r
                is Ok,
    {
        if cond >= self.var_type.len() {
            return Err(BuildError::TypeMismatch);
        }
        let tc: TypeDef = self.var_type[cond];
        if tc != TypeDef::Bool {
            return Err(BuildError::TypeMismatch);
        }
        self.insts.push(Inst::Branch(cond, (then_block, else_block)));
        Ok(())
    }

    /// Append one argument to the jump at instruction `inst`; any other
    /// instruction there is left alone.
    pub fn add_arg_to_jump(&mut self, inst: usize, arg: usize)
        requires
            old(self).consistent(),
            inst < old(self).insts@.len(),
        ensures
            final(self).consistent(),
            final(self).insts@.len() == old(self).insts@.len(),
            forall|i: int|
                0 <= i < old(self).insts@.len() && i != inst ==> final(self).insts@[i] == old(
                    self,
                ).insts@[i],
            jump_extended(old(self).insts@[inst as int], final(self).insts@[inst as int], arg),
            final(self).blocks@ == old(self).blocks@,
            final(self).block_params@ == old(self).block_params@,
            final(self).var_type@ == old(self).var_type@,
            final(self).num_vars == old(self).num_vars,
            final(self).func_rets@ == old(self).func_rets@,
    {
        let replacement: Inst = match &self.insts[inst] {
            Inst::JumpTo(block, args) => {
                let mut new_args: Vec<usize> = copy_vars(args);
                new_args.push(arg);
                Inst::JumpTo(*block, new_args)
            },
            _ => {
                return ;
            },
        };
        self.insts.set(inst, replacement);
    }

    /// Allocate a fresh variable and count it as one more parameter of the
    /// block.
    pub fn add_param_to_block(&mut self, block: Block, t: TypeDef) -> (v: Var)
        requires
            old(self).consistent(),
            block < old(self).block_params@.len(),
        ensures
            final(self).consistent(),
            v == old(self).num_vars,
            final(self).num_vars == old(self).num_vars + 1,
            final(self).var_type@ == old(self).var_type@.push(t),
            final(self).block_params@ == old(self).block_params@.update(
                block as int,
                (old(self).block_params@[block as int].0, (old(self).block_params@[block as int].1
                    + 1) as usize),
            ),
            final(self).insts@ == old(self).insts@,
            final(self).blocks@ == old(self).blocks@,
            final(self).func_rets@ == old(self).func_rets@,
    {
        let var: usize = self.new_var(t);
        let first: usize = self.block_params[block].0;
        let count: usize = self.block_params[block].1;
        self.block_params.set(block, (first, count + 1));
        var
    }

    /// Record where a block's parameter run starts in the variable table.
    pub fn set_first_param(&mut self, block: Block, first: usize)
        requires
            old(self).consistent(),
            block < old(self).block_params@.len(),
        ensures
            final(self).consistent(),
            final(self).block_params@ == old(self).block_params@.update(
                block as int,
                (first, old(self).block_params@[block as int].1),
            ),
            final(self).insts@ == old(self).insts@,
            final(self).blocks@ == old(self).blocks@,
            final(self).var_type@ == old(self).var_type@,
            final(self).num_vars == old(self).num_vars,
            final(self).func_rets@ == old(self).func_rets@,
    {
        let count: usize = self.block_params[block].1;
        self.block_params.set(block, (first, count));
    }

    /// Replace every use of `from` by `to` in the instructions from the
    /// label of `block` to the end of the list.
    pub fn update(&mut self, block: Block, from: Var, to: Var)
        requires
            old(self).consistent(),
            block < old(self).blocks@.len(),
        ensures
            final(self).consistent(),
            final(self).insts@.len() == old(self).insts@.len(),
            forall|i: int|
                0 <= i < old(self).blocks@[block as int] ==> final(self).insts@[i] == old(
                    self,
                ).insts@[i],
            forall|i: int|
                old(self).blocks@[block as int] <= i < old(self).insts@.len() ==> inst_rewritten(
                    old(self).insts@[i],
                    final(self).insts@[i],
                    from,
                    to,
                ),
            final(self).blocks@ == old(self).blocks@,
            final(self).block_params@ == old(self).block_params@,
            final(self).var_type@ == old(self).var_type@,
            final(self).num_vars == old(self).num_vars,
            final(self).func_rets@ == old(self).func_rets@,
    {
        let start: usize = self.blocks[block];
        let n: usize = self.insts.len();
        let mut i: usize = start;
        while i < n
            invariant
                start <= i <= n,
                n == old(self).insts@.len(),
                self.insts@.len() == n,
                start == old(self).blocks@[block as int],
                forall|j: int| 0 <= j < start ==> self.insts@[j] == old(self).insts@[j],
                forall|j: int|
                    start <= j < i ==> inst_rewritten(old(self).insts@[j], self.insts@[j], from, to),
                forall|j: int| i <= j < n ==> self.insts@[j] == old(self).insts@[j],
                self.num_vars == old(self).num_vars,
                self.var_type@ == old(self).var_type@,
                self.var_decl@ == old(self).var_decl@,
                self.blocks@ == old(self).blocks@,
                self.block_params@ == old(self).block_params@,
                self.func_rets@ == old(self).func_rets@,
                old(self).consistent(),
            decreases n - i,
        {
            let replacement: Option<Inst> = match &self.insts[i] {
                Inst::Branch(cond, paths) => {
                    if *cond == from {
                        Some(Inst::Branch(to, *paths))
                    } else {
                        Some(Inst::Branch(*cond, *paths))
                    }
                },
                Inst::Call(var, func, args) => {
                    Some(Inst::Call(*var, *func, rewrite_vars(args, from, to)))
                },
                Inst::JumpTo(target, args) => {
                    Some(Inst::JumpTo(*target, rewrite_vars(args, from, to)))
                },
                Inst::Return(var) => {
                    if *var == from {
                        Some(Inst::Return(to))
                    } else {
                        Some(Inst::Return(*var))
                    }
                },
                Inst::Op(var, op, a, b) => {
                    let na: usize = if *a == from {
                        to
                    } else {
                        *a
                    };
                    let nb: usize = if *b == from {
                        to
                    } else {
                        *b
                    };
                    Some(Inst::Op(*var, *op, na, nb))
                },
                Inst::UOp(var, op, a) => {
                    let na: usize = if *a == from {
                        to
                    } else {
                        *a
                    };
                    Some(Inst::UOp(*var, *op, na))
                },
                Inst::Const(..) => None,
            };
            match replacement {
                Some(inst) => {
                    self.insts.set(i, inst);
                },
                None => {},
            }
            proof {
                assert(inst_rewritten(old(self).insts@[i as int], self.insts@[i as int], from, to));
            }
            i = i + 1;
        }
    }
}

/// A copy of a variable list.
pub fn copy_vars(args: &Vec<usize>) -> (r: Vec<usize>)
    ensures
        r@ == args@,
{
    let mut r: Vec<usize> = Vec::new();
    let n: usize = args.len();
    let mut i: usize = 0;
    while i < n
        invariant
            i <= n,
            n == args@.len(),
            r@ == args@.take(i as int),
        decreases n - i,
    {
        r.push(args[i]);
        proof {
            assert(r@ =~= args@.take(i + 1));
        }
        i = i + 1;
    }
    proof {
        assert(args@.take(n as int) =~= args@);
    }
    r
}

/// The rewrite of a variable list, executable form.
pub fn rewrite_vars(args: &Vec<usize>, from: usize, to: usize) -> (r: Vec<usize>)
    ensures
        r@ == rewrite_args(args@, from, to),
{
    let mut r: Vec<usize> = Vec::new();
    let n: usize = args.len();
    let mut i: usize = 0;
    while i < n
        invariant
            i <= n,
            n == args@.len(),
            r@.len() == i,
            forall|j: int| 0 <= j < i ==> r@[j] == rewrite_var(args@[j], from, to),
        decreases n - i,
    {
        let x: usize = args[i];
        r.push(if x == from {
            to
        } else {
            x
        });
        i = i + 1;
    }
    proof {
        assert(r@ =~= rewrite_args(args@, from, to));
    }
    r
}

impl Blocks {
    /// Lower one expression of the tree into the arena, in the given
    /// scope.  Returns the variable holding the expression's value, or
    /// [`NO_VALUE`] when the expression produces none.  The arena only
    /// grows — instructions, labels and parameter descriptors that stood
    /// before the call survive it unchanged, already allocated variables
    /// keep their types, and the return type table is never touched — and
    /// its bookkeeping stays consistent, whether the lowering succeeds or
    /// is refused.  Literals always lower, to exactly one appended
    /// constant; an identifier lowers to its binding in the scope chain,
    /// if and only if one exists; an operator's fresh result variable
    /// carries the operator's result type; a call's result variable
    /// carries the callee's declared return type; a loop or a statement
    /// block yields [`NO_VALUE`].  A tree without assignments leaves every
    /// assignment map alone, so a `while` without them gets a condition
    /// block with no parameters, and a valueless `if` a join block with
    /// none.


    /// Lower a binary operator: the left operand, the right operand, and
    /// the operation.  A comparison's fresh result variable is boolean;
    /// an arithmetic result variable is numeric.
    #[verifier::rlimit(100)]
    #[verifier::spinoff_prover]
    fn add_pair(&mut self, ast: &Ast, scope: &mut Scope) -> (r: Result<usize, BuildError>)
        requires
            old(self).consistent(),
            (*ast) is Add || (*ast) is Sub || (*ast) is Mul || (*ast) is Div || (*ast) is Eq
                || (*ast) is Ne || (*ast) is Lt || (*ast) is Le || (*ast) is Gt || (*ast) is Ge,
        ensures
            final(self).consistent(),
            final(self).num_vars >= old(self).num_vars,
            final(self).insts@.len() >= old(self).insts@.len(),
            final(self).blocks@.len() >= old(self).blocks@.len(),
            final(self).func_rets@ == old(self).func_rets@,
            forall|i: int|
                0 <= i < old(self).num_vars ==> final(self).var_type@[i] == old(self).var_type@[i],
            forall|b: int|
                0 <= b < old(self).block_params@.len() ==> (#[trigger] final(self).block_params@[
                    b
                ]) == old(self).block_params@[b],
            forall|b: int|
                0 <= b < old(self).blocks@.len() ==> (#[trigger] final(self).blocks@[b]) == old(
                    self,
                ).blocks@[b],
            forall|i: int|
                0 <= i < old(self).insts@.len() ==> (#[trigger] final(self).insts@[i]) == old(
                    self,
                ).insts@[i],
            !has_assign(*ast) ==> final(scope)@.assign == old(scope)@.assign,
            final(scope)@.parent == old(scope)@.parent,
            forall|n: Seq<char>|
                !(#[trigger] touches_name(*ast, n)) ==> find_entry(final(scope)@.locals, n)
                    == find_entry(old(scope)@.locals, n) && find_entry(final(scope)@.assign, n)
                    == find_entry(old(scope)@.assign, n),
            ((*ast) is Eq || (*ast) is Ne || (*ast) is Lt || (*ast) is Le || (*ast) is Gt
                || (*ast) is Ge) ==> (r matches Ok(v) ==> v < final(self).num_vars
                && final(self).var_type@[v as int] == TypeDef::Bool),
            ((*ast) is Add || (*ast) is Sub || (*ast) is Mul || (*ast) is Div) ==> (r matches Ok(v)
                ==> v < final(self).num_vars && (final(self).var_type@[v as int] == TypeDef::I32
                    || final(self).var_type@[v as int] == TypeDef::F64)),
            r matches Ok(v) ==> v != NO_VALUE && v < final(self).num_vars,
            ((*ast) is Add || (*ast) is Sub || (*ast) is Mul || (*ast) is Div) ==> (r matches Ok(v)
                ==> (final(self).insts@.last() matches Inst::Op(d, _o, la, _rb) && d == v
                    && la < final(self).num_vars
                    && final(self).var_type@[v as int] == final(self).var_type@[la as int])),
        decreases *ast, 0int,
    {
        match ast {
            Ast::Add(a, b) => {
                proof {
                    assert forall|n: Seq<char>|
                        !(#[trigger] touches_name(*ast, n)) implies !touches_name(**a, n)
                            && !touches_name(**b, n) by {}
                }
                let va: usize = self.add(a, scope)?;
                let vb: usize = self.add(b, scope)?;
                self.add_op(Op::Add, va, vb)
            },
            Ast::Sub(a, b) => {
                proof {
                    assert forall|n: Seq<char>|
                        !(#[trigger] touches_name(*ast, n)) implies !touches_name(**a, n)
                            && !touches_name(**b, n) by {}
                }
                let va: usize = self.add(a, scope)?;
                let vb: usize = self.add(b, scope)?;
                self.add_op(Op::Sub, va, vb)
            },
            Ast::Mul(a, b) => {
                proof {
                    assert forall|n: Seq<char>|
                        !(#[trigger] touches_name(*ast, n)) implies !touches_name(**a, n)
                            && !touches_name(**b, n) by {}
                }
                let va: usize = self.add(a, scope)?;
                let vb: usize = self.add(b, scope)?;
                self.add_op(Op::Mul, va, vb)
            },
            Ast::Div(a, b) => {
                proof {
                    assert forall|n: Seq<char>|
                        !(#[trigger] touches_name(*ast, n)) implies !touches_name(**a, n)
                            && !touches_name(**b, n) by {}
                }
                let va: usize = self.add(a, scope)?;
                let vb: usize = self.add(b, scope)?;
                self.add_op(Op::Div, va, vb)
            },
            Ast::Eq(a, b) => {
                proof {
                    assert forall|n: Seq<char>|
                        !(#[trigger] touches_name(*ast, n)) implies !touches_name(**a, n)
                            && !touches_name(**b, n) by {}
                }
                let va: usize = self.add(a, scope)?;
                let vb: usize = self.add(b, scope)?;
                self.add_op(Op::Eq, va, vb)
            },
            Ast::Ne(a, b) => {
                proof {
                    assert forall|n: Seq<char>|
                        !(#[trigger] touches_name(*ast, n)) implies !touches_name(**a, n)
                            && !touches_name(**b, n) by {}
                }
                let va: usize = self.add(a, scope)?;
                let vb: usize = self.add(b, scope)?;
                self.add_op(Op::Ne, va, vb)
            },
            Ast::Lt(a, b) => {
                proof {
                    assert forall|n: Seq<char>|
                        !(#[trigger] touches_name(*ast, n)) implies !touches_name(**a, n)
                            && !touches_name(**b, n) by {}
                }
                let va: usize = self.add(a, scope)?;
                let vb: usize = self.add(b, scope)?;
                self.add_op(Op::Lt, va, vb)
            },
            Ast::Le(a, b) => {
                proof {
                    assert forall|n: Seq<char>|
                        !(#[trigger] touches_name(*ast, n)) implies !touches_name(**a, n)
                            && !touches_name(**b, n) by {}
                }
                let va: usize = self.add(a, scope)?;
                let vb: usize = self.add(b, scope)?;
                self.add_op(Op::Le, va, vb)
            },
            Ast::Gt(a, b) => {
                proof {
                    assert forall|n: Seq<char>|
                        !(#[trigger] touches_name(*ast, n)) implies !touches_name(**a, n)
                            && !touches_name(**b, n) by {}
                }
                let va: usize = self.add(a, scope)?;
                let vb: usize = self.add(b, scope)?;
                self.add_op(Op::Gt, va, vb)
            },
            Ast::Ge(a, b) => {
                proof {
                    assert forall|n: Seq<char>|
                        !(#[trigger] touches_name(*ast, n)) implies !touches_name(**a, n)
                            && !touches_name(**b, n) by {}
                }
                let va: usize = self.add(a, scope)?;
                let vb: usize = self.add(b, scope)?;
                self.add_op(Op::Ge, va, vb)
            },
            _ => {
                proof {
                    assert(false);
                }
                Err(BuildError::MalformedAst)
            },
        }
    }

    /// Lower a call: the callee, then each argument in order, then one
    /// `Call` whose result variable carries the callee's declared return
    /// type; a callee index outside the module table is refused.
    #[verifier::rlimit(100)]
    #[verifier::spinoff_prover]
    fn add_call(&mut self, ast: &Ast, scope: &mut Scope) -> (r: Result<usize, BuildError>)
        requires
            old(self).consistent(),
            (*ast) is FuncCall,
        ensures
            final(self).consistent(),
            final(self).num_vars >= old(self).num_vars,
            final(self).insts@.len() >= old(self).insts@.len(),
            final(self).blocks@.len() >= old(self).blocks@.len(),
            final(self).func_rets@ == old(self).func_rets@,
            forall|i: int|
                0 <= i < old(self).num_vars ==> final(self).var_type@[i] == old(self).var_type@[i],
            forall|b: int|
                0 <= b < old(self).block_params@.len() ==> (#[trigger] final(self).block_params@[
                    b
                ]) == old(self).block_params@[b],
            forall|b: int|
                0 <= b < old(self).blocks@.len() ==> (#[trigger] final(self).blocks@[b]) == old(
                    self,
                ).blocks@[b],
            forall|i: int|
                0 <= i < old(self).insts@.len() ==> (#[trigger] final(self).insts@[i]) == old(
                    self,
                ).insts@[i],
            !has_assign(*ast) ==> final(scope)@.assign == old(scope)@.assign,
            final(scope)@.parent == old(scope)@.parent,
            forall|n: Seq<char>|
                !(#[trigger] touches_name(*ast, n)) ==> find_entry(final(scope)@.locals, n)
                    == find_entry(old(scope)@.locals, n) && find_entry(final(scope)@.assign, n)
                    == find_entry(old(scope)@.assign, n),
            r matches Ok(v) ==> v < final(self).num_vars
                && (final(self).insts@.last() matches Inst::Call(d, fid, _) && d == v
                    && fid < old(self).func_rets@.len()
                    && final(self).var_type@[v as int] == old(self).func_rets@[fid as int]),
            r matches Ok(v) ==> v != NO_VALUE,
        decreases *ast, 0int,
    {
        match ast {
            Ast::FuncCall(func, args) => {
                proof {
                    assert forall|n: Seq<char>|
                        !(#[trigger] touches_name(*ast, n)) implies !touches_name(**func, n) by {}
                }
                let f: usize = self.add(func, scope)?;
                let mut arg_regs: Vec<usize> = Vec::new();
                let n: usize = args.len();
                let mut k: usize = 0;
                while k < n
                    invariant
                        k <= n,
                        *ast is FuncCall,
                        (*ast)->FuncCall_1 == *args,
                        n == args@.len(),
                        old(self).consistent(),
                        self.consistent(),
                        self.num_vars >= old(self).num_vars,
                        self.insts@.len() >= old(self).insts@.len(),
                        self.blocks@.len() >= old(self).blocks@.len(),
                        self.func_rets@ == old(self).func_rets@,
                        forall|i: int|
                            0 <= i < old(self).num_vars ==> self.var_type@[i] == old(self).var_type@[i],
                        forall|b: int|
                            0 <= b < old(self).block_params@.len() ==> (
                            #[trigger] self.block_params@[b]) == old(self).block_params@[b],
                        forall|b: int|
                            0 <= b < old(self).blocks@.len() ==> (#[trigger] self.blocks@[b])
                                == old(self).blocks@[b],
                        forall|i: int|
                            0 <= i < old(self).insts@.len() ==> (#[trigger] self.insts@[i]) == old(
                                self,
                            ).insts@[i],
                        !has_assign(*ast) ==> scope@.assign == old(scope)@.assign,
                        scope@.parent == old(scope)@.parent,
                        forall|n: Seq<char>|
                            !(#[trigger] touches_name(*ast, n)) ==> find_entry(scope@.locals, n)
                                == find_entry(old(scope)@.locals, n) && find_entry(
                                scope@.assign,
                                n,
                            ) == find_entry(old(scope)@.assign, n),
                    decreases n - k,
                {
                    proof {
                        assert(decreases_to!(*ast => (*ast)->FuncCall_1));
                        assert(decreases_to!((*ast)->FuncCall_1 => (*ast)->FuncCall_1@));
                        assert(decreases_to!((*ast)->FuncCall_1@ => (*ast)->FuncCall_1@[
                            k as int
                        ]));
                        assert((*ast)->FuncCall_1@[k as int] == args@[k as int]);
                    }
                    proof {
                        if !has_assign(*ast) {
                            assert(!has_assign((*ast)->FuncCall_1@[k as int]));
                        }
                        assert forall|n: Seq<char>|
                            !(#[trigger] touches_name(*ast, n)) implies !touches_name(
                            (*ast)->FuncCall_1@[k as int],
                            n,
                        ) by {}
                    }
                    let reg: usize = self.add(&args[k], scope)?;
                    arg_regs.push(reg);
                    k = k + 1;
                }
                if f >= self.func_rets.len() {
                    // The callee index does not name a module function.
                    return Err(BuildError::UndeclaredName);
                }
                let rt: TypeDef = self.func_rets[f];
                let var: usize = self.new_var(rt);
                self.insts.push(Inst::Call(var, f, arg_regs));
                Ok(var)
            },
            _ => {
                proof {
                    assert(false);
                }
                Err(BuildError::MalformedAst)
            },
        }
    }

    /// Lower a brace block: each item in a child scope, whose assignments
    /// to outer names are then propagated to the parent.  A block yields
    /// no value.
    #[verifier::rlimit(100)]
    #[verifier::spinoff_prover]
    fn add_stmts(&mut self, ast: &Ast, scope: &mut Scope) -> (r: Result<usize, BuildError>)
        requires
            old(self).consistent(),
            (*ast) is Block,
        ensures
            final(self).consistent(),
            final(self).num_vars >= old(self).num_vars,
            final(self).insts@.len() >= old(self).insts@.len(),
            final(self).blocks@.len() >= old(self).blocks@.len(),
            final(self).func_rets@ == old(self).func_rets@,
            forall|i: int|
                0 <= i < old(self).num_vars ==> final(self).var_type@[i] == old(self).var_type@[i],
            forall|b: int|
                0 <= b < old(self).block_params@.len() ==> (#[trigger] final(self).block_params@[
                    b
                ]) == old(self).block_params@[b],
            forall|b: int|
                0 <= b < old(self).blocks@.len() ==> (#[trigger] final(self).blocks@[b]) == old(
                    self,
                ).blocks@[b],
            forall|i: int|
                0 <= i < old(self).insts@.len() ==> (#[trigger] final(self).insts@[i]) == old(
                    self,
                ).insts@[i],
            !has_assign(*ast) ==> final(scope)@.assign == old(scope)@.assign,
            final(scope)@.parent == old(scope)@.parent,
            forall|n: Seq<char>|
                !(#[trigger] touches_name(*ast, n)) ==> find_entry(final(scope)@.locals, n)
                    == find_entry(old(scope)@.locals, n) && find_entry(final(scope)@.assign, n)
                    == find_entry(old(scope)@.assign, n),
            r matches Ok(v) ==> v == NO_VALUE,
        decreases *ast, 0int,
    {
        match ast {
            Ast::Block(nodes) => {
                let mut child_scope = scope.child();
                let n: usize = nodes.len();
                let mut k: usize = 0;
                while k < n
                    invariant
                        k <= n,
                        *ast is Block,
                        (*ast)->Block_0 == *nodes,
                        n == nodes@.len(),
                        old(self).consistent(),
                        self.consistent(),
                        self.num_vars >= old(self).num_vars,
                        self.insts@.len() >= old(self).insts@.len(),
                        self.blocks@.len() >= old(self).blocks@.len(),
                        self.func_rets@ == old(self).func_rets@,
                        forall|i: int|
                            0 <= i < old(self).num_vars ==> self.var_type@[i] == old(self).var_type@[i],
                        forall|b: int|
                            0 <= b < old(self).block_params@.len() ==> (
                            #[trigger] self.block_params@[b]) == old(self).block_params@[b],
                        forall|b: int|
                            0 <= b < old(self).blocks@.len() ==> (#[trigger] self.blocks@[b])
                                == old(self).blocks@[b],
                        forall|i: int|
                            0 <= i < old(self).insts@.len() ==> (#[trigger] self.insts@[i]) == old(
                                self,
                            ).insts@[i],
                        !has_assign(*ast) ==> scope@.assign == old(scope)@.assign,
                        scope@.parent == old(scope)@.parent,
                        forall|n: Seq<char>|
                            !(#[trigger] touches_name(*ast, n)) ==> find_entry(scope@.locals, n)
                                == find_entry(old(scope)@.locals, n) && find_entry(
                                scope@.assign,
                                n,
                            ) == find_entry(old(scope)@.assign, n),
                        !has_assign(*ast) ==> child_scope@.assign == Seq::<(
                            Seq<char>,
                            usize,
                        )>::empty(),
                        forall|n: Seq<char>|
                            !(#[trigger] touches_name(*ast, n)) ==> find_entry(
                                child_scope@.assign,
                                n,
                            ) is None,
                    decreases n - k,
                {
                    proof {
                        assert(decreases_to!(*ast => (*ast)->Block_0));
                        assert(decreases_to!((*ast)->Block_0 => (*ast)->Block_0@));
                        assert(decreases_to!((*ast)->Block_0@ => (*ast)->Block_0@[k as int]));
                        assert((*ast)->Block_0@[k as int] == nodes@[k as int]);
                        if !has_assign(*ast) {
                            assert(!has_assign((*ast)->Block_0@[k as int]));
                        }
                        assert forall|n: Seq<char>|
                            !(#[trigger] touches_name(*ast, n)) implies !touches_name(
                            (*ast)->Block_0@[k as int],
                            n,
                        ) by {}
                    }
                    let _ignored: usize = self.add(&nodes[k], &mut child_scope)?;
                    k = k + 1;
                }
                let child_vars: Vec<(String, usize)> = child_scope.assign;
                proof {
                    if !has_assign(*ast) {
                        assert(entries_view(child_vars@).len() == 0);
                    }
                }
                let m: usize = child_vars.len();
                let mut j: usize = 0;
                while j < m
                    invariant
                        j <= m,
                        m == child_vars@.len(),
                        !has_assign(*ast) ==> m == 0,
                        forall|n: Seq<char>|
                            !(#[trigger] touches_name(*ast, n)) ==> find_entry(
                                entries_view(child_vars@),
                                n,
                            ) is None,
                        !has_assign(*ast) ==> scope@.assign == old(scope)@.assign,
                        scope@.parent == old(scope)@.parent,
                        forall|n: Seq<char>|
                            !(#[trigger] touches_name(*ast, n)) ==> find_entry(scope@.locals, n)
                                == find_entry(old(scope)@.locals, n) && find_entry(
                                scope@.assign,
                                n,
                            ) == find_entry(old(scope)@.assign, n),
                    decreases m - j,
                {
                    let name: String = child_vars[j].0.clone();
                    let ghost s_pre = scope@;
                    scope.assign(name, child_vars[j].1);
                    proof {
                        assert forall|n: Seq<char>|
                            !(#[trigger] touches_name(*ast, n)) implies find_entry(
                            scope@.locals,
                            n,
                        ) == find_entry(s_pre.locals, n) && find_entry(scope@.assign, n)
                            == find_entry(s_pre.assign, n) by {
                            lemma_entry_has_key(entries_view(child_vars@), j as int);
                            lemma_upsert_other(
                                s_pre.locals,
                                child_vars@[j as int].0@,
                                child_vars@[j as int].1,
                                n,
                            );
                            lemma_upsert_other(
                                s_pre.assign,
                                child_vars@[j as int].0@,
                                child_vars@[j as int].1,
                                n,
                            );
                        }
                    }
                    j = j + 1;
                }
                Ok(NO_VALUE)
            },
            _ => {
                proof {
                    assert(false);
                }
                Err(BuildError::MalformedAst)
            },
        }
    }

    /// Lower an array literal: each element in order; the value is the
    /// first element's, and an empty literal is refused.
    #[verifier::rlimit(100)]
    #[verifier::spinoff_prover]
    fn add_array(&mut self, ast: &Ast, scope: &mut Scope) -> (r: Result<usize, BuildError>)
        requires
            old(self).consistent(),
            (*ast) is Array,
        ensures
            final(self).consistent(),
            final(self).num_vars >= old(self).num_vars,
            final(self).insts@.len() >= old(self).insts@.len(),
            final(self).blocks@.len() >= old(self).blocks@.len(),
            final(self).func_rets@ == old(self).func_rets@,
            forall|i: int|
                0 <= i < old(self).num_vars ==> final(self).var_type@[i] == old(self).var_type@[i],
            forall|b: int|
                0 <= b < old(self).block_params@.len() ==> (#[trigger] final(self).block_params@[
                    b
                ]) == old(self).block_params@[b],
            forall|b: int|
                0 <= b < old(self).blocks@.len() ==> (#[trigger] final(self).blocks@[b]) == old(
                    self,
                ).blocks@[b],
            forall|i: int|
                0 <= i < old(self).insts@.len() ==> (#[trigger] final(self).insts@[i]) == old(
                    self,
                ).insts@[i],
            !has_assign(*ast) ==> final(scope)@.assign == old(scope)@.assign,
            final(scope)@.parent == old(scope)@.parent,
            forall|n: Seq<char>|
                !(#[trigger] touches_name(*ast, n)) ==> find_entry(final(scope)@.locals, n)
                    == find_entry(old(scope)@.locals, n) && find_entry(final(scope)@.assign, n)
                    == find_entry(old(scope)@.assign, n),

        decreases *ast, 0int,
    {
        match ast {
            Ast::Array(nodes) => {
                let n: usize = nodes.len();
                let mut first: Option<usize> = None;
                let mut k: usize = 0;
                while k < n
                    invariant
                        k <= n,
                        *ast is Array,
                        (*ast)->Array_0 == *nodes,
                        n == nodes@.len(),
                        old(self).consistent(),
                        self.consistent(),
                        self.num_vars >= old(self).num_vars,
                        self.insts@.len() >= old(self).insts@.len(),
                        self.blocks@.len() >= old(self).blocks@.len(),
                        self.func_rets@ == old(self).func_rets@,
                        forall|i: int|
                            0 <= i < old(self).num_vars ==> self.var_type@[i] == old(self).var_type@[i],
                        forall|b: int|
                            0 <= b < old(self).block_params@.len() ==> (
                            #[trigger] self.block_params@[b]) == old(self).block_params@[b],
                        forall|b: int|
                            0 <= b < old(self).blocks@.len() ==> (#[trigger] self.blocks@[b])
                                == old(self).blocks@[b],
                        forall|i: int|
                            0 <= i < old(self).insts@.len() ==> (#[trigger] self.insts@[i]) == old(
                                self,
                            ).insts@[i],
                        !has_assign(*ast) ==> scope@.assign == old(scope)@.assign,
                        scope@.parent == old(scope)@.parent,
                        forall|n: Seq<char>|
                            !(#[trigger] touches_name(*ast, n)) ==> find_entry(scope@.locals, n)
                                == find_entry(old(scope)@.locals, n) && find_entry(
                                scope@.assign,
                                n,
                            ) == find_entry(old(scope)@.assign, n),
                    decreases n - k,
                {
                    proof {
                        assert(decreases_to!(*ast => (*ast)->Array_0));
                        assert(decreases_to!((*ast)->Array_0 => (*ast)->Array_0@));
                        assert(decreases_to!((*ast)->Array_0@ => (*ast)->Array_0@[k as int]));
                        assert((*ast)->Array_0@[k as int] == nodes@[k as int]);
                    }
                    proof {
                        if !has_assign(*ast) {
                            assert(!has_assign((*ast)->Array_0@[k as int]));
                        }
                        assert forall|n: Seq<char>|
                            !(#[trigger] touches_name(*ast, n)) implies !touches_name(
                            (*ast)->Array_0@[k as int],
                            n,
                        ) by {}
                    }
                    let reg: usize = self.add(&nodes[k], scope)?;
                    if k == 0 {
                        first = Some(reg);
                    }
                    k = k + 1;
                }
                match first {
                    Some(reg) => Ok(reg),
                    None => Err(BuildError::MalformedAst),
                }
            },
            _ => {
                proof {
                    assert(false);
                }
                Err(BuildError::MalformedAst)
            },
        }
    }

    /// Lower an `if`, building the phi parameters of its join block: one
    /// per name assigned in either arm, and one more for the value when
    /// both arms produce one; an `if` where only one arm produces a value
    /// is refused.
    #[verifier::rlimit(100)]
    #[verifier::spinoff_prover]
    fn add_if(&mut self, ast: &Ast, scope: &mut Scope) -> (r: Result<usize, BuildError>)
        requires
            old(self).consistent(),
            (*ast) is If,
        ensures
            final(self).consistent(),
            final(self).num_vars >= old(self).num_vars,
            final(self).insts@.len() >= old(self).insts@.len(),
            final(self).blocks@.len() >= old(self).blocks@.len(),
            final(self).func_rets@ == old(self).func_rets@,
            forall|i: int|
                0 <= i < old(self).num_vars ==> final(self).var_type@[i] == old(self).var_type@[i],
            forall|b: int|
                0 <= b < old(self).block_params@.len() ==> (#[trigger] final(self).block_params@[
                    b
                ]) == old(self).block_params@[b],
            forall|b: int|
                0 <= b < old(self).blocks@.len() ==> (#[trigger] final(self).blocks@[b]) == old(
                    self,
                ).blocks@[b],
            forall|i: int|
                0 <= i < old(self).insts@.len() ==> (#[trigger] final(self).insts@[i]) == old(
                    self,
                ).insts@[i],
            !has_assign(*ast) ==> final(scope)@.assign == old(scope)@.assign,
            final(scope)@.parent == old(scope)@.parent,
            forall|n: Seq<char>|
                !(#[trigger] touches_name(*ast, n)) ==> find_entry(final(scope)@.locals, n)
                    == find_entry(old(scope)@.locals, n) && find_entry(final(scope)@.assign, n)
                    == find_entry(old(scope)@.assign, n),
            r matches Ok(v) ==> v == NO_VALUE || v < final(self).num_vars,
            !has_assign(*ast) && r == Ok::<usize, BuildError>(NO_VALUE)
                ==> final(self).block_params@[old(self).blocks@.len() as int + 2].1 == 0,
            *ast matches Ast::If(_c, _a, e) && (*e) is Block ==> (r matches Ok(v) ==> v
                == NO_VALUE),
            never_yields(*ast) ==> (r matches Ok(v) ==> v == NO_VALUE),
            def_yields(*ast) ==> (r matches Ok(v) ==> v != NO_VALUE),
            *ast matches Ast::If(_c2, a2, e2) && (def_yields(*a2) && never_yields(*e2)
                || never_yields(*a2) && def_yields(*e2)) ==> r is Err,
            r matches Ok(v) ==> v == NO_VALUE || (final(self).block_params@[
                old(self).blocks@.len() as int + 2
            ].1 >= 1 && v == final(self).block_params@[old(self).blocks@.len() as int + 2].0
                + final(self).block_params@[old(self).blocks@.len() as int + 2].1 - 1),
        decreases *ast, 0int,
    {
        match ast {
            Ast::If(cond, a, b) => {
            proof {
                assert forall|n: Seq<char>|
                    !(#[trigger] touches_name(*ast, n)) implies !touches_name(**cond, n)
                        && !touches_name(**a, n) && !touches_name(**b, n) by {}
            }
            let then_block: usize = self.new_block();
            let else_block: usize = self.new_block();
            let out_block: usize = self.new_block();
            let cond_v: usize = self.add(cond, scope)?;
            self.add_branch(cond_v, then_block, else_block)?;
            let branched = scope.branch();
            let mut a_scope = branched.0;
            let mut b_scope = branched.1;
            self.add_label(then_block);
            let a_ret: usize = self.add(a, &mut a_scope)?;
            let a_jump: usize = self.add_jump(out_block);
            self.add_label(else_block);
            let b_ret: usize = self.add(b, &mut b_scope)?;
            let b_jump: usize = self.add_jump(out_block);
            self.add_label(out_block);
            let a_vars: Vec<(String, usize)> = a_scope.assign;
            let b_vars: Vec<(String, usize)> = b_scope.assign;
            let nv: usize = self.num_vars;
            self.set_first_param(out_block, nv);
            // One phi parameter per name assigned in either arm: first
            // the names the then arm assigned, in insertion order, then
            // those only the else arm assigned.  The arm that did not
            // assign a name passes the outer variable through.
            let an: usize = a_vars.len();
            let mut k: usize = 0;
            while k < an
                invariant
                    (*ast) is If,
                    k <= an,
                    an == a_vars@.len(),
                    forall|n: Seq<char>|
                        !(#[trigger] touches_name(*ast, n)) ==> find_entry(
                            entries_view(a_vars@),
                            n,
                        ) is None,
                    !has_assign(*ast) ==> an == 0,
                    old(self).consistent(),
                    self.consistent(),
                    out_block == old(self).blocks@.len() + 2,
                    !has_assign(*ast) ==> self.block_params@[out_block as int].1 == 0,
                    self.block_params@[out_block as int].0 == nv,
                    self.num_vars == nv + self.block_params@[out_block as int].1,
                    out_block < self.blocks@.len(),
                    a_jump < self.insts@.len(),
                    b_jump < self.insts@.len(),
                    a_jump >= old(self).insts@.len(),
                    b_jump >= old(self).insts@.len(),
                    self.num_vars >= old(self).num_vars,
                    self.insts@.len() >= old(self).insts@.len(),
                    self.blocks@.len() >= old(self).blocks@.len(),
                    self.func_rets@ == old(self).func_rets@,
                    forall|i: int|
                        0 <= i < old(self).num_vars ==> self.var_type@[i] == old(self).var_type@[i],
                    forall|b: int|
                        0 <= b < old(self).block_params@.len() ==> (
                        #[trigger] self.block_params@[b]) == old(self).block_params@[b],
                    forall|b: int|
                        0 <= b < old(self).blocks@.len() ==> (#[trigger] self.blocks@[b]) == old(
                            self,
                        ).blocks@[b],
                    forall|i: int|
                        0 <= i < old(self).insts@.len() ==> (#[trigger] self.insts@[i]) == old(
                            self,
                        ).insts@[i],
                    !has_assign(*ast) ==> scope@.assign == old(scope)@.assign,
                    scope@.parent == old(scope)@.parent,
                    forall|n: Seq<char>|
                        !(#[trigger] touches_name(*ast, n)) ==> find_entry(scope@.locals, n)
                            == find_entry(old(scope)@.locals, n) && find_entry(scope@.assign, n)
                            == find_entry(old(scope)@.assign, n),
                decreases an - k,
            {
                let a_val: usize = a_vars[k].1;
                let outer: usize = match scope.get(a_vars[k].0.as_str()) {
                    Some(v) => v,
                    None => {
                        return Err(BuildError::UndeclaredName);
                    },
                };
                if outer >= self.var_type.len() {
                    return Err(BuildError::TypeMismatch);
                }
                let t: TypeDef = self.var_type[outer];
                self.add_arg_to_jump(a_jump, a_val);
                let from_b: usize = match find_in(&b_vars, a_vars[k].0.as_str()) {
                    Some(v) => v,
                    None => outer,
                };
                self.add_arg_to_jump(b_jump, from_b);
                let p: usize = self.add_param_to_block(out_block, t);
                let name: String = a_vars[k].0.clone();
                let ghost s_pre = scope@;
                scope.assign(name, p);
                proof {
                    assert forall|n: Seq<char>|
                        !(#[trigger] touches_name(*ast, n)) implies find_entry(
                        scope@.locals,
                        n,
                    ) == find_entry(s_pre.locals, n) && find_entry(scope@.assign, n)
                        == find_entry(s_pre.assign, n) by {
                        lemma_entry_has_key(entries_view(a_vars@), k as int);
                        lemma_upsert_other(s_pre.locals, a_vars@[k as int].0@, p, n);
                        lemma_upsert_other(s_pre.assign, a_vars@[k as int].0@, p, n);
                    }
                }
                k = k + 1;
            }
            let bn: usize = b_vars.len();
            let mut k2: usize = 0;
            while k2 < bn
                invariant
                    (*ast) is If,
                    k2 <= bn,
                    bn == b_vars@.len(),
                    forall|n: Seq<char>|
                        !(#[trigger] touches_name(*ast, n)) ==> find_entry(
                            entries_view(b_vars@),
                            n,
                        ) is None,
                    !has_assign(*ast) ==> bn == 0,
                    old(self).consistent(),
                    self.consistent(),
                    out_block == old(self).blocks@.len() + 2,
                    !has_assign(*ast) ==> self.block_params@[out_block as int].1 == 0,
                    self.block_params@[out_block as int].0 == nv,
                    self.num_vars == nv + self.block_params@[out_block as int].1,
                    out_block < self.blocks@.len(),
                    a_jump < self.insts@.len(),
                    b_jump < self.insts@.len(),
                    a_jump >= old(self).insts@.len(),
                    b_jump >= old(self).insts@.len(),
                    self.num_vars >= old(self).num_vars,
                    self.insts@.len() >= old(self).insts@.len(),
                    self.blocks@.len() >= old(self).blocks@.len(),
                    self.func_rets@ == old(self).func_rets@,
                    forall|i: int|
                        0 <= i < old(self).num_vars ==> self.var_type@[i] == old(self).var_type@[i],
                    forall|b: int|
                        0 <= b < old(self).block_params@.len() ==> (
                        #[trigger] self.block_params@[b]) == old(self).block_params@[b],
                    forall|b: int|
                        0 <= b < old(self).blocks@.len() ==> (#[trigger] self.blocks@[b]) == old(
                            self,
                        ).blocks@[b],
                    forall|i: int|
                        0 <= i < old(self).insts@.len() ==> (#[trigger] self.insts@[i]) == old(
                            self,
                        ).insts@[i],
                    !has_assign(*ast) ==> scope@.assign == old(scope)@.assign,
                    scope@.parent == old(scope)@.parent,
                    forall|n: Seq<char>|
                        !(#[trigger] touches_name(*ast, n)) ==> find_entry(scope@.locals, n)
                            == find_entry(old(scope)@.locals, n) && find_entry(scope@.assign, n)
                            == find_entry(old(scope)@.assign, n),
                decreases bn - k2,
            {
                let seen: bool = match find_in(&a_vars, b_vars[k2].0.as_str()) {
                    Some(_) => true,
                    None => false,
                };
                if !seen {
                    let b_val: usize = b_vars[k2].1;
                    let outer: usize = match scope.get(b_vars[k2].0.as_str()) {
                        Some(v) => v,
                        None => {
                            return Err(BuildError::UndeclaredName);
                        },
                    };
                    if outer >= self.var_type.len() {
                        return Err(BuildError::TypeMismatch);
                    }
                    let t: TypeDef = self.var_type[outer];
                    self.add_arg_to_jump(a_jump, outer);
                    self.add_arg_to_jump(b_jump, b_val);
                    let p: usize = self.add_param_to_block(out_block, t);
                    let name: String = b_vars[k2].0.clone();
                    let ghost s_pre = scope@;
                    scope.assign(name, p);
                    proof {
                        assert forall|n: Seq<char>|
                            !(#[trigger] touches_name(*ast, n)) implies find_entry(
                            scope@.locals,
                            n,
                        ) == find_entry(s_pre.locals, n) && find_entry(scope@.assign, n)
                            == find_entry(s_pre.assign, n) by {
                            lemma_entry_has_key(entries_view(b_vars@), k2 as int);
                            lemma_upsert_other(s_pre.locals, b_vars@[k2 as int].0@, p, n);
                            lemma_upsert_other(s_pre.assign, b_vars@[k2 as int].0@, p, n);
                        }
                    }
                }
                k2 = k2 + 1;
            }
            if a_ret != NO_VALUE && b_ret != NO_VALUE {
                if a_ret >= self.var_type.len() {
                    return Err(BuildError::TypeMismatch);
                }
                let t: TypeDef = self.var_type[a_ret];
                self.add_arg_to_jump(a_jump, a_ret);
                self.add_arg_to_jump(b_jump, b_ret);
                Ok(self.add_param_to_block(out_block, t))
            } else if a_ret == NO_VALUE && b_ret == NO_VALUE {
                Ok(NO_VALUE)
            } else {
                // Only one arm produced a value; such an `if` has no
                // type and the tree is refused.
                Err(BuildError::TypeMismatch)
            }
            },
            _ => {
                proof {
                    assert(false);
                }
                Err(BuildError::MalformedAst)
            },
        }
    }

    /// Lower a `while`, building the phi parameters of its condition
    /// block: one per outer name the body assigns, rewriting the uses in
    /// the loop to the parameter.  A loop produces no value.
    #[verifier::rlimit(100)]
    #[verifier::spinoff_prover]
    fn add_while(&mut self, ast: &Ast, scope: &mut Scope) -> (r: Result<usize, BuildError>)
        requires
            old(self).consistent(),
            (*ast) is While,
        ensures
            final(self).consistent(),
            final(self).num_vars >= old(self).num_vars,
            final(self).insts@.len() >= old(self).insts@.len(),
            final(self).blocks@.len() >= old(self).blocks@.len(),
            final(self).func_rets@ == old(self).func_rets@,
            forall|i: int|
                0 <= i < old(self).num_vars ==> final(self).var_type@[i] == old(self).var_type@[i],
            forall|b: int|
                0 <= b < old(self).block_params@.len() ==> (#[trigger] final(self).block_params@[
                    b
                ]) == old(self).block_params@[b],
            forall|b: int|
                0 <= b < old(self).blocks@.len() ==> (#[trigger] final(self).blocks@[b]) == old(
                    self,
                ).blocks@[b],
            forall|i: int|
                0 <= i < old(self).insts@.len() ==> (#[trigger] final(self).insts@[i]) == old(
                    self,
                ).insts@[i],
            !has_assign(*ast) ==> final(scope)@.assign == old(scope)@.assign,
            final(scope)@.parent == old(scope)@.parent,
            forall|n: Seq<char>|
                !(#[trigger] touches_name(*ast, n)) ==> find_entry(final(scope)@.locals, n)
                    == find_entry(old(scope)@.locals, n) && find_entry(final(scope)@.assign, n)
                    == find_entry(old(scope)@.assign, n),
            r matches Ok(v) ==> v == NO_VALUE,
            !has_assign(*ast) && r is Ok ==> final(self).block_params@[
                old(self).blocks@.len() as int
            ].1 == 0,
        decreases *ast, 0int,
    {
        match ast {
            Ast::While(cond, body) => {
            proof {
                assert forall|n: Seq<char>|
                    !(#[trigger] touches_name(*ast, n)) implies !touches_name(**cond, n)
                        && !touches_name(**body, n) by {}
            }
            let cond_block: usize = self.new_block();
            let body_block: usize = self.new_block();
            let out_block: usize = self.new_block();
            let entry_jump: usize = self.add_jump(cond_block);
            self.add_label(cond_block);
            let cond_v: usize = self.add(cond, scope)?;
            self.add_branch(cond_v, body_block, out_block)?;
            let mut body_scope = scope.child();
            self.add_label(body_block);
            let _body_ret: usize = self.add(body, &mut body_scope)?;
            let body_jump: usize = self.add_jump(cond_block);
            let body_vars: Vec<(String, usize)> = body_scope.assign;
            let nv: usize = self.num_vars;
            self.set_first_param(cond_block, nv);
            let bn: usize = body_vars.len();
            let mut k: usize = 0;
            while k < bn
                invariant
                    (*ast) is While,
                    k <= bn,
                    bn == body_vars@.len(),
                    forall|n: Seq<char>|
                        !(#[trigger] touches_name(*ast, n)) ==> find_entry(
                            entries_view(body_vars@),
                            n,
                        ) is None,
                    !has_assign(*ast) ==> bn == 0,
                    old(self).consistent(),
                    self.consistent(),
                    cond_block == old(self).blocks@.len(),
                    !has_assign(*ast) ==> self.block_params@[cond_block as int].1 == 0,
                    cond_block < self.blocks@.len(),
                    out_block < self.blocks@.len(),
                    entry_jump < self.insts@.len(),
                    body_jump < self.insts@.len(),
                    entry_jump >= old(self).insts@.len(),
                    body_jump >= old(self).insts@.len(),
                    self.blocks@[cond_block as int] >= old(self).insts@.len(),
                    self.num_vars >= old(self).num_vars,
                    self.insts@.len() >= old(self).insts@.len(),
                    self.blocks@.len() >= old(self).blocks@.len(),
                    self.func_rets@ == old(self).func_rets@,
                    forall|i: int|
                        0 <= i < old(self).num_vars ==> self.var_type@[i] == old(self).var_type@[i],
                    forall|b: int|
                        0 <= b < old(self).block_params@.len() ==> (
                        #[trigger] self.block_params@[b]) == old(self).block_params@[b],
                    forall|b: int|
                        0 <= b < old(self).blocks@.len() ==> (#[trigger] self.blocks@[b]) == old(
                            self,
                        ).blocks@[b],
                    forall|i: int|
                        0 <= i < old(self).insts@.len() ==> (#[trigger] self.insts@[i]) == old(
                            self,
                        ).insts@[i],
                    !has_assign(*ast) ==> scope@.assign == old(scope)@.assign,
                    scope@.parent == old(scope)@.parent,
                    forall|n: Seq<char>|
                        !(#[trigger] touches_name(*ast, n)) ==> find_entry(scope@.locals, n)
                            == find_entry(old(scope)@.locals, n) && find_entry(scope@.assign, n)
                            == find_entry(old(scope)@.assign, n),
                decreases bn - k,
            {
                let arg: usize = body_vars[k].1;
                let old_v: usize = match scope.get(body_vars[k].0.as_str()) {
                    Some(v) => v,
                    None => {
                        return Err(BuildError::UndeclaredName);
                    },
                };
                if old_v >= self.var_type.len() {
                    return Err(BuildError::TypeMismatch);
                }
                let t: TypeDef = self.var_type[old_v];
                let new_v: usize = self.add_param_to_block(cond_block, t);
                self.add_arg_to_jump(entry_jump, old_v);
                self.add_arg_to_jump(body_jump, arg);
                let name: String = body_vars[k].0.clone();
                let ghost s_pre = scope@;
                scope.assign(name, new_v);
                proof {
                    assert forall|n: Seq<char>|
                        !(#[trigger] touches_name(*ast, n)) implies find_entry(
                        scope@.locals,
                        n,
                    ) == find_entry(s_pre.locals, n) && find_entry(scope@.assign, n)
                        == find_entry(s_pre.assign, n) by {
                        lemma_entry_has_key(entries_view(body_vars@), k as int);
                        lemma_upsert_other(s_pre.locals, body_vars@[k as int].0@, new_v, n);
                        lemma_upsert_other(s_pre.assign, body_vars@[k as int].0@, new_v, n);
                    }
                }
                self.update(cond_block, old_v, new_v);
                k = k + 1;
            }
            self.add_label(out_block);
            Ok(NO_VALUE)
            },
            _ => {
                proof {
                    assert(false);
                }
                Err(BuildError::MalformedAst)
            },
        }
    }

    #[verifier::rlimit(100)]
    #[verifier::spinoff_prover]
    pub fn add(&mut self, ast: &Ast, scope: &mut Scope) -> (r: Result<usize, BuildError>)
        requires
            old(self).consistent(),
        ensures
            final(self).consistent(),
            final(self).num_vars >= old(self).num_vars,
            final(self).insts@.len() >= old(self).insts@.len(),
            final(self).blocks@.len() >= old(self).blocks@.len(),
            final(self).func_rets@ == old(self).func_rets@,
            forall|i: int|
                0 <= i < old(self).num_vars ==> final(self).var_type@[i] == old(self).var_type@[i],
            forall|b: int|
                0 <= b < old(self).block_params@.len() ==> (#[trigger] final(self).block_params@[
                    b
                ]) == old(self).block_params@[b],
            forall|b: int|
                0 <= b < old(self).blocks@.len() ==> (#[trigger] final(self).blocks@[b]) == old(
                    self,
                ).blocks@[b],
            forall|i: int|
                0 <= i < old(self).insts@.len() ==> (#[trigger] final(self).insts@[i]) == old(
                    self,
                ).insts@[i],
            !has_assign(*ast) ==> final(scope)@.assign == old(scope)@.assign,
            final(scope)@.parent == old(scope)@.parent,
            forall|n: Seq<char>|
                !(#[trigger] touches_name(*ast, n)) ==> find_entry(final(scope)@.locals, n)
                    == find_entry(old(scope)@.locals, n) && find_entry(final(scope)@.assign, n)
                    == find_entry(old(scope)@.assign, n),
            *ast matches Ast::I32(num) ==> {
                &&& r == Ok::<usize, BuildError>(old(self).num_vars)
                &&& final(self).num_vars == old(self).num_vars + 1
                &&& final(self).var_type@ == old(self).var_type@.push(TypeDef::I32)
                &&& final(self).insts@.len() == old(self).insts@.len() + 1
                &&& final(self).insts@.last() matches Inst::Const(d, val) && d == old(self).num_vars
                    && val.wf() && val@ == ValueModel::I32(num)
            },
            *ast matches Ast::F64(bits) ==> {
                &&& r == Ok::<usize, BuildError>(old(self).num_vars)
                &&& final(self).num_vars == old(self).num_vars + 1
                &&& final(self).var_type@ == old(self).var_type@.push(TypeDef::F64)
                &&& final(self).insts@.len() == old(self).insts@.len() + 1
                &&& final(self).insts@.last() matches Inst::Const(d, val) && d == old(self).num_vars
                    && val.wf() && val@ == ValueModel::F64(bits)
            },
            *ast matches Ast::Bool(truth) ==> {
                &&& r == Ok::<usize, BuildError>(old(self).num_vars)
                &&& final(self).num_vars == old(self).num_vars + 1
                &&& final(self).var_type@ == old(self).var_type@.push(TypeDef::Bool)
                &&& final(self).insts@.len() == old(self).insts@.len() + 1
                &&& final(self).insts@.last() matches Inst::Const(d, val) && d == old(self).num_vars
                    && val.wf() && val@ == ValueModel::Bool(truth)
            },
            *ast matches Ast::Ident(name) ==> {
                &&& *final(self) == *old(self)
                &&& final(scope)@ == old(scope)@
                &&& r == match sv_get(old(scope)@, name@) {
                    Some(v) => Ok::<usize, BuildError>(v),
                    None => Err::<usize, BuildError>(BuildError::UndeclaredName),
                }
            },
            ((*ast) is Eq || (*ast) is Ne || (*ast) is Lt || (*ast) is Le || (*ast) is Gt
                || (*ast) is Ge) ==> (r matches Ok(v) ==> v < final(self).num_vars
                && final(self).var_type@[v as int] == TypeDef::Bool),
            ((*ast) is Add || (*ast) is Sub || (*ast) is Mul || (*ast) is Div
                || (*ast) is Negative) ==> (r matches Ok(v) ==> v < final(self).num_vars
                && (final(self).var_type@[v as int] == TypeDef::I32
                    || final(self).var_type@[v as int] == TypeDef::F64)),
            (*ast) is While ==> (r matches Ok(v) ==> v == NO_VALUE),
            (*ast) is Block ==> (r matches Ok(v) ==> v == NO_VALUE),
            (*ast) is If ==> (r matches Ok(v) ==> v == NO_VALUE || v < final(self).num_vars),
            never_yields(*ast) ==> (r matches Ok(v) ==> v == NO_VALUE),
            def_yields(*ast) ==> (r matches Ok(v) ==> v != NO_VALUE && v < final(self).num_vars),
            *ast matches Ast::If(_c2, a2, e2) && (def_yields(*a2) && never_yields(*e2)
                || never_yields(*a2) && def_yields(*e2)) ==> r is Err,
            ((*ast) is Add || (*ast) is Sub || (*ast) is Mul || (*ast) is Div) ==> (r matches Ok(v)
                ==> (final(self).insts@.last() matches Inst::Op(d, _o, la, _rb) && d == v
                    && la < final(self).num_vars
                    && final(self).var_type@[v as int] == final(self).var_type@[la as int])),
            (*ast) is Negative ==> (r matches Ok(v) ==> (final(self).insts@.last() matches
                Inst::UOp(d, o, la) && d == v && o == UOp::Neg && la < final(self).num_vars
                && final(self).var_type@[v as int] == final(self).var_type@[la as int])),
            (*ast) is If ==> (r matches Ok(v) ==> v == NO_VALUE || (final(self).block_params@[
                old(self).blocks@.len() as int + 2
            ].1 >= 1 && v == final(self).block_params@[old(self).blocks@.len() as int + 2].0
                + final(self).block_params@[old(self).blocks@.len() as int + 2].1 - 1)),
            (*ast) is FuncCall ==> (r matches Ok(v) ==> v < final(self).num_vars
                && (final(self).insts@.last() matches Inst::Call(d, fid, _) && d == v
                    && fid < old(self).func_rets@.len()
                    && final(self).var_type@[v as int] == old(self).func_rets@[fid as int])),
            (*ast) is Return ==> (r is Ok ==> final(self).insts@.len() > old(self).insts@.len()
                && final(self).insts@.last() is Return),
            (*ast) is While && !has_assign(*ast) && r is Ok ==> final(self).block_params@[
                old(self).blocks@.len() as int
            ].1 == 0,
            (*ast) is If && !has_assign(*ast) && r == Ok::<usize, BuildError>(NO_VALUE)
                ==> final(self).block_params@[old(self).blocks@.len() as int + 2].1 == 0,
            *ast matches Ast::If(_c, _a, e) && (*e) is Block ==> (r matches Ok(v) ==> v
                == NO_VALUE),
        decreases *ast, 1int,
    {
        match ast {
            Ast::FuncDef(..) => Err(BuildError::MalformedAst),
            Ast::Error => Err(BuildError::MalformedAst),
            Ast::I32(num) => Ok(self.add_consts(Value::i32(*num))),
            Ast::F64(bits) => Ok(self.add_consts(Value::f64_from_bits(*bits))),
            Ast::Bool(val) => Ok(self.add_consts(Value::bool(*val))),
            Ast::Add(..) | Ast::Sub(..) | Ast::Mul(..) | Ast::Div(..) | Ast::Eq(..) | Ast::Ne(..)
                | Ast::Lt(..) | Ast::Le(..) | Ast::Gt(..) | Ast::Ge(..) => self.add_pair(
                ast,
                scope,
            ),
            Ast::Negative(val) => {
                proof {
                    assert forall|n: Seq<char>|
                        !(#[trigger] touches_name(*ast, n)) implies !touches_name(**val, n) by {}
                }
                let v: usize = self.add(val, scope)?;
                self.add_uop(UOp::Neg, v)
            },
            Ast::Ident(name) => match scope.get(name.as_str()) {
                Some(v) => Ok(v),
                None => Err(BuildError::UndeclaredName),
            },
            Ast::Declair(name, node) => {
                proof {
                    assert forall|n: Seq<char>|
                        !(#[trigger] touches_name(*ast, n)) implies !touches_name(**node, n) by {}
                }
                let var: usize = self.add(node, scope)?;
                let ghost s_mid = scope@;
                scope.declair(name.clone(), var);
                proof {
                    assert forall|n: Seq<char>|
                        !(#[trigger] touches_name(*ast, n)) implies find_entry(
                        scope@.locals,
                        n,
                    ) == find_entry(s_mid.locals, n) by {
                        lemma_upsert_other(s_mid.locals, name@, var, n);
                    }
                }
                Ok(var)
            },
            Ast::Assign(name, node) => {
                proof {
                    assert forall|n: Seq<char>|
                        !(#[trigger] touches_name(*ast, n)) implies !touches_name(**node, n) by {}
                }
                let var: usize = self.add(node, scope)?;
                let ghost s_mid = scope@;
                scope.assign(name.clone(), var);
                proof {
                    assert forall|n: Seq<char>|
                        !(#[trigger] touches_name(*ast, n)) implies find_entry(
                        scope@.locals,
                        n,
                    ) == find_entry(s_mid.locals, n) && find_entry(scope@.assign, n)
                        == find_entry(s_mid.assign, n) by {
                        lemma_upsert_other(s_mid.locals, name@, var, n);
                        lemma_upsert_other(s_mid.assign, name@, var, n);
                    }
                }
                Ok(var)
            },
            Ast::Return(node) => {
                proof {
                    assert forall|n: Seq<char>|
                        !(#[trigger] touches_name(*ast, n)) implies !touches_name(**node, n) by {}
                }
                let reg: usize = self.add(node, scope)?;
                self.insts.push(Inst::Return(reg));
                Ok(0)
            },
            Ast::FuncCall(..) => self.add_call(ast, scope),
            Ast::Block(..) => self.add_stmts(ast, scope),
            Ast::Array(..) => self.add_array(ast, scope),
            Ast::If(..) => self.add_if(ast, scope),
            Ast::While(..) => self.add_while(ast, scope),
        }
    }
}

/// A lowered function: its name, arity, return type and body arena.
#[derive(Debug)]
pub struct Func {
    pub name: String,
    pub num_params: usize,
    pub return_type: TypeDef,
    pub ir: Blocks,
}

impl Func {
    /// The type of a variable of this function.
    pub fn get_var_type(&self, var: usize) -> (t: TypeDef)
        requires
            var < self.ir.var_type@.len(),
        ensures
            t == self.ir.var_type@[var as int],
    {
        self.ir.var_type[var]
    }
}

} // verus!
