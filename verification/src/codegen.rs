//! The code generator: lowering a syntax tree into a block-structured
//! intermediate representation.
//!
//! A function is lowered into basic blocks of three-address instructions
//! over 32-bit integer values and 32-bit stack slots.  Block 0 is the entry
//! block; block 1 is the single shared return block, which every `return`
//! and every return-terminated branch reaches, and whose terminator loads
//! and returns the shared return slot (slot 0).  A value is named by the
//! position of the instruction that produced it.
//!
//! The whole lowering is defined once as specification functions over tree
//! views; the executable code generator is proved to produce exactly that
//! module.  Lowering errors are surfaced as values: an empty program, a
//! reference to an undeclared name, or a statement form used where a value
//! is required.

use vstd::prelude::*;

use crate::ast::{
    Arg, ArgV, Expr, ExprV, Function, FunctionV, Program, ProgramV, Type, view_expr,
    view_expr_seq, view_function, view_function_seq, view_program, view_arg_seq,
    lemma_view_expr_seq,
};
use crate::constants::Op;

verus! {

/// The name of a value: the position of the instruction that produced it.
#[derive(Debug, Clone, Copy, PartialEq, Eq, Structural)]
pub struct ValId {
    pub block: usize,
    pub instr: usize,
}

/// One three-address instruction.
#[derive(Debug, Clone, Copy, PartialEq, Eq, Structural)]
pub enum Instr {
    /// A 32-bit constant.
    Const { value: u32 },
    /// A binary arithmetic, comparison or bitwise operation.
    BinOp { op: Op, lhs: ValId, rhs: ValId },
    /// Load the current value of a stack slot.
    Load { slot: usize },
    /// Store a value into a stack slot.
    Store { slot: usize, src: ValId },
    /// Load through a value treated as a raw 32-bit-aligned address.
    LoadAddr { addr: ValId },
    /// The incoming value of the function parameter at `index`.
    Param { index: usize },
}

/// A block terminator.
#[derive(Debug, Clone, Copy, PartialEq, Eq, Structural)]
pub enum Terminator {
    /// An unconditional branch.
    Br { target: usize },
    /// A conditional branch on a value.
    CondBr { cond: ValId, then_target: usize, else_target: usize },
    /// Load the given slot and return it.
    Ret { slot: usize },
}

/// A basic block: instructions and, once the block is finished, a
/// terminator.
#[derive(Debug, PartialEq)]
pub struct Block {
    pub instrs: Vec<Instr>,
    pub term: Option<Terminator>,
}

/// A lowered function: its name, signature, stack-slot types (slot 0 is the
/// shared return slot), and basic blocks (block 0 the entry, block 1 the
/// shared return block).
#[derive(Debug, PartialEq)]
pub struct IrFunction {
    pub name: String,
    pub ret_type: Type,
    pub params: Vec<Arg>,
    pub slots: Vec<Type>,
    pub blocks: Vec<Block>,
}

/// A lowered program.
#[derive(Debug, PartialEq)]
pub struct Module {
    pub functions: Vec<IrFunction>,
}

/// A lowering failure, surfaced as a value.
#[derive(Debug, PartialEq)]
pub enum LowerError {
    /// The program contains no functions.
    NoFunctions,
    /// A variable was referenced or assigned without a declaration or
    /// parameter of that name.
    Undeclared { name: String },
    /// A statement form was used where a value is required.
    VoidOperand,
}

/// One binding of the flat per-function symbol table.
#[derive(Debug, PartialEq)]
pub struct Local {
    pub name: String,
    pub slot: usize,
}

/// The mathematical view of a [`Block`].
#[verifier::ext_equal]
pub struct BlockV {
    pub instrs: Seq<Instr>,
    pub term: Option<Terminator>,
}

/// The mathematical view of an [`IrFunction`].
#[verifier::ext_equal]
pub struct IrFunctionV {
    pub name: Seq<char>,
    pub ret_type: Type,
    pub params: Seq<ArgV>,
    pub slots: Seq<Type>,
    pub blocks: Seq<BlockV>,
}

/// The mathematical view of a [`Module`].
#[verifier::ext_equal]
pub struct ModuleV {
    pub functions: Seq<IrFunctionV>,
}

/// The mathematical view of a [`LowerError`].
pub enum LowerErrorV {
    NoFunctions,
    Undeclared { name: Seq<char> },
    VoidOperand,
}

/// The mathematical view of a [`Local`].
pub struct LocalV {
    pub name: Seq<char>,
    pub slot: usize,
}

pub open spec fn view_block(b: Block) -> BlockV {
    BlockV { instrs: b.instrs@, term: b.term }
}

pub open spec fn view_block_seq(s: Seq<Block>) -> Seq<BlockV> {
    Seq::new(s.len(), |i: int| view_block(s[i]))
}

pub open spec fn view_ir_function(f: IrFunction) -> IrFunctionV {
    IrFunctionV {
        name: f.name@,
        ret_type: f.ret_type,
        params: view_arg_seq(f.params@),
        slots: f.slots@,
        blocks: view_block_seq(f.blocks@),
    }
}

pub open spec fn view_ir_function_seq(s: Seq<IrFunction>) -> Seq<IrFunctionV> {
    Seq::new(s.len(), |i: int| view_ir_function(s[i]))
}

pub open spec fn view_module(m: Module) -> ModuleV {
    ModuleV { functions: view_ir_function_seq(m.functions@) }
}

pub open spec fn view_lower_error(e: LowerError) -> LowerErrorV {
    match e {
        LowerError::NoFunctions => LowerErrorV::NoFunctions,
        LowerError::Undeclared { name } => LowerErrorV::Undeclared { name: name@ },
        LowerError::VoidOperand => LowerErrorV::VoidOperand,
    }
}

pub open spec fn view_local(l: Local) -> LocalV {
    LocalV { name: l.name@, slot: l.slot }
}

pub open spec fn view_local_seq(s: Seq<Local>) -> Seq<LocalV> {
    Seq::new(s.len(), |i: int| view_local(s[i]))
}

impl View for Block {
    type V = BlockV;

    open spec fn view(&self) -> BlockV {
        view_block(*self)
    }
}

impl View for IrFunction {
    type V = IrFunctionV;

    open spec fn view(&self) -> IrFunctionV {
        view_ir_function(*self)
    }
}

impl View for Module {
    type V = ModuleV;

    open spec fn view(&self) -> ModuleV {
        view_module(*self)
    }
}

impl View for LowerError {
    type V = LowerErrorV;

    open spec fn view(&self) -> LowerErrorV {
        view_lower_error(*self)
    }
}

/// The shared return slot of every function.
pub const RET_SLOT: usize = 0;

/// The shared return block of every function.
pub const RET_BLOCK: usize = 1;

/// The state of the lowering of one function: the blocks and stack slots
/// built so far, the flat symbol table, and the current insertion block.
#[verifier::ext_equal]
pub struct CtxV {
    pub blocks: Seq<BlockV>,
    pub slots: Seq<Type>,
    pub locals: Seq<LocalV>,
    pub cur: usize,
}

/// The current insertion block exists.
pub open spec fn ctx_wf(c: CtxV) -> bool {
    c.cur < c.blocks.len()
}

/// Look a name up in the flat symbol table: the latest binding wins.
pub open spec fn lookup_local(locals: Seq<LocalV>, name: Seq<char>) -> Option<usize>
    decreases locals.len(),
{
    if locals.len() == 0 {
        None
    } else if locals.last().name == name {
        Some(locals.last().slot)
    } else {
        lookup_local(locals.drop_last(), name)
    }
}

/// Append an instruction to the current block; the new value's name is its
/// position.
pub open spec fn spec_emit(c: CtxV, ins: Instr) -> (CtxV, ValId) {
    let b = c.blocks[c.cur as int];
    let v = ValId { block: c.cur, instr: b.instrs.len() as usize };
    (
        CtxV {
            blocks: c.blocks.update(c.cur as int, BlockV { instrs: b.instrs.push(ins), term: b.term }),
            ..c
        },
        v,
    )
}

/// Finish the current block with a terminator.
pub open spec fn spec_terminate(c: CtxV, t: Terminator) -> CtxV {
    let b = c.blocks[c.cur as int];
    CtxV { blocks: c.blocks.update(c.cur as int, BlockV { instrs: b.instrs, term: Some(t) }), ..c }
}

/// Finish the block `bi` with a terminator.
pub open spec fn spec_set_term(c: CtxV, bi: usize, t: Terminator) -> CtxV {
    let b = c.blocks[bi as int];
    CtxV { blocks: c.blocks.update(bi as int, BlockV { instrs: b.instrs, term: Some(t) }), ..c }
}

/// Append a fresh empty block; its name is its position.
pub open spec fn spec_new_block(c: CtxV) -> (CtxV, usize) {
    (
        CtxV { blocks: c.blocks.push(BlockV { instrs: Seq::empty(), term: None }), ..c },
        c.blocks.len() as usize,
    )
}

/// Lower one expression or statement in the current block.  The result is
/// the new state and the value the expression produced, if it produced one:
/// `return`, conditionals and declarations produce no value.
pub open spec fn spec_lower_expr(e: ExprV, c: CtxV) -> Result<
    (CtxV, Option<ValId>),
    LowerErrorV,
>
    decreases e,
{
    match e {
        ExprV::Int { value } => {
            let (c1, v) = spec_emit(c, Instr::Const { value });
            Ok((c1, Some(v)))
        },
        ExprV::BinOp { lhs, rhs, op } => match spec_lower_expr(*lhs, c) {
            Err(er) => Err(er),
            Ok((c1, lv)) => match spec_lower_expr(*rhs, c1) {
                Err(er) => Err(er),
                Ok((c2, rv)) => match (lv, rv) {
                    (Some(l), Some(rr)) => {
                        let (c3, v) = spec_emit(c2, Instr::BinOp { op, lhs: l, rhs: rr });
                        Ok((c3, Some(v)))
                    },
                    _ => Err(LowerErrorV::VoidOperand),
                },
            },
        },
        ExprV::Return { expr } => match spec_lower_expr(*expr, c) {
            Err(er) => Err(er),
            Ok((c1, vo)) => match vo {
                Some(v) => {
                    let (c2, _) = spec_emit(c1, Instr::Store { slot: RET_SLOT, src: v });
                    Ok((c2, None))
                },
                None => Err(LowerErrorV::VoidOperand),
            },
        },
        ExprV::If { cond, then, otherwise } => {
            let (ca, then_bb) = spec_new_block(c);
            let (cb, else_bb) = spec_new_block(ca);
            let (cc, merge_bb) = spec_new_block(cb);
            match spec_lower_expr(*cond, cc) {
                Err(er) => Err(er),
                Ok((c1, cvo)) => match cvo {
                    None => Err(LowerErrorV::VoidOperand),
                    Some(cv) => {
                        let c2 = spec_terminate(
                            c1,
                            Terminator::CondBr {
                                cond: cv,
                                then_target: then_bb,
                                else_target: else_bb,
                            },
                        );
                        let c3 = CtxV { cur: then_bb, ..c2 };
                        match spec_lower_branch(then, c3) {
                            Err(er) => Err(er),
                            Ok((c4, tret)) => {
                                let c5 = spec_terminate(
                                    c4,
                                    Terminator::Br {
                                        target: if tret {
                                            RET_BLOCK
                                        } else {
                                            merge_bb
                                        },
                                    },
                                );
                                let c6 = CtxV { cur: else_bb, ..c5 };
                                match spec_lower_branch(otherwise, c6) {
                                    Err(er) => Err(er),
                                    Ok((c7, eret)) => {
                                        let c8 = spec_terminate(
                                            c7,
                                            Terminator::Br {
                                                target: if eret {
                                                    RET_BLOCK
                                                } else {
                                                    merge_bb
                                                },
                                            },
                                        );
                                        Ok((CtxV { cur: merge_bb, ..c8 }, None))
                                    },
                                }
                            },
                        }
                    },
                },
            }
        },
        ExprV::Var { name } => match lookup_local(c.locals, name) {
            Some(slot) => {
                let (c1, v) = spec_emit(c, Instr::Load { slot });
                Ok((c1, Some(v)))
            },
            None => Err(LowerErrorV::Undeclared { name }),
        },
        ExprV::Decl { ty, name, init } => {
            let slot = c.slots.len() as usize;
            let c1 = CtxV {
                slots: c.slots.push(ty),
                locals: c.locals.push(LocalV { name, slot }),
                ..c
            };
            match init {
                None => Ok((c1, None)),
                Some(e0) => match spec_lower_expr(*e0, c1) {
                    Err(er) => Err(er),
                    Ok((c2, vo)) => match vo {
                        Some(v) => {
                            let (c3, _) = spec_emit(c2, Instr::Store { slot, src: v });
                            Ok((c3, None))
                        },
                        None => Err(LowerErrorV::VoidOperand),
                    },
                },
            }
        },
        ExprV::Assign { name, rhs } => match spec_lower_expr(*rhs, c) {
            Err(er) => Err(er),
            Ok((c1, vo)) => match vo {
                Some(v) => match lookup_local(c1.locals, name) {
                    Some(slot) => {
                        let (c2, _) = spec_emit(c1, Instr::Store { slot, src: v });
                        Ok((c2, Some(v)))
                    },
                    None => Err(LowerErrorV::Undeclared { name }),
                },
                None => Err(LowerErrorV::VoidOperand),
            },
        },
        ExprV::Deref { addr } => match spec_lower_expr(*addr, c) {
            Err(er) => Err(er),
            Ok((c1, vo)) => match vo {
                Some(a) => {
                    let (c2, v) = spec_emit(c1, Instr::LoadAddr { addr: a });
                    Ok((c2, Some(v)))
                },
                None => Err(LowerErrorV::VoidOperand),
            },
        },
    }
}

/// Lower the statements of a conditional branch, in order, stopping at the
/// first `return`: statements after it are never emitted.  The flag says
/// whether the branch was terminated by a `return`.
pub open spec fn spec_lower_branch(es: Seq<ExprV>, c: CtxV) -> Result<(CtxV, bool), LowerErrorV>
    decreases es,
{
    if es.len() == 0 {
        Ok((c, false))
    } else {
        match spec_lower_expr(es[0], c) {
            Err(er) => Err(er),
            Ok((c1, _)) => if es[0] is Return {
                Ok((c1, true))
            } else {
                spec_lower_branch(es.drop_first(), c1)
            },
        }
    }
}

/// Lower a function body's statements, in order, all of them.
pub open spec fn spec_lower_body(es: Seq<ExprV>, c: CtxV) -> Result<CtxV, LowerErrorV>
    decreases es,
{
    if es.len() == 0 {
        Ok(c)
    } else {
        match spec_lower_expr(es[0], c) {
            Err(er) => Err(er),
            Ok((c1, _)) => spec_lower_body(es.drop_first(), c1),
        }
    }
}

/// Give each parameter its own stack slot and store the incoming value into
/// it, so that parameters are mutable locals.
pub open spec fn spec_lower_params(args: Seq<ArgV>, idx: nat, c: CtxV) -> CtxV
    decreases args.len() - idx,
{
    if idx >= args.len() {
        c
    } else {
        let a = args[idx as int];
        let slot = c.slots.len() as usize;
        let c1 = CtxV { slots: c.slots.push(a.ty), ..c };
        let (c2, pv) = spec_emit(c1, Instr::Param { index: idx as usize });
        let (c3, _) = spec_emit(c2, Instr::Store { slot, src: pv });
        let c4 = CtxV { locals: c3.locals.push(LocalV { name: a.name, slot }), ..c3 };
        spec_lower_params(args, idx + 1, c4)
    }
}

/// Lower one function: allocate the shared return slot and zero it, create
/// the shared return block, store each parameter into its own slot, lower
/// the body into the entry block, branch to the shared return block, and
/// let that block load and return the return slot.
pub open spec fn spec_lower_function(f: FunctionV) -> Result<IrFunctionV, LowerErrorV> {
    let c0 = CtxV {
        blocks: seq![
            BlockV { instrs: Seq::empty(), term: None },
            BlockV { instrs: Seq::empty(), term: None },
        ],
        slots: seq![f.ret_type],
        locals: Seq::empty(),
        cur: 0,
    };
    let (c1, zv) = spec_emit(c0, Instr::Const { value: 0 });
    let (c2, _) = spec_emit(c1, Instr::Store { slot: RET_SLOT, src: zv });
    let c3 = spec_lower_params(f.args, 0, c2);
    match spec_lower_body(f.exprs, c3) {
        Err(er) => Err(er),
        Ok(c4) => {
            let c5 = spec_terminate(c4, Terminator::Br { target: RET_BLOCK });
            let c6 = spec_set_term(c5, RET_BLOCK, Terminator::Ret { slot: RET_SLOT });
            Ok(
                IrFunctionV {
                    name: f.name,
                    ret_type: f.ret_type,
                    params: f.args,
                    slots: c6.slots,
                    blocks: c6.blocks,
                },
            )
        },
    }
}

/// Lower a sequence of functions, each with a fresh context; the first
/// failure wins.
pub open spec fn spec_lower_functions(fs: Seq<FunctionV>) -> Result<Seq<IrFunctionV>, LowerErrorV>
    decreases fs.len(),
{
    if fs.len() == 0 {
        Ok(Seq::empty())
    } else {
        match spec_lower_function(fs[0]) {
            Err(er) => Err(er),
            Ok(irf) => match spec_lower_functions(fs.drop_first()) {
                Err(er) => Err(er),
                Ok(rest) => Ok(seq![irf] + rest),
            },
        }
    }
}

/// Lower a whole program.  An empty program is a lowering error.
pub open spec fn spec_generate(p: ProgramV) -> Result<ModuleV, LowerErrorV> {
    if p.functions.len() == 0 {
        Err(LowerErrorV::NoFunctions)
    } else {
        match spec_lower_functions(p.functions) {
            Err(er) => Err(er),
            Ok(fs) => Ok(ModuleV { functions: fs }),
        }
    }
}

/// The number of fresh blocks that lowering this expression can create:
/// three per conditional.
pub open spec fn expr_blocks(e: ExprV) -> nat
    decreases e,
{
    match e {
        ExprV::Int { value } => 0,
        ExprV::BinOp { lhs, rhs, op } => expr_blocks(*lhs) + expr_blocks(*rhs),
        ExprV::Return { expr } => expr_blocks(*expr),
        ExprV::If { cond, then, otherwise } => 3 + expr_blocks(*cond) + expr_seq_blocks(then)
            + expr_seq_blocks(otherwise),
        ExprV::Var { name } => 0,
        ExprV::Decl { ty, name, init } => match init {
            Some(e0) => expr_blocks(*e0),
            None => 0,
        },
        ExprV::Assign { name, rhs } => expr_blocks(*rhs),
        ExprV::Deref { addr } => expr_blocks(*addr),
    }
}

/// The number of fresh blocks that lowering this statement sequence can
/// create.
pub open spec fn expr_seq_blocks(es: Seq<ExprV>) -> nat
    decreases es,
{
    if es.len() == 0 {
        0
    } else {
        expr_blocks(es[0]) + expr_seq_blocks(es.drop_first())
    }
}

/// Every branch target of the terminator lies below `n`.
pub open spec fn term_wf(t: Terminator, n: nat) -> bool {
    match t {
        Terminator::Br { target } => target < n,
        Terminator::CondBr { cond, then_target, else_target } => then_target < n && else_target
            < n,
        Terminator::Ret { slot } => true,
    }
}

/// Every terminator placed so far branches within the blocks built so far.
pub open spec fn terms_wf(c: CtxV) -> bool {
    forall|j: int|
        0 <= j < c.blocks.len() ==> match (#[trigger] c.blocks[j]).term {
            Some(t) => term_wf(t, c.blocks.len() as nat),
            None => true,
        }
}

/// The shape of a context in the middle of lowering a function body: the
/// entry and shared return blocks exist, the current insertion block and the
/// shared return block are still open, and every terminator placed so far is
/// in range.
pub open spec fn lower_inv(c: CtxV) -> bool {
    &&& c.blocks.len() >= 2
    &&& c.cur < c.blocks.len()
    &&& c.cur != RET_BLOCK
    &&& c.blocks[c.cur as int].term is None
    &&& c.blocks[RET_BLOCK as int].term is None
    &&& terms_wf(c)
}

/// Lowering a construct never reopens a block: a block left unterminated
/// was unterminated before (and was not the block the construct finished),
/// or is the new insertion block.
pub open spec fn none_shrinks(c: CtxV, c2: CtxV) -> bool {
    forall|j: int|
        0 <= j < c2.blocks.len() && (#[trigger] c2.blocks[j]).term is None ==> ((j
            < c.blocks.len() && c.blocks[j].term is None && j != c.cur) || j == c2.cur)
}

/// A finished function is well formed: the entry and shared return blocks
/// exist, every block is terminated, every branch target is a real block,
/// and the shared return block returns the shared return slot.
pub open spec fn fn_wf(f: IrFunctionV) -> bool {
    &&& f.blocks.len() >= 2
    &&& forall|j: int|
        0 <= j < f.blocks.len() ==> ((#[trigger] f.blocks[j]).term matches Some(t) && term_wf(
            t,
            f.blocks.len() as nat,
        ))
    &&& f.blocks[RET_BLOCK as int].term == Some(Terminator::Ret { slot: RET_SLOT })
}

/// A well-formed module: every function in it is well formed.
pub open spec fn module_wf(m: ModuleV) -> bool {
    forall|k: int| 0 <= k < m.functions.len() ==> fn_wf(#[trigger] m.functions[k])
}

/// Lowering one expression preserves the context invariant, never removes a
/// block, never reopens one, and keeps the blocks already built: only the
/// current block may be finished and fresh blocks added.
pub proof fn lemma_lower_expr_wf(e: ExprV, c: CtxV)
    requires
        lower_inv(c),
        c.blocks.len() + expr_blocks(e) <= usize::MAX,
    ensures
        spec_lower_expr(e, c) matches Ok((c2, v)) ==> lower_inv(c2) && c2.blocks.len()
            >= c.blocks.len() && c2.blocks.len() <= c.blocks.len() + expr_blocks(e)
            && none_shrinks(c, c2) && (c2.cur == c.cur || c2.cur
            >= c.blocks.len()) && (forall|j: int|
            0 <= j < c.blocks.len() && j != c.cur ==> (#[trigger] c2.blocks[j]).term
                == c.blocks[j].term),
    decreases e,
{
    match e {
        ExprV::Int { value } => {},
        ExprV::BinOp { lhs, rhs, op } => {
            lemma_lower_expr_wf(*lhs, c);
            match spec_lower_expr(*lhs, c) {
                Ok((c1, _v)) => {
                    lemma_lower_expr_wf(*rhs, c1);
                },
                Err(_) => {},
            }
        },
        ExprV::Return { expr } => {
            lemma_lower_expr_wf(*expr, c);
        },
        ExprV::If { cond, then, otherwise } => {
            let (ca, then_bb) = spec_new_block(c);
            let (cb, else_bb) = spec_new_block(ca);
            let (cc, merge_bb) = spec_new_block(cb);
            assert(lower_inv(cc));
            lemma_lower_expr_wf(*cond, cc);
            match spec_lower_expr(*cond, cc) {
                Err(_) => {},
                Ok((c1, cvo)) => match cvo {
                    None => {},
                    Some(cv) => {
                        let c2 = spec_terminate(
                            c1,
                            Terminator::CondBr {
                                cond: cv,
                                then_target: then_bb,
                                else_target: else_bb,
                            },
                        );
                        let c3 = CtxV { cur: then_bb, ..c2 };
                        assert(lower_inv(c3));
                        lemma_lower_branch_wf(then, c3);
                        match spec_lower_branch(then, c3) {
                            Err(_) => {},
                            Ok((c4, tret)) => {
                                let c5 = spec_terminate(
                                    c4,
                                    Terminator::Br {
                                        target: if tret {
                                            RET_BLOCK
                                        } else {
                                            merge_bb
                                        },
                                    },
                                );
                                let c6 = CtxV { cur: else_bb, ..c5 };
                                assert(lower_inv(c6));
                                lemma_lower_branch_wf(otherwise, c6);
                                match spec_lower_branch(otherwise, c6) {
                                    Err(_) => {},
                                    Ok((c7, eret)) => {
                                        let c8 = spec_terminate(
                                            c7,
                                            Terminator::Br {
                                                target: if eret {
                                                    RET_BLOCK
                                                } else {
                                                    merge_bb
                                                },
                                            },
                                        );
                                        let c9 = CtxV { cur: merge_bb, ..c8 };
                                        assert(lower_inv(c9));
                                        assert(none_shrinks(c, c9));
                                    },
                                }
                            },
                        }
                    },
                },
            }
        },
        ExprV::Var { name } => {},
        ExprV::Decl { ty, name, init } => {
            let slot = c.slots.len() as usize;
            let c1 = CtxV {
                slots: c.slots.push(ty),
                locals: c.locals.push(LocalV { name, slot }),
                ..c
            };
            assert(lower_inv(c1));
            match init {
                None => {},
                Some(e0) => {
                    lemma_lower_expr_wf(*e0, c1);
                },
            }
        },
        ExprV::Assign { name, rhs } => {
            lemma_lower_expr_wf(*rhs, c);
        },
        ExprV::Deref { addr } => {
            lemma_lower_expr_wf(*addr, c);
        },
    }
}

/// As [`lemma_lower_expr_wf`], for the statements of a conditional branch.
pub proof fn lemma_lower_branch_wf(es: Seq<ExprV>, c: CtxV)
    requires
        lower_inv(c),
        c.blocks.len() + expr_seq_blocks(es) <= usize::MAX,
    ensures
        spec_lower_branch(es, c) matches Ok((c2, b)) ==> lower_inv(c2) && c2.blocks.len()
            >= c.blocks.len() && c2.blocks.len() <= c.blocks.len() + expr_seq_blocks(es)
            && none_shrinks(c, c2) && (c2.cur == c.cur || c2.cur
            >= c.blocks.len()) && (forall|j: int|
            0 <= j < c.blocks.len() && j != c.cur ==> (#[trigger] c2.blocks[j]).term
                == c.blocks[j].term),
    decreases es,
{
    if es.len() > 0 {
        lemma_lower_expr_wf(es[0], c);
        match spec_lower_expr(es[0], c) {
            Err(_) => {},
            Ok((c1, _v)) => {
                if !(es[0] is Return) {
                    lemma_lower_branch_wf(es.drop_first(), c1);
                }
            },
        }
    }
}

/// As [`lemma_lower_expr_wf`], for a whole function body.
pub proof fn lemma_lower_body_wf(es: Seq<ExprV>, c: CtxV)
    requires
        lower_inv(c),
        c.blocks.len() + expr_seq_blocks(es) <= usize::MAX,
    ensures
        spec_lower_body(es, c) matches Ok(c2) ==> lower_inv(c2) && c2.blocks.len()
            >= c.blocks.len() && c2.blocks.len() <= c.blocks.len() + expr_seq_blocks(es)
            && none_shrinks(c, c2) && (c2.cur == c.cur || c2.cur
            >= c.blocks.len()) && (forall|j: int|
            0 <= j < c.blocks.len() && j != c.cur ==> (#[trigger] c2.blocks[j]).term
                == c.blocks[j].term),
    decreases es,
{
    if es.len() > 0 {
        lemma_lower_expr_wf(es[0], c);
        match spec_lower_expr(es[0], c) {
            Err(_) => {},
            Ok((c1, _v)) => {
                lemma_lower_body_wf(es.drop_first(), c1);
            },
        }
    }
}

/// Storing the parameters into their slots touches no terminator at all.
pub proof fn lemma_lower_params_wf(args: Seq<ArgV>, idx: nat, c: CtxV)
    requires
        lower_inv(c),
    ensures
        ({
            let c2 = spec_lower_params(args, idx, c);
            lower_inv(c2) && c2.blocks.len() == c.blocks.len() && c2.cur == c.cur && forall|j: int|
                0 <= j < c.blocks.len() ==> (#[trigger] c2.blocks[j]).term == c.blocks[j].term
        }),
    decreases args.len() - idx,
{
    if idx < args.len() {
        let a = args[idx as int];
        let slot = c.slots.len() as usize;
        let c1 = CtxV { slots: c.slots.push(a.ty), ..c };
        let (c2, pv) = spec_emit(c1, Instr::Param { index: idx as usize });
        let (c3, _) = spec_emit(c2, Instr::Store { slot, src: pv });
        let c4 = CtxV { locals: c3.locals.push(LocalV { name: a.name, slot }), ..c3 };
        assert(lower_inv(c4));
        lemma_lower_params_wf(args, idx + 1, c4);
    }
}

/// Every function the code generator produces is well formed.
pub proof fn lemma_lower_function_wf(f: FunctionV, irf: IrFunctionV)
    requires
        spec_lower_function(f) == Ok::<IrFunctionV, LowerErrorV>(irf),
        2 + expr_seq_blocks(f.exprs) <= usize::MAX,
    ensures
        fn_wf(irf),
{
    let c0 = CtxV {
        blocks: seq![
            BlockV { instrs: Seq::empty(), term: None },
            BlockV { instrs: Seq::empty(), term: None },
        ],
        slots: seq![f.ret_type],
        locals: Seq::empty(),
        cur: 0,
    };
    let (c1, zv) = spec_emit(c0, Instr::Const { value: 0 });
    let (c2, _) = spec_emit(c1, Instr::Store { slot: RET_SLOT, src: zv });
    assert(lower_inv(c2));
    lemma_lower_params_wf(f.args, 0, c2);
    let c3 = spec_lower_params(f.args, 0, c2);
    lemma_lower_body_wf(f.exprs, c3);
    let c4 = spec_lower_body(f.exprs, c3)->Ok_0;
    let c5 = spec_terminate(c4, Terminator::Br { target: RET_BLOCK });
    let c6 = spec_set_term(c5, RET_BLOCK, Terminator::Ret { slot: RET_SLOT });
    assert forall|j: int| 0 <= j < c6.blocks.len() implies ((#[trigger] c6.blocks[j]).term matches
        Some(t) && term_wf(t, c6.blocks.len() as nat)) by {
        if j != c4.cur && j != RET_BLOCK {
            assert(c6.blocks[j].term == c4.blocks[j].term);
            assert(!(c4.blocks[j].term is None));
        }
    }
}

/// Every module the code generator produces is well formed: each function
/// has its entry and shared return blocks, every block ends in a
/// terminator, every branch target exists, and the shared return block
/// returns the shared return slot.
pub proof fn lemma_generate_wf(p: ProgramV, m: ModuleV)
    requires
        spec_generate(p) == Ok::<ModuleV, LowerErrorV>(m),
        forall|k: int|
            0 <= k < p.functions.len() ==> 2 + expr_seq_blocks(
                (#[trigger] p.functions[k]).exprs,
            ) <= usize::MAX,
    ensures
        module_wf(m),
{
    lemma_lower_functions_wf(p.functions);
}

/// As [`lemma_generate_wf`], for a sequence of functions.
pub proof fn lemma_lower_functions_wf(fs: Seq<FunctionV>)
    requires
        forall|k: int|
            0 <= k < fs.len() ==> 2 + expr_seq_blocks((#[trigger] fs[k]).exprs) <= usize::MAX,
    ensures
        spec_lower_functions(fs) matches Ok(irs) ==> forall|k: int|
            0 <= k < irs.len() ==> fn_wf(#[trigger] irs[k]),
    decreases fs.len(),
{
    if fs.len() > 0 {
        match spec_lower_function(fs[0]) {
            Err(_) => {},
            Ok(irf) => {
                lemma_lower_function_wf(fs[0], irf);
                lemma_lower_functions_wf(fs.drop_first());
            },
        }
    }
}

/// The lowering state of one function under construction.
pub struct Lower {
    pub blocks: Vec<Block>,
    pub slots: Vec<Type>,
    pub locals: Vec<Local>,
    pub cur: usize,
}

impl View for Lower {
    type V = CtxV;

    open spec fn view(&self) -> CtxV {
        CtxV {
            blocks: view_block_seq(self.blocks@),
            slots: self.slots@,
            locals: view_local_seq(self.locals@),
            cur: self.cur,
        }
    }
}

impl Lower {
    /// The current insertion block exists.
    pub open spec fn wf(&self) -> bool {
        ctx_wf(self@)
    }

    /// Append an instruction to the current block and name its value.
    fn emit(&mut self, ins: Instr) -> (v: ValId)
        requires
            old(self).wf(),
        ensures
            ({
                let (c2, sv) = spec_emit(old(self)@, ins);
                final(self)@ == c2 && v == sv && final(self).wf()
            }),
    {
        let cur = self.cur;
        let mut b = self.blocks.remove(cur);
        let idx = b.instrs.len();
        b.instrs.push(ins);
        self.blocks.insert(cur, b);
        proof {
            let (c2, _sv) = spec_emit(old(self)@, ins);
            assert forall|i: int| 0 <= i < self.blocks@.len() implies view_block_seq(
                self.blocks@,
            )[i] == c2.blocks[i] by {
                if i < cur {
                    assert(self.blocks@[i] == old(self).blocks@[i]);
                } else if i > cur {
                    assert(self.blocks@[i] == old(self).blocks@[i]);
                }
            }
            assert(view_block_seq(self.blocks@) =~= c2.blocks);
            assert(self@ =~= c2);
        }
        ValId { block: cur, instr: idx }
    }

    /// Finish the current block with a terminator.
    fn terminate(&mut self, t: Terminator)
        requires
            old(self).wf(),
        ensures
            final(self)@ == spec_terminate(old(self)@, t),
            final(self).wf(),
    {
        let cur = self.cur;
        let mut b = self.blocks.remove(cur);
        b.term = Some(t);
        self.blocks.insert(cur, b);
        proof {
            let c2 = spec_terminate(old(self)@, t);
            assert forall|i: int| 0 <= i < self.blocks@.len() implies view_block_seq(
                self.blocks@,
            )[i] == c2.blocks[i] by {
                if i < cur {
                    assert(self.blocks@[i] == old(self).blocks@[i]);
                } else if i > cur {
                    assert(self.blocks@[i] == old(self).blocks@[i]);
                }
            }
            assert(view_block_seq(self.blocks@) =~= c2.blocks);
            assert(self@ =~= c2);
        }
    }

    /// Finish the block `bi` with a terminator.
    fn set_term(&mut self, bi: usize, t: Terminator)
        requires
            old(self).wf(),
            bi < old(self)@.blocks.len(),
        ensures
            final(self)@ == spec_set_term(old(self)@, bi, t),
            final(self).wf(),
    {
        let mut b = self.blocks.remove(bi);
        b.term = Some(t);
        self.blocks.insert(bi, b);
        proof {
            let c2 = spec_set_term(old(self)@, bi, t);
            assert forall|i: int| 0 <= i < self.blocks@.len() implies view_block_seq(
                self.blocks@,
            )[i] == c2.blocks[i] by {
                if i < bi {
                    assert(self.blocks@[i] == old(self).blocks@[i]);
                } else if i > bi {
                    assert(self.blocks@[i] == old(self).blocks@[i]);
                }
            }
            assert(view_block_seq(self.blocks@) =~= c2.blocks);
            assert(self@ =~= c2);
        }
    }

    /// Append a fresh empty block and name it.
    fn new_block(&mut self) -> (b: usize)
        ensures
            ({
                let (c2, sb) = spec_new_block(old(self)@);
                final(self)@ == c2 && b == sb && b < final(self)@.blocks.len()
            }),
            old(self).wf() ==> final(self).wf(),
    {
        let b = self.blocks.len();
        self.blocks.push(Block { instrs: Vec::new(), term: None });
        proof {
            let (c2, _sb) = spec_new_block(old(self)@);
            assert(view_block_seq(self.blocks@) =~= c2.blocks);
            assert(self@ =~= c2);
        }
        b
    }

    /// Look a name up in the symbol table: the latest binding wins.
    fn lookup(&self, name: &String) -> (r: Option<usize>)
        ensures
            r == lookup_local(view_local_seq(self.locals@), name@),
    {
        let ghost ls = view_local_seq(self.locals@);
        let mut i = self.locals.len();
        proof {
            assert(ls.take(i as int) =~= ls);
        }
        while i > 0
            invariant
                ls == view_local_seq(self.locals@),
                i <= self.locals@.len(),
                lookup_local(ls, name@) == lookup_local(ls.take(i as int), name@),
            decreases i,
        {
            i = i - 1;
            proof {
                assert(ls.take(i as int + 1).drop_last() =~= ls.take(i as int));
                assert(ls.take(i as int + 1).last() == ls[i as int]);
            }
            if self.locals[i].name == *name {
                return Some(self.locals[i].slot);
            }
        }
        proof {
            assert(ls.take(0) =~= Seq::<LocalV>::empty());
        }
        None
    }
}

impl Expr {
    /// Lower this expression or statement in the current block.
    #[verifier::rlimit(100)]
    fn codegen(&self, llvm: &mut Lower) -> (r: Result<Option<ValId>, LowerError>)
        requires
            old(llvm).wf(),
        ensures
            match spec_lower_expr(view_expr(*self), old(llvm)@) {
                Ok((c2, v)) => r matches Ok(rv) && rv == v && final(llvm)@ == c2
                    && final(llvm).wf()
                    && final(llvm)@.blocks.len() >= old(llvm)@.blocks.len(),
                Err(ev) => r matches Err(re) && re@ == ev,
            },
        decreases *self,
    {
        match self {
            Expr::Int { value } => {
                let v = llvm.emit(Instr::Const { value: *value });
                Ok(Some(v))
            },
            Expr::BinOp { lhs, rhs, op } => {
                let lv = lhs.codegen(llvm)?;
                let rv = rhs.codegen(llvm)?;
                match (lv, rv) {
                    (Some(l), Some(rr)) => {
                        let v = llvm.emit(Instr::BinOp { op: *op, lhs: l, rhs: rr });
                        Ok(Some(v))
                    },
                    _ => Err(LowerError::VoidOperand),
                }
            },
            Expr::Return { expr } => {
                let vo = expr.codegen(llvm)?;
                match vo {
                    Some(v) => {
                        let _ = llvm.emit(Instr::Store { slot: RET_SLOT, src: v });
                        Ok(None)
                    },
                    None => Err(LowerError::VoidOperand),
                }
            },
            Expr::If { cond, then, otherwise } => {
                let then_bb = llvm.new_block();
                let else_bb = llvm.new_block();
                let merge_bb = llvm.new_block();
                let cvo = cond.codegen(llvm)?;
                match cvo {
                    None => Err(LowerError::VoidOperand),
                    Some(cv) => {
                        llvm.terminate(
                            Terminator::CondBr {
                                cond: cv,
                                then_target: then_bb,
                                else_target: else_bb,
                            },
                        );
                        llvm.cur = then_bb;
                        let tret = codegen_branch(then, llvm)?;
                        llvm.terminate(
                            Terminator::Br {
                                target: if tret {
                                    RET_BLOCK
                                } else {
                                    merge_bb
                                },
                            },
                        );
                        llvm.cur = else_bb;
                        let eret = codegen_branch(otherwise, llvm)?;
                        llvm.terminate(
                            Terminator::Br {
                                target: if eret {
                                    RET_BLOCK
                                } else {
                                    merge_bb
                                },
                            },
                        );
                        llvm.cur = merge_bb;
                        Ok(None)
                    },
                }
            },
            Expr::Var { name } => {
                match llvm.lookup(name) {
                    Some(slot) => {
                        let v = llvm.emit(Instr::Load { slot });
                        Ok(Some(v))
                    },
                    None => Err(LowerError::Undeclared { name: name.clone() }),
                }
            },
            Expr::Decl { ty, name, init } => {
                let slot = llvm.slots.len();
                llvm.slots.push(*ty);
                llvm.locals.push(Local { name: name.clone(), slot });
                proof {
                    assert(view_local_seq(llvm.locals@) =~= view_local_seq(
                        old(llvm).locals@,
                    ).push(LocalV { name: name@, slot: slot }));
                }
                match init {
                    None => Ok(None),
                    Some(e0) => {
                        let vo = e0.codegen(llvm)?;
                        match vo {
                            Some(v) => {
                                let _ = llvm.emit(Instr::Store { slot, src: v });
                                Ok(None)
                            },
                            None => Err(LowerError::VoidOperand),
                        }
                    },
                }
            },
            Expr::Assign { name, rhs } => {
                let vo = rhs.codegen(llvm)?;
                match vo {
                    Some(v) => {
                        match llvm.lookup(name) {
                            Some(slot) => {
                                let _ = llvm.emit(Instr::Store { slot, src: v });
                                Ok(Some(v))
                            },
                            None => Err(LowerError::Undeclared { name: name.clone() }),
                        }
                    },
                    None => Err(LowerError::VoidOperand),
                }
            },
            Expr::Deref { addr } => {
                let vo = addr.codegen(llvm)?;
                match vo {
                    Some(a) => {
                        let v = llvm.emit(Instr::LoadAddr { addr: a });
                        Ok(Some(v))
                    },
                    None => Err(LowerError::VoidOperand),
                }
            },
        }
    }
}

/// Lower the statements of a conditional branch, stopping at the first
/// `return`; the flag says whether a `return` ended the branch.
#[verifier::rlimit(100)]
fn codegen_branch(exprs: &Vec<Expr>, llvm: &mut Lower) -> (r: Result<bool, LowerError>)
    requires
        old(llvm).wf(),
    ensures
        match spec_lower_branch(view_expr_seq(exprs@), old(llvm)@) {
            Ok((c2, b)) => r matches Ok(rb) && rb == b && final(llvm)@ == c2 && final(llvm).wf()
                && final(llvm)@.blocks.len() >= old(llvm)@.blocks.len(),
            Err(ev) => r matches Err(re) && re@ == ev,
        },
    decreases exprs@,
{
    let ghost ws = view_expr_seq(exprs@);
    proof {
        lemma_view_expr_seq(exprs@);
        assert(ws.skip(0) =~= ws);
    }
    let mut i: usize = 0;
    while i < exprs.len()
        invariant
            old(llvm).wf(),
            ws == view_expr_seq(exprs@),
            ws.len() == exprs@.len(),
            forall|q: int| 0 <= q < exprs@.len() ==> ws[q] == view_expr(#[trigger] exprs@[q]),
            0 <= i <= exprs@.len(),
            llvm.wf(),
            llvm@.blocks.len() >= old(llvm)@.blocks.len(),
            spec_lower_branch(ws, old(llvm)@) == spec_lower_branch(ws.skip(i as int), llvm@),
        decreases exprs@.len() - i,
    {
        proof {
            assert(ws.skip(i as int)[0] == ws[i as int]);
            assert(ws.skip(i as int).drop_first() =~= ws.skip(i as int + 1));
        }
        let vo = match exprs[i].codegen(llvm) {
            Ok(vo) => vo,
            Err(e2) => {
                return Err(e2);
            },
        };
        let _ = vo;
        if matches!(&exprs[i], Expr::Return { .. }) {
            return Ok(true);
        }
        i = i + 1;
    }
    proof {
        assert(ws.skip(exprs@.len() as int) =~= Seq::<ExprV>::empty());
    }
    Ok(false)
}

/// Lower a function body's statements, in order, all of them.
#[verifier::rlimit(100)]
fn codegen_body(exprs: &Vec<Expr>, llvm: &mut Lower) -> (r: Result<(), LowerError>)
    requires
        old(llvm).wf(),
    ensures
        match spec_lower_body(view_expr_seq(exprs@), old(llvm)@) {
            Ok(c2) => r matches Ok(u) && final(llvm)@ == c2 && final(llvm).wf()
                && final(llvm)@.blocks.len() >= old(llvm)@.blocks.len(),
            Err(ev) => r matches Err(re) && re@ == ev,
        },
    decreases exprs@,
{
    let ghost ws = view_expr_seq(exprs@);
    proof {
        lemma_view_expr_seq(exprs@);
        assert(ws.skip(0) =~= ws);
    }
    let mut i: usize = 0;
    while i < exprs.len()
        invariant
            old(llvm).wf(),
            ws == view_expr_seq(exprs@),
            ws.len() == exprs@.len(),
            forall|q: int| 0 <= q < exprs@.len() ==> ws[q] == view_expr(#[trigger] exprs@[q]),
            0 <= i <= exprs@.len(),
            llvm.wf(),
            llvm@.blocks.len() >= old(llvm)@.blocks.len(),
            spec_lower_body(ws, old(llvm)@) == spec_lower_body(ws.skip(i as int), llvm@),
        decreases exprs@.len() - i,
    {
        proof {
            assert(ws.skip(i as int)[0] == ws[i as int]);
            assert(ws.skip(i as int).drop_first() =~= ws.skip(i as int + 1));
        }
        let vo = match exprs[i].codegen(llvm) {
            Ok(vo) => vo,
            Err(e2) => {
                return Err(e2);
            },
        };
        let _ = vo;
        i = i + 1;
    }
    proof {
        assert(ws.skip(exprs@.len() as int) =~= Seq::<ExprV>::empty());
    }
    Ok(())
}

/// Copy a parameter list.
fn clone_args(v: &Vec<Arg>) -> (r: Vec<Arg>)
    ensures
        view_arg_seq(r@) == view_arg_seq(v@),
{
    let ghost ws = view_arg_seq(v@);
    let mut r: Vec<Arg> = Vec::new();
    let mut i: usize = 0;
    while i < v.len()
        invariant
            ws == view_arg_seq(v@),
            0 <= i <= v@.len(),
            r@.len() == i,
            view_arg_seq(r@) =~= ws.take(i as int),
        decreases v@.len() - i,
    {
        r.push(Arg { ty: v[i].ty, name: v[i].name.clone() });
        proof {
            assert(view_arg_seq(r@) =~= ws.take(i as int + 1));
        }
        i = i + 1;
    }
    proof {
        assert(ws.take(v@.len() as int) =~= ws);
        assert(view_arg_seq(r@) =~= ws);
    }
    r
}

impl Function {
    /// Lower one function into its basic blocks.
    #[verifier::rlimit(100)]
    fn codegen(&self) -> (r: Result<IrFunction, LowerError>)
        ensures
            match spec_lower_function(view_function(*self)) {
                Ok(fv) => r matches Ok(irf) && view_ir_function(irf) == fv,
                Err(ev) => r matches Err(re) && re@ == ev,
            },
    {
        let mut blocks: Vec<Block> = Vec::new();
        blocks.push(Block { instrs: Vec::new(), term: None });
        blocks.push(Block { instrs: Vec::new(), term: None });
        let mut slots: Vec<Type> = Vec::new();
        slots.push(self.ret_type);
        let mut llvm = Lower { blocks, slots, locals: Vec::new(), cur: 0 };
        let ghost f = view_function(*self);
        let ghost c0 = CtxV {
            blocks: seq![
                BlockV { instrs: Seq::empty(), term: None },
                BlockV { instrs: Seq::empty(), term: None },
            ],
            slots: seq![f.ret_type],
            locals: Seq::empty(),
            cur: 0,
        };
        proof {
            assert(view_block_seq(llvm.blocks@) =~= c0.blocks);
            assert(view_local_seq(llvm.locals@) =~= c0.locals);
            assert(llvm@ =~= c0);
        }
        let zv = llvm.emit(Instr::Const { value: 0 });
        let _ = llvm.emit(Instr::Store { slot: RET_SLOT, src: zv });
        let ghost argsv = view_arg_seq(self.args@);
        let ghost cstart = llvm@;
        let mut i: usize = 0;
        while i < self.args.len()
            invariant
                argsv == view_arg_seq(self.args@),
                argsv.len() == self.args@.len(),
                0 <= i <= self.args@.len(),
                llvm.wf(),
                llvm@.blocks.len() >= 2,
                spec_lower_params(argsv, 0, cstart) == spec_lower_params(argsv, i as nat, llvm@),
            decreases self.args@.len() - i,
        {
            let slot = llvm.slots.len();
            let ghost cpre = llvm@;
            llvm.slots.push(self.args[i].ty);
            proof {
                assert(llvm@ =~= CtxV { slots: cpre.slots.push(argsv[i as int].ty), ..cpre });
            }
            let pv = llvm.emit(Instr::Param { index: i });
            let _ = llvm.emit(Instr::Store { slot, src: pv });
            llvm.locals.push(Local { name: self.args[i].name.clone(), slot });
            proof {
                let a = argsv[i as int];
                let c1 = CtxV { slots: cpre.slots.push(a.ty), ..cpre };
                let (c2, _pv) = spec_emit(c1, Instr::Param { index: i as usize });
                let (c3, _sv) = spec_emit(c2, Instr::Store { slot: slot, src: _pv });
                let c4 = CtxV { locals: c3.locals.push(LocalV { name: a.name, slot: slot }), ..c3 };
                assert(view_local_seq(llvm.locals@) =~= c4.locals);
                assert(llvm@ =~= c4);
            }
            i = i + 1;
        }
        match codegen_body(&self.exprs, &mut llvm) {
            Err(e2) => {
                return Err(e2);
            },
            Ok(u) => {
                let _ = u;
            },
        }
        proof {
            assert(llvm@.blocks.len() >= 2);
        }
        llvm.terminate(Terminator::Br { target: RET_BLOCK });
        llvm.set_term(RET_BLOCK, Terminator::Ret { slot: RET_SLOT });
        let irf = IrFunction {
            name: self.name.clone(),
            ret_type: self.ret_type,
            params: clone_args(&self.args),
            slots: llvm.slots,
            blocks: llvm.blocks,
        };
        proof {
            assert(view_ir_function(irf) =~= spec_lower_function(f)->Ok_0);
        }
        Ok(irf)
    }
}

/// Lower the functions of `v` from index `i` on.
#[verifier::rlimit(100)]
fn codegen_functions(v: &Vec<Function>, i: usize) -> (r: Result<Vec<IrFunction>, LowerError>)
    requires
        i <= v@.len(),
    ensures
        match spec_lower_functions(view_function_seq(v@).skip(i as int)) {
            Ok(fs) => r matches Ok(out) && view_ir_function_seq(out@) == fs,
            Err(ev) => r matches Err(re) && re@ == ev,
        },
    decreases v@.len() - i,
{
    let ghost ws = view_function_seq(v@);
    if i == v.len() {
        let out: Vec<IrFunction> = Vec::new();
        proof {
            assert(ws.skip(i as int) =~= Seq::<FunctionV>::empty());
            assert(view_ir_function_seq(out@) =~= Seq::<IrFunctionV>::empty());
        }
        return Ok(out);
    }
    proof {
        assert(ws.skip(i as int)[0] == ws[i as int]);
        assert(ws.skip(i as int).drop_first() =~= ws.skip(i as int + 1));
    }
    let irf = match v[i].codegen() {
        Ok(irf) => irf,
        Err(e2) => {
            return Err(e2);
        },
    };
    let ghost irfv = view_ir_function(irf);
    let mut rest = match codegen_functions(v, i + 1) {
        Ok(rest) => rest,
        Err(e2) => {
            return Err(e2);
        },
    };
    let ghost rest0 = rest@;
    rest.insert(0, irf);
    proof {
        assert(rest@ =~= seq![rest@[0]] + rest0);
        assert(view_ir_function_seq(rest@) =~= seq![irfv] + view_ir_function_seq(rest0));
    }
    Ok(rest)
}

/// Lower a whole program into a module.  An empty program is an error; a
/// reference to an undeclared variable in any function is an error.
#[verifier::rlimit(100)]
pub fn generate(program: &Program) -> (r: Result<Module, LowerError>)
    ensures
        match spec_generate(program@) {
            Ok(mv) => r matches Ok(m) && m@ == mv,
            Err(ev) => r matches Err(re) && re@ == ev,
        },
{
    if program.functions.len() == 0 {
        return Err(LowerError::NoFunctions);
    }
    proof {
        assert(view_function_seq(program.functions@).skip(0) =~= view_function_seq(
            program.functions@,
        ));
    }
    match codegen_functions(&program.functions, 0) {
        Ok(fs) => Ok(Module { functions: fs }),
        Err(e2) => Err(e2),
    }
}

} // verus!
