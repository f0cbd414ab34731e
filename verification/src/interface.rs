//! The analysis interface: which traps instrumentation calls into, and how
//! hooks select them.
use vstd::prelude::*;

use crate::hooks::{law_all_hooks_complete, spec_all_hooks, Hook};
use crate::instrument::composite_complete;

verus! {

/// A function of the analysis that instrumented code calls.
#[derive(Debug, Clone, Copy, PartialEq, Eq, Hash, Structural)]
pub enum Trap {
    GenericApply,
    IfThenElse,
    IfThenElsePost,
    IfThen,
    IfThenPost,
    Br,
    BrIf,
    CallPre,
    CallPost,
    CallIndirectPre,
    CallIndirectPost,
    BrTable,
    BlockPre,
    BlockPost,
    LoopPre,
    LoopPost,
    Select,
    Drop,
    Return,
    ConstI32,
    ConstF32,
    ConstI64,
    ConstF64,
    UnaryI32ToI32,
    UnaryI64ToI32,
    UnaryI64ToI64,
    UnaryF32ToF32,
    UnaryF64ToF64,
    UnaryF32ToI32,
    UnaryF64ToI32,
    UnaryI32ToI64,
    UnaryF32ToI64,
    UnaryF64ToI64,
    UnaryI32ToF32,
    UnaryI64ToF32,
    UnaryF64ToF32,
    UnaryI32ToF64,
    UnaryI64ToF64,
    UnaryF32ToF64,
    BinaryI32I32ToI32,
    BinaryI64I64ToI32,
    BinaryF32F32ToI32,
    BinaryF64F64ToI32,
    BinaryI64I64ToI64,
    BinaryF32F32ToF32,
    BinaryF64F64ToF64,
    MemorySize,
    MemoryGrow,
    LocalGetI32,
    LocalSetI32,
    LocalTeeI32,
    GlobalGetI32,
    GlobalSetI32,
    LocalGetF32,
    LocalSetF32,
    LocalTeeF32,
    GlobalGetF32,
    GlobalSetF32,
    LocalGetI64,
    LocalSetI64,
    LocalTeeI64,
    GlobalGetI64,
    GlobalSetI64,
    LocalGetF64,
    LocalSetF64,
    LocalTeeF64,
    GlobalGetF64,
    GlobalSetF64,
    F32Store,
    F64Store,
    I32Store,
    I64Store,
    F32Load,
    F64Load,
    I32Load,
    I64Load,
    RefFunc,
    RefNull,
    RefIsNull,
    TableGet,
    TableSet,
    TableSize,
    TableGrow,
    TableFill,
    TableCopy,
    TableCopyGetSource,
    TableCopyGetDestination,
    TableCopyGetSize,
    TableInit,
    TableInitGetElementSource,
    TableInitGetTableDestination,
    TableInitGetSize,
    ElemDrop,
}

/// The traps that a hook asks for, in order.
pub open spec fn hook_traps(h: Hook) -> Seq<Trap> {
    match h {
        Hook::GenericApply => seq![Trap::GenericApply],
        Hook::CallPre => seq![Trap::CallPre],
        Hook::CallPost => seq![Trap::CallPost],
        Hook::CallIndirectPre => seq![Trap::CallIndirectPre],
        Hook::CallIndirectPost => seq![Trap::CallIndirectPost],
        Hook::IfThen => seq![Trap::IfThen],
        Hook::IfThenPost => seq![Trap::IfThenPost],
        Hook::IfThenElse => seq![Trap::IfThenElse],
        Hook::IfThenElsePost => seq![Trap::IfThenElsePost],
        Hook::Branch => seq![Trap::Br],
        Hook::BranchIf => seq![Trap::BrIf],
        Hook::BranchTable => seq![Trap::BrTable],
        Hook::Select => seq![Trap::Select],
        Hook::Unary => seq![
            Trap::UnaryI32ToI32,
            Trap::UnaryI64ToI32,
            Trap::UnaryI64ToI64,
            Trap::UnaryF32ToF32,
            Trap::UnaryF64ToF64,
            Trap::UnaryF32ToI32,
            Trap::UnaryF64ToI32,
            Trap::UnaryI32ToI64,
            Trap::UnaryF32ToI64,
            Trap::UnaryF64ToI64,
            Trap::UnaryI32ToF32,
            Trap::UnaryI64ToF32,
            Trap::UnaryF64ToF32,
            Trap::UnaryI32ToF64,
            Trap::UnaryI64ToF64,
            Trap::UnaryF32ToF64,
        ],
        Hook::Binary => seq![
            Trap::BinaryI32I32ToI32,
            Trap::BinaryI64I64ToI32,
            Trap::BinaryF32F32ToI32,
            Trap::BinaryF64F64ToI32,
            Trap::BinaryI64I64ToI64,
            Trap::BinaryF32F32ToF32,
            Trap::BinaryF64F64ToF64,
        ],
        Hook::Drop => seq![Trap::Drop],
        Hook::Return => seq![Trap::Return],
        Hook::Const => seq![Trap::ConstI32, Trap::ConstF32, Trap::ConstI64, Trap::ConstF64],
        Hook::Local => seq![
            Trap::LocalGetI32,
            Trap::LocalSetI32,
            Trap::LocalTeeI32,
            Trap::LocalGetF32,
            Trap::LocalSetF32,
            Trap::LocalTeeF32,
            Trap::LocalGetI64,
            Trap::LocalSetI64,
            Trap::LocalTeeI64,
            Trap::LocalGetF64,
            Trap::LocalSetF64,
            Trap::LocalTeeF64,
        ],
        Hook::Global => seq![
            Trap::GlobalGetI32,
            Trap::GlobalSetI32,
            Trap::GlobalGetF32,
            Trap::GlobalSetF32,
            Trap::GlobalGetI64,
            Trap::GlobalSetI64,
            Trap::GlobalGetF64,
            Trap::GlobalSetF64,
        ],
        Hook::Store => seq![Trap::F32Store, Trap::F64Store, Trap::I32Store, Trap::I64Store],
        Hook::Load => seq![Trap::F32Load, Trap::F64Load, Trap::I32Load, Trap::I64Load],
        Hook::MemorySize => seq![Trap::MemorySize],
        Hook::MemoryGrow => seq![Trap::MemoryGrow],
        Hook::BlockPre => seq![Trap::BlockPre],
        Hook::BlockPost => seq![Trap::BlockPost],
        Hook::LoopPre => seq![Trap::LoopPre],
        Hook::LoopPost => seq![Trap::LoopPost],
        Hook::RefFunc => seq![Trap::RefFunc],
        Hook::RefNull => seq![Trap::RefNull],
        Hook::RefIsNull => seq![Trap::RefIsNull],
        Hook::TableGet => seq![Trap::TableGet],
        Hook::TableSet => seq![Trap::TableSet],
        Hook::TableSize => seq![Trap::TableSize],
        Hook::TableGrow => seq![Trap::TableGrow],
        Hook::TableFill => seq![Trap::TableFill],
        Hook::TableCopy => seq![
            Trap::TableCopy,
            Trap::TableCopyGetSource,
            Trap::TableCopyGetDestination,
            Trap::TableCopyGetSize,
        ],
        Hook::TableInit => seq![
            Trap::TableInit,
            Trap::TableInitGetElementSource,
            Trap::TableInitGetTableDestination,
            Trap::TableInitGetSize,
        ],
        Hook::ElemDrop => seq![Trap::ElemDrop],
    }
}

/// A hook that asks for the trap.
pub open spec fn trap_hook(t: Trap) -> Hook {
    match t {
        Trap::GenericApply => Hook::GenericApply,
        Trap::CallPre => Hook::CallPre,
        Trap::CallPost => Hook::CallPost,
        Trap::CallIndirectPre => Hook::CallIndirectPre,
        Trap::CallIndirectPost => Hook::CallIndirectPost,
        Trap::IfThen => Hook::IfThen,
        Trap::IfThenPost => Hook::IfThenPost,
        Trap::IfThenElse => Hook::IfThenElse,
        Trap::IfThenElsePost => Hook::IfThenElsePost,
        Trap::Br => Hook::Branch,
        Trap::BrIf => Hook::BranchIf,
        Trap::BrTable => Hook::BranchTable,
        Trap::Select => Hook::Select,
        Trap::UnaryI32ToI32 => Hook::Unary,
        Trap::UnaryI64ToI32 => Hook::Unary,
        Trap::UnaryI64ToI64 => Hook::Unary,
        Trap::UnaryF32ToF32 => Hook::Unary,
        Trap::UnaryF64ToF64 => Hook::Unary,
        Trap::UnaryF32ToI32 => Hook::Unary,
        Trap::UnaryF64ToI32 => Hook::Unary,
        Trap::UnaryI32ToI64 => Hook::Unary,
        Trap::UnaryF32ToI64 => Hook::Unary,
        Trap::UnaryF64ToI64 => Hook::Unary,
        Trap::UnaryI32ToF32 => Hook::Unary,
        Trap::UnaryI64ToF32 => Hook::Unary,
        Trap::UnaryF64ToF32 => Hook::Unary,
        Trap::UnaryI32ToF64 => Hook::Unary,
        Trap::UnaryI64ToF64 => Hook::Unary,
        Trap::UnaryF32ToF64 => Hook::Unary,
        Trap::BinaryI32I32ToI32 => Hook::Binary,
        Trap::BinaryI64I64ToI32 => Hook::Binary,
        Trap::BinaryF32F32ToI32 => Hook::Binary,
        Trap::BinaryF64F64ToI32 => Hook::Binary,
        Trap::BinaryI64I64ToI64 => Hook::Binary,
        Trap::BinaryF32F32ToF32 => Hook::Binary,
        Trap::BinaryF64F64ToF64 => Hook::Binary,
        Trap::Drop => Hook::Drop,
        Trap::Return => Hook::Return,
        Trap::ConstI32 => Hook::Const,
        Trap::ConstF32 => Hook::Const,
        Trap::ConstI64 => Hook::Const,
        Trap::ConstF64 => Hook::Const,
        Trap::LocalGetI32 => Hook::Local,
        Trap::LocalSetI32 => Hook::Local,
        Trap::LocalTeeI32 => Hook::Local,
        Trap::LocalGetF32 => Hook::Local,
        Trap::LocalSetF32 => Hook::Local,
        Trap::LocalTeeF32 => Hook::Local,
        Trap::LocalGetI64 => Hook::Local,
        Trap::LocalSetI64 => Hook::Local,
        Trap::LocalTeeI64 => Hook::Local,
        Trap::LocalGetF64 => Hook::Local,
        Trap::LocalSetF64 => Hook::Local,
        Trap::LocalTeeF64 => Hook::Local,
        Trap::GlobalGetI32 => Hook::Global,
        Trap::GlobalSetI32 => Hook::Global,
        Trap::GlobalGetF32 => Hook::Global,
        Trap::GlobalSetF32 => Hook::Global,
        Trap::GlobalGetI64 => Hook::Global,
        Trap::GlobalSetI64 => Hook::Global,
        Trap::GlobalGetF64 => Hook::Global,
        Trap::GlobalSetF64 => Hook::Global,
        Trap::F32Store => Hook::Store,
        Trap::F64Store => Hook::Store,
        Trap::I32Store => Hook::Store,
        Trap::I64Store => Hook::Store,
        Trap::F32Load => Hook::Load,
        Trap::F64Load => Hook::Load,
        Trap::I32Load => Hook::Load,
        Trap::I64Load => Hook::Load,
        Trap::MemorySize => Hook::MemorySize,
        Trap::MemoryGrow => Hook::MemoryGrow,
        Trap::BlockPre => Hook::BlockPre,
        Trap::BlockPost => Hook::BlockPost,
        Trap::LoopPre => Hook::LoopPre,
        Trap::LoopPost => Hook::LoopPost,
        Trap::RefFunc => Hook::RefFunc,
        Trap::RefNull => Hook::RefNull,
        Trap::RefIsNull => Hook::RefIsNull,
        Trap::TableGet => Hook::TableGet,
        Trap::TableSet => Hook::TableSet,
        Trap::TableSize => Hook::TableSize,
        Trap::TableGrow => Hook::TableGrow,
        Trap::TableFill => Hook::TableFill,
        Trap::TableCopy => Hook::TableCopy,
        Trap::TableCopyGetSource => Hook::TableCopy,
        Trap::TableCopyGetDestination => Hook::TableCopy,
        Trap::TableCopyGetSize => Hook::TableCopy,
        Trap::TableInit => Hook::TableInit,
        Trap::TableInitGetElementSource => Hook::TableInit,
        Trap::TableInitGetTableDestination => Hook::TableInit,
        Trap::TableInitGetSize => Hook::TableInit,
        Trap::ElemDrop => Hook::ElemDrop,
    }
}

proof fn lemma_trap_hook(t: Trap)
    ensures
        hook_traps(trap_hook(t)).contains(t),
{
    match t {
        Trap::GenericApply => assert(hook_traps(Hook::GenericApply)[0] == t),
        Trap::CallPre => assert(hook_traps(Hook::CallPre)[0] == t),
        Trap::CallPost => assert(hook_traps(Hook::CallPost)[0] == t),
        Trap::CallIndirectPre => assert(hook_traps(Hook::CallIndirectPre)[0] == t),
        Trap::CallIndirectPost => assert(hook_traps(Hook::CallIndirectPost)[0] == t),
        Trap::IfThen => assert(hook_traps(Hook::IfThen)[0] == t),
        Trap::IfThenPost => assert(hook_traps(Hook::IfThenPost)[0] == t),
        Trap::IfThenElse => assert(hook_traps(Hook::IfThenElse)[0] == t),
        Trap::IfThenElsePost => assert(hook_traps(Hook::IfThenElsePost)[0] == t),
        Trap::Br => assert(hook_traps(Hook::Branch)[0] == t),
        Trap::BrIf => assert(hook_traps(Hook::BranchIf)[0] == t),
        Trap::BrTable => assert(hook_traps(Hook::BranchTable)[0] == t),
        Trap::Select => assert(hook_traps(Hook::Select)[0] == t),
        Trap::UnaryI32ToI32 => assert(hook_traps(Hook::Unary)[0] == t),
        Trap::UnaryI64ToI32 => assert(hook_traps(Hook::Unary)[1] == t),
        Trap::UnaryI64ToI64 => assert(hook_traps(Hook::Unary)[2] == t),
        Trap::UnaryF32ToF32 => assert(hook_traps(Hook::Unary)[3] == t),
        Trap::UnaryF64ToF64 => assert(hook_traps(Hook::Unary)[4] == t),
        Trap::UnaryF32ToI32 => assert(hook_traps(Hook::Unary)[5] == t),
        Trap::UnaryF64ToI32 => assert(hook_traps(Hook::Unary)[6] == t),
        Trap::UnaryI32ToI64 => assert(hook_traps(Hook::Unary)[7] == t),
        Trap::UnaryF32ToI64 => assert(hook_traps(Hook::Unary)[8] == t),
        Trap::UnaryF64ToI64 => assert(hook_traps(Hook::Unary)[9] == t),
        Trap::UnaryI32ToF32 => assert(hook_traps(Hook::Unary)[10] == t),
        Trap::UnaryI64ToF32 => assert(hook_traps(Hook::Unary)[11] == t),
        Trap::UnaryF64ToF32 => assert(hook_traps(Hook::Unary)[12] == t),
        Trap::UnaryI32ToF64 => assert(hook_traps(Hook::Unary)[13] == t),
        Trap::UnaryI64ToF64 => assert(hook_traps(Hook::Unary)[14] == t),
        Trap::UnaryF32ToF64 => assert(hook_traps(Hook::Unary)[15] == t),
        Trap::BinaryI32I32ToI32 => assert(hook_traps(Hook::Binary)[0] == t),
        Trap::BinaryI64I64ToI32 => assert(hook_traps(Hook::Binary)[1] == t),
        Trap::BinaryF32F32ToI32 => assert(hook_traps(Hook::Binary)[2] == t),
        Trap::BinaryF64F64ToI32 => assert(hook_traps(Hook::Binary)[3] == t),
        Trap::BinaryI64I64ToI64 => assert(hook_traps(Hook::Binary)[4] == t),
        Trap::BinaryF32F32ToF32 => assert(hook_traps(Hook::Binary)[5] == t),
        Trap::BinaryF64F64ToF64 => assert(hook_traps(Hook::Binary)[6] == t),
        Trap::Drop => assert(hook_traps(Hook::Drop)[0] == t),
        Trap::Return => assert(hook_traps(Hook::Return)[0] == t),
        Trap::ConstI32 => assert(hook_traps(Hook::Const)[0] == t),
        Trap::ConstF32 => assert(hook_traps(Hook::Const)[1] == t),
        Trap::ConstI64 => assert(hook_traps(Hook::Const)[2] == t),
        Trap::ConstF64 => assert(hook_traps(Hook::Const)[3] == t),
        Trap::LocalGetI32 => assert(hook_traps(Hook::Local)[0] == t),
        Trap::LocalSetI32 => assert(hook_traps(Hook::Local)[1] == t),
        Trap::LocalTeeI32 => assert(hook_traps(Hook::Local)[2] == t),
        Trap::LocalGetF32 => assert(hook_traps(Hook::Local)[3] == t),
        Trap::LocalSetF32 => assert(hook_traps(Hook::Local)[4] == t),
        Trap::LocalTeeF32 => assert(hook_traps(Hook::Local)[5] == t),
        Trap::LocalGetI64 => assert(hook_traps(Hook::Local)[6] == t),
        Trap::LocalSetI64 => assert(hook_traps(Hook::Local)[7] == t),
        Trap::LocalTeeI64 => assert(hook_traps(Hook::Local)[8] == t),
        Trap::LocalGetF64 => assert(hook_traps(Hook::Local)[9] == t),
        Trap::LocalSetF64 => assert(hook_traps(Hook::Local)[10] == t),
        Trap::LocalTeeF64 => assert(hook_traps(Hook::Local)[11] == t),
        Trap::GlobalGetI32 => assert(hook_traps(Hook::Global)[0] == t),
        Trap::GlobalSetI32 => assert(hook_traps(Hook::Global)[1] == t),
        Trap::GlobalGetF32 => assert(hook_traps(Hook::Global)[2] == t),
        Trap::GlobalSetF32 => assert(hook_traps(Hook::Global)[3] == t),
        Trap::GlobalGetI64 => assert(hook_traps(Hook::Global)[4] == t),
        Trap::GlobalSetI64 => assert(hook_traps(Hook::Global)[5] == t),
        Trap::GlobalGetF64 => assert(hook_traps(Hook::Global)[6] == t),
        Trap::GlobalSetF64 => assert(hook_traps(Hook::Global)[7] == t),
        Trap::F32Store => assert(hook_traps(Hook::Store)[0] == t),
        Trap::F64Store => assert(hook_traps(Hook::Store)[1] == t),
        Trap::I32Store => assert(hook_traps(Hook::Store)[2] == t),
        Trap::I64Store => assert(hook_traps(Hook::Store)[3] == t),
        Trap::F32Load => assert(hook_traps(Hook::Load)[0] == t),
        Trap::F64Load => assert(hook_traps(Hook::Load)[1] == t),
        Trap::I32Load => assert(hook_traps(Hook::Load)[2] == t),
        Trap::I64Load => assert(hook_traps(Hook::Load)[3] == t),
        Trap::MemorySize => assert(hook_traps(Hook::MemorySize)[0] == t),
        Trap::MemoryGrow => assert(hook_traps(Hook::MemoryGrow)[0] == t),
        Trap::BlockPre => assert(hook_traps(Hook::BlockPre)[0] == t),
        Trap::BlockPost => assert(hook_traps(Hook::BlockPost)[0] == t),
        Trap::LoopPre => assert(hook_traps(Hook::LoopPre)[0] == t),
        Trap::LoopPost => assert(hook_traps(Hook::LoopPost)[0] == t),
        Trap::RefFunc => assert(hook_traps(Hook::RefFunc)[0] == t),
        Trap::RefNull => assert(hook_traps(Hook::RefNull)[0] == t),
        Trap::RefIsNull => assert(hook_traps(Hook::RefIsNull)[0] == t),
        Trap::TableGet => assert(hook_traps(Hook::TableGet)[0] == t),
        Trap::TableSet => assert(hook_traps(Hook::TableSet)[0] == t),
        Trap::TableSize => assert(hook_traps(Hook::TableSize)[0] == t),
        Trap::TableGrow => assert(hook_traps(Hook::TableGrow)[0] == t),
        Trap::TableFill => assert(hook_traps(Hook::TableFill)[0] == t),
        Trap::TableCopy => assert(hook_traps(Hook::TableCopy)[0] == t),
        Trap::TableCopyGetSource => assert(hook_traps(Hook::TableCopy)[1] == t),
        Trap::TableCopyGetDestination => assert(hook_traps(Hook::TableCopy)[2] == t),
        Trap::TableCopyGetSize => assert(hook_traps(Hook::TableCopy)[3] == t),
        Trap::TableInit => assert(hook_traps(Hook::TableInit)[0] == t),
        Trap::TableInitGetElementSource => assert(hook_traps(Hook::TableInit)[1] == t),
        Trap::TableInitGetTableDestination => assert(hook_traps(Hook::TableInit)[2] == t),
        Trap::TableInitGetSize => assert(hook_traps(Hook::TableInit)[3] == t),
        Trap::ElemDrop => assert(hook_traps(Hook::ElemDrop)[0] == t),
    }
}

/// The traps that a hook asks for, in order.
pub fn traps_of_hook(h: Hook) -> (res: Vec<Trap>)
    ensures
        res@ == hook_traps(h),
{
    let v = match h {
        Hook::GenericApply => vec![Trap::GenericApply],
        Hook::CallPre => vec![Trap::CallPre],
        Hook::CallPost => vec![Trap::CallPost],
        Hook::CallIndirectPre => vec![Trap::CallIndirectPre],
        Hook::CallIndirectPost => vec![Trap::CallIndirectPost],
        Hook::IfThen => vec![Trap::IfThen],
        Hook::IfThenPost => vec![Trap::IfThenPost],
        Hook::IfThenElse => vec![Trap::IfThenElse],
        Hook::IfThenElsePost => vec![Trap::IfThenElsePost],
        Hook::Branch => vec![Trap::Br],
        Hook::BranchIf => vec![Trap::BrIf],
        Hook::BranchTable => vec![Trap::BrTable],
        Hook::Select => vec![Trap::Select],
        Hook::Unary => vec![
            Trap::UnaryI32ToI32,
            Trap::UnaryI64ToI32,
            Trap::UnaryI64ToI64,
            Trap::UnaryF32ToF32,
            Trap::UnaryF64ToF64,
            Trap::UnaryF32ToI32,
            Trap::UnaryF64ToI32,
            Trap::UnaryI32ToI64,
            Trap::UnaryF32ToI64,
            Trap::UnaryF64ToI64,
            Trap::UnaryI32ToF32,
            Trap::UnaryI64ToF32,
            Trap::UnaryF64ToF32,
            Trap::UnaryI32ToF64,
            Trap::UnaryI64ToF64,
            Trap::UnaryF32ToF64,
        ],
        Hook::Binary => vec![
            Trap::BinaryI32I32ToI32,
            Trap::BinaryI64I64ToI32,
            Trap::BinaryF32F32ToI32,
            Trap::BinaryF64F64ToI32,
            Trap::BinaryI64I64ToI64,
            Trap::BinaryF32F32ToF32,
            Trap::BinaryF64F64ToF64,
        ],
        Hook::Drop => vec![Trap::Drop],
        Hook::Return => vec![Trap::Return],
        Hook::Const => vec![Trap::ConstI32, Trap::ConstF32, Trap::ConstI64, Trap::ConstF64],
        Hook::Local => vec![
            Trap::LocalGetI32,
            Trap::LocalSetI32,
            Trap::LocalTeeI32,
            Trap::LocalGetF32,
            Trap::LocalSetF32,
            Trap::LocalTeeF32,
            Trap::LocalGetI64,
            Trap::LocalSetI64,
            Trap::LocalTeeI64,
            Trap::LocalGetF64,
            Trap::LocalSetF64,
            Trap::LocalTeeF64,
        ],
        Hook::Global => vec![
            Trap::GlobalGetI32,
            Trap::GlobalSetI32,
            Trap::GlobalGetF32,
            Trap::GlobalSetF32,
            Trap::GlobalGetI64,
            Trap::GlobalSetI64,
            Trap::GlobalGetF64,
            Trap::GlobalSetF64,
        ],
        Hook::Store => vec![Trap::F32Store, Trap::F64Store, Trap::I32Store, Trap::I64Store],
        Hook::Load => vec![Trap::F32Load, Trap::F64Load, Trap::I32Load, Trap::I64Load],
        Hook::MemorySize => vec![Trap::MemorySize],
        Hook::MemoryGrow => vec![Trap::MemoryGrow],
        Hook::BlockPre => vec![Trap::BlockPre],
        Hook::BlockPost => vec![Trap::BlockPost],
        Hook::LoopPre => vec![Trap::LoopPre],
        Hook::LoopPost => vec![Trap::LoopPost],
        Hook::RefFunc => vec![Trap::RefFunc],
        Hook::RefNull => vec![Trap::RefNull],
        Hook::RefIsNull => vec![Trap::RefIsNull],
        Hook::TableGet => vec![Trap::TableGet],
        Hook::TableSet => vec![Trap::TableSet],
        Hook::TableSize => vec![Trap::TableSize],
        Hook::TableGrow => vec![Trap::TableGrow],
        Hook::TableFill => vec![Trap::TableFill],
        Hook::TableCopy => vec![
            Trap::TableCopy,
            Trap::TableCopyGetSource,
            Trap::TableCopyGetDestination,
            Trap::TableCopyGetSize,
        ],
        Hook::TableInit => vec![
            Trap::TableInit,
            Trap::TableInitGetElementSource,
            Trap::TableInitGetTableDestination,
            Trap::TableInitGetSize,
        ],
        Hook::ElemDrop => vec![Trap::ElemDrop],
    };
    proof {
        assert(v@ =~= hook_traps(h));
    }
    v
}

/// The traps that a list of hooks asks for together.
pub open spec fn interface_of(hooks: Seq<Hook>) -> Set<Trap> {
    Set::new(|t: Trap| exists|i: int| 0 <= i < hooks.len() && #[trigger] hook_traps(hooks[i]).contains(t))
}

/// The interface between instrumented code and an analysis: the traps of the
/// analysis that instrumentation calls.
pub struct AnalysisInterface {
    traps: Vec<Trap>,
}

impl View for AnalysisInterface {
    type V = Set<Trap>;

    closed spec fn view(&self) -> Set<Trap> {
        Set::new(|t: Trap| self.traps@.contains(t))
    }
}

impl Default for AnalysisInterface {
    fn default() -> (res: Self)
        ensures
            res@ == Set::<Trap>::empty(),
    {
        AnalysisInterface::new()
    }
}

impl AnalysisInterface {
    /// The interface without traps.
    pub fn new() -> (res: Self)
        ensures
            res@ == Set::<Trap>::empty(),
    {
        let res = AnalysisInterface { traps: Vec::new() };
        proof {
            assert(res@ =~= Set::<Trap>::empty());
        }
        res
    }

    /// Whether instrumentation calls the trap.
    pub fn has(&self, t: Trap) -> (res: bool)
        ensures
            res == self@.contains(t),
    {
        let mut i: usize = 0;
        while i < self.traps.len()
            invariant
                0 <= i <= self.traps.len(),
                forall|k: int| 0 <= k < i ==> self.traps@[k] != t,
            decreases self.traps.len() - i,
        {
            if self.traps[i] == t {
                return true;
            }
            i = i + 1;
        }
        false
    }

    /// Adds the trap to the interface.
    pub fn request(&mut self, t: Trap)
        ensures
            final(self)@ == old(self)@.insert(t),
    {
        if !self.has(t) {
            self.traps.push(t);
            proof {
                assert forall|x: Trap| #[trigger] self.traps@.contains(x) <==> (old(
                    self,
                ).traps@.contains(x) || x == t) by {
                    if self.traps@.contains(x) {
                        let k = choose|k: int| 0 <= k < self.traps@.len() && self.traps@[k] == x;
                        if k < old(self).traps@.len() {
                            assert(old(self).traps@[k] == x);
                        }
                    }
                    if old(self).traps@.contains(x) {
                        let k = choose|k: int|
                            0 <= k < old(self).traps@.len() && old(self).traps@[k] == x;
                        assert(self.traps@[k] == x);
                    }
                    if x == t {
                        assert(self.traps@[old(self).traps@.len() as int] == x);
                    }
                }
            }
        }
        proof {
            assert(self@ =~= old(self)@.insert(t));
        }
    }
}

/// The interface that the hooks ask for: every trap of every hook.
pub fn interface_from(hooks: &Vec<Hook>) -> (res: AnalysisInterface)
    ensures
        res@ == interface_of(hooks@),
{
    let mut interface = AnalysisInterface::new();
    let mut i: usize = 0;
    while i < hooks.len()
        invariant
            0 <= i <= hooks.len(),
            interface@ == interface_of(hooks@.take(i as int)),
        decreases hooks.len() - i,
    {
        let ts = traps_of_hook(hooks[i]);
        let mut j: usize = 0;
        while j < ts.len()
            invariant
                0 <= i < hooks.len(),
                0 <= j <= ts.len(),
                ts@ == hook_traps(hooks@[i as int]),
                interface@ == interface_of(hooks@.take(i as int)).union(
                    ts@.take(j as int).to_set(),
                ),
            decreases ts.len() - j,
        {
            interface.request(ts[j]);
            proof {
                assert(ts@.take(j + 1) =~= ts@.take(j as int).push(ts@[j as int]));
                broadcast use vstd::seq_lib::group_seq_properties;
                assert(ts@.take(j + 1).to_set() =~= ts@.take(j as int).to_set().insert(ts@[j as int]));
            }
            j = j + 1;
        }
        proof {
            assert(ts@.take(j as int) =~= ts@);
            let next = hooks@.take(i + 1);
            assert(next =~= hooks@.take(i as int).push(hooks@[i as int]));
            assert forall|t: Trap| interface@.contains(t) == interface_of(next).contains(t) by {
                if interface_of(hooks@.take(i as int)).contains(t) {
                    let k = choose|k: int| 0 <= k < i && #[trigger] hook_traps(hooks@.take(i as int)[k]).contains(t);
                    assert(next[k] == hooks@.take(i as int)[k]);
                    assert(hook_traps(next[k]).contains(t));
                }
                if ts@.to_set().contains(t) {
                    assert(hook_traps(next[i as int]).contains(t));
                }
                if interface_of(next).contains(t) {
                    let k = choose|k: int| 0 <= k < i + 1 && #[trigger] hook_traps(next[k]).contains(t);
                    if k < i {
                        assert(hook_traps(hooks@.take(i as int)[k]).contains(t));
                    } else {
                        assert(ts@.contains(t));
                    }
                }
            }
            assert(interface@ =~= interface_of(next));
        }
        i = i + 1;
    }
    proof {
        assert(hooks@.take(hooks.len() as int) =~= hooks@);
    }
    interface
}

/// The interface of two lists of hooks together is the union of their
/// interfaces.
pub proof fn law_interface_union(a: Seq<Hook>, b: Seq<Hook>)
    ensures
        interface_of(a + b) == interface_of(a).union(interface_of(b)),
{
    let ab = a + b;
    assert forall|t: Trap| interface_of(ab).contains(t) == interface_of(a).union(
        interface_of(b),
    ).contains(t) by {
        if interface_of(ab).contains(t) {
            let k = choose|k: int| 0 <= k < ab.len() && #[trigger] hook_traps(ab[k]).contains(t);
            if k < a.len() {
                assert(hook_traps(a[k]).contains(t));
            } else {
                assert(ab[k] == b[k - a.len()]);
                assert(hook_traps(b[k - a.len()]).contains(t));
            }
        }
        if interface_of(a).contains(t) {
            let k = choose|k: int| 0 <= k < a.len() && #[trigger] hook_traps(a[k]).contains(t);
            assert(ab[k] == a[k]);
            assert(hook_traps(ab[k]).contains(t));
        }
        if interface_of(b).contains(t) {
            let k = choose|k: int| 0 <= k < b.len() && #[trigger] hook_traps(b[k]).contains(t);
            assert(ab[k + a.len()] == b[k]);
            assert(hook_traps(ab[k + a.len()]).contains(t));
        }
    }
    assert(interface_of(ab) =~= interface_of(a).union(interface_of(b)));
}

/// Only which hooks are listed matters: neither their order nor repetitions
/// change the interface.
pub proof fn law_interface_depends_on_hook_set(a: Seq<Hook>, b: Seq<Hook>)
    requires
        a.to_set() == b.to_set(),
    ensures
        interface_of(a) == interface_of(b),
{
    assert forall|t: Trap| interface_of(a).contains(t) implies interface_of(b).contains(t) by {
        let k = choose|k: int| 0 <= k < a.len() && #[trigger] hook_traps(a[k]).contains(t);
        assert(a.to_set().contains(a[k]));
        assert(b.to_set().contains(a[k]));
        let j = choose|j: int| 0 <= j < b.len() && b[j] == a[k];
        assert(hook_traps(b[j]).contains(t));
    }
    assert forall|t: Trap| interface_of(b).contains(t) implies interface_of(a).contains(t) by {
        let k = choose|k: int| 0 <= k < b.len() && #[trigger] hook_traps(b[k]).contains(t);
        assert(b.to_set().contains(b[k]));
        assert(a.to_set().contains(b[k]));
        let j = choose|j: int| 0 <= j < a.len() && a[j] == b[k];
        assert(hook_traps(a[j]).contains(t));
    }
    assert(interface_of(a) =~= interface_of(b));
}

/// An interface built from hooks that holds the `table.copy` or `table.init`
/// trap also holds the three getters through which the analysis hands back the
/// operands, as instrumentation needs.
pub proof fn law_interface_table_getters(hooks: Seq<Hook>)
    ensures
        composite_complete(interface_of(hooks)),
{
    if interface_of(hooks).contains(Trap::TableCopy) {
        let k = choose|k: int|
            0 <= k < hooks.len() && #[trigger] hook_traps(hooks[k]).contains(Trap::TableCopy);
        let h = hooks[k];
        assert(h == Hook::TableCopy) by {
            if h != Hook::TableCopy {
                assert(!hook_traps(h).contains(Trap::TableCopy));
            }
        }
        assert(hook_traps(h)[1] == Trap::TableCopyGetSource);
        assert(hook_traps(h)[2] == Trap::TableCopyGetDestination);
        assert(hook_traps(h)[3] == Trap::TableCopyGetSize);
        assert(hook_traps(hooks[k]).contains(Trap::TableCopyGetSource));
        assert(interface_of(hooks).contains(Trap::TableCopyGetSource));
        assert(hook_traps(hooks[k]).contains(Trap::TableCopyGetDestination));
        assert(interface_of(hooks).contains(Trap::TableCopyGetDestination));
        assert(hook_traps(hooks[k]).contains(Trap::TableCopyGetSize));
        assert(interface_of(hooks).contains(Trap::TableCopyGetSize));
    }
    if interface_of(hooks).contains(Trap::TableInit) {
        let k = choose|k: int|
            0 <= k < hooks.len() && #[trigger] hook_traps(hooks[k]).contains(Trap::TableInit);
        let h = hooks[k];
        assert(h == Hook::TableInit) by {
            if h != Hook::TableInit {
                assert(!hook_traps(h).contains(Trap::TableInit));
            }
        }
        assert(hook_traps(h)[1] == Trap::TableInitGetElementSource);
        assert(hook_traps(h)[2] == Trap::TableInitGetTableDestination);
        assert(hook_traps(h)[3] == Trap::TableInitGetSize);
        assert(hook_traps(hooks[k]).contains(Trap::TableInitGetElementSource));
        assert(interface_of(hooks).contains(Trap::TableInitGetElementSource));
        assert(hook_traps(hooks[k]).contains(Trap::TableInitGetTableDestination));
        assert(interface_of(hooks).contains(Trap::TableInitGetTableDestination));
        assert(hook_traps(hooks[k]).contains(Trap::TableInitGetSize));
        assert(interface_of(hooks).contains(Trap::TableInitGetSize));
    }
}

/// Asking for every hook asks for every trap.
pub proof fn law_all_hooks_request_every_trap()
    ensures
        forall|t: Trap| #[trigger] interface_of(spec_all_hooks()).contains(t),
{
    law_all_hooks_complete();
    assert forall|t: Trap| #[trigger] interface_of(spec_all_hooks()).contains(t) by {
        lemma_trap_hook(t);
        let h = trap_hook(t);
        assert(spec_all_hooks().contains(h));
        let k = choose|k: int| 0 <= k < spec_all_hooks().len() && spec_all_hooks()[k] == h;
        assert(hook_traps(spec_all_hooks()[k]).contains(t));
    }
}

/// Each hook asks for the traps of the instructions it is named after, and
/// for no other: the branch hook for the `br` trap, the branch-if hook for the
/// `br_if` trap, the constant hook for the four constant traps, and so on.
pub proof fn law_hooks_ask_for_their_own_traps()
    ensures
        hook_traps(Hook::GenericApply) =~= seq![Trap::GenericApply],
        hook_traps(Hook::CallPre) =~= seq![Trap::CallPre],
        hook_traps(Hook::CallPost) =~= seq![Trap::CallPost],
        hook_traps(Hook::CallIndirectPre) =~= seq![Trap::CallIndirectPre],
        hook_traps(Hook::CallIndirectPost) =~= seq![Trap::CallIndirectPost],
        hook_traps(Hook::IfThen) =~= seq![Trap::IfThen],
        hook_traps(Hook::IfThenPost) =~= seq![Trap::IfThenPost],
        hook_traps(Hook::IfThenElse) =~= seq![Trap::IfThenElse],
        hook_traps(Hook::IfThenElsePost) =~= seq![Trap::IfThenElsePost],
        hook_traps(Hook::Branch) =~= seq![Trap::Br],
        hook_traps(Hook::BranchIf) =~= seq![Trap::BrIf],
        hook_traps(Hook::BranchTable) =~= seq![Trap::BrTable],
        hook_traps(Hook::Select) =~= seq![Trap::Select],
        hook_traps(Hook::Unary) =~= seq![Trap::UnaryI32ToI32, Trap::UnaryI64ToI32, Trap::UnaryI64ToI64, Trap::UnaryF32ToF32, Trap::UnaryF64ToF64, Trap::UnaryF32ToI32, Trap::UnaryF64ToI32, Trap::UnaryI32ToI64, Trap::UnaryF32ToI64, Trap::UnaryF64ToI64, Trap::UnaryI32ToF32, Trap::UnaryI64ToF32, Trap::UnaryF64ToF32, Trap::UnaryI32ToF64, Trap::UnaryI64ToF64, Trap::UnaryF32ToF64],
        hook_traps(Hook::Binary) =~= seq![Trap::BinaryI32I32ToI32, Trap::BinaryI64I64ToI32, Trap::BinaryF32F32ToI32, Trap::BinaryF64F64ToI32, Trap::BinaryI64I64ToI64, Trap::BinaryF32F32ToF32, Trap::BinaryF64F64ToF64],
        hook_traps(Hook::Drop) =~= seq![Trap::Drop],
        hook_traps(Hook::Return) =~= seq![Trap::Return],
        hook_traps(Hook::Const) =~= seq![Trap::ConstI32, Trap::ConstF32, Trap::ConstI64, Trap::ConstF64],
        hook_traps(Hook::Local) =~= seq![Trap::LocalGetI32, Trap::LocalSetI32, Trap::LocalTeeI32, Trap::LocalGetF32, Trap::LocalSetF32, Trap::LocalTeeF32, Trap::LocalGetI64, Trap::LocalSetI64, Trap::LocalTeeI64, Trap::LocalGetF64, Trap::LocalSetF64, Trap::LocalTeeF64],
        hook_traps(Hook::Global) =~= seq![Trap::GlobalGetI32, Trap::GlobalSetI32, Trap::GlobalGetF32, Trap::GlobalSetF32, Trap::GlobalGetI64, Trap::GlobalSetI64, Trap::GlobalGetF64, Trap::GlobalSetF64],
        hook_traps(Hook::Store) =~= seq![Trap::F32Store, Trap::F64Store, Trap::I32Store, Trap::I64Store],
        hook_traps(Hook::Load) =~= seq![Trap::F32Load, Trap::F64Load, Trap::I32Load, Trap::I64Load],
        hook_traps(Hook::MemorySize) =~= seq![Trap::MemorySize],
        hook_traps(Hook::MemoryGrow) =~= seq![Trap::MemoryGrow],
        hook_traps(Hook::BlockPre) =~= seq![Trap::BlockPre],
        hook_traps(Hook::BlockPost) =~= seq![Trap::BlockPost],
        hook_traps(Hook::LoopPre) =~= seq![Trap::LoopPre],
        hook_traps(Hook::LoopPost) =~= seq![Trap::LoopPost],
        hook_traps(Hook::RefFunc) =~= seq![Trap::RefFunc],
        hook_traps(Hook::RefNull) =~= seq![Trap::RefNull],
        hook_traps(Hook::RefIsNull) =~= seq![Trap::RefIsNull],
        hook_traps(Hook::TableGet) =~= seq![Trap::TableGet],
        hook_traps(Hook::TableSet) =~= seq![Trap::TableSet],
        hook_traps(Hook::TableSize) =~= seq![Trap::TableSize],
        hook_traps(Hook::TableGrow) =~= seq![Trap::TableGrow],
        hook_traps(Hook::TableFill) =~= seq![Trap::TableFill],
        hook_traps(Hook::TableCopy) =~= seq![Trap::TableCopy, Trap::TableCopyGetSource, Trap::TableCopyGetDestination, Trap::TableCopyGetSize],
        hook_traps(Hook::TableInit) =~= seq![Trap::TableInit, Trap::TableInitGetElementSource, Trap::TableInitGetTableDestination, Trap::TableInitGetSize],
        hook_traps(Hook::ElemDrop) =~= seq![Trap::ElemDrop],
{
}

} // verus!
