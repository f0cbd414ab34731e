//! The hooks an analysis can ask for, and what an analysis is made of.
use vstd::prelude::*;

use crate::interface::{interface_of, interface_from, AnalysisInterface};

verus! {

/// A kind of event of the instrumented program that an analysis can hook into.
#[derive(Debug, Clone, Copy, PartialEq, Eq, Hash, Structural)]
pub enum Hook {
    GenericApply,
    CallPre,
    CallPost,
    CallIndirectPre,
    CallIndirectPost,
    IfThen,
    IfThenPost,
    IfThenElse,
    IfThenElsePost,
    Branch,
    BranchIf,
    BranchTable,
    Select,
    Unary,
    Binary,
    Drop,
    Return,
    Const,
    Local,
    Global,
    Store,
    Load,
    MemorySize,
    MemoryGrow,
    BlockPre,
    BlockPost,
    LoopPre,
    LoopPost,
    RefFunc,
    RefNull,
    RefIsNull,
    TableGet,
    TableSet,
    TableSize,
    TableGrow,
    TableFill,
    TableCopy,
    TableInit,
    ElemDrop,
}

/// Every hook, in declaration order.
pub open spec fn spec_all_hooks() -> Seq<Hook> {
    seq![
        Hook::GenericApply,
        Hook::CallPre,
        Hook::CallPost,
        Hook::CallIndirectPre,
        Hook::CallIndirectPost,
        Hook::IfThen,
        Hook::IfThenPost,
        Hook::IfThenElse,
        Hook::IfThenElsePost,
        Hook::Branch,
        Hook::BranchIf,
        Hook::BranchTable,
        Hook::Select,
        Hook::Unary,
        Hook::Binary,
        Hook::Drop,
        Hook::Return,
        Hook::Const,
        Hook::Local,
        Hook::Global,
        Hook::Store,
        Hook::Load,
        Hook::MemorySize,
        Hook::MemoryGrow,
        Hook::BlockPre,
        Hook::BlockPost,
        Hook::LoopPre,
        Hook::LoopPost,
        Hook::RefFunc,
        Hook::RefNull,
        Hook::RefIsNull,
        Hook::TableGet,
        Hook::TableSet,
        Hook::TableSize,
        Hook::TableGrow,
        Hook::TableFill,
        Hook::TableCopy,
        Hook::TableInit,
        Hook::ElemDrop,
    ]
}

/// The position of a hook in `spec_all_hooks`.
pub open spec fn hook_position(h: Hook) -> int {
    match h {
        Hook::GenericApply => 0,
        Hook::CallPre => 1,
        Hook::CallPost => 2,
        Hook::CallIndirectPre => 3,
        Hook::CallIndirectPost => 4,
        Hook::IfThen => 5,
        Hook::IfThenPost => 6,
        Hook::IfThenElse => 7,
        Hook::IfThenElsePost => 8,
        Hook::Branch => 9,
        Hook::BranchIf => 10,
        Hook::BranchTable => 11,
        Hook::Select => 12,
        Hook::Unary => 13,
        Hook::Binary => 14,
        Hook::Drop => 15,
        Hook::Return => 16,
        Hook::Const => 17,
        Hook::Local => 18,
        Hook::Global => 19,
        Hook::Store => 20,
        Hook::Load => 21,
        Hook::MemorySize => 22,
        Hook::MemoryGrow => 23,
        Hook::BlockPre => 24,
        Hook::BlockPost => 25,
        Hook::LoopPre => 26,
        Hook::LoopPost => 27,
        Hook::RefFunc => 28,
        Hook::RefNull => 29,
        Hook::RefIsNull => 30,
        Hook::TableGet => 31,
        Hook::TableSet => 32,
        Hook::TableSize => 33,
        Hook::TableGrow => 34,
        Hook::TableFill => 35,
        Hook::TableCopy => 36,
        Hook::TableInit => 37,
        Hook::ElemDrop => 38,
    }
}

proof fn lemma_hook_positions()
    ensures
        forall|h: Hook| #[trigger] spec_all_hooks()[hook_position(h)] == h,
        forall|i: int| 0 <= i < 39 ==> hook_position(#[trigger] spec_all_hooks()[i]) == i,
        spec_all_hooks().len() == 39,
{
    let s = spec_all_hooks();
    assert forall|h: Hook| #[trigger] s[hook_position(h)] == h by {
        match h {
            Hook::GenericApply => assert(s[0] == h),
            Hook::CallPre => assert(s[1] == h),
            Hook::CallPost => assert(s[2] == h),
            Hook::CallIndirectPre => assert(s[3] == h),
            Hook::CallIndirectPost => assert(s[4] == h),
            Hook::IfThen => assert(s[5] == h),
            Hook::IfThenPost => assert(s[6] == h),
            Hook::IfThenElse => assert(s[7] == h),
            Hook::IfThenElsePost => assert(s[8] == h),
            Hook::Branch => assert(s[9] == h),
            Hook::BranchIf => assert(s[10] == h),
            Hook::BranchTable => assert(s[11] == h),
            Hook::Select => assert(s[12] == h),
            Hook::Unary => assert(s[13] == h),
            Hook::Binary => assert(s[14] == h),
            Hook::Drop => assert(s[15] == h),
            Hook::Return => assert(s[16] == h),
            Hook::Const => assert(s[17] == h),
            Hook::Local => assert(s[18] == h),
            Hook::Global => assert(s[19] == h),
            Hook::Store => assert(s[20] == h),
            Hook::Load => assert(s[21] == h),
            Hook::MemorySize => assert(s[22] == h),
            Hook::MemoryGrow => assert(s[23] == h),
            Hook::BlockPre => assert(s[24] == h),
            Hook::BlockPost => assert(s[25] == h),
            Hook::LoopPre => assert(s[26] == h),
            Hook::LoopPost => assert(s[27] == h),
            Hook::RefFunc => assert(s[28] == h),
            Hook::RefNull => assert(s[29] == h),
            Hook::RefIsNull => assert(s[30] == h),
            Hook::TableGet => assert(s[31] == h),
            Hook::TableSet => assert(s[32] == h),
            Hook::TableSize => assert(s[33] == h),
            Hook::TableGrow => assert(s[34] == h),
            Hook::TableFill => assert(s[35] == h),
            Hook::TableCopy => assert(s[36] == h),
            Hook::TableInit => assert(s[37] == h),
            Hook::ElemDrop => assert(s[38] == h),
        }
    }
    assert(hook_position(s[0]) == 0);
    assert(hook_position(s[1]) == 1);
    assert(hook_position(s[2]) == 2);
    assert(hook_position(s[3]) == 3);
    assert(hook_position(s[4]) == 4);
    assert(hook_position(s[5]) == 5);
    assert(hook_position(s[6]) == 6);
    assert(hook_position(s[7]) == 7);
    assert(hook_position(s[8]) == 8);
    assert(hook_position(s[9]) == 9);
    assert(hook_position(s[10]) == 10);
    assert(hook_position(s[11]) == 11);
    assert(hook_position(s[12]) == 12);
    assert(hook_position(s[13]) == 13);
    assert(hook_position(s[14]) == 14);
    assert(hook_position(s[15]) == 15);
    assert(hook_position(s[16]) == 16);
    assert(hook_position(s[17]) == 17);
    assert(hook_position(s[18]) == 18);
    assert(hook_position(s[19]) == 19);
    assert(hook_position(s[20]) == 20);
    assert(hook_position(s[21]) == 21);
    assert(hook_position(s[22]) == 22);
    assert(hook_position(s[23]) == 23);
    assert(hook_position(s[24]) == 24);
    assert(hook_position(s[25]) == 25);
    assert(hook_position(s[26]) == 26);
    assert(hook_position(s[27]) == 27);
    assert(hook_position(s[28]) == 28);
    assert(hook_position(s[29]) == 29);
    assert(hook_position(s[30]) == 30);
    assert(hook_position(s[31]) == 31);
    assert(hook_position(s[32]) == 32);
    assert(hook_position(s[33]) == 33);
    assert(hook_position(s[34]) == 34);
    assert(hook_position(s[35]) == 35);
    assert(hook_position(s[36]) == 36);
    assert(hook_position(s[37]) == 37);
    assert(hook_position(s[38]) == 38);
}

/// The hook list holds every hook exactly once.
pub proof fn law_all_hooks_complete()
    ensures
        spec_all_hooks().no_duplicates(),
        forall|h: Hook| #[trigger] spec_all_hooks().contains(h),
{
    lemma_hook_positions();
    let s = spec_all_hooks();
    assert forall|h: Hook| #[trigger] s.contains(h) by {
        assert(s[hook_position(h)] == h);
        assert(0 <= hook_position(h) < 39);
    }
    assert forall|i: int, j: int| 0 <= i < s.len() && 0 <= j < s.len() && i != j implies s[i]
        != s[j] by {
        assert(hook_position(s[i]) == i);
        assert(hook_position(s[j]) == j);
    }
}

impl Hook {
    /// Every hook, each once.
    pub fn all_hooks() -> (res: Vec<Hook>)
        ensures
            res@ == spec_all_hooks(),
            res@.no_duplicates(),
            forall|h: Hook| #[trigger] res@.contains(h),
    {
        proof {
            law_all_hooks_complete();
        }
        let v = vec![
            Hook::GenericApply,
            Hook::CallPre,
            Hook::CallPost,
            Hook::CallIndirectPre,
            Hook::CallIndirectPost,
            Hook::IfThen,
            Hook::IfThenPost,
            Hook::IfThenElse,
            Hook::IfThenElsePost,
            Hook::Branch,
            Hook::BranchIf,
            Hook::BranchTable,
            Hook::Select,
            Hook::Unary,
            Hook::Binary,
            Hook::Drop,
            Hook::Return,
            Hook::Const,
            Hook::Local,
            Hook::Global,
            Hook::Store,
            Hook::Load,
            Hook::MemorySize,
            Hook::MemoryGrow,
            Hook::BlockPre,
            Hook::BlockPost,
            Hook::LoopPre,
            Hook::LoopPost,
            Hook::RefFunc,
            Hook::RefNull,
            Hook::RefIsNull,
            Hook::TableGet,
            Hook::TableSet,
            Hook::TableSize,
            Hook::TableGrow,
            Hook::TableFill,
            Hook::TableCopy,
            Hook::TableInit,
            Hook::ElemDrop,
        ];
        proof {
            assert(v@ =~= spec_all_hooks());
        }
        v
    }
}

/// An analysis as written: its source, and the hooks it implements.
pub struct RustAnalysisSpec<Source> {
    pub source: Source,
    pub hooks: Vec<Hook>,
}

/// An analysis ready for instrumentation: the library to compile, and the
/// interface that instrumentation calls into.
pub struct ProcessedAnalysis<Source> {
    pub analysis_library: Source,
    pub analysis_interface: AnalysisInterface,
}

impl<Source> RustAnalysisSpec<Source> {
    /// The processed analysis: the same source, with the interface that the
    /// hooks ask for.
    pub fn processed(self) -> (res: ProcessedAnalysis<Source>)
        ensures
            res.analysis_library == self.source,
            res.analysis_interface@ == interface_of(self.hooks@),
    {
        let RustAnalysisSpec { source, hooks } = self;
        let analysis_interface = interface_from(&hooks);
        ProcessedAnalysis { analysis_interface, analysis_library: source }
    }
}

} // verus!
