//! What instrumenting a module decides: which functions are instrumented, and
//! which analysis traps are imported, at which function indices.
use vstd::prelude::*;

use crate::body::{Body, ValType};
use crate::interface::{AnalysisInterface, Trap};
use crate::table;
use crate::wastrumenter::analysis_namespace;

verus! {

/// The signature of a function.
#[derive(Debug)]
pub struct FunctionType {
    pub inputs: Vec<ValType>,
    pub results: Vec<ValType>,
}

/// What instrumentation reads of a function of the module: its signature, and
/// whether it is imported (and so has no body).
pub struct Function {
    pub type_: FunctionType,
    pub imported: bool,
}

/// Why instrumenting a module failed.
#[derive(Debug)]
pub enum InstrumentationError {
    ParseModuleError(String),
    AttemptInnerInstrumentImport,
    LowToHighError(String),
    EncodeError(String),
}

/// An instrumented module, and the instrumentation library that it needs,
/// when it needs one.
pub struct Instrumented<Library> {
    pub module: Vec<u8>,
    pub instrumentation_library: Option<Library>,
}

/// Whether a value type is a reference type.
pub open spec fn is_reference(v: ValType) -> bool {
    v is Ref
}

/// Whether a function takes or returns a reference.
pub open spec fn spec_uses_reference_types(f: Function) -> bool {
    ||| exists|i: int| 0 <= i < f.type_.inputs@.len() && is_reference(#[trigger] f.type_.inputs@[i])
    ||| exists|i: int|
        0 <= i < f.type_.results@.len() && is_reference(#[trigger] f.type_.results@[i])
}

/// Whether one of the value types is a reference type.
fn any_reference(types: &Vec<ValType>) -> (res: bool)
    ensures
        res == exists|i: int| 0 <= i < types@.len() && is_reference(#[trigger] types@[i]),
{
    let mut i: usize = 0;
    while i < types.len()
        invariant
            0 <= i <= types@.len(),
            forall|k: int| 0 <= k < i ==> !is_reference(#[trigger] types@[k]),
        decreases types.len() - i,
    {
        match types[i] {
            ValType::I32 | ValType::I64 | ValType::F32 | ValType::F64 => {},
            ValType::Ref(_) => {
                return true;
            },
        }
        i = i + 1;
    }
    false
}

/// Whether a function takes or returns a reference; such functions are left
/// uninstrumented.
pub fn uses_reference_types(f: &Function) -> (res: bool)
    ensures
        res == spec_uses_reference_types(*f),
{
    if any_reference(&f.type_.inputs) {
        return true;
    }
    any_reference(&f.type_.results)
}

/// Whether the function at `idx` is instrumented: it takes and returns no
/// reference, it has a body unless imports are included, and it is among the
/// requested indices when there are any.
pub open spec fn is_selected(
    f: Function,
    idx: int,
    target_indices: Option<Seq<u32>>,
    include_imports: bool,
) -> bool {
    &&& include_imports || !f.imported
    &&& !spec_uses_reference_types(f)
    &&& match target_indices {
        Some(ts) => ts.contains(idx as u32),
        None => true,
    }
}

/// The indices, in increasing order, of the first `n` functions that are
/// selected.
pub open spec fn selection(
    functions: Seq<Function>,
    target_indices: Option<Seq<u32>>,
    include_imports: bool,
    n: nat,
) -> Seq<u32>
    decreases n,
{
    if n == 0 {
        Seq::empty()
    } else {
        let rest = selection(functions, target_indices, include_imports, (n - 1) as nat);
        if is_selected(functions[n - 1], n - 1, target_indices, include_imports) {
            rest.push((n - 1) as u32)
        } else {
            rest
        }
    }
}

/// The requested indices, as a sequence.
pub open spec fn requested(target_indices: Option<Vec<u32>>) -> Option<Seq<u32>> {
    match target_indices {
        Some(ts) => Some(ts@),
        None => None,
    }
}

/// Whether `x` is among the values of `v`.
fn contains_u32(v: &Vec<u32>, x: u32) -> (res: bool)
    ensures
        res == v@.contains(x),
{
    let mut i: usize = 0;
    while i < v.len()
        invariant
            0 <= i <= v@.len(),
            forall|k: int| 0 <= k < i ==> v@[k] != x,
        decreases v.len() - i,
    {
        if v[i] == x {
            return true;
        }
        i = i + 1;
    }
    false
}

/// The indices of the functions to instrument, in increasing order.
pub fn selected_functions(
    functions: &Vec<Function>,
    target_indices: &Option<Vec<u32>>,
    include_imports: bool,
) -> (res: Vec<u32>)
    requires
        functions@.len() <= u32::MAX + 1,
    ensures
        res@ == selection(
            functions@,
            requested(*target_indices),
            include_imports,
            functions@.len(),
        ),
{
    let mut res: Vec<u32> = Vec::new();
    let mut i: usize = 0;
    while i < functions.len()
        invariant
            0 <= i <= functions@.len(),
            functions@.len() <= u32::MAX + 1,
            res@ == selection(functions@, requested(*target_indices), include_imports, i as nat),
        decreases functions.len() - i,
    {
        let f = &functions[i];
        let wanted = match target_indices {
            Some(ts) => contains_u32(ts, i as u32),
            None => true,
        };
        if (include_imports || !f.imported) && !uses_reference_types(f) && wanted {
            res.push(i as u32);
        }
        i = i + 1;
    }
    res
}

/// The order in which the traps that have a transformation of their own are
/// imported.
pub open spec fn install_order() -> Seq<Trap> {
    seq![
        Trap::BlockPre,
        Trap::BlockPost,
        Trap::LoopPre,
        Trap::LoopPost,
        Trap::Select,
        Trap::CallPre,
        Trap::CallPost,
        Trap::CallIndirectPre,
        Trap::CallIndirectPost,
        Trap::IfThen,
        Trap::IfThenPost,
        Trap::IfThenElse,
        Trap::IfThenElsePost,
        Trap::Br,
        Trap::BrIf,
        Trap::BrTable,
        Trap::Drop,
        Trap::Return,
        Trap::ConstI32,
        Trap::ConstF32,
        Trap::ConstI64,
        Trap::ConstF64,
        Trap::UnaryI32ToI32,
        Trap::UnaryI64ToI32,
        Trap::UnaryI64ToI64,
        Trap::UnaryF32ToF32,
        Trap::UnaryF64ToF64,
        Trap::UnaryF32ToI32,
        Trap::UnaryF64ToI32,
        Trap::UnaryI32ToI64,
        Trap::UnaryF32ToI64,
        Trap::UnaryF64ToI64,
        Trap::UnaryI32ToF32,
        Trap::UnaryI64ToF32,
        Trap::UnaryF64ToF32,
        Trap::UnaryI32ToF64,
        Trap::UnaryI64ToF64,
        Trap::UnaryF32ToF64,
        Trap::BinaryI32I32ToI32,
        Trap::BinaryI64I64ToI32,
        Trap::BinaryF32F32ToI32,
        Trap::BinaryF64F64ToI32,
        Trap::BinaryI64I64ToI64,
        Trap::BinaryF32F32ToF32,
        Trap::BinaryF64F64ToF64,
        Trap::MemorySize,
        Trap::MemoryGrow,
        Trap::LocalGetI32,
        Trap::LocalSetI32,
        Trap::LocalTeeI32,
        Trap::GlobalGetI32,
        Trap::GlobalSetI32,
        Trap::LocalGetF32,
        Trap::LocalSetF32,
        Trap::LocalTeeF32,
        Trap::GlobalGetF32,
        Trap::GlobalSetF32,
        Trap::LocalGetI64,
        Trap::LocalSetI64,
        Trap::LocalTeeI64,
        Trap::GlobalGetI64,
        Trap::GlobalSetI64,
        Trap::LocalGetF64,
        Trap::LocalSetF64,
        Trap::LocalTeeF64,
        Trap::GlobalGetF64,
        Trap::GlobalSetF64,
        Trap::F32Store,
        Trap::F64Store,
        Trap::I32Store,
        Trap::I64Store,
        Trap::F32Load,
        Trap::F64Load,
        Trap::I32Load,
        Trap::I64Load,
        Trap::TableGet,
        Trap::TableSet,
        Trap::TableSize,
        Trap::TableGrow,
        Trap::TableFill,
        Trap::ElemDrop,
    ]
}

/// `install_order`, executable.
fn install_order_exec() -> (res: Vec<Trap>)
    ensures
        res@ == install_order(),
{
    let v = vec![
            Trap::BlockPre,
            Trap::BlockPost,
            Trap::LoopPre,
            Trap::LoopPost,
            Trap::Select,
            Trap::CallPre,
            Trap::CallPost,
            Trap::CallIndirectPre,
            Trap::CallIndirectPost,
            Trap::IfThen,
            Trap::IfThenPost,
            Trap::IfThenElse,
            Trap::IfThenElsePost,
            Trap::Br,
            Trap::BrIf,
            Trap::BrTable,
            Trap::Drop,
            Trap::Return,
            Trap::ConstI32,
            Trap::ConstF32,
            Trap::ConstI64,
            Trap::ConstF64,
            Trap::UnaryI32ToI32,
            Trap::UnaryI64ToI32,
            Trap::UnaryI64ToI64,
            Trap::UnaryF32ToF32,
            Trap::UnaryF64ToF64,
            Trap::UnaryF32ToI32,
            Trap::UnaryF64ToI32,
            Trap::UnaryI32ToI64,
            Trap::UnaryF32ToI64,
            Trap::UnaryF64ToI64,
            Trap::UnaryI32ToF32,
            Trap::UnaryI64ToF32,
            Trap::UnaryF64ToF32,
            Trap::UnaryI32ToF64,
            Trap::UnaryI64ToF64,
            Trap::UnaryF32ToF64,
            Trap::BinaryI32I32ToI32,
            Trap::BinaryI64I64ToI32,
            Trap::BinaryF32F32ToI32,
            Trap::BinaryF64F64ToI32,
            Trap::BinaryI64I64ToI64,
            Trap::BinaryF32F32ToF32,
            Trap::BinaryF64F64ToF64,
            Trap::MemorySize,
            Trap::MemoryGrow,
            Trap::LocalGetI32,
            Trap::LocalSetI32,
            Trap::LocalTeeI32,
            Trap::GlobalGetI32,
            Trap::GlobalSetI32,
            Trap::LocalGetF32,
            Trap::LocalSetF32,
            Trap::LocalTeeF32,
            Trap::GlobalGetF32,
            Trap::GlobalSetF32,
            Trap::LocalGetI64,
            Trap::LocalSetI64,
            Trap::LocalTeeI64,
            Trap::GlobalGetI64,
            Trap::GlobalSetI64,
            Trap::LocalGetF64,
            Trap::LocalSetF64,
            Trap::LocalTeeF64,
            Trap::GlobalGetF64,
            Trap::GlobalSetF64,
            Trap::F32Store,
            Trap::F64Store,
            Trap::I32Store,
            Trap::I64Store,
            Trap::F32Load,
            Trap::F64Load,
            Trap::I32Load,
            Trap::I64Load,
            Trap::TableGet,
            Trap::TableSet,
            Trap::TableSize,
            Trap::TableGrow,
            Trap::TableFill,
            Trap::ElemDrop,
    ];
    proof {
        assert(v@ =~= install_order());
    }
    v
}

/// The traps of `order` that the interface holds, each with the index of the
/// function import that serves it: the imports follow one another from `next`
/// on.
pub open spec fn planned_installs(order: Seq<Trap>, interface: Set<Trap>, next: nat) -> Seq<
    (Trap, u32),
>
    decreases order.len(),
{
    if order.len() == 0 {
        Seq::empty()
    } else if interface.contains(order[0]) {
        seq![(order[0], next as u32)] + planned_installs(order.drop_first(), interface, next + 1)
    } else {
        planned_installs(order.drop_first(), interface, next)
    }
}

/// Whether the interface holds a composite trap together with its three
/// getters, or does not hold it.
pub open spec fn composite_complete(interface: Set<Trap>) -> bool {
    &&& interface.contains(Trap::TableCopy) ==> {
        &&& interface.contains(Trap::TableCopyGetSource)
        &&& interface.contains(Trap::TableCopyGetDestination)
        &&& interface.contains(Trap::TableCopyGetSize)
    }
    &&& interface.contains(Trap::TableInit) ==> {
        &&& interface.contains(Trap::TableInitGetElementSource)
        &&& interface.contains(Trap::TableInitGetTableDestination)
        &&& interface.contains(Trap::TableInitGetSize)
    }
}

/// What instrumenting a module decides.
pub struct InstrumentationPlan {
    /// The functions whose calls are routed through the analysis, imports
    /// included, in increasing order.
    pub target_indices_including_imports: Vec<u32>,
    /// The functions whose bodies are instrumented, in increasing order.
    pub target_indices: Vec<u32>,
    /// The imported traps, in import order, each with its function index.
    pub installed: Vec<(Trap, u32)>,
    /// The `table.copy` transformation, with its trap and getters.
    pub table_copy: Option<table::Target>,
    /// The `table.init` transformation, with its trap and getters.
    pub table_init: Option<table::Target>,
    /// The number of functions once every trap is imported.
    pub function_count: u32,
    /// Whether the instrumentation library that applies functions through the
    /// analysis (with its value stack) is generated: exactly when the
    /// interface holds the generic apply trap.
    pub stack_library: bool,
}

/// The `table.copy` transformation whose four imports start at `k`.
pub open spec fn table_copy_at(k: nat) -> table::Target {
    table::Target::TableCopy {
        trap_idx: k as u32,
        get_src_idx: (k + 1) as u32,
        get_dst_idx: (k + 2) as u32,
        get_size_idx: (k + 3) as u32,
    }
}

/// The `table.init` transformation whose four imports start at `k`.
pub open spec fn table_init_at(k: nat) -> table::Target {
    table::Target::TableInit {
        trap_idx: k as u32,
        get_elem_source_idx: (k + 1) as u32,
        get_table_destination_idx: (k + 2) as u32,
        get_size_idx: (k + 3) as u32,
    }
}

/// Whether `plan` is what instrumenting a module with these functions decides,
/// for the interface and the requested indices: the two selections, then the
/// imports of `install_order`, then those of `table.copy` (trap, source,
/// destination, size) and of `table.init` (trap, element source, table
/// destination, size), each after the functions already there; and the
/// instrumentation library is generated exactly when the interface holds the
/// generic apply trap.
pub open spec fn is_plan(
    plan: InstrumentationPlan,
    functions: Seq<Function>,
    interface: Set<Trap>,
    target_indices: Option<Seq<u32>>,
) -> bool {
    let n = functions.len();
    let installs = planned_installs(install_order(), interface, n);
    let k_copy = n + installs.len();
    let k_init = k_copy + (if interface.contains(Trap::TableCopy) { 4nat } else { 0nat });
    let end = k_init + (if interface.contains(Trap::TableInit) { 4nat } else { 0nat });
    &&& plan.target_indices_including_imports@ == selection(functions, target_indices, true, n)
    &&& plan.target_indices@ == selection(functions, target_indices, false, n)
    &&& plan.installed@ == installs
    &&& plan.table_copy == (if interface.contains(Trap::TableCopy) {
        Some(table_copy_at(k_copy))
    } else {
        None
    })
    &&& plan.table_init == (if interface.contains(Trap::TableInit) {
        Some(table_init_at(k_init))
    } else {
        None
    })
    &&& plan.function_count == end
    &&& plan.stack_library == interface.contains(Trap::GenericApply)
}

proof fn lemma_planned_installs_len(order: Seq<Trap>, interface: Set<Trap>, next: nat)
    ensures
        planned_installs(order, interface, next).len() <= order.len(),
    decreases order.len(),
{
    if order.len() > 0 {
        lemma_planned_installs_len(order.drop_first(), interface, next);
        lemma_planned_installs_len(order.drop_first(), interface, next + 1);
    }
}

proof fn lemma_planned_installs_step(order: Seq<Trap>, interface: Set<Trap>, next: nat, i: int)
    requires
        0 <= i < order.len(),
    ensures
        planned_installs(order.take(i + 1), interface, next) == planned_installs(
            order.take(i),
            interface,
            next,
        ) + (if interface.contains(order[i]) {
            seq![(order[i], (next + planned_installs(order.take(i), interface, next).len()) as u32)]
        } else {
            Seq::empty()
        }),
    decreases i,
{
    let a = order.take(i + 1);
    let b = order.take(i);
    if i == 0 {
        assert(b =~= Seq::<Trap>::empty());
        assert(a.drop_first() =~= Seq::<Trap>::empty());
        assert(a[0] == order[0]);
        assert(planned_installs(a.drop_first(), interface, next + 1) == Seq::<(Trap, u32)>::empty());
        assert(planned_installs(a.drop_first(), interface, next) == Seq::<(Trap, u32)>::empty());
        assert(planned_installs(b, interface, next) == Seq::<(Trap, u32)>::empty());
        if interface.contains(order[0]) {
            assert(planned_installs(a, interface, next) =~= seq![(order[0], next as u32)]);
        } else {
            assert(planned_installs(a, interface, next) =~= Seq::<(Trap, u32)>::empty());
        }
    } else {
        let d = order.drop_first();
        assert(a.drop_first() =~= d.take(i));
        assert(b.drop_first() =~= d.take(i - 1));
        assert(d[i - 1] == order[i]);
        assert(a[0] == order[0] && b[0] == order[0]);
        if interface.contains(order[0]) {
            lemma_planned_installs_step(d, interface, next + 1, i - 1);
            assert(planned_installs(a, interface, next) =~= planned_installs(b, interface, next) + (
            if interface.contains(order[i]) {
                seq![(order[i], (next + planned_installs(b, interface, next).len()) as u32)]
            } else {
                Seq::empty()
            }));
        } else {
            lemma_planned_installs_step(d, interface, next, i - 1);
        }
    }
}

/// Decides the instrumentation of a module with these functions, for the
/// interface and the requested indices.
pub fn plan_instrumentation(
    functions: &Vec<Function>,
    analysis_interface: &AnalysisInterface,
    target_indices: &Option<Vec<u32>>,
) -> (res: InstrumentationPlan)
    requires
        functions@.len() + 89 <= u32::MAX,
        composite_complete(analysis_interface@),
    ensures
        is_plan(res, functions@, analysis_interface@, requested(*target_indices)),
{
    let target_indices_including_imports = selected_functions(functions, target_indices, true);
    let selected = selected_functions(functions, target_indices, false);
    let order = install_order_exec();
    let ghost n = functions@.len();
    let mut next: u32 = functions.len() as u32;
    let mut installed: Vec<(Trap, u32)> = Vec::new();
    let mut i: usize = 0;
    proof {
        lemma_planned_installs_len(install_order(), analysis_interface@, n);
    }
    while i < order.len()
        invariant
            0 <= i <= order@.len(),
            order@ == install_order(),
            n + 89 <= u32::MAX,
            installed@ == planned_installs(order@.take(i as int), analysis_interface@, n),
            next == n + installed@.len(),
            installed@.len() <= i,
        decreases order.len() - i,
    {
        let t = order[i];
        proof {
            lemma_planned_installs_step(order@, analysis_interface@, n, i as int);
        }
        if analysis_interface.has(t) {
            installed.push((t, next));
            next = next + 1;
        }
        i = i + 1;
    }
    proof {
        assert(order@.take(i as int) =~= install_order());
    }
    let table_copy = if analysis_interface.has(Trap::TableCopy) {
        let k = next;
        next = next + 4;
        Some(
            table::Target::TableCopy {
                trap_idx: k,
                get_src_idx: k + 1,
                get_dst_idx: k + 2,
                get_size_idx: k + 3,
            },
        )
    } else {
        None
    };
    let table_init = if analysis_interface.has(Trap::TableInit) {
        let k = next;
        next = next + 4;
        Some(
            table::Target::TableInit {
                trap_idx: k,
                get_elem_source_idx: k + 1,
                get_table_destination_idx: k + 2,
                get_size_idx: k + 3,
            },
        )
    } else {
        None
    };
    InstrumentationPlan {
        target_indices_including_imports,
        target_indices: selected,
        installed,
        table_copy,
        table_init,
        function_count: next,
        stack_library: analysis_interface.has(Trap::GenericApply),
    }
}

/// A function is instrumented exactly when it is selected, and the selection
/// lists each such index once, in increasing order.
pub proof fn law_selection_exact(
    functions: Seq<Function>,
    target_indices: Option<Seq<u32>>,
    include_imports: bool,
    n: nat,
)
    requires
        n <= functions.len(),
        n <= u32::MAX + 1,
    ensures
        forall|i: int|
            0 <= i <= u32::MAX ==> (#[trigger] selection(
                functions,
                target_indices,
                include_imports,
                n,
            ).contains(i as u32) <==> (i < n && is_selected(
                functions[i],
                i,
                target_indices,
                include_imports,
            ))),
        forall|j: int, k: int|
            0 <= j < k < selection(functions, target_indices, include_imports, n).len() ==> #[trigger] selection(
                functions,
                target_indices,
                include_imports,
                n,
            )[j] < #[trigger] selection(functions, target_indices, include_imports, n)[k],
        forall|j: int|
            0 <= j < selection(functions, target_indices, include_imports, n).len() ==> #[trigger] selection(
                functions,
                target_indices,
                include_imports,
                n,
            )[j] < n,
    decreases n,
{
    if n > 0 {
        let m = (n - 1) as nat;
        law_selection_exact(functions, target_indices, include_imports, m);
        let rest = selection(functions, target_indices, include_imports, m);
        let sel = selection(functions, target_indices, include_imports, n);
        assert forall|i: int| 0 <= i <= u32::MAX implies (#[trigger] sel.contains(i as u32) <==> (i
            < n && is_selected(functions[i], i, target_indices, include_imports))) by {
            if is_selected(functions[m as int], m as int, target_indices, include_imports) {
                assert(sel == rest.push(m as u32));
                if sel.contains(i as u32) && !rest.contains(i as u32) {
                    let k = choose|k: int| 0 <= k < sel.len() && sel[k] == i as u32;
                    assert(k == rest.len());
                }
                if rest.contains(i as u32) {
                    let k = choose|k: int| 0 <= k < rest.len() && rest[k] == i as u32;
                    assert(sel[k] == i as u32);
                }
                if i == m {
                    assert(sel[rest.len() as int] == i as u32);
                }
            }
        }
    }
}

/// The functions whose bodies are instrumented are among those whose calls go
/// through the analysis, and none of them is imported.
pub proof fn law_body_targets_are_call_targets(
    functions: Seq<Function>,
    target_indices: Option<Seq<u32>>,
)
    requires
        functions.len() <= u32::MAX + 1,
    ensures
        forall|i: int|
            0 <= i <= u32::MAX && #[trigger] selection(
                functions,
                target_indices,
                false,
                functions.len(),
            ).contains(i as u32) ==> selection(
                functions,
                target_indices,
                true,
                functions.len(),
            ).contains(i as u32) && !functions[i].imported,
{
    law_selection_exact(functions, target_indices, false, functions.len());
    law_selection_exact(functions, target_indices, true, functions.len());
}

/// The imported traps are exactly the traps of the order that the interface
/// holds, in that order, and their imports take the function indices that
/// follow `next`, one after the other.
pub proof fn law_installs_in_order(order: Seq<Trap>, interface: Set<Trap>, next: nat)
    ensures
        forall|j: int|
            0 <= j < planned_installs(order, interface, next).len() ==> (#[trigger] planned_installs(
                order,
                interface,
                next,
            )[j]).1 == (next + j) as u32,
        forall|j: int|
            0 <= j < planned_installs(order, interface, next).len() ==> interface.contains(
                (#[trigger] planned_installs(order, interface, next)[j]).0,
            ) && order.contains(planned_installs(order, interface, next)[j].0),
        forall|t: Trap|
            order.contains(t) && #[trigger] interface.contains(t) ==> exists|j: int|
                0 <= j < planned_installs(order, interface, next).len() && planned_installs(
                    order,
                    interface,
                    next,
                )[j].0 == t,
    decreases order.len(),
{
    if order.len() > 0 {
        let d = order.drop_first();
        let p = planned_installs(order, interface, next);
        if interface.contains(order[0]) {
            law_installs_in_order(d, interface, next + 1);
            let q = planned_installs(d, interface, next + 1);
            assert(p == seq![(order[0], next as u32)] + q);
            assert forall|j: int| 0 <= j < p.len() implies (#[trigger] p[j]).1 == (next + j) as u32 by {
                if j > 0 {
                    assert(p[j] == q[j - 1]);
                }
            }
            assert forall|j: int| 0 <= j < p.len() implies interface.contains((#[trigger] p[j]).0)
                && order.contains(p[j].0) by {
                if j > 0 {
                    assert(p[j] == q[j - 1]);
                    let k = choose|k: int| 0 <= k < d.len() && d[k] == q[j - 1].0;
                    assert(order[k + 1] == d[k]);
                } else {
                    assert(order[0] == p[0].0);
                }
            }
            assert forall|t: Trap| order.contains(t) && #[trigger] interface.contains(t) implies exists|j: int|
                0 <= j < p.len() && p[j].0 == t by {
                if t == order[0] {
                    assert(p[0].0 == t);
                } else {
                    let k = choose|k: int| 0 <= k < order.len() && order[k] == t;
                    assert(d[k - 1] == t);
                    let j = choose|j: int| 0 <= j < q.len() && q[j].0 == t;
                    assert(p[j + 1].0 == t);
                }
            }
        } else {
            law_installs_in_order(d, interface, next);
            let q = planned_installs(d, interface, next);
            assert forall|j: int| 0 <= j < p.len() implies interface.contains((#[trigger] p[j]).0)
                && order.contains(p[j].0) by {
                let k = choose|k: int| 0 <= k < d.len() && d[k] == q[j].0;
                assert(order[k + 1] == d[k]);
            }
            assert forall|t: Trap| order.contains(t) && #[trigger] interface.contains(t) implies exists|j: int|
                0 <= j < p.len() && p[j].0 == t by {
                let k = choose|k: int| 0 <= k < order.len() && order[k] == t;
                assert(k != 0);
                assert(d[k - 1] == t);
            }
        }
    }
}

/// The table transformation that serves an imported trap, when the trap has
/// one: table get, set, size, grow and fill, and element drop.
pub open spec fn table_target_of(trap: Trap, idx: u32) -> Option<table::Target> {
    match trap {
        Trap::TableGet => Some(table::Target::TableGet(idx)),
        Trap::TableSet => Some(table::Target::TableSet(idx)),
        Trap::TableSize => Some(table::Target::TableSize(idx)),
        Trap::TableGrow => Some(table::Target::TableGrow(idx)),
        Trap::TableFill => Some(table::Target::TableFill(idx)),
        Trap::ElemDrop => Some(table::Target::ElemDrop(idx)),
        _ => None,
    }
}

/// The table transformations of the imported traps, in import order.
pub open spec fn table_targets_of(installed: Seq<(Trap, u32)>) -> Seq<table::Target>
    decreases installed.len(),
{
    if installed.len() == 0 {
        Seq::empty()
    } else {
        let rest = table_targets_of(installed.drop_last());
        match table_target_of(installed.last().0, installed.last().1) {
            Some(t) => rest.push(t),
            None => rest,
        }
    }
}

/// The table transformations of a plan, in the order in which they rewrite a
/// body: those of the imported traps, then `table.copy`, then `table.init`.
pub open spec fn plan_table_targets(plan: InstrumentationPlan) -> Seq<table::Target> {
    table_targets_of(plan.installed@) + match plan.table_copy {
        Some(t) => seq![t],
        None => Seq::empty(),
    } + match plan.table_init {
        Some(t) => seq![t],
        None => Seq::empty(),
    }
}

/// The table transformation that serves an imported trap, when the trap has
/// one.
fn table_target_of_exec(trap: Trap, idx: u32) -> (res: Option<table::Target>)
    ensures
        res == table_target_of(trap, idx),
{
    match trap {
        Trap::TableGet => Some(table::Target::TableGet(idx)),
        Trap::TableSet => Some(table::Target::TableSet(idx)),
        Trap::TableSize => Some(table::Target::TableSize(idx)),
        Trap::TableGrow => Some(table::Target::TableGrow(idx)),
        Trap::TableFill => Some(table::Target::TableFill(idx)),
        Trap::ElemDrop => Some(table::Target::ElemDrop(idx)),
        _ => None,
    }
}

/// The table transformations of a plan, in the order in which they rewrite a
/// body.
pub fn table_targets(plan: &InstrumentationPlan) -> (res: Vec<table::Target>)
    ensures
        res@ == plan_table_targets(*plan),
{
    let mut res: Vec<table::Target> = Vec::new();
    let mut i: usize = 0;
    while i < plan.installed.len()
        invariant
            0 <= i <= plan.installed@.len(),
            res@ == table_targets_of(plan.installed@.take(i as int)),
        decreases plan.installed.len() - i,
    {
        let (trap, idx) = plan.installed[i];
        proof {
            let next = plan.installed@.take(i + 1);
            assert(next.drop_last() =~= plan.installed@.take(i as int));
            assert(next.last() == plan.installed@[i as int]);
        }
        match table_target_of_exec(trap, idx) {
            Some(t) => res.push(t),
            None => {},
        }
        i = i + 1;
    }
    proof {
        assert(plan.installed@.take(i as int) =~= plan.installed@);
    }
    match plan.table_copy {
        Some(t) => res.push(t),
        None => {},
    }
    match plan.table_init {
        Some(t) => res.push(t),
        None => {},
    }
    proof {
        assert(res@ =~= plan_table_targets(*plan));
    }
    res
}

/// The table transformations that a plan for `n` functions and the interface
/// holds, in the order of `plan_table_targets`.
pub open spec fn planned_table_targets(n: nat, interface: Set<Trap>) -> Seq<table::Target> {
    let installs = planned_installs(install_order(), interface, n);
    let k_copy = n + installs.len();
    let k_init = k_copy + (if interface.contains(Trap::TableCopy) { 4nat } else { 0nat });
    table_targets_of(installs) + (if interface.contains(Trap::TableCopy) {
        seq![table_copy_at(k_copy)]
    } else {
        Seq::empty()
    }) + (if interface.contains(Trap::TableInit) {
        seq![table_init_at(k_init)]
    } else {
        Seq::empty()
    })
}

/// The table transformations of a plan are fixed by the number of functions
/// and the interface.
pub proof fn lemma_plan_table_targets(
    plan: InstrumentationPlan,
    functions: Seq<Function>,
    interface: Set<Trap>,
    target_indices: Option<Seq<u32>>,
)
    requires
        is_plan(plan, functions, interface, target_indices),
    ensures
        plan_table_targets(plan) == planned_table_targets(functions.len(), interface),
{
}

/// The bodies at the given function indices, in that order.
pub open spec fn selected_bodies(bodies: Seq<Body>, indices: Seq<u32>) -> Seq<Body> {
    Seq::new(indices.len(), |j: int| bodies[indices[j] as int])
}

/// Whether every body at one of the indices fits each of the targets.
pub open spec fn bodies_fit(bodies: Seq<Body>, indices: Seq<u32>, targets: Seq<table::Target>) -> bool {
    forall|j: int, k: int|
        0 <= j < indices.len() && 0 <= k < targets.len() ==> table::list_fits(
            #[trigger] bodies[indices[j] as int],
            #[trigger] targets[k],
        )
}

/// The bodies at the indices, which increase and stay below the number of
/// bodies, in that order.
fn take_selected(bodies: Vec<Body>, indices: &Vec<u32>) -> (res: Vec<Body>)
    requires
        forall|j: int, k: int| 0 <= j < k < indices@.len() ==> indices@[j] < indices@[k],
        forall|j: int| 0 <= j < indices@.len() ==> indices@[j] < bodies@.len(),
    ensures
        res@ == selected_bodies(bodies@, indices@),
{
    let ghost all = bodies@;
    let ghost sel = indices@;
    let n = bodies.len();
    let mut rest = bodies;
    let mut res: Vec<Body> = Vec::new();
    let mut i: usize = 0;
    let mut j: usize = 0;
    proof {
        assert(all.skip(0) =~= all);
    }
    while i < n
        invariant
            n == all.len(),
            sel == indices@,
            0 <= i <= n,
            0 <= j <= sel.len(),
            rest@ == all.skip(i as int),
            forall|a: int, b: int| 0 <= a < b < sel.len() ==> sel[a] < sel[b],
            forall|a: int| 0 <= a < sel.len() ==> sel[a] < all.len(),
            forall|a: int| 0 <= a < j ==> sel[a] < i,
            j < sel.len() ==> sel[j as int] >= i,
            res@ == selected_bodies(all, sel).take(j as int),
        decreases n - i,
    {
        let b = rest.remove(0);
        proof {
            assert(b == all[i as int]);
            assert(rest@ =~= all.skip(i + 1));
        }
        if j < indices.len() && indices[j] as usize == i {
            res.push(b);
            proof {
                assert(selected_bodies(all, sel).take(j + 1) =~= selected_bodies(all, sel).take(
                    j as int,
                ).push(b));
            }
            j = j + 1;
        }
        i = i + 1;
    }
    proof {
        if j < sel.len() {
            assert(sel[j as int] < all.len());
        }
        assert(selected_bodies(all, sel).take(j as int) =~= selected_bodies(all, sel));
    }
    res
}

/// Decides the instrumentation of a module with these functions, whose bodies
/// are `bodies` (one per function, in order), and rewrites the body of each
/// function to instrument with the plan's table transformations. The
/// rewritten bodies come in the order of the plan's `target_indices`; the
/// globals that the rewriting needs are declared in `globals`.
pub fn instrument_bodies(
    functions: &Vec<Function>,
    bodies: Vec<Body>,
    analysis_interface: &AnalysisInterface,
    target_indices: &Option<Vec<u32>>,
    globals: &mut table::Globals,
) -> (res: (InstrumentationPlan, Vec<Body>))
    requires
        functions@.len() + 89 <= u32::MAX,
        composite_complete(analysis_interface@),
        bodies@.len() == functions@.len(),
        bodies_fit(
            bodies@,
            selection(functions@, requested(*target_indices), false, functions@.len()),
            planned_table_targets(functions@.len(), analysis_interface@),
        ),
        old(globals)@.len() + table::globals_needed(
            selected_bodies(
                bodies@,
                selection(functions@, requested(*target_indices), false, functions@.len()),
            ),
            planned_table_targets(functions@.len(), analysis_interface@).len(),
        ) <= u32::MAX,
    ensures
        is_plan(res.0, functions@, analysis_interface@, requested(*target_indices)),
        res.1@ == table::rewrite_bodies_spec(
            selected_bodies(bodies@, res.0.target_indices@),
            plan_table_targets(res.0),
            old(globals)@,
        ).0,
        final(globals)@ == table::rewrite_bodies_spec(
            selected_bodies(bodies@, res.0.target_indices@),
            plan_table_targets(res.0),
            old(globals)@,
        ).1,
{
    let plan = plan_instrumentation(functions, analysis_interface, target_indices);
    let targets = table_targets(&plan);
    let ghost sel = plan.target_indices@;
    proof {
        lemma_plan_table_targets(plan, functions@, analysis_interface@, requested(*target_indices));
        law_selection_exact(functions@, requested(*target_indices), false, functions@.len());
    }
    let chosen = take_selected(bodies, &plan.target_indices);
    proof {
        assert forall|i: int, k: int|
            0 <= i < chosen@.len() && 0 <= k < targets@.len() implies table::list_fits(
            #[trigger] chosen@[i],
            #[trigger] targets@[k],
        ) by {
            assert(chosen@[i] == bodies@[sel[i] as int]);
        }
    }
    let rewritten = table::rewrite_bodies(chosen, &targets, globals);
    (plan, rewritten)
}

/// The value types in the signatures of the analysis's exports.
#[derive(Debug, Clone, Copy, PartialEq, Eq, Structural)]
pub enum WasmType {
    I32,
    F32,
    I64,
    F64,
}

/// A function that the analysis exports: its name and signature.
#[derive(Debug)]
pub struct WasmExport {
    pub name: String,
    pub args: Vec<WasmType>,
    pub results: Vec<WasmType>,
}

/// A function import of a module: the module it comes from, its name and its
/// signature.
#[derive(Debug)]
pub struct FunctionImport {
    pub module: String,
    pub name: String,
    pub type_: FunctionType,
}

/// The value type of the module that stands for a value type of the analysis.
pub open spec fn val_type_of(t: WasmType) -> ValType {
    match t {
        WasmType::I32 => ValType::I32,
        WasmType::F32 => ValType::F32,
        WasmType::I64 => ValType::I64,
        WasmType::F64 => ValType::F64,
    }
}

/// The value types of the module that stand for the given ones, in order.
pub open spec fn val_types_of(ts: Seq<WasmType>) -> Seq<ValType> {
    ts.map_values(|t: WasmType| val_type_of(t))
}

/// The value types of the module that stand for the given ones, in order.
fn val_types(ts: &Vec<WasmType>) -> (res: Vec<ValType>)
    ensures
        res@ == val_types_of(ts@),
{
    let mut res: Vec<ValType> = Vec::new();
    let mut k: usize = 0;
    while k < ts.len()
        invariant
            0 <= k <= ts@.len(),
            res@ == val_types_of(ts@.take(k as int)),
        decreases ts.len() - k,
    {
        let v = match ts[k] {
            WasmType::I32 => ValType::I32,
            WasmType::F32 => ValType::F32,
            WasmType::I64 => ValType::I64,
            WasmType::F64 => ValType::F64,
        };
        res.push(v);
        proof {
            assert(val_types_of(ts@.take(k + 1)) =~= val_types_of(ts@.take(k as int)).push(v));
        }
        k = k + 1;
    }
    proof {
        assert(ts@.take(k as int) =~= ts@);
    }
    res
}

impl WasmExport {
    /// The signature of the export, in the value types of the module.
    pub fn as_function_type(&self) -> (res: FunctionType)
        ensures
            res.inputs@ == val_types_of(self.args@),
            res.results@ == val_types_of(self.results@),
    {
        FunctionType { inputs: val_types(&self.args), results: val_types(&self.results) }
    }
}

/// The import through which the instrumented module calls an export of the
/// analysis: from the analysis module, under the export's name, with its
/// signature.
pub fn import_of(export: &WasmExport) -> (res: FunctionImport)
    ensures
        res.module@ == analysis_namespace(),
        res.name@ == export.name@,
        res.type_.inputs@ == val_types_of(export.args@),
        res.type_.results@ == val_types_of(export.results@),
{
    proof {
        reveal_strlit("instrumentation_analysis");
    }
    FunctionImport {
        module: String::from_str("instrumentation_analysis"),
        name: export.name.clone(),
        type_: export.as_function_type(),
    }
}

/// Whether `imp` is the import of the export `e`.
pub open spec fn is_import_of(imp: FunctionImport, e: WasmExport) -> bool {
    &&& imp.module@ == analysis_namespace()
    &&& imp.name@ == e.name@
    &&& imp.type_.inputs@ == val_types_of(e.args@)
    &&& imp.type_.results@ == val_types_of(e.results@)
}

/// Whether `f` is the function that a module gains by importing the export
/// `e`: an imported function with the export's signature.
pub open spec fn is_imported_export(f: Function, e: WasmExport) -> bool {
    &&& f.imported
    &&& f.type_.inputs@ == val_types_of(e.args@)
    &&& f.type_.results@ == val_types_of(e.results@)
}

/// Imports each export from the analysis, in order, after the functions of
/// the module: the import of the export at position `j` becomes the function
/// at index `j` past the module's functions. The imports come back in the same
/// order.
pub fn install_imports(functions: &mut Vec<Function>, exports: &Vec<WasmExport>) -> (res: Vec<
    FunctionImport,
>)
    ensures
        final(functions)@.len() == old(functions)@.len() + exports@.len(),
        forall|i: int| 0 <= i < old(functions)@.len() ==> final(functions)@[i] == old(functions)@[i],
        forall|j: int|
            0 <= j < exports@.len() ==> is_imported_export(
                #[trigger] final(functions)@[old(functions)@.len() + j],
                exports@[j],
            ),
        res@.len() == exports@.len(),
        forall|j: int| 0 <= j < exports@.len() ==> is_import_of(#[trigger] res@[j], exports@[j]),
{
    let ghost before = functions@;
    let mut res: Vec<FunctionImport> = Vec::new();
    let mut j: usize = 0;
    while j < exports.len()
        invariant
            0 <= j <= exports@.len(),
            functions@.len() == before.len() + j,
            forall|i: int| 0 <= i < before.len() ==> functions@[i] == before[i],
            forall|k: int|
                0 <= k < j ==> is_imported_export(#[trigger] functions@[before.len() + k], exports@[k]),
            res@.len() == j,
            forall|k: int| 0 <= k < j ==> is_import_of(#[trigger] res@[k], exports@[k]),
        decreases exports.len() - j,
    {
        let export = &exports[j];
        functions.push(Function { type_: export.as_function_type(), imported: true });
        res.push(import_of(export));
        j = j + 1;
    }
    res
}

/// The function indices that a plan gives the imports are the positions of
/// the imports past the module's functions, in import order: first the
/// installed traps, one after the other, then the four imports of
/// `table.copy`, then the four of `table.init`; and the plan counts them all.
/// So installing the exports of the plan's traps in that order with
/// `install_imports` puts each at the index that the plan's transformations
/// call.
pub proof fn law_plan_indices_are_import_positions(
    plan: InstrumentationPlan,
    functions: Seq<Function>,
    interface: Set<Trap>,
    target_indices: Option<Seq<u32>>,
)
    requires
        is_plan(plan, functions, interface, target_indices),
        functions.len() + 89 <= u32::MAX,
    ensures
        forall|j: int|
            0 <= j < plan.installed@.len() ==> (#[trigger] plan.installed@[j]).1 == functions.len()
                + j,
        plan.table_copy matches Some(table::Target::TableCopy { trap_idx, .. }) ==> trap_idx
            == functions.len() + plan.installed@.len(),
        plan.table_init matches Some(table::Target::TableInit { trap_idx, .. }) ==> trap_idx
            == functions.len() + plan.installed@.len() + (if plan.table_copy is Some {
            4nat
        } else {
            0nat
        }),
        plan.function_count == functions.len() + plan.installed@.len() + (if plan.table_copy is Some {
            4nat
        } else {
            0nat
        }) + (if plan.table_init is Some {
            4nat
        } else {
            0nat
        }),
{
    let n = functions.len();
    law_installs_in_order(install_order(), interface, n);
    lemma_planned_installs_len(install_order(), interface, n);
    assert(install_order().len() == 81);
    assert forall|j: int| 0 <= j < plan.installed@.len() implies (#[trigger] plan.installed@[j]).1
        == functions.len() + j by {
        assert(plan.installed@[j] == planned_installs(install_order(), interface, n)[j]);
    }
}

/// Whether a trap is imported through a transformation of its own: every trap
/// but the generic apply trap (served by the instrumentation library), the
/// reference traps, and the `table.copy` and `table.init` traps with their
/// getters (imported apart, four at a time).
pub open spec fn has_own_import(t: Trap) -> bool {
    !{
        ||| t == Trap::GenericApply
        ||| t == Trap::RefFunc
        ||| t == Trap::RefNull
        ||| t == Trap::RefIsNull
        ||| t == Trap::TableCopy
        ||| t == Trap::TableCopyGetSource
        ||| t == Trap::TableCopyGetDestination
        ||| t == Trap::TableCopyGetSize
        ||| t == Trap::TableInit
        ||| t == Trap::TableInitGetElementSource
        ||| t == Trap::TableInitGetTableDestination
        ||| t == Trap::TableInitGetSize
    }
}

/// Where a trap stands in the install order.
spec fn install_position(t: Trap) -> int {
    match t {
        Trap::BlockPre => 0,
        Trap::BlockPost => 1,
        Trap::LoopPre => 2,
        Trap::LoopPost => 3,
        Trap::Select => 4,
        Trap::CallPre => 5,
        Trap::CallPost => 6,
        Trap::CallIndirectPre => 7,
        Trap::CallIndirectPost => 8,
        Trap::IfThen => 9,
        Trap::IfThenPost => 10,
        Trap::IfThenElse => 11,
        Trap::IfThenElsePost => 12,
        Trap::Br => 13,
        Trap::BrIf => 14,
        Trap::BrTable => 15,
        Trap::Drop => 16,
        Trap::Return => 17,
        Trap::ConstI32 => 18,
        Trap::ConstF32 => 19,
        Trap::ConstI64 => 20,
        Trap::ConstF64 => 21,
        Trap::UnaryI32ToI32 => 22,
        Trap::UnaryI64ToI32 => 23,
        Trap::UnaryI64ToI64 => 24,
        Trap::UnaryF32ToF32 => 25,
        Trap::UnaryF64ToF64 => 26,
        Trap::UnaryF32ToI32 => 27,
        Trap::UnaryF64ToI32 => 28,
        Trap::UnaryI32ToI64 => 29,
        Trap::UnaryF32ToI64 => 30,
        Trap::UnaryF64ToI64 => 31,
        Trap::UnaryI32ToF32 => 32,
        Trap::UnaryI64ToF32 => 33,
        Trap::UnaryF64ToF32 => 34,
        Trap::UnaryI32ToF64 => 35,
        Trap::UnaryI64ToF64 => 36,
        Trap::UnaryF32ToF64 => 37,
        Trap::BinaryI32I32ToI32 => 38,
        Trap::BinaryI64I64ToI32 => 39,
        Trap::BinaryF32F32ToI32 => 40,
        Trap::BinaryF64F64ToI32 => 41,
        Trap::BinaryI64I64ToI64 => 42,
        Trap::BinaryF32F32ToF32 => 43,
        Trap::BinaryF64F64ToF64 => 44,
        Trap::MemorySize => 45,
        Trap::MemoryGrow => 46,
        Trap::LocalGetI32 => 47,
        Trap::LocalSetI32 => 48,
        Trap::LocalTeeI32 => 49,
        Trap::GlobalGetI32 => 50,
        Trap::GlobalSetI32 => 51,
        Trap::LocalGetF32 => 52,
        Trap::LocalSetF32 => 53,
        Trap::LocalTeeF32 => 54,
        Trap::GlobalGetF32 => 55,
        Trap::GlobalSetF32 => 56,
        Trap::LocalGetI64 => 57,
        Trap::LocalSetI64 => 58,
        Trap::LocalTeeI64 => 59,
        Trap::GlobalGetI64 => 60,
        Trap::GlobalSetI64 => 61,
        Trap::LocalGetF64 => 62,
        Trap::LocalSetF64 => 63,
        Trap::LocalTeeF64 => 64,
        Trap::GlobalGetF64 => 65,
        Trap::GlobalSetF64 => 66,
        Trap::F32Store => 67,
        Trap::F64Store => 68,
        Trap::I32Store => 69,
        Trap::I64Store => 70,
        Trap::F32Load => 71,
        Trap::F64Load => 72,
        Trap::I32Load => 73,
        Trap::I64Load => 74,
        Trap::TableGet => 75,
        Trap::TableSet => 76,
        Trap::TableSize => 77,
        Trap::TableGrow => 78,
        Trap::TableFill => 79,
        Trap::ElemDrop => 80,
        _ => -1,
    }
}

proof fn lemma_install_positions()
    ensures
        install_order().len() == 81,
        forall|k: int| 0 <= k < 81 ==> install_position(#[trigger] install_order()[k]) == k,
        forall|k: int| 0 <= k < 81 ==> has_own_import(#[trigger] install_order()[k]),
{
        assert(install_order()[0] == Trap::BlockPre);
        assert(install_order()[1] == Trap::BlockPost);
        assert(install_order()[2] == Trap::LoopPre);
        assert(install_order()[3] == Trap::LoopPost);
        assert(install_order()[4] == Trap::Select);
        assert(install_order()[5] == Trap::CallPre);
        assert(install_order()[6] == Trap::CallPost);
        assert(install_order()[7] == Trap::CallIndirectPre);
        assert(install_order()[8] == Trap::CallIndirectPost);
        assert(install_order()[9] == Trap::IfThen);
        assert(install_order()[10] == Trap::IfThenPost);
        assert(install_order()[11] == Trap::IfThenElse);
        assert(install_order()[12] == Trap::IfThenElsePost);
        assert(install_order()[13] == Trap::Br);
        assert(install_order()[14] == Trap::BrIf);
        assert(install_order()[15] == Trap::BrTable);
        assert(install_order()[16] == Trap::Drop);
        assert(install_order()[17] == Trap::Return);
        assert(install_order()[18] == Trap::ConstI32);
        assert(install_order()[19] == Trap::ConstF32);
        assert(install_order()[20] == Trap::ConstI64);
        assert(install_order()[21] == Trap::ConstF64);
        assert(install_order()[22] == Trap::UnaryI32ToI32);
        assert(install_order()[23] == Trap::UnaryI64ToI32);
        assert(install_order()[24] == Trap::UnaryI64ToI64);
        assert(install_order()[25] == Trap::UnaryF32ToF32);
        assert(install_order()[26] == Trap::UnaryF64ToF64);
        assert(install_order()[27] == Trap::UnaryF32ToI32);
        assert(install_order()[28] == Trap::UnaryF64ToI32);
        assert(install_order()[29] == Trap::UnaryI32ToI64);
        assert(install_order()[30] == Trap::UnaryF32ToI64);
        assert(install_order()[31] == Trap::UnaryF64ToI64);
        assert(install_order()[32] == Trap::UnaryI32ToF32);
        assert(install_order()[33] == Trap::UnaryI64ToF32);
        assert(install_order()[34] == Trap::UnaryF64ToF32);
        assert(install_order()[35] == Trap::UnaryI32ToF64);
        assert(install_order()[36] == Trap::UnaryI64ToF64);
        assert(install_order()[37] == Trap::UnaryF32ToF64);
        assert(install_order()[38] == Trap::BinaryI32I32ToI32);
        assert(install_order()[39] == Trap::BinaryI64I64ToI32);
        assert(install_order()[40] == Trap::BinaryF32F32ToI32);
        assert(install_order()[41] == Trap::BinaryF64F64ToI32);
        assert(install_order()[42] == Trap::BinaryI64I64ToI64);
        assert(install_order()[43] == Trap::BinaryF32F32ToF32);
        assert(install_order()[44] == Trap::BinaryF64F64ToF64);
        assert(install_order()[45] == Trap::MemorySize);
        assert(install_order()[46] == Trap::MemoryGrow);
        assert(install_order()[47] == Trap::LocalGetI32);
        assert(install_order()[48] == Trap::LocalSetI32);
        assert(install_order()[49] == Trap::LocalTeeI32);
        assert(install_order()[50] == Trap::GlobalGetI32);
        assert(install_order()[51] == Trap::GlobalSetI32);
        assert(install_order()[52] == Trap::LocalGetF32);
        assert(install_order()[53] == Trap::LocalSetF32);
        assert(install_order()[54] == Trap::LocalTeeF32);
        assert(install_order()[55] == Trap::GlobalGetF32);
        assert(install_order()[56] == Trap::GlobalSetF32);
        assert(install_order()[57] == Trap::LocalGetI64);
        assert(install_order()[58] == Trap::LocalSetI64);
        assert(install_order()[59] == Trap::LocalTeeI64);
        assert(install_order()[60] == Trap::GlobalGetI64);
        assert(install_order()[61] == Trap::GlobalSetI64);
        assert(install_order()[62] == Trap::LocalGetF64);
        assert(install_order()[63] == Trap::LocalSetF64);
        assert(install_order()[64] == Trap::LocalTeeF64);
        assert(install_order()[65] == Trap::GlobalGetF64);
        assert(install_order()[66] == Trap::GlobalSetF64);
        assert(install_order()[67] == Trap::F32Store);
        assert(install_order()[68] == Trap::F64Store);
        assert(install_order()[69] == Trap::I32Store);
        assert(install_order()[70] == Trap::I64Store);
        assert(install_order()[71] == Trap::F32Load);
        assert(install_order()[72] == Trap::F64Load);
        assert(install_order()[73] == Trap::I32Load);
        assert(install_order()[74] == Trap::I64Load);
        assert(install_order()[75] == Trap::TableGet);
        assert(install_order()[76] == Trap::TableSet);
        assert(install_order()[77] == Trap::TableSize);
        assert(install_order()[78] == Trap::TableGrow);
        assert(install_order()[79] == Trap::TableFill);
        assert(install_order()[80] == Trap::ElemDrop);
    assert forall|k: int| 0 <= k < 81 implies install_position(#[trigger] install_order()[k]) == k
        && has_own_import(install_order()[k]) by {
        if k == 0 {}
        else if k == 1 {}
        else if k == 2 {}
        else if k == 3 {}
        else if k == 4 {}
        else if k == 5 {}
        else if k == 6 {}
        else if k == 7 {}
        else if k == 8 {}
        else if k == 9 {}
        else if k == 10 {}
        else if k == 11 {}
        else if k == 12 {}
        else if k == 13 {}
        else if k == 14 {}
        else if k == 15 {}
        else if k == 16 {}
        else if k == 17 {}
        else if k == 18 {}
        else if k == 19 {}
        else if k == 20 {}
        else if k == 21 {}
        else if k == 22 {}
        else if k == 23 {}
        else if k == 24 {}
        else if k == 25 {}
        else if k == 26 {}
        else if k == 27 {}
        else if k == 28 {}
        else if k == 29 {}
        else if k == 30 {}
        else if k == 31 {}
        else if k == 32 {}
        else if k == 33 {}
        else if k == 34 {}
        else if k == 35 {}
        else if k == 36 {}
        else if k == 37 {}
        else if k == 38 {}
        else if k == 39 {}
        else if k == 40 {}
        else if k == 41 {}
        else if k == 42 {}
        else if k == 43 {}
        else if k == 44 {}
        else if k == 45 {}
        else if k == 46 {}
        else if k == 47 {}
        else if k == 48 {}
        else if k == 49 {}
        else if k == 50 {}
        else if k == 51 {}
        else if k == 52 {}
        else if k == 53 {}
        else if k == 54 {}
        else if k == 55 {}
        else if k == 56 {}
        else if k == 57 {}
        else if k == 58 {}
        else if k == 59 {}
        else if k == 60 {}
        else if k == 61 {}
        else if k == 62 {}
        else if k == 63 {}
        else if k == 64 {}
        else if k == 65 {}
        else if k == 66 {}
        else if k == 67 {}
        else if k == 68 {}
        else if k == 69 {}
        else if k == 70 {}
        else if k == 71 {}
        else if k == 72 {}
        else if k == 73 {}
        else if k == 74 {}
        else if k == 75 {}
        else if k == 76 {}
        else if k == 77 {}
        else if k == 78 {}
        else if k == 79 {}
        else if k == 80 {}
    }
}

/// The install order holds each trap with an import of its own exactly once,
/// and no other trap.
pub proof fn law_install_order_complete()
    ensures
        install_order().no_duplicates(),
        forall|t: Trap| #[trigger] install_order().contains(t) <==> has_own_import(t),
{
    lemma_install_positions();
    let s = install_order();
    assert forall|t: Trap| has_own_import(t) implies s.contains(t) by {
        match t {
            Trap::BlockPre => {},
            Trap::BlockPost => {},
            Trap::LoopPre => {},
            Trap::LoopPost => {},
            Trap::Select => {},
            Trap::CallPre => {},
            Trap::CallPost => {},
            Trap::CallIndirectPre => {},
            Trap::CallIndirectPost => {},
            Trap::IfThen => {},
            Trap::IfThenPost => {},
            Trap::IfThenElse => {},
            Trap::IfThenElsePost => {},
            Trap::Br => {},
            Trap::BrIf => {},
            Trap::BrTable => {},
            Trap::Drop => {},
            Trap::Return => {},
            Trap::ConstI32 => {},
            Trap::ConstF32 => {},
            Trap::ConstI64 => {},
            Trap::ConstF64 => {},
            Trap::UnaryI32ToI32 => {},
            Trap::UnaryI64ToI32 => {},
            Trap::UnaryI64ToI64 => {},
            Trap::UnaryF32ToF32 => {},
            Trap::UnaryF64ToF64 => {},
            Trap::UnaryF32ToI32 => {},
            Trap::UnaryF64ToI32 => {},
            Trap::UnaryI32ToI64 => {},
            Trap::UnaryF32ToI64 => {},
            Trap::UnaryF64ToI64 => {},
            Trap::UnaryI32ToF32 => {},
            Trap::UnaryI64ToF32 => {},
            Trap::UnaryF64ToF32 => {},
            Trap::UnaryI32ToF64 => {},
            Trap::UnaryI64ToF64 => {},
            Trap::UnaryF32ToF64 => {},
            Trap::BinaryI32I32ToI32 => {},
            Trap::BinaryI64I64ToI32 => {},
            Trap::BinaryF32F32ToI32 => {},
            Trap::BinaryF64F64ToI32 => {},
            Trap::BinaryI64I64ToI64 => {},
            Trap::BinaryF32F32ToF32 => {},
            Trap::BinaryF64F64ToF64 => {},
            Trap::MemorySize => {},
            Trap::MemoryGrow => {},
            Trap::LocalGetI32 => {},
            Trap::LocalSetI32 => {},
            Trap::LocalTeeI32 => {},
            Trap::GlobalGetI32 => {},
            Trap::GlobalSetI32 => {},
            Trap::LocalGetF32 => {},
            Trap::LocalSetF32 => {},
            Trap::LocalTeeF32 => {},
            Trap::GlobalGetF32 => {},
            Trap::GlobalSetF32 => {},
            Trap::LocalGetI64 => {},
            Trap::LocalSetI64 => {},
            Trap::LocalTeeI64 => {},
            Trap::GlobalGetI64 => {},
            Trap::GlobalSetI64 => {},
            Trap::LocalGetF64 => {},
            Trap::LocalSetF64 => {},
            Trap::LocalTeeF64 => {},
            Trap::GlobalGetF64 => {},
            Trap::GlobalSetF64 => {},
            Trap::F32Store => {},
            Trap::F64Store => {},
            Trap::I32Store => {},
            Trap::I64Store => {},
            Trap::F32Load => {},
            Trap::F64Load => {},
            Trap::I32Load => {},
            Trap::I64Load => {},
            Trap::TableGet => {},
            Trap::TableSet => {},
            Trap::TableSize => {},
            Trap::TableGrow => {},
            Trap::TableFill => {},
            Trap::ElemDrop => {},
            _ => {},
        }
        assert(s[install_position(t)] == t);
    }
    assert forall|i: int, j: int| 0 <= i < s.len() && 0 <= j < s.len() && i != j implies s[i]
        != s[j] by {
        assert(install_position(s[i]) == i);
        assert(install_position(s[j]) == j);
    }
}

proof fn lemma_planned_installs_distinct(order: Seq<Trap>, interface: Set<Trap>, next: nat)
    requires
        order.no_duplicates(),
    ensures
        forall|j: int, k: int|
            0 <= j < planned_installs(order, interface, next).len() && 0 <= k < planned_installs(
                order,
                interface,
                next,
            ).len() && (#[trigger] planned_installs(order, interface, next)[j]).0 == (
            #[trigger] planned_installs(order, interface, next)[k]).0 ==> j == k,
    decreases order.len(),
{
    if order.len() > 0 {
        let d = order.drop_first();
        assert(d.no_duplicates());
        assert(!d.contains(order[0])) by {
            if d.contains(order[0]) {
                let k = choose|k: int| 0 <= k < d.len() && d[k] == order[0];
                assert(order[k + 1] == order[0]);
            }
        }
        let p = planned_installs(order, interface, next);
        if interface.contains(order[0]) {
            lemma_planned_installs_distinct(d, interface, next + 1);
            law_installs_in_order(d, interface, next + 1);
            let q = planned_installs(d, interface, next + 1);
            assert(p == seq![(order[0], next as u32)] + q);
            assert forall|j: int, k: int|
                0 <= j < p.len() && 0 <= k < p.len() && (#[trigger] p[j]).0 == (#[trigger] p[k]).0
                    implies j == k by {
                assert(p[0] == (order[0], next as u32));
                if j > 0 {
                    assert(p[j] == q[j - 1]);
                    assert(d.contains(q[j - 1].0));
                }
                if k > 0 {
                    assert(p[k] == q[k - 1]);
                    assert(d.contains(q[k - 1].0));
                }
            }
        } else {
            lemma_planned_installs_distinct(d, interface, next);
            assert(p == planned_installs(d, interface, next));
        }
    }
}

/// A plan imports every trap of the interface that has an import of its own,
/// once, and no other trap: each installed trap is in the interface and has an
/// import of its own, no trap is installed twice, and the installed traps take
/// the function indices right after the module's functions, in order.
pub proof fn law_plan_installs_each_own_trap_once(
    plan: InstrumentationPlan,
    functions: Seq<Function>,
    interface: Set<Trap>,
    target_indices: Option<Seq<u32>>,
)
    requires
        is_plan(plan, functions, interface, target_indices),
        functions.len() + 89 <= u32::MAX,
    ensures
        forall|t: Trap|
            has_own_import(t) && #[trigger] interface.contains(t) ==> exists|j: int|
                0 <= j < plan.installed@.len() && plan.installed@[j].0 == t,
        forall|j: int|
            0 <= j < plan.installed@.len() ==> interface.contains(
                (#[trigger] plan.installed@[j]).0,
            ) && has_own_import(plan.installed@[j].0),
        forall|j: int, k: int|
            0 <= j < plan.installed@.len() && 0 <= k < plan.installed@.len() && (
            #[trigger] plan.installed@[j]).0 == (#[trigger] plan.installed@[k]).0 ==> j == k,
        forall|j: int|
            0 <= j < plan.installed@.len() ==> (#[trigger] plan.installed@[j]).1 == functions.len()
                + j,
{
    let n = functions.len();
    law_install_order_complete();
    law_installs_in_order(install_order(), interface, n);
    lemma_planned_installs_distinct(install_order(), interface, n);
    law_plan_indices_are_import_positions(plan, functions, interface, target_indices);
}

/// Whether the trap observes the instruction: each table trap is named after
/// the one instruction it observes.
pub open spec fn trap_observes(trap: Trap, i: crate::body::Instr) -> bool {
    match (trap, i) {
        (Trap::TableGet, crate::body::Instr::TableGet(_)) => true,
        (Trap::TableSet, crate::body::Instr::TableSet(_)) => true,
        (Trap::TableSize, crate::body::Instr::TableSize(_)) => true,
        (Trap::TableGrow, crate::body::Instr::TableGrow(_)) => true,
        (Trap::TableFill, crate::body::Instr::TableFill(_)) => true,
        (Trap::ElemDrop, crate::body::Instr::ElemDrop(_)) => true,
        _ => false,
    }
}

/// The index of the trap function that a transformation calls.
pub open spec fn target_trap(t: table::Target) -> u32 {
    match t {
        table::Target::RefFunc(x) => x,
        table::Target::RefNull(x) => x,
        table::Target::RefIsNull(x) => x,
        table::Target::TableGet(x) => x,
        table::Target::TableSet(x) => x,
        table::Target::TableSize(x) => x,
        table::Target::TableCopy { trap_idx, .. } => trap_idx,
        table::Target::TableGrow(x) => x,
        table::Target::TableFill(x) => x,
        table::Target::TableInit { trap_idx, .. } => trap_idx,
        table::Target::ElemDrop(x) => x,
    }
}

/// The transformation made for an imported trap rewrites exactly the
/// instructions that the trap observes, and calls the trap at the index it
/// was imported at; exactly the table get, set, size, grow and fill traps and
/// the element drop trap get one.
pub proof fn law_table_target_serves_its_trap(trap: Trap, idx: u32, i: crate::body::Instr)
    ensures
        table_target_of(trap, idx) is Some <==> (trap == Trap::TableGet || trap == Trap::TableSet
            || trap == Trap::TableSize || trap == Trap::TableGrow || trap == Trap::TableFill || trap
            == Trap::ElemDrop),
        table_target_of(trap, idx) matches Some(tg) ==> target_trap(tg) == idx && (
        table::is_target_kind(tg, i) <==> trap_observes(trap, i)),
{
}

} // verus!
