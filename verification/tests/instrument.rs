use wastrumentation::body::RefType::{ExternRef, FuncRef};
use wastrumentation::body::ValType::{self, Ref, F32, F64, I32, I64};
use wastrumentation::hooks::Hook;
use wastrumentation::body::{Body, Instr, Location, Origin, TypedInstr};
use wastrumentation::instrument::{
    import_of, install_imports, instrument_bodies, plan_instrumentation, selected_functions, uses_reference_types,
    Function, FunctionType, WasmExport, WasmType,
};
use wastrumentation::interface::{interface_from, AnalysisInterface, Trap};
use wastrumentation::table;

fn function(inputs: &[ValType], results: &[ValType], imported: bool) -> Function {
    Function {
        type_: FunctionType {
            inputs: inputs.to_vec(),
            results: results.to_vec(),
        },
        imported,
    }
}

#[test]
fn test_uses_reference_types() {
    let assertions: &[(&[ValType], &[ValType], bool)] = &[
        (&[], &[], false),
        (&[F32, F64], &[I32, I64], false),
        (&[I32, I32], &[], false),
        (&[], &[I32, I32], false),
        (&[Ref(FuncRef)], &[], true),
        (&[], &[Ref(FuncRef)], true),
        (&[Ref(ExternRef)], &[], true),
        (&[], &[Ref(ExternRef)], true),
        (&[F32, F32, F32, Ref(FuncRef)], &[], true),
        (&[], &[F64, F64, F64, Ref(FuncRef)], true),
        (&[I32, I32, I32, Ref(FuncRef)], &[], true),
        (&[], &[I64, I64, I64, Ref(FuncRef)], true),
        (
            &[I32, I32, I32, Ref(ExternRef)],
            &[I64, I64, I64, Ref(ExternRef)],
            true,
        ),
    ];
    for (inputs, results, uses_reference) in assertions {
        let fc = function(inputs, results, false);
        assert_eq!(uses_reference_types(&fc), *uses_reference)
    }
}

fn sample_module() -> Vec<Function> {
    vec![
        function(&[I32], &[], true),           // 0: imported
        function(&[I32, I32], &[I32], false),  // 1
        function(&[Ref(FuncRef)], &[], false), // 2: takes a reference
        function(&[], &[], false),             // 3
        function(&[], &[Ref(ExternRef)], true), // 4: imported, returns a reference
    ]
}

#[test]
fn selection_skips_imports_and_references() {
    let functions = sample_module();
    assert_eq!(selected_functions(&functions, &None, false), vec![1, 3]);
    assert_eq!(selected_functions(&functions, &None, true), vec![0, 1, 3]);
}

#[test]
fn selection_honours_requested_indices() {
    let functions = sample_module();
    let requested = Some(vec![3, 0, 2, 9]);
    assert_eq!(selected_functions(&functions, &requested, false), vec![3]);
    assert_eq!(selected_functions(&functions, &requested, true), vec![0, 3]);
    assert_eq!(selected_functions(&functions, &Some(vec![]), true), Vec::<u32>::new());
}

#[test]
fn plan_imports_traps_after_existing_functions() {
    let functions = sample_module();
    let interface = interface_from(&vec![Hook::Select, Hook::BlockPre, Hook::TableGet]);
    let plan = plan_instrumentation(&functions, &interface, &None);
    assert_eq!(plan.target_indices, vec![1, 3]);
    assert_eq!(plan.target_indices_including_imports, vec![0, 1, 3]);
    // install order: block pre, ..., select, ..., table get
    assert_eq!(
        plan.installed,
        vec![(Trap::BlockPre, 5), (Trap::Select, 6), (Trap::TableGet, 7)]
    );
    assert!(plan.table_copy.is_none());
    assert!(plan.table_init.is_none());
    assert_eq!(plan.function_count, 8);
}

#[test]
fn plan_imports_table_copy_and_init_with_getters() {
    let functions = sample_module();
    let interface = interface_from(&vec![Hook::TableInit, Hook::ElemDrop, Hook::TableCopy]);
    let plan = plan_instrumentation(&functions, &interface, &Some(vec![1]));
    assert_eq!(plan.target_indices, vec![1]);
    assert_eq!(plan.installed, vec![(Trap::ElemDrop, 5)]);
    assert_eq!(
        plan.table_copy,
        Some(table::Target::TableCopy {
            trap_idx: 6,
            get_src_idx: 7,
            get_dst_idx: 8,
            get_size_idx: 9
        })
    );
    assert_eq!(
        plan.table_init,
        Some(table::Target::TableInit {
            trap_idx: 10,
            get_elem_source_idx: 11,
            get_table_destination_idx: 12,
            get_size_idx: 13
        })
    );
    assert_eq!(plan.function_count, 14);
}

#[test]
fn plan_with_every_hook_installs_every_transformable_trap() {
    let functions = sample_module();
    let interface = interface_from(&Hook::all_hooks());
    let plan = plan_instrumentation(&functions, &interface, &None);
    assert_eq!(plan.installed.len(), 81);
    for (k, (_, idx)) in plan.installed.iter().enumerate() {
        assert_eq!(*idx, 5 + k as u32);
    }
    assert_eq!(plan.function_count, 5 + 81 + 8);
}

#[test]
fn plan_without_traps_installs_nothing() {
    let functions = sample_module();
    let interface = AnalysisInterface::new();
    let plan = plan_instrumentation(&functions, &interface, &None);
    assert!(plan.installed.is_empty());
    assert_eq!(plan.function_count, 5);
}

fn instr_at(instr: Instr, origin: Origin, function: u32, instruction: u32) -> TypedInstr {
    TypedInstr {
        instr,
        origin,
        location: Location {
            function,
            instruction,
        },
    }
}

#[test]
fn instrument_bodies_rewrites_the_selected_bodies() {
    let functions = sample_module();
    let program = |f: u32| {
        Body::from_instrs(vec![instr_at(Instr::TableSize(1), Origin::Program, f, 0)])
    };
    let bodies = vec![Body::End, program(1), program(2), program(3), Body::End];
    let interface = interface_from(&vec![Hook::TableSize]);
    let mut globals = table::Globals { declared: vec![] };
    let (plan, rewritten) = instrument_bodies(&functions, bodies, &interface, &None, &mut globals);
    assert_eq!(plan.target_indices, vec![1, 3]);
    assert_eq!(plan.installed, vec![(Trap::TableSize, 5)]);
    let rewritten: Vec<Vec<TypedInstr>> = rewritten.into_iter().map(|b| b.into_instrs()).collect();
    let expected = |f: u32| {
        vec![
            instr_at(Instr::TableSize(1), Origin::Placed, f, 0),
            instr_at(Instr::I32Const(1), Origin::Instrumentation, f, 0),
            instr_at(Instr::I64Const(i64::from(f)), Origin::Instrumentation, f, 0),
            instr_at(Instr::I64Const(0), Origin::Instrumentation, f, 0),
            instr_at(Instr::Call(5), Origin::Instrumentation, f, 0),
        ]
    };
    assert_eq!(rewritten, vec![expected(1), expected(3)]);
    // each of the two bodies declares its two stores
    assert_eq!(globals.declared.len(), 4);
}

#[test]
fn an_export_is_imported_from_the_analysis_under_its_name() {
    let export = WasmExport {
        name: "trap_table_init".to_string(),
        args: vec![
            WasmType::I32,
            WasmType::I32,
            WasmType::I32,
            WasmType::I32,
            WasmType::I32,
            WasmType::I64,
            WasmType::I64,
        ],
        results: vec![],
    };
    let import = import_of(&export);
    assert_eq!(import.module, "instrumentation_analysis");
    assert_eq!(import.name, "trap_table_init");
    assert_eq!(import.type_.inputs, vec![I32, I32, I32, I32, I32, I64, I64]);
    assert!(import.type_.results.is_empty());
    let getter = WasmExport {
        name: "trap_table_init_get_destination_table_offset".to_string(),
        args: vec![],
        results: vec![WasmType::I32],
    };
    let ty = getter.as_function_type();
    assert!(ty.inputs.is_empty());
    assert_eq!(ty.results, vec![I32]);
    let floats = WasmExport {
        name: "f".to_string(),
        args: vec![WasmType::F32, WasmType::F64],
        results: vec![WasmType::I64],
    };
    let ty = floats.as_function_type();
    assert_eq!(ty.inputs, vec![F32, F64]);
    assert_eq!(ty.results, vec![I64]);
}

#[test]
fn the_library_is_generated_exactly_for_generic_apply() {
    let functions = sample_module();
    let with = interface_from(&vec![Hook::GenericApply, Hook::TableGet]);
    assert!(plan_instrumentation(&functions, &with, &None).stack_library);
    let without = interface_from(&vec![Hook::TableGet, Hook::Select]);
    assert!(!plan_instrumentation(&functions, &without, &None).stack_library);
}

#[test]
fn installed_exports_follow_the_functions_at_the_planned_indices() {
    let mut functions = sample_module();
    let interface = interface_from(&vec![Hook::TableGet, Hook::TableSize]);
    let plan = plan_instrumentation(&functions, &interface, &None);
    assert_eq!(plan.installed, vec![(Trap::TableGet, 5), (Trap::TableSize, 6)]);
    let exports = vec![
        WasmExport {
            name: "trap_table_get".to_string(),
            args: vec![WasmType::I32, WasmType::I32, WasmType::I64, WasmType::I64],
            results: vec![WasmType::I32],
        },
        WasmExport {
            name: "trap_table_size".to_string(),
            args: vec![WasmType::I32, WasmType::I32, WasmType::I64, WasmType::I64],
            results: vec![WasmType::I32],
        },
    ];
    let imports = install_imports(&mut functions, &exports);
    assert_eq!(functions.len() as u32, plan.function_count);
    assert!(functions[5].imported && functions[6].imported);
    assert_eq!(functions[5].type_.inputs, vec![I32, I32, I64, I64]);
    assert_eq!(functions[6].type_.results, vec![I32]);
    assert_eq!(imports.len(), 2);
    assert_eq!(imports[0].name, "trap_table_get");
    assert_eq!(imports[1].name, "trap_table_size");
    assert_eq!(imports[1].module, "instrumentation_analysis");
}
