use wastrumentation::body::{Body, Instr, Location, Origin, RefType, TypedInstr, ValType};
use wastrumentation::hooks::Hook;
use wastrumentation::instrument::{plan_instrumentation, table_targets, Function, FunctionType};
use wastrumentation::interface::interface_from;
use wastrumentation::table::{
    rewrite_bodies, transform_all, GlobalDecl, GlobalInit, Globals, Target, TransformationStrategy,
};

const HERE: Location = Location {
    function: 2,
    instruction: 5,
};

fn orig(i: Instr) -> TypedInstr {
    TypedInstr::program(i, HERE)
}

fn added(i: Instr) -> TypedInstr {
    TypedInstr {
        instr: i,
        origin: Origin::Instrumentation,
        location: HERE,
    }
}

fn placed(i: Instr) -> TypedInstr {
    TypedInstr {
        instr: i,
        origin: Origin::Placed,
        location: HERE,
    }
}

/// A trap call at `HERE`: the function's index, the instruction's index, the call.
fn trap(f: u32) -> Vec<TypedInstr> {
    vec![
        added(Instr::I64Const(2)),
        added(Instr::I64Const(5)),
        added(Instr::Call(f)),
    ]
}

fn joined(parts: Vec<Vec<TypedInstr>>) -> Vec<TypedInstr> {
    parts.into_iter().flatten().collect()
}

fn body(v: Vec<TypedInstr>) -> Body {
    Body::from_instrs(v)
}

fn ref_store() -> GlobalDecl {
    GlobalDecl {
        ty: ValType::Ref(RefType::FuncRef),
        mutable: true,
        init: GlobalInit::RefNull(RefType::FuncRef),
    }
}

fn i32_store() -> GlobalDecl {
    GlobalDecl {
        ty: ValType::I32,
        mutable: true,
        init: GlobalInit::I32Const(0),
    }
}

#[test]
fn table_get_gets_its_index_and_trap_call() {
    let mut globals = Globals { declared: vec![] };
    let b = body(vec![orig(Instr::Other(1)), orig(Instr::TableGet(3))]);
    let res = Target::TableGet(7).transform(b, &mut globals).into_instrs();
    assert_eq!(
        res,
        joined(vec![
            vec![orig(Instr::Other(1)), added(Instr::I32Const(3))],
            trap(7),
            vec![placed(Instr::TableGet(3))],
        ])
    );
    assert_eq!(globals.declared, vec![ref_store(), i32_store()]);
}

#[test]
fn table_set_parks_the_reference() {
    let mut globals = Globals {
        declared: vec![i32_store(); 5],
    };
    let b = body(vec![orig(Instr::TableSet(2))]);
    let res = Target::TableSet(40).transform(b, &mut globals).into_instrs();
    assert_eq!(
        res,
        joined(vec![
            vec![added(Instr::GlobalSet(5)), added(Instr::I32Const(2))],
            trap(40),
            vec![added(Instr::GlobalGet(5)), placed(Instr::TableSet(2))],
        ])
    );
    assert_eq!(globals.declared.len(), 7);
    assert_eq!(globals.declared[5], ref_store());
    assert_eq!(globals.declared[6], i32_store());
}

#[test]
fn table_fill_parks_value_and_count() {
    let mut globals = Globals { declared: vec![] };
    let b = body(vec![orig(Instr::TableFill(1))]);
    let res = Target::TableFill(9).transform(b, &mut globals).into_instrs();
    assert_eq!(
        res,
        joined(vec![
            vec![
                added(Instr::GlobalSet(1)),
                added(Instr::GlobalSet(0)),
                added(Instr::GlobalGet(1)),
                added(Instr::I32Const(1)),
            ],
            trap(9),
            vec![
                added(Instr::GlobalGet(0)),
                added(Instr::GlobalGet(1)),
                placed(Instr::TableFill(1)),
            ],
        ])
    );
}

#[test]
fn table_size_and_ref_is_null_call_after() {
    let mut globals = Globals { declared: vec![] };
    let res = Target::TableSize(4)
        .transform(body(vec![orig(Instr::TableSize(0))]), &mut globals)
        .into_instrs();
    assert_eq!(
        res,
        joined(vec![
            vec![placed(Instr::TableSize(0)), added(Instr::I32Const(0))],
            trap(4),
        ])
    );
    let res = Target::RefIsNull(5)
        .transform(body(vec![orig(Instr::RefIsNull)]), &mut globals)
        .into_instrs();
    assert_eq!(res, joined(vec![vec![placed(Instr::RefIsNull)], trap(5)]));
    assert_eq!(globals.declared.len(), 4);
}

#[test]
fn ref_func_ref_null_grow_and_elem_drop() {
    let mut globals = Globals { declared: vec![] };
    let res = Target::RefFunc(8)
        .transform(body(vec![orig(Instr::RefFunc(12))]), &mut globals)
        .into_instrs();
    assert_eq!(
        res,
        joined(vec![
            vec![added(Instr::I32Const(12))],
            trap(8),
            vec![placed(Instr::RefFunc(12))],
        ])
    );
    let res = Target::RefNull(8)
        .transform(body(vec![orig(Instr::RefNull(RefType::ExternRef))]), &mut globals)
        .into_instrs();
    assert_eq!(
        res,
        joined(vec![trap(8), vec![placed(Instr::RefNull(RefType::ExternRef))]])
    );
    let res = Target::TableGrow(2)
        .transform(body(vec![orig(Instr::TableGrow(1))]), &mut globals)
        .into_instrs();
    assert_eq!(
        res,
        joined(vec![
            vec![added(Instr::I32Const(1))],
            trap(2),
            vec![placed(Instr::TableGrow(1))],
        ])
    );
    let res = Target::ElemDrop(3)
        .transform(body(vec![orig(Instr::ElemDrop(6))]), &mut globals)
        .into_instrs();
    assert_eq!(
        res,
        joined(vec![
            vec![added(Instr::I32Const(6))],
            trap(3),
            vec![placed(Instr::ElemDrop(6))],
        ])
    );
}

#[test]
fn table_copy_passes_tables_and_reads_back_operands() {
    let mut globals = Globals { declared: vec![] };
    let target = Target::TableCopy {
        trap_idx: 10,
        get_src_idx: 11,
        get_dst_idx: 12,
        get_size_idx: 13,
    };
    let res = target
        .transform(body(vec![orig(Instr::TableCopy(1, 2))]), &mut globals)
        .into_instrs();
    // table.copy takes the destination, the source and the size, in that order
    assert_eq!(
        res,
        joined(vec![
            vec![added(Instr::I32Const(1)), added(Instr::I32Const(2))],
            trap(10),
            vec![
                added(Instr::Call(12)),
                added(Instr::Call(11)),
                added(Instr::Call(13)),
                placed(Instr::TableCopy(1, 2)),
            ],
        ])
    );
}

#[test]
fn table_init_passes_table_and_segment() {
    let mut globals = Globals { declared: vec![] };
    let target = Target::TableInit {
        trap_idx: 20,
        get_elem_source_idx: 21,
        get_table_destination_idx: 22,
        get_size_idx: 23,
    };
    let res = target
        .transform(body(vec![orig(Instr::TableInit(0, 4))]), &mut globals)
        .into_instrs();
    // table.init takes the table offset, the segment offset and the size, in
    // that order: the destination getter comes first
    assert_eq!(
        res,
        joined(vec![
            vec![added(Instr::I32Const(0)), added(Instr::I32Const(4))],
            trap(20),
            vec![
                added(Instr::Call(22)),
                added(Instr::Call(21)),
                added(Instr::Call(23)),
                placed(Instr::TableInit(0, 4)),
            ],
        ])
    );
}

#[test]
fn trap_calls_carry_the_location_of_the_instruction() {
    let mut globals = Globals { declared: vec![] };
    let first = Location {
        function: 7,
        instruction: 0,
    };
    let second = Location {
        function: 7,
        instruction: 3,
    };
    let b = body(vec![
        TypedInstr::program(Instr::ElemDrop(1), first),
        TypedInstr::program(Instr::ElemDrop(2), second),
    ]);
    let res = Target::ElemDrop(30).transform(b, &mut globals).into_instrs();
    let at = |instr: Instr, origin: Origin, location: Location| TypedInstr {
        instr,
        origin,
        location,
    };
    assert_eq!(
        res,
        vec![
            at(Instr::I32Const(1), Origin::Instrumentation, first),
            at(Instr::I64Const(7), Origin::Instrumentation, first),
            at(Instr::I64Const(0), Origin::Instrumentation, first),
            at(Instr::Call(30), Origin::Instrumentation, first),
            at(Instr::ElemDrop(1), Origin::Placed, first),
            at(Instr::I32Const(2), Origin::Instrumentation, second),
            at(Instr::I64Const(7), Origin::Instrumentation, second),
            at(Instr::I64Const(3), Origin::Instrumentation, second),
            at(Instr::Call(30), Origin::Instrumentation, second),
            at(Instr::ElemDrop(2), Origin::Placed, second),
        ]
    );
}

#[test]
fn nested_bodies_declare_their_own_stores() {
    let mut globals = Globals { declared: vec![] };
    let inner = body(vec![orig(Instr::TableSet(0))]);
    let then = body(vec![orig(Instr::Other(7))]);
    let els = body(vec![orig(Instr::TableSet(1))]);
    let b = body(vec![
        orig(Instr::Block(0, Box::new(inner))),
        orig(Instr::If(1, Box::new(then), Some(Box::new(els)))),
    ]);
    let res = Target::TableSet(3).transform(b, &mut globals).into_instrs();
    // outer body: globals 0, 1; block: 2, 3; then: 4, 5; else: 6, 7
    assert_eq!(globals.declared.len(), 8);
    assert_eq!(res.len(), 2);
    match &res[0].instr {
        Instr::Block(0, inner) => {
            assert_eq!(
                body_instrs(inner),
                joined(vec![
                    vec![added(Instr::GlobalSet(2)), added(Instr::I32Const(0))],
                    trap(3),
                    vec![added(Instr::GlobalGet(2)), placed(Instr::TableSet(0))],
                ])
            );
        }
        other => panic!("unexpected {other:?}"),
    }
    match &res[1].instr {
        Instr::If(1, then, Some(els)) => {
            assert_eq!(body_instrs(then), vec![orig(Instr::Other(7))]);
            assert_eq!(
                body_instrs(els),
                joined(vec![
                    vec![added(Instr::GlobalSet(6)), added(Instr::I32Const(1))],
                    trap(3),
                    vec![added(Instr::GlobalGet(6)), placed(Instr::TableSet(1))],
                ])
            );
        }
        other => panic!("unexpected {other:?}"),
    }
}

fn body_instrs(b: &Body) -> Vec<TypedInstr> {
    let mut out = Vec::new();
    let mut cur = b;
    while let Body::Then(ti, rest) = cur {
        out.push(clone_flat(ti));
        cur = rest;
    }
    out
}

fn clone_flat(ti: &TypedInstr) -> TypedInstr {
    let instr = match &ti.instr {
        Instr::GlobalSet(x) => Instr::GlobalSet(*x),
        Instr::GlobalGet(x) => Instr::GlobalGet(*x),
        Instr::I32Const(x) => Instr::I32Const(*x),
        Instr::I64Const(x) => Instr::I64Const(*x),
        Instr::Call(x) => Instr::Call(*x),
        Instr::TableGet(x) => Instr::TableGet(*x),
        Instr::TableSet(x) => Instr::TableSet(*x),
        Instr::Other(x) => Instr::Other(*x),
        other => panic!("not flat: {other:?}"),
    };
    TypedInstr {
        instr,
        origin: ti.origin,
        location: ti.location,
    }
}

#[test]
fn added_instructions_are_not_instrumented_again() {
    let mut globals = Globals { declared: vec![] };
    let b = body(vec![added(Instr::TableGet(1)), orig(Instr::TableGet(2))]);
    let res = Target::TableGet(9).transform(b, &mut globals).into_instrs();
    assert_eq!(
        res,
        joined(vec![
            vec![added(Instr::TableGet(1)), added(Instr::I32Const(2))],
            trap(9),
            vec![placed(Instr::TableGet(2))],
        ])
    );
}

#[test]
fn transforming_twice_with_the_same_target_changes_nothing_more() {
    let mut globals = Globals { declared: vec![] };
    let target = Target::TableGet(9);
    let b = body(vec![
        orig(Instr::TableGet(2)),
        orig(Instr::Block(0, Box::new(body(vec![orig(Instr::TableGet(4))])))),
    ]);
    let once = target.transform(b, &mut globals);
    let expected_once = body_instrs(&once_flat_prefix(&once));
    let twice = target.transform(once, &mut globals);
    assert_eq!(body_instrs(&once_flat_prefix(&twice)), expected_once);
    assert_eq!(
        expected_once,
        joined(vec![
            vec![added(Instr::I32Const(2))],
            trap(9),
            vec![placed(Instr::TableGet(2))],
        ])
    );
    let twice = twice.into_instrs();
    assert_eq!(twice.len(), 6);
    match &twice[5].instr {
        Instr::Block(0, inner) => match &body_instrs_any(inner)[..] {
            [a, b, c, d, e] => {
                assert_eq!(a.instr, Instr::I32Const(4));
                assert_eq!(b.instr, Instr::I64Const(2));
                assert_eq!(c.instr, Instr::I64Const(5));
                assert_eq!(d.instr, Instr::Call(9));
                assert_eq!(e.instr, Instr::TableGet(4));
                assert_eq!(e.origin, Origin::Placed);
            }
            other => panic!("unexpected {other:?}"),
        },
        other => panic!("unexpected {other:?}"),
    }
    // each transformation declares the stores of the body and of the block
    assert_eq!(globals.declared.len(), 8);
}

/// The body up to its first structured instruction.
fn once_flat_prefix(b: &Body) -> Body {
    let mut out = Vec::new();
    let mut cur = b;
    while let Body::Then(ti, rest) = cur {
        if matches!(ti.instr, Instr::Block(..)) {
            break;
        }
        out.push(clone_flat(ti));
        cur = rest;
    }
    Body::from_instrs(out)
}

fn body_instrs_any(b: &Body) -> Vec<&TypedInstr> {
    let mut out = Vec::new();
    let mut cur = b;
    while let Body::Then(ti, rest) = cur {
        out.push(&**ti);
        cur = rest;
    }
    out
}

#[test]
fn body_without_the_kind_is_unchanged() {
    let mut globals = Globals { declared: vec![] };
    let b = body(vec![orig(Instr::TableGet(1)), orig(Instr::Other(3))]);
    let res = Target::TableSize(9).transform(b, &mut globals).into_instrs();
    assert_eq!(res, vec![orig(Instr::TableGet(1)), orig(Instr::Other(3))]);
    assert_eq!(globals.declared.len(), 2);
}

#[test]
fn stripping_added_instructions_gives_back_the_program() {
    let mut globals = Globals { declared: vec![] };
    let program = vec![
        orig(Instr::TableGet(1)),
        orig(Instr::Other(3)),
        orig(Instr::TableGet(2)),
    ];
    let b = body(vec![
        orig(Instr::TableGet(1)),
        orig(Instr::Other(3)),
        orig(Instr::TableGet(2)),
    ]);
    let res = Target::TableGet(9).transform(b, &mut globals).into_instrs();
    let kept: Vec<TypedInstr> = res
        .into_iter()
        .filter(|ti| ti.origin != Origin::Instrumentation)
        .map(|ti| TypedInstr::program(ti.instr, ti.location))
        .collect();
    assert_eq!(kept, program);
}

#[test]
fn plan_targets_rewrite_a_body_in_order() {
    let functions: Vec<Function> = (0..5)
        .map(|_| Function {
            type_: FunctionType {
                inputs: vec![],
                results: vec![],
            },
            imported: false,
        })
        .collect();
    let interface = interface_from(&vec![Hook::TableCopy, Hook::Select, Hook::TableGet]);
    let plan = plan_instrumentation(&functions, &interface, &None);
    let targets = table_targets(&plan);
    assert_eq!(
        targets,
        vec![
            Target::TableGet(6),
            Target::TableCopy {
                trap_idx: 7,
                get_src_idx: 8,
                get_dst_idx: 9,
                get_size_idx: 10
            }
        ]
    );
    let mut globals = Globals { declared: vec![] };
    let b = body(vec![orig(Instr::TableGet(1)), orig(Instr::TableCopy(0, 1))]);
    let res = transform_all(&targets, b, &mut globals).into_instrs();
    assert_eq!(
        res,
        joined(vec![
            vec![added(Instr::I32Const(1))],
            trap(6),
            vec![
                placed(Instr::TableGet(1)),
                added(Instr::I32Const(0)),
                added(Instr::I32Const(1)),
            ],
            trap(7),
            vec![
                added(Instr::Call(9)),
                added(Instr::Call(8)),
                added(Instr::Call(10)),
                placed(Instr::TableCopy(0, 1)),
            ],
        ])
    );
    assert_eq!(globals.declared.len(), 4);
}

#[test]
fn rewrite_bodies_threads_the_globals_through_each_body() {
    let targets = vec![Target::TableSize(3), Target::ElemDrop(4)];
    let bodies = vec![
        body(vec![orig(Instr::TableSize(2))]),
        body(vec![orig(Instr::Other(1))]),
        body(vec![orig(Instr::ElemDrop(5)), orig(Instr::TableSize(0))]),
    ];
    let mut globals = Globals { declared: vec![] };
    let res: Vec<Vec<TypedInstr>> = rewrite_bodies(bodies, &targets, &mut globals)
        .into_iter()
        .map(|b| b.into_instrs())
        .collect();
    assert_eq!(
        res,
        vec![
            joined(vec![
                vec![placed(Instr::TableSize(2)), added(Instr::I32Const(2))],
                trap(3),
            ]),
            vec![orig(Instr::Other(1))],
            joined(vec![
                vec![added(Instr::I32Const(5))],
                trap(4),
                vec![placed(Instr::ElemDrop(5))],
                vec![placed(Instr::TableSize(0)), added(Instr::I32Const(0))],
                trap(3),
            ]),
        ]
    );
    // two targets, three bodies: two stores each time
    assert_eq!(globals.declared.len(), 12);
}
