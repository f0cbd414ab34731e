use std::collections::HashSet;

use wastrumentation::hooks::{Hook, RustAnalysisSpec};
use wastrumentation::interface::{interface_from, traps_of_hook, AnalysisInterface, Trap};

#[test]
fn all_hooks_lists_every_hook_once() {
    let hooks = Hook::all_hooks();
    assert_eq!(hooks.len(), 39);
    let set: HashSet<Hook> = hooks.iter().copied().collect();
    assert_eq!(set.len(), 39);
    assert!(set.contains(&Hook::GenericApply));
    assert!(set.contains(&Hook::ElemDrop));
}

#[test]
fn every_hook_requests_every_trap() {
    let interface = interface_from(&Hook::all_hooks());
    let mut count = 0;
    for hook in Hook::all_hooks() {
        for trap in traps_of_hook(hook) {
            assert!(interface.has(trap));
            count += 1;
        }
    }
    assert_eq!(count, 93);
}

#[test]
fn unary_hook_requests_sixteen_traps() {
    let traps = traps_of_hook(Hook::Unary);
    assert_eq!(traps.len(), 16);
    assert_eq!(traps[0], Trap::UnaryI32ToI32);
    assert_eq!(traps[15], Trap::UnaryF32ToF64);
    let interface = interface_from(&vec![Hook::Unary]);
    assert!(interface.has(Trap::UnaryF64ToI64));
    assert!(!interface.has(Trap::BinaryI32I32ToI32));
}

#[test]
fn table_copy_hook_brings_its_getters() {
    let interface = interface_from(&vec![Hook::TableCopy]);
    assert!(interface.has(Trap::TableCopy));
    assert!(interface.has(Trap::TableCopyGetSource));
    assert!(interface.has(Trap::TableCopyGetDestination));
    assert!(interface.has(Trap::TableCopyGetSize));
    assert!(!interface.has(Trap::TableInit));
}

#[test]
fn interface_of_concatenation_is_union() {
    let a = vec![Hook::Local, Hook::Branch];
    let b = vec![Hook::Store, Hook::Branch];
    let both: Vec<Hook> = a.iter().chain(b.iter()).copied().collect();
    let ia = interface_from(&a);
    let ib = interface_from(&b);
    let iab = interface_from(&both);
    for hook in Hook::all_hooks() {
        for trap in traps_of_hook(hook) {
            assert_eq!(iab.has(trap), ia.has(trap) || ib.has(trap));
        }
    }
}

#[test]
fn hook_order_and_repetition_do_not_matter() {
    let a = interface_from(&vec![Hook::Const, Hook::Global, Hook::Const]);
    let b = interface_from(&vec![Hook::Global, Hook::Const]);
    for hook in Hook::all_hooks() {
        for trap in traps_of_hook(hook) {
            assert_eq!(a.has(trap), b.has(trap));
        }
    }
}

#[test]
fn empty_interface_has_no_trap() {
    let interface = AnalysisInterface::default();
    assert!(!interface.has(Trap::GenericApply));
    let mut interface = AnalysisInterface::new();
    interface.request(Trap::Select);
    interface.request(Trap::Select);
    assert!(interface.has(Trap::Select));
    assert!(!interface.has(Trap::Drop));
}

#[test]
fn processed_analysis_keeps_source_and_builds_interface() {
    let spec = RustAnalysisSpec {
        source: String::from("analysis/Cargo.toml"),
        hooks: vec![Hook::Return],
    };
    let processed = spec.processed();
    assert_eq!(processed.analysis_library, "analysis/Cargo.toml");
    assert!(processed.analysis_interface.has(Trap::Return));
    assert!(!processed.analysis_interface.has(Trap::Drop));
}
