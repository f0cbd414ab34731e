use wastrumentation::merge::{merge_verdict, InputModule, MergeError, MergeOptions};
use wastrumentation::options::Setting;

fn module(bytes: &[u8], namespace: &str) -> InputModule {
    InputModule {
        module: bytes.to_vec(),
        namespace: namespace.to_string(),
    }
}

#[test]
fn default_options_pass_no_flag() {
    let options = MergeOptions::default();
    assert_eq!(options.as_bash_arguments(), "  ".repeat(22));
    assert!(options.primary.is_none());
    assert!(options.input_modules.is_empty());
}

#[test]
fn enabled_options_pass_their_flags_in_order() {
    let options = MergeOptions {
        rename_export_conflicts: Setting::Enable,
        simd: Setting::Enable,
        fp16: Setting::Enable,
        no_validation: Setting::Enable,
        ..Default::default()
    };
    let expected = format!(
        " --rename-export-conflicts {} --enable-simd {} --enable-fp16 ",
        "  ".repeat(4),
        "  ".repeat(15)
    );
    assert_eq!(options.as_bash_arguments(), expected);
}

#[test]
fn setting_as_option() {
    assert_eq!(Setting::Enable.as_option("--x"), "--x");
    assert_eq!(Setting::Disable.as_option("--x"), "");
    assert_eq!(Setting::default(), Setting::Disable);
}

#[test]
fn inputs_put_the_primary_first() {
    let options = MergeOptions {
        primary: Some(module(b"p", "prim")),
        input_modules: vec![module(b"a", "first"), module(b"b", "second")],
        ..Default::default()
    };
    let names: Vec<&str> = options.inputs().iter().map(|m| m.namespace.as_str()).collect();
    assert_eq!(names, vec!["prim", "first", "second"]);
}

#[test]
fn merge_command_lists_files_with_namespaces() {
    let options = MergeOptions {
        primary: Some(module(b"p", "prim")),
        input_modules: vec![module(b"a", "other")],
        multimemory: Setting::Enable,
        ..Default::default()
    };
    let paths = vec!["/tmp/p.wasm".to_string(), "/tmp/a.wasm".to_string()];
    let command = options.merge_command(&paths, "/tmp/out.wasm");
    let expected = format!(
        "wasm-merge {} /tmp/p.wasm prim /tmp/a.wasm other -o /tmp/out.wasm",
        options.as_bash_arguments()
    );
    assert_eq!(command, expected);
    assert!(command.contains(" --enable-multimemory "));
}

#[test]
fn merge_command_without_modules() {
    let options = MergeOptions::default();
    let command = options.merge_command(&vec![], "out");
    assert_eq!(command, format!("wasm-merge {}  -o out", "  ".repeat(22)));
}

#[test]
fn merge_verdict_reads_the_error_stream() {
    assert!(merge_verdict(Some(0), String::new()).is_ok());
    match merge_verdict(Some(0), "bad module".to_string()) {
        Err(MergeError::MergeExecutionFailedReason(reason)) => assert_eq!(reason, "bad module"),
        other => panic!("unexpected {other:?}"),
    }
    match merge_verdict(Some(1), "bad module".to_string()) {
        Err(MergeError::MergeExecutionFailedReason(reason)) => assert_eq!(reason, "bad module"),
        other => panic!("unexpected {other:?}"),
    }
}

#[test]
fn merge_verdict_reads_the_exit_status() {
    assert!(matches!(
        merge_verdict(Some(1), String::new()),
        Err(MergeError::MergeExecutionFailedStatus(Some(1)))
    ));
    assert!(matches!(
        merge_verdict(None, String::new()),
        Err(MergeError::MergeExecutionFailedStatus(None))
    ));
}
