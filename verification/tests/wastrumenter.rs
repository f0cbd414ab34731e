use wastrumentation::hooks::{Hook, RustAnalysisSpec};
use wastrumentation::instrument::{InstrumentationError, Instrumented};
use wastrumentation::interface::Trap;
use wastrumentation::merge::{MergeError, MergeOptions};
use wastrumentation::options::Setting;
use wastrumentation::wastrumenter::{
    merge_options, Configuration, Error, Outcome, PrimaryTarget, Request, Step, Wastrumentation,
    Wastrumenter,
};

fn namespaces(options: &MergeOptions) -> (Option<String>, Vec<String>) {
    (
        options.primary.as_ref().map(|p| p.namespace.clone()),
        options
            .input_modules
            .iter()
            .map(|m| m.namespace.clone())
            .collect(),
    )
}

const TARGET: &str = "instrumented_input";
const ANALYSIS: &str = "instrumentation_analysis";
const STACK: &str = "instrumentation_stack";

fn strings(v: &[&str]) -> Vec<String> {
    v.iter().map(|s| s.to_string()).collect()
}

#[test]
fn merge_without_selection_orders_target_library_analysis() {
    let o = merge_options(&None, b"t", b"a", Some(b"l"));
    assert_eq!(namespaces(&o), (None, strings(&[TARGET, STACK, ANALYSIS])));
    assert_eq!(o.input_modules[0].module, b"t".to_vec());
    assert_eq!(o.input_modules[1].module, b"l".to_vec());
    assert_eq!(o.input_modules[2].module, b"a".to_vec());
}

#[test]
fn merge_with_target_primary() {
    let o = merge_options(&Some(PrimaryTarget::Target), b"t", b"a", Some(b"l"));
    assert_eq!(
        namespaces(&o),
        (Some(TARGET.to_string()), strings(&[ANALYSIS, STACK]))
    );
    assert_eq!(o.primary.as_ref().unwrap().module, b"t".to_vec());
}

#[test]
fn merge_with_analysis_primary_and_no_library() {
    let o = merge_options(&Some(PrimaryTarget::Analysis), b"t", b"a", None);
    assert_eq!(namespaces(&o), (Some(ANALYSIS.to_string()), strings(&[TARGET])));
}

#[test]
fn merge_with_missing_instrumentation_primary() {
    let o = merge_options(&Some(PrimaryTarget::Instrumentation), b"t", b"a", None);
    assert_eq!(namespaces(&o), (None, strings(&[TARGET, ANALYSIS])));
    let o = merge_options(&Some(PrimaryTarget::Instrumentation), b"t", b"a", Some(b"l"));
    assert_eq!(
        namespaces(&o),
        (Some(STACK.to_string()), strings(&[TARGET, ANALYSIS]))
    );
}

#[test]
fn merge_settings_of_the_pipeline() {
    let o = merge_options(&None, b"t", b"a", None);
    assert_eq!(o.no_validation, Setting::Enable);
    assert_eq!(o.rename_export_conflicts, Setting::Enable);
    assert_eq!(o.multimemory, Setting::Enable);
    assert_eq!(o.bulk_memory, Setting::Enable);
    assert_eq!(o.bulk_memory_opt, Setting::Enable);
    assert_eq!(o.reference_types, Setting::Enable);
    assert_eq!(o.nontrapping_float_to_int, Setting::Enable);
    assert_eq!(o.simd, Setting::Disable);
    assert_eq!(o.gc, Setting::Disable);
}

fn start(
    primary_selection: Option<PrimaryTarget>,
) -> (Wastrumentation, Request<String, String>) {
    let wastrumenter = Wastrumenter::new(Box::new(1u8), Box::new(2u8));
    assert_eq!(*wastrumenter.instrumentation_language_compiler(), 1);
    assert_eq!(*wastrumenter.analysis_language_compiler(), 2);
    let analysis = RustAnalysisSpec {
        source: "analysis".to_string(),
        hooks: vec![Hook::Drop],
    }
    .processed();
    let configuration = Configuration {
        target_indices: Some(vec![4]),
        primary_selection,
    };
    wastrumenter.wastrument(b"program", analysis, &configuration)
}

#[test]
fn successful_run_goes_through_every_step() {
    let (mut run, first) = start(Some(PrimaryTarget::Target));
    match first {
        Request::CompileAnalysis(source) => assert_eq!(source, "analysis"),
        _ => panic!("expected the analysis compilation"),
    }
    let step: Step<String, String, String> =
        run.advance(Outcome::AnalysisCompiled(Ok(b"A".to_vec())));
    match step {
        Step::Next(Request::Instrument {
            module,
            analysis_interface,
            target_indices,
        }) => {
            assert_eq!(module, b"program".to_vec());
            assert!(analysis_interface.has(Trap::Drop));
            assert_eq!(target_indices, Some(vec![4]));
        }
        _ => panic!("expected instrumentation"),
    }
    let step: Step<String, String, String> = run.advance(Outcome::Instrumented(Ok(Instrumented {
        module: b"I".to_vec(),
        instrumentation_library: Some("lib".to_string()),
    })));
    match step {
        Step::Next(Request::CompileInstrumentationLibrary(lib)) => assert_eq!(lib, "lib"),
        _ => panic!("expected the library compilation"),
    }
    let step: Step<String, String, String> =
        run.advance(Outcome::InstrumentationLibraryCompiled(Ok(b"L".to_vec())));
    match step {
        Step::Next(Request::Merge(options)) => {
            assert_eq!(
                namespaces(&options),
                (Some(TARGET.to_string()), strings(&[ANALYSIS, STACK]))
            );
            assert_eq!(options.primary.as_ref().unwrap().module, b"I".to_vec());
            assert_eq!(options.input_modules[0].module, b"A".to_vec());
            assert_eq!(options.input_modules[1].module, b"L".to_vec());
        }
        _ => panic!("expected the merge"),
    }
    assert!(!run.is_done());
    let step: Step<String, String, String> = run.advance(Outcome::Merged(Ok(b"merged".to_vec())));
    match step {
        Step::Finished(Ok(bytes)) => assert_eq!(bytes, b"merged".to_vec()),
        _ => panic!("expected the merged module"),
    }
    assert!(run.is_done());
}

#[test]
fn run_without_library_merges_right_after_instrumentation() {
    let (mut run, _) = start(None);
    let _: Step<String, String, String> = run.advance(Outcome::AnalysisCompiled(Ok(b"A".to_vec())));
    let step: Step<String, String, String> = run.advance(Outcome::Instrumented(Ok(Instrumented {
        module: b"I".to_vec(),
        instrumentation_library: None,
    })));
    match step {
        Step::Next(Request::Merge(options)) => {
            assert_eq!(namespaces(&options), (None, strings(&[TARGET, ANALYSIS])));
        }
        _ => panic!("expected the merge"),
    }
}

#[test]
fn failing_analysis_compilation_ends_the_run() {
    let (mut run, _) = start(None);
    let outcome: Outcome<String, String> = Outcome::AnalysisCompiled(Err("no cargo".to_string()));
    assert!(run.answers(&outcome));
    assert!(!run.answers(&Outcome::<String, String>::Merged(Ok(vec![]))));
    let step: Step<String, String, String> = run.advance(outcome);
    match step {
        Step::Finished(Err(Error::CompilationErrorAnalysis(e))) => assert_eq!(e, "no cargo"),
        _ => panic!("expected the analysis error"),
    }
    assert!(run.is_done());
}

#[test]
fn failing_instrumentation_ends_the_run() {
    let (mut run, _) = start(None);
    let _: Step<String, String, String> = run.advance(Outcome::AnalysisCompiled(Ok(vec![])));
    let step: Step<String, String, String> = run.advance(Outcome::Instrumented(Err(
        InstrumentationError::AttemptInnerInstrumentImport,
    )));
    assert!(matches!(
        step,
        Step::Finished(Err(Error::InstrumentationError(
            InstrumentationError::AttemptInnerInstrumentImport
        )))
    ));
}

#[test]
fn failing_library_compilation_ends_the_run() {
    let (mut run, _) = start(None);
    let _: Step<String, String, String> = run.advance(Outcome::AnalysisCompiled(Ok(vec![])));
    let _: Step<String, String, String> = run.advance(Outcome::Instrumented(Ok(Instrumented {
        module: vec![],
        instrumentation_library: Some("lib".to_string()),
    })));
    let step: Step<String, String, String> =
        run.advance(Outcome::InstrumentationLibraryCompiled(Err("broken".to_string())));
    assert!(matches!(
        step,
        Step::Finished(Err(Error::CompilationErrorInstrumentation(_)))
    ));
}

#[test]
fn failing_merge_ends_the_run() {
    let (mut run, _) = start(None);
    let _: Step<String, String, String> = run.advance(Outcome::AnalysisCompiled(Ok(vec![])));
    let _: Step<String, String, String> = run.advance(Outcome::Instrumented(Ok(Instrumented {
        module: vec![],
        instrumentation_library: None,
    })));
    let step: Step<String, String, String> = run.advance(Outcome::Merged(Err(
        MergeError::MergeExecutionFailedReason("oops".to_string()),
    )));
    match step {
        Step::Finished(Err(Error::MergeError(MergeError::MergeExecutionFailedReason(r)))) => {
            assert_eq!(r, "oops")
        }
        _ => panic!("expected the merge error"),
    }
}

#[test]
fn configuration_default_selects_nothing() {
    let c = Configuration::default();
    assert!(c.target_indices.is_none());
    assert!(c.primary_selection.is_none());
}
