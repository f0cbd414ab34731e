//! The instrumentation pipeline: compile the analysis, instrument the program,
//! compile the instrumentation library, and merge the three modules.
use vstd::prelude::*;

use crate::hooks::ProcessedAnalysis;
use crate::instrument::{requested, Instrumented, InstrumentationError};
use crate::interface::AnalysisInterface;
use crate::merge::{InputModule, MergeError, MergeOptions};
use crate::options::Setting;
use vstd::string::StringExecFns;

verus! {

/// Which module of the merge comes first (and gets index 0).
#[derive(Debug, Clone, Copy, PartialEq, Eq, Hash, Structural)]
pub enum PrimaryTarget {
    Instrumentation,
    Target,
    Analysis,
}

/// What to instrument and how to merge.
#[derive(Debug, Clone)]
pub struct Configuration {
    /// The functions to instrument, by index; all when `None`.
    pub target_indices: Option<Vec<u32>>,
    pub primary_selection: Option<PrimaryTarget>,
}

impl Default for Configuration {
    fn default() -> (res: Self)
        ensures
            res.target_indices is None,
            res.primary_selection is None,
    {
        Configuration { target_indices: None, primary_selection: None }
    }
}

/// The namespace under which the analysis module is merged.
pub open spec fn analysis_namespace() -> Seq<char> {
    "instrumentation_analysis"@
}

/// The namespace under which the instrumented program is merged.
pub open spec fn instrumented_namespace() -> Seq<char> {
    "instrumented_input"@
}

/// The namespace under which the instrumentation library is merged.
pub open spec fn stack_namespace() -> Seq<char> {
    "instrumentation_stack"@
}

/// A module to merge, as the bytes it holds and its namespace.
pub type ModuleView = (Seq<u8>, Seq<char>);

/// The view of an input module.
pub open spec fn module_view(m: InputModule) -> ModuleView {
    (m.module@, m.namespace@)
}

/// The modules that are present, in order.
pub open spec fn present(s: Seq<Option<ModuleView>>) -> Seq<ModuleView>
    decreases s.len(),
{
    if s.len() == 0 {
        Seq::empty()
    } else {
        match s[0] {
            Some(m) => seq![m] + present(s.drop_first()),
            None => present(s.drop_first()),
        }
    }
}

/// The merge that the pipeline asks for: the primary module and the other
/// modules, in order, given the selection, the instrumented program, the
/// compiled analysis and, when there is one, the compiled instrumentation
/// library.
pub open spec fn planned_merge(
    selection: Option<PrimaryTarget>,
    target: Seq<u8>,
    analysis: Seq<u8>,
    library: Option<Seq<u8>>,
) -> (Option<ModuleView>, Seq<ModuleView>) {
    let a = Some((analysis, analysis_namespace()));
    let t = Some((target, instrumented_namespace()));
    let i = match library {
        Some(l) => Some((l, stack_namespace())),
        None => None,
    };
    match selection {
        Some(PrimaryTarget::Analysis) => (a, present(seq![t, i])),
        Some(PrimaryTarget::Target) => (t, present(seq![a, i])),
        Some(PrimaryTarget::Instrumentation) => (i, present(seq![t, a])),
        None => (None, present(seq![t, i, a])),
    }
}

/// The settings of the pipeline's merges: validation off, export conflicts
/// renamed, and the multi-memory, bulk-memory, bulk-memory-opt, reference-types
/// and non-trapping float-to-int features on; everything else off.
pub open spec fn pipeline_settings(o: MergeOptions) -> bool {
    &&& o.no_validation == Setting::Enable
    &&& o.rename_export_conflicts == Setting::Enable
    &&& o.multimemory == Setting::Enable
    &&& o.bulk_memory == Setting::Enable
    &&& o.bulk_memory_opt == Setting::Enable
    &&& o.reference_types == Setting::Enable
    &&& o.nontrapping_float_to_int == Setting::Enable
    &&& o.call_indirect_overlong == Setting::Disable
    &&& o.extended_const == Setting::Disable
    &&& o.exception_handling == Setting::Disable
    &&& o.fp16 == Setting::Disable
    &&& o.gc == Setting::Disable
    &&& o.memory64 == Setting::Disable
    &&& o.multivalue == Setting::Disable
    &&& o.mutable_globals == Setting::Disable
    &&& o.relaxed_simd == Setting::Disable
    &&& o.shared_everything == Setting::Disable
    &&& o.sign_ext == Setting::Disable
    &&& o.simd == Setting::Disable
    &&& o.strings == Setting::Disable
    &&& o.tail_call == Setting::Disable
    &&& o.threads == Setting::Disable
    &&& o.typed_continuations == Setting::Disable
}

/// Whether the merge options ask for exactly the planned merge, with the
/// pipeline's settings.
pub open spec fn is_planned_merge(
    o: MergeOptions,
    selection: Option<PrimaryTarget>,
    target: Seq<u8>,
    analysis: Seq<u8>,
    library: Option<Seq<u8>>,
) -> bool {
    let plan = planned_merge(selection, target, analysis, library);
    &&& match o.primary {
        Some(p) => plan.0 == Some(module_view(p)),
        None => plan.0 is None,
    }
    &&& o.input_modules@.map_values(|m: InputModule| module_view(m)) == plan.1
    &&& pipeline_settings(o)
}

/// A module of the merge.
fn input_module(bytes: &[u8], namespace: &str) -> (res: InputModule)
    ensures
        module_view(res) == (bytes@, namespace@),
{
    let mut module: Vec<u8> = Vec::new();
    let mut k: usize = 0;
    while k < bytes.len()
        invariant
            0 <= k <= bytes@.len(),
            module@ == bytes@.take(k as int),
        decreases bytes.len() - k,
    {
        module.push(bytes[k]);
        proof {
            assert(bytes@.take(k + 1) =~= bytes@.take(k as int).push(bytes@[k as int]));
        }
        k = k + 1;
    }
    proof {
        assert(bytes@.take(k as int) =~= bytes@);
    }
    InputModule { module, namespace: String::from_str(namespace) }
}

/// The analysis module of the merge.
fn analysis_module(bytes: &[u8]) -> (res: InputModule)
    ensures
        module_view(res) == (bytes@, analysis_namespace()),
{
    input_module(bytes, "instrumentation_analysis")
}

/// The instrumented program of the merge.
fn instrumented_module(bytes: &[u8]) -> (res: InputModule)
    ensures
        module_view(res) == (bytes@, instrumented_namespace()),
{
    input_module(bytes, "instrumented_input")
}

/// The instrumentation library of the merge.
fn stack_module(bytes: Option<&[u8]>) -> (res: Option<InputModule>)
    ensures
        match bytes {
            Some(b) => res matches Some(m) && module_view(m) == (b@, stack_namespace()),
            None => res is None,
        },
{
    match bytes {
        Some(b) => Some(input_module(b, "instrumentation_stack")),
        None => None,
    }
}

/// The modules that are present, in order.
fn present_modules(modules: Vec<Option<InputModule>>) -> (res: Vec<InputModule>)
    ensures
        res@.map_values(|m: InputModule| module_view(m)) == present(
            modules@.map_values(
                |o: Option<InputModule>|
                    match o {
                        Some(m) => Some(module_view(m)),
                        None => None,
                    },
            ),
        ),
{
    let ghost views = modules@.map_values(
        |o: Option<InputModule>|
            match o {
                Some(m) => Some(module_view(m)),
                None => None,
            },
    );
    let mut res: Vec<InputModule> = Vec::new();
    let mut rest = modules;
    let ghost consumed: int = 0;
    proof {
        assert(views.skip(0) =~= views);
        assert(res@.map_values(|m: InputModule| module_view(m)) + present(views) =~= present(
            views,
        ));
    }
    while rest.len() > 0
        invariant
            0 <= consumed <= views.len(),
            rest@.len() == views.len() - consumed,
            forall|k: int|
                0 <= k < rest@.len() ==> views[consumed + k] == match #[trigger] rest@[k] {
                    Some(m) => Some(module_view(m)),
                    None => None,
                },
            res@.map_values(|m: InputModule| module_view(m)) + present(views.skip(consumed))
                == present(views),
        decreases rest.len(),
    {
        let ghost before = rest@;
        let first = rest.remove(0);
        proof {
            assert(views.skip(consumed).drop_first() =~= views.skip(consumed + 1));
            assert(views.skip(consumed)[0] == views[consumed]);
            assert(before[0] == first);
            assert forall|k: int| 0 <= k < rest@.len() implies views[consumed + 1 + k]
                == match #[trigger] rest@[k] {
                Some(m) => Some(module_view(m)),
                None => None,
            } by {
                assert(rest@[k] == before[k + 1]);
            }
        }
        let ghost old_res = res@;
        match first {
            Some(m) => {
                res.push(m);
                proof {
                    assert(res@.map_values(|m: InputModule| module_view(m)) =~= old_res.map_values(
                        |m: InputModule| module_view(m),
                    ).push(module_view(m)));
                    assert(res@.map_values(|m: InputModule| module_view(m)) + present(
                        views.skip(consumed + 1),
                    ) =~= old_res.map_values(|m: InputModule| module_view(m)) + present(
                        views.skip(consumed),
                    ));
                }
            },
            None => {},
        }
        proof {
            consumed = consumed + 1;
        }
    }
    proof {
        assert(views.skip(consumed) =~= Seq::<Option<ModuleView>>::empty());
        assert(res@.map_values(|m: InputModule| module_view(m)) + Seq::<ModuleView>::empty()
            =~= res@.map_values(|m: InputModule| module_view(m)));
    }
    res
}

/// The merge options that the pipeline hands to `wasm-merge`.
pub fn merge_options(
    primary_selection: &Option<PrimaryTarget>,
    instrumented_input: &[u8],
    compiled_analysis: &[u8],
    compiled_instrumentation_lib: Option<&[u8]>,
) -> (res: MergeOptions)
    ensures
        is_planned_merge(
            res,
            *primary_selection,
            instrumented_input@,
            compiled_analysis@,
            match compiled_instrumentation_lib {
                Some(l) => Some(l@),
                None => None,
            },
        ),
{
    let ghost lib = match compiled_instrumentation_lib {
        Some(l) => Some(l@),
        None => None,
    };
    let ghost plan = planned_merge(
        *primary_selection,
        instrumented_input@,
        compiled_analysis@,
        lib,
    );
    let (primary, inputs) = match primary_selection {
        Some(PrimaryTarget::Analysis) => (
            Some(analysis_module(compiled_analysis)),
            vec![
                Some(instrumented_module(instrumented_input)),
                stack_module(compiled_instrumentation_lib),
            ],
        ),
        Some(PrimaryTarget::Target) => (
            Some(instrumented_module(instrumented_input)),
            vec![Some(analysis_module(compiled_analysis)), stack_module(compiled_instrumentation_lib)],
        ),
        Some(PrimaryTarget::Instrumentation) => (
            stack_module(compiled_instrumentation_lib),
            vec![
                Some(instrumented_module(instrumented_input)),
                Some(analysis_module(compiled_analysis)),
            ],
        ),
        None => (
            None,
            vec![
                Some(instrumented_module(instrumented_input)),
                stack_module(compiled_instrumentation_lib),
                Some(analysis_module(compiled_analysis)),
            ],
        ),
    };
    let ghost input_views = inputs@.map_values(
        |o: Option<InputModule>|
            match o {
                Some(m) => Some(module_view(m)),
                None => None,
            },
    );
    proof {
        let a = Some((compiled_analysis@, analysis_namespace()));
        let t = Some((instrumented_input@, instrumented_namespace()));
        let i = match lib {
            Some(l) => Some((l, stack_namespace())),
            None => None,
        };
        match *primary_selection {
            Some(PrimaryTarget::Analysis) => {
                assert(input_views =~= seq![t, i]);
            },
            Some(PrimaryTarget::Target) => {
                assert(input_views =~= seq![a, i]);
            },
            Some(PrimaryTarget::Instrumentation) => {
                assert(input_views =~= seq![t, a]);
            },
            None => {
                assert(input_views =~= seq![t, i, a]);
            },
        }
    }
    let input_modules = present_modules(inputs);
    MergeOptions {
        primary,
        input_modules,
        no_validation: Setting::Enable,
        rename_export_conflicts: Setting::Enable,
        multimemory: Setting::Enable,
        bulk_memory: Setting::Enable,
        bulk_memory_opt: Setting::Enable,
        reference_types: Setting::Enable,
        nontrapping_float_to_int: Setting::Enable,
        call_indirect_overlong: Setting::Disable,
        extended_const: Setting::Disable,
        exception_handling: Setting::Disable,
        fp16: Setting::Disable,
        gc: Setting::Disable,
        memory64: Setting::Disable,
        multivalue: Setting::Disable,
        mutable_globals: Setting::Disable,
        relaxed_simd: Setting::Disable,
        shared_everything: Setting::Disable,
        sign_ext: Setting::Disable,
        simd: Setting::Disable,
        strings: Setting::Disable,
        tail_call: Setting::Disable,
        threads: Setting::Disable,
        typed_continuations: Setting::Disable,
    }
}

/// Every module handed to the merge, the primary first.
pub open spec fn merged_modules(plan: (Option<ModuleView>, Seq<ModuleView>)) -> Seq<ModuleView> {
    match plan.0 {
        Some(p) => seq![p] + plan.1,
        None => plan.1,
    }
}

proof fn lemma_present_two(x: Option<ModuleView>, y: Option<ModuleView>)
    ensures
        present(seq![x, y]) == present(seq![x]) + present(seq![y]),
        present(seq![x]) == (match x {
            Some(m) => seq![m],
            None => Seq::<ModuleView>::empty(),
        }),
{
    assert(seq![x].drop_first() =~= Seq::<Option<ModuleView>>::empty());
    assert(seq![y].drop_first() =~= Seq::<Option<ModuleView>>::empty());
    assert(seq![x, y].drop_first() =~= seq![y]);
    assert(present(Seq::<Option<ModuleView>>::empty()) == Seq::<ModuleView>::empty());
    match x {
        Some(m) => {
            assert(seq![m] + Seq::<ModuleView>::empty() =~= seq![m]);
        },
        None => {},
    }
    match y {
        Some(m) => {
            assert(seq![m] + Seq::<ModuleView>::empty() =~= seq![m]);
        },
        None => {},
    }
    match x {
        Some(m) => {
            assert(present(seq![x, y]) =~= seq![m] + present(seq![y]));
        },
        None => {
            assert(present(seq![x, y]) =~= Seq::<ModuleView>::empty() + present(seq![y]));
        },
    }
}

proof fn lemma_present_three(x: Option<ModuleView>, y: Option<ModuleView>, z: Option<ModuleView>)
    ensures
        present(seq![x, y, z]) == present(seq![x]) + present(seq![y]) + present(seq![z]),
{
    lemma_present_two(x, y);
    lemma_present_two(y, z);
    assert(seq![x, y, z].drop_first() =~= seq![y, z]);
    match x {
        Some(m) => {
            assert(present(seq![x, y, z]) =~= seq![m] + present(seq![y, z]));
        },
        None => {
            assert(present(seq![x, y, z]) =~= present(seq![y, z]));
        },
    }
    assert(present(seq![x]) + present(seq![y]) + present(seq![z]) =~= present(seq![x]) + (
    present(seq![y]) + present(seq![z])));
}

/// Every module of the pipeline is merged exactly once, whichever module is
/// selected as primary: the instrumented program, the compiled analysis and,
/// when there is one, the compiled instrumentation library, each under its
/// own namespace.
pub proof fn law_merge_takes_each_module_once(
    selection: Option<PrimaryTarget>,
    target: Seq<u8>,
    analysis: Seq<u8>,
    library: Option<Seq<u8>>,
)
    ensures
        ({
            let all = merged_modules(planned_merge(selection, target, analysis, library));
            &&& all.len() == (if library is Some { 3nat } else { 2nat })
            &&& all.contains((target, instrumented_namespace()))
            &&& all.contains((analysis, analysis_namespace()))
            &&& (library matches Some(l) ==> all.contains((l, stack_namespace())))
            &&& all.no_duplicates()
        }),
{
    reveal_strlit("instrumentation_analysis");
    reveal_strlit("instrumented_input");
    reveal_strlit("instrumentation_stack");
    let a = Some((analysis, analysis_namespace()));
    let t = Some((target, instrumented_namespace()));
    let i = match library {
        Some(l) => Some((l, stack_namespace())),
        None => None::<ModuleView>,
    };
    lemma_present_two(t, i);
    lemma_present_two(a, i);
    lemma_present_two(t, a);
    lemma_present_two(a, a);
    lemma_present_two(i, i);
    lemma_present_three(t, i, a);
    assert(analysis_namespace()[10] != instrumented_namespace()[10]);
    assert(analysis_namespace()[16] != stack_namespace()[16]);
    assert(instrumented_namespace()[10] != stack_namespace()[10]);
    let all = merged_modules(planned_merge(selection, target, analysis, library));
    let av = (analysis, analysis_namespace());
    let tv = (target, instrumented_namespace());
    match library {
        Some(l) => {
            let iv = (l, stack_namespace());
            let perm = match selection {
                Some(PrimaryTarget::Analysis) => seq![av, tv, iv],
                Some(PrimaryTarget::Target) => seq![tv, av, iv],
                Some(PrimaryTarget::Instrumentation) => seq![iv, tv, av],
                None => seq![tv, iv, av],
            };
            assert(all =~= perm);
            assert(perm.contains(av) && perm.contains(tv) && perm.contains(iv)) by {
                assert(perm[0] == av || perm[1] == av || perm[2] == av);
                assert(perm[0] == tv || perm[1] == tv || perm[2] == tv);
                assert(perm[0] == iv || perm[1] == iv || perm[2] == iv);
            }
        },
        None => {
            let perm = match selection {
                Some(PrimaryTarget::Analysis) => seq![av, tv],
                Some(PrimaryTarget::Target) => seq![tv, av],
                Some(PrimaryTarget::Instrumentation) => seq![tv, av],
                None => seq![tv, av],
            };
            assert(all =~= perm);
            assert(perm.contains(av) && perm.contains(tv)) by {
                assert(perm[0] == av || perm[1] == av);
                assert(perm[0] == tv || perm[1] == tv);
            }
        },
    }
}

/// The selected module comes first when it is there: the compiled analysis,
/// the instrumented program, or the compiled instrumentation library (which
/// may be absent, and then no module is primary); without a selection no
/// module is primary.
pub proof fn law_merge_primary_is_selected(
    selection: Option<PrimaryTarget>,
    target: Seq<u8>,
    analysis: Seq<u8>,
    library: Option<Seq<u8>>,
)
    ensures
        planned_merge(selection, target, analysis, library).0 == match selection {
            Some(PrimaryTarget::Analysis) => Some((analysis, analysis_namespace())),
            Some(PrimaryTarget::Target) => Some((target, instrumented_namespace())),
            Some(PrimaryTarget::Instrumentation) => match library {
                Some(l) => Some((l, stack_namespace())),
                None => None,
            },
            None => None,
        },
{
}

/// Instruments programs with analyses, using a compiler for the language of
/// the instrumentation library and one for the language of the analyses.
pub struct Wastrumenter<InstrumentationLanguageCompiler, AnalysisLanguageCompiler> {
    instrumentation_language_compiler: Box<InstrumentationLanguageCompiler>,
    analysis_language_compiler: Box<AnalysisLanguageCompiler>,
}

/// Why the pipeline failed, at the step where it failed.
#[derive(Debug)]
pub enum Error<CompilationError> {
    CompilationErrorAnalysis(CompilationError),
    InstrumentationError(InstrumentationError),
    CompilationErrorInstrumentation(CompilationError),
    MergeError(MergeError),
}

/// The outside work that the pipeline asks for next.
pub enum Request<Source, Library> {
    /// Compile the analysis library.
    CompileAnalysis(Source),
    /// Instrument the program for the interface, in the requested functions.
    Instrument {
        module: Vec<u8>,
        analysis_interface: AnalysisInterface,
        target_indices: Option<Vec<u32>>,
    },
    /// Compile the instrumentation library.
    CompileInstrumentationLibrary(Library),
    /// Merge the modules.
    Merge(MergeOptions),
}

/// The result of the outside work that the pipeline asked for.
pub enum Outcome<Library, CompilationError> {
    AnalysisCompiled(Result<Vec<u8>, CompilationError>),
    Instrumented(Result<Instrumented<Library>, InstrumentationError>),
    InstrumentationLibraryCompiled(Result<Vec<u8>, CompilationError>),
    Merged(Result<Vec<u8>, MergeError>),
}

/// What the pipeline does after an outcome: ask for more work, or finish.
pub enum Step<Source, Library, CompilationError> {
    Next(Request<Source, Library>),
    Finished(Result<Vec<u8>, Error<CompilationError>>),
}

/// Where a run of the pipeline stands.
pub enum Stage {
    /// The analysis is being compiled; the program, the interface and the
    /// requested functions wait for instrumentation.
    CompilingAnalysis {
        input_program: Vec<u8>,
        analysis_interface: AnalysisInterface,
        target_indices: Option<Vec<u32>>,
    },
    /// The program is being instrumented.
    Instrumenting { analysis_wasm: Vec<u8> },
    /// The instrumentation library is being compiled.
    CompilingInstrumentationLibrary { analysis_wasm: Vec<u8>, instrumented: Vec<u8> },
    /// The modules are being merged.
    Merging,
    /// The run is over.
    Done,
}

/// A run of the pipeline.
pub struct Wastrumentation {
    pub primary_selection: Option<PrimaryTarget>,
    pub stage: Stage,
}

/// How many outcomes a run in this stage still takes at most.
pub open spec fn remaining(stage: Stage) -> nat {
    match stage {
        Stage::CompilingAnalysis { .. } => 4,
        Stage::Instrumenting { .. } => 3,
        Stage::CompilingInstrumentationLibrary { .. } => 2,
        Stage::Merging => 1,
        Stage::Done => 0,
    }
}

/// Whether the outcome answers what the stage asked for.
pub open spec fn answers<Library, CompilationError>(
    stage: Stage,
    outcome: Outcome<Library, CompilationError>,
) -> bool {
    match (stage, outcome) {
        (Stage::CompilingAnalysis { .. }, Outcome::AnalysisCompiled(_)) => true,
        (Stage::Instrumenting { .. }, Outcome::Instrumented(_)) => true,
        (
            Stage::CompilingInstrumentationLibrary { .. },
            Outcome::InstrumentationLibraryCompiled(_),
        ) => true,
        (Stage::Merging, Outcome::Merged(_)) => true,
        _ => false,
    }
}

/// What the pipeline does on an outcome, and the stage it moves to.
pub open spec fn spec_step<Source, Library, CompilationError>(
    selection: Option<PrimaryTarget>,
    stage: Stage,
    outcome: Outcome<Library, CompilationError>,
    step: Step<Source, Library, CompilationError>,
    next: Stage,
) -> bool {
    match (stage, outcome) {
        (
            Stage::CompilingAnalysis { input_program, analysis_interface, target_indices },
            Outcome::AnalysisCompiled(r),
        ) => match r {
            Err(e) => next is Done && step == Step::<Source, Library, CompilationError>::Finished(
                Err(Error::CompilationErrorAnalysis(e)),
            ),
            Ok(wasm) => next == (Stage::Instrumenting { analysis_wasm: wasm }) && step
                == Step::<Source, Library, CompilationError>::Next(
                Request::Instrument { module: input_program, analysis_interface, target_indices },
            ),
        },
        (Stage::Instrumenting { analysis_wasm }, Outcome::Instrumented(r)) => match r {
            Err(e) => next is Done && step == Step::<Source, Library, CompilationError>::Finished(
                Err(Error::InstrumentationError(e)),
            ),
            Ok(instrumented) => match instrumented.instrumentation_library {
                Some(library) => next == (Stage::CompilingInstrumentationLibrary {
                    analysis_wasm,
                    instrumented: instrumented.module,
                }) && step == Step::<Source, Library, CompilationError>::Next(
                    Request::CompileInstrumentationLibrary(library),
                ),
                None => next is Merging && (step matches Step::Next(Request::Merge(o))
                    && is_planned_merge(o, selection, instrumented.module@, analysis_wasm@, None)),
            },
        },
        (
            Stage::CompilingInstrumentationLibrary { analysis_wasm, instrumented },
            Outcome::InstrumentationLibraryCompiled(r),
        ) => match r {
            Err(e) => next is Done && step == Step::<Source, Library, CompilationError>::Finished(
                Err(Error::CompilationErrorInstrumentation(e)),
            ),
            Ok(library_wasm) => next is Merging && (step matches Step::Next(Request::Merge(o))
                && is_planned_merge(
                o,
                selection,
                instrumented@,
                analysis_wasm@,
                Some(library_wasm@),
            )),
        },
        (Stage::Merging, Outcome::Merged(r)) => next is Done && match r {
            Err(e) => step == Step::<Source, Library, CompilationError>::Finished(
                Err(Error::MergeError(e)),
            ),
            Ok(bytes) => step == Step::<Source, Library, CompilationError>::Finished(Ok(bytes)),
        },
        _ => false,
    }
}

/// A copy of the bytes.
fn copy_bytes(bytes: &[u8]) -> (res: Vec<u8>)
    ensures
        res@ == bytes@,
{
    let mut res: Vec<u8> = Vec::new();
    let mut k: usize = 0;
    while k < bytes.len()
        invariant
            0 <= k <= bytes@.len(),
            res@ == bytes@.take(k as int),
        decreases bytes.len() - k,
    {
        res.push(bytes[k]);
        proof {
            assert(bytes@.take(k + 1) =~= bytes@.take(k as int).push(bytes@[k as int]));
        }
        k = k + 1;
    }
    proof {
        assert(bytes@.take(k as int) =~= bytes@);
    }
    res
}

impl<InstrumentationLanguageCompiler, AnalysisLanguageCompiler> Wastrumenter<
    InstrumentationLanguageCompiler,
    AnalysisLanguageCompiler,
> {
    /// The compiler of the instrumentation library's language.
    pub closed spec fn spec_instrumentation_language_compiler(&self) -> InstrumentationLanguageCompiler {
        *self.instrumentation_language_compiler
    }

    /// The compiler of the analyses' language.
    pub closed spec fn spec_analysis_language_compiler(&self) -> AnalysisLanguageCompiler {
        *self.analysis_language_compiler
    }

    /// A wastrumenter with the two compilers.
    pub fn new(
        instrumentation_language_compiler: Box<InstrumentationLanguageCompiler>,
        analysis_language_compiler: Box<AnalysisLanguageCompiler>,
    ) -> (res: Self)
        ensures
            res.spec_instrumentation_language_compiler() == *instrumentation_language_compiler,
            res.spec_analysis_language_compiler() == *analysis_language_compiler,
    {
        Wastrumenter { instrumentation_language_compiler, analysis_language_compiler }
    }

    /// The compiler of the instrumentation library's language.
    pub fn instrumentation_language_compiler(&self) -> (res: &InstrumentationLanguageCompiler)
        ensures
            *res == self.spec_instrumentation_language_compiler(),
    {
        &self.instrumentation_language_compiler
    }

    /// The compiler of the analyses' language.
    pub fn analysis_language_compiler(&self) -> (res: &AnalysisLanguageCompiler)
        ensures
            *res == self.spec_analysis_language_compiler(),
    {
        &self.analysis_language_compiler
    }

    /// Starts instrumenting the program with the analysis: the run, and its
    /// first request, to compile the analysis. The run then goes on through
    /// `Wastrumentation::advance`.
    pub fn wastrument<Source, Library>(
        &self,
        input_program: &[u8],
        analysis: ProcessedAnalysis<Source>,
        configuration: &Configuration,
    ) -> (res: (Wastrumentation, Request<Source, Library>))
        ensures
            res.0.primary_selection == configuration.primary_selection,
            res.0.stage matches Stage::CompilingAnalysis {
                input_program: p,
                analysis_interface: i,
                target_indices: t,
            } && p@ == input_program@ && i == analysis.analysis_interface && requested(t)
                == requested(configuration.target_indices),
            res.1 == Request::<Source, Library>::CompileAnalysis(analysis.analysis_library),
    {
        let ProcessedAnalysis { analysis_library, analysis_interface } = analysis;
        let target_indices = match &configuration.target_indices {
            Some(ts) => Some(copy_indices(ts)),
            None => None,
        };
        (
            Wastrumentation {
                primary_selection: configuration.primary_selection,
                stage: Stage::CompilingAnalysis {
                    input_program: copy_bytes(input_program),
                    analysis_interface,
                    target_indices,
                },
            },
            Request::CompileAnalysis(analysis_library),
        )
    }
}

/// A copy of the indices.
fn copy_indices(v: &Vec<u32>) -> (res: Vec<u32>)
    ensures
        res@ == v@,
{
    let mut res: Vec<u32> = Vec::new();
    let mut k: usize = 0;
    while k < v.len()
        invariant
            0 <= k <= v@.len(),
            res@ == v@.take(k as int),
        decreases v.len() - k,
    {
        res.push(v[k]);
        proof {
            assert(v@.take(k + 1) =~= v@.take(k as int).push(v@[k as int]));
        }
        k = k + 1;
    }
    proof {
        assert(v@.take(k as int) =~= v@);
    }
    res
}

impl Wastrumentation {
    /// Whether the run is over.
    pub fn is_done(&self) -> (res: bool)
        ensures
            res == self.stage is Done,
    {
        match self.stage {
            Stage::Done => true,
            _ => false,
        }
    }

    /// Whether the outcome answers what the run asked for last.
    pub fn answers<Library, CompilationError>(
        &self,
        outcome: &Outcome<Library, CompilationError>,
    ) -> (res: bool)
        ensures
            res == answers(self.stage, *outcome),
    {
        match (&self.stage, outcome) {
            (Stage::CompilingAnalysis { .. }, Outcome::AnalysisCompiled(_)) => true,
            (Stage::Instrumenting { .. }, Outcome::Instrumented(_)) => true,
            (
                Stage::CompilingInstrumentationLibrary { .. },
                Outcome::InstrumentationLibraryCompiled(_),
            ) => true,
            (Stage::Merging, Outcome::Merged(_)) => true,
            _ => false,
        }
    }

    /// Goes on with the outcome of the work asked for last: an error ends the
    /// run with that error, tagged with its step; the compiled analysis leads
    /// to instrumentation; an instrumented program leads to compiling its
    /// library, or straight to the merge when it needs none; the compiled
    /// library leads to the merge; the merge's result ends the run.
    pub fn advance<Source, Library, CompilationError>(
        &mut self,
        outcome: Outcome<Library, CompilationError>,
    ) -> (res: Step<Source, Library, CompilationError>)
        requires
            answers(old(self).stage, outcome),
        ensures
            final(self).primary_selection == old(self).primary_selection,
            spec_step(old(self).primary_selection, old(self).stage, outcome, res, final(self).stage),
            remaining(final(self).stage) < remaining(old(self).stage),
    {
        let mut stage = Stage::Done;
        std::mem::swap(&mut stage, &mut self.stage);
        match (stage, outcome) {
            (
                Stage::CompilingAnalysis { input_program, analysis_interface, target_indices },
                Outcome::AnalysisCompiled(r),
            ) => match r {
                Err(e) => Step::Finished(Err(Error::CompilationErrorAnalysis(e))),
                Ok(wasm) => {
                    self.stage = Stage::Instrumenting { analysis_wasm: wasm };
                    Step::Next(
                        Request::Instrument {
                            module: input_program,
                            analysis_interface,
                            target_indices,
                        },
                    )
                },
            },
            (Stage::Instrumenting { analysis_wasm }, Outcome::Instrumented(r)) => match r {
                Err(e) => Step::Finished(Err(Error::InstrumentationError(e))),
                Ok(instrumented) => {
                    let Instrumented { module, instrumentation_library } = instrumented;
                    match instrumentation_library {
                        Some(library) => {
                            self.stage = Stage::CompilingInstrumentationLibrary {
                                analysis_wasm,
                                instrumented: module,
                            };
                            Step::Next(Request::CompileInstrumentationLibrary(library))
                        },
                        None => {
                            let options = merge_options(
                                &self.primary_selection,
                                module.as_slice(),
                                analysis_wasm.as_slice(),
                                None,
                            );
                            self.stage = Stage::Merging;
                            Step::Next(Request::Merge(options))
                        },
                    }
                },
            },
            (
                Stage::CompilingInstrumentationLibrary { analysis_wasm, instrumented },
                Outcome::InstrumentationLibraryCompiled(r),
            ) => match r {
                Err(e) => Step::Finished(Err(Error::CompilationErrorInstrumentation(e))),
                Ok(library_wasm) => {
                    let options = merge_options(
                        &self.primary_selection,
                        instrumented.as_slice(),
                        analysis_wasm.as_slice(),
                        Some(library_wasm.as_slice()),
                    );
                    self.stage = Stage::Merging;
                    Step::Next(Request::Merge(options))
                },
            },
            (Stage::Merging, Outcome::Merged(r)) => match r {
                Err(e) => Step::Finished(Err(Error::MergeError(e))),
                Ok(bytes) => Step::Finished(Ok(bytes)),
            },
            (_, _) => {
                proof {
                    assert(false);
                }
                Step::Finished(Ok(Vec::new()))
            },
        }
    }
}

/// Whether the stages, outcomes and steps are a run of the pipeline: each
/// outcome answers the stage before it, and each step, with the stage after
/// it, is what `advance` gives on that outcome.
pub open spec fn is_run<Source, Library, CompilationError>(
    selection: Option<PrimaryTarget>,
    stages: Seq<Stage>,
    outcomes: Seq<Outcome<Library, CompilationError>>,
    steps: Seq<Step<Source, Library, CompilationError>>,
) -> bool {
    &&& stages.len() == outcomes.len() + 1
    &&& steps.len() == outcomes.len()
    &&& forall|i: int|
        0 <= i < outcomes.len() ==> answers(stages[i], #[trigger] outcomes[i]) && spec_step(
            selection,
            stages[i],
            outcomes[i],
            steps[i],
            stages[i + 1],
        )
}

/// Whether the step asks to compile the analysis library.
pub open spec fn asks_analysis_compile<Source, Library, CompilationError>(
    step: Step<Source, Library, CompilationError>,
) -> bool {
    step matches Step::Next(Request::CompileAnalysis(_))
}

/// Whether the step asks to compile the instrumentation library.
pub open spec fn asks_library_compile<Source, Library, CompilationError>(
    step: Step<Source, Library, CompilationError>,
) -> bool {
    step matches Step::Next(Request::CompileInstrumentationLibrary(_))
}

proof fn lemma_run_remaining_decreases<Source, Library, CompilationError>(
    selection: Option<PrimaryTarget>,
    stages: Seq<Stage>,
    outcomes: Seq<Outcome<Library, CompilationError>>,
    steps: Seq<Step<Source, Library, CompilationError>>,
    i: int,
    j: int,
)
    requires
        is_run(selection, stages, outcomes, steps),
        0 <= i < j < stages.len(),
    ensures
        remaining(stages[j]) + (j - i) <= remaining(stages[i]),
    decreases j - i,
{
    assert(answers(stages[j - 1], outcomes[j - 1]));
    if i < j - 1 {
        lemma_run_remaining_decreases(selection, stages, outcomes, steps, i, j - 1);
    }
}

/// Over a run that starts where `wastrument` leaves it, compiling the
/// analysis library was asked for once, by `wastrument`, and no step asks for
/// it again; at most one step asks to compile the instrumentation library,
/// and only once the analysis has compiled and the program is instrumented,
/// for the library that instrumentation produced; and the run takes at most
/// four outcomes.
pub proof fn law_run_compiles_each_library_once<Source, Library, CompilationError>(
    selection: Option<PrimaryTarget>,
    stages: Seq<Stage>,
    outcomes: Seq<Outcome<Library, CompilationError>>,
    steps: Seq<Step<Source, Library, CompilationError>>,
)
    requires
        is_run(selection, stages, outcomes, steps),
        stages[0] is CompilingAnalysis,
    ensures
        outcomes.len() <= 4,
        forall|i: int| 0 <= i < steps.len() ==> !asks_analysis_compile(#[trigger] steps[i]),
        forall|i: int, j: int|
            0 <= i < steps.len() && 0 <= j < steps.len() && asks_library_compile(
                #[trigger] steps[i],
            ) && asks_library_compile(#[trigger] steps[j]) ==> i == j,
        forall|i: int|
            0 <= i < steps.len() && asks_library_compile(#[trigger] steps[i]) ==> i == 1
                && (outcomes[0] matches Outcome::AnalysisCompiled(Ok(_))) && (
                outcomes[1] matches Outcome::Instrumented(Ok(ins)) && ins.instrumentation_library
                    == Some(steps[i]->Next_0->CompileInstrumentationLibrary_0)),
{
    if outcomes.len() > 0 {
        lemma_run_remaining_decreases(selection, stages, outcomes, steps, 0, outcomes.len() as int);
    }
    assert forall|i: int| 0 <= i < steps.len() implies !asks_analysis_compile(
        #[trigger] steps[i],
    ) by {
        assert(answers(stages[i], outcomes[i]));
    }
    assert forall|i: int|
        0 <= i < steps.len() && asks_library_compile(#[trigger] steps[i]) implies i == 1 && (
        outcomes[0] matches Outcome::AnalysisCompiled(Ok(_))) && (outcomes[1] matches Outcome::Instrumented(
            Ok(_),
        )) by {
        assert(answers(stages[i], outcomes[i]));
        assert(stages[i] is Instrumenting);
        if i == 0 {
            assert(false);
        } else {
            lemma_run_remaining_decreases(selection, stages, outcomes, steps, 0, i);
            assert(answers(stages[0], outcomes[0]));
            if i > 1 {
                assert(false);
            }
        }
    }
}

/// The error with which a failed outcome ends the run, tagged with the step
/// that failed; `None` when the outcome reports success.
pub open spec fn failure_of<Library, CompilationError>(
    outcome: Outcome<Library, CompilationError>,
) -> Option<Error<CompilationError>> {
    match outcome {
        Outcome::AnalysisCompiled(Err(e)) => Some(Error::CompilationErrorAnalysis(e)),
        Outcome::Instrumented(Err(e)) => Some(Error::InstrumentationError(e)),
        Outcome::InstrumentationLibraryCompiled(Err(e)) => Some(
            Error::CompilationErrorInstrumentation(e),
        ),
        Outcome::Merged(Err(e)) => Some(Error::MergeError(e)),
        _ => None,
    }
}

/// A failure ends the run: over any run, an outcome that reports a failure is
/// the last one, and the run finishes with its error, tagged with the step
/// that failed.
pub proof fn law_run_failure_ends_it<Source, Library, CompilationError>(
    selection: Option<PrimaryTarget>,
    stages: Seq<Stage>,
    outcomes: Seq<Outcome<Library, CompilationError>>,
    steps: Seq<Step<Source, Library, CompilationError>>,
)
    requires
        is_run(selection, stages, outcomes, steps),
    ensures
        forall|i: int|
            0 <= i < outcomes.len() && (#[trigger] failure_of(outcomes[i])) is Some ==> i
                == outcomes.len() - 1 && stages[i + 1] is Done && steps[i]
                == Step::<Source, Library, CompilationError>::Finished(
                Err(failure_of(outcomes[i])->0),
            ),
{
    assert forall|i: int|
        0 <= i < outcomes.len() && (#[trigger] failure_of(outcomes[i])) is Some implies i
            == outcomes.len() - 1 && stages[i + 1] is Done && steps[i]
            == Step::<Source, Library, CompilationError>::Finished(
            Err(failure_of(outcomes[i])->0),
        ) by {
        assert(answers(stages[i], outcomes[i]));
        if i + 1 < outcomes.len() {
            assert(answers(stages[i + 1], outcomes[i + 1]));
        }
    }
}

/// A run in which every outcome reports success, from the stage that
/// `wastrument` starts it in to its end, asks to instrument the program for
/// the interface and the requested functions it was started with, asks to
/// compile the instrumentation library when instrumentation produced one,
/// asks for the merge planned from the instrumented module, the compiled
/// analysis and the compiled library (if any), for the run's primary
/// selection, and finishes with the merged module.
pub proof fn law_run_success_ends_in_planned_merge<Source, Library, CompilationError>(
    selection: Option<PrimaryTarget>,
    stages: Seq<Stage>,
    outcomes: Seq<Outcome<Library, CompilationError>>,
    steps: Seq<Step<Source, Library, CompilationError>>,
)
    requires
        is_run(selection, stages, outcomes, steps),
        stages[0] is CompilingAnalysis,
        stages.last() is Done,
        forall|i: int| 0 <= i < outcomes.len() ==> (#[trigger] failure_of(outcomes[i])) is None,
    ensures
        stages[0] matches Stage::CompilingAnalysis {
            input_program,
            analysis_interface,
            target_indices,
        } && steps[0] == Step::<Source, Library, CompilationError>::Next(
            Request::Instrument { module: input_program, analysis_interface, target_indices },
        ),
        outcomes[0] matches Outcome::AnalysisCompiled(Ok(aw)) && outcomes[1] matches Outcome::Instrumented(
            Ok(ins),
        ) && match ins.instrumentation_library {
            None => outcomes.len() == 3 && (steps[1] matches Step::Next(Request::Merge(o))
                && is_planned_merge(o, selection, ins.module@, aw@, None)),
            Some(library) => outcomes.len() == 4 && steps[1]
                == Step::<Source, Library, CompilationError>::Next(
                Request::CompileInstrumentationLibrary(library),
            ) && (outcomes[2] matches Outcome::InstrumentationLibraryCompiled(Ok(lw)) && (
            steps[2] matches Step::Next(Request::Merge(o)) && is_planned_merge(
                o,
                selection,
                ins.module@,
                aw@,
                Some(lw@),
            ))),
        },
        outcomes.last() matches Outcome::Merged(Ok(bytes)) && steps.last()
            == Step::<Source, Library, CompilationError>::Finished(Ok(bytes)),
{
    let n = outcomes.len();
    assert(n > 0);
    lemma_run_remaining_decreases(selection, stages, outcomes, steps, 0, n as int);
    assert(failure_of(outcomes[0]) is None);
    assert(answers(stages[0], outcomes[0]));
    assert(stages[1] is Instrumenting);
    assert(n >= 2);
    assert(failure_of(outcomes[1]) is None);
    assert(answers(stages[1], outcomes[1]));
    if stages[2] is Merging {
        assert(n >= 3);
        assert(failure_of(outcomes[2]) is None);
        assert(answers(stages[2], outcomes[2]));
        assert(stages[3] is Done);
        if n > 3 {
            assert(answers(stages[3], outcomes[3]));
        }
    } else {
        assert(stages[2] is CompilingInstrumentationLibrary);
        assert(n >= 3);
        assert(failure_of(outcomes[2]) is None);
        assert(answers(stages[2], outcomes[2]));
        assert(stages[3] is Merging);
        assert(n >= 4);
        assert(failure_of(outcomes[3]) is None);
        assert(answers(stages[3], outcomes[3]));
    }
}

/// Whether the outcome is the result of the work that the request asks for.
pub open spec fn is_outcome_of<Source, Library, CompilationError>(
    request: Request<Source, Library>,
    outcome: Outcome<Library, CompilationError>,
) -> bool {
    ||| (request matches Request::CompileAnalysis(_)) && (outcome matches Outcome::AnalysisCompiled(_))
    ||| (request matches Request::Instrument { .. }) && (outcome matches Outcome::Instrumented(_))
    ||| (request matches Request::CompileInstrumentationLibrary(_)) && (
    outcome matches Outcome::InstrumentationLibraryCompiled(_))
    ||| (request matches Request::Merge(_)) && (outcome matches Outcome::Merged(_))
}

/// Each stage that waits for work accepts every result of that work, a
/// success or a failure alike: compiling the analysis, instrumenting,
/// compiling the instrumentation library, and merging.
pub proof fn law_waiting_stages_accept_their_results<Library, CompilationError>()
    ensures
        forall|p: Vec<u8>, i: AnalysisInterface, t: Option<Vec<u32>>, r: Result<Vec<u8>, CompilationError>|
            #[trigger] answers(
                Stage::CompilingAnalysis { input_program: p, analysis_interface: i, target_indices: t },
                Outcome::<Library, CompilationError>::AnalysisCompiled(r),
            ),
        forall|a: Vec<u8>, r: Result<Instrumented<Library>, InstrumentationError>|
            #[trigger] answers(
                Stage::Instrumenting { analysis_wasm: a },
                Outcome::<Library, CompilationError>::Instrumented(r),
            ),
        forall|a: Vec<u8>, m: Vec<u8>, r: Result<Vec<u8>, CompilationError>|
            #[trigger] answers(
                Stage::CompilingInstrumentationLibrary { analysis_wasm: a, instrumented: m },
                Outcome::<Library, CompilationError>::InstrumentationLibraryCompiled(r),
            ),
        forall|r: Result<Vec<u8>, MergeError>|
            #[trigger] answers(Stage::Merging, Outcome::<Library, CompilationError>::Merged(r)),
{
}

/// The pipeline never gets stuck: after any step that asks for work, the run
/// accepts every result of that work.
pub proof fn law_every_request_is_answerable<Source, Library, CompilationError>(
    selection: Option<PrimaryTarget>,
    stage: Stage,
    outcome: Outcome<Library, CompilationError>,
    step: Step<Source, Library, CompilationError>,
    next: Stage,
    result: Outcome<Library, CompilationError>,
)
    requires
        spec_step(selection, stage, outcome, step, next),
        step matches Step::Next(request) && is_outcome_of(request, result),
    ensures
        answers(next, result),
{
}

} // verus!
