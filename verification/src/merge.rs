//! Merging WebAssembly modules with binaryen's `wasm-merge`: which modules go
//! in, in which order, and the command line that merges them.
use vstd::prelude::*;

use crate::options::{spec_as_option, Setting};
use vstd::string::StringExecFns;

verus! {

/// A module to merge, with the name under which the others import from it.
pub struct InputModule {
    pub module: Vec<u8>,
    pub namespace: String,
}

/// What to merge, and how.
pub struct MergeOptions {
    /// Optionally a primary module is declared. The primary module receives
    /// index 0, which may be important e.g. for the WASI interface that reads
    /// IO buffers from memory 0.
    pub primary: Option<InputModule>,
    pub input_modules: Vec<InputModule>,
    pub no_validation: Setting,
    pub rename_export_conflicts: Setting,
    pub bulk_memory: Setting,
    pub bulk_memory_opt: Setting,
    pub call_indirect_overlong: Setting,
    pub extended_const: Setting,
    pub exception_handling: Setting,
    pub fp16: Setting,
    pub gc: Setting,
    pub memory64: Setting,
    pub multimemory: Setting,
    pub multivalue: Setting,
    pub mutable_globals: Setting,
    pub nontrapping_float_to_int: Setting,
    pub reference_types: Setting,
    pub relaxed_simd: Setting,
    pub shared_everything: Setting,
    pub sign_ext: Setting,
    pub simd: Setting,
    pub strings: Setting,
    pub tail_call: Setting,
    pub threads: Setting,
    pub typed_continuations: Setting,
}

/// The command-line flag of the option at position `i` of the command line.
pub open spec fn option_flag(i: int) -> Seq<char> {
    if i == 0 {
        "--rename-export-conflicts"@
    } else if i == 1 {
        "--enable-sign-ext"@
    } else if i == 2 {
        "--enable-threads"@
    } else if i == 3 {
        "--enable-mutable-globals"@
    } else if i == 4 {
        "--enable-nontrapping-float-to-int"@
    } else if i == 5 {
        "--enable-simd"@
    } else if i == 6 {
        "--enable-bulk-memory"@
    } else if i == 7 {
        "--enable-bulk-memory-opt"@
    } else if i == 8 {
        "--enable-call-indirect-overlong"@
    } else if i == 9 {
        "--enable-exception-handling"@
    } else if i == 10 {
        "--enable-tail-call"@
    } else if i == 11 {
        "--enable-reference-types"@
    } else if i == 12 {
        "--enable-multivalue"@
    } else if i == 13 {
        "--enable-gc"@
    } else if i == 14 {
        "--enable-memory64"@
    } else if i == 15 {
        "--enable-relaxed-simd"@
    } else if i == 16 {
        "--enable-extended-const"@
    } else if i == 17 {
        "--enable-strings"@
    } else if i == 18 {
        "--enable-multimemory"@
    } else if i == 19 {
        "--enable-typed-continuations"@
    } else if i == 20 {
        "--enable-shared-everything"@
    } else if i == 21 {
        "--enable-fp16"@
    } else {
        Seq::empty()
    }
}

/// The settings of the options that reach the command line, in command-line
/// order.
pub open spec fn option_settings(o: MergeOptions) -> Seq<Setting> {
    seq![
        o.rename_export_conflicts,
        o.sign_ext,
        o.threads,
        o.mutable_globals,
        o.nontrapping_float_to_int,
        o.simd,
        o.bulk_memory,
        o.bulk_memory_opt,
        o.call_indirect_overlong,
        o.exception_handling,
        o.tail_call,
        o.reference_types,
        o.multivalue,
        o.gc,
        o.memory64,
        o.relaxed_simd,
        o.extended_const,
        o.strings,
        o.multimemory,
        o.typed_continuations,
        o.shared_everything,
        o.fp16,
    ]
}

/// The setting of the option at position `i` of the command line.
pub open spec fn option_setting(o: MergeOptions, i: int) -> Setting {
    option_settings(o)[i]
}

/// The number of options that reach the command line.
pub open spec fn option_count() -> nat {
    22
}

/// The flag of the option at position `i` of the command line.
fn option_flag_exec(i: usize) -> (res: &'static str)
    requires
        i < 22,
    ensures
        res@ == option_flag(i as int),
{
    match i {
        0 => "--rename-export-conflicts",
        1 => "--enable-sign-ext",
        2 => "--enable-threads",
        3 => "--enable-mutable-globals",
        4 => "--enable-nontrapping-float-to-int",
        5 => "--enable-simd",
        6 => "--enable-bulk-memory",
        7 => "--enable-bulk-memory-opt",
        8 => "--enable-call-indirect-overlong",
        9 => "--enable-exception-handling",
        10 => "--enable-tail-call",
        11 => "--enable-reference-types",
        12 => "--enable-multivalue",
        13 => "--enable-gc",
        14 => "--enable-memory64",
        15 => "--enable-relaxed-simd",
        16 => "--enable-extended-const",
        17 => "--enable-strings",
        18 => "--enable-multimemory",
        19 => "--enable-typed-continuations",
        20 => "--enable-shared-everything",
        _ => "--enable-fp16",
    }
}

impl MergeOptions {
    /// The settings of the options that reach the command line, in
    /// command-line order.
    fn option_settings_exec(&self) -> (res: Vec<Setting>)
        ensures
            res@ == option_settings(*self),
    {
        let v = vec![
            self.rename_export_conflicts,
            self.sign_ext,
            self.threads,
            self.mutable_globals,
            self.nontrapping_float_to_int,
            self.simd,
            self.bulk_memory,
            self.bulk_memory_opt,
            self.call_indirect_overlong,
            self.exception_handling,
            self.tail_call,
            self.reference_types,
            self.multivalue,
            self.gc,
            self.memory64,
            self.relaxed_simd,
            self.extended_const,
            self.strings,
            self.multimemory,
            self.typed_continuations,
            self.shared_everything,
            self.fp16,
        ];
        proof {
            assert(v@ =~= option_settings(*self));
        }
        v
    }
}

/// Whether every option is left disabled.
pub open spec fn all_disabled(o: MergeOptions) -> bool {
    &&& o.no_validation == Setting::Disable
    &&& o.rename_export_conflicts == Setting::Disable
    &&& o.bulk_memory == Setting::Disable
    &&& o.bulk_memory_opt == Setting::Disable
    &&& o.call_indirect_overlong == Setting::Disable
    &&& o.extended_const == Setting::Disable
    &&& o.exception_handling == Setting::Disable
    &&& o.fp16 == Setting::Disable
    &&& o.gc == Setting::Disable
    &&& o.memory64 == Setting::Disable
    &&& o.multimemory == Setting::Disable
    &&& o.multivalue == Setting::Disable
    &&& o.mutable_globals == Setting::Disable
    &&& o.nontrapping_float_to_int == Setting::Disable
    &&& o.reference_types == Setting::Disable
    &&& o.relaxed_simd == Setting::Disable
    &&& o.shared_everything == Setting::Disable
    &&& o.sign_ext == Setting::Disable
    &&& o.simd == Setting::Disable
    &&& o.strings == Setting::Disable
    &&& o.tail_call == Setting::Disable
    &&& o.threads == Setting::Disable
    &&& o.typed_continuations == Setting::Disable
}

/// One option as it stands on the command line: its text between two spaces.
pub open spec fn bash_argument(setting: Setting, flag: Seq<char>) -> Seq<char> {
    seq![' '] + spec_as_option(setting, flag) + seq![' ']
}

/// The options part of the command line: the first `n` options, each as a
/// `bash_argument`, in order.
pub open spec fn bash_arguments_upto(o: MergeOptions, n: nat) -> Seq<char>
    decreases n,
{
    if n == 0 {
        Seq::empty()
    } else {
        bash_arguments_upto(o, (n - 1) as nat) + bash_argument(
            option_setting(o, n - 1),
            option_flag(n - 1),
        )
    }
}

/// The options part of the command line.
pub open spec fn spec_bash_arguments(o: MergeOptions) -> Seq<char> {
    bash_arguments_upto(o, option_count())
}

/// Appends one option to the command line.
fn push_argument(s: &mut String, setting: Setting, flag: &str)
    ensures
        final(s)@ == old(s)@ + bash_argument(setting, flag@),
{
    proof {
        reveal_strlit(" ");
    }
    s.append(" ");
    s.append(setting.as_option(flag));
    s.append(" ");
    proof {
        assert(s@ =~= old(s)@ + bash_argument(setting, flag@));
    }
}

impl MergeOptions {
    /// The options part of the `wasm-merge` command line.
    pub fn as_bash_arguments(&self) -> (res: String)
        ensures
            res@ == spec_bash_arguments(*self),
    {
        let mut s = String::new();
        let settings = self.option_settings_exec();
        let mut i: usize = 0;
        while i < 22
            invariant
                i <= 22,
                settings@ == option_settings(*self),
                s@ == bash_arguments_upto(*self, i as nat),
            decreases 22 - i,
        {
            push_argument(&mut s, settings[i], option_flag_exec(i));
            i = i + 1;
        }
        s
    }
}

impl Default for MergeOptions {
    fn default() -> (res: Self)
        ensures
            res.primary is None,
            res.input_modules@.len() == 0,
            all_disabled(res),
    {
        MergeOptions {
            primary: None,
            input_modules: Vec::new(),
            no_validation: Setting::Disable,
            rename_export_conflicts: Setting::Disable,
            bulk_memory: Setting::Disable,
            bulk_memory_opt: Setting::Disable,
            call_indirect_overlong: Setting::Disable,
            extended_const: Setting::Disable,
            exception_handling: Setting::Disable,
            fp16: Setting::Disable,
            gc: Setting::Disable,
            memory64: Setting::Disable,
            multimemory: Setting::Disable,
            multivalue: Setting::Disable,
            mutable_globals: Setting::Disable,
            nontrapping_float_to_int: Setting::Disable,
            reference_types: Setting::Disable,
            relaxed_simd: Setting::Disable,
            shared_everything: Setting::Disable,
            sign_ext: Setting::Disable,
            simd: Setting::Disable,
            strings: Setting::Disable,
            tail_call: Setting::Disable,
            threads: Setting::Disable,
            typed_continuations: Setting::Disable,
        }
    }
}

/// Why merging failed.
#[derive(Debug)]
pub enum MergeError {
    TempInputFileCreationFailed(String),
    TempInputFileWriteFailed(String),
    TempOutputFileCreationFailed(String),
    MergeExecutionFailed(String),
    /// `wasm-merge` reported on its error stream; the report.
    MergeExecutionFailedReason(String),
    /// `wasm-merge` exited with a failure status and reported nothing; the
    /// exit code, if the process had one.
    MergeExecutionFailedStatus(Option<i32>),
    ReadFromOutputFileFailed(String),
}

/// The modules handed to `wasm-merge`, in order: the primary module first,
/// when there is one, then the other modules.
pub open spec fn merge_inputs(o: MergeOptions) -> Seq<InputModule> {
    match o.primary {
        Some(p) => seq![p] + o.input_modules@,
        None => o.input_modules@,
    }
}

/// A module's part of the command line: the path of the file that holds it
/// and its namespace.
pub open spec fn name_combination(path: Seq<char>, namespace: Seq<char>) -> Seq<char> {
    path + seq![' '] + namespace
}

/// The modules' part of the command line: the `name_combination` of each
/// module, in order, separated by spaces.
pub open spec fn name_combinations(paths: Seq<Seq<char>>, modules: Seq<InputModule>) -> Seq<char>
    decreases paths.len(),
{
    if paths.len() == 0 {
        Seq::empty()
    } else if paths.len() == 1 {
        name_combination(paths[0], modules[0].namespace@)
    } else {
        name_combinations(paths.drop_last(), modules.take(paths.len() - 1)) + seq![' ']
            + name_combination(paths.last(), modules[paths.len() - 1].namespace@)
    }
}

/// The `wasm-merge` command line that merges the modules, held in the files at
/// `paths` (one per module, in `merge_inputs` order), into the file at `out`.
pub open spec fn spec_merge_command(o: MergeOptions, paths: Seq<Seq<char>>, out: Seq<char>) -> Seq<
    char,
> {
    "wasm-merge"@ + seq![' '] + spec_bash_arguments(o) + seq![' '] + name_combinations(
        paths,
        merge_inputs(o),
    ) + " -o "@ + out
}

impl MergeOptions {
    /// The modules handed to `wasm-merge`, in order.
    pub fn inputs(&self) -> (res: Vec<&InputModule>)
        ensures
            res@.len() == merge_inputs(*self).len(),
            forall|i: int| 0 <= i < res@.len() ==> *res@[i] == merge_inputs(*self)[i],
    {
        let mut res: Vec<&InputModule> = Vec::new();
        let ghost offset: int = 0;
        match &self.primary {
            Some(p) => {
                res.push(p);
                proof {
                    offset = 1;
                }
            },
            None => {},
        }
        let mut i: usize = 0;
        while i < self.input_modules.len()
            invariant
                0 <= i <= self.input_modules.len(),
                offset == (if self.primary is Some { 1int } else { 0int }),
                res@.len() == offset + i,
                forall|k: int| 0 <= k < res@.len() ==> *res@[k] == merge_inputs(*self)[k],
            decreases self.input_modules.len() - i,
        {
            res.push(&self.input_modules[i]);
            i = i + 1;
        }
        res
    }

    /// The `wasm-merge` command line that merges the modules, held in the
    /// files at `input_paths` (one per module, in `inputs` order), into the
    /// file at `output_path`.
    pub fn merge_command(&self, input_paths: &Vec<String>, output_path: &str) -> (res: String)
        requires
            input_paths@.len() == merge_inputs(*self).len(),
        ensures
            res@ == spec_merge_command(
                *self,
                input_paths@.map_values(|p: String| p@),
                output_path@,
            ),
    {
        let ghost paths = input_paths@.map_values(|p: String| p@);
        let modules = self.inputs();
        let ghost inputs = merge_inputs(*self);
        let mut names = String::new();
        let mut i: usize = 0;
        while i < input_paths.len()
            invariant
                0 <= i <= input_paths@.len(),
                input_paths@.len() == inputs.len(),
                modules@.len() == inputs.len(),
                forall|k: int| 0 <= k < modules@.len() ==> *modules@[k] == inputs[k],
                paths == input_paths@.map_values(|p: String| p@),
                names@ == name_combinations(paths.take(i as int), inputs.take(i as int)),
            decreases input_paths.len() - i,
        {
            proof {
                reveal_strlit(" ");
            }
            if i > 0 {
                names.append(" ");
            }
            names.append(input_paths[i].as_str());
            names.append(" ");
            names.append(modules[i].namespace.as_str());
            proof {
                let p1 = paths.take(i + 1);
                let m1 = inputs.take(i + 1);
                assert(p1.drop_last() =~= paths.take(i as int));
                assert(m1.take(i as int) =~= inputs.take(i as int));
                assert(p1.last() == input_paths@[i as int]@);
                assert(m1[i as int] == inputs[i as int]);
                if i == 0 {
                    assert(names@ =~= name_combinations(p1, m1));
                } else {
                    assert(names@ =~= name_combinations(p1, m1));
                }
            }
            i = i + 1;
        }
        proof {
            reveal_strlit(" ");
            reveal_strlit(" -o ");
            assert(paths.take(i as int) =~= paths);
            assert(inputs.take(i as int) =~= inputs);
        }
        let mut command = String::from_str("wasm-merge");
        command.append(" ");
        command.append(self.as_bash_arguments().as_str());
        command.append(" ");
        command.append(names.as_str());
        command.append(" -o ");
        command.append(output_path);
        proof {
            assert(command@ =~= spec_merge_command(*self, paths, output_path@));
        }
        command
    }
}

/// What a run of `wasm-merge` means, from its exit code (`None` when the
/// process ended without one) and its error stream: merging failed when the
/// error stream holds anything, with that text as the reason; else when the run
/// did not exit with code 0, with the exit code; else it succeeded.
pub fn merge_verdict(exit_code: Option<i32>, stderr: String) -> (res: Result<(), MergeError>)
    ensures
        stderr@.len() > 0 ==> res == Err::<(), MergeError>(
            MergeError::MergeExecutionFailedReason(stderr),
        ),
        stderr@.len() == 0 && exit_code != Some(0i32) ==> res == Err::<(), MergeError>(
            MergeError::MergeExecutionFailedStatus(exit_code),
        ),
        stderr@.len() == 0 && exit_code == Some(0i32) ==> res is Ok,
{
    if !stderr.as_str().is_empty() {
        Err(MergeError::MergeExecutionFailedReason(stderr))
    } else {
        match exit_code {
            Some(0) => Ok(()),
            _ => Err(MergeError::MergeExecutionFailedStatus(exit_code)),
        }
    }
}

/// Whether the command line of `o` has, at one of its option positions, the
/// flag `flag` governed by `setting`: the argument at that position (see
/// `bash_arguments_upto`) is the flag when `setting` is enabled, and nothing
/// otherwise.
pub open spec fn carries(o: MergeOptions, flag: Seq<char>, setting: Setting) -> bool {
    exists|k: int|
        0 <= k < option_count() && #[trigger] option_flag(k) == flag && option_setting(o, k)
            == setting
}

/// Each flag of the command line is passed exactly when its own option is
/// enabled: `--enable-sign-ext` follows `sign_ext`, `--enable-threads`
/// follows `threads`, and so on for every option that reaches the command
/// line (all but `no_validation`).
#[verifier::rlimit(60)]
pub proof fn law_each_flag_follows_its_option(o: MergeOptions)
    ensures
        carries(o, "--rename-export-conflicts"@, o.rename_export_conflicts),
        carries(o, "--enable-sign-ext"@, o.sign_ext),
        carries(o, "--enable-threads"@, o.threads),
        carries(o, "--enable-mutable-globals"@, o.mutable_globals),
        carries(o, "--enable-nontrapping-float-to-int"@, o.nontrapping_float_to_int),
        carries(o, "--enable-simd"@, o.simd),
        carries(o, "--enable-bulk-memory"@, o.bulk_memory),
        carries(o, "--enable-bulk-memory-opt"@, o.bulk_memory_opt),
        carries(o, "--enable-call-indirect-overlong"@, o.call_indirect_overlong),
        carries(o, "--enable-exception-handling"@, o.exception_handling),
        carries(o, "--enable-tail-call"@, o.tail_call),
        carries(o, "--enable-reference-types"@, o.reference_types),
        carries(o, "--enable-multivalue"@, o.multivalue),
        carries(o, "--enable-gc"@, o.gc),
        carries(o, "--enable-memory64"@, o.memory64),
        carries(o, "--enable-relaxed-simd"@, o.relaxed_simd),
        carries(o, "--enable-extended-const"@, o.extended_const),
        carries(o, "--enable-strings"@, o.strings),
        carries(o, "--enable-multimemory"@, o.multimemory),
        carries(o, "--enable-typed-continuations"@, o.typed_continuations),
        carries(o, "--enable-shared-everything"@, o.shared_everything),
        carries(o, "--enable-fp16"@, o.fp16),
{
    assert(carries(o, "--rename-export-conflicts"@, o.rename_export_conflicts)) by {
        assert(option_flag(0) == "--rename-export-conflicts"@);
    }
    assert(carries(o, "--enable-sign-ext"@, o.sign_ext)) by {
        assert(option_flag(1) == "--enable-sign-ext"@);
    }
    assert(carries(o, "--enable-threads"@, o.threads)) by {
        assert(option_flag(2) == "--enable-threads"@);
    }
    assert(carries(o, "--enable-mutable-globals"@, o.mutable_globals)) by {
        assert(option_flag(3) == "--enable-mutable-globals"@);
    }
    assert(carries(o, "--enable-nontrapping-float-to-int"@, o.nontrapping_float_to_int)) by {
        assert(option_flag(4) == "--enable-nontrapping-float-to-int"@);
    }
    assert(carries(o, "--enable-simd"@, o.simd)) by {
        assert(option_flag(5) == "--enable-simd"@);
    }
    assert(carries(o, "--enable-bulk-memory"@, o.bulk_memory)) by {
        assert(option_flag(6) == "--enable-bulk-memory"@);
    }
    assert(carries(o, "--enable-bulk-memory-opt"@, o.bulk_memory_opt)) by {
        assert(option_flag(7) == "--enable-bulk-memory-opt"@);
    }
    assert(carries(o, "--enable-call-indirect-overlong"@, o.call_indirect_overlong)) by {
        assert(option_flag(8) == "--enable-call-indirect-overlong"@);
    }
    assert(carries(o, "--enable-exception-handling"@, o.exception_handling)) by {
        assert(option_flag(9) == "--enable-exception-handling"@);
    }
    assert(carries(o, "--enable-tail-call"@, o.tail_call)) by {
        assert(option_flag(10) == "--enable-tail-call"@);
    }
    assert(carries(o, "--enable-reference-types"@, o.reference_types)) by {
        assert(option_flag(11) == "--enable-reference-types"@);
    }
    assert(carries(o, "--enable-multivalue"@, o.multivalue)) by {
        assert(option_flag(12) == "--enable-multivalue"@);
    }
    assert(carries(o, "--enable-gc"@, o.gc)) by {
        assert(option_flag(13) == "--enable-gc"@);
    }
    assert(carries(o, "--enable-memory64"@, o.memory64)) by {
        assert(option_flag(14) == "--enable-memory64"@);
    }
    assert(carries(o, "--enable-relaxed-simd"@, o.relaxed_simd)) by {
        assert(option_flag(15) == "--enable-relaxed-simd"@);
    }
    assert(carries(o, "--enable-extended-const"@, o.extended_const)) by {
        assert(option_flag(16) == "--enable-extended-const"@);
    }
    assert(carries(o, "--enable-strings"@, o.strings)) by {
        assert(option_flag(17) == "--enable-strings"@);
    }
    assert(carries(o, "--enable-multimemory"@, o.multimemory)) by {
        assert(option_flag(18) == "--enable-multimemory"@);
    }
    assert(carries(o, "--enable-typed-continuations"@, o.typed_continuations)) by {
        assert(option_flag(19) == "--enable-typed-continuations"@);
    }
    assert(carries(o, "--enable-shared-everything"@, o.shared_everything)) by {
        assert(option_flag(20) == "--enable-shared-everything"@);
    }
    assert(carries(o, "--enable-fp16"@, o.fp16)) by {
        assert(option_flag(21) == "--enable-fp16"@);
    }
}

} // verus!
