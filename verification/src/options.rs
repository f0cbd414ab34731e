use vstd::prelude::*;

verus! {

/// Whether a `wasm-merge` option or feature flag is passed on its command line.
#[derive(Debug, Clone, Copy, PartialEq, Eq, Structural)]
pub enum Setting {
    Enable,
    Disable,
}

impl Default for Setting {
    fn default() -> (s: Self)
        ensures
            s == Setting::Disable,
    {
        Setting::Disable
    }
}

/// The text that a setting contributes to the command line: its flag when
/// enabled, nothing otherwise.
pub open spec fn spec_as_option(setting: Setting, flag: Seq<char>) -> Seq<char> {
    match setting {
        Setting::Enable => flag,
        Setting::Disable => Seq::empty(),
    }
}

impl Setting {
    /// The command-line text of this setting for the given flag.
    pub fn as_option<'a>(&self, flag: &'a str) -> (res: &'a str)
        ensures
            res@ == spec_as_option(*self, flag@),
    {
        match self {
            Setting::Enable => flag,
            Setting::Disable => {
                proof {
                    reveal_strlit("");
                }
                ""
            },
        }
    }
}

} // verus!
