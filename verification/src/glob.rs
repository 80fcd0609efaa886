//! Compiled path globs, backed by the `globset` crate.
//!
//! A [`CompiledGlob`] is only ever made by [`CompiledGlob::compile`], so the
//! glob text and case flag it carries are the ones its matcher was built from.
//! The matcher is a one-glob `globset::GlobSet`: building one reports a regex
//! that cannot be compiled as an error, where `Glob::compile_matcher` would panic.
use vstd::prelude::*;

verus! {

/// `globset::GlobSet`, declared so that a compiled matcher can be held in a field.
#[verifier::external_type_specification]
#[verifier::external_body]
pub struct ExGlobSet(globset::GlobSet);

/// The longest glob, in characters, that [`CompiledGlob::compile`] accepts:
/// globset builds its literal prefix and suffix matchers with aho-corasick,
/// which refuses automata of 2^31 states or more, and unwraps that result; a
/// glob of at most 2^28 characters (2^30 bytes) stays well below that.
pub const MAX_GLOB_CHARS: usize = 0x1000_0000;

/// The text of the error that `globset` reports when it builds `glob` under
/// the options this crate always uses (`literal_separator`, no backslash
/// escapes, unclosed classes allowed) and then a `GlobSet` of it, or `None`
/// where both build.
pub uninterp spec fn glob_build_error(glob: Seq<char>, case_insensitive: bool) -> Option<Seq<char>>;

/// Whether the one-glob `GlobSet` that `globset` builds for `glob` under
/// those options matches `path`.
pub uninterp spec fn glob_matches(glob: Seq<char>, case_insensitive: bool, path: Seq<char>) -> bool;

/// A glob compiled by `globset`, together with the text and case flag it was built from.
#[derive(Debug)]
pub struct CompiledGlob {
    matcher: globset::GlobSet,
    glob: String,
    case_insensitive: bool,
}

impl CompiledGlob {
    /// The glob text this matcher was built from.
    pub closed spec fn glob_text(&self) -> Seq<char> {
        self.glob@
    }

    /// Whether this matcher ignores case.
    pub closed spec fn ignores_case(&self) -> bool {
        self.case_insensitive
    }

    /// Builds `glob` with `globset::GlobBuilder` (case as asked, `literal_separator(true)`,
    /// `backslash_escape(false)`, `allow_unclosed_class(true)`), then a
    /// `GlobSet` of it with `GlobSetBuilder`. Claimed: both build exactly when
    /// `glob_build_error` is `None`, and a failure carries the error's display text.
    #[verifier::external_body]
    pub(crate) fn compile(glob: &str, case_insensitive: bool) -> (r: Result<CompiledGlob, String>)
        requires
            glob@.len() <= MAX_GLOB_CHARS,
        ensures
            match r {
                Ok(c) => glob_build_error(glob@, case_insensitive) is None && c.glob_text() == glob@
                    && c.ignores_case() == case_insensitive,
                Err(text) => glob_build_error(glob@, case_insensitive) == Some(text@),
            },
    {
        let mut builder = globset::GlobBuilder::new(glob);
        builder.case_insensitive(case_insensitive).literal_separator(true).backslash_escape(false).allow_unclosed_class(true);
        let mut set = globset::GlobSetBuilder::new();
        match builder.build() {
            Ok(built) => match set.add(built).build() {
                Ok(matcher) => Ok(CompiledGlob { matcher, glob: glob.to_owned(), case_insensitive }),
                Err(error) => Err(error.to_string()),
            },
            Err(error) => Err(error.to_string()),
        }
    }

    /// `globset::GlobSet::is_match`. Claimed: the answer is `glob_matches`
    /// of the glob text and case flag this matcher was built from.
    #[verifier::external_body]
    pub(crate) fn is_match(&self, path: &str) -> (r: bool)
        ensures
            r == glob_matches(self.glob_text(), self.ignores_case(), path@),
    {
        self.matcher.is_match(path)
    }
}

} // verus!
