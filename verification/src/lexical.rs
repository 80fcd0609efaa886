//! Lexical search requests and replies, and their managed-ripgrep argument dialect.
use vstd::prelude::*;

use crate::common::TextRange;
use crate::context::{opt_u64, opt_usize};
use crate::rg_args::{RgArgs, RgArgsModel, RgArgErrorModel, parse_rg_args, rg_args_spec};

pub use crate::rg_args::ManagedRgArgumentError;

verus! {

/// Switches and filters of a lexical search.
#[derive(Debug, PartialEq, Eq)]
pub struct LexicalOptions {
    pub fixed_strings: bool,
    pub ignore_case: bool,
    pub word_regexp: bool,
    pub before_context: usize,
    pub after_context: usize,
    pub hidden: bool,
    pub no_ignore: bool,
    pub follow: bool,
    pub globs: Vec<String>,
    pub file_types: Vec<String>,
    pub excluded_file_types: Vec<String>,
    pub ignore_files: Vec<String>,
    pub max_depth: Option<usize>,
    pub max_file_size_bytes: Option<u64>,
    pub modified_after_epoch_ms: Option<u64>,
    pub modified_before_epoch_ms: Option<u64>,
}

/// The mathematical form of [`LexicalOptions`].
pub struct LexicalOptionsModel {
    pub fixed_strings: bool,
    pub ignore_case: bool,
    pub word_regexp: bool,
    pub before_context: nat,
    pub after_context: nat,
    pub hidden: bool,
    pub no_ignore: bool,
    pub follow: bool,
    pub globs: Seq<Seq<char>>,
    pub file_types: Seq<Seq<char>>,
    pub excluded_file_types: Seq<Seq<char>>,
    pub ignore_files: Seq<Seq<char>>,
    pub max_depth: Option<nat>,
    pub max_file_size_bytes: Option<nat>,
    pub modified_after_epoch_ms: Option<nat>,
    pub modified_before_epoch_ms: Option<nat>,
}

impl View for LexicalOptions {
    type V = LexicalOptionsModel;

    open spec fn view(&self) -> LexicalOptionsModel {
        LexicalOptionsModel {
            fixed_strings: self.fixed_strings,
            ignore_case: self.ignore_case,
            word_regexp: self.word_regexp,
            before_context: self.before_context as nat,
            after_context: self.after_context as nat,
            hidden: self.hidden,
            no_ignore: self.no_ignore,
            follow: self.follow,
            globs: self.globs.deep_view(),
            file_types: self.file_types.deep_view(),
            excluded_file_types: self.excluded_file_types.deep_view(),
            ignore_files: self.ignore_files.deep_view(),
            max_depth: opt_usize(self.max_depth),
            max_file_size_bytes: opt_u64(self.max_file_size_bytes),
            modified_after_epoch_ms: opt_u64(self.modified_after_epoch_ms),
            modified_before_epoch_ms: opt_u64(self.modified_before_epoch_ms),
        }
    }
}

/// A lexical search over one workspace root.
#[derive(Debug, PartialEq, Eq)]
pub struct LexicalSearchRequest {
    /// Workspace root; `None` uses the process working directory.
    pub root: Option<String>,
    pub patterns: Vec<String>,
    pub pattern_files: Vec<String>,
    pub paths: Vec<String>,
    pub limit: Option<usize>,
    pub options: LexicalOptions,
}

/// The mathematical form of [`LexicalSearchRequest`].
pub struct LexicalSearchRequestModel {
    pub root: Option<Seq<char>>,
    pub patterns: Seq<Seq<char>>,
    pub pattern_files: Seq<Seq<char>>,
    pub paths: Seq<Seq<char>>,
    pub limit: Option<nat>,
    pub options: LexicalOptionsModel,
}

impl View for LexicalSearchRequest {
    type V = LexicalSearchRequestModel;

    open spec fn view(&self) -> LexicalSearchRequestModel {
        LexicalSearchRequestModel {
            root: self.root.deep_view(),
            patterns: self.patterns.deep_view(),
            pattern_files: self.pattern_files.deep_view(),
            paths: self.paths.deep_view(),
            limit: opt_usize(self.limit),
            options: self.options@,
        }
    }
}

/// One ripgrep match, ranked within its reply.
#[derive(Debug, PartialEq, Eq)]
pub struct LexicalMatch {
    pub rank: usize,
    pub absolute_path: String,
    pub relative_path: String,
    pub range: TextRange,
    pub excerpt_range: Option<TextRange>,
    pub content: String,
}

/// How a lexical search ran.
#[derive(Debug, PartialEq, Eq)]
pub struct LexicalDiagnostics {
    pub backend: String,
    pub command: String,
    pub args: Vec<String>,
    pub ignored_directories: Vec<String>,
    pub missing_paths: Vec<String>,
    pub searched_paths: Vec<String>,
    pub limit: Option<usize>,
    pub truncated: bool,
}

/// The matches of a lexical search.
#[derive(Debug, PartialEq, Eq)]
pub struct LexicalSearchReply {
    pub root: String,
    pub coverage: LexicalCoverage,
    pub matches: Vec<LexicalMatch>,
    pub diagnostics: LexicalDiagnostics,
}

/// Whether every match was returned.
#[derive(Clone, Copy, Debug, PartialEq, Eq)]
pub enum LexicalCoverage {
    Exhaustive,
    Truncated,
}

/// The lexical request that a parsed argument list stands for, with its patterns and paths chosen.
pub open spec fn lexical_request_for_rg_args(p: RgArgsModel, patterns: Seq<Seq<char>>, paths: Seq<Seq<char>>) -> LexicalSearchRequestModel {
    LexicalSearchRequestModel {
        root: None,
        patterns: patterns,
        pattern_files: p.pattern_files,
        paths: paths,
        limit: None,
        options: LexicalOptionsModel {
            fixed_strings: p.fixed_strings,
            ignore_case: p.ignore_case,
            word_regexp: p.word_regexp,
            before_context: p.before_context,
            after_context: p.after_context,
            hidden: p.hidden,
            no_ignore: p.no_ignore,
            follow: p.follow,
            globs: p.globs,
            file_types: p.file_types,
            excluded_file_types: p.excluded_file_types,
            ignore_files: p.ignore_files,
            max_depth: p.max_depth,
            max_file_size_bytes: p.max_file_size_bytes,
            modified_after_epoch_ms: None,
            modified_before_epoch_ms: None,
        },
    }
}

/// The managed-ripgrep dialect read into a lexical request: with no `-e`/`-f` pattern the
/// first positional becomes the only pattern; the remaining positionals are the paths.
pub open spec fn managed_rg_lexical(args: Seq<Seq<char>>) -> Result<LexicalSearchRequestModel, RgArgErrorModel> {
    match rg_args_spec(args) {
        Err(e) => Err(e),
        Ok(p) => if p.patterns.len() == 0 && p.pattern_files.len() == 0 {
            if p.positionals.len() == 0 {
                Err(RgArgErrorModel::MissingPattern)
            } else {
                Ok(lexical_request_for_rg_args(p, seq![p.positionals[0]], p.positionals.drop_first()))
            }
        } else {
            Ok(lexical_request_for_rg_args(p, p.patterns, p.positionals))
        },
    }
}

fn lexical_from_rg_args(p: RgArgs) -> (r: Result<LexicalSearchRequest, ManagedRgArgumentError>)
    ensures
        match r {
            Ok(req) => {
                &&& p@.patterns.len() != 0 || p@.pattern_files.len() != 0 || p@.positionals.len() != 0
                &&& req@ == (if p@.patterns.len() == 0 && p@.pattern_files.len() == 0 {
                    lexical_request_for_rg_args(p@, seq![p@.positionals[0]], p@.positionals.drop_first())
                } else {
                    lexical_request_for_rg_args(p@, p@.patterns, p@.positionals)
                })
            },
            Err(e) => e@ == RgArgErrorModel::MissingPattern && p@.patterns.len() == 0
                && p@.pattern_files.len() == 0 && p@.positionals.len() == 0,
        },
{
    let ghost pm = p@;
    let RgArgs {
        fixed_strings,
        ignore_case,
        word_regexp,
        hidden,
        no_ignore,
        follow,
        globs,
        file_types,
        excluded_file_types,
        ignore_files,
        max_depth,
        max_file_size_bytes,
        before_context,
        after_context,
        patterns,
        pattern_files,
        positionals,
    } = p;
    let mut positionals = positionals;
    let mut patterns = patterns;
    if patterns.len() == 0 && pattern_files.len() == 0 {
        if positionals.len() == 0 {
            return Err(ManagedRgArgumentError::MissingPattern);
        }
        let first = positionals.remove(0);
        patterns.push(first);
        assert(positionals.deep_view() =~= pm.positionals.drop_first());
        assert(patterns.deep_view() =~= seq![pm.positionals[0]]);
    }
    let options = LexicalOptions {
        fixed_strings,
        ignore_case,
        word_regexp,
        before_context,
        after_context,
        hidden,
        no_ignore,
        follow,
        globs,
        file_types,
        excluded_file_types,
        ignore_files,
        max_depth,
        max_file_size_bytes,
        modified_after_epoch_ms: None,
        modified_before_epoch_ms: None,
    };
    Ok(LexicalSearchRequest { root: None, patterns, pattern_files, paths: positionals, limit: None, options })
}

/// Parses the managed-ripgrep argument dialect into a lexical search request.
///
/// Fails with a missing pattern, an unsupported option, an option without its
/// value, or a numeric option whose value does not parse.
pub fn parse_managed_rg_args(args: &[String]) -> (r: Result<LexicalSearchRequest, ManagedRgArgumentError>)
    ensures
        match r {
            Ok(req) => managed_rg_lexical(args.deep_view()) == Ok::<LexicalSearchRequestModel, RgArgErrorModel>(req@),
            Err(e) => managed_rg_lexical(args.deep_view()) == Err::<LexicalSearchRequestModel, RgArgErrorModel>(e@),
        },
{
    match parse_rg_args(args) {
        Err(e) => Err(e),
        Ok(p) => lexical_from_rg_args(p),
    }
}

} // verus!
