//! Context requests and replies: the typed form of a `zg query`.
use vstd::prelude::*;

verus! {

/// An optional `usize` taken as a natural number.
pub open spec fn opt_usize(o: Option<usize>) -> Option<nat> {
    match o {
        Some(v) => Some(v as nat),
        None => None,
    }
}

/// An optional `u64` taken as a natural number.
pub open spec fn opt_u64(o: Option<u64>) -> Option<nat> {
    match o {
        Some(v) => Some(v as nat),
        None => None,
    }
}

/// Ripgrep-specific switches of a context request.
#[derive(Debug, PartialEq, Eq)]
pub struct RgOptions {
    pub fixed_strings: bool,
    pub ignore_case: bool,
    pub word_regexp: bool,
    pub before_context: usize,
    pub after_context: usize,
    pub pattern_files: Vec<String>,
    pub extra_args: Vec<String>,
}

/// The mathematical form of [`RgOptions`].
pub struct RgOptionsModel {
    pub fixed_strings: bool,
    pub ignore_case: bool,
    pub word_regexp: bool,
    pub before_context: nat,
    pub after_context: nat,
    pub pattern_files: Seq<Seq<char>>,
    pub extra_args: Seq<Seq<char>>,
}

impl View for RgOptions {
    type V = RgOptionsModel;

    open spec fn view(&self) -> RgOptionsModel {
        RgOptionsModel {
            fixed_strings: self.fixed_strings,
            ignore_case: self.ignore_case,
            word_regexp: self.word_regexp,
            before_context: self.before_context as nat,
            after_context: self.after_context as nat,
            pattern_files: self.pattern_files.deep_view(),
            extra_args: self.extra_args.deep_view(),
        }
    }
}

/// A context request: indexed retrieval, or exhaustive managed ripgrep when `rg` is set.
#[derive(Debug, PartialEq, Eq)]
pub struct ContextOptions {
    /// Workspace root; `None` uses the process working directory.
    pub root: Option<String>,
    pub rg: bool,
    pub query: Option<String>,
    pub queries: Vec<String>,
    pub rg_paths: Vec<String>,
    pub rg_options: RgOptions,
    pub hidden: bool,
    pub no_ignore: bool,
    pub follow: bool,
    pub globs: Vec<String>,
    pub insensitive_globs: Vec<String>,
    pub file_types: Vec<String>,
    pub excluded_file_types: Vec<String>,
    pub ignore_files: Vec<String>,
    pub max_depth: Option<usize>,
    pub max_file_size_bytes: Option<u64>,
    pub limit: Option<usize>,
    pub modified_after_epoch_ms: Option<u64>,
    pub modified_before_epoch_ms: Option<u64>,
}

/// The mathematical form of [`ContextOptions`].
pub struct ContextOptionsModel {
    pub root: Option<Seq<char>>,
    pub rg: bool,
    pub query: Option<Seq<char>>,
    pub queries: Seq<Seq<char>>,
    pub rg_paths: Seq<Seq<char>>,
    pub rg_options: RgOptionsModel,
    pub hidden: bool,
    pub no_ignore: bool,
    pub follow: bool,
    pub globs: Seq<Seq<char>>,
    pub insensitive_globs: Seq<Seq<char>>,
    pub file_types: Seq<Seq<char>>,
    pub excluded_file_types: Seq<Seq<char>>,
    pub ignore_files: Seq<Seq<char>>,
    pub max_depth: Option<nat>,
    pub max_file_size_bytes: Option<nat>,
    pub limit: Option<nat>,
    pub modified_after_epoch_ms: Option<nat>,
    pub modified_before_epoch_ms: Option<nat>,
}

impl View for ContextOptions {
    type V = ContextOptionsModel;

    open spec fn view(&self) -> ContextOptionsModel {
        ContextOptionsModel {
            root: self.root.deep_view(),
            rg: self.rg,
            query: self.query.deep_view(),
            queries: self.queries.deep_view(),
            rg_paths: self.rg_paths.deep_view(),
            rg_options: self.rg_options@,
            hidden: self.hidden,
            no_ignore: self.no_ignore,
            follow: self.follow,
            globs: self.globs.deep_view(),
            insensitive_globs: self.insensitive_globs.deep_view(),
            file_types: self.file_types.deep_view(),
            excluded_file_types: self.excluded_file_types.deep_view(),
            ignore_files: self.ignore_files.deep_view(),
            max_depth: opt_usize(self.max_depth),
            max_file_size_bytes: opt_u64(self.max_file_size_bytes),
            limit: opt_usize(self.limit),
            modified_after_epoch_ms: opt_u64(self.modified_after_epoch_ms),
            modified_before_epoch_ms: opt_u64(self.modified_before_epoch_ms),
        }
    }
}

/// The default (all-empty) ripgrep options.
pub open spec fn rg_options_default() -> RgOptionsModel {
    RgOptionsModel {
        fixed_strings: false,
        ignore_case: false,
        word_regexp: false,
        before_context: 0,
        after_context: 0,
        pattern_files: seq![],
        extra_args: seq![],
    }
}

/// The default context request.
pub open spec fn context_options_default() -> ContextOptionsModel {
    ContextOptionsModel {
        root: None,
        rg: false,
        query: None,
        queries: seq![],
        rg_paths: seq![],
        rg_options: rg_options_default(),
        hidden: false,
        no_ignore: false,
        follow: false,
        globs: seq![],
        insensitive_globs: seq![],
        file_types: seq![],
        excluded_file_types: seq![],
        ignore_files: seq![],
        max_depth: None,
        max_file_size_bytes: None,
        limit: None,
        modified_after_epoch_ms: None,
        modified_before_epoch_ms: None,
    }
}

impl RgOptions {
    /// Ripgrep options with every switch off and no lists.
    pub fn new() -> (r: RgOptions)
        ensures
            r@ == rg_options_default(),
    {
        let r = RgOptions {
            fixed_strings: false,
            ignore_case: false,
            word_regexp: false,
            before_context: 0,
            after_context: 0,
            pattern_files: Vec::new(),
            extra_args: Vec::new(),
        };
        assert(r@.pattern_files =~= seq![]);
        assert(r@.extra_args =~= seq![]);
        r
    }
}

impl ContextOptions {
    /// The default context request.
    pub fn new() -> (r: ContextOptions)
        ensures
            r@ == context_options_default(),
    {
        let r = ContextOptions {
            root: None,
            rg: false,
            query: None,
            queries: Vec::new(),
            rg_paths: Vec::new(),
            rg_options: RgOptions::new(),
            hidden: false,
            no_ignore: false,
            follow: false,
            globs: Vec::new(),
            insensitive_globs: Vec::new(),
            file_types: Vec::new(),
            excluded_file_types: Vec::new(),
            ignore_files: Vec::new(),
            max_depth: None,
            max_file_size_bytes: None,
            limit: None,
            modified_after_epoch_ms: None,
            modified_before_epoch_ms: None,
        };
        assert(r@.queries =~= seq![]);
        assert(r@.rg_paths =~= seq![]);
        assert(r@.globs =~= seq![]);
        assert(r@.insensitive_globs =~= seq![]);
        assert(r@.file_types =~= seq![]);
        assert(r@.excluded_file_types =~= seq![]);
        assert(r@.ignore_files =~= seq![]);
        r
    }
}

} // verus!

verus! {

/// Where a context reply came from.
#[derive(Clone, Copy, Debug, PartialEq, Eq)]
pub enum ContextSource {
    Index,
    Rg,
}

/// How complete a context reply is.
#[derive(Clone, Copy, Debug, PartialEq, Eq)]
pub enum ContextCoverage {
    RankedSample,
    RgExhaustive,
    RgTruncated,
}

/// Kind of a context item.
#[derive(Clone, Copy, Debug, PartialEq, Eq)]
pub enum ContextItemKind {
    IndexedEntity,
    LexicalMatch,
}

/// Whether an item reflects the current file contents.
#[derive(Clone, Copy, Debug, PartialEq, Eq)]
pub enum ContextItemStatus {
    Fresh,
    PossiblyStale,
}

/// Which retrieval route found an item.
#[derive(Clone, Copy, Debug, PartialEq, Eq)]
pub enum MatchedBy {
    Fts,
    Vector,
    FtsAndVector,
    Lexical,
}

/// Why a reply holds no items.
#[derive(Clone, Copy, Debug, PartialEq, Eq)]
pub enum EmptyReason {
    NoMatches,
    NoSearchableFiles,
}

/// The workspace index a reply was served from.
#[derive(Debug, PartialEq, Eq)]
pub struct WorkspaceIndexRef {
    pub id: String,
    pub name: String,
    pub path: String,
    pub generation: Option<u64>,
}

/// One retrieved piece of context. (A ranked index hit also carries a floating-point
/// score; managed ripgrep produces none, and this library does not represent it.)
#[derive(Debug, PartialEq, Eq)]
pub struct ContextItem {
    pub kind: ContextItemKind,
    pub rank: usize,
    pub absolute_path: String,
    pub relative_path: String,
    pub range: crate::common::ContentRange,
    pub excerpt_range: Option<crate::common::ContentRange>,
    pub content: String,
    pub outline: Option<String>,
    pub status: ContextItemStatus,
    pub matched_by: MatchedBy,
    pub metadata: Option<crate::common::EntityMetadata>,
    pub entity_id: Option<String>,
}

/// How managed ripgrep ran.
#[derive(Debug, PartialEq, Eq)]
pub struct RgDiagnostics {
    pub backend: String,
    pub command: String,
    pub args: Vec<String>,
    pub ignored_directories: Vec<String>,
    pub missing_paths: Vec<String>,
    pub searched_paths: Vec<String>,
    pub limit: Option<usize>,
    pub truncated: bool,
}

/// Diagnostics of a context reply.
#[derive(Debug, PartialEq, Eq)]
pub struct ContextDiagnostics {
    pub empty_reason: Option<EmptyReason>,
    pub hits_returned: usize,
    pub rg: Option<RgDiagnostics>,
    pub timings: Vec<crate::common::TimingEntry>,
}

/// A context reply.
#[derive(Debug, PartialEq, Eq)]
pub struct ContextResult {
    pub query: String,
    pub root: String,
    pub source: ContextSource,
    pub coverage: ContextCoverage,
    pub workspace_index: Option<WorkspaceIndexRef>,
    pub items: Vec<ContextItem>,
    pub diagnostics: ContextDiagnostics,
}

} // verus!
