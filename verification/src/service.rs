//! The engine facade: a context request becomes a lexical search, and a lexical reply
//! becomes a context reply.
use vstd::prelude::*;

use crate::common::{ContentRange, TextRange};
use crate::context::{
    ContextCoverage, ContextDiagnostics, ContextItem, ContextItemKind, ContextItemStatus,
    ContextOptions, ContextOptionsModel, ContextResult, ContextSource, EmptyReason, MatchedBy,
    RgDiagnostics,
};
use crate::domain::IndexRequest;
use crate::errors::{EngineError, EngineErrorModel};
use crate::indexing::{disabled_manifest, disabled_manifest_spec, index_plan_spec, plan_index, IndexPlan, WorkspaceManifest};
use crate::models::EmbeddingModelInfo;
use crate::lexical::{
    LexicalCoverage, LexicalMatch, LexicalOptions, LexicalOptionsModel, LexicalSearchReply,
    LexicalSearchRequest, LexicalSearchRequestModel,
};
use crate::ripgrep::{match_view, matches_view, MatchModel};
use crate::text::push_string;

verus! {

/// The message of a context request that passes raw ripgrep arguments.
pub open spec fn extra_args_message() -> Seq<char> {
    "context rg_options.extra_args is not supported by the embedded backend"@
}

/// The patterns of a context request: its query, then its further queries.
pub open spec fn context_patterns(o: ContextOptionsModel) -> Seq<Seq<char>> {
    match o.query {
        Some(q) => seq![q] + o.queries,
        None => o.queries,
    }
}

/// The lexical search a context request stands for, rooted at the resolved `root`.
/// (Case-insensitive globs have no lexical counterpart and are not carried over.)
pub open spec fn context_lexical_request(o: ContextOptionsModel, root: Seq<char>) -> LexicalSearchRequestModel {
    LexicalSearchRequestModel {
        root: Some(root),
        patterns: context_patterns(o),
        pattern_files: o.rg_options.pattern_files,
        paths: o.rg_paths,
        limit: o.limit,
        options: LexicalOptionsModel {
            fixed_strings: o.rg_options.fixed_strings,
            ignore_case: o.rg_options.ignore_case,
            word_regexp: o.rg_options.word_regexp,
            before_context: o.rg_options.before_context,
            after_context: o.rg_options.after_context,
            hidden: o.hidden,
            no_ignore: o.no_ignore,
            follow: o.follow,
            globs: o.globs,
            file_types: o.file_types,
            excluded_file_types: o.excluded_file_types,
            ignore_files: o.ignore_files,
            max_depth: o.max_depth,
            max_file_size_bytes: o.max_file_size_bytes,
            modified_after_epoch_ms: o.modified_after_epoch_ms,
            modified_before_epoch_ms: o.modified_before_epoch_ms,
        },
    }
}

/// Lines joined with `\n`.
pub open spec fn joined(ls: Seq<Seq<char>>) -> Seq<char>
    decreases ls.len(),
{
    if ls.len() == 0 {
        seq![]
    } else if ls.len() == 1 {
        ls[0]
    } else {
        joined(ls.drop_last()) + seq!['\n'] + ls.last()
    }
}

/// A context request ready to run: the lexical search and the query text of the reply.
#[derive(Debug, PartialEq, Eq)]
pub struct ContextSearch {
    pub request: LexicalSearchRequest,
    pub query: String,
}

/// The reusable engine: it serves requests until it is closed.
#[derive(Debug, PartialEq, Eq)]
pub struct ZvecGrep {
    closed: bool,
}

impl ZvecGrep {
    /// An open engine.
    pub fn new() -> (z: ZvecGrep)
        ensures
            !z.is_closed_spec(),
    {
        ZvecGrep { closed: false }
    }

    /// Whether the engine was closed.
    pub closed spec fn is_closed_spec(&self) -> bool {
        self.closed
    }

    /// Whether the engine was closed.
    pub fn is_closed(&self) -> (r: bool)
        ensures
            r == self.is_closed_spec(),
    {
        self.closed
    }

    /// Closes the engine; every later request is refused.
    pub fn close(&mut self)
        ensures
            final(self).is_closed_spec(),
    {
        self.closed = true;
    }

    /// Refuses a closed engine.
    pub fn ensure_open(&self) -> (r: Result<(), EngineError>)
        ensures
            self.is_closed_spec() <==> r is Err,
            r matches Err(e) ==> e@ == EngineErrorModel::Closed,
    {
        if self.closed { Err(EngineError::Closed) } else { Ok(()) }
    }

    /// Decides an index run (see [`plan_index`](crate::indexing::plan_index)); a closed
    /// engine refuses it before anything else.
    pub fn index(
        &self,
        existing: Option<&WorkspaceManifest>,
        request: &IndexRequest,
        workspace_root: &str,
        model: &EmbeddingModelInfo,
        fresh_id: String,
        now_ms: u64,
    ) -> (r: Result<IndexPlan, EngineError>)
        ensures
            self.is_closed_spec() ==> (r matches Err(e) && e@ == EngineErrorModel::Closed),
            !self.is_closed_spec() ==> index_plan_spec(match existing { Some(m) => Some(*m), None => None }, *request,
                workspace_root@, *model, fresh_id@, now_ms, r),
    {
        if self.closed {
            return Err(EngineError::Closed);
        }
        plan_index(existing, request, workspace_root, model, fresh_id, now_ms)
    }

    /// Decides whether dropping an index resets it: a closed engine refuses; a workspace
    /// without a manifest has nothing to drop (`false`); otherwise the index is reset (`true`).
    pub fn drop_index(&self, manifest_exists: bool) -> (r: Result<bool, EngineError>)
        ensures
            self.is_closed_spec() ==> (r matches Err(e) && e@ == EngineErrorModel::Closed),
            !self.is_closed_spec() ==> r == Ok::<bool, EngineError>(manifest_exists),
    {
        if self.closed {
            return Err(EngineError::Closed);
        }
        Ok(manifest_exists)
    }

    /// The manifest that disables indexing (see
    /// [`disabled_manifest`](crate::indexing::disabled_manifest)); a closed engine refuses.
    pub fn disable_index(&self, existing: Option<&WorkspaceManifest>, workspace_root: &str, fresh_id: String, now_ms: u64)
        -> (r: Result<WorkspaceManifest, EngineError>)
        ensures
            self.is_closed_spec() ==> (r matches Err(e) && e@ == EngineErrorModel::Closed),
            !self.is_closed_spec() ==> (r matches Ok(m) && disabled_manifest_spec(match existing { Some(e) => Some(*e), None => None },
                workspace_root@, fresh_id@, now_ms, m)),
    {
        if self.closed {
            return Err(EngineError::Closed);
        }
        Ok(disabled_manifest(existing, workspace_root, fresh_id, now_ms))
    }

    /// Turns a context request into its lexical search, given the workspace root resolved
    /// to an absolute path. A closed engine refuses; only the ripgrep route (`rg`) is
    /// available; raw ripgrep arguments are refused.
    pub fn plan_context(&self, options: ContextOptions, root: String) -> (r: Result<ContextSearch, EngineError>)
        ensures
            self.is_closed_spec() ==> (r matches Err(e) && e@ == EngineErrorModel::Closed),
            !self.is_closed_spec() && !options@.rg ==> (r matches Err(e)
                && e@ == (EngineErrorModel::CapabilityUnavailable { capability: "context"@ })),
            !self.is_closed_spec() && options@.rg && options@.rg_options.extra_args.len() > 0 ==> (r matches Err(e)
                && e@ == (EngineErrorModel::InvalidInput { message: extra_args_message() })),
            !self.is_closed_spec() && options@.rg && options@.rg_options.extra_args.len() == 0 ==> (r matches Ok(s)
                && s.request@ == context_lexical_request(options@, root@)
                && s.query@ == joined(context_patterns(options@))),
    {
        if self.closed {
            return Err(EngineError::Closed);
        }
        context_search(options, root)
    }
}

/// The lexical search of a context request, given its resolved root.
pub fn context_search(options: ContextOptions, root: String) -> (r: Result<ContextSearch, EngineError>)
    ensures
        !options@.rg ==> (r matches Err(e) && e@ == (EngineErrorModel::CapabilityUnavailable { capability: "context"@ })),
        options@.rg && options@.rg_options.extra_args.len() > 0 ==> (r matches Err(e)
            && e@ == (EngineErrorModel::InvalidInput { message: extra_args_message() })),
        options@.rg && options@.rg_options.extra_args.len() == 0 ==> (r matches Ok(s)
            && s.request@ == context_lexical_request(options@, root@)
            && s.query@ == joined(context_patterns(options@))),
{
    let ghost o = options@;
    if !options.rg {
        return Err(EngineError::CapabilityUnavailable { capability: "context".to_owned() });
    }
    if options.rg_options.extra_args.len() > 0 {
        return Err(EngineError::invalid_input("context rg_options.extra_args is not supported by the embedded backend"));
    }
    let ContextOptions {
        root: _,
        rg: _,
        query,
        queries,
        rg_paths,
        rg_options,
        hidden,
        no_ignore,
        follow,
        globs,
        insensitive_globs: _,
        file_types,
        excluded_file_types,
        ignore_files,
        max_depth,
        max_file_size_bytes,
        limit,
        modified_after_epoch_ms,
        modified_before_epoch_ms,
    } = options;
    let mut patterns: Vec<String> = Vec::new();
    match query {
        Some(q) => {
            push_string(&mut patterns, q);
        },
        None => {},
    }
    let ghost head = patterns.deep_view();
    let mut i: usize = 0;
    while i < queries.len()
        invariant
            0 <= i <= queries@.len(),
            queries.deep_view() == o.queries,
            patterns.deep_view() == head + o.queries.take(i as int),
        decreases queries@.len() - i,
    {
        push_string(&mut patterns, queries[i].clone());
        assert(o.queries.take(i + 1) =~= o.queries.take(i as int).push(o.queries[i as int]));
        assert(patterns.deep_view() =~= head + o.queries.take(i + 1));
        i += 1;
    }
    proof {
        assert(o.queries.take(o.queries.len() as int) =~= o.queries);
        match o.query {
            Some(q) => { assert(patterns.deep_view() =~= seq![q] + o.queries); },
            None => { assert(patterns.deep_view() =~= o.queries); },
        }
    }
    let query_text = join_with_newlines(&patterns);
    let request = LexicalSearchRequest {
        root: Some(root),
        patterns,
        pattern_files: rg_options.pattern_files,
        paths: rg_paths,
        limit,
        options: LexicalOptions {
            fixed_strings: rg_options.fixed_strings,
            ignore_case: rg_options.ignore_case,
            word_regexp: rg_options.word_regexp,
            before_context: rg_options.before_context,
            after_context: rg_options.after_context,
            hidden,
            no_ignore,
            follow,
            globs,
            file_types,
            excluded_file_types,
            ignore_files,
            max_depth,
            max_file_size_bytes,
            modified_after_epoch_ms,
            modified_before_epoch_ms,
        },
    };
    Ok(ContextSearch { request, query: query_text })
}

/// Joins strings with `\n` (`[String]::join("\n")`).
pub fn join_with_newlines(parts: &Vec<String>) -> (s: String)
    ensures
        s@ == joined(parts.deep_view()),
{
    let ghost pv = parts.deep_view();
    let mut out: Vec<char> = Vec::new();
    let mut k: usize = 0;
    while k < parts.len()
        invariant
            pv == parts.deep_view(),
            0 <= k <= pv.len(),
            out@ == joined(pv.take(k as int)),
        decreases pv.len() - k,
    {
        let ghost before = out@;
        if k > 0 {
            out.push('\n');
        }
        crate::text::append_str(&mut out, parts[k].as_str());
        proof {
            let next = pv.take(k + 1);
            assert(next.drop_last() =~= pv.take(k as int));
            if k == 0 {
                assert(out@ =~= next[0]);
            } else {
                assert(out@ =~= before + seq!['\n'] + next.last());
            }
        }
        k += 1;
    }
    assert(pv.take(pv.len() as int) =~= pv);
    crate::text::string_of(&out)
}

/// A lexical text range as a content range.
pub open spec fn lexical_range_spec(r: TextRange) -> ContentRange {
    ContentRange::Text {
        start_line: r.start_line,
        end_line: r.end_line,
        start_offset: r.start_offset,
        end_offset: r.end_offset,
    }
}

/// A lexical text range as a content range.
pub fn lexical_range(r: TextRange) -> (c: ContentRange)
    ensures
        c == lexical_range_spec(r),
{
    r.to_content_range()
}

/// A lexical match as a context item: a fresh lexical match with the same rank, paths and
/// content, its ranges carried over, and no outline, metadata or entity.
pub open spec fn context_item_of(m: MatchModel, item: ContextItem) -> bool {
    &&& item.kind == ContextItemKind::LexicalMatch
    &&& item.rank == m.rank
    &&& item.absolute_path@ == m.absolute_path
    &&& item.relative_path@ == m.relative_path
    &&& item.range == lexical_range_spec(m.range)
    &&& item.excerpt_range == match m.excerpt_range {
        Some(r) => Some(lexical_range_spec(r)),
        None => None,
    }
    &&& item.content@ == m.content
    &&& item.outline is None
    &&& item.status == ContextItemStatus::Fresh
    &&& item.matched_by == MatchedBy::Lexical
    &&& item.metadata is None
    &&& item.entity_id is None
}

fn context_item(m: LexicalMatch) -> (item: ContextItem)
    ensures
        context_item_of(match_view(m), item),
{
    ContextItem {
        kind: ContextItemKind::LexicalMatch,
        rank: m.rank,
        absolute_path: m.absolute_path,
        relative_path: m.relative_path,
        range: lexical_range(m.range),
        excerpt_range: match m.excerpt_range {
            Some(r) => Some(lexical_range(r)),
            None => None,
        },
        content: m.content,
        outline: None,
        status: ContextItemStatus::Fresh,
        matched_by: MatchedBy::Lexical,
        metadata: None,
        entity_id: None,
    }
}

/// The context reply of a lexical reply: ripgrep-sourced, its coverage carried over, one
/// item per match in order, and `NoMatches` as the empty reason when there is none.
pub fn context_from_lexical(query: String, reply: LexicalSearchReply) -> (r: ContextResult)
    ensures
        r.query@ == query@,
        r.root@ == reply.root@,
        r.source == ContextSource::Rg,
        r.coverage == (if reply.coverage == LexicalCoverage::Truncated { ContextCoverage::RgTruncated } else { ContextCoverage::RgExhaustive }),
        r.workspace_index is None,
        r.items@.len() == reply.matches@.len(),
        forall|k: int| 0 <= k < r.items@.len() ==> context_item_of(#[trigger] match_view(reply.matches@[k]), r.items@[k]),
        r.diagnostics.hits_returned == reply.matches@.len(),
        r.diagnostics.empty_reason == (if reply.matches@.len() == 0 { Some(EmptyReason::NoMatches) } else { None }),
        r.diagnostics.timings@.len() == 0,
        r.diagnostics.rg matches Some(d) && {
            &&& d.backend@ == reply.diagnostics.backend@
            &&& d.command@ == reply.diagnostics.command@
            &&& d.args.deep_view() == reply.diagnostics.args.deep_view()
            &&& d.ignored_directories.deep_view() == reply.diagnostics.ignored_directories.deep_view()
            &&& d.missing_paths.deep_view() == reply.diagnostics.missing_paths.deep_view()
            &&& d.searched_paths.deep_view() == reply.diagnostics.searched_paths.deep_view()
            &&& d.limit == reply.diagnostics.limit
            &&& d.truncated == reply.diagnostics.truncated
        },
{
    let LexicalSearchReply { root, coverage, matches, diagnostics } = reply;
    let hits_returned = matches.len();
    let ghost orig = matches@;
    let total = matches.len();
    let mut pending = crate::sort::reversed(matches);
    let mut items: Vec<ContextItem> = Vec::new();
    let mut j: usize = 0;
    while pending.len() > 0
        invariant
            orig.len() == total,
            pending@.len() == total - j,
            forall|i: int| 0 <= i < pending@.len() ==> #[trigger] pending@[i] == orig[total - 1 - i],
            items@.len() == j,
            forall|i: int| 0 <= i < j ==> context_item_of(#[trigger] match_view(orig[i]), items@[i]),
        decreases pending@.len(),
    {
        let m = pending.pop().unwrap();
        assert(m == orig[j as int]);
        let ghost old_items = items@;
        items.push(context_item(m));
        proof {
            assert forall|i: int| 0 <= i < j + 1 implies context_item_of(#[trigger] match_view(orig[i]), items@[i]) by {
                if i < j {
                    assert(items@[i] == old_items[i]);
                }
            }
        }
        j += 1;
    }
    let rg = RgDiagnostics {
        backend: diagnostics.backend,
        command: diagnostics.command,
        args: diagnostics.args,
        ignored_directories: diagnostics.ignored_directories,
        missing_paths: diagnostics.missing_paths,
        searched_paths: diagnostics.searched_paths,
        limit: diagnostics.limit,
        truncated: diagnostics.truncated,
    };
    ContextResult {
        query,
        root,
        source: ContextSource::Rg,
        coverage: match coverage {
            LexicalCoverage::Exhaustive => ContextCoverage::RgExhaustive,
            LexicalCoverage::Truncated => ContextCoverage::RgTruncated,
        },
        workspace_index: None,
        items,
        diagnostics: ContextDiagnostics {
            empty_reason: if hits_returned == 0 { Some(EmptyReason::NoMatches) } else { None },
            hits_returned,
            rg: Some(rg),
            timings: Vec::new(),
        },
    }
}

/// The error of a workspace root that could not be made absolute.
pub fn root_resolution_error(error: &str) -> (e: EngineError)
    ensures
        e@ == (EngineErrorModel::BackendFailure { backend: "workspace"@, message: "failed to resolve root: "@ + error@ }),
{
    let mut msg: Vec<char> = Vec::new();
    crate::text::append_str(&mut msg, "failed to resolve root: ");
    crate::text::append_str(&mut msg, error);
    let m = crate::text::string_of(&msg);
    EngineError::BackendFailure { backend: "workspace".to_owned(), message: m }
}

} // verus!
