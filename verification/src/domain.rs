//! Typed engine operations: query, index and inspect requests and replies, commands,
//! authorization, run principals and resource budgets.
use vstd::prelude::*;

use crate::common::{DiscoveryOptions, EmbeddingModelSpec, RootSpec, SymbolType, TimingEntry};
use crate::errors::{EngineError, EngineErrorModel, ErrorCode};
use crate::lexical::LexicalSearchRequest;

verus! {

/// The version of the operation envelope.
pub const CURRENT_PROTOCOL_VERSION: u32 = 1;

/// A context query.
#[derive(Debug, PartialEq, Eq)]
pub struct QueryRequest {
    /// Workspace root; `None` uses the process working directory.
    pub root: Option<String>,
    pub queries: Vec<String>,
    pub routes: Vec<QueryRoute>,
    pub fuse: bool,
    pub limit: Option<usize>,
    pub refresh: RefreshMode,
    pub trace: bool,
    pub prefer_symbol: bool,
    pub symbol_types: Vec<SymbolType>,
    pub discovery: DiscoveryOptions,
    pub modified_after_epoch_ms: Option<u64>,
    pub modified_before_epoch_ms: Option<u64>,
    /// Maximum embedding batch tasks; the model default when omitted.
    pub embedding_concurrency: Option<usize>,
}

/// One retrieval route of a query.
#[derive(Debug, PartialEq, Eq)]
pub struct QueryRoute {
    pub mode: QueryRouteMode,
    pub query: String,
}

/// Full-text or vector retrieval.
#[derive(Clone, Copy, Debug, PartialEq, Eq)]
pub enum QueryRouteMode {
    Fts,
    Vector,
}

/// Whether a query refreshes the index first.
#[derive(Clone, Copy, Debug, PartialEq, Eq)]
pub enum RefreshMode {
    Background,
    Wait,
    Off,
}

/// Where a query reply came from.
#[derive(Clone, Copy, Debug, PartialEq, Eq)]
pub enum QuerySource {
    Index,
    Lexical,
}

/// How complete a query reply is.
#[derive(Clone, Copy, Debug, PartialEq, Eq)]
pub enum QueryCoverage {
    RankedSample,
    LexicalExhaustive,
    LexicalTruncated,
}

/// Kind of a query item.
#[derive(Clone, Copy, Debug, PartialEq, Eq)]
pub enum QueryItemKind {
    IndexedEntity,
    LexicalMatch,
}

/// Whether an item reflects the current file contents.
#[derive(Clone, Copy, Debug, PartialEq, Eq)]
pub enum Freshness {
    Fresh,
    PossiblyStale,
}

/// Diagnostics of a query reply.
#[derive(Debug, PartialEq, Eq)]
pub struct QueryDiagnostics {
    pub empty_reason: Option<crate::context::EmptyReason>,
    pub hits_returned: usize,
    pub timings: Vec<TimingEntry>,
}

/// A request to create or refresh a workspace index.
#[derive(Debug, PartialEq, Eq)]
pub struct IndexRequest {
    /// Workspace whose index is updated; `None` uses the working directory.
    pub root: Option<String>,
    pub roots: Vec<RootSpec>,
    pub rebuild: bool,
    pub reset_paths: bool,
    /// Watcher changes for a narrow incremental update; empty means full discovery.
    pub changes: Vec<WorkspaceChange>,
    pub discovery: DiscoveryOptions,
    pub embedding: Option<EmbeddingModelSpec>,
    pub embedding_concurrency: Option<usize>,
    pub wait: bool,
    pub debug: bool,
}

/// Current phase of an index operation.
#[derive(Clone, Copy, Debug, PartialEq, Eq)]
pub enum IndexProgressPhase {
    Scanning,
    Indexing,
    Done,
}

/// Lifecycle stage of the embedding model used by indexing.
#[derive(Clone, Copy, Debug, PartialEq, Eq)]
pub enum IndexEmbeddingStage {
    Preparing,
    Downloading,
    Ready,
    Warning,
}

/// Model runtime and download progress.
#[derive(Debug, PartialEq, Eq)]
pub struct IndexEmbeddingProgress {
    pub concurrency: Option<usize>,
    pub max_concurrency: Option<usize>,
    pub retryable_failures: Option<usize>,
    pub stage: Option<IndexEmbeddingStage>,
    pub model: Option<String>,
    pub downloaded_bytes: Option<u64>,
    pub total_bytes: Option<u64>,
    pub message: Option<String>,
}

/// Progress emitted by an index operation.
#[derive(Debug, PartialEq, Eq)]
pub struct IndexProgress {
    pub phase: IndexProgressPhase,
    pub files_total: Option<usize>,
    pub files_indexed: Option<usize>,
    pub files_failed: Option<usize>,
    pub detail: Option<String>,
    pub embedding: Option<IndexEmbeddingProgress>,
}

/// A filesystem change relative to its root; deletions and directory scopes are kept
/// apart so that an incremental update can tell them from upserts and rescans.
#[derive(Debug, PartialEq, Eq)]
pub enum WorkspaceChange {
    Upsert(String),
    Delete(String),
    RescanDirectory(String),
    DeletePrefix(String),
    Rescan,
}

/// The mathematical form of [`WorkspaceChange`].
pub enum WorkspaceChangeModel {
    Upsert(Seq<char>),
    Delete(Seq<char>),
    RescanDirectory(Seq<char>),
    DeletePrefix(Seq<char>),
    Rescan,
}

impl View for WorkspaceChange {
    type V = WorkspaceChangeModel;

    open spec fn view(&self) -> WorkspaceChangeModel {
        match self {
            WorkspaceChange::Upsert(p) => WorkspaceChangeModel::Upsert(p@),
            WorkspaceChange::Delete(p) => WorkspaceChangeModel::Delete(p@),
            WorkspaceChange::RescanDirectory(p) => WorkspaceChangeModel::RescanDirectory(p@),
            WorkspaceChange::DeletePrefix(p) => WorkspaceChangeModel::DeletePrefix(p@),
            WorkspaceChange::Rescan => WorkspaceChangeModel::Rescan,
        }
    }
}

/// What an index operation did.
#[derive(Debug, PartialEq, Eq)]
pub struct IndexReply {
    pub generation: u64,
    pub files_scanned: usize,
    pub files_added: usize,
    pub files_modified: usize,
    pub files_pending: usize,
    pub files_deleted: usize,
    pub files_unchanged: usize,
    pub files_failed: usize,
    pub entities_created: usize,
    pub duration_micros: u64,
    pub timings: Vec<TimingEntry>,
    pub skipped: Vec<SkippedFile>,
}

/// A file left out of an index, and why.
#[derive(Debug, PartialEq, Eq)]
pub struct SkippedFile {
    pub path: String,
    pub reason: SkippedFileReason,
    pub size_bytes: Option<u64>,
    pub limit_bytes: Option<u64>,
}

/// Why a file was left out.
#[derive(Clone, Copy, Debug, PartialEq, Eq)]
pub enum SkippedFileReason {
    Empty,
    TooLarge,
    Unsupported,
    Binary,
}

/// Dropping or disabling an index.
#[derive(Clone, Copy, Debug, PartialEq, Eq)]
pub enum ChangeIndexAction {
    Drop,
    Disable,
}

/// A request to drop or disable an index.
#[derive(Debug, PartialEq, Eq)]
pub struct ChangeIndexRequest {
    pub root: Option<String>,
    pub action: ChangeIndexAction,
    pub force: bool,
}

/// The outcome of dropping or disabling an index.
#[derive(Debug, PartialEq, Eq)]
pub struct ChangeIndexReply {
    pub changed: bool,
    pub index_path: String,
    pub policy: IndexPolicy,
}

/// Whether a workspace is to be indexed.
#[derive(Clone, Copy, Debug, PartialEq, Eq)]
pub enum IndexPolicy {
    Enabled,
    Disabled,
    Undecided,
}

/// A request for workspace index information.
#[derive(Debug, PartialEq, Eq)]
pub struct InspectRequest {
    pub include_status: bool,
}

/// Workspace index information.
#[derive(Debug, PartialEq, Eq)]
pub struct InspectReply {
    pub root: String,
    pub indexed: bool,
    pub index_policy: IndexPolicy,
    pub home: String,
    pub index_path: String,
    pub source: InspectSource,
    pub workspace_index: Option<WorkspaceIndexInfo>,
    pub status: Option<WorkspaceIndexStatus>,
    pub suggestion: Option<String>,
}

/// Whether the information came from an index.
#[derive(Clone, Copy, Debug, PartialEq, Eq)]
pub enum InspectSource {
    Index,
    Unindexed,
}

/// Stored metadata of a workspace index.
#[derive(Debug, PartialEq, Eq)]
pub struct WorkspaceIndexInfo {
    pub id: String,
    pub name: String,
    pub path: String,
    pub roots: Vec<RootSpec>,
    pub policy: IndexPolicy,
    pub embedding: Option<EmbeddingModelSpec>,
    pub index_version: Option<u32>,
    pub generation: Option<u64>,
    pub created_epoch_ms: u64,
    pub updated_epoch_ms: u64,
}

/// Counters of a workspace index.
#[derive(Debug, PartialEq, Eq)]
pub struct WorkspaceIndexStatus {
    pub files_scanned: usize,
    pub files_stored: usize,
    pub files_indexed: usize,
    pub entities_indexed: usize,
    pub fragments_truncated: usize,
    pub files_pending: usize,
    pub files_failed: usize,
    pub files_added: usize,
    pub files_modified: usize,
    pub files_deleted: usize,
    pub files_unchanged: usize,
}

/// A request to the engine's job service. What it asks is the job service's concern;
/// this library routes it by its kind alone.
#[derive(Debug, PartialEq, Eq)]
pub struct JobRequest {}

/// An engine command.
#[derive(Debug, PartialEq, Eq)]
pub enum Command {
    Query(QueryRequest),
    LexicalSearch(LexicalSearchRequest),
    Index(IndexRequest),
    Inspect(InspectRequest),
    ChangeIndex(ChangeIndexRequest),
    Job(JobRequest),
}

/// The capability a command needs.
pub open spec fn capability_spec(c: &Command) -> Seq<char> {
    match c {
        Command::Query(_) => "query"@,
        Command::LexicalSearch(_) => "lexical_search"@,
        Command::Index(_) => "index"@,
        Command::Inspect(_) => "inspect"@,
        Command::ChangeIndex(_) => "change_index"@,
        Command::Job(_) => "job"@,
    }
}

impl Command {
    /// The capability this command needs.
    pub fn capability(&self) -> (r: &'static str)
        ensures
            r@ == capability_spec(self),
    {
        match self {
            Command::Query(_) => "query",
            Command::LexicalSearch(_) => "lexical_search",
            Command::Index(_) => "index",
            Command::Inspect(_) => "inspect",
            Command::ChangeIndex(_) => "change_index",
            Command::Job(_) => "job",
        }
    }
}

/// A request to confirm an operation.
#[derive(Debug, PartialEq, Eq)]
pub struct AuthorizationChallenge {
    pub operation_digest: String,
    pub reason: String,
    pub choices: Vec<AuthorizationChoice>,
}

/// The answers a challenge offers.
#[derive(Clone, Copy, Debug, PartialEq, Eq)]
pub enum AuthorizationChoice {
    AllowOnce,
    AllowWorkspace,
    UseFtsOnly,
    Cancel,
}

/// A confirmation of an operation.
#[derive(Debug, PartialEq, Eq)]
pub struct AuthorizationProof {
    pub operation_digest: String,
    pub token: String,
}

/// Who runs an operation.
#[derive(Debug, PartialEq, Eq)]
pub struct Principal {
    pub subject: String,
}

impl Principal {
    /// The local user.
    pub fn local() -> (p: Principal)
        ensures
            p.subject@ == "local-user"@,
    {
        Principal { subject: "local-user".to_owned() }
    }
}

/// Tracing context of an operation.
#[derive(Debug, PartialEq, Eq)]
pub struct TraceContext {
    pub trace_id: Option<String>,
}

/// What an operation event reports.
#[derive(Debug, PartialEq, Eq)]
pub enum CoreEventKind {
    Started,
    Progress { completed: u64, total: Option<u64> },
    Warning { code: String, message: String },
    Completed { result_count: usize },
    Failed { code: ErrorCode },
}

/// An event sink could not accept an event.
#[derive(Clone, Copy, Debug, PartialEq, Eq)]
pub struct EmitError;

/// An event sink that drops every event.
#[derive(Debug, PartialEq, Eq)]
pub struct NoopEventSink;

/// Coarse process-level limits.
#[derive(Debug, PartialEq, Eq)]
pub struct ResourceBudget {
    pub max_concurrent_operations: usize,
    pub max_cpu_tasks: usize,
    pub max_blocking_tasks: usize,
    pub max_background_jobs: usize,
    pub max_lexical_processes: usize,
}

/// The message of a zero budget field.
pub open spec fn zero_budget_message(name: Seq<char>) -> Seq<char> {
    "resource budget "@ + name + " must be greater than zero"@
}

/// The first of the checked budget fields that is zero, if any (background jobs may be 0).
pub open spec fn first_zero_budget(b: ResourceBudget) -> Option<Seq<char>> {
    if b.max_concurrent_operations == 0 {
        Some("max_concurrent_operations"@)
    } else if b.max_cpu_tasks == 0 {
        Some("max_cpu_tasks"@)
    } else if b.max_blocking_tasks == 0 {
        Some("max_blocking_tasks"@)
    } else if b.max_lexical_processes == 0 {
        Some("max_lexical_processes"@)
    } else {
        None
    }
}

fn zero_budget_error(name: &str) -> (e: EngineError)
    ensures
        e@ == (EngineErrorModel::InvalidInput { message: zero_budget_message(name@) }),
{
    let mut msg: Vec<char> = Vec::new();
    crate::text::append_str(&mut msg, "resource budget ");
    crate::text::append_str(&mut msg, name);
    crate::text::append_str(&mut msg, " must be greater than zero");
    EngineError::InvalidInput { message: crate::text::string_of(&msg) }
}

impl ResourceBudget {
    /// The default budget for a machine with `processors` parallel threads.
    pub fn with_processors(processors: usize) -> (b: ResourceBudget)
        ensures
            b.max_concurrent_operations == (if processors < 2 { 2 } else { processors }),
            b.max_cpu_tasks == processors,
            b.max_blocking_tasks == (if processors as int * 2 > usize::MAX { usize::MAX as int } else if processors * 2 < 2 { 2 } else { processors * 2 }),
            b.max_background_jobs == 1,
            b.max_lexical_processes == 2,
    {
        let doubled: usize = if processors > usize::MAX / 2 { usize::MAX } else { processors * 2 };
        ResourceBudget {
            max_concurrent_operations: if processors < 2 { 2 } else { processors },
            max_cpu_tasks: processors,
            max_blocking_tasks: if doubled < 2 { 2 } else { doubled },
            max_background_jobs: 1,
            max_lexical_processes: 2,
        }
    }

    /// Refuses a budget with a zero operation, CPU, blocking or lexical-process limit,
    /// naming the first such field.
    pub fn validate(&self) -> (r: Result<(), EngineError>)
        ensures
            match first_zero_budget(*self) {
                None => r is Ok,
                Some(name) => r matches Err(e) && e@ == (EngineErrorModel::InvalidInput { message: zero_budget_message(name) }),
            },
    {
        if self.max_concurrent_operations == 0 {
            return Err(zero_budget_error("max_concurrent_operations"));
        }
        if self.max_cpu_tasks == 0 {
            return Err(zero_budget_error("max_cpu_tasks"));
        }
        if self.max_blocking_tasks == 0 {
            return Err(zero_budget_error("max_blocking_tasks"));
        }
        if self.max_lexical_processes == 0 {
            return Err(zero_budget_error("max_lexical_processes"));
        }
        Ok(())
    }
}

/// Which optional engine ports are installed.
#[derive(Clone, Copy, Debug, PartialEq, Eq)]
pub struct InstalledPorts {
    pub lexical: bool,
    pub scanner: bool,
    pub extraction: bool,
    pub storage: bool,
    pub embedding: bool,
    pub clock: bool,
}

/// `name` when `present`, else nothing.
pub open spec fn capability_if(present: bool, name: Seq<char>) -> Seq<Seq<char>> {
    if present { seq![name] } else { seq![] }
}

/// The capabilities of installed ports, in a fixed order.
pub open spec fn capabilities_spec(p: InstalledPorts) -> Seq<Seq<char>> {
    capability_if(p.lexical, "lexical_search"@) + capability_if(p.scanner, "scanner"@) + capability_if(p.extraction, "extraction"@)
        + capability_if(p.storage, "storage"@) + capability_if(p.embedding, "embedding"@) + capability_if(p.clock, "clock"@)
}

fn push_capability(out: &mut Vec<&'static str>, present: bool, name: &'static str)
    ensures
        final(out)@.map_values(|s: &'static str| s@) == old(out)@.map_values(|s: &'static str| s@) + capability_if(present, name@),
{
    let ghost before = out@;
    if present {
        out.push(name);
        assert(out@.map_values(|s: &'static str| s@) =~= before.map_values(|s: &'static str| s@) + seq![name@]);
    } else {
        assert(out@.map_values(|s: &'static str| s@) =~= before.map_values(|s: &'static str| s@) + Seq::<Seq<char>>::empty());
    }
}

impl InstalledPorts {
    /// No port installed.
    pub fn new() -> (p: InstalledPorts)
        ensures
            !p.lexical && !p.scanner && !p.extraction && !p.storage && !p.embedding && !p.clock,
    {
        InstalledPorts { lexical: false, scanner: false, extraction: false, storage: false, embedding: false, clock: false }
    }

    /// The capabilities the installed ports provide.
    pub fn capabilities(&self) -> (c: Vec<&'static str>)
        ensures
            c@.map_values(|s: &'static str| s@) == capabilities_spec(*self),
    {
        let mut out: Vec<&'static str> = Vec::new();
        assert(out@.map_values(|s: &'static str| s@) =~= Seq::<Seq<char>>::empty());
        push_capability(&mut out, self.lexical, "lexical_search");
        push_capability(&mut out, self.scanner, "scanner");
        push_capability(&mut out, self.extraction, "extraction");
        push_capability(&mut out, self.storage, "storage");
        push_capability(&mut out, self.embedding, "embedding");
        push_capability(&mut out, self.clock, "clock");
        out
    }

    /// Lexical search needs its port.
    pub fn lexical(&self) -> (r: Result<(), EngineError>)
        ensures
            self.lexical <==> r is Ok,
            r matches Err(e) ==> e@ == (EngineErrorModel::CapabilityUnavailable { capability: "lexical_search"@ }),
    {
        if self.lexical {
            Ok(())
        } else {
            Err(EngineError::CapabilityUnavailable { capability: "lexical_search".to_owned() })
        }
    }
}

} // verus!
