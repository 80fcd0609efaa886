//! Values exchanged with the host adapters: discovery, reads, watching, storage snapshots,
//! artifacts, embedding inputs and extraction output.
use vstd::prelude::*;

use crate::common::{Content, ContentRange, DiscoveryOptions, EntityMetadata, FileKind, RootSpec};

verus! {

/// A source of the current time.
pub trait ClockPort {
    /// Milliseconds since the Unix epoch.
    fn now_epoch_ms(&self) -> u64;
}

/// A discovery request over workspace roots.
#[derive(Debug, PartialEq, Eq)]
pub struct ScanRequest {
    pub roots: Vec<RootSpec>,
    pub discovery: DiscoveryOptions,
}

/// The files found by discovery and those left out.
#[derive(Debug, PartialEq, Eq)]
pub struct ScanSnapshot {
    pub files: Vec<crate::scanner::DiscoveredFile>,
    pub skipped: Vec<crate::domain::SkippedFile>,
}

/// Files to read.
#[derive(Debug, PartialEq, Eq)]
pub struct ReadBatchRequest {
    pub files: Vec<crate::scanner::DiscoveredFile>,
}

/// A read source file.
#[derive(Debug, PartialEq, Eq)]
pub struct SourceFile {
    pub root: String,
    pub relative_path: String,
    pub bytes: Vec<u8>,
    pub source_fingerprint: String,
    pub kind_hint: Option<FileKind>,
    pub format_hint: Option<String>,
}

/// A watch request for one root.
#[derive(Debug, PartialEq, Eq)]
pub struct WatchRequest {
    pub root: String,
    pub discovery: DiscoveryOptions,
}

/// Changes delivered together.
#[derive(Debug, PartialEq, Eq)]
pub struct WorkspaceChangeBatch {
    pub changes: Vec<crate::domain::WorkspaceChange>,
}

/// The model an index was built with.
#[derive(Debug, PartialEq, Eq)]
pub struct IndexedModelInfo {
    pub fingerprint: String,
    pub dimension: usize,
    pub metric: crate::common::EmbeddingMetric,
}

/// A published index generation.
#[derive(Debug, PartialEq, Eq)]
pub struct IndexSnapshot {
    pub root: String,
    pub generation: u64,
    pub index_version: u32,
    pub model: Option<IndexedModelInfo>,
    pub file_count: usize,
    pub entity_count: usize,
}

/// What an index holds of one file.
#[derive(Debug, PartialEq, Eq)]
pub struct IndexedFileState {
    pub relative_path: String,
    pub source_fingerprint: String,
    pub size_bytes: u64,
    pub modified_epoch_ms: Option<u64>,
    pub entity_count: usize,
}

/// Whether a write updates or replaces a generation.
#[derive(Clone, Copy, Debug, PartialEq, Eq)]
pub enum WriteMode {
    Incremental,
    Rebuild,
}

/// A request to start writing a generation.
#[derive(Debug, PartialEq, Eq)]
pub struct BeginWriteRequest {
    pub root: String,
    pub mode: WriteMode,
    pub model: Option<IndexedModelInfo>,
}

/// A request for a verified local copy of a model or grammar artifact.
#[derive(Debug, PartialEq, Eq)]
pub struct ArtifactRequest {
    pub reference: String,
    pub revision: Option<String>,
    pub expected_sha256: Option<String>,
    pub cache_dir: String,
}

/// A verified local artifact.
#[derive(Debug, PartialEq, Eq)]
pub struct MaterializedArtifact {
    pub path: String,
    pub resolved_revision: String,
    pub sha256: String,
    pub cache_hit: bool,
}

/// One input to embed.
#[derive(Debug, PartialEq, Eq)]
pub struct EmbeddingInput {
    pub id: String,
    pub content: Content,
}

/// A file to extract entities from.
#[derive(Debug, PartialEq, Eq)]
pub struct ExtractInput {
    pub path: String,
    pub bytes: Vec<u8>,
    pub kind_hint: Option<FileKind>,
    pub format_hint: Option<String>,
}

/// The entities of one file.
#[derive(Debug, PartialEq, Eq)]
pub struct ExtractedDocument {
    pub path: String,
    pub kind: FileKind,
    pub format: String,
    pub entities: Vec<ExtractedEntity>,
    pub warnings: Vec<ExtractionWarning>,
}

/// One extracted entity.
#[derive(Debug, PartialEq, Eq)]
pub struct ExtractedEntity {
    pub stable_id: String,
    pub range: ContentRange,
    pub content: Content,
    pub metadata: Option<EntityMetadata>,
}

/// A problem met while extracting.
#[derive(Debug, PartialEq, Eq)]
pub struct ExtractionWarning {
    pub code: String,
    pub message: String,
}

} // verus!
