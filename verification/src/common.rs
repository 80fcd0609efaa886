//! Shared value types used by requests, replies, extraction and embedding.
use vstd::prelude::*;

verus! {

/// A piece of content: text, or an encoded image.
#[derive(Debug, PartialEq, Eq)]
pub enum Content {
    Text(String),
    Image(ImageContent),
}

/// The mathematical form of [`Content`].
pub enum ContentModel {
    Text(Seq<char>),
    Image { data: Seq<u8>, format: ImageFormat },
}

/// The mathematical form of a content item.
pub open spec fn content_view(c: Content) -> ContentModel {
    match c {
        Content::Text(t) => ContentModel::Text(t@),
        Content::Image(img) => ContentModel::Image { data: img.data@, format: img.format },
    }
}

/// Encoded image bytes and their format.
#[derive(Debug, PartialEq, Eq)]
pub struct ImageContent {
    pub data: Vec<u8>,
    pub format: ImageFormat,
}

/// Image encodings the engine recognises.
#[derive(Clone, Copy, Debug, PartialEq, Eq)]
pub enum ImageFormat {
    Png,
    Jpeg,
    Webp,
    Gif,
}

/// Where a piece of content sits in its source.
#[derive(Clone, Copy, Debug, PartialEq, Eq)]
pub enum ContentRange {
    File,
    Text { start_line: usize, end_line: usize, start_offset: usize, end_offset: usize },
    Byte { start_offset: u64, end_offset: u64 },
    Page { page: usize },
    PageText { page: usize, start_offset: usize, end_offset: usize },
    PageRegion { page: usize, x: u32, y: u32, width: u32, height: u32 },
}

/// A line and UTF-16 column range in a text source.
#[derive(Clone, Copy, Debug, PartialEq, Eq)]
pub struct TextRange {
    pub start_line: usize,
    pub end_line: usize,
    pub start_offset: usize,
    pub end_offset: usize,
}

impl TextRange {
    /// The same range as a [`ContentRange`].
    pub fn to_content_range(self) -> (r: ContentRange)
        ensures
            r == (ContentRange::Text {
                start_line: self.start_line,
                end_line: self.end_line,
                start_offset: self.start_offset,
                end_offset: self.end_offset,
            }),
    {
        ContentRange::Text {
            start_line: self.start_line,
            end_line: self.end_line,
            start_offset: self.start_offset,
            end_offset: self.end_offset,
        }
    }
}

/// Coarse file category used for limits and extraction routing.
#[derive(Clone, Copy, Debug, PartialEq, Eq)]
pub enum FileKind {
    Text,
    Code,
    Data,
    Image,
}

/// Kind of a code symbol.
#[derive(Clone, Copy, Debug, PartialEq, Eq)]
pub enum SymbolType {
    Module,
    Class,
    Interface,
    Function,
    Value,
    Alias,
}

/// Structural metadata of an extracted entity.
#[derive(Debug, PartialEq, Eq)]
pub enum EntityMetadata {
    Code {
        symbol_type: SymbolType,
        symbol_name: Option<String>,
        scope: Option<String>,
        node_type: Option<String>,
        signature: Option<String>,
        documentation: Option<String>,
        modifiers: Vec<String>,
    },
    Markdown { heading: Option<String>, level: Option<usize>, scope: Option<String> },
}

/// File selection options of one workspace root.
#[derive(Debug, PartialEq, Eq)]
pub struct DiscoveryOptions {
    pub include_paths: Vec<String>,
    pub exclude_paths: Vec<String>,
    pub globs: Vec<String>,
    pub insensitive_globs: Vec<String>,
    pub file_types: Vec<String>,
    pub excluded_file_types: Vec<String>,
    pub hidden: bool,
    pub no_ignore: bool,
    pub ignore_files: Vec<String>,
    pub max_depth: Option<usize>,
    pub max_file_size_bytes: Option<u64>,
    pub follow: bool,
}

/// One indexed root of a workspace.
#[derive(Debug, PartialEq, Eq)]
pub struct RootSpec {
    pub path: String,
    pub recursive: bool,
    pub discovery: DiscoveryOptions,
}

/// The mathematical form of [`DiscoveryOptions`].
pub struct DiscoveryModel {
    pub include_paths: Seq<Seq<char>>,
    pub exclude_paths: Seq<Seq<char>>,
    pub globs: Seq<Seq<char>>,
    pub insensitive_globs: Seq<Seq<char>>,
    pub file_types: Seq<Seq<char>>,
    pub excluded_file_types: Seq<Seq<char>>,
    pub hidden: bool,
    pub no_ignore: bool,
    pub ignore_files: Seq<Seq<char>>,
    pub max_depth: Option<usize>,
    pub max_file_size_bytes: Option<u64>,
    pub follow: bool,
}

impl View for DiscoveryOptions {
    type V = DiscoveryModel;

    open spec fn view(&self) -> DiscoveryModel {
        DiscoveryModel {
            include_paths: self.include_paths.deep_view(),
            exclude_paths: self.exclude_paths.deep_view(),
            globs: self.globs.deep_view(),
            insensitive_globs: self.insensitive_globs.deep_view(),
            file_types: self.file_types.deep_view(),
            excluded_file_types: self.excluded_file_types.deep_view(),
            hidden: self.hidden,
            no_ignore: self.no_ignore,
            ignore_files: self.ignore_files.deep_view(),
            max_depth: self.max_depth,
            max_file_size_bytes: self.max_file_size_bytes,
            follow: self.follow,
        }
    }
}

/// Discovery options with nothing selected or excluded.
pub open spec fn discovery_default() -> DiscoveryModel {
    DiscoveryModel {
        include_paths: seq![],
        exclude_paths: seq![],
        globs: seq![],
        insensitive_globs: seq![],
        file_types: seq![],
        excluded_file_types: seq![],
        hidden: false,
        no_ignore: false,
        ignore_files: seq![],
        max_depth: None,
        max_file_size_bytes: None,
        follow: false,
    }
}

impl DiscoveryOptions {
    /// Discovery options with nothing selected or excluded.
    pub fn new() -> (d: DiscoveryOptions)
        ensures
            d@ == discovery_default(),
    {
        let d = DiscoveryOptions {
            include_paths: Vec::new(),
            exclude_paths: Vec::new(),
            globs: Vec::new(),
            insensitive_globs: Vec::new(),
            file_types: Vec::new(),
            excluded_file_types: Vec::new(),
            hidden: false,
            no_ignore: false,
            ignore_files: Vec::new(),
            max_depth: None,
            max_file_size_bytes: None,
            follow: false,
        };
        assert(d@.include_paths =~= seq![]);
        assert(d@.exclude_paths =~= seq![]);
        assert(d@.globs =~= seq![]);
        assert(d@.insensitive_globs =~= seq![]);
        assert(d@.file_types =~= seq![]);
        assert(d@.excluded_file_types =~= seq![]);
        assert(d@.ignore_files =~= seq![]);
        d
    }
}

/// Compute device requested for local embedding models.
#[derive(Clone, Copy, Debug, PartialEq, Eq)]
pub enum Device {
    Auto,
    Cpu,
    Metal,
    Vulkan,
    Cuda,
}

/// Vector similarity metric.
#[derive(Clone, Copy, Debug, PartialEq, Eq)]
pub enum EmbeddingMetric {
    Cosine,
    DotProduct,
    Euclidean,
}

/// Kind of content an embedding model accepts.
#[derive(Clone, Copy, Debug, PartialEq, Eq)]
pub enum EmbeddingInputKind {
    Text,
    Image,
}

/// A requested embedding model.
#[derive(Debug, PartialEq, Eq)]
pub struct EmbeddingModelSpec {
    pub reference: String,
    pub revision: Option<String>,
    pub cache_dir: Option<String>,
    pub endpoint: Option<String>,
    pub device: Device,
}

/// One named timing measurement.
#[derive(Debug, PartialEq, Eq)]
pub struct TimingEntry {
    pub name: String,
    pub duration_micros: u64,
    pub count: Option<u64>,
}

} // verus!
