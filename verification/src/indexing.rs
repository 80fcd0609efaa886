//! Workspace index lifecycle decisions: which embedding model an index uses, whether an
//! existing index is compatible, how roots and discovery overrides combine, and what
//! workspace information says.
use vstd::prelude::*;

use crate::common::{Device, DiscoveryOptions, DiscoveryModel, EmbeddingMetric, EmbeddingModelSpec, RootSpec};
use crate::domain::{IndexPolicy, IndexRequest, InspectReply, InspectSource};
use crate::errors::{EngineError, EngineErrorModel};
use crate::models::{CreateEmbeddingModelOptions, EmbeddingModelInfo, ModelError};
use crate::text::{append_str, clone_string_list, string_of, trim};

verus! {

/// The model an index uses when nothing else is chosen.
pub open spec fn default_local_embedding() -> Seq<char> {
    "local/potion-code-16m-v2"@
}

/// The index layout version this build writes.
pub const CURRENT_INDEX_VERSION: u32 = 1;

/// How an index's embedding model is reached.
#[derive(Debug, PartialEq, Eq)]
pub struct EmbeddingRuntimeConfig {
    pub api_key: Option<String>,
    pub endpoint: Option<String>,
    pub device: Option<Device>,
}

/// The embedding model recorded for an index.
#[derive(Debug, PartialEq, Eq)]
pub struct WorkspaceIndexEmbedding {
    pub provider: String,
    pub model: String,
    pub dimension: usize,
    pub metric: String,
}

/// What a workspace manifest records.
#[derive(Debug, PartialEq, Eq)]
pub struct WorkspaceManifest {
    pub id: String,
    pub name: String,
    pub created_time: u64,
    pub index_policy: IndexPolicy,
    pub embedding: Option<WorkspaceIndexEmbedding>,
    pub index_version: Option<u32>,
    pub generation: Option<u64>,
    pub roots: Vec<RootSpec>,
    pub embedding_runtime: EmbeddingRuntimeConfig,
}

/// Where a workspace and its index live.
#[derive(Debug, PartialEq, Eq)]
pub struct WorkspaceIndexLocation {
    pub root: String,
    pub home: String,
    pub index_path: String,
}

/// The stored name of a metric.
pub open spec fn metric_name_spec(m: EmbeddingMetric) -> Seq<char> {
    match m {
        EmbeddingMetric::Cosine => "cosine"@,
        EmbeddingMetric::DotProduct => "dot"@,
        EmbeddingMetric::Euclidean => "euclidean"@,
    }
}

/// The stored name of a metric.
pub fn metric_name(m: EmbeddingMetric) -> (s: &'static str)
    ensures
        s@ == metric_name_spec(m),
{
    match m {
        EmbeddingMetric::Cosine => "cosine",
        EmbeddingMetric::DotProduct => "dot",
        EmbeddingMetric::Euclidean => "euclidean",
    }
}

/// The embedding a manifest records for a model: its provider, name, dimension and metric name.
pub fn embedding_schema(info: &EmbeddingModelInfo) -> (e: WorkspaceIndexEmbedding)
    ensures
        e.provider@ == info.provider@,
        e.model@ == info.name@,
        e.dimension == info.dimension,
        e.metric@ == metric_name_spec(info.metric),
{
    WorkspaceIndexEmbedding {
        provider: info.provider.clone(),
        model: info.name.clone(),
        dimension: info.dimension,
        metric: metric_name(info.metric).to_owned(),
    }
}

/// The embedding layout a store is opened with for a model.
pub fn storage_embedding_schema(info: &EmbeddingModelInfo) -> (e: crate::storage::WorkspaceIndexEmbeddingSchema)
    ensures
        e.provider@ == info.provider@,
        e.model@ == info.name@,
        e.dimension == info.dimension,
        e.metric == info.metric,
{
    crate::storage::WorkspaceIndexEmbeddingSchema {
        provider: info.provider.clone(),
        model: info.name.clone(),
        dimension: info.dimension,
        metric: info.metric,
    }
}

/// A workspace is indexed when indexing is enabled and its model and layout are recorded.
pub open spec fn is_indexed_spec(m: WorkspaceManifest) -> bool {
    m.index_policy == IndexPolicy::Enabled && m.embedding is Some && m.index_version is Some
}

/// Whether a workspace is indexed.
pub fn is_indexed(m: &WorkspaceManifest) -> (r: bool)
    ensures
        r == is_indexed_spec(*m),
{
    let enabled = match m.index_policy {
        IndexPolicy::Enabled => true,
        _ => false,
    };
    enabled && m.embedding.is_some() && m.index_version.is_some()
}

/// The root of a workspace indexed as a whole: recursive, with default discovery.
pub fn default_root_path(root: &str) -> (r: RootSpec)
    ensures
        r.path@ == root@,
        r.recursive,
        r.discovery@ == crate::common::discovery_default(),
{
    RootSpec { path: root.to_owned(), recursive: true, discovery: DiscoveryOptions::new() }
}

/// The name of a workspace: the last name of its root, else `workspace`.
pub open spec fn workspace_name_spec(root: Seq<char>) -> Seq<char> {
    match crate::path::file_name_spec(root) {
        Some(n) => if n.len() > 0 { n } else { "workspace"@ },
        None => "workspace"@,
    }
}

/// The name of a workspace.
pub fn workspace_name(root: &str) -> (s: String)
    ensures
        s@ == workspace_name_spec(root@),
{
    match crate::path::file_name_of(root) {
        Some(n) => if n.as_str().is_empty() { "workspace".to_owned() } else { n },
        None => "workspace".to_owned(),
    }
}

/// Discovery options with the given overrides applied: each non-empty list replaces the
/// target's, each set switch turns the target's on, and each given limit replaces it.
pub open spec fn overridden(t: DiscoveryModel, o: DiscoveryModel) -> DiscoveryModel {
    DiscoveryModel {
        include_paths: if o.include_paths.len() > 0 { o.include_paths } else { t.include_paths },
        exclude_paths: if o.exclude_paths.len() > 0 { o.exclude_paths } else { t.exclude_paths },
        globs: if o.globs.len() > 0 { o.globs } else { t.globs },
        insensitive_globs: if o.insensitive_globs.len() > 0 { o.insensitive_globs } else { t.insensitive_globs },
        file_types: if o.file_types.len() > 0 { o.file_types } else { t.file_types },
        excluded_file_types: if o.excluded_file_types.len() > 0 { o.excluded_file_types } else { t.excluded_file_types },
        hidden: t.hidden || o.hidden,
        no_ignore: t.no_ignore || o.no_ignore,
        ignore_files: if o.ignore_files.len() > 0 { o.ignore_files } else { t.ignore_files },
        max_depth: if o.max_depth is Some { o.max_depth } else { t.max_depth },
        max_file_size_bytes: if o.max_file_size_bytes is Some { o.max_file_size_bytes } else { t.max_file_size_bytes },
        follow: t.follow || o.follow,
    }
}

/// Applies discovery overrides (see [`overridden`]).
pub fn apply_discovery_overrides(target: &mut DiscoveryOptions, overrides: &DiscoveryOptions)
    ensures
        final(target)@ == overridden(old(target)@, overrides@),
{
    if overrides.include_paths.len() > 0 {
        target.include_paths = clone_string_list(&overrides.include_paths);
    }
    if overrides.exclude_paths.len() > 0 {
        target.exclude_paths = clone_string_list(&overrides.exclude_paths);
    }
    if overrides.globs.len() > 0 {
        target.globs = clone_string_list(&overrides.globs);
    }
    if overrides.insensitive_globs.len() > 0 {
        target.insensitive_globs = clone_string_list(&overrides.insensitive_globs);
    }
    if overrides.file_types.len() > 0 {
        target.file_types = clone_string_list(&overrides.file_types);
    }
    if overrides.excluded_file_types.len() > 0 {
        target.excluded_file_types = clone_string_list(&overrides.excluded_file_types);
    }
    if overrides.ignore_files.len() > 0 {
        target.ignore_files = clone_string_list(&overrides.ignore_files);
    }
    target.hidden = target.hidden || overrides.hidden;
    target.no_ignore = target.no_ignore || overrides.no_ignore;
    target.follow = target.follow || overrides.follow;
    if overrides.max_depth.is_some() {
        target.max_depth = overrides.max_depth;
    }
    if overrides.max_file_size_bytes.is_some() {
        target.max_file_size_bytes = overrides.max_file_size_bytes;
    }
}

pub(crate) fn copy_discovery(d: &DiscoveryOptions) -> (out: DiscoveryOptions)
    ensures
        out@ == d@,
{
    DiscoveryOptions {
        include_paths: clone_string_list(&d.include_paths),
        exclude_paths: clone_string_list(&d.exclude_paths),
        globs: clone_string_list(&d.globs),
        insensitive_globs: clone_string_list(&d.insensitive_globs),
        file_types: clone_string_list(&d.file_types),
        excluded_file_types: clone_string_list(&d.excluded_file_types),
        hidden: d.hidden,
        no_ignore: d.no_ignore,
        ignore_files: clone_string_list(&d.ignore_files),
        max_depth: d.max_depth,
        max_file_size_bytes: d.max_file_size_bytes,
        follow: d.follow,
    }
}

/// A root as the contracts see it: its path, whether it recurses, and its discovery.
pub struct RootModel {
    pub path: Seq<char>,
    pub recursive: bool,
    pub discovery: DiscoveryModel,
}

/// The view of a root.
pub open spec fn root_view(r: RootSpec) -> RootModel {
    RootModel { path: r.path@, recursive: r.recursive, discovery: r.discovery@ }
}

/// The roots an index operation works on: the requested roots, else the recorded ones, else
/// the whole workspace; relative paths are resolved against the workspace root, discovery
/// is reset when asked, and the request's discovery overrides are applied to each.
pub open spec fn resolved_root(workspace_root: Seq<char>, r: RootModel, reset: bool, o: DiscoveryModel) -> RootModel {
    RootModel {
        path: if r.path.len() > 0 && r.path[0] == '/' { r.path } else { crate::path::join_spec(workspace_root, r.path) },
        recursive: r.recursive,
        discovery: overridden(if reset { crate::common::discovery_default() } else { r.discovery }, o),
    }
}

/// The roots an index operation starts from (before resolution).
pub open spec fn base_roots(workspace_root: Seq<char>, existing: Option<Seq<RootModel>>, requested: Seq<RootModel>) -> Seq<RootModel> {
    if requested.len() > 0 {
        requested
    } else {
        match existing {
            Some(rs) => rs,
            None => seq![RootModel { path: workspace_root, recursive: true, discovery: crate::common::discovery_default() }],
        }
    }
}

/// The views of roots.
pub open spec fn roots_view(rs: Seq<RootSpec>) -> Seq<RootModel> {
    rs.map_values(|r: RootSpec| root_view(r))
}

fn copy_roots(rs: &Vec<RootSpec>) -> (out: Vec<RootSpec>)
    ensures
        roots_view(out@) == roots_view(rs@),
{
    let mut out: Vec<RootSpec> = Vec::new();
    let mut i: usize = 0;
    while i < rs.len()
        invariant
            0 <= i <= rs@.len(),
            roots_view(out@) == roots_view(rs@).take(i as int),
        decreases rs@.len() - i,
    {
        let r = &rs[i];
        let ghost before = roots_view(out@);
        out.push(RootSpec { path: r.path.clone(), recursive: r.recursive, discovery: copy_discovery(&r.discovery) });
        assert(roots_view(out@) =~= before.push(root_view(rs@[i as int])));
        assert(roots_view(rs@).take(i + 1) =~= roots_view(rs@).take(i as int).push(root_view(rs@[i as int])));
        i += 1;
    }
    assert(roots_view(rs@).take(rs@.len() as int) =~= roots_view(rs@));
    out
}

/// Whether `out` are the roots of `request` resolved against `workspace_root`, starting
/// from the roots recorded in `existing` where the request names none.
pub open spec fn roots_resolved(workspace_root: Seq<char>, existing: Option<WorkspaceManifest>, request: IndexRequest, out: Seq<RootSpec>) -> bool {
    let base = base_roots(workspace_root, match existing { Some(m) => Some(roots_view(m.roots@)), None => None }, roots_view(request.roots@));
    &&& out.len() == base.len()
    &&& forall|k: int| 0 <= k < base.len() ==> #[trigger] root_view(out[k])
        == resolved_root(workspace_root, base[k], request.reset_paths, request.discovery@)
}

/// Resolves the roots of an index request (see [`resolved_root`] and [`base_roots`]).
pub fn resolve_root_paths(workspace_root: &str, existing: Option<&WorkspaceManifest>, request: &IndexRequest) -> (out: Vec<RootSpec>)
    ensures
        roots_resolved(workspace_root@, match existing { Some(m) => Some(*m), None => None }, *request, out@),
{
    let roots = if request.roots.len() > 0 {
        copy_roots(&request.roots)
    } else {
        match existing {
            Some(m) => copy_roots(&m.roots),
            None => {
                let mut v: Vec<RootSpec> = Vec::new();
                v.push(default_root_path(workspace_root));
                assert(roots_view(v@) =~= seq![RootModel { path: workspace_root@, recursive: true, discovery: crate::common::discovery_default() }]);
                v
            },
        }
    };
    let ghost base = roots_view(roots@);
    let total = roots.len();
    let mut pending = crate::sort::reversed(roots);
    let mut out: Vec<RootSpec> = Vec::new();
    let mut j: usize = 0;
    while pending.len() > 0
        invariant
            base.len() == total,
            pending@.len() == total - j,
            forall|i: int| 0 <= i < pending@.len() ==> #[trigger] root_view(pending@[i]) == base[total - 1 - i],
            out@.len() == j,
            forall|i: int| 0 <= i < j ==> #[trigger] root_view(out@[i]) == resolved_root(workspace_root@, base[i], request.reset_paths, request.discovery@),
        decreases pending@.len(),
    {
        let r = pending.pop().unwrap();
        assert(root_view(r) == base[j as int]);
        let RootSpec { path, recursive, discovery } = r;
        let pc = crate::text::chars_of(path.as_str());
        let resolved = if pc.len() > 0 && pc[0] == '/' { path } else { crate::path::resolve_path(workspace_root, path.as_str()) };
        let mut d = if request.reset_paths { DiscoveryOptions::new() } else { discovery };
        apply_discovery_overrides(&mut d, &request.discovery);
        let ghost old_out = out@;
        out.push(RootSpec { path: resolved, recursive, discovery: d });
        proof {
            assert forall|i: int| 0 <= i < j + 1 implies #[trigger] root_view(out@[i]) == resolved_root(workspace_root@, base[i], request.reset_paths, request.discovery@) by {
                if i < j {
                    assert(out@[i] == old_out[i]);
                }
            }
        }
        j += 1;
    }
    out
}

/// The model a request asks for: the requested reference, else the recorded model
/// (`provider/model`), else the configured reference (trimmed, when not empty), else the
/// default local model.
pub open spec fn embedding_reference_spec(existing: Option<WorkspaceManifest>, requested: Option<EmbeddingModelSpec>, configured: Option<Seq<char>>) -> Seq<char> {
    match requested {
        Some(r) => r.reference@,
        None => match existing {
            Some(m) if m.embedding is Some => m.embedding->Some_0.provider@ + "/"@ + m.embedding->Some_0.model@,
            _ => match configured {
                Some(c) if trim(c).len() > 0 => trim(c),
                _ => default_local_embedding(),
            },
        },
    }
}

/// The model a request asks for (see [`embedding_reference_spec`]); `configured` is the
/// configured reference, if any.
pub fn embedding_reference(existing: Option<&WorkspaceManifest>, requested: Option<&EmbeddingModelSpec>, configured: Option<&str>) -> (s: String)
    ensures
        s@ == embedding_reference_spec(match existing { Some(m) => Some(*m), None => None }, match requested { Some(r) => Some(*r), None => None }, match configured { Some(c) => Some(c@), None => None }),
{
    if let Some(r) = requested {
        return r.reference.clone();
    }
    if let Some(m) = existing {
        if let Some(e) = &m.embedding {
            let mut out: Vec<char> = Vec::new();
            append_str(&mut out, e.provider.as_str());
            append_str(&mut out, "/");
            append_str(&mut out, e.model.as_str());
            return string_of(&out);
        }
    }
    if let Some(c) = configured {
        let cc = crate::text::chars_of(c);
        let t = crate::text::trim_chars(cc.as_slice());
        if t.len() > 0 {
            return string_of(&t);
        }
    }
    "local/potion-code-16m-v2".to_owned()
}

/// The first configured API key that is not blank, trimmed; the candidates come in order of
/// preference.
pub open spec fn first_api_key(candidates: Seq<Option<Seq<char>>>) -> Option<Seq<char>>
    decreases candidates.len(),
{
    if candidates.len() == 0 {
        None
    } else {
        match candidates[0] {
            Some(v) if trim(v).len() > 0 => Some(trim(v)),
            _ => first_api_key(candidates.drop_first()),
        }
    }
}

/// The API key from the environment: the first of the candidates (in order of preference)
/// that is not blank, trimmed.
pub fn environment_api_key(candidates: &Vec<Option<String>>) -> (r: Option<String>)
    ensures
        match r { Some(s) => Some(s@), None => None::<Seq<char>> } == first_api_key(candidates.deep_view()),
{
    let ghost cv = candidates.deep_view();
    let mut i: usize = 0;
    assert(cv.skip(0) =~= cv);
    while i < candidates.len()
        invariant
            cv == candidates.deep_view(),
            0 <= i <= cv.len(),
            first_api_key(cv) == first_api_key(cv.skip(i as int)),
        decreases cv.len() - i,
    {
        assert(cv.skip(i as int).drop_first() =~= cv.skip(i + 1));
        assert(cv.skip(i as int)[0] == cv[i as int]);
        match &candidates[i] {
            Some(v) => {
                let c = crate::text::chars_of(v.as_str());
                let t = crate::text::trim_chars(c.as_slice());
                if t.len() > 0 {
                    return Some(string_of(&t));
                }
            },
            None => {},
        }
        i += 1;
    }
    None
}

/// The message of an index whose model differs from the chosen one.
pub open spec fn incompatible_message() -> Seq<char> {
    "existing index uses a different embedding model; rebuild the index"@
}

/// An existing index is compatible with a model when it is not indexed, records no model,
/// or records this model's provider, name, dimension and metric.
pub open spec fn compatible_spec(existing: Option<WorkspaceManifest>, model: EmbeddingModelInfo) -> bool {
    match existing {
        None => true,
        Some(m) => !is_indexed_spec(m) || match m.embedding {
            None => true,
            Some(e) => e.provider@ == model.provider@ && e.model@ == model.name@ && e.dimension == model.dimension
                && e.metric@ == metric_name_spec(model.metric),
        },
    }
}

/// Refuses a model that differs from the one an existing index was built with.
pub fn assert_embedding_compatible(existing: Option<&WorkspaceManifest>, model: &EmbeddingModelInfo) -> (r: Result<(), EngineError>)
    ensures
        r is Ok <==> compatible_spec(match existing { Some(m) => Some(*m), None => None }, *model),
        r matches Err(e) ==> e@ == (EngineErrorModel::InvalidInput { message: incompatible_message() }),
{
    let m = match existing {
        None => { return Ok(()); },
        Some(m) => m,
    };
    if !is_indexed(m) {
        return Ok(());
    }
    let e = match &m.embedding {
        None => { return Ok(()); },
        Some(e) => e,
    };
    if crate::text::str_eq(e.provider.as_str(), model.provider.as_str()) && crate::text::str_eq(e.model.as_str(), model.name.as_str())
        && e.dimension == model.dimension && crate::text::str_eq(e.metric.as_str(), metric_name(model.metric)) {
        return Ok(());
    }
    Err(EngineError::invalid_input("existing index uses a different embedding model; rebuild the index"))
}

/// The view of an optional string.
pub open spec fn opt_view(o: Option<String>) -> Option<Seq<char>> {
    match o {
        Some(s) => Some(s@),
        None => None,
    }
}

/// The runtime settings recorded for an index: for a local model only its device (the
/// requested one, else the recorded one, else automatic); for a remote model the recorded
/// API key and the endpoint (requested, else recorded, else the model's).
pub open spec fn runtime_spec(existing: Option<WorkspaceManifest>, requested: Option<EmbeddingModelSpec>, model: EmbeddingModelInfo)
    -> (Option<Seq<char>>, Option<Seq<char>>, Option<Device>) {
    let (key, endpoint, device) = match existing {
        Some(m) => (opt_view(m.embedding_runtime.api_key), opt_view(m.embedding_runtime.endpoint), m.embedding_runtime.device),
        None => (None, None, None),
    };
    if model.provider@ == "local"@ {
        (None, None, Some(match requested {
            Some(r) => r.device,
            None => match device { Some(d) => d, None => Device::Auto },
        }))
    } else {
        (key, match requested {
            Some(r) if r.endpoint is Some => opt_view(r.endpoint),
            _ => match endpoint {
                Some(e) => Some(e),
                None => opt_view(model.endpoint),
            },
        }, None)
    }
}

fn clone_opt(o: &Option<String>) -> (r: Option<String>)
    ensures
        opt_view(r) == opt_view(*o),
{
    match o {
        Some(s) => Some(s.clone()),
        None => None,
    }
}

/// The runtime settings recorded for an index (see [`runtime_spec`]).
pub fn embedding_runtime(existing: Option<&WorkspaceManifest>, requested: Option<&EmbeddingModelSpec>, model: &EmbeddingModelInfo) -> (c: EmbeddingRuntimeConfig)
    ensures
        (opt_view(c.api_key), opt_view(c.endpoint), c.device) == runtime_spec(match existing { Some(m) => Some(*m), None => None },
            match requested { Some(r) => Some(*r), None => None }, *model),
{
    let (key, endpoint, device) = match existing {
        Some(m) => (clone_opt(&m.embedding_runtime.api_key), clone_opt(&m.embedding_runtime.endpoint), m.embedding_runtime.device),
        None => (None, None, None),
    };
    if crate::text::str_eq(model.provider.as_str(), "local") {
        let d = match requested {
            Some(r) => r.device,
            None => match device {
                Some(d) => d,
                None => Device::Auto,
            },
        };
        EmbeddingRuntimeConfig { api_key: None, endpoint: None, device: Some(d) }
    } else {
        let ep = match requested {
            Some(r) if r.endpoint.is_some() => clone_opt(&r.endpoint),
            _ => match endpoint {
                Some(e) => Some(e),
                None => clone_opt(&model.endpoint),
            },
        };
        EmbeddingRuntimeConfig { api_key: key, endpoint: ep, device: None }
    }
}

/// What an index run records and does before it indexes: whether the stored index is
/// cleared first, the manifest it writes, when that manifest says it was updated, and the
/// embedding layout the store is opened with.
pub struct IndexPlan {
    pub reset: bool,
    pub manifest: WorkspaceManifest,
    pub updated_epoch_ms: u64,
    pub storage: crate::storage::WorkspaceIndexEmbeddingSchema,
}

/// The manifest an index run keeps from: the existing one, unless the run rebuilds.
pub open spec fn kept_manifest(existing: Option<WorkspaceManifest>, rebuild: bool) -> Option<WorkspaceManifest> {
    if rebuild { None } else { existing }
}

/// Whether an index run clears the stored index first: when it rebuilds, or when there is
/// no indexed workspace yet.
pub open spec fn plan_resets(existing: Option<WorkspaceManifest>, rebuild: bool) -> bool {
    rebuild || !(existing is Some && is_indexed_spec(existing.unwrap()))
}

/// What [`plan_index`] returns for these arguments.
pub open spec fn index_plan_spec(
    existing: Option<WorkspaceManifest>,
    request: IndexRequest,
    workspace_root: Seq<char>,
    model: EmbeddingModelInfo,
    fresh_id: Seq<char>,
    now_ms: u64,
    r: Result<IndexPlan, EngineError>,
) -> bool {
    let ex = existing;
    let keep = kept_manifest(ex, request.rebuild);
    &&& r is Err <==> !request.rebuild && !compatible_spec(ex, model)
    &&& r matches Err(e) ==> e@ == (EngineErrorModel::InvalidInput { message: incompatible_message() })
    &&& r matches Ok(p) ==> {
        &&& p.reset == plan_resets(ex, request.rebuild)
        &&& p.manifest.id@ == match keep { Some(m) => m.id@, None => fresh_id }
        &&& p.manifest.name@ == match keep { Some(m) => m.name@, None => workspace_name_spec(workspace_root) }
        &&& p.manifest.created_time == match keep { Some(m) => m.created_time, None => now_ms }
        &&& p.manifest.generation == match keep { Some(m) => m.generation, None => None }
        &&& p.updated_epoch_ms == now_ms
        &&& p.manifest.index_policy == IndexPolicy::Enabled
        &&& p.manifest.index_version == Some(CURRENT_INDEX_VERSION)
        &&& p.manifest.embedding matches Some(e) && e.provider@ == model.provider@ && e.model@ == model.name@
            && e.dimension == model.dimension && e.metric@ == metric_name_spec(model.metric)
        &&& roots_resolved(workspace_root, keep, request, p.manifest.roots@)
        &&& (opt_view(p.manifest.embedding_runtime.api_key), opt_view(p.manifest.embedding_runtime.endpoint),
            p.manifest.embedding_runtime.device) == runtime_spec(keep, request.embedding, model)
        &&& p.storage.provider@ == model.provider@ && p.storage.model@ == model.name@
            && p.storage.dimension == model.dimension && p.storage.metric == model.metric
    }
}

/// Decides an index run for a workspace at `workspace_root` with the chosen `model`.
/// Without a rebuild, an existing index built with another model is refused. The manifest
/// keeps the existing id, name, creation time and generation unless the run rebuilds (then
/// `fresh_id`, the workspace's name, `now_ms` and no generation); it records the model,
/// the current layout version, the resolved roots and the runtime settings.
pub fn plan_index(
    existing: Option<&WorkspaceManifest>,
    request: &IndexRequest,
    workspace_root: &str,
    model: &EmbeddingModelInfo,
    fresh_id: String,
    now_ms: u64,
) -> (r: Result<IndexPlan, EngineError>)
    ensures
        index_plan_spec(match existing { Some(m) => Some(*m), None => None }, *request, workspace_root@, *model, fresh_id@, now_ms, r),
{
    if !request.rebuild {
        match assert_embedding_compatible(existing, model) {
            Ok(()) => {},
            Err(e) => { return Err(e); },
        }
    }
    let reset = request.rebuild || match existing {
        Some(m) => !is_indexed(m),
        None => true,
    };
    let keep = if request.rebuild { None } else { existing };
    let roots = resolve_root_paths(workspace_root, keep, request);
    let requested = match &request.embedding {
        Some(spec) => Some(spec),
        None => None,
    };
    let runtime = embedding_runtime(keep, requested, model);
    let (id, name, created_time, generation) = match keep {
        Some(m) => (m.id.clone(), m.name.clone(), m.created_time, m.generation),
        None => (fresh_id, workspace_name(workspace_root), now_ms, None),
    };
    let manifest = WorkspaceManifest {
        id,
        name,
        created_time,
        index_policy: IndexPolicy::Enabled,
        embedding: Some(embedding_schema(model)),
        index_version: Some(CURRENT_INDEX_VERSION),
        generation,
        roots,
        embedding_runtime: runtime,
    };
    Ok(IndexPlan { reset, manifest, updated_epoch_ms: now_ms, storage: storage_embedding_schema(model) })
}

/// What [`disabled_manifest`] returns for these arguments.
pub open spec fn disabled_manifest_spec(existing: Option<WorkspaceManifest>, workspace_root: Seq<char>, fresh_id: Seq<char>, now_ms: u64, m: WorkspaceManifest) -> bool {
    &&& m.index_policy == IndexPolicy::Disabled
    &&& m.embedding is None
    &&& m.index_version is None
    &&& m.generation is None
    &&& match existing {
        Some(e) => {
            &&& m.id@ == e.id@
            &&& m.name@ == e.name@
            &&& m.created_time == e.created_time
            &&& roots_view(m.roots@) == roots_view(e.roots@)
            &&& opt_view(m.embedding_runtime.api_key) == opt_view(e.embedding_runtime.api_key)
            &&& opt_view(m.embedding_runtime.endpoint) == opt_view(e.embedding_runtime.endpoint)
            &&& m.embedding_runtime.device == e.embedding_runtime.device
        },
        None => {
            &&& m.id@ == fresh_id
            &&& m.name@ == workspace_name_spec(workspace_root)
            &&& m.created_time == now_ms
            &&& roots_view(m.roots@) == seq![RootModel { path: workspace_root, recursive: true, discovery: crate::common::discovery_default() }]
            &&& m.embedding_runtime.api_key is None && m.embedding_runtime.endpoint is None && m.embedding_runtime.device is None
        },
    }
}

/// The manifest that disables indexing of a workspace at `workspace_root`: it keeps the
/// existing id, name, roots, creation time and runtime settings (else `fresh_id`, the
/// workspace's name, the whole workspace as one root, `now_ms` and no settings), and
/// records no model, layout version or generation.
pub fn disabled_manifest(existing: Option<&WorkspaceManifest>, workspace_root: &str, fresh_id: String, now_ms: u64) -> (m: WorkspaceManifest)
    ensures
        disabled_manifest_spec(match existing { Some(e) => Some(*e), None => None }, workspace_root@, fresh_id@, now_ms, m),
{
    match existing {
        Some(e) => WorkspaceManifest {
            id: e.id.clone(),
            name: e.name.clone(),
            created_time: e.created_time,
            index_policy: IndexPolicy::Disabled,
            embedding: None,
            index_version: None,
            generation: None,
            roots: copy_roots(&e.roots),
            embedding_runtime: EmbeddingRuntimeConfig {
                api_key: clone_opt(&e.embedding_runtime.api_key),
                endpoint: clone_opt(&e.embedding_runtime.endpoint),
                device: e.embedding_runtime.device,
            },
        },
        None => {
            let mut roots: Vec<RootSpec> = Vec::new();
            roots.push(default_root_path(workspace_root));
            assert(roots_view(roots@) =~= seq![RootModel { path: workspace_root@, recursive: true, discovery: crate::common::discovery_default() }]);
            WorkspaceManifest {
                id: fresh_id,
                name: workspace_name(workspace_root),
                created_time: now_ms,
                index_policy: IndexPolicy::Disabled,
                embedding: None,
                index_version: None,
                generation: None,
                roots,
                embedding_runtime: EmbeddingRuntimeConfig { api_key: None, endpoint: None, device: None },
            }
        },
    }
}

/// How an index run ends once indexing, the final manifest write and closing the store have
/// each been tried: the indexing error first, then the manifest error, then the close error,
/// else what indexing returned.
pub fn finish_index<T>(result: Result<T, EngineError>, manifest_result: Result<(), EngineError>, close_result: Result<(), EngineError>) -> (r: Result<T, EngineError>)
    ensures
        r == match result {
            Err(e) => Err(e),
            Ok(v) => match manifest_result {
                Err(e) => Err(e),
                Ok(()) => match close_result {
                    Err(e) => Err(e),
                    Ok(()) => Ok(v),
                },
            },
        },
{
    let v = match result {
        Err(e) => { return Err(e); },
        Ok(v) => v,
    };
    match manifest_result {
        Err(e) => { return Err(e); },
        Ok(()) => {},
    }
    match close_result {
        Err(e) => Err(e),
        Ok(()) => Ok(v),
    }
}

/// The engine error of a model failure: a `models` backend failure whose message is the
/// model error's message, prefixed by its code and followed by its context when present.
pub open spec fn model_error_message(code: Option<Seq<char>>, message: Seq<char>, context: Option<Seq<char>>) -> Seq<char> {
    let m = match code {
        Some(c) => c + ": "@ + message,
        None => message,
    };
    match context {
        Some(x) => m + " ("@ + x + ")"@,
        None => m,
    }
}

/// The engine error of a model failure (see [`model_error_message`]).
pub fn model_error(error: &ModelError) -> (e: EngineError)
    ensures
        e@ == (EngineErrorModel::BackendFailure { backend: "models"@, message: model_error_message(error@.code, error@.message, error@.context) }),
{
    let mut out: Vec<char> = Vec::new();
    match error.code() {
        Some(c) => {
            append_str(&mut out, c);
            append_str(&mut out, ": ");
        },
        None => {},
    }
    append_str(&mut out, error.message());
    match error.context() {
        Some(x) => {
            append_str(&mut out, " (");
            append_str(&mut out, x);
            append_str(&mut out, ")");
        },
        None => {},
    }
    proof {
        match error@.code {
            Some(c) => {},
            None => {},
        }
    }
    assert(out@ =~= model_error_message(error@.code, error@.message, error@.context));
    EngineError::BackendFailure { backend: "models".to_owned(), message: string_of(&out) }
}

/// The information of a workspace without an index.
pub fn unindexed_info(location: WorkspaceIndexLocation, policy: IndexPolicy) -> (r: InspectReply)
    ensures
        r.root@ == location.root@,
        !r.indexed,
        r.index_policy == policy,
        r.home@ == location.home@,
        r.index_path@ == location.index_path@,
        r.source == InspectSource::Unindexed,
        r.workspace_index is None,
        r.status is None,
        r.suggestion matches Some(s) && s@ == "run index to create a workspace index"@,
{
    InspectReply {
        root: location.root,
        indexed: false,
        index_policy: policy,
        home: location.home,
        index_path: location.index_path,
        source: InspectSource::Unindexed,
        workspace_index: None,
        status: None,
        suggestion: Some("run index to create a workspace index".to_owned()),
    }
}

/// What to suggest about a workspace: that indexing is disabled, or that its storage is
/// missing when it is not indexed; nothing otherwise.
pub fn workspace_suggestion(policy: IndexPolicy, indexed: bool) -> (r: Option<String>)
    ensures
        policy == IndexPolicy::Disabled ==> (r matches Some(s) && s@ == "indexing is disabled for this workspace"@),
        policy != IndexPolicy::Disabled && !indexed ==> (r matches Some(s) && s@ == "workspace manifest exists but index storage is missing"@),
        policy != IndexPolicy::Disabled && indexed ==> r is None,
{
    match policy {
        IndexPolicy::Disabled => Some("indexing is disabled for this workspace".to_owned()),
        _ => if !indexed { Some("workspace manifest exists but index storage is missing".to_owned()) } else { None },
    }
}

/// The message of an embedding revision override.
pub open spec fn revision_message() -> Seq<char> {
    "embedding revision overrides are not supported by the catalog-backed runtime"@
}

/// The model an index operation loads: a requested revision is refused; the reference is
/// chosen by [`embedding_reference_spec`]; a local model gets no API key but a device, a
/// remote model the recorded API key (else the environment's) and no device; the endpoint
/// is the requested one, else the recorded one; the cache directory is the requested one.
pub fn model_request(
    existing: Option<&WorkspaceManifest>,
    requested: Option<&EmbeddingModelSpec>,
    configured: Option<&str>,
    environment_key: Option<String>,
) -> (r: Result<(String, CreateEmbeddingModelOptions), EngineError>)
    ensures
        (requested matches Some(q) && q.revision is Some) ==> (r matches Err(e) && e@ == (EngineErrorModel::InvalidInput { message: revision_message() })),
        !(requested matches Some(q) && q.revision is Some) ==> (r matches Ok((reference, o)) && {
            let ex = match existing { Some(m) => Some(*m), None => None };
            let rq = match requested { Some(q) => Some(*q), None => None };
            let refr = embedding_reference_spec(ex, rq, match configured { Some(c) => Some(c@), None => None });
            let local = crate::text::is_prefix("local/"@, refr);
            &&& reference@ == refr
            &&& opt_view(o.api_key) == (if local { None } else {
                match ex {
                    Some(m) if m.embedding_runtime.api_key is Some => opt_view(m.embedding_runtime.api_key),
                    _ => opt_view(environment_key),
                }
            })
            &&& opt_view(o.endpoint) == match rq {
                Some(q) if q.endpoint is Some => opt_view(q.endpoint),
                _ => match ex { Some(m) => opt_view(m.embedding_runtime.endpoint), None => None },
            }
            &&& opt_view(o.model_cache_dir) == match rq { Some(q) => opt_view(q.cache_dir), None => None }
            &&& o.device == (if local {
                Some(match rq {
                    Some(q) => q.device,
                    None => match ex {
                        Some(m) if m.embedding_runtime.device is Some => m.embedding_runtime.device->Some_0,
                        _ => Device::Auto,
                    },
                })
            } else { None })
        }),
{
    if let Some(q) = requested {
        if q.revision.is_some() {
            return Err(EngineError::invalid_input("embedding revision overrides are not supported by the catalog-backed runtime"));
        }
    }
    let reference = embedding_reference(existing, requested, configured);
    let rc = crate::text::chars_of(reference.as_str());
    let local = crate::text::chars_start_with(rc.as_slice(), "local/");
    let api_key = if local {
        None
    } else {
        match existing {
            Some(m) if m.embedding_runtime.api_key.is_some() => clone_opt(&m.embedding_runtime.api_key),
            _ => environment_key,
        }
    };
    let endpoint = match requested {
        Some(q) if q.endpoint.is_some() => clone_opt(&q.endpoint),
        _ => match existing {
            Some(m) => clone_opt(&m.embedding_runtime.endpoint),
            None => None,
        },
    };
    let device = if local {
        Some(match requested {
            Some(q) => q.device,
            None => match existing {
                Some(m) if m.embedding_runtime.device.is_some() => m.embedding_runtime.device.unwrap(),
                _ => Device::Auto,
            },
        })
    } else {
        None
    };
    let cache = match requested {
        Some(q) => clone_opt(&q.cache_dir),
        None => None,
    };
    Ok((reference, CreateEmbeddingModelOptions { api_key, endpoint, model_cache_dir: cache, device }))
}

} // verus!
