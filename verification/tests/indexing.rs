use zvec_grep::common::{Device, DiscoveryOptions, EmbeddingInputKind, EmbeddingMetric, EmbeddingModelSpec, RootSpec};
use zvec_grep::domain::{IndexPolicy, IndexRequest};
use zvec_grep::indexing::{
    assert_embedding_compatible, disabled_manifest, embedding_reference, environment_api_key, finish_index, model_error, model_request, plan_index,
    resolve_root_paths, workspace_name, workspace_suggestion, CURRENT_INDEX_VERSION, EmbeddingRuntimeConfig, WorkspaceIndexEmbedding, WorkspaceManifest,
};
use zvec_grep::errors::EngineError;
use zvec_grep::models::{EmbeddingModelInfo, EmbeddingModelLimits, ModelError};

fn manifest(embedding: Option<WorkspaceIndexEmbedding>, roots: Vec<RootSpec>) -> WorkspaceManifest {
    WorkspaceManifest {
        id: "w1".to_string(),
        name: "repo".to_string(),
        created_time: 1,
        index_policy: IndexPolicy::Enabled,
        embedding,
        index_version: Some(1),
        generation: Some(1),
        roots,
        embedding_runtime: EmbeddingRuntimeConfig { api_key: Some("stored".to_string()), endpoint: None, device: None },
    }
}

fn info(provider: &str, name: &str) -> EmbeddingModelInfo {
    EmbeddingModelInfo {
        reference: format!("{provider}/{name}"),
        provider: provider.to_string(),
        name: name.to_string(),
        dimension: 8,
        metric: EmbeddingMetric::Cosine,
        endpoint: None,
        default_concurrency: None,
        input_kinds: vec![EmbeddingInputKind::Text],
        limits: EmbeddingModelLimits { max_batch_size: 4, max_input_tokens: None, max_image_bytes: None },
    }
}

fn request(roots: Vec<RootSpec>) -> IndexRequest {
    IndexRequest {
        root: None,
        roots,
        rebuild: false,
        reset_paths: false,
        changes: Vec::new(),
        discovery: DiscoveryOptions::new(),
        embedding: None,
        embedding_concurrency: None,
        wait: false,
        debug: false,
    }
}

#[test]
fn workspace_names_come_from_the_root() {
    assert_eq!(workspace_name("/home/me/repo"), "repo");
    assert_eq!(workspace_name("/"), "workspace");
}

#[test]
fn the_embedding_reference_prefers_request_then_index_then_configuration() {
    let spec = EmbeddingModelSpec { reference: "qwen/v4".to_string(), revision: None, cache_dir: None, endpoint: None, device: Device::Auto };
    let existing = manifest(
        Some(WorkspaceIndexEmbedding { provider: "local".to_string(), model: "m".to_string(), dimension: 8, metric: "cosine".to_string() }),
        Vec::new(),
    );
    assert_eq!(embedding_reference(Some(&existing), Some(&spec), None), "qwen/v4");
    assert_eq!(embedding_reference(Some(&existing), None, Some("qwen/x")), "local/m");
    assert_eq!(embedding_reference(None, None, Some("  qwen/x ")), "qwen/x");
    assert_eq!(embedding_reference(None, None, Some("   ")), "local/potion-code-16m-v2");
    assert_eq!(embedding_reference(None, None, None), "local/potion-code-16m-v2");
}

#[test]
fn an_index_built_with_another_model_is_refused() {
    let existing = manifest(
        Some(WorkspaceIndexEmbedding { provider: "local".to_string(), model: "m".to_string(), dimension: 8, metric: "cosine".to_string() }),
        Vec::new(),
    );
    assert!(assert_embedding_compatible(Some(&existing), &info("local", "m")).is_ok());
    let error = assert_embedding_compatible(Some(&existing), &info("local", "other")).expect_err("different model");
    assert_eq!(error.message(), "invalid input: existing index uses a different embedding model; rebuild the index");
    assert!(assert_embedding_compatible(None, &info("local", "other")).is_ok());
}

#[test]
fn the_first_non_blank_environment_key_wins() {
    assert_eq!(environment_api_key(&vec![None, Some("  ".to_string()), Some(" key ".to_string())]), Some("key".to_string()));
    assert_eq!(environment_api_key(&vec![None]), None);
}

#[test]
fn model_requests_keep_local_and_remote_settings_apart() {
    let existing = manifest(None, Vec::new());
    let (reference, options) = model_request(Some(&existing), None, Some("qwen/v4"), Some("env".to_string())).expect("request");
    assert_eq!(reference, "qwen/v4");
    assert_eq!(options.api_key, Some("stored".to_string()));
    assert_eq!(options.device, None);
    let (local, local_options) = model_request(None, None, None, Some("env".to_string())).expect("request");
    assert_eq!(local, "local/potion-code-16m-v2");
    assert_eq!(local_options.api_key, None);
    assert_eq!(local_options.device, Some(Device::Auto));
    let pinned = EmbeddingModelSpec { reference: "qwen/v4".to_string(), revision: Some("r1".to_string()), cache_dir: None, endpoint: None, device: Device::Auto };
    assert!(model_request(None, Some(&pinned), None, None).is_err());
}

#[test]
fn relative_roots_resolve_against_the_workspace() {
    let roots = resolve_root_paths(
        "/repo",
        None,
        &request(vec![RootSpec { path: "src".to_string(), recursive: false, discovery: DiscoveryOptions::new() }]),
    );
    assert_eq!(roots.len(), 1);
    assert_eq!(roots[0].path, "/repo/src");
    assert!(!roots[0].recursive);
    let whole = resolve_root_paths("/repo", None, &request(Vec::new()));
    assert_eq!(whole[0].path, "/repo");
    assert!(whole[0].recursive);
    let recorded = manifest(None, vec![RootSpec { path: "/repo/lib".to_string(), recursive: true, discovery: DiscoveryOptions::new() }]);
    assert_eq!(resolve_root_paths("/repo", Some(&recorded), &request(Vec::new()))[0].path, "/repo/lib");
}

#[test]
fn model_errors_become_backend_failures() {
    let error = ModelError::coded("CODE", "broke", Some("model=x".to_string()));
    assert_eq!(model_error(&error).message(), "models failed: CODE: broke (model=x)");
    assert_eq!(model_error(&ModelError::uncoded("plain")).message(), "models failed: plain");
}

#[test]
fn suggestions_follow_the_index_policy() {
    assert_eq!(workspace_suggestion(IndexPolicy::Disabled, true).as_deref(), Some("indexing is disabled for this workspace"));
    assert_eq!(workspace_suggestion(IndexPolicy::Enabled, false).as_deref(), Some("workspace manifest exists but index storage is missing"));
    assert_eq!(workspace_suggestion(IndexPolicy::Enabled, true), None);
}

fn recorded_local_model() -> WorkspaceManifest {
    manifest(
        Some(WorkspaceIndexEmbedding { provider: "local".to_string(), model: "m".to_string(), dimension: 8, metric: "cosine".to_string() }),
        vec![RootSpec { path: "/repo/lib".to_string(), recursive: true, discovery: DiscoveryOptions::new() }],
    )
}

#[test]
fn an_update_keeps_the_recorded_identity_and_does_not_reset() {
    let existing = recorded_local_model();
    let plan = plan_index(Some(&existing), &request(Vec::new()), "/repo", &info("local", "m"), "fresh".to_string(), 99).expect("plan");
    assert!(!plan.reset);
    assert_eq!(plan.manifest.id, "w1");
    assert_eq!(plan.manifest.name, "repo");
    assert_eq!(plan.manifest.created_time, 1);
    assert_eq!(plan.manifest.generation, Some(1));
    assert_eq!(plan.updated_epoch_ms, 99);
    assert_eq!(plan.manifest.index_policy, IndexPolicy::Enabled);
    assert_eq!(plan.manifest.index_version, Some(CURRENT_INDEX_VERSION));
    assert_eq!(plan.manifest.roots.len(), 1);
    assert_eq!(plan.manifest.roots[0].path, "/repo/lib");
    assert_eq!(plan.manifest.embedding_runtime.device, Some(Device::Auto));
    assert_eq!(plan.storage.model, "m");
    assert_eq!(plan.storage.metric, EmbeddingMetric::Cosine);
}

#[test]
fn a_rebuild_starts_a_fresh_manifest_and_resets() {
    let existing = recorded_local_model();
    let mut rebuild = request(Vec::new());
    rebuild.rebuild = true;
    let plan = plan_index(Some(&existing), &rebuild, "/home/me/project", &info("local", "other"), "fresh".to_string(), 99).expect("plan");
    assert!(plan.reset);
    assert_eq!(plan.manifest.id, "fresh");
    assert_eq!(plan.manifest.name, "project");
    assert_eq!(plan.manifest.created_time, 99);
    assert_eq!(plan.manifest.generation, None);
    assert_eq!(plan.manifest.roots[0].path, "/home/me/project");
    let embedding = plan.manifest.embedding.expect("embedding");
    assert_eq!(embedding.model, "other");
    assert_eq!(embedding.metric, "cosine");
}

#[test]
fn an_update_with_another_model_is_refused_and_a_first_run_resets() {
    let existing = recorded_local_model();
    let refused = plan_index(Some(&existing), &request(Vec::new()), "/repo", &info("local", "other"), "fresh".to_string(), 5);
    let error = refused.err().expect("refused");
    assert_eq!(error.message(), "invalid input: existing index uses a different embedding model; rebuild the index");
    let first = plan_index(None, &request(Vec::new()), "/repo", &info("local", "other"), "fresh".to_string(), 5).expect("plan");
    assert!(first.reset);
    assert_eq!(first.manifest.id, "fresh");
    assert_eq!(first.manifest.name, "repo");
}

#[test]
fn an_index_run_reports_indexing_then_manifest_then_close_errors() {
    let failed = || EngineError::invalid_input("indexing");
    let manifest_failed = || EngineError::invalid_input("manifest");
    let close_failed = || EngineError::invalid_input("close");
    let first = finish_index::<u32>(Err(failed()), Err(manifest_failed()), Err(close_failed())).err().expect("error");
    assert_eq!(first.message(), "invalid input: indexing");
    let second = finish_index::<u32>(Ok(3), Err(manifest_failed()), Err(close_failed())).err().expect("error");
    assert_eq!(second.message(), "invalid input: manifest");
    let third = finish_index::<u32>(Ok(3), Ok(()), Err(close_failed())).err().expect("error");
    assert_eq!(third.message(), "invalid input: close");
    assert_eq!(finish_index::<u32>(Ok(3), Ok(()), Ok(())).ok(), Some(3));
}

#[test]
fn disabling_keeps_the_workspace_identity_and_forgets_the_model() {
    let existing = recorded_local_model();
    let disabled = disabled_manifest(Some(&existing), "/repo", "fresh".to_string(), 42);
    assert_eq!(disabled.index_policy, IndexPolicy::Disabled);
    assert_eq!(disabled.id, "w1");
    assert_eq!(disabled.created_time, 1);
    assert_eq!(disabled.embedding, None);
    assert_eq!(disabled.index_version, None);
    assert_eq!(disabled.generation, None);
    assert_eq!(disabled.roots[0].path, "/repo/lib");
    assert_eq!(disabled.embedding_runtime.api_key.as_deref(), Some("stored"));
    let fresh = disabled_manifest(None, "/home/me/project", "fresh".to_string(), 42);
    assert_eq!(fresh.id, "fresh");
    assert_eq!(fresh.name, "project");
    assert_eq!(fresh.created_time, 42);
    assert_eq!(fresh.roots.len(), 1);
    assert_eq!(fresh.roots[0].path, "/home/me/project");
    assert!(fresh.roots[0].recursive);
    assert_eq!(fresh.embedding_runtime.api_key, None);
}
