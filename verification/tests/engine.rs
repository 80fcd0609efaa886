use zvec_grep::common::{EmbeddingInputKind, EmbeddingMetric};
use zvec_grep::context::ContextOptions;
use zvec_grep::domain::InstalledPorts;
use zvec_grep::indexing::{embedding_schema, storage_embedding_schema};
use zvec_grep::models::{EmbeddingModelInfo, EmbeddingModelLimits};
use zvec_grep::domain::{Command, IndexRequest, JobRequest, ResourceBudget};
use zvec_grep::errors::{EngineError, ErrorCode};
use zvec_grep::service::{join_with_newlines, ZvecGrep};

#[test]
fn a_closed_engine_refuses_every_request() {
    let mut engine = ZvecGrep::new();
    assert!(!engine.is_closed());
    let mut options = ContextOptions::new();
    options.rg = true;
    options.query = Some("needle".to_string());
    let search = engine.plan_context(options, "/workspace".to_string()).expect("open engine plans");
    assert_eq!(search.request.patterns, vec!["needle".to_string()]);
    assert_eq!(search.request.root, Some("/workspace".to_string()));
    assert_eq!(search.query, "needle");
    engine.close();
    assert!(engine.is_closed());
    let mut again = ContextOptions::new();
    again.rg = true;
    again.query = Some("needle".to_string());
    assert_eq!(engine.plan_context(again, "/workspace".to_string()).err(), Some(EngineError::Closed));
}

#[test]
fn context_without_rg_is_unavailable_and_extra_args_are_refused() {
    let engine = ZvecGrep::new();
    let error = engine.plan_context(ContextOptions::new(), "/w".to_string()).expect_err("indexed context");
    assert_eq!(error.code(), ErrorCode::CapabilityUnavailable);
    assert_eq!(error.message(), "capability unavailable: context");
    let mut options = ContextOptions::new();
    options.rg = true;
    options.query = Some("x".to_string());
    options.rg_options.extra_args = vec!["--pcre2".to_string()];
    let refused = engine.plan_context(options, "/w".to_string()).expect_err("extra args");
    assert_eq!(refused.code(), ErrorCode::InvalidInput);
}

#[test]
fn queries_are_joined_in_order() {
    let mut options = ContextOptions::new();
    options.rg = true;
    options.query = Some("first".to_string());
    options.queries = vec!["second".to_string(), "third".to_string()];
    let search = ZvecGrep::new().plan_context(options, "/w".to_string()).expect("plan");
    assert_eq!(search.request.patterns, vec!["first".to_string(), "second".to_string(), "third".to_string()]);
    assert_eq!(search.query, "first\nsecond\nthird");
    assert_eq!(join_with_newlines(&Vec::new()), "");
}

#[test]
fn resource_budgets_must_be_positive() {
    let budget = ResourceBudget::with_processors(4);
    assert_eq!(budget.max_concurrent_operations, 4);
    assert_eq!(budget.max_blocking_tasks, 8);
    assert!(budget.validate().is_ok());
    let small = ResourceBudget::with_processors(1);
    assert_eq!(small.max_concurrent_operations, 2);
    assert_eq!(small.max_blocking_tasks, 2);
    let mut zero = ResourceBudget::with_processors(2);
    zero.max_cpu_tasks = 0;
    assert_eq!(
        zero.validate().expect_err("zero budget").message(),
        "invalid input: resource budget max_cpu_tasks must be greater than zero"
    );
    let mut background = ResourceBudget::with_processors(2);
    background.max_background_jobs = 0;
    assert!(background.validate().is_ok());
}

#[test]
fn commands_name_their_capability() {
    let index = Command::Index(IndexRequest {
        root: None,
        roots: Vec::new(),
        rebuild: false,
        reset_paths: false,
        changes: Vec::new(),
        discovery: zvec_grep::common::DiscoveryOptions::new(),
        embedding: None,
        embedding_concurrency: None,
        wait: false,
        debug: false,
    });
    assert_eq!(index.capability(), "index");
    assert_eq!(Command::Job(JobRequest {}).capability(), "job");
}

#[test]
fn installed_ports_list_their_capabilities_in_order() {
    let mut ports = InstalledPorts::new();
    assert!(ports.capabilities().is_empty());
    assert_eq!(ports.lexical().err(), Some(EngineError::CapabilityUnavailable { capability: "lexical_search".to_string() }));
    ports.clock = true;
    ports.lexical = true;
    ports.storage = true;
    assert_eq!(ports.capabilities(), vec!["lexical_search", "storage", "clock"]);
    assert!(ports.lexical().is_ok());
}

#[test]
fn embedding_schemas_follow_the_model() {
    let info = EmbeddingModelInfo {
        reference: "qwen/v4".to_string(),
        provider: "qwen".to_string(),
        name: "text-embedding-v4".to_string(),
        dimension: 1024,
        metric: EmbeddingMetric::DotProduct,
        endpoint: None,
        default_concurrency: None,
        input_kinds: vec![EmbeddingInputKind::Text],
        limits: EmbeddingModelLimits { max_batch_size: 10, max_input_tokens: Some(8192), max_image_bytes: None },
    };
    let manifest = embedding_schema(&info);
    assert_eq!(manifest.provider, "qwen");
    assert_eq!(manifest.model, "text-embedding-v4");
    assert_eq!(manifest.dimension, 1024);
    assert_eq!(manifest.metric, "dot");
    let storage = storage_embedding_schema(&info);
    assert_eq!(storage.metric, EmbeddingMetric::DotProduct);
    assert_eq!(storage.dimension, 1024);
}

fn index_request() -> IndexRequest {
    IndexRequest {
        root: None,
        roots: Vec::new(),
        rebuild: false,
        reset_paths: false,
        changes: Vec::new(),
        discovery: zvec_grep::common::DiscoveryOptions::new(),
        embedding: None,
        embedding_concurrency: None,
        wait: false,
        debug: false,
    }
}

fn local_model() -> EmbeddingModelInfo {
    EmbeddingModelInfo {
        reference: "local/m".to_string(),
        provider: "local".to_string(),
        name: "m".to_string(),
        dimension: 4,
        metric: EmbeddingMetric::Cosine,
        endpoint: None,
        default_concurrency: None,
        input_kinds: vec![EmbeddingInputKind::Text],
        limits: EmbeddingModelLimits { max_batch_size: 1, max_input_tokens: None, max_image_bytes: None },
    }
}

#[test]
fn a_closed_engine_refuses_index_operations_and_closing_twice_is_harmless() {
    let mut engine = ZvecGrep::new();
    assert_eq!(engine.ensure_open(), Ok(()));
    assert_eq!(engine.drop_index(false), Ok(false));
    assert_eq!(engine.drop_index(true), Ok(true));
    let plan = engine.index(None, &index_request(), "/repo", &local_model(), "id".to_string(), 7).expect("open engine plans");
    assert!(plan.reset);
    let disabled = engine.disable_index(None, "/repo", "id".to_string(), 7).expect("open engine disables");
    assert_eq!(disabled.id, "id");
    engine.close();
    engine.close();
    assert!(engine.is_closed());
    assert_eq!(engine.ensure_open(), Err(EngineError::Closed));
    assert_eq!(engine.drop_index(true), Err(EngineError::Closed));
    assert_eq!(engine.index(None, &index_request(), "/repo", &local_model(), "id".to_string(), 7).err(), Some(EngineError::Closed));
    assert_eq!(engine.disable_index(None, "/repo", "id".to_string(), 7).err(), Some(EngineError::Closed));
}
