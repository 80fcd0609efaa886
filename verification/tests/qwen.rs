use zvec_grep::common::{Content, EmbeddingMetric, ImageContent, ImageFormat};
use zvec_grep::models::CreateEmbeddingModelOptions;
use zvec_grep::qwen::{
    bytes_to_base64, MultimodalEmbeddingItem, MultimodalResponse, ProviderErrorBody, ProviderErrorFields, QwenConfig,
    QwenEmbeddingModel, RequestPart, TextEmbeddingItem, TextResponse,
};

fn config(kind: &str, model: &str, dimension: usize) -> QwenConfig {
    QwenConfig {
        kind: kind.to_string(),
        reference: "qwen/test".to_string(),
        provider: "qwen".to_string(),
        model: model.to_string(),
        dimension,
        metric: EmbeddingMetric::Cosine,
        default_endpoint: "https://default.test/embed".to_string(),
        max_batch_size: 20,
        max_input_tokens: 512,
        max_image_bytes: Some(1024),
    }
}

fn options() -> CreateEmbeddingModelOptions {
    CreateEmbeddingModelOptions {
        api_key: Some(" secret ".to_string()),
        endpoint: Some(" https://example.test/embed ".to_string()),
        model_cache_dir: None,
        device: None,
    }
}

fn no_error() -> ProviderErrorBody {
    ProviderErrorBody { nested: None, code: None, message: None }
}

fn bits(values: &[f32]) -> Vec<u32> {
    values.iter().map(|value| value.to_bits()).collect()
}

#[test]
fn requires_api_key_and_keeps_catalog_endpoint() {
    let empty = CreateEmbeddingModelOptions { api_key: None, endpoint: None, model_cache_dir: None, device: None };
    let error = QwenEmbeddingModel::new(config("text", "qwen3.7-text-embedding", 3), empty).err().expect("missing API key");
    assert_eq!(error.code(), Some("ZVEC_GREP.ENGINE.MODELS.QWEN37_TEXT_EMBEDDING_MISSING_API_KEY"));
    let keyed = CreateEmbeddingModelOptions { api_key: Some("k".to_string()), endpoint: None, model_cache_dir: None, device: None };
    let model = QwenEmbeddingModel::new(config("text", "qwen3.7-text-embedding", 3), keyed).expect("model");
    assert_eq!(model.endpoint, "https://default.test/embed");
}

#[test]
fn text_request_and_index_order_match_main() {
    let model = QwenEmbeddingModel::new(config("text", "text-embedding-v4", 3), options()).expect("model");
    assert_eq!(model.api_key, "secret");
    assert_eq!(model.endpoint, "https://example.test/embed");
    let request = model
        .prepare_request(&[Content::Text("one".to_string()), Content::Text("two".to_string())], false)
        .expect("request");
    assert_eq!(request.model, "text-embedding-v4");
    assert_eq!(request.texts, vec!["one".to_string(), "two".to_string()]);
    assert_eq!(request.dimension, 3);
    assert!(!request.multimodal);
    let body = TextResponse {
        error: no_error(),
        data: Some(vec![
            TextEmbeddingItem { is_object: true, index: Some(1), embedding: Some(bits(&[4.0, 5.0, 6.0])) },
            TextEmbeddingItem { is_object: true, index: Some(0), embedding: Some(bits(&[1.0, 2.0, 3.0])) },
        ]),
    };
    let result = model.finish_text(2, 200, None, Ok(body)).expect("embedding");
    assert_eq!(result.vectors, vec![bits(&[1.0, 2.0, 3.0]), bits(&[4.0, 5.0, 6.0])]);
}

#[test]
fn multimodal_request_matches_main_and_rejects_gif() {
    let model = QwenEmbeddingModel::new(config("multimodal", "qwen3-vl-embedding", 2), options()).expect("model");
    let request = model
        .prepare_request(
            &[Content::Text("query".to_string()), Content::Image(ImageContent { data: vec![1, 2, 3], format: ImageFormat::Png })],
            false,
        )
        .expect("request");
    assert!(request.multimodal);
    assert_eq!(request.parts[1], RequestPart::Image("AQID".to_string()));
    let body = MultimodalResponse {
        error: no_error(),
        embeddings: Some(vec![
            MultimodalEmbeddingItem { is_object: true, index: None, text_index: Some(0), embedding: Some(bits(&[1.0, 0.0])) },
            MultimodalEmbeddingItem { is_object: true, index: Some(1), text_index: None, embedding: Some(bits(&[0.0, 1.0])) },
        ]),
    };
    let result = model.finish_multimodal(2, 200, None, Ok(body)).expect("embedding");
    assert_eq!(result.vectors, vec![bits(&[1.0, 0.0]), bits(&[0.0, 1.0])]);

    let error = model
        .prepare_request(&[Content::Image(ImageContent { data: vec![1], format: ImageFormat::Gif })], false)
        .expect_err("GIF must be rejected");
    assert_eq!(error.code(), Some("ZVEC_GREP.ENGINE.MODELS.QWEN3_VL_EMBEDDING_UNSUPPORTED_IMAGE_FORMAT"));
}

#[test]
fn invalid_json_and_provider_errors_match_main() {
    let model = QwenEmbeddingModel::new(config("text", "text-embedding-v4", 3), options()).expect("model");
    let error = model.finish_text(1, 502, None, Err("expected value".to_string())).expect_err("invalid JSON");
    assert_eq!(error.code(), Some("ZVEC_GREP.ENGINE.MODELS.QWEN_TEXT_EMBEDDING_V4_INVALID_JSON"));

    let body = TextResponse {
        error: ProviderErrorBody {
            nested: Some(ProviderErrorFields {
                code: Some("rate_limit".to_string()),
                error_type: Some("throttled".to_string()),
                message: Some("slow down".to_string()),
            }),
            code: None,
            message: None,
        },
        data: None,
    };
    let error = model.finish_text(1, 429, Some(1500), Ok(body)).expect_err("provider error");
    assert_eq!(error.code(), Some("ZVEC_GREP.ENGINE.MODELS.QWEN_TEXT_EMBEDDING_V4_API_ERROR"));
    let context = error.context().expect("provider context");
    assert!(context.contains("status=429 retryAfterMs=1500"));
    assert!(context.contains("providerCode=rate_limit"));
    assert!(context.contains("providerType=throttled"));
    assert!(context.contains("providerMessage=slow down"));
    assert!(!context.contains("secret"));
}

#[test]
fn cancelled_requests_are_refused_before_sending() {
    let model = QwenEmbeddingModel::new(config("text", "text-embedding-v4", 3), options()).expect("model");
    let error = model.prepare_request(&[Content::Text("one".to_string())], true).expect_err("cancelled");
    assert_eq!(error.message(), "Embedding request was cancelled.");
}

#[test]
fn base64_encodes_with_padding() {
    assert_eq!(bytes_to_base64(&[1, 2, 3]), "AQID");
    assert_eq!(bytes_to_base64(b"ab"), "YWI=");
    assert_eq!(bytes_to_base64(b"a"), "YQ==");
    assert_eq!(bytes_to_base64(b""), "");
}

#[test]
fn missing_or_duplicate_vectors_are_rejected() {
    let model = QwenEmbeddingModel::new(config("text", "text-embedding-v4", 2), options()).expect("model");
    let body = TextResponse {
        error: no_error(),
        data: Some(vec![TextEmbeddingItem { is_object: true, index: Some(0), embedding: Some(bits(&[1.0, 2.0])) }]),
    };
    assert!(model.finish_text(2, 200, None, Ok(body)).is_err());
    let out_of_range = TextResponse {
        error: no_error(),
        data: Some(vec![TextEmbeddingItem { is_object: true, index: Some(5), embedding: Some(bits(&[1.0, 2.0])) }]),
    };
    assert!(model.finish_text(1, 200, None, Ok(out_of_range)).is_err());
}
