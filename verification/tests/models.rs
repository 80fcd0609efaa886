use zvec_grep::common::{Content, EmbeddingInputKind, EmbeddingMetric, ImageContent, ImageFormat};
use zvec_grep::models::{validate_contents, validate_result, EmbeddingModelInfo, EmbeddingModelLimits, EmbeddingResult, ModelError};

fn fixture_info() -> EmbeddingModelInfo {
    EmbeddingModelInfo {
        reference: "test/stub".to_string(),
        provider: "test".to_string(),
        name: "stub".to_string(),
        dimension: 2,
        metric: EmbeddingMetric::Cosine,
        endpoint: None,
        default_concurrency: Some(2),
        input_kinds: vec![EmbeddingInputKind::Text, EmbeddingInputKind::Image],
        limits: EmbeddingModelLimits { max_batch_size: 2, max_input_tokens: None, max_image_bytes: Some(3) },
    }
}

fn assert_error_code(result: Result<(), ModelError>, expected: &'static str) {
    let error = result.expect_err("validation should reject the fixture");
    assert_eq!(error.code(), Some(expected));
}

fn text(value: &str) -> Content {
    Content::Text(value.to_string())
}

fn image(data: Vec<u8>) -> Content {
    Content::Image(ImageContent { data, format: ImageFormat::Png })
}

fn bits(values: &[f32]) -> Vec<u32> {
    values.iter().map(|value| value.to_bits()).collect()
}

#[test]
fn validates_all_representable_input_failures_from_the_typescript_base_class() {
    let mut info = fixture_info();

    assert_error_code(validate_contents(&info, &[]), "ZVEC_GREP.ENGINE.MODELS.EMBEDDING_EMPTY_INPUT");
    assert_error_code(
        validate_contents(&info, &[text("one"), text("two"), text("three")]),
        "ZVEC_GREP.ENGINE.MODELS.EMBEDDING_BATCH_TOO_LARGE",
    );
    assert_error_code(validate_contents(&info, &[text("  ")]), "ZVEC_GREP.ENGINE.MODELS.EMBEDDING_EMPTY_TEXT");
    assert_error_code(validate_contents(&info, &[image(Vec::new())]), "ZVEC_GREP.ENGINE.MODELS.EMBEDDING_EMPTY_IMAGE");
    assert_error_code(validate_contents(&info, &[image(vec![1, 2, 3, 4])]), "ZVEC_GREP.ENGINE.MODELS.EMBEDDING_IMAGE_TOO_LARGE");

    info.input_kinds = vec![EmbeddingInputKind::Text];
    assert_error_code(validate_contents(&info, &[image(vec![1])]), "ZVEC_GREP.ENGINE.MODELS.EMBEDDING_UNSUPPORTED_CONTENT");
}

#[test]
fn validates_all_representable_provider_output_failures() {
    let info = fixture_info();

    assert_error_code(
        validate_result(&info, 1, &EmbeddingResult { vectors: Vec::new(), truncated: Vec::new() }),
        "ZVEC_GREP.ENGINE.MODELS.EMBEDDING_VECTOR_COUNT_MISMATCH",
    );
    assert_error_code(
        validate_result(&info, 1, &EmbeddingResult { vectors: vec![bits(&[1.0])], truncated: Vec::new() }),
        "ZVEC_GREP.ENGINE.MODELS.EMBEDDING_DIMENSION_MISMATCH",
    );
    assert_error_code(
        validate_result(&info, 1, &EmbeddingResult { vectors: vec![bits(&[1.0, f32::NAN])], truncated: Vec::new() }),
        "ZVEC_GREP.ENGINE.MODELS.EMBEDDING_NON_FINITE_VECTOR_VALUE",
    );
    for truncated in [vec![1], vec![0, 0]] {
        assert_error_code(
            validate_result(&info, 1, &EmbeddingResult { vectors: vec![bits(&[1.0, 0.0])], truncated }),
            "ZVEC_GREP.ENGINE.MODELS.EMBEDDING_INVALID_TRUNCATED_INPUT_INDEX",
        );
    }
}

#[test]
fn accepts_valid_inputs_and_outputs() {
    let info = fixture_info();
    assert!(validate_contents(&info, &[text("one"), image(vec![1, 2, 3])]).is_ok());
    assert!(validate_result(&info, 2, &EmbeddingResult { vectors: vec![bits(&[1.0, 0.5]), bits(&[0.0, -2.0])], truncated: vec![1] }).is_ok());
}

#[test]
fn infinite_values_are_rejected_like_nan() {
    let info = fixture_info();
    assert_error_code(
        validate_result(&info, 1, &EmbeddingResult { vectors: vec![bits(&[f32::INFINITY, 0.0])], truncated: Vec::new() }),
        "ZVEC_GREP.ENGINE.MODELS.EMBEDDING_NON_FINITE_VECTOR_VALUE",
    );
    assert_error_code(
        validate_result(&info, 1, &EmbeddingResult { vectors: vec![bits(&[0.0, f32::NEG_INFINITY])], truncated: Vec::new() }),
        "ZVEC_GREP.ENGINE.MODELS.EMBEDDING_NON_FINITE_VECTOR_VALUE",
    );
}

#[test]
fn the_first_failing_item_is_reported() {
    let info = fixture_info();
    assert_error_code(validate_contents(&info, &[text("one"), text(" ")]), "ZVEC_GREP.ENGINE.MODELS.EMBEDDING_EMPTY_TEXT");
    assert_error_code(
        validate_contents(&info, &[image(vec![1, 2, 3, 4]), text(" ")]),
        "ZVEC_GREP.ENGINE.MODELS.EMBEDDING_IMAGE_TOO_LARGE",
    );
}
