//! The Qwen remote embedding models: configuration checks, request payloads, and how a
//! provider response becomes vectors or a coded error.
use vstd::prelude::*;

use crate::common::{Content, EmbeddingInputKind, EmbeddingMetric, ImageFormat};
use crate::models::{
    coded_spec, CreateEmbeddingModelOptions, EmbeddingModelInfo, EmbeddingModelLimits, ModelError,
    ModelErrorModel,
};
use crate::text::{append_str, decimal, str_eq, string_of};

verus! {

/// The most images one multimodal request may carry.
pub const MAX_MULTIMODAL_IMAGES: usize = 10;
/// The request timeout, in milliseconds.
pub const REMOTE_TIMEOUT_MS: u64 = 60000;

/// A Qwen model from the model catalog.
#[derive(Debug, PartialEq, Eq)]
pub struct QwenConfig {
    pub kind: String,
    pub reference: String,
    pub provider: String,
    pub model: String,
    pub dimension: usize,
    pub metric: EmbeddingMetric,
    pub default_endpoint: String,
    pub max_batch_size: usize,
    pub max_input_tokens: usize,
    pub max_image_bytes: Option<usize>,
}

/// The display name and error-code family of a Qwen model.
pub open spec fn model_spec(model: Seq<char>) -> (Seq<char>, Seq<char>) {
    if model == "text-embedding-v4"@ {
        ("Qwen text-embedding-v4"@, "v4"@)
    } else if model == "qwen3.7-text-embedding"@ {
        ("Qwen3.7 text embedding"@, "v37"@)
    } else {
        ("Qwen3 VL embedding"@, "vl"@)
    }
}

/// The display name and error-code family of a Qwen model.
pub fn model_names(model: &str) -> (r: (&'static str, &'static str))
    ensures
        r.0@ == model_spec(model@).0,
        r.1@ == model_spec(model@).1,
{
    if str_eq(model, "text-embedding-v4") {
        ("Qwen text-embedding-v4", "v4")
    } else if str_eq(model, "qwen3.7-text-embedding") {
        ("Qwen3.7 text embedding", "v37")
    } else {
        ("Qwen3 VL embedding", "vl")
    }
}

/// An error code of a model family: `QWEN_TEXT_EMBEDDING_V4_`, `QWEN37_TEXT_EMBEDDING_` or
/// `QWEN3_VL_EMBEDDING_` followed by `suffix`.
pub open spec fn family_code(prefix: Seq<char>, suffix: Seq<char>) -> Seq<char> {
    "ZVEC_GREP.ENGINE.MODELS."@ + (if prefix == "v4"@ {
        "QWEN_TEXT_EMBEDDING_V4_"@
    } else if prefix == "v37"@ {
        "QWEN37_TEXT_EMBEDDING_"@
    } else {
        "QWEN3_VL_EMBEDDING_"@
    }) + suffix
}

fn family_code_string(prefix: &str, suffix: &str) -> (s: String)
    ensures
        s@ == family_code(prefix@, suffix@),
{
    let mut out: Vec<char> = Vec::new();
    append_str(&mut out, "ZVEC_GREP.ENGINE.MODELS.");
    if str_eq(prefix, "v4") {
        append_str(&mut out, "QWEN_TEXT_EMBEDDING_V4_");
    } else if str_eq(prefix, "v37") {
        append_str(&mut out, "QWEN37_TEXT_EMBEDDING_");
    } else {
        append_str(&mut out, "QWEN3_VL_EMBEDDING_");
    }
    append_str(&mut out, suffix);
    assert(out@ =~= family_code(prefix@, suffix@));
    string_of(&out)
}

/// The code of a missing API key.
pub fn missing_api_key_code(prefix: &str) -> (s: String)
    ensures
        s@ == family_code(prefix@, "MISSING_API_KEY"@),
{
    family_code_string(prefix, "MISSING_API_KEY")
}

/// The code of a missing endpoint.
pub fn missing_endpoint_code(prefix: &str) -> (s: String)
    ensures
        s@ == family_code(prefix@, "MISSING_ENDPOINT"@),
{
    family_code_string(prefix, "MISSING_ENDPOINT")
}

/// The code of a failed request.
pub fn request_failed_code(prefix: &str) -> (s: String)
    ensures
        s@ == family_code(prefix@, "REQUEST_FAILED"@),
{
    family_code_string(prefix, "REQUEST_FAILED")
}

/// The codes of a response's failures.
#[derive(Debug, PartialEq, Eq)]
pub struct ErrorCodes {
    pub invalid_json: String,
    pub api_error: String,
    pub missing_data: String,
    pub invalid_vector: String,
}

/// The response error codes of a text model: those of `text-embedding-v4`, else those of
/// the Qwen3.7 text model.
pub fn text_error_codes(model: &str) -> (c: ErrorCodes)
    ensures
        c.invalid_json@ == family_code(if model@ == "text-embedding-v4"@ { "v4"@ } else { "v37"@ }, "INVALID_JSON"@),
        c.api_error@ == family_code(if model@ == "text-embedding-v4"@ { "v4"@ } else { "v37"@ }, "API_ERROR"@),
        c.missing_data@ == family_code(if model@ == "text-embedding-v4"@ { "v4"@ } else { "v37"@ }, "MISSING_DATA"@),
        c.invalid_vector@ == family_code(if model@ == "text-embedding-v4"@ { "v4"@ } else { "v37"@ }, "INVALID_VECTOR"@),
{
    let prefix = if str_eq(model, "text-embedding-v4") { "v4" } else { "v37" };
    ErrorCodes {
        invalid_json: family_code_string(prefix, "INVALID_JSON"),
        api_error: family_code_string(prefix, "API_ERROR"),
        missing_data: family_code_string(prefix, "MISSING_DATA"),
        invalid_vector: family_code_string(prefix, "INVALID_VECTOR"),
    }
}

/// The response error codes of the multimodal model.
pub fn multimodal_error_codes() -> (c: ErrorCodes)
    ensures
        c.invalid_json@ == family_code("vl"@, "INVALID_JSON"@),
        c.api_error@ == family_code("vl"@, "API_ERROR"@),
        c.missing_data@ == family_code("vl"@, "MISSING_EMBEDDINGS"@),
        c.invalid_vector@ == family_code("vl"@, "INVALID_VECTOR"@),
{
    ErrorCodes {
        invalid_json: family_code_string("vl", "INVALID_JSON"),
        api_error: family_code_string("vl", "API_ERROR"),
        missing_data: family_code_string("vl", "MISSING_EMBEDDINGS"),
        invalid_vector: family_code_string("vl", "INVALID_VECTOR"),
    }
}

/// A ready Qwen model: its description, its trimmed API key and its endpoint.
#[derive(Debug, PartialEq, Eq)]
pub struct QwenEmbeddingModel {
    pub entry: QwenConfig,
    pub info: EmbeddingModelInfo,
    pub api_key: String,
    pub endpoint: String,
}

/// The hint of a missing API key.
pub open spec fn api_key_hint() -> Seq<char> {
    "\nhint=Pass --api-key, set ZVEC_GREP_API_KEY, or configure the qwen provider API key."@
}

fn trimmed(s: &str) -> (out: String)
    ensures
        out@ == crate::text::trim(s@),
{
    let c = crate::text::chars_of(s);
    let t = crate::text::trim_chars(c.as_slice());
    string_of(&t)
}

impl QwenEmbeddingModel {
    /// Sets up a Qwen model: the API key (trimmed) must not be empty, and neither may the
    /// endpoint (the catalog's default unless one is given, trimmed). Multimodal models take
    /// text and images, the others text only.
    pub fn new(entry: QwenConfig, options: CreateEmbeddingModelOptions) -> (r: Result<QwenEmbeddingModel, ModelError>)
        ensures
            ({
                let (name, prefix) = model_spec(entry.model@);
                let key = crate::text::trim(match options.api_key { Some(k) => k@, None => seq![] });
                let endpoint = match options.endpoint { Some(e) => crate::text::trim(e@), None => entry.default_endpoint@ };
                if key.len() == 0 {
                    r matches Err(e) && e@ == coded_spec(family_code(prefix, "MISSING_API_KEY"@), name + " model requires an API key"@,
                        Some("model="@ + entry.reference@ + api_key_hint()))
                } else if endpoint.len() == 0 {
                    r matches Err(e) && e@ == coded_spec(family_code(prefix, "MISSING_ENDPOINT"@), name + " model requires an endpoint"@,
                        Some("model="@ + entry.reference@))
                } else {
                    r matches Ok(m) && {
                        &&& m.api_key@ == key
                        &&& m.endpoint@ == endpoint
                        &&& m.info.reference@ == entry.reference@
                        &&& m.info.provider@ == entry.provider@
                        &&& m.info.name@ == entry.model@
                        &&& m.info.dimension == entry.dimension
                        &&& m.info.metric == entry.metric
                        &&& m.info.endpoint.deep_view() == Some(endpoint)
                        &&& m.info.default_concurrency is None
                        &&& m.info.input_kinds@ == (if entry.kind@ == "multimodal"@ {
                            seq![EmbeddingInputKind::Text, EmbeddingInputKind::Image]
                        } else {
                            seq![EmbeddingInputKind::Text]
                        })
                        &&& m.info.limits.max_batch_size == entry.max_batch_size
                        &&& m.info.limits.max_input_tokens == Some(entry.max_input_tokens)
                        &&& m.info.limits.max_image_bytes == entry.max_image_bytes
                        &&& m.entry == entry
                    }
                }
            }),
    {
        let (name, prefix) = model_names(entry.model.as_str());
        let api_key = match &options.api_key {
            Some(k) => trimmed(k.as_str()),
            None => {
                let e = String::new();
                let t = trimmed(e.as_str());
                t
            },
        };
        if api_key.as_str().is_empty() {
            let mut msg: Vec<char> = Vec::new();
            append_str(&mut msg, name);
            append_str(&mut msg, " model requires an API key");
            let mut ctx: Vec<char> = Vec::new();
            append_str(&mut ctx, "model=");
            append_str(&mut ctx, entry.reference.as_str());
            append_str(&mut ctx, "\nhint=Pass --api-key, set ZVEC_GREP_API_KEY, or configure the qwen provider API key.");
            let code = missing_api_key_code(prefix);
            let m = string_of(&msg);
            return Err(ModelError::coded(code.as_str(), m.as_str(), Some(string_of(&ctx))));
        }
        let endpoint = match &options.endpoint {
            Some(e) => trimmed(e.as_str()),
            None => entry.default_endpoint.clone(),
        };
        if endpoint.as_str().is_empty() {
            let mut msg: Vec<char> = Vec::new();
            append_str(&mut msg, name);
            append_str(&mut msg, " model requires an endpoint");
            let mut ctx: Vec<char> = Vec::new();
            append_str(&mut ctx, "model=");
            append_str(&mut ctx, entry.reference.as_str());
            let code = missing_endpoint_code(prefix);
            let m = string_of(&msg);
            return Err(ModelError::coded(code.as_str(), m.as_str(), Some(string_of(&ctx))));
        }
        let mut input_kinds: Vec<EmbeddingInputKind> = Vec::new();
        input_kinds.push(EmbeddingInputKind::Text);
        if str_eq(entry.kind.as_str(), "multimodal") {
            input_kinds.push(EmbeddingInputKind::Image);
        }
        let info = EmbeddingModelInfo {
            reference: entry.reference.clone(),
            provider: entry.provider.clone(),
            name: entry.model.clone(),
            dimension: entry.dimension,
            metric: entry.metric,
            endpoint: Some(endpoint.clone()),
            default_concurrency: None,
            input_kinds,
            limits: EmbeddingModelLimits {
                max_batch_size: entry.max_batch_size,
                max_input_tokens: Some(entry.max_input_tokens),
                max_image_bytes: entry.max_image_bytes,
            },
        };
        assert(info.input_kinds@ =~= (if entry.kind@ == "multimodal"@ {
            seq![EmbeddingInputKind::Text, EmbeddingInputKind::Image]
        } else {
            seq![EmbeddingInputKind::Text]
        }));
        Ok(QwenEmbeddingModel { entry, info, api_key, endpoint })
    }
}

/// The name of an image format.
pub open spec fn image_format_name_spec(f: ImageFormat) -> Seq<char> {
    match f {
        ImageFormat::Png => "png"@,
        ImageFormat::Jpeg => "jpeg"@,
        ImageFormat::Webp => "webp"@,
        ImageFormat::Gif => "gif"@,
    }
}

/// The name of an image format.
pub fn image_format_name(f: ImageFormat) -> (s: &'static str)
    ensures
        s@ == image_format_name_spec(f),
{
    match f {
        ImageFormat::Png => "png",
        ImageFormat::Jpeg => "jpeg",
        ImageFormat::Webp => "webp",
        ImageFormat::Gif => "gif",
    }
}

/// The number of images among the first `k` contents.
pub open spec fn image_count(cs: Seq<Content>, k: int) -> nat
    decreases k,
{
    if k <= 0 || k > cs.len() {
        0
    } else {
        image_count(cs, k - 1) + (if cs[k - 1] is Image { 1nat } else { 0nat })
    }
}

/// The first image (from `k` on) in a format the multimodal model cannot read.
pub open spec fn first_bad_format(cs: Seq<Content>, k: int) -> Option<(nat, ImageFormat)>
    decreases cs.len() - k,
{
    if k < 0 || k >= cs.len() {
        None
    } else {
        match cs[k] {
            Content::Image(img) => if img.format is Gif { Some((k as nat, img.format)) } else { first_bad_format(cs, k + 1) },
            _ => first_bad_format(cs, k + 1),
        }
    }
}

/// Why the multimodal model refuses a batch, if it does: an image it cannot read (only
/// JPEG, PNG and WebP are accepted), or more images than it takes.
pub open spec fn multimodal_contents_error(model: Seq<char>, cs: Seq<Content>) -> Option<ModelErrorModel> {
    match first_bad_format(cs, 0) {
        Some((i, f)) => Some(coded_spec("ZVEC_GREP.ENGINE.MODELS.QWEN3_VL_EMBEDDING_UNSUPPORTED_IMAGE_FORMAT"@,
            "Qwen3 VL embedding model does not support image format"@,
            Some("model="@ + model + " index="@ + decimal(i) + " format="@ + image_format_name_spec(f)))),
        None => if image_count(cs, cs.len() as int) > MAX_MULTIMODAL_IMAGES {
            Some(coded_spec("ZVEC_GREP.ENGINE.MODELS.QWEN3_VL_EMBEDDING_TOO_MANY_IMAGES"@,
                "Qwen3 VL embedding image count exceeds model limit"@,
                Some("model="@ + model + " imageCount="@ + decimal(image_count(cs, cs.len() as int)) + " maxImageCount=10"@)))
        } else {
            None
        },
    }
}

fn push_number(out: &mut Vec<char>, n: u64)
    ensures
        final(out)@ == old(out)@ + decimal(n as nat),
{
    let s = crate::text::u64_to_string(n);
    append_str(out, s.as_str());
}

/// Checks the contents of a multimodal request (see [`multimodal_contents_error`]).
pub fn validate_multimodal_contents(model: &str, contents: &[Content]) -> (r: Result<(), ModelError>)
    ensures
        match r {
            Ok(()) => multimodal_contents_error(model@, contents@) is None,
            Err(e) => multimodal_contents_error(model@, contents@) == Some(e@),
        },
{
    let mut count: usize = 0;
    let mut i: usize = 0;
    while i < contents.len()
        invariant
            0 <= i <= contents@.len(),
            count == image_count(contents@, i as int),
            count <= i,
            first_bad_format(contents@, 0) == first_bad_format(contents@, i as int),
        decreases contents@.len() - i,
    {
        match &contents[i] {
            Content::Image(img) => {
                count += 1;
                let bad = match img.format {
                    ImageFormat::Gif => true,
                    _ => false,
                };
                if bad {
                    let mut ctx: Vec<char> = Vec::new();
                    append_str(&mut ctx, "model=");
                    append_str(&mut ctx, model);
                    append_str(&mut ctx, " index=");
                    push_number(&mut ctx, i as u64);
                    append_str(&mut ctx, " format=");
                    append_str(&mut ctx, image_format_name(img.format));
                    return Err(ModelError::coded("ZVEC_GREP.ENGINE.MODELS.QWEN3_VL_EMBEDDING_UNSUPPORTED_IMAGE_FORMAT",
                        "Qwen3 VL embedding model does not support image format", Some(string_of(&ctx))));
                }
            },
            _ => {},
        }
        i += 1;
    }
    if count > MAX_MULTIMODAL_IMAGES {
        let mut ctx: Vec<char> = Vec::new();
        append_str(&mut ctx, "model=");
        append_str(&mut ctx, model);
        append_str(&mut ctx, " imageCount=");
        push_number(&mut ctx, count as u64);
        append_str(&mut ctx, " maxImageCount=10");
        return Err(ModelError::coded("ZVEC_GREP.ENGINE.MODELS.QWEN3_VL_EMBEDDING_TOO_MANY_IMAGES",
            "Qwen3 VL embedding image count exceeds model limit", Some(string_of(&ctx))));
    }
    Ok(())
}

/// The base64 alphabet.
pub open spec fn b64_char(v: nat) -> char {
    if v < 26 {
        ((65 + v) as u8) as char
    } else if v < 52 {
        ((97 + v - 26) as u8) as char
    } else if v < 62 {
        ((48 + v - 52) as u8) as char
    } else if v == 62 {
        '+'
    } else {
        '/'
    }
}

/// Standard base64 with `=` padding, three bytes at a time.
pub open spec fn base64_spec(b: Seq<u8>) -> Seq<char>
    decreases b.len(),
{
    if b.len() == 0 {
        seq![]
    } else if b.len() == 1 {
        seq![b64_char((b[0] / 4) as nat), b64_char(((b[0] % 4) * 16) as nat), '=', '=']
    } else if b.len() == 2 {
        seq![b64_char((b[0] / 4) as nat), b64_char(((b[0] % 4) * 16 + b[1] / 16) as nat),
            b64_char(((b[1] % 16) * 4) as nat), '=']
    } else {
        seq![b64_char((b[0] / 4) as nat), b64_char(((b[0] % 4) * 16 + b[1] / 16) as nat),
            b64_char(((b[1] % 16) * 4 + b[2] / 64) as nat), b64_char((b[2] % 64) as nat)]
            + base64_spec(b.skip(3))
    }
}

fn b64(v: u8) -> (c: char)
    requires
        v < 64,
    ensures
        c == b64_char(v as nat),
{
    if v < 26 {
        (65 + v) as char
    } else if v < 52 {
        (97 + v - 26) as char
    } else if v < 62 {
        (48 + v - 52) as char
    } else if v == 62 {
        '+'
    } else {
        '/'
    }
}

/// Encodes bytes as standard padded base64.
pub fn bytes_to_base64(bytes: &[u8]) -> (s: String)
    ensures
        s@ == base64_spec(bytes@),
{
    let mut out: Vec<char> = Vec::new();
    let mut i: usize = 0;
    assert(bytes@.skip(0) =~= bytes@);
    while i < bytes.len()
        invariant
            0 <= i <= bytes@.len(),
            out@ + base64_spec(bytes@.skip(i as int)) == base64_spec(bytes@),
        decreases bytes@.len() - i,
    {
        let ghost rest = bytes@.skip(i as int);
        let ghost before = out@;
        let first = bytes[i];
        out.push(b64(first / 4));
        if i + 1 >= bytes.len() {
            out.push(b64((first % 4) * 16));
            out.push('=');
            out.push('=');
            assert(out@ =~= before + base64_spec(rest));
            i = bytes.len();
            assert(bytes@.skip(i as int) =~= Seq::<u8>::empty());
        } else {
            let second = bytes[i + 1];
            out.push(b64((first % 4) * 16 + second / 16));
            if i + 2 >= bytes.len() {
                out.push(b64((second % 16) * 4));
                out.push('=');
                assert(out@ =~= before + base64_spec(rest));
                i = bytes.len();
                assert(bytes@.skip(i as int) =~= Seq::<u8>::empty());
            } else {
                let third = bytes[i + 2];
                out.push(b64((second % 16) * 4 + third / 64));
                out.push(b64(third % 64));
                assert(rest.skip(3) =~= bytes@.skip(i + 3));
                assert(out@ + base64_spec(bytes@.skip(i + 3)) =~= before + base64_spec(rest));
                i = i + 3;
            }
        }
    }
    assert(base64_spec(bytes@.skip(i as int)) =~= Seq::<char>::empty());
    string_of(&out)
}

} // verus!

verus! {

/// A signed number in decimal.
pub open spec fn signed_decimal(n: int) -> Seq<char> {
    if n < 0 { "-"@ + decimal((-n) as nat) } else { decimal(n as nat) }
}

fn push_signed(out: &mut Vec<char>, n: i64)
    ensures
        final(out)@ == old(out)@ + signed_decimal(n as int),
{
    if n < 0 {
        let m: u64 = ((-(n + 1)) as u64) + 1;
        append_str(out, "-");
        push_number(out, m);
    } else {
        push_number(out, n as u64);
    }
}

fn text_prefix(model: &str) -> (p: &'static str)
    ensures
        p@ == (if model@ == "text-embedding-v4"@ { "v4"@ } else { "v37"@ }),
{
    if str_eq(model, "text-embedding-v4") { "v4" } else { "v37" }
}

/// The fields of a provider error body: those of its `error` object when it has one, else
/// its top-level `code` and `message` (each only when it is a string).
#[derive(Debug, PartialEq, Eq)]
pub struct ProviderErrorBody {
    pub nested: Option<ProviderErrorFields>,
    pub code: Option<String>,
    pub message: Option<String>,
}

/// The string fields of an `error` object.
#[derive(Debug, PartialEq, Eq)]
pub struct ProviderErrorFields {
    pub code: Option<String>,
    pub error_type: Option<String>,
    pub message: Option<String>,
}

/// A present text, or `unknown`.
pub open spec fn or_unknown(s: Option<Seq<char>>) -> Seq<char> {
    match s {
        Some(v) => v,
        None => "unknown"@,
    }
}

/// The provider's code, type and message.
pub open spec fn provider_fields(b: ProviderErrorBody) -> (Seq<char>, Seq<char>, Seq<char>) {
    match b.nested {
        Some(f) => (or_unknown(f.code.deep_view()), or_unknown(f.error_type.deep_view()), or_unknown(f.message.deep_view())),
        None => (or_unknown(b.code.deep_view()), "unknown"@, or_unknown(b.message.deep_view())),
    }
}

/// The error of a response with a non-success status.
pub open spec fn provider_error_spec(model: Seq<char>, api_error: Seq<char>, status: u16, retry_after_ms: Option<u64>, b: ProviderErrorBody) -> ModelErrorModel {
    let (code, kind, message) = provider_fields(b);
    let retry = match retry_after_ms {
        Some(ms) => " retryAfterMs="@ + decimal(ms as nat),
        None => seq![],
    };
    coded_spec(api_error, model_spec(model).0 + " request returned an error"@,
        Some("model="@ + model + " status="@ + decimal(status as nat) + retry + " providerCode="@ + code
            + " providerType="@ + kind + " providerMessage="@ + message))
}

fn push_or_unknown(out: &mut Vec<char>, s: &Option<String>)
    ensures
        final(out)@ == old(out)@ + or_unknown(s.deep_view()),
{
    match s {
        Some(v) => append_str(out, v.as_str()),
        None => append_str(out, "unknown"),
    }
}

/// The error of a response with a non-success status, naming the provider's code, type
/// and message and, when known, how long to wait before retrying.
pub fn provider_error(model: &str, api_error: &str, status: u16, retry_after_ms: Option<u64>, body: &ProviderErrorBody) -> (e: ModelError)
    ensures
        e@ == provider_error_spec(model@, api_error@, status, retry_after_ms, *body),
{
    let (name, _) = model_names(model);
    let mut msg: Vec<char> = Vec::new();
    append_str(&mut msg, name);
    append_str(&mut msg, " request returned an error");
    let mut ctx: Vec<char> = Vec::new();
    append_str(&mut ctx, "model=");
    append_str(&mut ctx, model);
    append_str(&mut ctx, " status=");
    push_number(&mut ctx, status as u64);
    match retry_after_ms {
        Some(ms) => {
            append_str(&mut ctx, " retryAfterMs=");
            push_number(&mut ctx, ms);
        },
        None => {},
    }
    append_str(&mut ctx, " providerCode=");
    match &body.nested {
        Some(f) => {
            push_or_unknown(&mut ctx, &f.code);
            append_str(&mut ctx, " providerType=");
            push_or_unknown(&mut ctx, &f.error_type);
            append_str(&mut ctx, " providerMessage=");
            push_or_unknown(&mut ctx, &f.message);
        },
        None => {
            push_or_unknown(&mut ctx, &body.code);
            append_str(&mut ctx, " providerType=");
            append_str(&mut ctx, "unknown");
            append_str(&mut ctx, " providerMessage=");
            push_or_unknown(&mut ctx, &body.message);
        },
    }
    proof {
        let (code, kind, message) = provider_fields(*body);
        let retry = match retry_after_ms {
            Some(ms) => " retryAfterMs="@ + decimal(ms as nat),
            None => Seq::<char>::empty(),
        };
        assert(ctx@ =~= "model="@ + model@ + " status="@ + decimal(status as nat) + retry + " providerCode="@ + code
            + " providerType="@ + kind + " providerMessage="@ + message);
    }
    let m = string_of(&msg);
    ModelError::coded(api_error, m.as_str(), Some(string_of(&ctx)))
}

/// The error of a response body that is not JSON.
pub fn invalid_json_error(entry: &QwenConfig, invalid_json: &str, status: u16, cause: &str) -> (e: ModelError)
    ensures
        e@ == (ModelErrorModel {
            cause: Some(cause@),
            ..coded_spec(invalid_json@, model_spec(entry.model@).0 + " response was not valid JSON"@,
                Some("model="@ + entry.reference@ + " status="@ + decimal(status as nat)))
        }),
{
    let (name, _) = model_names(entry.model.as_str());
    let mut msg: Vec<char> = Vec::new();
    append_str(&mut msg, name);
    append_str(&mut msg, " response was not valid JSON");
    let mut ctx: Vec<char> = Vec::new();
    append_str(&mut ctx, "model=");
    append_str(&mut ctx, entry.reference.as_str());
    append_str(&mut ctx, " status=");
    push_number(&mut ctx, status as u64);
    let m = string_of(&msg);
    ModelError::coded(invalid_json, m.as_str(), Some(string_of(&ctx))).with_cause(cause)
}

/// Why a request could not be sent.
#[derive(Debug, PartialEq, Eq)]
pub enum HttpFailure {
    Cancelled,
    Other(String),
}

/// The error of a request that could not be sent: a cancellation, or a failure of the
/// model's family naming the endpoint and the timeout, with the failure as its cause.
pub fn request_error(entry: &QwenConfig, endpoint: &str, failure: HttpFailure) -> (e: ModelError)
    ensures
        failure is Cancelled ==> e@ == (ModelErrorModel { code: None, message: "Embedding request was cancelled."@, context: None, cause: None }),
        failure matches HttpFailure::Other(cause) ==> e@ == (ModelErrorModel {
            cause: Some(cause@),
            ..coded_spec(family_code(model_spec(entry.model@).1, "REQUEST_FAILED"@), model_spec(entry.model@).0 + " request failed"@,
                Some("model="@ + entry.reference@ + " endpoint="@ + endpoint@ + " timeoutMs=60000"@))
        }),
{
    match failure {
        HttpFailure::Cancelled => ModelError::uncoded("Embedding request was cancelled."),
        HttpFailure::Other(cause) => {
            let (name, prefix) = model_names(entry.model.as_str());
            let mut msg: Vec<char> = Vec::new();
            append_str(&mut msg, name);
            append_str(&mut msg, " request failed");
            let mut ctx: Vec<char> = Vec::new();
            append_str(&mut ctx, "model=");
            append_str(&mut ctx, entry.reference.as_str());
            append_str(&mut ctx, " endpoint=");
            append_str(&mut ctx, endpoint);
            append_str(&mut ctx, " timeoutMs=60000");
            let code = request_failed_code(prefix);
            let m = string_of(&msg);
            ModelError::coded(code.as_str(), m.as_str(), Some(string_of(&ctx))).with_cause(cause.as_str())
        },
    }
}

/// Whether an HTTP status is a success (2xx).
pub fn is_success(status: u16) -> (r: bool)
    ensures
        r == (200 <= status < 300),
{
    status >= 200 && status < 300
}

/// One item of a text embedding response, as decoded from JSON: whether it is an object,
/// its integer `index`, and its `embedding` values as single-precision bit patterns (none
/// when it is not an array).
#[derive(Debug, PartialEq, Eq)]
pub struct TextEmbeddingItem {
    pub is_object: bool,
    pub index: Option<i64>,
    pub embedding: Option<Vec<u32>>,
}

/// The error of an item without a usable index.
pub open spec fn invalid_text_index_spec(entry: QwenConfig) -> ModelErrorModel {
    let p = if entry.model@ == "text-embedding-v4"@ { "v4"@ } else { "v37"@ };
    coded_spec(family_code(p, "INVALID_INDEX"@), model_spec(entry.model@).0 + " response included an invalid index"@,
        Some("model="@ + entry.reference@ + " index="@ + "unknown"@))
}

/// The error of an item whose index is outside the inputs.
pub open spec fn text_index_range_spec(entry: QwenConfig, index: int, count: nat) -> ModelErrorModel {
    let p = if entry.model@ == "text-embedding-v4"@ { "v4"@ } else { "v37"@ };
    coded_spec(family_code(p, "INDEX_OUT_OF_RANGE"@), model_spec(entry.model@).0 + " response index was out of range"@,
        Some("model="@ + entry.reference@ + " index="@ + signed_decimal(index) + " inputCount="@ + decimal(count)))
}

/// The error of an item whose embedding is not an array.
pub open spec fn invalid_embedding_spec(entry: QwenConfig, code: Seq<char>, index: nat) -> ModelErrorModel {
    coded_spec(code, model_spec(entry.model@).0 + " response included an invalid embedding"@,
        Some("model="@ + entry.reference@ + " index="@ + decimal(index)))
}

/// The vectors placed so far by the items from `k` on, each at its index (a later item
/// for the same index replaces an earlier one), or the first item's failure.
pub open spec fn place_text_items(entry: QwenConfig, code: Seq<char>, count: nat, items: Seq<TextEmbeddingItem>, k: int, slots: Seq<Option<Seq<u32>>>) -> Result<Seq<Option<Seq<u32>>>, ModelErrorModel>
    decreases items.len() - k,
{
    if k < 0 || k >= items.len() {
        Ok(slots)
    } else {
        let it = items[k];
        if !it.is_object || it.index is None {
            Err(invalid_text_index_spec(entry))
        } else {
            let i = it.index->Some_0 as int;
            if i < 0 || i >= count {
                Err(text_index_range_spec(entry, i, count))
            } else {
                match it.embedding {
                    None => Err(invalid_embedding_spec(entry, code, i as nat)),
                    Some(v) => place_text_items(entry, code, count, items, k + 1, slots.update(i, Some(v@))),
                }
            }
        }
    }
}

/// The index of the first empty slot from `k` on.
pub open spec fn first_empty(slots: Seq<Option<Seq<u32>>>, k: int) -> Option<nat>
    decreases slots.len() - k,
{
    if k < 0 || k >= slots.len() {
        None
    } else if slots[k] is None {
        Some(k as nat)
    } else {
        first_empty(slots, k + 1)
    }
}

/// The vectors of all slots, or the error of the first empty one.
pub open spec fn collect_slots(reference: Seq<char>, slots: Seq<Option<Seq<u32>>>) -> Result<Seq<Seq<u32>>, ModelErrorModel> {
    match first_empty(slots, 0) {
        Some(k) => Err(coded_spec("ZVEC_GREP.ENGINE.MODELS.EMBEDDING_INVALID_VECTOR"@, "Embedding model returned a non-array vector"@,
            Some("model="@ + reference + " vectorIndex="@ + decimal(k)))),
        None => Ok(Seq::new(slots.len(), |k: int| slots[k]->Some_0)),
    }
}

/// Every slot empty.
pub open spec fn empty_slots(count: nat) -> Seq<Option<Seq<u32>>> {
    Seq::new(count, |k: int| None::<Seq<u32>>)
}

/// The view of one slot.
pub open spec fn slot_view(s: Option<Vec<u32>>) -> Option<Seq<u32>> {
    match s {
        Some(v) => Some(v@),
        None => None,
    }
}

/// The views of slots.
pub open spec fn slot_views(slots: Seq<Option<Vec<u32>>>) -> Seq<Option<Seq<u32>>> {
    slots.map_values(|s: Option<Vec<u32>>| slot_view(s))
}

proof fn lemma_no_empty_from(slots: Seq<Option<Seq<u32>>>, k: int)
    requires
        0 <= k <= slots.len(),
        forall|i: int| k <= i < slots.len() ==> slots[i] is Some,
    ensures
        first_empty(slots, k) is None,
    decreases slots.len() - k,
{
    if k < slots.len() {
        lemma_no_empty_from(slots, k + 1);
    }
}

fn collect_vectors(reference: &str, slots: Vec<Option<Vec<u32>>>) -> (r: Result<Vec<Vec<u32>>, ModelError>)
    ensures
        match r {
            Ok(vs) => collect_slots(reference@, slot_views(slots@)) == Ok::<Seq<Seq<u32>>, ModelErrorModel>(crate::models::vectors_view(vs@)),
            Err(e) => collect_slots(reference@, slot_views(slots@)) == Err::<Seq<Seq<u32>>, ModelErrorModel>(e@),
        },
{
    let ghost sv = slot_views(slots@);
    let total = slots.len();
    let mut pending = crate::sort::reversed(slots);
    let mut out: Vec<Vec<u32>> = Vec::new();
    let mut j: usize = 0;
    while pending.len() > 0
        invariant
            sv.len() == total,
            pending@.len() == total - j,
            forall|i: int| 0 <= i < pending@.len() ==> #[trigger] slot_view(pending@[i]) == sv[total - 1 - i],
            out@.len() == j,
            forall|i: int| 0 <= i < j ==> sv[i] == Some(#[trigger] out@[i]@),
            first_empty(sv, 0) == first_empty(sv, j as int),
            sv == slot_views(slots@),
        decreases pending@.len(),
    {
        let s = pending.pop().unwrap();
        assert(slot_view(s) == sv[j as int]);
        match s {
            Some(v) => {
                let ghost old_out = out@;
                out.push(v);
                assert forall|i: int| 0 <= i < j + 1 implies sv[i] == Some(#[trigger] out@[i]@) by {
                    if i < j {
                        assert(out@[i] == old_out[i]);
                    }
                }
            },
            None => {
                assert(first_empty(sv, j as int) == Some(j as nat));
                let mut ctx: Vec<char> = Vec::new();
                append_str(&mut ctx, "model=");
                append_str(&mut ctx, reference);
                append_str(&mut ctx, " vectorIndex=");
                push_number(&mut ctx, j as u64);
                assert(ctx@ =~= "model="@ + reference@ + " vectorIndex="@ + decimal(j as nat));
                return Err(ModelError::coded("ZVEC_GREP.ENGINE.MODELS.EMBEDDING_INVALID_VECTOR",
                    "Embedding model returned a non-array vector", Some(string_of(&ctx))));
            },
        }
        j += 1;
    }
    proof {
        lemma_no_empty_from(sv, total as int);
        assert(crate::models::vectors_view(out@) =~= Seq::new(sv.len(), |k: int| sv[k]->Some_0));
    }
    Ok(out)
}

} // verus!

verus! {

proof fn lemma_empty_slots_view(count: nat, v: Seq<Option<Vec<u32>>>)
    requires
        v.len() == count,
        forall|i: int| 0 <= i < count ==> v[i] is None,
    ensures
        slot_views(v) == empty_slots(count),
{
    assert(slot_views(v) =~= empty_slots(count));
}

fn none_slots(count: usize) -> (v: Vec<Option<Vec<u32>>>)
    ensures
        v@.len() == count,
        slot_views(v@) == empty_slots(count as nat),
{
    let mut v: Vec<Option<Vec<u32>>> = Vec::new();
    let mut n: usize = 0;
    while n < count
        invariant
            0 <= n <= count,
            v@.len() == n,
            forall|i: int| 0 <= i < n ==> v@[i] is None,
        decreases count - n,
    {
        v.push(None);
        n += 1;
    }
    proof { lemma_empty_slots_view(count as nat, v@); }
    v
}

fn text_index_error(entry: &QwenConfig) -> (e: ModelError)
    ensures
        e@ == invalid_text_index_spec(*entry),
{
    let (name, _) = model_names(entry.model.as_str());
    let prefix = text_prefix(entry.model.as_str());
    let mut msg: Vec<char> = Vec::new();
    append_str(&mut msg, name);
    append_str(&mut msg, " response included an invalid index");
    let mut ctx: Vec<char> = Vec::new();
    append_str(&mut ctx, "model=");
    append_str(&mut ctx, entry.reference.as_str());
    append_str(&mut ctx, " index=");
    append_str(&mut ctx, "unknown");
    let code = family_code_string(prefix, "INVALID_INDEX");
    let m = string_of(&msg);
    ModelError::coded(code.as_str(), m.as_str(), Some(string_of(&ctx)))
}

fn text_range_error(entry: &QwenConfig, index: i64, count: usize) -> (e: ModelError)
    ensures
        e@ == text_index_range_spec(*entry, index as int, count as nat),
{
    let (name, _) = model_names(entry.model.as_str());
    let prefix = text_prefix(entry.model.as_str());
    let mut msg: Vec<char> = Vec::new();
    append_str(&mut msg, name);
    append_str(&mut msg, " response index was out of range");
    let mut ctx: Vec<char> = Vec::new();
    append_str(&mut ctx, "model=");
    append_str(&mut ctx, entry.reference.as_str());
    append_str(&mut ctx, " index=");
    push_signed(&mut ctx, index);
    append_str(&mut ctx, " inputCount=");
    push_number(&mut ctx, count as u64);
    let code = family_code_string(prefix, "INDEX_OUT_OF_RANGE");
    let m = string_of(&msg);
    ModelError::coded(code.as_str(), m.as_str(), Some(string_of(&ctx)))
}

fn embedding_error(entry: &QwenConfig, code: &str, index: usize) -> (e: ModelError)
    ensures
        e@ == invalid_embedding_spec(*entry, code@, index as nat),
{
    let (name, _) = model_names(entry.model.as_str());
    let mut msg: Vec<char> = Vec::new();
    append_str(&mut msg, name);
    append_str(&mut msg, " response included an invalid embedding");
    let mut ctx: Vec<char> = Vec::new();
    append_str(&mut ctx, "model=");
    append_str(&mut ctx, entry.reference.as_str());
    append_str(&mut ctx, " index=");
    push_number(&mut ctx, index as u64);
    let m = string_of(&msg);
    ModelError::coded(code, m.as_str(), Some(string_of(&ctx)))
}

/// Places the vectors of a text response's items at their indices.
pub fn place_text_vectors(entry: &QwenConfig, code: &str, count: usize, items: Vec<TextEmbeddingItem>) -> (r: Result<Vec<Option<Vec<u32>>>, ModelError>)
    ensures
        match r {
            Ok(slots) => place_text_items(*entry, code@, count as nat, items@, 0, empty_slots(count as nat))
                == Ok::<Seq<Option<Seq<u32>>>, ModelErrorModel>(slot_views(slots@)),
            Err(e) => place_text_items(*entry, code@, count as nat, items@, 0, empty_slots(count as nat))
                == Err::<Seq<Option<Seq<u32>>>, ModelErrorModel>(e@),
        },
{
    let ghost all = items@;
    let mut slots = none_slots(count);
    let total = items.len();
    let mut pending = crate::sort::reversed(items);
    let mut j: usize = 0;
    while pending.len() > 0
        invariant
            all == items@,
            all.len() == total,
            pending@.len() == total - j,
            forall|i: int| 0 <= i < pending@.len() ==> #[trigger] pending@[i] == all[total - 1 - i],
            slots@.len() == count,
            place_text_items(*entry, code@, count as nat, all, 0, empty_slots(count as nat))
                == place_text_items(*entry, code@, count as nat, all, j as int, slot_views(slots@)),
        decreases pending@.len(),
    {
        let it = pending.pop().unwrap();
        assert(it == all[j as int]);
        if !it.is_object {
            return Err(text_index_error(entry));
        }
        let raw = match it.index {
            Some(i) => i,
            None => { return Err(text_index_error(entry)); },
        };
        if raw < 0 || raw as u64 >= count as u64 {
            return Err(text_range_error(entry, raw, count));
        }
        let index = raw as usize;
        match it.embedding {
            None => { return Err(embedding_error(entry, code, index)); },
            Some(v) => {
                let ghost before = slot_views(slots@);
                let ghost vv = v@;
                slots.set(index, Some(v));
                assert(slot_views(slots@) =~= before.update(index as int, Some(vv)));
            },
        }
        j += 1;
    }
    Ok(slots)
}

/// One item of a multimodal embedding response, as decoded from JSON.
#[derive(Debug, PartialEq, Eq)]
pub struct MultimodalEmbeddingItem {
    pub is_object: bool,
    pub index: Option<i64>,
    pub text_index: Option<i64>,
    pub embedding: Option<Vec<u32>>,
}

/// The error of a multimodal item that is not an object.
pub open spec fn invalid_item_spec(reference: Seq<char>, k: nat) -> ModelErrorModel {
    coded_spec("ZVEC_GREP.ENGINE.MODELS.QWEN3_VL_EMBEDDING_INVALID_ITEM"@, "Qwen3 VL embedding response included an invalid embedding item"@,
        Some("model="@ + reference + " index="@ + decimal(k)))
}

/// The error of a multimodal item whose index is outside the inputs.
pub open spec fn multimodal_range_spec(reference: Seq<char>, index: int, count: nat) -> ModelErrorModel {
    coded_spec("ZVEC_GREP.ENGINE.MODELS.QWEN3_VL_EMBEDDING_INDEX_OUT_OF_RANGE"@, "Qwen3 VL embedding response index was out of range"@,
        Some("model="@ + reference + " index="@ + signed_decimal(index) + " inputCount="@ + decimal(count)))
}

/// The index of a multimodal item: its `index`, else its `text_index`, else its position.
pub open spec fn multimodal_raw_index(it: MultimodalEmbeddingItem, k: int) -> int {
    match it.index {
        Some(i) => i as int,
        None => match it.text_index {
            Some(t) => t as int,
            None => if k > i64::MAX { i64::MAX as int } else { k },
        },
    }
}

/// The vectors placed by the multimodal items from `k` on, or the first item's failure.
pub open spec fn place_multimodal_items(entry: QwenConfig, code: Seq<char>, count: nat, items: Seq<MultimodalEmbeddingItem>, k: int, slots: Seq<Option<Seq<u32>>>) -> Result<Seq<Option<Seq<u32>>>, ModelErrorModel>
    decreases items.len() - k,
{
    if k < 0 || k >= items.len() {
        Ok(slots)
    } else {
        let it = items[k];
        if !it.is_object {
            Err(invalid_item_spec(entry.reference@, k as nat))
        } else {
            let i = multimodal_raw_index(it, k);
            if i < 0 || i > usize::MAX || i >= count {
                Err(multimodal_range_spec(entry.reference@, i, count))
            } else {
                match it.embedding {
                    None => Err(invalid_embedding_spec(entry, code, i as nat)),
                    Some(v) => place_multimodal_items(entry, code, count, items, k + 1, slots.update(i, Some(v@))),
                }
            }
        }
    }
}

fn multimodal_range_error(reference: &str, index: i64, count: usize) -> (e: ModelError)
    ensures
        e@ == multimodal_range_spec(reference@, index as int, count as nat),
{
    let mut ctx: Vec<char> = Vec::new();
    append_str(&mut ctx, "model=");
    append_str(&mut ctx, reference);
    append_str(&mut ctx, " index=");
    push_signed(&mut ctx, index);
    append_str(&mut ctx, " inputCount=");
    push_number(&mut ctx, count as u64);
    ModelError::coded("ZVEC_GREP.ENGINE.MODELS.QWEN3_VL_EMBEDDING_INDEX_OUT_OF_RANGE",
        "Qwen3 VL embedding response index was out of range", Some(string_of(&ctx)))
}

/// Places the vectors of a multimodal response's items at their indices.
pub fn place_multimodal_vectors(entry: &QwenConfig, code: &str, count: usize, items: Vec<MultimodalEmbeddingItem>) -> (r: Result<Vec<Option<Vec<u32>>>, ModelError>)
    ensures
        match r {
            Ok(slots) => place_multimodal_items(*entry, code@, count as nat, items@, 0, empty_slots(count as nat))
                == Ok::<Seq<Option<Seq<u32>>>, ModelErrorModel>(slot_views(slots@)),
            Err(e) => place_multimodal_items(*entry, code@, count as nat, items@, 0, empty_slots(count as nat))
                == Err::<Seq<Option<Seq<u32>>>, ModelErrorModel>(e@),
        },
{
    let ghost all = items@;
    let mut slots = none_slots(count);
    let total = items.len();
    let mut pending = crate::sort::reversed(items);
    let mut j: usize = 0;
    while pending.len() > 0
        invariant
            all == items@,
            all.len() == total,
            pending@.len() == total - j,
            forall|i: int| 0 <= i < pending@.len() ==> #[trigger] pending@[i] == all[total - 1 - i],
            slots@.len() == count,
            place_multimodal_items(*entry, code@, count as nat, all, 0, empty_slots(count as nat))
                == place_multimodal_items(*entry, code@, count as nat, all, j as int, slot_views(slots@)),
        decreases pending@.len(),
    {
        let it = pending.pop().unwrap();
        assert(it == all[j as int]);
        if !it.is_object {
            let mut ctx: Vec<char> = Vec::new();
            append_str(&mut ctx, "model=");
            append_str(&mut ctx, entry.reference.as_str());
            append_str(&mut ctx, " index=");
            push_number(&mut ctx, j as u64);
            assert(ctx@ =~= "model="@ + entry.reference@ + " index="@ + decimal(j as nat));
            return Err(ModelError::coded("ZVEC_GREP.ENGINE.MODELS.QWEN3_VL_EMBEDDING_INVALID_ITEM",
                "Qwen3 VL embedding response included an invalid embedding item", Some(string_of(&ctx))));
        }
        let raw: i64 = match it.index {
            Some(i) => i,
            None => match it.text_index {
                Some(t) => t,
                None => if j as u64 > i64::MAX as u64 { i64::MAX } else { j as i64 },
            },
        };
        if raw < 0 || raw as u64 > usize::MAX as u64 || raw as u64 >= count as u64 {
            return Err(multimodal_range_error(entry.reference.as_str(), raw, count));
        }
        let index = raw as usize;
        match it.embedding {
            None => { return Err(embedding_error(entry, code, index)); },
            Some(v) => {
                let ghost before = slot_views(slots@);
                let ghost vv = v@;
                slots.set(index, Some(v));
                assert(slot_views(slots@) =~= before.update(index as int, Some(vv)));
            },
        }
        j += 1;
    }
    Ok(slots)
}

} // verus!

verus! {

/// A decoded text embedding response: its error fields and its `data` items (none when
/// `data` is not an array).
#[derive(Debug, PartialEq, Eq)]
pub struct TextResponse {
    pub error: ProviderErrorBody,
    pub data: Option<Vec<TextEmbeddingItem>>,
}

/// A decoded multimodal embedding response: its error fields and its
/// `output.embeddings` items (none when that is not an array).
#[derive(Debug, PartialEq, Eq)]
pub struct MultimodalResponse {
    pub error: ProviderErrorBody,
    pub embeddings: Option<Vec<MultimodalEmbeddingItem>>,
}

/// The vectors of placed slots, checked against the model.
pub open spec fn checked_vectors(info: EmbeddingModelInfo, count: nat, placed: Result<Seq<Option<Seq<u32>>>, ModelErrorModel>) -> Result<Seq<Seq<u32>>, ModelErrorModel> {
    match placed {
        Err(e) => Err(e),
        Ok(slots) => match collect_slots(info.reference@, slots) {
            Err(e) => Err(e),
            Ok(vs) => match crate::models::result_error(info, count, vs, seq![]) {
                Some(e) => Err(e),
                None => Ok(vs),
            },
        },
    }
}

/// The text codes family of a model.
pub open spec fn text_family(model: Seq<char>) -> Seq<char> {
    if model == "text-embedding-v4"@ { "v4"@ } else { "v37"@ }
}

/// The outcome of a text embedding response for `count` inputs: a body that is not JSON,
/// a non-success status, a missing `data` array, a failing item, a missing vector or a
/// vector the model cannot have produced is an error; otherwise the vectors in input order.
pub open spec fn text_outcome(m: QwenEmbeddingModel, count: nat, status: u16, retry_after_ms: Option<u64>, body: Result<TextResponse, Seq<char>>) -> Result<Seq<Seq<u32>>, ModelErrorModel> {
    let p = text_family(m.entry.model@);
    match body {
        Err(cause) => Err(ModelErrorModel {
            cause: Some(cause),
            ..coded_spec(family_code(p, "INVALID_JSON"@), model_spec(m.entry.model@).0 + " response was not valid JSON"@,
                Some("model="@ + m.entry.reference@ + " status="@ + decimal(status as nat)))
        }),
        Ok(b) => if !(200 <= status < 300) {
            Err(provider_error_spec(m.entry.model@, family_code(p, "API_ERROR"@), status, retry_after_ms, b.error))
        } else {
            match b.data {
                None => Err(coded_spec(family_code(p, "MISSING_DATA"@), model_spec(m.entry.model@).0 + " response did not include data"@,
                    Some("model="@ + m.entry.reference@))),
                Some(items) => checked_vectors(m.info, count,
                    place_text_items(m.entry, family_code(p, "INVALID_VECTOR"@), count, items@, 0, empty_slots(count))),
            }
        },
    }
}

/// The outcome of a multimodal embedding response for `count` inputs.
pub open spec fn multimodal_outcome(m: QwenEmbeddingModel, count: nat, status: u16, retry_after_ms: Option<u64>, body: Result<MultimodalResponse, Seq<char>>) -> Result<Seq<Seq<u32>>, ModelErrorModel> {
    match body {
        Err(cause) => Err(ModelErrorModel {
            cause: Some(cause),
            ..coded_spec(family_code("vl"@, "INVALID_JSON"@), model_spec(m.entry.model@).0 + " response was not valid JSON"@,
                Some("model="@ + m.entry.reference@ + " status="@ + decimal(status as nat)))
        }),
        Ok(b) => if !(200 <= status < 300) {
            Err(provider_error_spec(m.entry.model@, family_code("vl"@, "API_ERROR"@), status, retry_after_ms, b.error))
        } else {
            match b.embeddings {
                None => Err(coded_spec(family_code("vl"@, "MISSING_EMBEDDINGS"@), "Qwen3 VL embedding response did not include embeddings"@,
                    Some("model="@ + m.entry.reference@))),
                Some(items) => checked_vectors(m.info, count,
                    place_multimodal_items(m.entry, family_code("vl"@, "INVALID_VECTOR"@), count, items@, 0, empty_slots(count))),
            }
        },
    }
}

/// The view of a decoded body.
pub open spec fn body_view<B>(body: Result<B, String>) -> Result<B, Seq<char>> {
    match body {
        Ok(b) => Ok(b),
        Err(c) => Err(c@),
    }
}

fn finish_slots(info: &EmbeddingModelInfo, count: usize, placed: Result<Vec<Option<Vec<u32>>>, ModelError>) -> (r: Result<crate::models::EmbeddingResult, ModelError>)
    ensures
        match r {
            Ok(res) => res.truncated@.len() == 0 && checked_vectors(*info, count as nat, match placed {
                Ok(s) => Ok(slot_views(s@)),
                Err(e) => Err(e@),
            }) == Ok::<Seq<Seq<u32>>, ModelErrorModel>(crate::models::vectors_view(res.vectors@)),
            Err(e) => checked_vectors(*info, count as nat, match placed {
                Ok(s) => Ok(slot_views(s@)),
                Err(e) => Err(e@),
            }) == Err::<Seq<Seq<u32>>, ModelErrorModel>(e@),
        },
{
    let slots = match placed {
        Err(e) => { return Err(e); },
        Ok(s) => s,
    };
    let vectors = match collect_vectors(info.reference.as_str(), slots) {
        Err(e) => { return Err(e); },
        Ok(v) => v,
    };
    let result = crate::models::EmbeddingResult { vectors, truncated: Vec::new() };
    assert(result.truncated@ =~= Seq::<usize>::empty());
    match crate::models::validate_result(info, count, &result) {
        Err(e) => Err(e),
        Ok(()) => Ok(result),
    }
}

fn missing_data_error(entry: &QwenConfig, code: &str, multimodal: bool) -> (e: ModelError)
    ensures
        !multimodal ==> e@ == coded_spec(code@, model_spec(entry.model@).0 + " response did not include data"@, Some("model="@ + entry.reference@)),
        multimodal ==> e@ == coded_spec(code@, "Qwen3 VL embedding response did not include embeddings"@, Some("model="@ + entry.reference@)),
{
    let mut ctx: Vec<char> = Vec::new();
    append_str(&mut ctx, "model=");
    append_str(&mut ctx, entry.reference.as_str());
    if multimodal {
        ModelError::coded(code, "Qwen3 VL embedding response did not include embeddings", Some(string_of(&ctx)))
    } else {
        let (name, _) = model_names(entry.model.as_str());
        let mut msg: Vec<char> = Vec::new();
        append_str(&mut msg, name);
        append_str(&mut msg, " response did not include data");
        let m = string_of(&msg);
        ModelError::coded(code, m.as_str(), Some(string_of(&ctx)))
    }
}

impl QwenEmbeddingModel {
    /// Turns a text embedding response for `count` inputs into vectors (see [`text_outcome`]).
    pub fn finish_text(&self, count: usize, status: u16, retry_after_ms: Option<u64>, body: Result<TextResponse, String>) -> (r: Result<crate::models::EmbeddingResult, ModelError>)
        ensures
            match r {
                Ok(res) => res.truncated@.len() == 0 && text_outcome(*self, count as nat, status, retry_after_ms, body_view(body))
                    == Ok::<Seq<Seq<u32>>, ModelErrorModel>(crate::models::vectors_view(res.vectors@)),
                Err(e) => text_outcome(*self, count as nat, status, retry_after_ms, body_view(body)) == Err::<Seq<Seq<u32>>, ModelErrorModel>(e@),
            },
    {
        let codes = text_error_codes(self.entry.model.as_str());
        let b = match body {
            Err(cause) => { return Err(invalid_json_error(&self.entry, codes.invalid_json.as_str(), status, cause.as_str())); },
            Ok(b) => b,
        };
        if !is_success(status) {
            return Err(provider_error(self.entry.model.as_str(), codes.api_error.as_str(), status, retry_after_ms, &b.error));
        }
        let items = match b.data {
            None => { return Err(missing_data_error(&self.entry, codes.missing_data.as_str(), false)); },
            Some(items) => items,
        };
        let placed = place_text_vectors(&self.entry, codes.invalid_vector.as_str(), count, items);
        finish_slots(&self.info, count, placed)
    }

    /// Turns a multimodal embedding response for `count` inputs into vectors (see
    /// [`multimodal_outcome`]).
    pub fn finish_multimodal(&self, count: usize, status: u16, retry_after_ms: Option<u64>, body: Result<MultimodalResponse, String>) -> (r: Result<crate::models::EmbeddingResult, ModelError>)
        ensures
            match r {
                Ok(res) => res.truncated@.len() == 0 && multimodal_outcome(*self, count as nat, status, retry_after_ms, body_view(body))
                    == Ok::<Seq<Seq<u32>>, ModelErrorModel>(crate::models::vectors_view(res.vectors@)),
                Err(e) => multimodal_outcome(*self, count as nat, status, retry_after_ms, body_view(body)) == Err::<Seq<Seq<u32>>, ModelErrorModel>(e@),
            },
    {
        let codes = multimodal_error_codes();
        let b = match body {
            Err(cause) => { return Err(invalid_json_error(&self.entry, codes.invalid_json.as_str(), status, cause.as_str())); },
            Ok(b) => b,
        };
        if !is_success(status) {
            return Err(provider_error(self.entry.model.as_str(), codes.api_error.as_str(), status, retry_after_ms, &b.error));
        }
        let items = match b.embeddings {
            None => { return Err(missing_data_error(&self.entry, codes.missing_data.as_str(), true)); },
            Some(items) => items,
        };
        let placed = place_multimodal_vectors(&self.entry, codes.invalid_vector.as_str(), count, items);
        finish_slots(&self.info, count, placed)
    }
}

} // verus!

verus! {

/// One entry of a multimodal request: a text, or an image as base64.
#[derive(Debug, PartialEq, Eq)]
pub enum RequestPart {
    Text(String),
    Image(String),
}

/// The mathematical form of a [`RequestPart`].
pub enum RequestPartModel {
    Text(Seq<char>),
    Image(Seq<char>),
}

impl View for RequestPart {
    type V = RequestPartModel;

    open spec fn view(&self) -> RequestPartModel {
        match self {
            RequestPart::Text(t) => RequestPartModel::Text(t@),
            RequestPart::Image(i) => RequestPartModel::Image(i@),
        }
    }
}

/// The request to send: where, with which token, for which model and dimension, and the
/// texts (text models) or parts (multimodal models) to embed.
#[derive(Debug, PartialEq, Eq)]
pub struct QwenRequest {
    pub endpoint: String,
    pub bearer_token: String,
    pub model: String,
    pub dimension: usize,
    pub multimodal: bool,
    pub texts: Vec<String>,
    pub parts: Vec<RequestPart>,
}

/// The texts among contents, in order.
pub open spec fn texts_of(cs: Seq<Content>) -> Seq<Seq<char>>
    decreases cs.len(),
{
    if cs.len() == 0 {
        seq![]
    } else {
        texts_of(cs.drop_last()) + match cs.last() {
            Content::Text(t) => seq![t@],
            _ => seq![],
        }
    }
}

/// The request part of one content item.
pub open spec fn part_of(c: Content) -> RequestPartModel {
    match c {
        Content::Text(t) => RequestPartModel::Text(t@),
        Content::Image(img) => RequestPartModel::Image(base64_spec(img.data@)),
    }
}

/// Whether a model takes images as well as text.
pub open spec fn is_multimodal(m: QwenEmbeddingModel) -> bool {
    m.entry.kind@ == "multimodal"@
}

/// Why contents cannot be sent, if they cannot: the checks of every model, then those of
/// the multimodal model, then a cancelled request.
pub open spec fn prepare_error(m: QwenEmbeddingModel, cs: Seq<Content>, cancelled: bool) -> Option<ModelErrorModel> {
    match crate::models::contents_error(m.info, cs) {
        Some(e) => Some(e),
        None => if is_multimodal(m) && multimodal_contents_error(m.entry.model@, cs) is Some {
            multimodal_contents_error(m.entry.model@, cs)
        } else if cancelled {
            Some(ModelErrorModel { code: None, message: "Embedding request was cancelled."@, context: None, cause: None })
        } else {
            None
        },
    }
}

impl QwenEmbeddingModel {
    /// Checks contents and builds the request that embeds them; `cancelled` tells whether
    /// the caller already cancelled.
    pub fn prepare_request(&self, contents: &[Content], cancelled: bool) -> (r: Result<QwenRequest, ModelError>)
        ensures
            match r {
                Err(e) => prepare_error(*self, contents@, cancelled) == Some(e@),
                Ok(q) => {
                    &&& prepare_error(*self, contents@, cancelled) is None
                    &&& q.endpoint@ == self.endpoint@
                    &&& q.bearer_token@ == self.api_key@
                    &&& q.model@ == self.entry.model@
                    &&& q.dimension == self.info.dimension
                    &&& q.multimodal == is_multimodal(*self)
                    &&& (!q.multimodal ==> q.texts.deep_view() == texts_of(contents@) && q.parts@.len() == 0)
                    &&& (q.multimodal ==> q.texts@.len() == 0 && q.parts@.len() == contents@.len()
                        && forall|k: int| 0 <= k < contents@.len() ==> #[trigger] q.parts@[k]@ == part_of(contents@[k]))
                },
            },
    {
        match crate::models::validate_contents(&self.info, contents) {
            Err(e) => { return Err(e); },
            Ok(()) => {},
        }
        let multimodal = str_eq(self.entry.kind.as_str(), "multimodal");
        if multimodal {
            match validate_multimodal_contents(self.entry.model.as_str(), contents) {
                Err(e) => { return Err(e); },
                Ok(()) => {},
            }
        }
        if cancelled {
            return Err(ModelError::uncoded("Embedding request was cancelled."));
        }
        let mut texts: Vec<String> = Vec::new();
        let mut parts: Vec<RequestPart> = Vec::new();
        let mut i: usize = 0;
        while i < contents.len()
            invariant
                0 <= i <= contents@.len(),
                !multimodal ==> texts.deep_view() == texts_of(contents@.take(i as int)) && parts@.len() == 0,
                multimodal ==> texts@.len() == 0 && parts@.len() == i
                    && forall|k: int| 0 <= k < i ==> #[trigger] parts@[k]@ == part_of(contents@[k]),
            decreases contents@.len() - i,
        {
            assert(contents@.take(i + 1).drop_last() =~= contents@.take(i as int));
            assert(contents@.take(i + 1).last() == contents@[i as int]);
            if multimodal {
                let part = match &contents[i] {
                    Content::Text(t) => RequestPart::Text(t.clone()),
                    Content::Image(img) => RequestPart::Image(bytes_to_base64(img.data.as_slice())),
                };
                parts.push(part);
            } else {
                match &contents[i] {
                    Content::Text(t) => {
                        crate::text::push_string(&mut texts, t.clone());
                    },
                    _ => {},
                }
            }
            i += 1;
        }
        assert(contents@.take(contents@.len() as int) =~= contents@);
        Ok(QwenRequest {
            endpoint: self.endpoint.clone(),
            bearer_token: self.api_key.clone(),
            model: self.entry.model.clone(),
            dimension: self.info.dimension,
            multimodal,
            texts,
            parts,
        })
    }
}

} // verus!
