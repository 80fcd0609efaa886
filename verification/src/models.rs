//! Embedding models: their description, their errors, and the checks every model applies
//! to its inputs and to the vectors a provider returns.
use vstd::prelude::*;

use crate::common::{Content, Device, EmbeddingInputKind, EmbeddingMetric};
use crate::text::{append_str, decimal, string_of};

verus! {

/// Error raised by an embedding model, with the stable code of its failure when it has one.
#[derive(Debug, PartialEq, Eq)]
pub struct ModelError {
    code: Option<String>,
    message: String,
    context: Option<String>,
    cause: Option<String>,
}

/// The mathematical form of a [`ModelError`].
pub struct ModelErrorModel {
    pub code: Option<Seq<char>>,
    pub message: Seq<char>,
    pub context: Option<Seq<char>>,
    pub cause: Option<Seq<char>>,
}

impl View for ModelError {
    type V = ModelErrorModel;

    closed spec fn view(&self) -> ModelErrorModel {
        ModelErrorModel {
            code: self.code.deep_view(),
            message: self.message@,
            context: self.context.deep_view(),
            cause: self.cause.deep_view(),
        }
    }
}

/// A coded error without a cause.
pub open spec fn coded_spec(code: Seq<char>, message: Seq<char>, context: Option<Seq<char>>) -> ModelErrorModel {
    ModelErrorModel { code: Some(code), message, context, cause: None }
}

impl ModelError {
    /// An error with a stable code.
    pub fn coded(code: &str, message: &str, context: Option<String>) -> (e: ModelError)
        ensures
            e@ == coded_spec(code@, message@, context.deep_view()),
    {
        ModelError { code: Some(code.to_owned()), message: message.to_owned(), context, cause: None }
    }

    /// An error without a code.
    pub fn uncoded(message: &str) -> (e: ModelError)
        ensures
            e@ == (ModelErrorModel { code: None, message: message@, context: None, cause: None }),
    {
        ModelError { code: None, message: message.to_owned(), context: None, cause: None }
    }

    /// The same error with the text of its underlying cause.
    pub fn with_cause(self, cause: &str) -> (e: ModelError)
        ensures
            e@ == (ModelErrorModel { cause: Some(cause@), ..self@ }),
    {
        ModelError { cause: Some(cause.to_owned()), ..self }
    }

    /// The stable code of this error, if it has one.
    pub fn code(&self) -> (c: Option<&str>)
        ensures
            match c {
                Some(s) => self@.code == Some(s@),
                None => self@.code is None,
            },
    {
        match &self.code {
            Some(c) => Some(c.as_str()),
            None => None,
        }
    }

    /// The human-readable message of this error.
    pub fn message(&self) -> (m: &str)
        ensures
            m@ == self@.message,
    {
        self.message.as_str()
    }

    /// Details of the failing input, if any.
    pub fn context(&self) -> (c: Option<&str>)
        ensures
            match c {
                Some(s) => self@.context == Some(s@),
                None => self@.context is None,
            },
    {
        match &self.context {
            Some(c) => Some(c.as_str()),
            None => None,
        }
    }

    /// The text of the underlying cause, if any.
    pub fn cause(&self) -> (c: Option<&str>)
        ensures
            match c {
                Some(s) => self@.cause == Some(s@),
                None => self@.cause is None,
            },
    {
        match &self.cause {
            Some(c) => Some(c.as_str()),
            None => None,
        }
    }
}

/// Options of model creation.
#[derive(Debug, PartialEq, Eq)]
pub struct CreateEmbeddingModelOptions {
    pub api_key: Option<String>,
    pub endpoint: Option<String>,
    pub model_cache_dir: Option<String>,
    pub device: Option<Device>,
}

/// What an embedding is for.
#[derive(Clone, Copy, Debug, PartialEq, Eq)]
pub enum EmbeddingPurpose {
    Document,
    Query,
}

/// Model preparation progress.
#[derive(Debug, PartialEq, Eq)]
pub enum EmbeddingModelProgress {
    Preparing { model: String },
    Downloading { model: String, downloaded_bytes: Option<u64>, total_bytes: Option<u64> },
    Warning { model: String, message: String },
    Ready { model: String },
}

/// Input limits of a model.
#[derive(Debug, PartialEq, Eq)]
pub struct EmbeddingModelLimits {
    pub max_batch_size: usize,
    pub max_input_tokens: Option<usize>,
    pub max_image_bytes: Option<usize>,
}

/// Description of a loaded model.
#[derive(Debug, PartialEq, Eq)]
pub struct EmbeddingModelInfo {
    pub reference: String,
    pub provider: String,
    pub name: String,
    pub dimension: usize,
    pub metric: EmbeddingMetric,
    pub endpoint: Option<String>,
    pub default_concurrency: Option<usize>,
    pub input_kinds: Vec<EmbeddingInputKind>,
    pub limits: EmbeddingModelLimits,
}

/// Vectors returned by a model, each value given by its IEEE 754 single-precision bit
/// pattern, and the indices of inputs the model truncated.
#[derive(Debug, PartialEq, Eq)]
pub struct EmbeddingResult {
    pub vectors: Vec<Vec<u32>>,
    pub truncated: Vec<usize>,
}

/// The name of an input kind.
pub open spec fn kind_name_spec(kind: EmbeddingInputKind) -> Seq<char> {
    match kind {
        EmbeddingInputKind::Text => "text"@,
        EmbeddingInputKind::Image => "image"@,
    }
}

/// The name of an input kind.
pub fn kind_name(kind: EmbeddingInputKind) -> (s: &'static str)
    ensures
        s@ == kind_name_spec(kind),
{
    match kind {
        EmbeddingInputKind::Text => "text",
        EmbeddingInputKind::Image => "image",
    }
}

/// The input kind of a content item.
pub open spec fn content_kind(c: Content) -> EmbeddingInputKind {
    match c {
        Content::Text(_) => EmbeddingInputKind::Text,
        Content::Image(_) => EmbeddingInputKind::Image,
    }
}

/// `model=<reference> index=<index>`.
pub open spec fn model_index(reference: Seq<char>, index: nat) -> Seq<char> {
    "model="@ + reference + " index="@ + decimal(index)
}

/// The failure of one content item at `index`, if it fails: a kind the model does not
/// take, blank text, an empty image, or an image over the model's byte limit.
pub open spec fn item_error(info: EmbeddingModelInfo, c: Content, index: nat) -> Option<ModelErrorModel> {
    let r = info.reference@;
    let kind = content_kind(c);
    if !info.input_kinds@.contains(kind) {
        Some(coded_spec("ZVEC_GREP.ENGINE.MODELS.EMBEDDING_UNSUPPORTED_CONTENT"@, "Embedding model does not support content kind"@,
            Some(model_index(r, index) + " kind="@ + kind_name_spec(kind))))
    } else {
        match c {
            Content::Text(t) => if crate::text::is_blank(t@) {
                Some(coded_spec("ZVEC_GREP.ENGINE.MODELS.EMBEDDING_EMPTY_TEXT"@, "Embedding text content must not be empty"@, Some(model_index(r, index))))
            } else {
                None
            },
            Content::Image(img) => if img.data@.len() == 0 {
                Some(coded_spec("ZVEC_GREP.ENGINE.MODELS.EMBEDDING_EMPTY_IMAGE"@, "Embedding image content must not be empty"@, Some(model_index(r, index))))
            } else if info.limits.max_image_bytes matches Some(m) && img.data@.len() > m {
                Some(coded_spec("ZVEC_GREP.ENGINE.MODELS.EMBEDDING_IMAGE_TOO_LARGE"@, "Embedding image content exceeds model limit"@,
                    Some(model_index(r, index) + " imageBytes="@ + decimal(img.data@.len()) + " maxImageBytes="@
                        + decimal(info.limits.max_image_bytes->Some_0 as nat))))
            } else {
                None
            },
        }
    }
}

/// The failure of the first failing item from `i` on.
pub open spec fn first_item_error(info: EmbeddingModelInfo, cs: Seq<Content>, i: int) -> Option<ModelErrorModel>
    decreases cs.len() - i,
{
    if i < 0 || i >= cs.len() {
        None
    } else {
        match item_error(info, cs[i], i as nat) {
            Some(e) => Some(e),
            None => first_item_error(info, cs, i + 1),
        }
    }
}

/// Why a batch of contents cannot be embedded, if it cannot: it is empty, larger than the
/// model's batch limit, or holds a failing item (the first one).
pub open spec fn contents_error(info: EmbeddingModelInfo, cs: Seq<Content>) -> Option<ModelErrorModel> {
    if cs.len() == 0 {
        Some(coded_spec("ZVEC_GREP.ENGINE.MODELS.EMBEDDING_EMPTY_INPUT"@, "Embedding requires at least one content item"@, None))
    } else if cs.len() > info.limits.max_batch_size {
        Some(coded_spec("ZVEC_GREP.ENGINE.MODELS.EMBEDDING_BATCH_TOO_LARGE"@, "Embedding batch size exceeds model limit"@,
            Some("model="@ + info.reference@ + " batchSize="@ + decimal(cs.len()) + " maxBatchSize="@ + decimal(info.limits.max_batch_size as nat))))
    } else {
        first_item_error(info, cs, 0)
    }
}

fn push_number(out: &mut Vec<char>, n: u64)
    ensures
        final(out)@ == old(out)@ + decimal(n as nat),
{
    let s = crate::text::u64_to_string(n);
    append_str(out, s.as_str());
}

fn model_index_text(reference: &str, index: usize) -> (out: Vec<char>)
    ensures
        out@ == model_index(reference@, index as nat),
{
    let mut out: Vec<char> = Vec::new();
    append_str(&mut out, "model=");
    append_str(&mut out, reference);
    append_str(&mut out, " index=");
    push_number(&mut out, index as u64);
    assert(out@ =~= model_index(reference@, index as nat));
    out
}

fn kind_supported(kinds: &Vec<EmbeddingInputKind>, kind: EmbeddingInputKind) -> (r: bool)
    ensures
        r == kinds@.contains(kind),
{
    let mut i: usize = 0;
    while i < kinds.len()
        invariant
            0 <= i <= kinds@.len(),
            forall|k: int| 0 <= k < i ==> kinds@[k] != kind,
        decreases kinds@.len() - i,
    {
        let same = match (kinds[i], kind) {
            (EmbeddingInputKind::Text, EmbeddingInputKind::Text) => true,
            (EmbeddingInputKind::Image, EmbeddingInputKind::Image) => true,
            _ => false,
        };
        if same {
            assert(kinds@[i as int] == kind);
            return true;
        }
        i += 1;
    }
    false
}

fn check_item(info: &EmbeddingModelInfo, c: &Content, index: usize) -> (r: Option<ModelError>)
    ensures
        match r {
            Some(e) => item_error(*info, *c, index as nat) == Some(e@),
            None => item_error(*info, *c, index as nat) is None,
        },
{
    let kind = match c {
        Content::Text(_) => EmbeddingInputKind::Text,
        Content::Image(_) => EmbeddingInputKind::Image,
    };
    if !kind_supported(&info.input_kinds, kind) {
        let mut ctx = model_index_text(info.reference.as_str(), index);
        append_str(&mut ctx, " kind=");
        append_str(&mut ctx, kind_name(kind));
        return Some(ModelError::coded("ZVEC_GREP.ENGINE.MODELS.EMBEDDING_UNSUPPORTED_CONTENT",
            "Embedding model does not support content kind", Some(string_of(&ctx))));
    }
    match c {
        Content::Text(t) => {
            let chars = crate::text::chars_of(t.as_str());
            if crate::text::chars_are_blank(chars.as_slice()) {
                let ctx = model_index_text(info.reference.as_str(), index);
                Some(ModelError::coded("ZVEC_GREP.ENGINE.MODELS.EMBEDDING_EMPTY_TEXT",
                    "Embedding text content must not be empty", Some(string_of(&ctx))))
            } else {
                None
            }
        },
        Content::Image(img) => {
            if img.data.len() == 0 {
                let ctx = model_index_text(info.reference.as_str(), index);
                return Some(ModelError::coded("ZVEC_GREP.ENGINE.MODELS.EMBEDDING_EMPTY_IMAGE",
                    "Embedding image content must not be empty", Some(string_of(&ctx))));
            }
            match info.limits.max_image_bytes {
                Some(m) => if img.data.len() > m {
                    let mut ctx = model_index_text(info.reference.as_str(), index);
                    append_str(&mut ctx, " imageBytes=");
                    push_number(&mut ctx, img.data.len() as u64);
                    append_str(&mut ctx, " maxImageBytes=");
                    push_number(&mut ctx, m as u64);
                    Some(ModelError::coded("ZVEC_GREP.ENGINE.MODELS.EMBEDDING_IMAGE_TOO_LARGE",
                        "Embedding image content exceeds model limit", Some(string_of(&ctx))))
                } else {
                    None
                },
                None => None,
            }
        },
    }
}

/// Checks a batch of contents against a model (see [`contents_error`]).
pub fn validate_contents(info: &EmbeddingModelInfo, contents: &[Content]) -> (r: Result<(), ModelError>)
    ensures
        match r {
            Ok(()) => contents_error(*info, contents@) is None,
            Err(e) => contents_error(*info, contents@) == Some(e@),
        },
{
    if contents.len() == 0 {
        return Err(ModelError::coded("ZVEC_GREP.ENGINE.MODELS.EMBEDDING_EMPTY_INPUT",
            "Embedding requires at least one content item", None));
    }
    if contents.len() > info.limits.max_batch_size {
        let mut ctx: Vec<char> = Vec::new();
        append_str(&mut ctx, "model=");
        append_str(&mut ctx, info.reference.as_str());
        append_str(&mut ctx, " batchSize=");
        push_number(&mut ctx, contents.len() as u64);
        append_str(&mut ctx, " maxBatchSize=");
        push_number(&mut ctx, info.limits.max_batch_size as u64);
        return Err(ModelError::coded("ZVEC_GREP.ENGINE.MODELS.EMBEDDING_BATCH_TOO_LARGE",
            "Embedding batch size exceeds model limit", Some(string_of(&ctx))));
    }
    let mut i: usize = 0;
    while i < contents.len()
        invariant
            0 <= i <= contents@.len(),
            0 < contents@.len() <= info.limits.max_batch_size,
            first_item_error(*info, contents@, 0) == first_item_error(*info, contents@, i as int),
        decreases contents@.len() - i,
    {
        match check_item(info, &contents[i], i) {
            Some(e) => {
                return Err(e);
            },
            None => {},
        }
        i += 1;
    }
    Ok(())
}

/// Whether a model accepts one content item: its kind is supported, a text is not blank,
/// and an image is not empty and within the model's image size limit.
pub open spec fn item_acceptable(info: EmbeddingModelInfo, c: Content) -> bool {
    &&& info.input_kinds@.contains(content_kind(c))
    &&& match c {
        Content::Text(t) => !crate::text::is_blank(t@),
        Content::Image(img) => img.data@.len() > 0
            && (info.limits.max_image_bytes matches Some(m) ==> img.data@.len() <= m),
    }
}

proof fn lemma_first_item_error_none(info: EmbeddingModelInfo, cs: Seq<Content>, i: int)
    requires
        0 <= i <= cs.len(),
    ensures
        first_item_error(info, cs, i) is None <==> forall|j: int| i <= j < cs.len() ==> item_acceptable(info, #[trigger] cs[j]),
    decreases cs.len() - i,
{
    if i < cs.len() {
        lemma_first_item_error_none(info, cs, i + 1);
        if first_item_error(info, cs, i) is None {
            assert forall|j: int| i <= j < cs.len() implies item_acceptable(info, #[trigger] cs[j]) by {
                if j == i {
                    assert(item_error(info, cs[i], i as nat) is None);
                }
            }
        }
    }
}

proof fn lemma_first_item_error_at(info: EmbeddingModelInfo, cs: Seq<Content>, i: int, k: int)
    requires
        0 <= i <= k < cs.len(),
        forall|j: int| i <= j < k ==> item_acceptable(info, #[trigger] cs[j]),
        !item_acceptable(info, cs[k]),
    ensures
        first_item_error(info, cs, i) == item_error(info, cs[k], k as nat),
        item_error(info, cs[k], k as nat) is Some,
    decreases k - i,
{
    if i < k {
        assert(item_acceptable(info, cs[i]));
        lemma_first_item_error_at(info, cs, i + 1, k);
    }
}

/// A batch is accepted exactly when it holds between one item and the model's batch limit
/// and the model accepts every item; otherwise the error names the first failing check:
/// emptiness, then the batch size, then the items in order.
pub proof fn lemma_contents_accepted_iff(info: EmbeddingModelInfo, cs: Seq<Content>, k: int)
    ensures
        contents_error(info, cs) is None <==> (1 <= cs.len() <= info.limits.max_batch_size
            && forall|j: int| 0 <= j < cs.len() ==> item_acceptable(info, #[trigger] cs[j])),
        1 <= cs.len() <= info.limits.max_batch_size && 0 <= k < cs.len()
            && (forall|j: int| 0 <= j < k ==> item_acceptable(info, #[trigger] cs[j])) && !item_acceptable(info, cs[k])
            ==> contents_error(info, cs) == item_error(info, cs[k], k as nat),
{
    lemma_first_item_error_none(info, cs, 0);
    if 1 <= cs.len() <= info.limits.max_batch_size && 0 <= k < cs.len()
        && (forall|j: int| 0 <= j < k ==> item_acceptable(info, #[trigger] cs[j])) && !item_acceptable(info, cs[k]) {
        lemma_first_item_error_at(info, cs, 0, k);
    }
}

/// Whether a single-precision bit pattern is a finite number (its exponent is not all ones).
pub open spec fn is_finite_bits(bits: u32) -> bool {
    (bits / 0x800000) % 0x100 != 0xff
}

/// The index of the first non-finite value from `k` on, if any.
pub open spec fn first_non_finite(v: Seq<u32>, k: int) -> Option<nat>
    decreases v.len() - k,
{
    if k < 0 || k >= v.len() {
        None
    } else if !is_finite_bits(v[k]) {
        Some(k as nat)
    } else {
        first_non_finite(v, k + 1)
    }
}

/// The failure of the vector at `index`, if any: a wrong dimension, or a non-finite value.
pub open spec fn vector_error(info: EmbeddingModelInfo, v: Seq<u32>, index: nat) -> Option<ModelErrorModel> {
    let r = info.reference@;
    if v.len() != info.dimension {
        Some(coded_spec("ZVEC_GREP.ENGINE.MODELS.EMBEDDING_DIMENSION_MISMATCH"@, "Embedding model returned a vector with the wrong dimension"@,
            Some("model="@ + r + " vectorIndex="@ + decimal(index) + " expectedDimension="@ + decimal(info.dimension as nat)
                + " actualDimension="@ + decimal(v.len()))))
    } else {
        match first_non_finite(v, 0) {
            Some(k) => Some(coded_spec("ZVEC_GREP.ENGINE.MODELS.EMBEDDING_NON_FINITE_VECTOR_VALUE"@, "Embedding model returned a non-finite vector value"@,
                Some("model="@ + r + " vectorIndex="@ + decimal(index) + " valueIndex="@ + decimal(k)))),
            None => None,
        }
    }
}

/// The failure of the first failing vector from `i` on.
pub open spec fn first_vector_error(info: EmbeddingModelInfo, vs: Seq<Seq<u32>>, i: int) -> Option<ModelErrorModel>
    decreases vs.len() - i,
{
    if i < 0 || i >= vs.len() {
        None
    } else {
        match vector_error(info, vs[i], i as nat) {
            Some(e) => Some(e),
            None => first_vector_error(info, vs, i + 1),
        }
    }
}

/// The first truncated index from `k` on that is out of range or repeats an earlier one.
pub open spec fn first_bad_truncated(t: Seq<usize>, count: nat, k: int) -> Option<usize>
    decreases t.len() - k,
{
    if k < 0 || k >= t.len() {
        None
    } else if t[k] >= count || t.take(k).contains(t[k]) {
        Some(t[k])
    } else {
        first_bad_truncated(t, count, k + 1)
    }
}

/// The vectors of a result, as bit-pattern sequences.
pub open spec fn vectors_view(vs: Seq<Vec<u32>>) -> Seq<Seq<u32>> {
    vs.map_values(|v: Vec<u32>| v@)
}

/// Why a provider's result for `input_count` inputs is unusable, if it is: the wrong
/// number of vectors, a failing vector (the first one), or an invalid truncated index.
pub open spec fn result_error(info: EmbeddingModelInfo, input_count: nat, vectors: Seq<Seq<u32>>, truncated: Seq<usize>) -> Option<ModelErrorModel> {
    let r = info.reference@;
    if vectors.len() != input_count {
        Some(coded_spec("ZVEC_GREP.ENGINE.MODELS.EMBEDDING_VECTOR_COUNT_MISMATCH"@, "Embedding model returned the wrong number of vectors"@,
            Some("model="@ + r + " contentCount="@ + decimal(input_count) + " vectorCount="@ + decimal(vectors.len()))))
    } else {
        match first_vector_error(info, vectors, 0) {
            Some(e) => Some(e),
            None => match first_bad_truncated(truncated, input_count, 0) {
                Some(i) => Some(coded_spec("ZVEC_GREP.ENGINE.MODELS.EMBEDDING_INVALID_TRUNCATED_INPUT_INDEX"@,
                    "Embedding model returned an invalid truncated input index"@,
                    Some("model="@ + r + " index="@ + decimal(i as nat) + " inputCount="@ + decimal(input_count)))),
                None => None,
            },
        }
    }
}

fn check_vector(info: &EmbeddingModelInfo, v: &Vec<u32>, index: usize) -> (r: Option<ModelError>)
    ensures
        match r {
            Some(e) => vector_error(*info, v@, index as nat) == Some(e@),
            None => vector_error(*info, v@, index as nat) is None,
        },
{
    if v.len() != info.dimension {
        let mut ctx: Vec<char> = Vec::new();
        append_str(&mut ctx, "model=");
        append_str(&mut ctx, info.reference.as_str());
        append_str(&mut ctx, " vectorIndex=");
        push_number(&mut ctx, index as u64);
        append_str(&mut ctx, " expectedDimension=");
        push_number(&mut ctx, info.dimension as u64);
        append_str(&mut ctx, " actualDimension=");
        push_number(&mut ctx, v.len() as u64);
        return Some(ModelError::coded("ZVEC_GREP.ENGINE.MODELS.EMBEDDING_DIMENSION_MISMATCH",
            "Embedding model returned a vector with the wrong dimension", Some(string_of(&ctx))));
    }
    let mut k: usize = 0;
    while k < v.len()
        invariant
            0 <= k <= v@.len(),
            v@.len() == info.dimension,
            first_non_finite(v@, 0) == first_non_finite(v@, k as int),
        decreases v@.len() - k,
    {
        if (v[k] / 0x800000) % 0x100 == 0xff {
            let mut ctx: Vec<char> = Vec::new();
            append_str(&mut ctx, "model=");
            append_str(&mut ctx, info.reference.as_str());
            append_str(&mut ctx, " vectorIndex=");
            push_number(&mut ctx, index as u64);
            append_str(&mut ctx, " valueIndex=");
            push_number(&mut ctx, k as u64);
            return Some(ModelError::coded("ZVEC_GREP.ENGINE.MODELS.EMBEDDING_NON_FINITE_VECTOR_VALUE",
                "Embedding model returned a non-finite vector value", Some(string_of(&ctx))));
        }
        k += 1;
    }
    None
}

/// Checks a provider's result for `input_count` inputs (see [`result_error`]).
pub fn validate_result(info: &EmbeddingModelInfo, input_count: usize, result: &EmbeddingResult) -> (r: Result<(), ModelError>)
    ensures
        match r {
            Ok(()) => result_error(*info, input_count as nat, vectors_view(result.vectors@), result.truncated@) is None,
            Err(e) => result_error(*info, input_count as nat, vectors_view(result.vectors@), result.truncated@) == Some(e@),
        },
{
    let ghost vs = vectors_view(result.vectors@);
    if result.vectors.len() != input_count {
        let mut ctx: Vec<char> = Vec::new();
        append_str(&mut ctx, "model=");
        append_str(&mut ctx, info.reference.as_str());
        append_str(&mut ctx, " contentCount=");
        push_number(&mut ctx, input_count as u64);
        append_str(&mut ctx, " vectorCount=");
        push_number(&mut ctx, result.vectors.len() as u64);
        return Err(ModelError::coded("ZVEC_GREP.ENGINE.MODELS.EMBEDDING_VECTOR_COUNT_MISMATCH",
            "Embedding model returned the wrong number of vectors", Some(string_of(&ctx))));
    }
    let mut i: usize = 0;
    while i < result.vectors.len()
        invariant
            0 <= i <= vs.len(),
            vs == vectors_view(result.vectors@),
            vs.len() == input_count,
            first_vector_error(*info, vs, 0) == first_vector_error(*info, vs, i as int),
        decreases vs.len() - i,
    {
        match check_vector(info, &result.vectors[i], i) {
            Some(e) => {
                return Err(e);
            },
            None => {},
        }
        i += 1;
    }
    let t = &result.truncated;
    let mut seen: Vec<bool> = Vec::new();
    let mut n: usize = 0;
    while n < input_count
        invariant
            0 <= n <= input_count,
            seen@.len() == n,
            forall|j: int| 0 <= j < n ==> !seen@[j],
        decreases input_count - n,
    {
        seen.push(false);
        n += 1;
    }
    let mut k: usize = 0;
    while k < t.len()
        invariant
            0 <= k <= t@.len(),
            seen@.len() == input_count,
            vs == vectors_view(result.vectors@),
            vs.len() == input_count,
            t@ == result.truncated@,
            first_vector_error(*info, vs, 0) is None,
            first_bad_truncated(t@, input_count as nat, 0) == first_bad_truncated(t@, input_count as nat, k as int),
            forall|j: int| 0 <= j < input_count ==> (seen@[j] <==> t@.take(k as int).contains(j as usize)),
        decreases t@.len() - k,
    {
        let index = t[k];
        if index >= input_count || seen[index] {
            proof {
                if index < input_count {
                    assert(seen@[index as int] <==> t@.take(k as int).contains((index as int) as usize));
                }
                assert(first_bad_truncated(t@, input_count as nat, k as int) == Some(index));
            }
            let mut ctx: Vec<char> = Vec::new();
            append_str(&mut ctx, "model=");
            append_str(&mut ctx, info.reference.as_str());
            append_str(&mut ctx, " index=");
            push_number(&mut ctx, index as u64);
            append_str(&mut ctx, " inputCount=");
            push_number(&mut ctx, input_count as u64);
            assert(ctx@ =~= "model="@ + info.reference@ + " index="@ + decimal(index as nat) + " inputCount="@ + decimal(input_count as nat));
            return Err(ModelError::coded("ZVEC_GREP.ENGINE.MODELS.EMBEDDING_INVALID_TRUNCATED_INPUT_INDEX",
                "Embedding model returned an invalid truncated input index", Some(string_of(&ctx))));
        }
        seen.set(index, true);
        proof {
            let a = t@.take(k as int);
            let b = t@.take(k + 1);
            assert(b =~= a.push(index));
            assert forall|j: int| 0 <= j < input_count implies (seen@[j] <==> b.contains(j as usize)) by {
                if j == index {
                    assert(b[k as int] == index);
                } else {
                    if b.contains(j as usize) {
                        let w = choose|w: int| 0 <= w < b.len() && #[trigger] b[w] == j as usize;
                        assert(w != k);
                        assert(a[w] == j as usize);
                    }
                    if a.contains(j as usize) {
                        let w = choose|w: int| 0 <= w < a.len() && #[trigger] a[w] == j as usize;
                        assert(b[w] == j as usize);
                    }
                }
            }
        }
        k += 1;
    }
    Ok(())
}

} // verus!
