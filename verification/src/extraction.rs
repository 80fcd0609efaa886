//! Extraction of indexable entities: image sources, stable entity ids, and the metadata text
//! prepended to embedded content, with UTF-16 based length limits.
use vstd::prelude::*;

use sha2::Digest;
use vstd::string::StringSliceAdditionalSpecFns;

use crate::common::{Content, ContentRange, EntityMetadata, FileKind, ImageContent, ImageFormat, SymbolType};
use crate::errors::{EngineError, EngineErrorModel};
use crate::ripgrep::{char_utf16_len, utf16_len};
use crate::text::{append_str, decimal, is_blank, string_of, trim};

verus! {

/// Source metadata needed to produce stable entities.
#[derive(Debug, PartialEq, Eq)]
pub struct SourceFile {
    pub id: String,
    pub absolute_path: String,
    pub relative_path: String,
    pub root_path: String,
    pub size_bytes: u64,
    pub modified_epoch_ms: Option<u64>,
    pub content_hash: Option<String>,
    pub kind: FileKind,
    pub format: String,
}

/// A UTF-8 text source.
#[derive(Debug, PartialEq, Eq)]
pub struct TextSource {
    pub file: SourceFile,
    pub text: String,
}

/// An image source.
#[derive(Debug, PartialEq, Eq)]
pub struct ImageSource {
    pub file: SourceFile,
    pub data: Vec<u8>,
    pub format: ImageFormat,
}

/// Chunking limits, counted in UTF-16 code units.
#[derive(Clone, Copy, Debug, PartialEq, Eq)]
pub struct ChunkOptions {
    pub max_chunk_chars: Option<usize>,
    pub chunk_overlap_chars: Option<usize>,
}

impl ChunkOptions {
    /// No limits.
    pub fn new() -> (o: ChunkOptions)
        ensures
            o.max_chunk_chars is None,
            o.chunk_overlap_chars is None,
    {
        ChunkOptions { max_chunk_chars: None, chunk_overlap_chars: None }
    }
}

/// One extracted entity.
#[derive(Debug, PartialEq, Eq)]
pub struct EntityFragment {
    pub id: String,
    pub group: Option<String>,
    pub file_id: String,
    pub range: ContentRange,
    pub content: Content,
    pub metadata: Option<EntityMetadata>,
}

/// An extracted entity with the compacted content used for its embedding, if any.
#[derive(Debug, PartialEq, Eq)]
pub struct IndexingExtractionFragment {
    pub fragment: EntityFragment,
    pub embedding_source: Option<Content>,
}

/// Why a source's metadata cannot be extracted from, if it cannot.
pub open spec fn source_file_error(f: SourceFile) -> Option<Seq<char>> {
    if trim(f.id@).len() == 0 {
        Some("extractor source requires a non-empty file id"@)
    } else if trim(f.absolute_path@).len() == 0 {
        Some("extractor source requires a non-empty absolute file path"@)
    } else if trim(f.relative_path@).len() == 0 {
        Some("extractor source requires a non-empty relative file path"@)
    } else {
        None
    }
}

fn blank(s: &str) -> (r: bool)
    ensures
        r == (trim(s@).len() == 0),
{
    let c = crate::text::chars_of(s);
    let t = crate::text::trim_chars(c.as_slice());
    t.len() == 0
}

/// Refuses a source whose id, absolute path or relative path is blank.
pub fn validate_source_file(file: &SourceFile) -> (r: Result<(), EngineError>)
    ensures
        match source_file_error(*file) {
            None => r is Ok,
            Some(m) => r matches Err(e) && e@ == (EngineErrorModel::InvalidInput { message: m }),
        },
{
    if blank(file.id.as_str()) {
        return Err(EngineError::invalid_input("extractor source requires a non-empty file id"));
    }
    if blank(file.absolute_path.as_str()) {
        return Err(EngineError::invalid_input("extractor source requires a non-empty absolute file path"));
    }
    if blank(file.relative_path.as_str()) {
        return Err(EngineError::invalid_input("extractor source requires a non-empty relative file path"));
    }
    Ok(())
}

/// The SHA-256 digest of bytes.
pub uninterp spec fn sha256_spec(data: Seq<u8>) -> Seq<u8>;

/// `sha2::Sha256::digest`: the 32-byte SHA-256 digest of `data`.
#[verifier::external_body]
fn sha256_digest(data: &[u8]) -> (d: Vec<u8>)
    ensures
        d@ == sha256_spec(data@),
        d@.len() == 32,
{
    sha2::Sha256::digest(data).to_vec()
}

/// A lower-case hexadecimal digit.
pub open spec fn hex_digit(v: nat) -> char {
    if v < 10 { ((48 + v) as u8) as char } else { ((97 + v - 10) as u8) as char }
}

/// Bytes as lower-case hexadecimal, two digits per byte.
pub open spec fn hex_of(b: Seq<u8>) -> Seq<char>
    decreases b.len(),
{
    if b.len() == 0 {
        seq![]
    } else {
        hex_of(b.drop_last()) + seq![hex_digit((b.last() / 16) as nat), hex_digit((b.last() % 16) as nat)]
    }
}

/// The ASCII bytes of a digit string.
pub open spec fn ascii_bytes(s: Seq<char>) -> Seq<u8> {
    s.map_values(|c: char| c as u8)
}

/// The bytes hashed into an entity id: the UTF-8 file id, a NUL byte, and the index in decimal.
pub open spec fn entity_id_message(file_id: Seq<char>, index: nat) -> Seq<u8> {
    vstd::utf8::encode_utf8(file_id) + seq![0u8] + ascii_bytes(decimal(index))
}

fn hex(v: u8) -> (c: char)
    requires
        v < 16,
    ensures
        c == hex_digit(v as nat),
{
    if v < 10 { (48 + v) as char } else { (97 + v - 10) as char }
}

/// The stable id of the `index`-th entity of a file: the hexadecimal SHA-256 digest of the
/// file id, a NUL byte and the index.
pub fn make_entity_id(file_id: &str, index: usize) -> (id: String)
    ensures
        id@ == hex_of(sha256_spec(entity_id_message(file_id@, index as nat))),
        id@.len() == 64,
{
    let bytes = file_id.as_bytes();
    let mut msg: Vec<u8> = Vec::new();
    let mut i: usize = 0;
    while i < bytes.len()
        invariant
            0 <= i <= bytes@.len(),
            bytes@ == file_id.spec_bytes(),
            msg@ == bytes@.take(i as int),
        decreases bytes@.len() - i,
    {
        msg.push(bytes[i]);
        assert(bytes@.take(i + 1) =~= bytes@.take(i as int).push(bytes@[i as int]));
        i += 1;
    }
    assert(bytes@.take(bytes@.len() as int) =~= bytes@);
    msg.push(0);
    let digits = crate::text::chars_of(crate::text::u64_to_string(index as u64).as_str());
    let ghost head = msg@;
    let mut k: usize = 0;
    while k < digits.len()
        invariant
            0 <= k <= digits@.len(),
            digits@ == decimal(index as nat),
            msg@ == head + ascii_bytes(digits@.take(k as int)),
        decreases digits@.len() - k,
    {
        let d: u8 = digits[k] as u8;
        msg.push(d);
        assert(ascii_bytes(digits@.take(k + 1)) =~= ascii_bytes(digits@.take(k as int)).push(d));
        k += 1;
    }
    assert(digits@.take(digits@.len() as int) =~= digits@);
    assert(msg@ =~= entity_id_message(file_id@, index as nat));
    let digest = sha256_digest(msg.as_slice());
    let mut out: Vec<char> = Vec::new();
    let mut j: usize = 0;
    while j < digest.len()
        invariant
            0 <= j <= digest@.len(),
            digest@.len() == 32,
            out@ == hex_of(digest@.take(j as int)),
            out@.len() == 2 * j,
        decreases digest@.len() - j,
    {
        let b = digest[j];
        out.push(hex(b / 16));
        out.push(hex(b % 16));
        assert(digest@.take(j + 1).drop_last() =~= digest@.take(j as int));
        j += 1;
    }
    assert(digest@.take(32) =~= digest@);
    string_of(&out)
}

/// The message of an image source without data.
pub open spec fn empty_image_message() -> Seq<char> {
    "image extractor requires non-empty image data"@
}

/// Extracts an image source: one entity covering the whole file with the image bytes and
/// format, after the source metadata is checked; an image without data is refused.
pub fn extract_image(source: &ImageSource) -> (r: Result<Vec<EntityFragment>, EngineError>)
    ensures
        match source_file_error(source.file) {
            Some(m) => r matches Err(e) && e@ == (EngineErrorModel::InvalidInput { message: m }),
            None => if source.data@.len() == 0 {
                r matches Err(e) && e@ == (EngineErrorModel::InvalidInput { message: empty_image_message() })
            } else {
                r matches Ok(v) && v@.len() == 1 && {
                    let f = v@[0];
                    &&& f.id@ == hex_of(sha256_spec(entity_id_message(source.file.id@, 0)))
                    &&& f.id@.len() == 64
                    &&& f.group is None
                    &&& f.file_id@ == source.file.id@
                    &&& f.range == ContentRange::File
                    &&& f.content matches Content::Image(img) && img.data@ == source.data@ && img.format == source.format
                    &&& f.metadata is None
                }
            },
        },
{
    match validate_source_file(&source.file) {
        Err(e) => { return Err(e); },
        Ok(()) => {},
    }
    if source.data.len() == 0 {
        return Err(EngineError::invalid_input("image extractor requires non-empty image data"));
    }
    let mut data: Vec<u8> = Vec::new();
    let mut i: usize = 0;
    while i < source.data.len()
        invariant
            0 <= i <= source.data@.len(),
            data@ == source.data@.take(i as int),
        decreases source.data@.len() - i,
    {
        data.push(source.data[i]);
        assert(source.data@.take(i + 1) =~= source.data@.take(i as int).push(source.data@[i as int]));
        i += 1;
    }
    assert(source.data@.take(source.data@.len() as int) =~= source.data@);
    let fragment = EntityFragment {
        id: make_entity_id(source.file.id.as_str(), 0),
        group: None,
        file_id: source.file.id.clone(),
        range: ContentRange::File,
        content: Content::Image(ImageContent { data, format: source.format }),
        metadata: None,
    };
    let mut v: Vec<EntityFragment> = Vec::new();
    v.push(fragment);
    Ok(v)
}

/// Extracts an image source for indexing: its entity, embedded as stored.
pub fn extract_for_indexing(source: &ImageSource, options: ChunkOptions) -> (r: Result<Vec<IndexingExtractionFragment>, EngineError>)
    ensures
        match r {
            Ok(v) => v@.len() == 1 && v@[0].embedding_source is None && {
                let f = v@[0].fragment;
                &&& source_file_error(source.file) is None
                &&& source.data@.len() > 0
                &&& f.id@ == hex_of(sha256_spec(entity_id_message(source.file.id@, 0)))
                &&& f.id@.len() == 64
                &&& f.group is None
                &&& f.file_id@ == source.file.id@
                &&& f.range == ContentRange::File
                &&& f.content matches Content::Image(img) && img.data@ == source.data@ && img.format == source.format
                &&& f.metadata is None
            },
            Err(e) => match source_file_error(source.file) {
                Some(m) => e@ == (EngineErrorModel::InvalidInput { message: m }),
                None => source.data@.len() == 0 && e@ == (EngineErrorModel::InvalidInput { message: empty_image_message() }),
            },
        },
{
    let mut fragments = match extract_image(source) {
        Err(e) => { return Err(e); },
        Ok(f) => f,
    };
    let fragment = fragments.pop().unwrap();
    let mut v: Vec<IndexingExtractionFragment> = Vec::new();
    v.push(IndexingExtractionFragment { fragment, embedding_source: None });
    Ok(v)
}

/// Extracts an image source: the entities of [`extract_for_indexing`] without their
/// embedding sources.
pub fn extract(source: &ImageSource, options: ChunkOptions) -> (r: Result<Vec<EntityFragment>, EngineError>)
    ensures
        match r {
            Ok(v) => v@.len() == 1 && source_file_error(source.file) is None && source.data@.len() > 0 && {
                let f = v@[0];
                &&& f.id@ == hex_of(sha256_spec(entity_id_message(source.file.id@, 0)))
                &&& f.id@.len() == 64
                &&& f.group is None
                &&& f.file_id@ == source.file.id@
                &&& f.range == ContentRange::File
                &&& f.content matches Content::Image(img) && img.data@ == source.data@ && img.format == source.format
                &&& f.metadata is None
            },
            Err(e) => match source_file_error(source.file) {
                Some(m) => e@ == (EngineErrorModel::InvalidInput { message: m }),
                None => source.data@.len() == 0 && e@ == (EngineErrorModel::InvalidInput { message: empty_image_message() }),
            },
        },
{
    let mut items = match extract_for_indexing(source, options) {
        Err(e) => { return Err(e); },
        Ok(v) => v,
    };
    let item = items.pop().unwrap();
    let mut v: Vec<EntityFragment> = Vec::new();
    v.push(item.fragment);
    Ok(v)
}

} // verus!

verus! {

/// The length of a text in UTF-16 code units.
pub fn char_count(value: &str) -> (n: usize)
    requires
        utf16_len(value@) <= usize::MAX,
    ensures
        n == utf16_len(value@),
{
    let c = crate::text::chars_of(value);
    crate::ripgrep::utf16_count_chars(c.as_slice())
}

/// The longest prefix of `s` whose UTF-16 length is at most `n`.
pub open spec fn take16(s: Seq<char>, n: nat) -> Seq<char>
    decreases s.len(),
{
    if s.len() == 0 || char_utf16_len(s[0]) > n {
        seq![]
    } else {
        seq![s[0]] + take16(s.drop_first(), (n - char_utf16_len(s[0])) as nat)
    }
}

/// The number of characters in [`take16`].
pub open spec fn take16_count(s: Seq<char>, n: nat) -> nat
    decreases s.len(),
{
    if s.len() == 0 || char_utf16_len(s[0]) > n {
        0
    } else {
        1 + take16_count(s.drop_first(), (n - char_utf16_len(s[0])) as nat)
    }
}

proof fn lemma_take16_is_prefix(s: Seq<char>, n: nat)
    ensures
        take16_count(s, n) <= s.len(),
        take16(s, n) == s.take(take16_count(s, n) as int),
        utf16_len(take16(s, n)) <= n,
        take16_count(s, n) == s.len() <==> utf16_len(s) <= n,
    decreases s.len(),
{
    if s.len() == 0 {
        assert(s.take(0) =~= s);
    } else if char_utf16_len(s[0]) > n {
        assert(s.take(0) =~= Seq::<char>::empty());
        lemma_utf16_front(s);
    } else {
        let r = (n - char_utf16_len(s[0])) as nat;
        lemma_take16_is_prefix(s.drop_first(), r);
        let k = take16_count(s.drop_first(), r);
        assert(s.take(k as int + 1) =~= seq![s[0]] + s.drop_first().take(k as int));
        lemma_utf16_front(seq![s[0]] + take16(s.drop_first(), r));
        assert((seq![s[0]] + take16(s.drop_first(), r)).drop_first() =~= take16(s.drop_first(), r));
        lemma_utf16_front(s);
    }
}

/// The UTF-16 length counts the first character and the rest.
pub proof fn lemma_utf16_front(s: Seq<char>)
    requires
        s.len() > 0,
    ensures
        utf16_len(s) == char_utf16_len(s[0]) + utf16_len(s.drop_first()),
    decreases s.len(),
{
    if s.len() == 1 {
        assert(s.drop_last() =~= Seq::<char>::empty());
        assert(s.drop_first() =~= Seq::<char>::empty());
    } else {
        lemma_utf16_front(s.drop_last());
        assert(s.drop_last().drop_first() =~= s.drop_first().drop_last());
        assert(s.drop_first().last() == s.last());
    }
}

/// The longest prefix of a text whose UTF-16 length is at most `count`.
pub fn take_chars(value: &str, count: usize) -> (out: String)
    ensures
        out@ == take16(value@, count as nat),
{
    let s = crate::text::chars_of(value);
    let ghost sv = s@;
    let mut out: Vec<char> = Vec::new();
    let mut units: usize = 0;
    let mut i: usize = 0;
    assert(sv.skip(0) =~= sv);
    while i < s.len()
        invariant
            sv == s@,
            sv == value@,
            0 <= i <= sv.len(),
            units <= count,
            out@ + take16(sv.skip(i as int), (count - units) as nat) == take16(sv, count as nat),
        decreases sv.len() - i,
    {
        let c = s[i];
        let l: usize = if (c as u32) < 0x10000 { 1 } else { 2 };
        assert(sv.skip(i as int)[0] == c);
        assert(sv.skip(i as int).drop_first() =~= sv.skip(i + 1));
        if l > count - units {
            assert(take16(sv.skip(i as int), (count - units) as nat) =~= Seq::<char>::empty());
            assert(out@ =~= take16(sv, count as nat));
            return crate::text::string_of(&out);
        }
        out.push(c);
        units = units + l;
        i += 1;
    }
    assert(take16(sv.skip(i as int), (count - units) as nat) =~= Seq::<char>::empty());
    assert(out@ =~= take16(sv, count as nat));
    crate::text::string_of(&out)
}

/// The byte index of the first character that ends past UTF-16 offset `n` (the text's
/// length when none does).
pub open spec fn floor_bytes(s: Seq<char>, n: nat) -> nat
    decreases s.len(),
{
    if s.len() == 0 || char_utf16_len(s[0]) > n {
        0
    } else {
        crate::text::char_utf8_len(s[0]) + floor_bytes(s.drop_first(), (n - char_utf16_len(s[0])) as nat)
    }
}

/// The byte index at UTF-16 offset `n`, rounded up past a character that straddles it.
pub open spec fn ceil_bytes(s: Seq<char>, n: nat) -> nat
    decreases s.len(),
{
    if s.len() == 0 || n == 0 {
        0
    } else if char_utf16_len(s[0]) > n {
        crate::text::char_utf8_len(s[0])
    } else {
        crate::text::char_utf8_len(s[0]) + ceil_bytes(s.drop_first(), (n - char_utf16_len(s[0])) as nat)
    }
}

proof fn lemma_bytes_bounded(s: Seq<char>, n: nat)
    ensures
        floor_bytes(s, n) <= crate::text::utf8_len(s),
        ceil_bytes(s, n) <= crate::text::utf8_len(s),
    decreases s.len(),
{
    if s.len() > 0 {
        lemma_utf8_front(s);
        if char_utf16_len(s[0]) <= n {
            lemma_bytes_bounded(s.drop_first(), (n - char_utf16_len(s[0])) as nat);
        }
    }
}

/// The UTF-8 length counts the first character and the rest.
pub proof fn lemma_utf8_front(s: Seq<char>)
    requires
        s.len() > 0,
    ensures
        crate::text::utf8_len(s) == crate::text::char_utf8_len(s[0]) + crate::text::utf8_len(s.drop_first()),
    decreases s.len(),
{
    if s.len() == 1 {
        assert(s.drop_last() =~= Seq::<char>::empty());
        assert(s.drop_first() =~= Seq::<char>::empty());
    } else {
        lemma_utf8_front(s.drop_last());
        assert(s.drop_last().drop_first() =~= s.drop_first().drop_last());
        assert(s.drop_first().last() == s.last());
    }
}

/// The byte index of the character at UTF-16 offset `utf16_offset` (rounding down).
pub fn byte_index_at_utf16(value: &str, utf16_offset: usize) -> (n: usize)
    requires
        crate::text::utf8_len(value@) <= usize::MAX,
    ensures
        n == floor_bytes(value@, utf16_offset as nat),
{
    let s = crate::text::chars_of(value);
    let ghost sv = s@;
    let mut bytes: usize = 0;
    let mut units: usize = 0;
    let mut i: usize = 0;
    assert(sv.skip(0) =~= sv);
    while i < s.len()
        invariant
            sv == s@,
            sv == value@,
            0 <= i <= sv.len(),
            units <= utf16_offset,
            bytes + floor_bytes(sv.skip(i as int), (utf16_offset - units) as nat) == floor_bytes(sv, utf16_offset as nat),
            bytes + crate::text::utf8_len(sv.skip(i as int)) == crate::text::utf8_len(sv),
            crate::text::utf8_len(sv) <= usize::MAX,
        decreases sv.len() - i,
    {
        let c = s[i];
        let l16: usize = if (c as u32) < 0x10000 { 1 } else { 2 };
        let l8 = crate::text::char_len_utf8(c);
        assert(sv.skip(i as int)[0] == c);
        assert(sv.skip(i as int).drop_first() =~= sv.skip(i + 1));
        proof { lemma_utf8_front(sv.skip(i as int)); }
        if l16 > utf16_offset - units {
            return bytes;
        }
        bytes = bytes + l8;
        units = units + l16;
        i += 1;
    }
    bytes
}

/// The byte index at UTF-16 offset `utf16_offset`, rounding up past a straddled character.
pub fn byte_index_at_utf16_ceil(value: &str, utf16_offset: usize) -> (n: usize)
    requires
        crate::text::utf8_len(value@) <= usize::MAX,
    ensures
        n == ceil_bytes(value@, utf16_offset as nat),
{
    let s = crate::text::chars_of(value);
    let ghost sv = s@;
    let mut bytes: usize = 0;
    let mut units: usize = 0;
    let mut i: usize = 0;
    assert(sv.skip(0) =~= sv);
    while i < s.len()
        invariant
            sv == s@,
            sv == value@,
            0 <= i <= sv.len(),
            units <= utf16_offset,
            bytes + ceil_bytes(sv.skip(i as int), (utf16_offset - units) as nat) == ceil_bytes(sv, utf16_offset as nat),
            bytes + crate::text::utf8_len(sv.skip(i as int)) == crate::text::utf8_len(sv),
            crate::text::utf8_len(sv) <= usize::MAX,
        decreases sv.len() - i,
    {
        let c = s[i];
        let l16: usize = if (c as u32) < 0x10000 { 1 } else { 2 };
        let l8 = crate::text::char_len_utf8(c);
        assert(sv.skip(i as int)[0] == c);
        assert(sv.skip(i as int).drop_first() =~= sv.skip(i + 1));
        proof { lemma_utf8_front(sv.skip(i as int)); }
        if units >= utf16_offset {
            return bytes;
        }
        if l16 > utf16_offset - units {
            return bytes + l8;
        }
        bytes = bytes + l8;
        units = units + l16;
        i += 1;
    }
    bytes
}

} // verus!

verus! {

/// Three dots.
pub open spec fn ellipsis() -> Seq<char> {
    seq!['.', '.', '.']
}

/// A text fitted to `max` UTF-16 units: unchanged when it fits; else dots only when the
/// limit is 3 or less; else its longest fitting prefix of `max - 3` units, without trailing
/// whitespace, followed by three dots.
pub open spec fn fit_spec(v: Seq<char>, max: nat) -> Seq<char> {
    if utf16_len(v) <= max {
        v
    } else if max <= 3 {
        Seq::new(max, |i: int| '.')
    } else {
        crate::text::trim_end(take16(v, (max - 3) as nat)) + ellipsis()
    }
}

/// The UTF-16 length of a concatenation.
pub proof fn lemma_utf16_concat(a: Seq<char>, b: Seq<char>)
    ensures
        utf16_len(a + b) == utf16_len(a) + utf16_len(b),
    decreases b.len(),
{
    if b.len() == 0 {
        assert(a + b =~= a);
    } else {
        lemma_utf16_concat(a, b.drop_last());
        assert((a + b).drop_last() =~= a + b.drop_last());
    }
}

proof fn lemma_utf16_dots(n: nat)
    ensures
        utf16_len(Seq::new(n, |i: int| '.')) == n,
    decreases n,
{
    if n > 0 {
        lemma_utf16_dots((n - 1) as nat);
        assert(Seq::new(n, |i: int| '.').drop_last() =~= Seq::new((n - 1) as nat, |i: int| '.'));
    }
}

proof fn lemma_utf16_trim_end(x: Seq<char>)
    ensures
        utf16_len(crate::text::trim_end(x)) <= utf16_len(x),
    decreases x.len(),
{
    if x.len() > 0 && crate::text::is_whitespace(x.last()) {
        lemma_utf16_trim_end(x.drop_last());
    }
}

/// A fitted text is within its limit.
pub proof fn lemma_fit_bound(v: Seq<char>, max: nat)
    ensures
        utf16_len(fit_spec(v, max)) <= max,
{
    if utf16_len(v) <= max {
    } else if max <= 3 {
        lemma_utf16_dots(max);
    } else {
        lemma_take16_is_prefix(v, (max - 3) as nat);
        lemma_utf16_trim_end(take16(v, (max - 3) as nat));
        lemma_utf16_concat(crate::text::trim_end(take16(v, (max - 3) as nat)), ellipsis());
        assert(utf16_len(ellipsis()) == 3) by {
            reveal_with_fuel(utf16_len, 4);
        }
    }
}

fn utf16_at_most(c: &[char], max: usize) -> (r: bool)
    ensures
        r == (utf16_len(c@) <= max),
{
    let mut units: usize = 0;
    let mut i: usize = 0;
    while i < c.len()
        invariant
            0 <= i <= c@.len(),
            units == utf16_len(c@.take(i as int)),
            units <= max,
        decreases c@.len() - i,
    {
        assert(c@.take(i + 1).drop_last() =~= c@.take(i as int));
        let u: usize = if (c[i] as u32) < 0x10000 { 1 } else { 2 };
        if max - units < u {
            proof {
                lemma_utf16_prefix(c@, i + 1);
            }
            return false;
        }
        units += u;
        i += 1;
    }
    assert(c@.take(c@.len() as int) =~= c@);
    true
}

proof fn lemma_utf16_prefix(s: Seq<char>, k: int)
    requires
        0 <= k <= s.len(),
    ensures
        utf16_len(s.take(k)) <= utf16_len(s),
    decreases s.len() - k,
{
    if k < s.len() {
        lemma_utf16_prefix(s, k + 1);
        assert(s.take(k + 1).drop_last() =~= s.take(k));
    } else {
        assert(s.take(k) =~= s);
    }
}

/// Fits a text to `max_chars` UTF-16 units (see [`fit_spec`]).
pub fn fit_text_to_chars(value: &str, max_chars: usize) -> (out: String)
    ensures
        out@ == fit_spec(value@, max_chars as nat),
{
    let c = crate::text::chars_of(value);
    if utf16_at_most(c.as_slice(), max_chars) {
        return value.to_owned();
    }
    if max_chars <= 3 {
        let mut dots: Vec<char> = Vec::new();
        let mut k: usize = 0;
        while k < max_chars
            invariant
                0 <= k <= max_chars,
                dots@ == Seq::new(k as nat, |i: int| '.'),
            decreases max_chars - k,
        {
            dots.push('.');
            assert(dots@ =~= Seq::new((k + 1) as nat, |i: int| '.'));
            k += 1;
        }
        return crate::text::string_of(&dots);
    }
    let prefix = take_chars(value, max_chars - 3);
    let pc = crate::text::chars_of(prefix.as_str());
    let mut out = crate::text::trim_end_chars(pc.as_slice());
    out.push('.');
    out.push('.');
    out.push('.');
    assert(out@ =~= crate::text::trim_end(take16(value@, (max_chars - 3) as nat)) + ellipsis());
    crate::text::string_of(&out)
}

/// The words of `s[start..]` (runs of non-whitespace), where the current word began at
/// `start` and `s[start..i]` holds no whitespace.
pub open spec fn words_from(s: Seq<char>, start: int, i: int) -> Seq<Seq<char>>
    decreases s.len() - i,
{
    if i < start || i >= s.len() {
        if start < s.len() { seq![s.subrange(start, s.len() as int)] } else { seq![] }
    } else if crate::text::is_whitespace(s[i]) {
        (if start < i { seq![s.subrange(start, i)] } else { seq![] }) + words_from(s, i + 1, i + 1)
    } else {
        words_from(s, start, i + 1)
    }
}

/// Texts joined with single spaces.
pub open spec fn join_spaces(ws: Seq<Seq<char>>) -> Seq<char>
    decreases ws.len(),
{
    if ws.len() == 0 {
        seq![]
    } else if ws.len() == 1 {
        ws[0]
    } else {
        join_spaces(ws.drop_last()) + seq![' '] + ws.last()
    }
}

/// A text on one line: its words joined with single spaces.
pub open spec fn one_line_spec(s: Seq<char>) -> Seq<char> {
    join_spaces(words_from(s, 0, 0))
}

fn push_word(out: &mut Vec<char>, words: usize, w: &[char]) -> (n: usize)
    requires
        words < usize::MAX,
    ensures
        n == words + 1,
        words == 0 ==> final(out)@ == old(out)@ + w@,
        words > 0 ==> final(out)@ == old(out)@ + seq![' '] + w@,
{
    if words > 0 {
        out.push(' ');
    }
    crate::text::append_chars(out, w);
    words + 1
}

/// A text on one line (`split_whitespace` joined with spaces).
pub fn one_line(value: &str) -> (out: String)
    ensures
        out@ == one_line_spec(value@),
{
    let s = crate::text::chars_of(value);
    let ghost sv = s@;
    let mut out: Vec<char> = Vec::new();
    let ghost mut done: Seq<Seq<char>> = seq![];
    let mut words: usize = 0;
    let mut start: usize = 0;
    let mut i: usize = 0;
    while i < s.len()
        invariant
            sv == s@,
            sv == value@,
            start <= i <= sv.len(),
            words == done.len(),
            words <= start,
            out@ == join_spaces(done),
            done + words_from(sv, start as int, i as int) == words_from(sv, 0, 0),
        decreases sv.len() - i,
    {
        if crate::text::char_is_whitespace(s[i]) {
            let ghost (s0, i0) = (start as int, i as int);
            if start < i {
                let w = crate::text::slice_chars(s.as_slice(), start, i);
                let ghost before = done;
                words = push_word(&mut out, words, w.as_slice());
                proof {
                    done = before.push(w@);
                    assert(done.drop_last() =~= before);
                }
            }
            i += 1;
            start = i;
            proof {
                if s0 < i0 {
                    assert(words_from(sv, s0, i0) == seq![sv.subrange(s0, i0)] + words_from(sv, i0 + 1, i0 + 1));
                } else {
                    assert(words_from(sv, s0, i0) =~= words_from(sv, i0 + 1, i0 + 1));
                }
            }
        } else {
            i += 1;
        }
    }
    if start < s.len() {
        let w = crate::text::slice_chars(s.as_slice(), start, s.len());
        let ghost before = done;
        words = push_word(&mut out, words, w.as_slice());
        proof {
            done = before.push(w@);
            assert(done.drop_last() =~= before);
        }
    }
    assert(done =~= words_from(sv, 0, 0));
    crate::text::string_of(&out)
}

} // verus!

verus! {

use crate::service::{join_with_newlines, joined};

/// The name of a symbol kind.
pub open spec fn symbol_type_name_spec(t: SymbolType) -> Seq<char> {
    match t {
        SymbolType::Module => "module"@,
        SymbolType::Class => "class"@,
        SymbolType::Interface => "interface"@,
        SymbolType::Function => "function"@,
        SymbolType::Value => "value"@,
        SymbolType::Alias => "alias"@,
    }
}

/// The name of a symbol kind.
pub fn symbol_type_name(t: SymbolType) -> (s: &'static str)
    ensures
        s@ == symbol_type_name_spec(t),
{
    match t {
        SymbolType::Module => "module",
        SymbolType::Class => "class",
        SymbolType::Interface => "interface",
        SymbolType::Function => "function",
        SymbolType::Value => "value",
        SymbolType::Alias => "alias",
    }
}

/// The share of a content budget that metadata may take: a quarter.
pub open spec fn metadata_budget_spec(max: Option<usize>) -> Option<usize> {
    match max {
        Some(v) => Some((v / 4) as usize),
        None => None,
    }
}

/// The share of a content budget that metadata may take.
pub fn metadata_budget(max_chars: Option<usize>) -> (r: Option<usize>)
    ensures
        r == metadata_budget_spec(max_chars),
{
    match max_chars {
        Some(v) => Some(v / 4),
        None => None,
    }
}

/// The present lines among optional ones.
pub open spec fn present_lines(ls: Seq<Option<Seq<char>>>) -> Seq<Seq<char>>
    decreases ls.len(),
{
    if ls.len() == 0 {
        seq![]
    } else {
        present_lines(ls.drop_last()) + match ls.last() {
            Some(l) => seq![l],
            None => seq![],
        }
    }
}

/// A labelled line when a value is present.
pub open spec fn labelled(label: Seq<char>, v: Option<Seq<char>>) -> Option<Seq<char>> {
    match v {
        Some(x) => Some(label + x),
        None => None,
    }
}

/// The metadata lines of an entity: for code, its symbol kind and name, scope, one-line
/// signature, modifiers and one-line documentation; for Markdown, its heading, level and
/// scope. Absent parts give no line.
pub open spec fn metadata_lines(m: EntityMetadata) -> Seq<Option<Seq<char>>> {
    match m {
        EntityMetadata::Code { symbol_type, symbol_name, scope, signature, documentation, modifiers, .. } => seq![
            Some(match symbol_name {
                Some(n) => "symbol: "@ + symbol_type_name_spec(symbol_type) + " "@ + n@,
                None => "symbol: "@ + symbol_type_name_spec(symbol_type),
            }),
            labelled("scope: "@, scope.deep_view()),
            match signature { Some(s) => Some("signature: "@ + one_line_spec(s@)), None => None },
            if modifiers@.len() > 0 { Some("modifiers: "@ + join_spaces(modifiers.deep_view())) } else { None },
            match documentation { Some(d) => Some("doc: "@ + one_line_spec(d@)), None => None },
        ],
        EntityMetadata::Markdown { heading, level, scope } => seq![
            labelled("heading: "@, heading.deep_view()),
            match level { Some(l) => Some("heading_level: "@ + decimal(l as nat)), None => None },
            labelled("scope: "@, scope.deep_view()),
        ],
    }
}

/// The metadata text prepended to embedded content: the metadata lines joined with `\n`,
/// fitted to the budget when one is given; empty without metadata.
pub open spec fn metadata_text_spec(m: Option<EntityMetadata>, max: Option<usize>) -> Seq<char> {
    match m {
        None => seq![],
        Some(md) => {
            let text = joined(present_lines(metadata_lines(md)));
            match max {
                Some(l) => fit_spec(text, l as nat),
                None => text,
            }
        },
    }
}

proof fn lemma_present_push(a: Seq<Option<Seq<char>>>, x: Option<Seq<char>>)
    ensures
        present_lines(a.push(x)) == present_lines(a) + match x { Some(l) => seq![l], None => Seq::<Seq<char>>::empty() },
{
    assert(a.push(x).drop_last() =~= a);
}

fn push_line(lines: &mut Vec<String>, line: Option<String>)
    ensures
        final(lines).deep_view() == old(lines).deep_view() + match line { Some(l) => seq![l@], None => Seq::<Seq<char>>::empty() },
{
    match line {
        Some(l) => crate::text::push_string(lines, l),
        None => {
            assert(lines.deep_view() =~= lines.deep_view() + Seq::<Seq<char>>::empty());
        },
    }
}

fn concat(a: &str, b: &str) -> (s: String)
    ensures
        s@ == a@ + b@,
{
    let mut out: Vec<char> = Vec::new();
    append_str(&mut out, a);
    append_str(&mut out, b);
    string_of(&out)
}

fn join_words(words: &Vec<String>) -> (s: String)
    ensures
        s@ == join_spaces(words.deep_view()),
{
    let ghost wv = words.deep_view();
    let mut out: Vec<char> = Vec::new();
    let mut k: usize = 0;
    while k < words.len()
        invariant
            wv == words.deep_view(),
            0 <= k <= wv.len(),
            out@ == join_spaces(wv.take(k as int)),
        decreases wv.len() - k,
    {
        let ghost before = out@;
        if k > 0 {
            out.push(' ');
        }
        append_str(&mut out, words[k].as_str());
        proof {
            let next = wv.take(k + 1);
            assert(next.drop_last() =~= wv.take(k as int));
            if k == 0 {
                assert(out@ =~= next[0]);
            } else {
                assert(out@ =~= before + seq![' '] + next.last());
            }
        }
        k += 1;
    }
    assert(wv.take(wv.len() as int) =~= wv);
    string_of(&out)
}

fn labelled_line(label: &str, v: &Option<String>) -> (r: Option<String>)
    ensures
        match r { Some(s) => Some(s@), None => None::<Seq<char>> } == labelled(label@, v.deep_view()),
{
    match v {
        Some(x) => Some(concat(label, x.as_str())),
        None => None,
    }
}

/// The metadata text of an entity (see [`metadata_text_spec`]).
pub fn vector_metadata_text(metadata: Option<&EntityMetadata>, max_chars: Option<usize>) -> (s: String)
    ensures
        s@ == metadata_text_spec(match metadata { Some(m) => Some(*m), None => None }, max_chars),
{
    let m = match metadata {
        None => { return String::new(); },
        Some(m) => m,
    };
    let mut lines: Vec<String> = Vec::new();
    let ghost mut opt: Seq<Option<Seq<char>>> = seq![];
    match m {
        EntityMetadata::Code { symbol_type, symbol_name, scope, signature, documentation, modifiers, .. } => {
            let head = concat("symbol: ", symbol_type_name(*symbol_type));
            let first = match symbol_name {
                Some(n) => {
                    let with_space = concat(head.as_str(), " ");
                    concat(with_space.as_str(), n.as_str())
                },
                None => head,
            };
            let ghost ls = metadata_lines(*m);
            let ghost opt0 = ls[0];
            proof { lemma_present_push(Seq::<Option<Seq<char>>>::empty(), opt0); }
            push_line(&mut lines, Some(first));
            let scope_line = labelled_line("scope: ", scope);
            proof { lemma_present_push(ls.take(1), ls[1]); assert(ls.take(1) =~= seq![ls[0]]); assert(present_lines(Seq::<Option<Seq<char>>>::empty()) =~= Seq::<Seq<char>>::empty()); }
            push_line(&mut lines, scope_line);
            let sig = match signature {
                Some(s) => {
                    let o = one_line(s.as_str());
                    Some(concat("signature: ", o.as_str()))
                },
                None => None,
            };
            proof { lemma_present_push(ls.take(2), ls[2]); assert(ls.take(2) =~= ls.take(1).push(ls[1])); }
            push_line(&mut lines, sig);
            let mods = if modifiers.len() > 0 {
                let j = join_words(modifiers);
                Some(concat("modifiers: ", j.as_str()))
            } else {
                None
            };
            proof { lemma_present_push(ls.take(3), ls[3]); assert(ls.take(3) =~= ls.take(2).push(ls[2])); }
            push_line(&mut lines, mods);
            let doc = match documentation {
                Some(d) => {
                    let o = one_line(d.as_str());
                    Some(concat("doc: ", o.as_str()))
                },
                None => None,
            };
            proof { lemma_present_push(ls.take(4), ls[4]); assert(ls.take(4) =~= ls.take(3).push(ls[3])); }
            push_line(&mut lines, doc);
            proof {
                assert(ls =~= ls.take(4).push(ls[4]));
                assert(lines.deep_view() =~= present_lines(ls));
            }
        },
        EntityMetadata::Markdown { heading, level, scope } => {
            let ghost ls = metadata_lines(*m);
            let head = labelled_line("heading: ", heading);
            proof {
                lemma_present_push(Seq::<Option<Seq<char>>>::empty(), ls[0]);
                assert(present_lines(Seq::<Option<Seq<char>>>::empty()) =~= Seq::<Seq<char>>::empty());
            }
            push_line(&mut lines, head);
            let lv = match level {
                Some(l) => {
                    let n = crate::text::u64_to_string(*l as u64);
                    Some(concat("heading_level: ", n.as_str()))
                },
                None => None,
            };
            proof { lemma_present_push(ls.take(1), ls[1]); assert(ls.take(1) =~= seq![ls[0]]); }
            push_line(&mut lines, lv);
            let sc = labelled_line("scope: ", scope);
            proof { lemma_present_push(ls.take(2), ls[2]); assert(ls.take(2) =~= ls.take(1).push(ls[1])); }
            push_line(&mut lines, sc);
            proof {
                assert(ls =~= ls.take(2).push(ls[2]));
                assert(lines.deep_view() =~= present_lines(ls));
            }
        },
    }
    let text = join_with_newlines(&lines);
    match max_chars {
        Some(limit) => fit_text_to_chars(text.as_str(), limit),
        None => text,
    }
}

/// The chunk size and overlap left for content once the metadata text (fitted to a quarter
/// of the chunk size) and its separating newline are set aside: at least 1, with an overlap
/// below it.
pub open spec fn chunk_options_spec(max_chunk: usize, overlap: usize, m: Option<EntityMetadata>) -> (usize, usize) {
    let text = metadata_text_spec(m, Some((max_chunk / 4) as usize));
    let used: int = utf16_len(text) + (if text.len() > 0 { 1int } else { 0int });
    let left: int = if max_chunk >= used { max_chunk - used } else { 0 };
    let content_max: int = if left < 1 { 1 } else { left };
    let cap: int = content_max - 1;
    ((content_max) as usize, (if overlap < cap { overlap as int } else { cap }) as usize)
}

/// The chunk limits left for content next to an entity's metadata (see [`chunk_options_spec`]).
pub fn chunk_options_for_metadata(max_chunk_chars: usize, chunk_overlap_chars: usize, metadata: Option<&EntityMetadata>) -> (r: (usize, usize))
    ensures
        r == chunk_options_spec(max_chunk_chars, chunk_overlap_chars, match metadata { Some(m) => Some(*m), None => None }),
{
    let text = vector_metadata_text(metadata, metadata_budget(Some(max_chunk_chars)));
    proof {
        let md = match metadata { Some(m) => Some(*m), None => None::<EntityMetadata> };
        match md {
            Some(m) => { lemma_fit_bound(joined(present_lines(metadata_lines(m))), (max_chunk_chars / 4) as nat); },
            None => {},
        }
    }
    let separator: usize = if text.as_str().is_empty() { 0 } else { 1 };
    let count = char_count(text.as_str());
    let used = count + separator;
    let left = if max_chunk_chars >= used { max_chunk_chars - used } else { 0 };
    let content_max = if left < 1 { 1 } else { left };
    let cap = content_max - 1;
    let overlap = if chunk_overlap_chars < cap { chunk_overlap_chars } else { cap };
    (content_max, overlap)
}

fn copy_content(c: &Content) -> (out: Content)
    ensures
        crate::common::content_view(out) == crate::common::content_view(*c),
{
    match c {
        Content::Text(t) => Content::Text(t.clone()),
        Content::Image(img) => {
            let mut data: Vec<u8> = Vec::new();
            let mut i: usize = 0;
            while i < img.data.len()
                invariant
                    0 <= i <= img.data@.len(),
                    data@ == img.data@.take(i as int),
                decreases img.data@.len() - i,
            {
                data.push(img.data[i]);
                assert(img.data@.take(i + 1) =~= img.data@.take(i as int).push(img.data@[i as int]));
                i += 1;
            }
            assert(img.data@.take(img.data@.len() as int) =~= img.data@);
            Content::Image(ImageContent { data, format: img.format })
        },
    }
}

/// The content embedded for an entity: its compacted source when given, else its content;
/// text gets the entity's metadata text (fitted to a quarter of the budget) on a line
/// before it, unless that text is empty; images are embedded as they are.
pub open spec fn vector_content_spec(f: EntityFragment, embedding: Option<Content>, max: Option<usize>) -> crate::common::ContentModel {
    let c = match embedding { Some(e) => e, None => f.content };
    match c {
        Content::Image(_) => crate::common::content_view(c),
        Content::Text(t) => {
            let meta = metadata_text_spec(f.metadata, metadata_budget_spec(max));
            if meta.len() == 0 {
                crate::common::content_view(c)
            } else {
                crate::common::ContentModel::Text(meta + seq!['\n'] + t@)
            }
        },
    }
}

/// The content embedded for an entity (see [`vector_content_spec`]).
pub fn vector_content_for_fragment(fragment: &EntityFragment, embedding_content: Option<&Content>, max_chars: Option<usize>) -> (c: Content)
    ensures
        crate::common::content_view(c) == vector_content_spec(*fragment, match embedding_content { Some(e) => Some(*e), None => None }, max_chars),
{
    let content = match embedding_content {
        Some(e) => e,
        None => &fragment.content,
    };
    let text = match content {
        Content::Image(_) => { return copy_content(content); },
        Content::Text(t) => t,
    };
    let metadata = match &fragment.metadata {
        Some(m) => vector_metadata_text(Some(m), metadata_budget(max_chars)),
        None => vector_metadata_text(None, metadata_budget(max_chars)),
    };
    if metadata.as_str().is_empty() {
        return copy_content(content);
    }
    let mut out: Vec<char> = Vec::new();
    append_str(&mut out, metadata.as_str());
    out.push('\n');
    append_str(&mut out, text.as_str());
    assert(metadata@ == metadata_text_spec(fragment.metadata, metadata_budget_spec(max_chars)));
    assert(out@ =~= metadata@ + seq!['\n'] + text@);
    Content::Text(string_of(&out))
}

} // verus!
