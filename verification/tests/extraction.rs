use zvec_grep::common::{Content, ContentRange, FileKind, ImageContent, ImageFormat};
use zvec_grep::extraction::{
    extract, extract_for_indexing, extract_image, fit_text_to_chars, make_entity_id, one_line, ChunkOptions, ImageSource,
    SourceFile,
};

fn test_file(kind: FileKind, format: &str, relative_path: &str, size_bytes: u64) -> SourceFile {
    SourceFile {
        id: "file-png".to_string(),
        absolute_path: format!("/repo/{relative_path}"),
        relative_path: relative_path.to_string(),
        root_path: "/repo".to_string(),
        size_bytes,
        modified_epoch_ms: Some(1),
        content_hash: None,
        kind,
        format: format.to_string(),
    }
}

fn image_source(data: Vec<u8>) -> ImageSource {
    ImageSource { file: test_file(FileKind::Image, "png", "fixture.png", data.len() as u64), data, format: ImageFormat::Png }
}

#[test]
fn preserves_image_bytes_format_and_file_range() {
    let source = image_source(vec![1, 2, 3]);
    let fragments = extract_image(&source).expect("image extraction");
    assert_eq!(fragments.len(), 1);
    assert_eq!(fragments[0].id.len(), 64);
    assert_eq!(fragments[0].file_id, source.file.id);
    assert_eq!(fragments[0].range, ContentRange::File);
    assert_eq!(fragments[0].group, None);
    assert_eq!(fragments[0].metadata, None);
    assert_eq!(fragments[0].content, Content::Image(ImageContent { data: vec![1, 2, 3], format: ImageFormat::Png }));
}

#[test]
fn rejects_empty_data_and_invalid_source_metadata() {
    assert!(extract_image(&image_source(Vec::new())).is_err());

    let mut missing_id = image_source(vec![1]);
    missing_id.file.id.clear();
    assert!(extract_image(&missing_id).is_err());

    let mut missing_absolute_path = image_source(vec![1]);
    missing_absolute_path.file.absolute_path.clear();
    assert!(extract_image(&missing_absolute_path).is_err());

    let mut missing_relative_path = image_source(vec![1]);
    missing_relative_path.file.relative_path.clear();
    assert!(extract_image(&missing_relative_path).is_err());
}

#[test]
fn source_router_and_indexing_preserve_the_image_fragment() {
    let source = image_source(vec![4, 5, 6]);
    let direct = extract(&source, ChunkOptions::new()).expect("direct extraction");
    let indexing = extract_for_indexing(&source, ChunkOptions::new()).expect("indexing extraction");

    assert_eq!(indexing.len(), 1);
    assert_eq!(direct.len(), 1);
    assert_eq!(direct[0], indexing[0].fragment);
    assert_eq!(indexing[0].embedding_source, None);
}

#[test]
fn entity_ids_are_sha256_hex_and_depend_on_file_and_index() {
    let first = make_entity_id("file-png", 0);
    assert_eq!(first.len(), 64);
    assert!(first.chars().all(|c| c.is_ascii_hexdigit() && !c.is_ascii_uppercase()));
    assert_eq!(first, make_entity_id("file-png", 0));
    assert_ne!(first, make_entity_id("file-png", 1));
    assert_ne!(first, make_entity_id("other", 0));
    let fragments = extract_image(&image_source(vec![9])).expect("image extraction");
    assert_eq!(fragments[0].id, first);
}

#[test]
fn blank_metadata_messages_name_the_missing_field() {
    let mut blank_id = image_source(vec![1]);
    blank_id.file.id = "   ".to_string();
    let error = extract_image(&blank_id).expect_err("blank id");
    assert_eq!(error.message(), "invalid input: extractor source requires a non-empty file id");
    let empty = extract_image(&image_source(Vec::new())).expect_err("empty image");
    assert_eq!(empty.message(), "invalid input: image extractor requires non-empty image data");
}

#[test]
fn fitting_text_keeps_short_text_and_bounds_long_text() {
    assert_eq!(fit_text_to_chars("short", 10), "short");
    assert_eq!(fit_text_to_chars("abcdefghijklmnopqrstuvwxyz", 10), "abcdefg...");
    assert_eq!(fit_text_to_chars("abcdef  hijklmnop", 11), "abcdef...");
    assert_eq!(fit_text_to_chars("abcdef", 2), "..");
    assert_eq!(fit_text_to_chars("日本語テキスト", 6), "日本語...");
    assert_eq!(one_line("  a\n b\t c  "), "a b c");
}

use zvec_grep::common::{EntityMetadata, SymbolType};
use zvec_grep::extraction::{
    byte_index_at_utf16, byte_index_at_utf16_ceil, char_count, chunk_options_for_metadata, take_chars, vector_content_for_fragment,
    vector_metadata_text, EntityFragment,
};

fn code_metadata() -> EntityMetadata {
    EntityMetadata::Code {
        symbol_type: SymbolType::Function,
        symbol_name: Some("main".to_string()),
        scope: Some("crate".to_string()),
        node_type: None,
        signature: Some("fn  main()\n -> ()".to_string()),
        documentation: None,
        modifiers: vec!["pub".to_string(), "async".to_string()],
    }
}

#[test]
fn metadata_text_lists_the_present_fields() {
    assert_eq!(vector_metadata_text(None, None), "");
    assert_eq!(
        vector_metadata_text(Some(&code_metadata()), None),
        "symbol: function main\nscope: crate\nsignature: fn main() -> ()\nmodifiers: pub async"
    );
    let heading = EntityMetadata::Markdown { heading: Some("Intro".to_string()), level: Some(2), scope: None };
    assert_eq!(vector_metadata_text(Some(&heading), None), "heading: Intro\nheading_level: 2");
    assert_eq!(vector_metadata_text(Some(&heading), Some(8)), "headi...");
}

#[test]
fn vector_content_prefixes_text_with_metadata() {
    let fragment = EntityFragment {
        id: "id".to_string(),
        group: None,
        file_id: "f".to_string(),
        range: ContentRange::File,
        content: Content::Text("body".to_string()),
        metadata: Some(EntityMetadata::Markdown { heading: Some("H".to_string()), level: None, scope: None }),
    };
    assert_eq!(vector_content_for_fragment(&fragment, None, None), Content::Text("heading: H\nbody".to_string()));
    let compact = Content::Text("short".to_string());
    assert_eq!(vector_content_for_fragment(&fragment, Some(&compact), None), Content::Text("heading: H\nshort".to_string()));
    let image = Content::Image(ImageContent { data: vec![1], format: ImageFormat::Png });
    assert_eq!(vector_content_for_fragment(&fragment, Some(&image), None), image);
}

#[test]
fn chunk_budgets_leave_room_for_metadata() {
    assert_eq!(chunk_options_for_metadata(100, 10, None), (100, 10));
    let heading = EntityMetadata::Markdown { heading: Some("H".to_string()), level: None, scope: None };
    assert_eq!(chunk_options_for_metadata(100, 200, Some(&heading)), (89, 88));
    assert_eq!(chunk_options_for_metadata(1, 5, None), (1, 0));
}

#[test]
fn utf16_offsets_map_to_byte_indices() {
    assert_eq!(char_count("a😀b"), 4);
    assert_eq!(take_chars("a😀b", 2), "a");
    assert_eq!(take_chars("a😀b", 3), "a😀");
    assert_eq!(byte_index_at_utf16("a😀b", 1), 1);
    assert_eq!(byte_index_at_utf16("a😀b", 2), 1);
    assert_eq!(byte_index_at_utf16("a😀b", 3), 5);
    assert_eq!(byte_index_at_utf16("a😀b", 9), 6);
    assert_eq!(byte_index_at_utf16_ceil("a😀b", 2), 5);
    assert_eq!(byte_index_at_utf16_ceil("a😀b", 1), 1);
    assert_eq!(byte_index_at_utf16_ceil("a😀b", 9), 6);
}
