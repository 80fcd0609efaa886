use zvec_grep::common::FileKind;
use zvec_grep::file_type::{detect_file_type, max_file_size};

#[test]
fn matches_typescript_file_detection_and_size_defaults() {
    let dockerfile = detect_file_type("Dockerfile").expect("named type");
    assert_eq!(dockerfile.kind, FileKind::Code);
    assert_eq!(dockerfile.format, "dockerfile");
    assert_eq!(detect_file_type("README.mdx").expect("markdown").format, "markdown");
    assert_eq!(detect_file_type("custom.xyz").expect("unknown text").format, "xyz");
    assert!(detect_file_type("archive.zip").is_none());
    assert_eq!(max_file_size(FileKind::Code, None), 1024 * 1024);
    assert_eq!(max_file_size(FileKind::Text, Some(42)), 42);
}

#[test]
fn detects_by_extension_case_insensitively_and_in_nested_paths() {
    let rust = detect_file_type("src/Main.RS").expect("rust file");
    assert_eq!(rust.kind, FileKind::Code);
    assert_eq!(rust.format, "rust");
    let image = detect_file_type("assets/logo.png").expect("image");
    assert_eq!(image.kind, FileKind::Image);
    assert_eq!(image.format, "png");
    assert!(detect_file_type("bin/tool.exe").is_none());
}

#[test]
fn size_defaults_per_kind() {
    assert_eq!(max_file_size(FileKind::Text, None), 256 * 1024 * 1024);
    assert_eq!(max_file_size(FileKind::Image, None), 10 * 1024 * 1024);
    assert_eq!(max_file_size(FileKind::Data, None), 16 * 1024 * 1024);
    assert_eq!(max_file_size(FileKind::Image, Some(7)), 7);
}
