use zvec_grep::domain::SkippedFileReason;
use zvec_grep::scanner::{
    is_likely_binary, order_discovered, record_skipped, source_fingerprint, validate_relative_path, DiscoveredFile,
    ScanDiagnostics, MAX_SKIPPED_FILE_SAMPLES,
};

fn discovered(root: &str, path: &str, size: u64) -> DiscoveredFile {
    DiscoveredFile {
        root: root.to_string(),
        relative_path: path.to_string(),
        size_bytes: size,
        modified_epoch_ms: None,
        source_fingerprint: source_fingerprint(size, None),
        kind_hint: None,
        format_hint: None,
    }
}

#[test]
fn fingerprints_describe_size_and_modification_time() {
    assert_eq!(source_fingerprint(42, Some(1700)), "metadata-v1:42:1700");
    assert_eq!(source_fingerprint(0, None), "metadata-v1:0:unknown");
}

#[test]
fn binary_detection_uses_nul_and_control_bytes() {
    assert!(!is_likely_binary(b""));
    assert!(!is_likely_binary(b"plain text\n\twith tabs\r\n"));
    assert!(is_likely_binary(b"abc\0def"));
    assert!(is_likely_binary(&[1, 2, 3, b'a']));
    assert!(!is_likely_binary(&[1, b'a', b'b', b'c', b'd']));
}

#[test]
fn relative_paths_must_be_plain() {
    assert!(validate_relative_path("src/lib.rs").is_ok());
    assert!(validate_relative_path("").is_err());
    assert!(validate_relative_path("/etc/passwd").is_err());
    assert!(validate_relative_path("../x").is_err());
    let error = validate_relative_path("a/../b").expect_err("parent component");
    assert_eq!(error.message(), "invalid input: source path must be a non-empty relative path: a/../b");
}

#[test]
fn skipped_files_are_counted_and_sampled_up_to_the_limit() {
    let mut diagnostics = ScanDiagnostics::new();
    for index in 0..(MAX_SKIPPED_FILE_SAMPLES + 5) {
        record_skipped(&mut diagnostics, &format!("/repo/{index}.bin"), SkippedFileReason::Binary, Some(3), None);
    }
    record_skipped(&mut diagnostics, "/repo/empty.txt", SkippedFileReason::Empty, Some(0), None);
    assert_eq!(diagnostics.skipped_files, MAX_SKIPPED_FILE_SAMPLES + 6);
    assert_eq!(diagnostics.skipped_by_reason.binary, MAX_SKIPPED_FILE_SAMPLES + 5);
    assert_eq!(diagnostics.skipped_by_reason.empty, 1);
    assert_eq!(diagnostics.skipped_samples.len(), MAX_SKIPPED_FILE_SAMPLES);
    assert_eq!(diagnostics.skipped_samples[0].path, "/repo/0.bin");
}

#[test]
fn discovered_files_are_ordered_by_root_then_path_without_repeats() {
    let files = vec![
        discovered("/b", "x.rs", 1),
        discovered("/a", "src/z.rs", 2),
        discovered("/a", "src/a.rs", 3),
        discovered("/a", "src/z.rs", 4),
        discovered("/a", "src", 5),
    ];
    let ordered = order_discovered(files);
    let keys: Vec<(String, String, u64)> =
        ordered.iter().map(|file| (file.root.clone(), file.relative_path.clone(), file.size_bytes)).collect();
    assert_eq!(
        keys,
        vec![
            ("/a".to_string(), "src".to_string(), 5),
            ("/a".to_string(), "src/a.rs".to_string(), 3),
            ("/a".to_string(), "src/z.rs".to_string(), 2),
            ("/b".to_string(), "x.rs".to_string(), 1),
        ]
    );
}

use zvec_grep::common::FileKind;
use zvec_grep::scanner::{
    accept_candidate, check_file, directory_action, entry_kind, file_action, validate_domains, FileCheck, FileMeta, KnownFileKey,
    ScanDomain, WalkAction,
};

fn meta(len: u64) -> Option<FileMeta> {
    Some(FileMeta { is_file: true, len, modified_epoch_ms: Some(5) })
}

#[test]
fn metadata_checks_skip_empty_unsupported_and_oversized_files() {
    let mut diagnostics = ScanDiagnostics::new();
    let none = Vec::new();
    assert_eq!(check_file("/r", "/r/a.rs", "a.rs", None, None, &none, &mut diagnostics), FileCheck::Skipped);
    assert_eq!(check_file("/r", "/r/a.rs", "a.rs", meta(0), None, &none, &mut diagnostics), FileCheck::Skipped);
    assert_eq!(check_file("/r", "/r/a.zip", "a.zip", meta(3), None, &none, &mut diagnostics), FileCheck::Skipped);
    assert_eq!(check_file("/r", "/r/a.rs", "a.rs", meta(10), Some(4), &none, &mut diagnostics), FileCheck::Skipped);
    assert_eq!(diagnostics.skipped_by_reason.empty, 1);
    assert_eq!(diagnostics.skipped_by_reason.unsupported, 1);
    assert_eq!(diagnostics.skipped_by_reason.too_large, 1);
    assert_eq!(diagnostics.skipped_samples[2].limit_bytes, Some(4));

    let FileCheck::Candidate { file, needs_sniff } = check_file("/r", "/r/a.rs", "a.rs", meta(10), None, &none, &mut diagnostics) else {
        panic!("a small Rust file is a candidate");
    };
    assert!(needs_sniff);
    assert_eq!(file.kind_hint, Some(FileKind::Code));
    assert_eq!(file.format_hint.as_deref(), Some("rust"));
    assert_eq!(file.source_fingerprint, "metadata-v1:10:5");

    let known = vec![KnownFileKey { root: "/r".to_string(), relative_path: "a.rs".to_string(), source_fingerprint: "metadata-v1:10:5".to_string() }];
    let FileCheck::Candidate { needs_sniff: known_sniff, .. } = check_file("/r", "/r/a.rs", "a.rs", meta(10), None, &known, &mut diagnostics) else {
        panic!("candidate expected");
    };
    assert!(!known_sniff);
    let FileCheck::Candidate { needs_sniff: image_sniff, .. } = check_file("/r", "/r/p.png", "p.png", meta(10), None, &none, &mut diagnostics) else {
        panic!("candidate expected");
    };
    assert!(!image_sniff);
}

#[test]
fn binary_candidates_are_skipped_after_sniffing() {
    let mut diagnostics = ScanDiagnostics::new();
    let file = discovered("/r", "a.txt", 4);
    assert_eq!(accept_candidate(file, true, "/r/a.txt", Some(&[0, 1, 2, 3]), &mut diagnostics), None);
    assert_eq!(diagnostics.skipped_by_reason.binary, 1);
    let text = discovered("/r", "b.txt", 4);
    assert!(accept_candidate(text, true, "/r/b.txt", Some(b"text"), &mut diagnostics).is_some());
    let unread = discovered("/r", "c.txt", 4);
    assert!(accept_candidate(unread, true, "/r/c.txt", None, &mut diagnostics).is_some());
    assert_eq!(diagnostics.skipped_files, 1);
}

#[test]
fn walking_respects_links_depth_and_repositories() {
    assert_eq!(entry_kind(true, false, false, false, Some((true, false))), None);
    assert_eq!(entry_kind(true, true, false, false, Some((true, false))), Some((true, false)));
    assert_eq!(entry_kind(true, true, false, false, None), Some((false, false)));
    assert_eq!(entry_kind(false, false, false, true, None), Some((false, true)));
    assert_eq!(directory_action(true, None, 0, true, false, false, true), WalkAction::Descend);
    assert_eq!(directory_action(false, None, 0, true, false, false, true), WalkAction::Skip);
    assert_eq!(directory_action(true, Some(1), 0, true, false, false, true), WalkAction::Skip);
    assert_eq!(directory_action(true, Some(2), 0, true, false, false, true), WalkAction::Descend);
    assert_eq!(directory_action(true, None, 0, true, true, false, true), WalkAction::Skip);
    assert_eq!(directory_action(true, None, 0, true, true, true, true), WalkAction::Descend);
    assert_eq!(directory_action(true, None, 0, true, false, false, false), WalkAction::Skip);
    assert_eq!(file_action(true, Some(1), 0, true), WalkAction::Read);
    assert_eq!(file_action(true, Some(1), 1, true), WalkAction::Skip);
    assert_eq!(file_action(false, None, 0, true), WalkAction::Skip);
}

fn domain(path: &str, is_file: bool, recursive: bool) -> ScanDomain {
    ScanDomain { root_path: path.to_string(), canonical_path: path.to_string(), is_file, recursive }
}

#[test]
fn overlapping_roots_are_refused() {
    let separate = vec![domain("/a", false, true), domain("/b", false, true)];
    assert!(validate_domains(&separate, &vec![vec![false, false], vec![false, false]]).is_ok());
    let nested = vec![domain("/a", false, true), domain("/a/b", false, true)];
    let error = validate_domains(&nested, &vec![vec![false, false], vec![false, false]]).expect_err("nested roots");
    assert_eq!(error.message(), "invalid input: workspace roots overlap: left=/a right=/a/b");
    let shallow = vec![domain("/a", false, false), domain("/a/b", false, true)];
    assert!(validate_domains(&shallow, &vec![vec![false, false], vec![false, false]]).is_ok());
    let direct_file = vec![domain("/a", false, false), domain("/a/f.rs", true, false)];
    assert!(validate_domains(&direct_file, &vec![vec![false, false], vec![false, false]]).is_err());
    let deep_file = vec![domain("/a", false, false), domain("/a/x/f.rs", true, false)];
    assert!(validate_domains(&deep_file, &vec![vec![false, false], vec![false, false]]).is_ok());
    let same = vec![domain("/a", true, false), domain("/b", true, false)];
    assert!(validate_domains(&same, &vec![vec![false, true], vec![true, false]]).is_err());
}

#[test]
fn scans_stop_when_cancelled_or_past_their_deadline() {
    assert_eq!(zvec_grep::scanner::control_check(true, 0, None), Err(zvec_grep::errors::HostError::Cancelled));
    assert_eq!(zvec_grep::scanner::control_check(false, 10, Some(10)), Err(zvec_grep::errors::HostError::DeadlineExceeded));
    assert_eq!(zvec_grep::scanner::control_check(false, 9, Some(10)), Ok(()));
    assert_eq!(zvec_grep::scanner::control_check(false, 9, None), Ok(()));
}
