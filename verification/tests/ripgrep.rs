use zvec_grep::common::TextRange;
use zvec_grep::lexical::{LexicalCoverage, LexicalMatch, LexicalOptions, LexicalSearchRequest};
use zvec_grep::ripgrep::{
    build_args, check_exit_status, check_paths, finish_search, matches_modified_time, parse_events, spawn_error,
    split_output_lines, text_position_at_byte_offset, RipgrepAdapter, RipgrepEvent, RipgrepMatchData, RipgrepSubmatch,
    TextValue,
};

fn options() -> LexicalOptions {
    LexicalOptions {
        fixed_strings: false,
        ignore_case: false,
        word_regexp: false,
        before_context: 0,
        after_context: 0,
        hidden: false,
        no_ignore: false,
        follow: false,
        globs: Vec::new(),
        file_types: Vec::new(),
        excluded_file_types: Vec::new(),
        ignore_files: Vec::new(),
        max_depth: None,
        max_file_size_bytes: None,
        modified_after_epoch_ms: None,
        modified_before_epoch_ms: None,
    }
}

fn request(patterns: &[&str], limit: Option<usize>) -> LexicalSearchRequest {
    LexicalSearchRequest {
        root: Some("/workspace".to_string()),
        patterns: patterns.iter().map(|p| p.to_string()).collect(),
        pattern_files: Vec::new(),
        paths: Vec::new(),
        limit,
        options: options(),
    }
}

fn match_event(path: &str, lines: &str, line_number: usize, start: usize, end: usize) -> RipgrepEvent {
    RipgrepEvent {
        kind: "match".to_string(),
        data: Some(RipgrepMatchData {
            path: TextValue { text: Some(path.to_string()) },
            lines: TextValue { text: Some(lines.to_string()) },
            line_number,
            submatches: vec![RipgrepSubmatch { start, end }],
        }),
    }
}

fn lexical(path: &str, line: usize, offset: usize) -> LexicalMatch {
    LexicalMatch {
        rank: 0,
        absolute_path: format!("/workspace/{path}"),
        relative_path: path.to_string(),
        range: TextRange { start_line: line, end_line: line, start_offset: offset, end_offset: offset + 1 },
        excerpt_range: None,
        content: "x".to_string(),
    }
}

#[test]
fn parses_match_events_and_uses_utf16_columns() {
    let event = match_event("src/a.rs", "let x = \"你好\";\n", 7, 9, 15);
    let matches = parse_events("/workspace", vec![event]);
    assert_eq!(matches.len(), 1);
    assert_eq!(matches[0].range.start_line, 7);
    assert_eq!(matches[0].range.start_offset, 9);
    assert_eq!(matches[0].range.end_offset, 11);
}

#[test]
fn parsed_matches_carry_paths_and_trimmed_content() {
    let matches = parse_events(
        "/workspace",
        vec![
            RipgrepEvent { kind: "begin".to_string(), data: None },
            match_event("src/b.rs", "fn main() {}\r\n", 2, 3, 7),
        ],
    );
    assert_eq!(matches.len(), 1);
    assert_eq!(matches[0].relative_path, "src/b.rs");
    assert_eq!(matches[0].absolute_path, "/workspace/src/b.rs");
    assert_eq!(matches[0].content, "fn main() {}");
    assert_eq!(matches[0].range.start_offset, 3);
    assert_eq!(matches[0].range.end_offset, 7);
}

#[test]
fn utf16_positions_count_surrogate_pairs_twice() {
    assert_eq!(text_position_at_byte_offset("a😀b", 5), (0, 3));
    assert_eq!(text_position_at_byte_offset("ab\ncd", 4), (1, 1));
}

#[test]
fn builds_ripgrep_arguments_in_order() {
    let mut req = request(&["needle", "-v"], None);
    req.options.fixed_strings = true;
    req.options.max_depth = Some(3);
    req.options.globs = vec!["*.rs".to_string()];
    let args = build_args(&req, &vec!["src".to_string()]);
    let expected: Vec<&str> = vec![
        "--json",
        "--line-number",
        "--column",
        "--with-filename",
        "--color",
        "never",
        "--fixed-strings",
        "--max-depth",
        "3",
        "--glob",
        "*.rs",
        "--glob",
        "!**/.git/**",
        "--glob",
        "!**/.zvec-grep/**",
        "--regexp",
        "needle",
        "--regexp",
        "-v",
        "--",
        "src",
    ];
    assert_eq!(args, expected);
    let whole = build_args(&request(&["x"], None), &Vec::new());
    assert_eq!(whole[whole.len() - 2..], ["--".to_string(), ".".to_string()]);
}

#[test]
fn reports_are_sorted_ranked_and_cut_to_the_limit() {
    let req = request(&["x"], Some(2));
    let checked = check_paths(&Vec::new(), &Vec::new());
    let matches = vec![lexical("src/b.rs", 1, 0), lexical("src/a.rs", 9, 0), lexical("src/a.rs", 2, 5), lexical("src/a.rs", 2, 1)];
    let reply = finish_search("/workspace", "rg", &vec!["--json".to_string()], &req, &checked, matches);
    assert_eq!(reply.coverage, LexicalCoverage::Truncated);
    assert_eq!(reply.matches.len(), 2);
    assert_eq!(reply.matches[0].relative_path, "src/a.rs");
    assert_eq!(reply.matches[0].range.start_offset, 1);
    assert_eq!(reply.matches[0].rank, 1);
    assert_eq!(reply.matches[1].range.start_offset, 5);
    assert_eq!(reply.matches[1].rank, 2);
    assert!(reply.diagnostics.truncated);
    assert_eq!(reply.diagnostics.limit, Some(2));

    let full = finish_search("/workspace", "rg", &Vec::new(), &request(&["x"], Some(5)), &checked, vec![lexical("a", 1, 0)]);
    assert_eq!(full.coverage, LexicalCoverage::Exhaustive);
    assert_eq!(full.matches[0].rank, 1);
}

#[test]
fn splits_missing_and_existing_paths() {
    let checked = check_paths(&vec!["src".to_string(), "gone".to_string(), "tests".to_string()], &vec![true, false, true]);
    assert_eq!(checked.existing, vec!["src".to_string(), "tests".to_string()]);
    assert_eq!(checked.missing, vec!["gone".to_string()]);
}

#[test]
fn exit_codes_zero_and_one_are_success() {
    assert!(check_exit_status(Some(0), "exit status: 0", "").is_ok());
    assert!(check_exit_status(Some(1), "exit status: 1", "").is_ok());
    let error = check_exit_status(Some(2), "exit status: 2", "  regex parse error\n").expect_err("failure");
    assert_eq!(error.message(), "ripgrep failed: exit status exit status: 2: regex parse error");
    assert!(check_exit_status(None, "signal: 9", "").is_err());
}

#[test]
fn spawn_errors_distinguish_a_missing_executable() {
    assert_eq!(spawn_error(true, "/opt/rg", "not found").message(), "capability unavailable: ripgrep executable /opt/rg");
    assert_eq!(spawn_error(false, "rg", "permission denied").message(), "ripgrep failed: permission denied");
}

#[test]
fn splits_output_into_lines() {
    let lines = split_output_lines(b"one\ntwo\n\nthree");
    assert_eq!(lines, vec![b"one".to_vec(), b"two".to_vec(), Vec::new(), b"three".to_vec()]);
}

#[test]
fn modified_time_window_includes_both_ends() {
    assert!(matches_modified_time(Some(10), None, None));
    assert!(matches_modified_time(None, None, None));
    assert!(!matches_modified_time(None, Some(1), None));
    assert!(matches_modified_time(Some(10), Some(10), Some(11)));
    assert!(!matches_modified_time(Some(9), Some(10), None));
    assert!(matches_modified_time(Some(11), None, Some(11)));
    assert!(!matches_modified_time(Some(12), None, Some(11)));
    assert!(!matches_modified_time(None, None, Some(11)));
}

#[test]
fn adapter_defaults_to_rg_with_one_process() {
    let adapter = RipgrepAdapter::default();
    assert_eq!(adapter.executable(), "rg");
    assert_eq!(adapter.max_processes(), 1);
    let wider = RipgrepAdapter::new("/usr/bin/rg").with_max_processes(4);
    assert_eq!(wider.max_processes(), 4);
    assert_eq!(RipgrepAdapter::new("rg").with_max_processes(0).max_processes(), 1);
}
