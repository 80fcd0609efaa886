use zvec_grep::cli::{parse_managed_rg_args, render_context_result, write_context_result, CliError, CliPlan, ServerPlan};
use zvec_grep::cli_args::{Cli, CliEnv, ClientMode, McpToolset};
use zvec_grep::common::ContentRange;
use zvec_grep::context::{
    ContextCoverage, ContextDiagnostics, ContextItem, ContextItemKind, ContextItemStatus, ContextResult, ContextSource, MatchedBy,
};

fn args(items: &[&str]) -> Vec<String> {
    items.iter().map(|item| item.to_string()).collect()
}

#[test]
fn parses_managed_rg_into_a_typed_request() {
    let cli = Cli::try_parse_from(&args(&["zg", "query", "--mode", "server", "--rg", "-n", "-F", "needle", "src"]))
        .expect("CLI should parse");
    let plan = cli.into_plan("/workspace".to_string()).expect("plan should be valid");
    let CliPlan::Execute { request, .. } = plan else {
        panic!("query must create an execute plan");
    };
    assert_eq!(request.root, Some("/workspace".to_string()));
    assert_eq!(request.query.as_deref(), Some("needle"));
    assert_eq!(request.rg_paths, vec!["src".to_string()]);
    assert!(request.rg_options.fixed_strings);
}

#[test]
fn parses_server_on_with_agent_toolset() {
    let cli = Cli::try_parse_from(&args(&["zg", "server", "on", "--listen", "127.0.0.1:8123", "--mcp-toolset", "agent"]))
        .expect("server command should parse");
    let plan = cli.into_plan("/workspace".to_string()).expect("plan should be valid");
    let CliPlan::Server(ServerPlan::On(start)) = plan else {
        panic!("server on must create a server plan");
    };
    assert_eq!(start.listen, "127.0.0.1:8123");
    assert_eq!(start.mcp_toolset, McpToolset::Agent);
}

#[test]
fn parses_full_mcp_toolset() {
    let cli = Cli::try_parse_from(&args(&["zg", "server", "on", "--mcp-toolset", "full"]))
        .expect("full toolset must be accepted");
    let plan = cli.into_plan("/workspace".to_string()).expect("server plan");
    let CliPlan::Server(ServerPlan::On(start)) = plan else {
        panic!("server on must create a server plan");
    };
    assert_eq!(start.mcp_toolset, McpToolset::Full);
}

#[test]
fn parses_stdio_bootstrap_with_full_toolset() {
    let cli = Cli::try_parse_from(&args(&[
        "zg",
        "server",
        "--stdio",
        "--listen",
        "127.0.0.1:8124",
        "--home",
        "/tmp/zg-stdio-test",
        "--mcp-toolset",
        "full",
    ]))
    .expect("stdio bootstrap should parse");
    let plan = cli.into_plan("/workspace".to_string()).expect("stdio plan");
    let CliPlan::Server(ServerPlan::Stdio(start)) = plan else {
        panic!("server --stdio must create a stdio server plan");
    };
    assert_eq!(start.listen, "127.0.0.1:8124");
    assert_eq!(start.home, Some("/tmp/zg-stdio-test".to_string()));
    assert_eq!(start.mcp_toolset, McpToolset::Full);
}

#[test]
fn rejects_stdio_combined_with_a_lifecycle_action() {
    let cli = Cli::try_parse_from(&args(&["zg", "server", "--stdio", "on"])).expect("syntax is parsed before plan validation");
    assert!(cli.into_plan("/workspace".to_string()).is_err(), "stdio and lifecycle actions must be mutually exclusive");
}

#[test]
fn stdio_without_listen_uses_the_default_address_and_agent_toolset() {
    let cli = Cli::try_parse_from(&args(&["zg", "server", "--stdio"])).expect("stdio parses");
    let plan = cli.into_plan("/workspace".to_string()).expect("stdio plan");
    let CliPlan::Server(ServerPlan::Stdio(start)) = plan else {
        panic!("stdio plan expected");
    };
    assert_eq!(start.listen, "127.0.0.1:7999");
    assert_eq!(start.mcp_toolset, McpToolset::Agent);
    assert_eq!(start.home, None);
}

#[test]
fn server_without_stdio_or_action_is_refused() {
    let cli = Cli::try_parse_from(&args(&["zg", "server"])).expect("server parses");
    assert_eq!(cli.into_plan("/workspace".to_string()).err(), Some(CliError::MissingServerAction));
}

#[test]
fn query_without_rg_is_not_implemented() {
    let cli = Cli::try_parse_from(&args(&["zg", "query", "needle"])).expect("query parses");
    assert_eq!(cli.into_plan("/workspace".to_string()).err(), Some(CliError::UnsupportedSlice));
}

#[test]
fn environment_mode_is_the_fallback_for_queries() {
    let env = CliEnv { home: None, mcp_toolset: None, mode: Some("direct".to_string()) };
    let cli = Cli::try_parse_from_env(&args(&["zg", "query", "--rg", "needle"]), &env).expect("query parses");
    let plan = cli.into_plan("/workspace".to_string()).expect("plan");
    let CliPlan::Execute { mode, .. } = plan else {
        panic!("execute plan expected");
    };
    assert_eq!(mode, ClientMode::Direct);
}

#[test]
fn missing_subcommand_is_a_parse_error() {
    assert!(Cli::try_parse_from(&args(&["zg"])).is_err());
    assert!(Cli::try_parse_from(&args(&["zg", "frobnicate"])).is_err());
}

#[test]
fn managed_rg_arguments_keep_paths_and_flags() {
    let request = parse_managed_rg_args(&args(&["-i", "-w", "needle", "src", "tests"])).expect("rg arguments parse");
    assert_eq!(request.query.as_deref(), Some("needle"));
    assert_eq!(request.rg_paths, vec!["src".to_string(), "tests".to_string()]);
    assert!(request.rg_options.ignore_case);
    assert!(request.rg_options.word_regexp);
    assert!(!request.rg_options.fixed_strings);
}

#[test]
fn managed_rg_regexp_flags_become_queries() {
    let request = parse_managed_rg_args(&args(&["-e", "one", "-e", "two", "src"])).expect("rg arguments parse");
    assert_eq!(request.query, None);
    assert_eq!(request.queries, vec!["one".to_string(), "two".to_string()]);
    assert_eq!(request.rg_paths, vec!["src".to_string()]);
}

fn item(path: &str, line: usize, content: &str) -> ContextItem {
    ContextItem {
        kind: ContextItemKind::LexicalMatch,
        rank: 1,
        absolute_path: format!("/workspace/{path}"),
        relative_path: path.to_string(),
        range: ContentRange::Text { start_line: line, end_line: line, start_offset: 0, end_offset: 1 },
        excerpt_range: None,
        content: content.to_string(),
        outline: None,
        status: ContextItemStatus::Fresh,
        matched_by: MatchedBy::Lexical,
        metadata: None,
        entity_id: None,
    }
}

fn empty_result() -> ContextResult {
    ContextResult {
        query: "needle".to_string(),
        root: "/workspace".to_string(),
        source: ContextSource::Rg,
        coverage: ContextCoverage::RgExhaustive,
        workspace_index: None,
        items: Vec::new(),
        diagnostics: ContextDiagnostics { empty_reason: None, hits_returned: 0, rg: None, timings: Vec::new() },
    }
}

#[test]
fn renders_no_matches() {
    let result = empty_result();
    assert_eq!(render_context_result(&result), "No matches.\n");
}

#[test]
fn renders_matches_grouped_by_file() {
    let mut result = empty_result();
    result.items = vec![item("src/a.rs", 3, "let a = 1;\n"), item("src/a.rs", 9, "a += 1;  "), item("src/b.rs", 1, "fn b() {}")];
    let text = render_context_result(&result);
    assert_eq!(text, "src/a.rs\n  3: let a = 1;\n  9: a += 1;\n\nsrc/b.rs\n  1: fn b() {}\n");
    let mut out = "before\n".to_string();
    write_context_result(&mut out, &result);
    assert_eq!(out, format!("before\n{text}"));
}

#[test]
fn plan_and_argument_errors_have_messages() {
    let error = parse_managed_rg_args(&args(&["--max-depth", "abc", "needle"])).expect_err("invalid depth");
    assert_eq!(error.message(), "invalid value \"abc\" for --max-depth");
    let missing = parse_managed_rg_args(&args(&["-n"])).expect_err("no pattern");
    assert_eq!(missing.message(), "zg query --rg requires a pattern");
    assert_eq!(CliError::StdioWithServerAction.message(), "`--stdio` cannot be combined with a server action");
    assert_eq!(CliError::MissingServerAction.message(), "use `zg server --stdio` or choose one of: on, off, status");
}

#[test]
fn managed_rg_positionals_after_a_double_dash_are_paths() {
    let request = parse_managed_rg_args(&args(&["needle", "src", "--", "-x", "--json"])).expect("rg arguments parse");
    assert_eq!(request.query.as_deref(), Some("needle"));
    assert_eq!(request.rg_paths, vec!["src".to_string(), "-x".to_string(), "--json".to_string()]);
    let dashed = parse_managed_rg_args(&args(&["--", "-n"])).expect("rg arguments parse");
    assert_eq!(dashed.query.as_deref(), Some("-n"));
    assert!(dashed.rg_paths.is_empty());
    assert!(parse_managed_rg_args(&args(&["--"])).is_err());
}

#[test]
fn managed_rg_switches_between_words_leave_the_positionals_in_order() {
    let request = parse_managed_rg_args(&args(&["-i", "needle", "--hidden", "src", "--", "-x"])).expect("rg arguments parse");
    assert_eq!(request.query.as_deref(), Some("needle"));
    assert_eq!(request.rg_paths, vec!["src".to_string(), "-x".to_string()]);
    assert!(request.rg_options.ignore_case);
    assert!(request.hidden);
    assert!(request.queries.is_empty());
}
