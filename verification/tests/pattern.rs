use zvec_grep::path::normalize_relative_path;
use zvec_grep::pattern::{is_hidden_name, normalize_path_pattern, PathPattern};

fn normalized(pattern: &str) -> String {
    normalize_path_pattern(pattern).into_iter().collect()
}

#[test]
fn matches_typescript_path_and_ripgrep_glob_semantics() {
    let literal = PathPattern::path("src").expect("literal path pattern");
    assert!(literal.is_match("src"));
    assert!(literal.is_match("src/lib.rs"));
    assert!(!literal.is_match("nested/src/lib.rs"));

    let nested = PathPattern::path("**/*.test.ts").expect("nested path pattern");
    assert!(nested.is_match("main.test.ts"));
    assert!(nested.is_match("src/main.test.ts"));

    let rg = PathPattern::rg("*.rs", false).expect("rg glob");
    assert!(rg.is_match("lib.rs"));
    assert!(rg.is_match("src/lib.rs"));

    let insensitive = PathPattern::rg("README.*", true).expect("case insensitive glob");
    assert!(insensitive.is_match("docs/readme.MD"));
}

#[test]
fn detects_possible_include_descendants() {
    let settings = PathPattern::path(".vscode/settings.json").expect("include pattern");
    assert!(settings.might_match_descendant(".vscode"));
    assert!(!settings.might_match_descendant(".idea"));
}

#[test]
fn normalizes_patterns() {
    assert_eq!(normalized("  ./src//lib\\mod.rs "), "src/lib/mod.rs");
    assert_eq!(normalized("././a"), "a");
    assert_eq!(normalized("/abs//path"), "/abs/path");
    assert_eq!(normalized("C:\\\\work"), "C:/work");
    assert_eq!(normalized(""), "");
}

#[test]
fn empty_patterns_are_refused() {
    let error = PathPattern::path("  ./ ").expect_err("empty after normalization");
    assert_eq!(error.message(), "invalid input: glob pattern must not be empty");
    assert!(PathPattern::rg("", false).is_err());
}

#[test]
fn invalid_globs_are_refused_with_the_pattern() {
    let error = PathPattern::rg("src/{a,b", false).expect_err("unclosed alternates");
    assert!(error.message().starts_with("invalid input: invalid glob \"src/{a,b\": "));
}

#[test]
fn literal_patterns_keep_their_normal_form() {
    let literal = PathPattern::path("./docs/").expect("literal");
    assert_eq!(literal.normalized(), "docs/");
    assert!(literal.is_match("docs/guide.md"));
    assert!(!literal.is_match("docs"));
    assert!(!literal.is_match("docsx/a"));
    let insensitive = PathPattern::rg("Docs", true).expect("glob");
    assert!(insensitive.is_match("docs"));
}

#[test]
fn directory_globs_match_the_directory_itself() {
    let all = PathPattern::path("build/**").expect("glob");
    assert!(all.is_match("build/out/a.o"));
    assert!(all.is_match("build"));
    assert!(!all.is_match("src/build.rs"));
}

#[test]
fn descendant_checks_follow_literal_prefixes() {
    let nested = PathPattern::path("src/generated/*.rs").expect("glob");
    assert!(nested.might_match_descendant("src"));
    assert!(nested.might_match_descendant("src/generated"));
    assert!(!nested.might_match_descendant("tests"));
    assert!(nested.might_match_descendant(""));
    let anywhere = PathPattern::path("**/*").expect("glob");
    assert!(anywhere.might_match_descendant("deep/dir"));
}

#[test]
fn hidden_names_start_with_a_dot() {
    assert!(is_hidden_name(".git"));
    assert!(!is_hidden_name("."));
    assert!(!is_hidden_name(".."));
    assert!(!is_hidden_name("src"));
    assert!(!is_hidden_name(""));
}

#[test]
fn relative_paths_are_joined_by_components() {
    assert_eq!(normalize_relative_path("./a//b/"), "./a/b");
    assert_eq!(normalize_relative_path("a/./b"), "a/b");
    assert_eq!(normalize_relative_path("a/../b"), "a/../b");
}
