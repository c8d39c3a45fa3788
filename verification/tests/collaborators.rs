use repo_insight::client::{
    build_contents_url, decode_file_content, retry_decide, backoff_secs, text_from_bytes,
    FetchOutcome, RetryDecision,
};
use repo_insight::error::GithubAnalyzerError;
use repo_insight::export::{chunk_file_name, render_index, render_readme, repo_name_of, ProjectExporter};
use repo_insight::project::{
    empty_project_summary, finalize_analysis, module_name_of, record_directory, saturating_count,
    should_analyze, should_skip_file, update_build_systems, update_project_structure,
    update_project_summary, update_rust_stats,
};
use repo_insight::text::{dec_string, replace_all};
use repo_insight::types::{FileCategory, FileSummary};

#[test]
fn contents_url_is_rewritten() {
    let url = build_contents_url("https://github.com/user/repo", "src", "main");
    assert_eq!(url, "https://api.github.com/repos/user/repo/contents/src?ref=main");
}

#[test]
fn repo_name_strips_git_suffix() {
    assert_eq!(repo_name_of("https://github.com/user/repo.git"), "repo");
    assert_eq!(repo_name_of("https://github.com/user/tool"), "tool");
}

#[test]
fn decode_round_trips_real_base64() {
    let out = decode_file_content(Some("aGVsbG8=".to_string()), Some("base64".to_string()));
    assert_eq!(out.unwrap(), "hello");
}

#[test]
fn decode_strips_newlines_before_decoding() {
    let out = decode_file_content(Some("aGVs\nbG8=".to_string()), Some("base64".to_string()));
    assert_eq!(out.unwrap(), "hello");
}

#[test]
fn decode_rejects_missing_parts() {
    let out = decode_file_content(None, Some("base64".to_string()));
    assert!(matches!(out, Err(GithubAnalyzerError::ParseError(_))));
    let out = decode_file_content(Some("aGVsbG8=".to_string()), Some("utf-16".to_string()));
    assert!(matches!(out, Err(GithubAnalyzerError::ParseError(_))));
}

#[test]
fn decode_rejects_bad_base64_and_bad_utf8() {
    let out = decode_file_content(Some("!!!".to_string()), Some("base64".to_string()));
    assert!(matches!(out, Err(GithubAnalyzerError::ParseError(_))));
    // "/w==" decodes to the single byte 0xFF, which is not UTF-8.
    let out = decode_file_content(Some("/w==".to_string()), Some("base64".to_string()));
    assert!(matches!(out, Err(GithubAnalyzerError::ParseError(_))));
}

#[test]
fn bytes_to_text_checks_utf8() {
    assert_eq!(text_from_bytes(vec![104, 105]).unwrap(), "hi");
    assert!(text_from_bytes(vec![0xff]).is_err());
}

#[test]
fn error_messages() {
    let e = GithubAnalyzerError::NetworkError("down".to_string());
    assert_eq!(e.message(), "Network error: down");
    let e = GithubAnalyzerError::ParseError("bad".to_string());
    assert_eq!(e.message(), "Parse error: bad");
    let e = GithubAnalyzerError::RateLimitError(42);
    assert_eq!(e.message(), "Rate limit exceeded. Resets at timestamp: 42");
}

#[test]
fn retry_waits_for_rate_limit_reset() {
    let d = retry_decide(0, 3, Some(0), Some(110), 100, FetchOutcome::Success);
    assert_eq!(d, RetryDecision::WaitReset(11));
}

#[test]
fn retry_uses_successful_response() {
    let d = retry_decide(0, 3, Some(10), Some(110), 100, FetchOutcome::Success);
    assert_eq!(d, RetryDecision::UseResponse);
}

#[test]
fn forbidden_fails_with_rate_limit_error() {
    let d = retry_decide(1, 3, None, Some(500), 100, FetchOutcome::Forbidden);
    assert_eq!(d, RetryDecision::Fail(GithubAnalyzerError::RateLimitError(500)));
    let d = retry_decide(1, 3, None, None, 100, FetchOutcome::Forbidden);
    assert_eq!(d, RetryDecision::Fail(GithubAnalyzerError::RateLimitError(0)));
}

#[test]
fn failures_back_off_then_give_up() {
    let d = retry_decide(0, 3, None, None, 100, FetchOutcome::Transport("refused".to_string()));
    assert_eq!(d, RetryDecision::Retry { next_retries: 1, wait_secs: 2 });
    let d = retry_decide(3, 3, None, None, 100, FetchOutcome::Status("500".to_string()));
    assert_eq!(d, RetryDecision::GiveUp(GithubAnalyzerError::NetworkError("500".to_string())));
    assert_eq!(backoff_secs(3), 8);
}

#[test]
fn exporter_buffers_until_chunk_size() {
    let mut ex = ProjectExporter::new();
    for i in 0..4 {
        let r = ex.add_file(format!("f{}", i), "body".to_string());
        assert!(r.is_none());
    }
    let r = ex.add_file("f4".to_string(), "body".to_string());
    let (number, chunk) = r.unwrap();
    assert_eq!(number, 0);
    assert!(chunk.starts_with("\n<document>\n<source>f0</source>\n<document_content>\nf0\n</document_content>\n</document>\nbody"));
    // The buffer is empty again and the next chunk gets the next number.
    let r = ex.add_file("g0".to_string(), "tail".to_string());
    assert!(r.is_none());
    let (number, chunk) = ex.flush().unwrap();
    assert_eq!(number, 1);
    assert_eq!(
        chunk,
        "\n<document>\n<source>g0</source>\n<document_content>\ng0\n</document_content>\n</document>\ntail"
    );
    assert!(ex.flush().is_none());
}

#[test]
fn chunk_names_and_index() {
    assert_eq!(chunk_file_name(0), "chunk_0.txt");
    assert_eq!(chunk_file_name(12), "chunk_12.txt");
    let chunks = vec!["one".to_string(), "two".to_string()];
    let index = render_index("{}", &chunks);
    assert_eq!(
        index,
        "\n<document>\n<source>analysis.json</source>\n<document_content>\n{}\n</document_content>\n</document>\nonetwo"
    );
    assert!(render_readme().starts_with("# Repository Analysis Output"));
}

#[test]
fn file_size_gate_and_category_gate() {
    assert!(!should_skip_file(1000000));
    assert!(should_skip_file(1000001));
    assert!(should_analyze(&FileCategory::Source("rs".to_string())));
    assert!(should_analyze(&FileCategory::Configuration));
    assert!(should_analyze(&FileCategory::Documentation));
    assert!(!should_analyze(&FileCategory::Test));
    assert!(!should_analyze(&FileCategory::Unknown));
}

#[test]
fn directory_records_modules_once() {
    let mut ps = empty_project_summary("https://github.com/u/r", "main");
    record_directory(&mut ps, "src/api");
    record_directory(&mut ps, "src/api");
    record_directory(&mut ps, "docs");
    assert!(ps.repository_structure.has_src_directory);
    assert_eq!(ps.project_overview.main_modules, vec!["api".to_string()]);
    assert_eq!(module_name_of("src/analysis.rs"), "analysis");
}

#[test]
fn structure_flags_follow_categories() {
    let mut ps = empty_project_summary("u", "main");
    update_project_structure(&mut ps, "src/lib.rs", "lib.rs", &FileCategory::Source("rs".to_string()));
    assert!(ps.repository_structure.has_src_directory);
    update_project_structure(&mut ps, "t", "t", &FileCategory::Test);
    assert!(ps.repository_structure.has_tests);
    update_project_structure(&mut ps, "d", "d", &FileCategory::Documentation);
    assert!(ps.repository_structure.has_docs);
    update_project_structure(&mut ps, "Cargo.toml", "Cargo.toml", &FileCategory::Configuration);
    assert_eq!(ps.repository_structure.build_systems, vec!["Rust/Cargo".to_string()]);
}

#[test]
fn build_systems_are_recorded_once() {
    let mut ps = empty_project_summary("u", "main");
    update_build_systems(&mut ps, "Cargo.toml");
    update_build_systems(&mut ps, "Cargo.toml");
    update_build_systems(&mut ps, "go.mod");
    update_build_systems(&mut ps, "unknown.cfg");
    assert_eq!(
        ps.repository_structure.build_systems,
        vec!["Rust/Cargo".to_string(), "Go/modules".to_string()]
    );
}

#[test]
fn rust_stats_count_summary_lines() {
    let mut ps = empty_project_summary("u", "main");
    let summary = "Public struct: pub struct A;\nPublic enum: pub enum B {}\nPublic method: pub fn f()\nPublic method: pub fn g()\n";
    update_rust_stats(&mut ps, summary, Vec::new(), Vec::new(), repo_insight::types::Configuration {
        constants: vec![("A".to_string(), "u8".to_string(), "1".to_string())],
        feature_flags: Vec::new(),
        custom_attributes: Vec::new(),
    });
    assert_eq!(ps.project_overview.total_public_types, 2);
    assert_eq!(ps.project_overview.total_public_functions, 2);
    assert_eq!(ps.project_overview.total_tests, 0);
    assert_eq!(ps.project_overview.configuration.constants.len(), 1);
}

#[test]
fn finalize_picks_most_common_language() {
    let mut ps = empty_project_summary("u", "main");
    for (p, cat) in [
        ("a.rs", FileCategory::Source("rs".to_string())),
        ("b.rs", FileCategory::Source("rs".to_string())),
        ("c.go", FileCategory::Source("go".to_string())),
        ("d.md", FileCategory::Documentation),
    ] {
        ps.file_summaries.push(FileSummary {
            path: p.to_string(),
            size: 1,
            summary: String::new(),
            category: cat,
            url: String::new(),
        });
        ps.files_analyzed.push(p.to_string());
    }
    finalize_analysis(&mut ps);
    assert_eq!(ps.total_files, 4);
    assert_eq!(ps.repository_structure.primary_language, Some("rs".to_string()));
}

#[test]
fn finalize_without_sources_has_no_language() {
    let mut ps = empty_project_summary("u", "main");
    finalize_analysis(&mut ps);
    assert_eq!(ps.repository_structure.primary_language, None);
}

#[test]
fn text_helpers() {
    assert_eq!(replace_all("a-b-c", "-", "+"), "a+b+c");
    assert_eq!(dec_string(12034), "12034");
    assert_eq!(saturating_count(i32::MAX - 1, 5), i32::MAX);
    assert_eq!(saturating_count(3, 4), 7);
}

#[test]
fn update_project_summary_counts_rust_files() {
    let mut ps = empty_project_summary("u", "main");
    update_project_summary(
        &mut ps,
        "src/lib.rs",
        10,
        "http://example/lib.rs",
        "Public struct: pub struct A;\n".to_string(),
        Vec::new(),
        Vec::new(),
        repo_insight::types::Configuration {
            constants: Vec::new(),
            feature_flags: Vec::new(),
            custom_attributes: Vec::new(),
        },
        FileCategory::Source("rs".to_string()),
    );
    assert_eq!(ps.project_overview.total_rust_files, 1);
    assert_eq!(ps.project_overview.total_public_types, 1);
    assert_eq!(ps.file_summaries.len(), 1);
    assert_eq!(ps.file_summaries[0].path, "src/lib.rs");
    // A documentation file adds its digest but no language statistics.
    update_project_summary(
        &mut ps,
        "README.md",
        5,
        "http://example/readme",
        String::new(),
        Vec::new(),
        Vec::new(),
        repo_insight::types::Configuration {
            constants: Vec::new(),
            feature_flags: Vec::new(),
            custom_attributes: Vec::new(),
        },
        FileCategory::Documentation,
    );
    assert_eq!(ps.project_overview.total_rust_files, 1);
    assert_eq!(ps.file_summaries.len(), 2);
}

#[test]
fn finalize_without_sources_keeps_the_language() {
    let mut ps = empty_project_summary("u", "main");
    ps.repository_structure.primary_language = Some("go".to_string());
    ps.file_summaries.push(FileSummary {
        path: "README.md".to_string(),
        size: 1,
        summary: String::new(),
        category: FileCategory::Documentation,
        url: String::new(),
    });
    finalize_analysis(&mut ps);
    assert_eq!(ps.repository_structure.primary_language, Some("go".to_string()));
}

#[test]
fn decode_missing_parts_carries_the_expected_message() {
    let out = decode_file_content(None, None);
    match out {
        Err(GithubAnalyzerError::ParseError(m)) => {
            assert_eq!(m, "Content or encoding unavailable");
        }
        other => panic!("unexpected result: {:?}", other),
    }
}
