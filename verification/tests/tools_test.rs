use torot_lib::base::tools::{
    host_from_target, infer_target_kind, locate_tools, suggest_tools_with, tool_statuses, url_from_target,
};
use torot_lib::base::AppConfig;

#[test]
fn test_infer_target_kind_url() {
    assert_eq!(infer_target_kind("https://example.com"), "url");
    assert_eq!(infer_target_kind("http://example.com/path"), "url");
}

#[test]
fn test_infer_target_kind_host() {
    assert_eq!(infer_target_kind("example.com"), "host");
    assert_eq!(infer_target_kind("192.168.1.1"), "host");
}

#[test]
fn test_host_from_target() {
    assert_eq!(host_from_target("https://example.com/path"), "example.com");
    assert_eq!(host_from_target("http://example.com"), "example.com");
    assert_eq!(host_from_target("example.com"), "example.com");
}

#[test]
fn test_url_from_target() {
    assert_eq!(url_from_target("https://example.com"), "https://example.com");
    assert_eq!(url_from_target("example.com"), "https://example.com");
    assert_eq!(url_from_target("http://test.com/path"), "http://test.com/path");
}

#[test]
fn test_tool_statuses_empty_config() {
    let config = AppConfig::default();
    let runtimes = locate_tools(&config);
    let statuses = tool_statuses(&config, &runtimes);
    assert!(!statuses.is_empty());
    assert!(statuses.iter().any(|t| t.name == "nmap"));
    assert!(statuses.iter().any(|t| t.name == "nuclei"));
}

#[test]
fn host_has_no_slash_and_url_is_stable() {
    for t in ["https://a.b/c/d", "a.b", "http://x/y", "ftp://q/r"] {
        assert!(!host_from_target(t).contains('/'));
        let u = url_from_target(t);
        assert_eq!(url_from_target(&u), u);
    }
}

#[test]
fn suggestions_follow_installed_flags() {
    let config = AppConfig::default();
    let none = vec![false; config.tools.len()];
    assert!(suggest_tools_with(&config, "url", &none).is_empty());
    let all = vec![true; config.tools.len()];
    let got = suggest_tools_with(&config, "url", &all);
    let expected: Vec<String> = config
        .tools
        .iter()
        .filter(|t| t.enabled && (t.input_kinds.is_empty() || t.input_kinds.contains(&"url".to_string())))
        .take(4)
        .map(|t| t.name.clone())
        .collect();
    assert_eq!(got, expected);
    assert!(got.len() <= 4);
}

#[test]
fn choose_binary_prefers_an_existing_override() {
    let over = Some("/opt/tools/nmap".to_string());
    let found = vec![None, Some("/usr/bin/nmap".to_string())];
    assert_eq!(
        torot_lib::base::tools::choose_binary(&over, true, &found),
        Some("/opt/tools/nmap".to_string())
    );
}

#[test]
fn choose_binary_falls_back_to_the_first_name_found() {
    let over = Some("/missing/nmap".to_string());
    let found = vec![None, Some("/usr/bin/a".to_string()), Some("/usr/bin/b".to_string())];
    assert_eq!(
        torot_lib::base::tools::choose_binary(&over, false, &found),
        Some("/usr/bin/a".to_string())
    );
    assert_eq!(torot_lib::base::tools::choose_binary(&None, true, &found), Some("/usr/bin/a".to_string()));
}

#[test]
fn choose_binary_without_answers_finds_nothing() {
    let found: Vec<Option<String>> = vec![None, None];
    assert_eq!(torot_lib::base::tools::choose_binary(&None, false, &found), None);
    assert_eq!(torot_lib::base::tools::choose_binary(&None, false, &Vec::new()), None);
}
