use torot_lib::base::config::{builtin_tools, merge_builtin_tools};
use torot_lib::base::{default_report_template, report_placeholders, AppConfig};

#[test]
fn test_default_report_template_has_placeholders() {
    let template = default_report_template();
    assert!(template.contains("{{session_id}}"));
    assert!(template.contains("{{target}}"));
    assert!(template.contains("{{findings_total}}"));
    assert!(template.contains("{{critical_count}}"));
    assert!(template.contains("{{summary}}"));
}

#[test]
fn test_report_placeholders() {
    let placeholders = report_placeholders();
    assert!(placeholders.contains(&"{{session_id}}".to_string()));
    assert!(placeholders.contains(&"{{findings_table}}".to_string()));
    assert!(placeholders.contains(&"{{tool_overview}}".to_string()));
}

#[test]
fn default_template_contains_every_placeholder() {
    let template = default_report_template();
    for p in report_placeholders() {
        assert!(template.contains(&p), "missing {p}");
    }
}

#[test]
fn default_config_has_version_and_builtin_tools() {
    let config = AppConfig::default();
    assert_eq!(config.version, "4.0.0");
    assert_eq!(config.tools.len(), builtin_tools().len());
    assert_eq!(config.sandbox.profile, "strong");
}

#[test]
fn merging_builtins_twice_changes_nothing() {
    let once = merge_builtin_tools(Vec::new());
    let names: Vec<String> = once.iter().map(|t| t.name.clone()).collect();
    let twice = merge_builtin_tools(once);
    let names2: Vec<String> = twice.iter().map(|t| t.name.clone()).collect();
    assert_eq!(names, names2);
    let mut sorted = names.clone();
    sorted.sort();
    assert_eq!(names, sorted);
}
