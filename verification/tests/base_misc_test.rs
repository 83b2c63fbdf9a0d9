use torot_lib::base::config::{app_info, apply_tool_profile, tool_from_input};
use torot_lib::base::knowledge::{builtin_knowledge_topics, topic_description};
use torot_lib::base::report::generate_report_string;
use torot_lib::base::sandbox::SandboxProfile;
use torot_lib::base::types::{Finding, Session, ToolProfileInput};
use torot_lib::base::AppConfig;

fn input(name: &str) -> ToolProfileInput {
    ToolProfileInput {
        name: format!("  {name} "),
        domain: "web".to_string(),
        description: "d".to_string(),
        binary_names: vec![name.to_string()],
        path_override: Some("   ".to_string()),
        args: vec!["{target}".to_string()],
        version_args: vec![],
        install_hint: "install it".to_string(),
        output_format: "text".to_string(),
        input_kinds: vec!["host".to_string()],
        enabled: true,
        timeout_seconds: 5,
        capabilities: vec![],
        knowledge: vec![],
    }
}

#[test]
fn sandbox_profiles() {
    for p in [SandboxProfile::Strong, SandboxProfile::Moderate, SandboxProfile::Off] {
        assert!(matches!(
            (SandboxProfile::from_str(p.as_str()), &p),
            (SandboxProfile::Strong, SandboxProfile::Strong)
                | (SandboxProfile::Moderate, SandboxProfile::Moderate)
                | (SandboxProfile::Off, SandboxProfile::Off)
        ));
    }
    assert_eq!(SandboxProfile::from_str("MODERATE").as_str(), "moderate");
    assert_eq!(SandboxProfile::from_str("anything").as_str(), "strong");
    assert!(SandboxProfile::Moderate.env_clear());
    assert!(!SandboxProfile::Off.env_clear());
    assert!(SandboxProfile::Strong.restrict_network());
    assert!(!SandboxProfile::Moderate.restrict_network());
}

#[test]
fn knowledge_topics() {
    let topics = builtin_knowledge_topics();
    assert_eq!(topics.len(), 10);
    assert_eq!(topics[0], "attack-surface-mapping");
    assert_eq!(topic_description("api-security"), "Audit API endpoints for authentication, authorization, and injection flaws.");
    assert_eq!(topic_description("nope"), "General security testing knowledge area.");
}

#[test]
fn app_info_and_custom_tools() {
    let config = AppConfig::default();
    let info = app_info(&config);
    assert_eq!(info.version, "4.0.0");
    assert!(info.cli_supported);
    assert_eq!(info.knowledge_topics, config.knowledge_topics);

    let t = tool_from_input(&input("mytool"));
    assert_eq!(t.name, "mytool");
    assert_eq!(t.source, "custom");
    assert_eq!(t.path_override, None);
    assert_eq!(t.timeout_seconds, 30);

    let before = config.tools.len();
    let updated = apply_tool_profile(config, &input("mytool"));
    assert_eq!(updated.tools.len(), before + 1);
    assert!(updated.tools.iter().any(|p| p.name == "mytool" && p.source == "custom"));
    let again = apply_tool_profile(updated.clone(), &input("mytool"));
    assert_eq!(again.tools.len(), updated.tools.len());
    let names: Vec<String> = again.tools.iter().map(|p| p.name.clone()).collect();
    let mut sorted = names.clone();
    sorted.sort();
    sorted.dedup();
    assert_eq!(names, sorted);
}

#[test]
fn report_string_is_the_rendered_report() {
    let session = Session::new("t.com", "single");
    let findings = vec![Finding::new("s", "nmap", "open", "LOW")];
    let r = generate_report_string("{{target}} {{findings_total}}", &session, &findings);
    assert_eq!(r, "t.com 1");
}
