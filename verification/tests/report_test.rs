use torot_lib::base::default_report_template;
use torot_lib::base::report::{choose_template, render_report};
use torot_lib::base::types::{Finding, Session};

fn make_session() -> Session {
    Session::new("https://example.com", "single")
}

fn make_findings() -> Vec<Finding> {
    let mut f1 = Finding::new("s1", "nuclei", "[nuclei] XSS detected", "HIGH");
    f1.description = "XSS in search parameter".to_string();
    f1.file = "https://example.com/search".to_string();

    let f2 = Finding::new("s1", "nmap", "[nmap] open port 80", "MEDIUM");

    vec![f1, f2]
}

#[test]
fn test_render_report() {
    let session = make_session();
    let findings = make_findings();
    let template = "# Report\n- Target: {{target}}\n- Findings: {{findings_total}}\n\n{{findings_table}}";

    let report = render_report(template, &session, &findings);
    assert!(report.contains("https://example.com"));
    assert!(report.contains("2"));
    assert!(report.contains("| Severity |"));
    assert!(report.contains("nuclei"));
    assert!(report.contains("nmap"));
}

#[test]
fn test_render_report_empty() {
    let session = make_session();
    let template = "{{summary}}";
    let report = render_report(template, &session, &[]);
    assert!(report.contains("No findings"));
}

#[test]
fn test_render_report_full_template() {
    let session = make_session();
    let findings = make_findings();
    let template = default_report_template();

    let report = render_report(&template, &session, &findings);
    assert!(report.contains("Torot v4 Report"));
    assert!(report.contains("Executive Summary"));
    assert!(report.contains("Tool Coverage"));
    assert!(report.contains("Findings"));
}

#[test]
fn template_without_placeholders_is_kept() {
    let session = make_session();
    let report = render_report("plain text only", &session, &make_findings());
    assert_eq!(report, "plain text only");
}

#[test]
fn blank_requested_template_falls_back_to_default() {
    let default = "DEFAULT".to_string();
    assert_eq!(choose_template(&Some("   ".to_string()), &default), "DEFAULT");
    assert_eq!(choose_template(&None, &default), "DEFAULT");
    assert_eq!(choose_template(&Some("mine".to_string()), &default), "mine");
}

#[test]
fn report_without_time_placeholder_does_not_depend_on_the_clock() {
    let session = make_session();
    let findings = make_findings();
    let template = "{{session_id}} on {{target}}: {{findings_total}} ({{high_count}} high)";
    let a = render_report(template, &session, &findings);
    let b = torot_lib::base::report::generate_report_string(template, &session, &findings);
    let c = torot_lib::base::report::render_report_at(template, &session, &findings, 12345);
    assert_eq!(a, b);
    assert_eq!(a, c);
    assert_eq!(a, format!("{} on https://example.com: 2 (1 high)", session.id));
}

#[test]
fn report_fills_each_placeholder_once() {
    let session = make_session();
    let findings = make_findings();
    let template = "A{{target}}B{{findings_total}}C{{critical_count}}D{{high_count}}E";
    let r = torot_lib::base::report::render_report_at(template, &session, &findings, 7);
    assert_eq!(r, "Ahttps://example.comB2C0D1E");
}
