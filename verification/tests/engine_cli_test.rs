use torot_lib::base::cli::{cli_arg, cli_command, cli_tools, cli_usage, report_session, scan_request, tools_table_lines, CliCommand};
use torot_lib::base::engine::{
    combine_output, keep_output_line, launch_line, plan_pipeline, scan_complete_line, start_line,
    timed_out_line, tool_complete_line, tool_output_path, tool_runtime_limit, unknown_tool_line, PipelineStep,
};
use torot_lib::base::engine::{chosen_output_path, default_report_path, report_path_for, version_from_output};
use torot_lib::base::AppConfig;

fn args(v: &[&str]) -> Vec<String> {
    v.iter().map(|s| s.to_string()).collect()
}

#[test]
fn flags_and_commands() {
    let a = args(&["scan", "--target", "x.com", "--tools", " nmap, ,nuclei ,", "--target", "y"]);
    assert_eq!(cli_arg(&a, "--target"), Some("x.com".to_string()));
    assert_eq!(cli_arg(&a, "--mode"), None);
    assert_eq!(cli_arg(&args(&["--output"]), "--output"), None);
    assert_eq!(cli_tools(&a), vec!["nmap".to_string(), "nuclei".to_string()]);
    assert!(cli_tools(&args(&["scan"])).is_empty());
    assert_eq!(cli_command(&a), CliCommand::Scan);
    assert_eq!(cli_command(&args(&[])), CliCommand::Help);
    assert_eq!(cli_command(&args(&["help"])), CliCommand::Help);
    assert_eq!(cli_command(&args(&["whatever"])), CliCommand::Interactive);
    assert!(cli_usage().starts_with("torot 4.0.0"));
}

#[test]
fn scan_and_report_requests() {
    let r = scan_request(&args(&["scan", "--target", "t", "--mode", "deep", "--output", "o.md"]), None).unwrap();
    assert_eq!(r.target, "t");
    assert_eq!(r.mode, "deep");
    assert_eq!(r.report_output_path, Some("o.md".to_string()));
    let r2 = scan_request(&args(&["scan", "--target", "t"]), Some("T".to_string())).unwrap();
    assert_eq!(r2.mode, "single");
    assert_eq!(r2.report_template, Some("T".to_string()));
    assert_eq!(scan_request(&args(&["scan"]), None).unwrap_err(), "Missing --target");
    assert_eq!(report_session(&args(&["report"])).unwrap_err(), "Missing --session");
    assert_eq!(report_session(&args(&["report", "--session", "s1"])).unwrap(), "s1");
}

#[test]
fn tools_table() {
    let config = AppConfig::default();
    let runtimes = torot_lib::base::tools::locate_tools(&config);
    let statuses = torot_lib::base::tools::tool_statuses(&config, &runtimes);
    let lines = tools_table_lines(&statuses);
    assert_eq!(lines.len(), statuses.len() + 2);
    assert_eq!(lines[0], "Tool         Status    Version              Binary");
    assert_eq!(lines[1], "-".repeat(60));
}

#[test]
fn pipeline_plan_and_limits() {
    let config = AppConfig::default();
    let steps = plan_pipeline(&config, &args(&["nmap", "nope"]));
    assert_eq!(steps.len(), 2);
    match &steps[0] {
        PipelineStep::Launch { profile, max_runtime } => {
            assert_eq!(profile.name, "nmap");
            assert_eq!(*max_runtime, tool_runtime_limit(config.sandbox.max_runtime_seconds, profile.timeout_seconds));
        }
        _ => panic!("nmap should launch"),
    }
    match &steps[1] {
        PipelineStep::Skip { line } => assert_eq!(line, "Unknown tool `nope` skipped."),
        _ => panic!("unknown tools are skipped"),
    }
    assert_eq!(tool_runtime_limit(900, 600), 600);
    assert_eq!(tool_runtime_limit(10, 600), 30);
    assert_eq!(tool_runtime_limit(900, 1200), 900);
}

#[test]
fn pipeline_messages() {
    assert_eq!(start_line("single", "x.com"), "torot v4.0.0 starting single scan against x.com");
    assert_eq!(launch_line(&args(&["a", "b"])), "Launching 2 tool(s) in parallel: a, b");
    assert_eq!(unknown_tool_line("z"), "Unknown tool `z` skipped.");
    assert_eq!(timed_out_line(30), "Timed out after 30 seconds.");
    assert_eq!(tool_complete_line("nmap", 3), "nmap complete with 3 parsed finding(s).");
    assert_eq!(scan_complete_line("No findings", &None), "Scan complete. No findings");
    assert_eq!(scan_complete_line("S", &Some("/r.md".to_string())), "Scan complete. S Report: /r.md");
    assert_eq!(tool_output_path("/reports", "s1", "nmap"), "/reports/s1-nmap.out");
    assert_eq!(combine_output("out", "err"), "out\nerr");
    assert_eq!(combine_output("", "err"), "err");
    assert_eq!(combine_output("out", ""), "out");
    assert!(keep_output_line(" x "));
    assert!(!keep_output_line("   "));
}

#[test]
fn report_paths() {
    assert_eq!(default_report_path("/r", "s"), "/r/s.md");
    assert_eq!(report_path_for(&None, "/r", "s"), "/r/s.md");
    assert_eq!(report_path_for(&Some("  ".to_string()), "/r", "s"), "  ");
    assert_eq!(chosen_output_path(&Some("  ".to_string()), "/r", "s"), "/r/s.md");
    assert_eq!(chosen_output_path(&Some("x.md".to_string()), "/r", "s"), "x.md");
}

#[test]
fn versions_from_tool_output() {
    assert_eq!(version_from_output("  nmap 7.94 \nmore", "x"), Some("nmap 7.94".to_string()));
    assert_eq!(version_from_output("", "v1.2\r\n"), Some("v1.2".to_string()));
    assert_eq!(version_from_output("", ""), None);
}

#[test]
fn pipeline_start_without_tools_says_so() {
    let config = torot_lib::base::AppConfig::default();
    match torot_lib::base::engine::start_pipeline(&config, &Vec::new()) {
        torot_lib::base::engine::PipelineStart::NoTools { line } => {
            assert_eq!(line, "No compatible installed tools were found for this target.")
        }
        _ => panic!("expected no tools"),
    }
}

#[test]
fn pipeline_start_announces_and_plans_the_tools() {
    let config = torot_lib::base::AppConfig::default();
    let selected = vec!["nmap".to_string(), "nosuchtool".to_string()];
    match torot_lib::base::engine::start_pipeline(&config, &selected) {
        torot_lib::base::engine::PipelineStart::Launch { line, steps } => {
            assert_eq!(line, "Launching 2 tool(s) in parallel: nmap, nosuchtool");
            assert_eq!(steps.len(), 2);
            assert!(matches!(&steps[0], torot_lib::base::engine::PipelineStep::Launch { profile, .. } if profile.name == "nmap"));
            assert!(matches!(&steps[1], torot_lib::base::engine::PipelineStep::Skip { .. }));
        }
        _ => panic!("expected a launch"),
    }
}
