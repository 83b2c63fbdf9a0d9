use torot_lib::base::event::AppEvent;
use torot_lib::tui::state::{apply_settings, InputMode, KeyInput, UiAction, UiState};
use torot_lib::tui::views::{filter_tools, SeverityColors, Tone};
use torot_lib::tui::Screen;

#[test]
fn screens_round_trip_through_positions() {
    for i in 0..6 {
        assert_eq!(Screen::from_idx(i).idx(), i);
    }
    assert_eq!(Screen::from_idx(9), Screen::Home);
    assert_eq!(Screen::Findings.name(), "FINDINGS");
}

fn line(text: &str) -> AppEvent {
    AppEvent::Line { tool: "t".to_string(), line: text.to_string(), kind: "output".to_string(), severity: None }
}

#[test]
fn navigation_keys() {
    let mut ui = UiState::new(vec![], None);
    assert!(matches!(ui.handle_key(KeyInput::Tab, false), UiAction::Nothing));
    assert_eq!(ui.screen, Screen::Scan);
    assert!(matches!(ui.handle_key(KeyInput::Right, false), UiAction::LoadFindings(_)));
    assert_eq!(ui.screen, Screen::Findings);
    assert!(matches!(ui.handle_key(KeyInput::Char('6'), false), UiAction::Nothing));
    ui.handle_key(KeyInput::Right, false);
    assert_eq!(ui.screen, Screen::Settings);
    ui.handle_key(KeyInput::Left, false);
    assert_eq!(ui.screen, Screen::Tools);
    ui.handle_key(KeyInput::Esc, false);
    assert_eq!(ui.screen, Screen::Home);
    ui.handle_key(KeyInput::Char('q'), false);
    assert!(!ui.quit);
    ui.handle_key(KeyInput::Char('q'), true);
    assert!(ui.quit);
}

#[test]
fn editing_and_launching() {
    let mut ui = UiState::new(vec![], None);
    ui.handle_key(KeyInput::Enter, false);
    assert_eq!(ui.input_mode, InputMode::Editing);
    assert!(matches!(ui.handle_key(KeyInput::Enter, false), UiAction::Nothing));
    assert_eq!(ui.home.launch_error, "Target required.");
    ui.handle_key(KeyInput::Char('/'), false);
    for c in " ab.cx".chars() {
        ui.handle_key(KeyInput::Char(c), false);
    }
    ui.handle_key(KeyInput::Backspace, false);
    match ui.handle_key(KeyInput::Enter, false) {
        UiAction::StartScan(r) => {
            assert_eq!(r.target, "ab.c");
            assert_eq!(r.mode, "single");
            assert!(r.tools.is_empty());
            assert!(r.report_template.is_none());
        }
        _ => panic!("expected a scan request"),
    }
    assert_eq!(ui.home.launch_error, "");
    assert_eq!(ui.input_mode, InputMode::Normal);
    ui.scan_started("sid".to_string());
    assert_eq!(ui.screen, Screen::Scan);
    assert!(ui.scan.running);
    assert!(matches!(ui.handle_key(KeyInput::Char('s'), false), UiAction::StopScan));
    assert!(!ui.scan.running);
    match ui.handle_key(KeyInput::Char('e'), false) {
        UiAction::ExportReport(r) => assert_eq!(r.session_id, "sid"),
        _ => panic!("expected a report request"),
    }
}

#[test]
fn stream_is_capped_and_followed() {
    let mut ui = UiState::new(vec![], None);
    for i in 0..2005 {
        assert!(!ui.handle_event(line(&format!("l{i}"))));
    }
    assert_eq!(ui.scan.stream.len(), 2000);
    assert_eq!(ui.scan.stream[0].line, "l5");
    assert_eq!(ui.scan.scroll_offset, 1999);
    ui.screen = Screen::Scan;
    ui.handle_key(KeyInput::Up, false);
    assert_eq!(ui.scan.scroll_offset, 1998);
    assert!(!ui.scan.auto_scroll);
    ui.handle_key(KeyInput::Home, false);
    assert_eq!(ui.scan.scroll_offset, 0);
    ui.handle_key(KeyInput::PageDown, false);
    assert_eq!(ui.scan.scroll_offset, 20);
    ui.handle_key(KeyInput::End, false);
    assert_eq!(ui.scan.scroll_offset, 1999);
    assert!(ui.scan.auto_scroll);
    assert!(ui.handle_event(AppEvent::ScanComplete { report_path: Some("r.md".to_string()) }));
    assert!(ui.scan.complete);
}

#[test]
fn settings_cycle_and_save() {
    let mut ui = UiState::new(vec![], None);
    ui.screen = Screen::Settings;
    match ui.handle_key(KeyInput::Char('s'), false) {
        UiAction::SaveSettings(s) => {
            assert_eq!(s.sandbox_profile, "strong");
            assert_eq!(s.max_runtime, 900);
            let mut stored = torot_lib::base::AppConfig::default();
            stored.tools[0].path_override = Some("/opt/x".to_string());
            let tools_before = stored.tools.len();
            let mut edited = s.clone();
            edited.install_mode = "cli".to_string();
            edited.max_runtime = 300;
            let c = apply_settings(stored, &edited);
            assert_eq!(c.install_mode, "cli");
            assert_eq!(c.sandbox.max_runtime_seconds, 300);
            assert_eq!(c.tools.len(), tools_before);
            assert_eq!(c.tools[0].path_override, Some("/opt/x".to_string()));
            assert_eq!(c.version, "4.0.0");
        }
        _ => panic!("expected settings to save"),
    }
    ui.settings_saved();
    assert_eq!(ui.settings.message, "Settings saved.");
    ui.settings_failed("disk full");
    assert_eq!(ui.settings.message, "Save error: disk full");
}

#[test]
fn ticks_refresh_every_twentieth() {
    let mut ui = UiState::new(vec![], None);
    let refreshes: usize = (0..40).filter(|_| ui.tick()).count();
    assert_eq!(refreshes, 2);
    assert_eq!(ui.tick_count, 40);
}

#[test]
fn severity_tones_and_search() {
    assert_eq!(SeverityColors::tone("CRITICAL"), Tone::Red);
    assert_eq!(SeverityColors::tone("HIGH"), Tone::Orange);
    assert_eq!(SeverityColors::tone("MEDIUM"), Tone::Yellow);
    assert_eq!(SeverityColors::tone("LOW"), Tone::Muted);
    assert_eq!(SeverityColors::tone("other"), Tone::Secondary);
    let config = torot_lib::base::AppConfig::default();
    let runtimes = torot_lib::base::tools::locate_tools(&config);
    let statuses = torot_lib::base::tools::tool_statuses(&config, &runtimes);
    let all = filter_tools(&statuses, "");
    assert_eq!(all.len(), statuses.len());
    let hits = filter_tools(&statuses, "NMAP");
    assert!(hits.iter().any(|&i| statuses[i].name == "nmap"));
}

fn statuses_with_two_installed() -> Vec<torot_lib::base::types::ToolStatus> {
    let config = torot_lib::base::AppConfig::default();
    let runtimes: Vec<torot_lib::base::tools::ToolRuntime> = (0..config.tools.len())
        .map(|i| {
            let binary = if i < 2 { Some(format!("/usr/bin/tool{}", i)) } else { None };
            torot_lib::base::tools::runtime_from(binary, None)
        })
        .collect();
    torot_lib::base::tools::tool_statuses(&config, &runtimes)
}

#[test]
fn home_marks_list_ready_tools() {
    let statuses = statuses_with_two_installed();
    let ready: Vec<String> =
        statuses.iter().filter(|t| t.installed && t.enabled).map(|t| t.name.clone()).collect();
    let marks = torot_lib::tui::state::home_tool_marks(&statuses, &Vec::new());
    assert_eq!(marks.len(), ready.len());
    assert!(marks.iter().all(|(_, m)| *m));
    assert_eq!(marks.iter().map(|(n, _)| n.clone()).collect::<Vec<String>>(), ready);
    if let Some(first) = ready.first() {
        let marks = torot_lib::tui::state::home_tool_marks(&statuses, &vec![first.clone()]);
        assert!(marks[0].1);
        assert!(marks.iter().skip(1).all(|(_, m)| !*m));
    }
}

#[test]
fn registry_counts_installed_among_matches() {
    let statuses = statuses_with_two_installed();
    let (installed, total) = torot_lib::tui::views::registry_counts(&statuses, "");
    assert_eq!(total, statuses.len());
    assert_eq!(installed, 2);
    let (installed, total) = torot_lib::tui::views::registry_counts(&statuses, "no-such-tool-anywhere");
    assert_eq!((installed, total), (0, 0));
}

#[test]
fn detail_sections_skip_empty_texts() {
    let d = torot_lib::tui::views::FindingDetail {
        id: "f1".to_string(),
        tool: "nuclei".to_string(),
        severity: "HIGH".to_string(),
        title: "XSS".to_string(),
        description: "Reflected input".to_string(),
        file: String::new(),
        line: 0,
        fix_suggestion: "Escape output".to_string(),
        impact: String::new(),
    };
    let s = torot_lib::tui::views::detail_sections(&d);
    assert_eq!(
        s,
        vec![
            (" Description:".to_string(), "Reflected input".to_string()),
            (" Fix:".to_string(), "Escape output".to_string())
        ]
    );
}
