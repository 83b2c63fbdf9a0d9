//! The interface's state machine: what a key press or a scan event does to
//! the interface, and what it asks the caller to do (load data, start or
//! stop a scan, write a report, save settings). The caller performs the
//! request and reports the outcome back.
use vstd::prelude::*;
use crate::base::event::AppEvent;
use crate::base::types::{
    copy_strings, opt_str, strs, AppConfig, DbSession, Finding, ReportRequest, ScanRequest,
    ToolStatus,
};
use crate::text::{chars_of, extend_str, push_char, string_from, string_of, str_eq, trim, trim_exec};
use crate::tui::views::{FindingDetail, SettingsState, StreamLine};
use crate::tui::{view_at, view_index, Screen};

verus! {

/// Whether keys go to a text field.
#[derive(Debug, Clone, Copy, PartialEq, Eq, Structural)]
pub enum InputMode {
    Normal,
    Editing,
}

/// A key press, as the interface tells keys apart.
#[derive(Debug, Clone, Copy, PartialEq, Eq, Structural)]
pub enum KeyInput {
    Char(char),
    Tab,
    Right,
    Left,
    Esc,
    Enter,
    Backspace,
    Up,
    Down,
    PageUp,
    PageDown,
    Home,
    End,
    Other,
}

/// The home screen's form.
#[derive(Debug, Clone)]
pub struct HomeForm {
    pub target_input: String,
    pub mode: String,
    pub selected_tools: Vec<String>,
    pub launch_error: String,
    pub report_path_input: String,
    pub report_template_input: String,
    pub show_advanced: bool,
}

/// The scan screen: the live stream, the findings so far, and where the
/// stream is scrolled to.
#[derive(Debug, Clone)]
pub struct ScanPane {
    pub stream: Vec<StreamLine>,
    pub findings: Vec<Finding>,
    pub running: bool,
    pub session_id: Option<String>,
    pub complete: bool,
    pub report_path: Option<String>,
    pub scroll_offset: usize,
    pub tab_selected: usize,
    pub auto_scroll: bool,
}

/// Everything the interface shows and edits.
#[derive(Debug, Clone)]
pub struct UiState {
    pub screen: Screen,
    pub quit: bool,
    pub input_mode: InputMode,
    pub home: HomeForm,
    pub scan: ScanPane,
    pub findings: Vec<Finding>,
    pub active_finding: Option<FindingDetail>,
    pub sessions: Vec<DbSession>,
    pub tool_statuses: Vec<ToolStatus>,
    pub tool_search: String,
    pub settings: SettingsState,
    pub tick_count: u64,
}

/// The home form's content.
#[verifier::ext_equal]
pub struct HomeView {
    pub target: Seq<char>,
    pub mode: Seq<char>,
    pub selected: Seq<Seq<char>>,
    pub launch_error: Seq<char>,
    pub report_path: Seq<char>,
    pub report_template: Seq<char>,
    pub show_advanced: bool,
}

/// The scan pane's content.
#[verifier::ext_equal]
pub struct ScanView {
    pub stream: Seq<StreamLine>,
    pub findings: Seq<Finding>,
    pub running: bool,
    pub session_id: Option<Seq<char>>,
    pub complete: bool,
    pub report_path: Option<Seq<char>>,
    pub offset: usize,
    pub tab: usize,
    pub auto: bool,
}

/// The settings' content.
#[verifier::ext_equal]
pub struct SettingsView {
    pub install_mode: Seq<char>,
    pub sandbox_profile: Seq<char>,
    pub max_runtime: u64,
    pub report_template: Seq<char>,
    pub saved: bool,
    pub message: Seq<char>,
}

/// The interface's content.
#[verifier::ext_equal]
pub struct UiView {
    pub screen: Screen,
    pub quit: bool,
    pub editing: bool,
    pub home: HomeView,
    pub scan: ScanView,
    pub findings: Seq<Finding>,
    pub active_finding: Option<FindingDetail>,
    pub sessions: Seq<DbSession>,
    pub tools: Seq<ToolStatus>,
    pub tool_search: Seq<char>,
    pub settings: SettingsView,
    pub ticks: u64,
}

impl View for HomeForm {
    type V = HomeView;

    open spec fn view(&self) -> HomeView {
        HomeView {
            target: self.target_input@,
            mode: self.mode@,
            selected: strs(self.selected_tools@),
            launch_error: self.launch_error@,
            report_path: self.report_path_input@,
            report_template: self.report_template_input@,
            show_advanced: self.show_advanced,
        }
    }
}

impl View for ScanPane {
    type V = ScanView;

    open spec fn view(&self) -> ScanView {
        ScanView {
            stream: self.stream@,
            findings: self.findings@,
            running: self.running,
            session_id: opt_str(self.session_id),
            complete: self.complete,
            report_path: opt_str(self.report_path),
            offset: self.scroll_offset,
            tab: self.tab_selected,
            auto: self.auto_scroll,
        }
    }
}

impl View for SettingsState {
    type V = SettingsView;

    open spec fn view(&self) -> SettingsView {
        SettingsView {
            install_mode: self.install_mode@,
            sandbox_profile: self.sandbox_profile@,
            max_runtime: self.max_runtime,
            report_template: self.report_template@,
            saved: self.saved,
            message: self.message@,
        }
    }
}

impl View for UiState {
    type V = UiView;

    open spec fn view(&self) -> UiView {
        UiView {
            screen: self.screen,
            quit: self.quit,
            editing: self.input_mode == InputMode::Editing,
            home: self.home@,
            scan: self.scan@,
            findings: self.findings@,
            active_finding: self.active_finding,
            sessions: self.sessions@,
            tools: self.tool_statuses@,
            tool_search: self.tool_search@,
            settings: self.settings@,
            ticks: self.tick_count,
        }
    }
}

/// What the interface asks its caller to do.
#[derive(Debug, Clone)]
pub enum UiAction {
    Nothing,
    /// Load the findings of a session for the findings screen.
    LoadFindings(String),
    RefreshSessions,
    RefreshTools,
    StartScan(ScanRequest),
    StopScan,
    ExportReport(ReportRequest),
    /// Save these settings into the stored configuration (see
    /// `apply_settings`).
    SaveSettings(SettingsState),
}

/// The content of a request.
pub enum ActionView {
    Nothing,
    LoadFindings(Seq<char>),
    RefreshSessions,
    RefreshTools,
    StartScan(Seq<char>, Seq<char>, Seq<Seq<char>>, Option<Seq<char>>, Option<Seq<char>>),
    StopScan,
    ExportReport(Seq<char>, Option<Seq<char>>, Option<Seq<char>>),
    SaveSettings(SettingsView),
}

/// The content of a request.
pub open spec fn action_view(a: UiAction) -> ActionView {
    match a {
        UiAction::Nothing => ActionView::Nothing,
        UiAction::LoadFindings(s) => ActionView::LoadFindings(s@),
        UiAction::RefreshSessions => ActionView::RefreshSessions,
        UiAction::RefreshTools => ActionView::RefreshTools,
        UiAction::StartScan(r) => ActionView::StartScan(
            r.target@,
            r.mode@,
            strs(r.tools@),
            opt_str(r.report_template),
            opt_str(r.report_output_path),
        ),
        UiAction::StopScan => ActionView::StopScan,
        UiAction::ExportReport(r) => ActionView::ExportReport(
            r.session_id@,
            opt_str(r.template),
            opt_str(r.output_path),
        ),
        UiAction::SaveSettings(st) => ActionView::SaveSettings(st@),
    }
}

/// `a - b`, or 0 when `b` is larger.
pub open spec fn sat_sub(a: int, b: int) -> int {
    if a >= b {
        a - b
    } else {
        0
    }
}

/// `None` for an empty field, else its text.
pub open spec fn non_empty(s: Seq<char>) -> Option<Seq<char>> {
    if s.len() == 0 {
        None
    } else {
        Some(s)
    }
}

/// The interface on the screen `v`, and what it needs loaded there: the
/// findings of the current session, the session history, or the tools.
pub open spec fn set_screen(u: UiView, v: Screen) -> (UiView, ActionView) {
    let u2 = UiView { screen: v, ..u };
    match v {
        Screen::Findings => (u2, ActionView::LoadFindings(
            match u.scan.session_id {
                Some(s) => s,
                None => Seq::empty(),
            },
        )),
        Screen::History => (u2, ActionView::RefreshSessions),
        Screen::Tools => (u2, ActionView::RefreshTools),
        _ => (u2, ActionView::Nothing),
    }
}

/// The scan request of the home form: refused with `Target required.` when
/// the target is blank, else for the trimmed target, the mode, the selected
/// tools, and the report fields that are filled in.
pub open spec fn launch_step(u: UiView) -> (UiView, ActionView) {
    if trim(u.home.target).len() == 0 {
        (UiView { home: HomeView { launch_error: "Target required."@, ..u.home }, ..u }, ActionView::Nothing)
    } else {
        (
            UiView { home: HomeView { launch_error: Seq::empty(), ..u.home }, ..u },
            ActionView::StartScan(
                trim(u.home.target),
                u.home.mode,
                u.home.selected,
                non_empty(u.home.report_template),
                non_empty(u.home.report_path),
            ),
        )
    }
}

/// A key while a text field is edited: Esc leaves the field, Enter leaves
/// it and on the home screen launches the scan; Backspace and characters
/// edit the home target or the tool search.
pub open spec fn editing_step(u: UiView, key: KeyInput) -> (UiView, ActionView) {
    match key {
        KeyInput::Esc => (UiView { editing: false, ..u }, ActionView::Nothing),
        KeyInput::Enter => {
            let (u2, a) = if u.screen == Screen::Home {
                launch_step(u)
            } else {
                (u, ActionView::Nothing)
            };
            (UiView { editing: false, ..u2 }, a)
        },
        KeyInput::Backspace => match u.screen {
            Screen::Home => (UiView {
                home: HomeView {
                    target: if u.home.target.len() > 0 {
                        u.home.target.drop_last()
                    } else {
                        u.home.target
                    },
                    ..u.home
                },
                ..u
            }, ActionView::Nothing),
            Screen::Tools => (UiView {
                tool_search: if u.tool_search.len() > 0 {
                    u.tool_search.drop_last()
                } else {
                    u.tool_search
                },
                ..u
            }, ActionView::Nothing),
            _ => (u, ActionView::Nothing),
        },
        KeyInput::Char(c) => match u.screen {
            Screen::Home => (UiView {
                home: HomeView { target: u.home.target.push(c), ..u.home },
                ..u
            }, ActionView::Nothing),
            Screen::Tools => (UiView { tool_search: u.tool_search.push(c), ..u }, ActionView::Nothing),
            _ => (u, ActionView::Nothing),
        },
        _ => (u, ActionView::Nothing),
    }
}

/// The names of the tools that are installed and enabled, in order.
pub open spec fn ready_tool_names(tools: Seq<ToolStatus>) -> Seq<Seq<char>>
    decreases tools.len(),
{
    if tools.len() == 0 {
        Seq::empty()
    } else if tools.last().installed && tools.last().enabled {
        ready_tool_names(tools.drop_last()).push(tools.last().name@)
    } else {
        ready_tool_names(tools.drop_last())
    }
}

/// A key on the home screen: `/` or Enter edits the target, `1`-`3` pick
/// the mode, `a` shows or hides the advanced fields, and space selects
/// every ready tool, or none when as many are selected already.
pub open spec fn home_step(u: UiView, key: KeyInput) -> UiView {
    match key {
        KeyInput::Char('/') | KeyInput::Enter => if !u.editing {
            UiView { editing: true, ..u }
        } else {
            u
        },
        KeyInput::Char('1') => UiView { home: HomeView { mode: "single"@, ..u.home }, ..u },
        KeyInput::Char('2') => UiView { home: HomeView { mode: "deep"@, ..u.home }, ..u },
        KeyInput::Char('3') => UiView { home: HomeView { mode: "passive"@, ..u.home }, ..u },
        KeyInput::Char('a') | KeyInput::Char('A') => UiView {
            home: HomeView { show_advanced: !u.home.show_advanced, ..u.home },
            ..u
        },
        KeyInput::Char(' ') => {
            let ready = ready_tool_names(u.tools);
            UiView {
                home: HomeView {
                    selected: if u.home.selected.len() == ready.len() {
                        Seq::empty()
                    } else {
                        ready
                    },
                    ..u.home
                },
                ..u
            }
        },
        _ => u,
    }
}

/// The report request for the current session, when there is one.
pub open spec fn export_step(u: UiView) -> ActionView {
    let sid = match u.scan.session_id {
        Some(s) => s,
        None => Seq::empty(),
    };
    if sid.len() == 0 {
        ActionView::Nothing
    } else {
        ActionView::ExportReport(sid, non_empty(u.home.report_template), non_empty(u.home.report_path))
    }
}

/// Scrolling and tabs on the scan screen, over a stream of `len` lines.
pub open spec fn scroll_step(len: int, s: ScanView, key: KeyInput) -> ScanView {
    let max = sat_sub(len, 1);
    match key {
        KeyInput::Char('t') | KeyInput::Tab => ScanView { tab: ((s.tab + 1) % 2) as usize, ..s },
        KeyInput::Up => ScanView { auto: false, offset: sat_sub(s.offset as int, 1) as usize, ..s },
        KeyInput::Down => {
            let o = if s.offset < max {
                s.offset + 1
            } else {
                s.offset as int
            };
            ScanView { offset: o as usize, auto: if o >= sat_sub(max, 1) { true } else { s.auto }, ..s }
        },
        KeyInput::PageUp => ScanView { offset: sat_sub(s.offset as int, 20) as usize, auto: false, ..s },
        KeyInput::PageDown => ScanView {
            offset: (if s.offset + 20 < max {
                s.offset + 20
            } else {
                max
            }) as usize,
            ..s
        },
        KeyInput::Home => ScanView { offset: 0, auto: false, ..s },
        KeyInput::End => ScanView { offset: max as usize, auto: true, ..s },
        KeyInput::Char('r') | KeyInput::Char('R') => ScanView { offset: max as usize, auto: true, ..s },
        _ => s,
    }
}

/// A key on the scan screen: scrolling and tabs; `e` asks for the report
/// once the scan has stopped; `s` stops a running scan.
pub open spec fn scan_step(u: UiView, key: KeyInput) -> (UiView, ActionView) {
    match key {
        KeyInput::Char('e') | KeyInput::Char('E') => if !u.scan.running && u.scan.session_id is Some {
            (u, export_step(u))
        } else {
            (u, ActionView::Nothing)
        },
        KeyInput::Char('s') | KeyInput::Char('S') => if u.scan.running {
            (UiView { scan: ScanView { running: false, ..u.scan }, ..u }, ActionView::StopScan)
        } else {
            (u, ActionView::Nothing)
        },
        _ => (UiView { scan: scroll_step(u.scan.stream.len() as int, u.scan, key), ..u }, ActionView::Nothing),
    }
}

/// The sandbox profile after `strong`, `moderate`, `off`, in a cycle; an
/// unknown one counts as `strong`.
pub open spec fn next_profile(p: Seq<char>) -> Seq<char> {
    if p == "moderate"@ {
        "off"@
    } else if p == "off"@ {
        "strong"@
    } else {
        "moderate"@
    }
}

/// The runtime limit after 300, 600, 900, 1800, 3600 seconds, in a cycle;
/// any other value goes to 300.
pub open spec fn next_runtime(r: u64) -> u64 {
    if r == 300 {
        600
    } else if r == 600 {
        900
    } else if r == 900 {
        1800
    } else if r == 1800 {
        3600
    } else {
        300
    }
}

/// A key on the settings screen: `s` saves, `1` cycles the sandbox
/// profile, `2` cycles the runtime limit.
pub open spec fn settings_step(u: UiView, key: KeyInput) -> (UiView, ActionView) {
    match key {
        KeyInput::Char('s') | KeyInput::Char('S') => (u, ActionView::SaveSettings(u.settings)),
        KeyInput::Char('1') => (UiView {
            settings: SettingsView { sandbox_profile: next_profile(u.settings.sandbox_profile), ..u.settings },
            ..u
        }, ActionView::Nothing),
        KeyInput::Char('2') => (UiView {
            settings: SettingsView { max_runtime: next_runtime(u.settings.max_runtime), ..u.settings },
            ..u
        }, ActionView::Nothing),
        _ => (u, ActionView::Nothing),
    }
}

/// A key on the current screen.
pub open spec fn screen_step(u: UiView, key: KeyInput) -> (UiView, ActionView) {
    match u.screen {
        Screen::Home => (home_step(u, key), ActionView::Nothing),
        Screen::Scan => scan_step(u, key),
        Screen::Findings => match key {
            KeyInput::Enter | KeyInput::Esc => (UiView { active_finding: None, ..u }, ActionView::Nothing),
            _ => (u, ActionView::Nothing),
        },
        Screen::History => (u, ActionView::Nothing),
        Screen::Tools => match key {
            KeyInput::Char('/') => (UiView { editing: true, ..u }, ActionView::Nothing),
            _ => (u, ActionView::Nothing),
        },
        Screen::Settings => settings_step(u, key),
    }
}

/// What a key does: while editing, it edits; otherwise Ctrl-q quits, `1`-`6`
/// pick a screen, Tab and the arrows step through the screens, Esc goes
/// home, and any other key goes to the current screen.
pub open spec fn key_step(u: UiView, key: KeyInput, ctrl: bool) -> (UiView, ActionView) {
    if u.editing {
        editing_step(u, key)
    } else {
        match key {
            KeyInput::Char('q') if ctrl => (UiView { quit: true, ..u }, ActionView::Nothing),
            KeyInput::Char('1') => set_screen(u, Screen::Home),
            KeyInput::Char('2') => set_screen(u, Screen::Scan),
            KeyInput::Char('3') => set_screen(u, Screen::Findings),
            KeyInput::Char('4') => set_screen(u, Screen::History),
            KeyInput::Char('5') => set_screen(u, Screen::Tools),
            KeyInput::Char('6') => set_screen(u, Screen::Settings),
            KeyInput::Tab | KeyInput::Right => set_screen(
                u,
                view_at(if view_index(u.screen) + 1 < 5 { view_index(u.screen) + 1 } else { 5 }),
            ),
            KeyInput::Left => set_screen(u, view_at(sat_sub(view_index(u.screen) as int, 1) as nat)),
            KeyInput::Esc => set_screen(u, Screen::Home),
            _ => screen_step(u, key),
        }
    }
}

/// The most lines the scan stream keeps.
pub open spec fn stream_cap() -> int {
    2000
}

/// The scan pane after a line arrives: it is added, the oldest line goes
/// when there are more than 2000, and with auto-scroll on the view follows
/// the last line.
pub open spec fn line_step(s: ScanView, l: StreamLine) -> ScanView {
    let pushed = s.stream.push(l);
    let stream = if pushed.len() > stream_cap() {
        pushed.remove(0)
    } else {
        pushed
    };
    ScanView {
        stream,
        offset: if s.auto {
            sat_sub(stream.len() as int, 1) as usize
        } else {
            s.offset
        },
        ..s
    }
}

impl UiState {
    /// Well-formed: the stream keeps at most 2000 lines, the scroll
    /// position is within it, and the tab is the first or second.
    pub open spec fn wf(&self) -> bool {
        &&& self.scan.stream@.len() <= stream_cap()
        &&& self.scan.scroll_offset <= self.scan.stream@.len()
        &&& self.scan.tab_selected < 2
    }

    /// The interface as it starts: on the home screen, single mode, the
    /// given tools, and settings from the configuration when there is one
    /// (else both install modes, the strong sandbox, 900 seconds, no
    /// template).
    pub fn new(tools: Vec<ToolStatus>, config: Option<AppConfig>) -> (r: UiState)
        ensures
            r.wf(),
            r@.screen == Screen::Home,
            !r@.quit,
            !r@.editing,
            r@.home.mode == "single"@,
            r@.home.target.len() == 0,
            r@.home.selected.len() == 0,
            r@.scan.stream.len() == 0,
            !r@.scan.running,
            r@.scan.auto,
            r@.tools == tools@,
            r@.ticks == 0,
            match config {
                Some(c) => r@.settings == (SettingsView {
                    install_mode: c.install_mode@,
                    sandbox_profile: c.sandbox.profile@,
                    max_runtime: c.sandbox.max_runtime_seconds,
                    report_template: c.default_report_template@,
                    saved: false,
                    message: Seq::empty(),
                }),
                None => r@.settings == (SettingsView {
                    install_mode: "both"@,
                    sandbox_profile: "strong"@,
                    max_runtime: 900,
                    report_template: Seq::empty(),
                    saved: false,
                    message: Seq::empty(),
                }),
            },
    {
        let settings = match config {
            Some(c) => SettingsState {
                install_mode: c.install_mode,
                sandbox_profile: c.sandbox.profile,
                max_runtime: c.sandbox.max_runtime_seconds,
                report_template: c.default_report_template,
                saved: false,
                message: String::new(),
            },
            None => SettingsState {
                install_mode: string_from("both"),
                sandbox_profile: string_from("strong"),
                max_runtime: 900,
                report_template: String::new(),
                saved: false,
                message: String::new(),
            },
        };
        let r = UiState {
            screen: Screen::Home,
            quit: false,
            input_mode: InputMode::Normal,
            home: HomeForm {
                target_input: String::new(),
                mode: string_from("single"),
                selected_tools: Vec::new(),
                launch_error: String::new(),
                report_path_input: String::new(),
                report_template_input: String::new(),
                show_advanced: false,
            },
            scan: ScanPane {
                stream: Vec::new(),
                findings: Vec::new(),
                running: false,
                session_id: None,
                complete: false,
                report_path: None,
                scroll_offset: 0,
                tab_selected: 0,
                auto_scroll: true,
            },
            findings: Vec::new(),
            active_finding: None,
            sessions: Vec::new(),
            tool_statuses: tools,
            tool_search: String::new(),
            settings,
            tick_count: 0,
        };
        assert(r@.settings.message =~= Seq::<char>::empty());
        r
    }

    /// Moves to the screen `v`.
    fn set_screen_exec(&mut self, v: Screen) -> (a: UiAction)
        ensures
            (final(self)@, action_view(a)) == set_screen(old(self)@, v),
            final(self).scan == old(self).scan,
    {
        self.screen = v;
        match v {
            Screen::Findings => {
                let sid = match &self.scan.session_id {
                    Some(s) => s.clone(),
                    None => String::new(),
                };
                UiAction::LoadFindings(sid)
            },
            Screen::History => UiAction::RefreshSessions,
            Screen::Tools => UiAction::RefreshTools,
            _ => UiAction::Nothing,
        }
    }

    /// Enter on the home form.
    fn launch(&mut self) -> (a: UiAction)
        ensures
            (final(self)@, action_view(a)) == launch_step(old(self)@),
            final(self).scan == old(self).scan,
    {
        let tv = chars_of(self.home.target_input.as_str());
        let t = trim_exec(&tv);
        if t.len() == 0 {
            self.home.launch_error = string_from("Target required.");
            return UiAction::Nothing;
        }
        self.home.launch_error = String::new();
        let ghost before = self@;
        let request = ScanRequest {
            target: string_of(&t),
            mode: self.home.mode.clone(),
            tools: copy_strings(&self.home.selected_tools),
            report_template: non_empty_field(&self.home.report_template_input),
            report_output_path: non_empty_field(&self.home.report_path_input),
        };
        assert(self@.home =~~= (HomeView { launch_error: Seq::empty(), ..old(self)@.home }));
        UiAction::StartScan(request)
    }

    /// A key while editing.
    fn editing_key(&mut self, key: KeyInput) -> (a: UiAction)
        requires
            old(self)@.editing,
        ensures
            (final(self)@, action_view(a)) == editing_step(old(self)@, key),
            final(self).scan == old(self).scan,
    {
        match key {
            KeyInput::Esc => {
                self.input_mode = InputMode::Normal;
                UiAction::Nothing
            },
            KeyInput::Enter => {
                let a = match self.screen {
                    Screen::Home => self.launch(),
                    _ => UiAction::Nothing,
                };
                self.input_mode = InputMode::Normal;
                a
            },
            KeyInput::Backspace => {
                match self.screen {
                    Screen::Home => {
                        let v = chars_of(self.home.target_input.as_str());
                        if v.len() > 0 {
                            let p = crate::text::take_prefix(&v, v.len() - 1);
                            assert(p@ =~= v@.drop_last());
                            self.home.target_input = string_of(&p);
                        }
                    },
                    Screen::Tools => {
                        let v = chars_of(self.tool_search.as_str());
                        if v.len() > 0 {
                            let p = crate::text::take_prefix(&v, v.len() - 1);
                            assert(p@ =~= v@.drop_last());
                            self.tool_search = string_of(&p);
                        }
                    },
                    _ => {},
                }
                UiAction::Nothing
            },
            KeyInput::Char(c) => {
                match self.screen {
                    Screen::Home => push_char(&mut self.home.target_input, c),
                    Screen::Tools => push_char(&mut self.tool_search, c),
                    _ => {},
                }
                UiAction::Nothing
            },
            _ => UiAction::Nothing,
        }
    }

    /// A key on the home screen.
    fn home_key(&mut self, key: KeyInput)
        ensures
            final(self)@ == home_step(old(self)@, key),
            final(self).scan == old(self).scan,
    {
        match key {
            KeyInput::Char('/') | KeyInput::Enter => {
                if self.input_mode == InputMode::Normal {
                    self.input_mode = InputMode::Editing;
                }
            },
            KeyInput::Char('1') => {
                self.home.mode = string_from("single");
            },
            KeyInput::Char('2') => {
                self.home.mode = string_from("deep");
            },
            KeyInput::Char('3') => {
                self.home.mode = string_from("passive");
            },
            KeyInput::Char('a') | KeyInput::Char('A') => {
                self.home.show_advanced = !self.home.show_advanced;
            },
            KeyInput::Char(' ') => {
                let ready = ready_names(&self.tool_statuses);
                if self.home.selected_tools.len() == ready.len() {
                    self.home.selected_tools = Vec::new();
                    assert(strs(self.home.selected_tools@) =~= Seq::<Seq<char>>::empty());
                } else {
                    self.home.selected_tools = ready;
                }
            },
            _ => {},
        }
    }

    /// A key on the scan screen.
    fn scan_key(&mut self, key: KeyInput) -> (a: UiAction)
        requires
            old(self).wf(),
        ensures
            final(self).wf(),
            (final(self)@, action_view(a)) == scan_step(old(self)@, key),
    {
        let len = self.scan.stream.len();
        let max: usize = if len >= 1 {
            len - 1
        } else {
            0
        };
        match key {
            KeyInput::Char('e') | KeyInput::Char('E') => {
                if !self.scan.running && self.scan.session_id.is_some() {
                    return self.export();
                }
                UiAction::Nothing
            },
            KeyInput::Char('s') | KeyInput::Char('S') => {
                if self.scan.running {
                    self.scan.running = false;
                    return UiAction::StopScan;
                }
                UiAction::Nothing
            },
            KeyInput::Char('t') | KeyInput::Tab => {
                self.scan.tab_selected = (self.scan.tab_selected + 1) % 2;
                UiAction::Nothing
            },
            KeyInput::Up => {
                self.scan.auto_scroll = false;
                self.scan.scroll_offset = if self.scan.scroll_offset >= 1 {
                    self.scan.scroll_offset - 1
                } else {
                    0
                };
                UiAction::Nothing
            },
            KeyInput::Down => {
                if self.scan.scroll_offset < max {
                    self.scan.scroll_offset = self.scan.scroll_offset + 1;
                }
                let floor: usize = if max >= 1 {
                    max - 1
                } else {
                    0
                };
                if self.scan.scroll_offset >= floor {
                    self.scan.auto_scroll = true;
                }
                UiAction::Nothing
            },
            KeyInput::PageUp => {
                self.scan.scroll_offset = if self.scan.scroll_offset >= 20 {
                    self.scan.scroll_offset - 20
                } else {
                    0
                };
                self.scan.auto_scroll = false;
                UiAction::Nothing
            },
            KeyInput::PageDown => {
                let o = self.scan.scroll_offset + 20;
                self.scan.scroll_offset = if o < max {
                    o
                } else {
                    max
                };
                UiAction::Nothing
            },
            KeyInput::Home => {
                self.scan.scroll_offset = 0;
                self.scan.auto_scroll = false;
                UiAction::Nothing
            },
            KeyInput::End | KeyInput::Char('r') | KeyInput::Char('R') => {
                self.scan.scroll_offset = max;
                self.scan.auto_scroll = true;
                UiAction::Nothing
            },
            _ => UiAction::Nothing,
        }
    }

    /// The report request for the current session.
    fn export(&self) -> (a: UiAction)
        ensures
            action_view(a) == export_step(self@),
    {
        let sid = match &self.scan.session_id {
            Some(s) => s.clone(),
            None => String::new(),
        };
        if chars_of(sid.as_str()).len() == 0 {
            return UiAction::Nothing;
        }
        UiAction::ExportReport(
            ReportRequest {
                session_id: sid,
                template: non_empty_field(&self.home.report_template_input),
                output_path: non_empty_field(&self.home.report_path_input),
            },
        )
    }

    /// A copy of the settings being edited.
    fn settings_copy(&self) -> (r: SettingsState)
        ensures
            r@ == self@.settings,
    {
        SettingsState {
            install_mode: self.settings.install_mode.clone(),
            sandbox_profile: self.settings.sandbox_profile.clone(),
            max_runtime: self.settings.max_runtime,
            report_template: self.settings.report_template.clone(),
            saved: self.settings.saved,
            message: self.settings.message.clone(),
        }
    }

    /// A key on the settings screen.
    fn settings_key(&mut self, key: KeyInput) -> (a: UiAction)
        ensures
            (final(self)@, action_view(a)) == settings_step(old(self)@, key),
            final(self).scan == old(self).scan,
    {
        match key {
            KeyInput::Char('s') | KeyInput::Char('S') => UiAction::SaveSettings(self.settings_copy()),
            KeyInput::Char('1') => {
                let p = self.settings.sandbox_profile.as_str();
                let next = if str_eq(p, "moderate") {
                    "off"
                } else if str_eq(p, "off") {
                    "strong"
                } else {
                    "moderate"
                };
                self.settings.sandbox_profile = string_from(next);
                UiAction::Nothing
            },
            KeyInput::Char('2') => {
                let r = self.settings.max_runtime;
                self.settings.max_runtime = if r == 300 {
                    600
                } else if r == 600 {
                    900
                } else if r == 900 {
                    1800
                } else if r == 1800 {
                    3600
                } else {
                    300
                };
                UiAction::Nothing
            },
            _ => UiAction::Nothing,
        }
    }

    /// Handles a key press; `ctrl` says whether Control, and nothing else,
    /// was held.
    pub fn handle_key(&mut self, key: KeyInput, ctrl: bool) -> (a: UiAction)
        requires
            old(self).wf(),
        ensures
            final(self).wf(),
            (final(self)@, action_view(a)) == key_step(old(self)@, key, ctrl),
    {
        if self.input_mode == InputMode::Editing {
            return self.editing_key(key);
        }
        match key {
            KeyInput::Char('q') if ctrl => {
                self.quit = true;
                UiAction::Nothing
            },
            KeyInput::Char('1') => self.set_screen_exec(Screen::Home),
            KeyInput::Char('2') => self.set_screen_exec(Screen::Scan),
            KeyInput::Char('3') => self.set_screen_exec(Screen::Findings),
            KeyInput::Char('4') => self.set_screen_exec(Screen::History),
            KeyInput::Char('5') => self.set_screen_exec(Screen::Tools),
            KeyInput::Char('6') => self.set_screen_exec(Screen::Settings),
            KeyInput::Tab | KeyInput::Right => {
                let i = self.screen.idx();
                let next = if i + 1 < 5 {
                    i + 1
                } else {
                    5
                };
                self.set_screen_exec(Screen::from_idx(next))
            },
            KeyInput::Left => {
                let i = self.screen.idx();
                let prev = if i >= 1 {
                    i - 1
                } else {
                    0
                };
                self.set_screen_exec(Screen::from_idx(prev))
            },
            KeyInput::Esc => self.set_screen_exec(Screen::Home),
            _ => match self.screen {
                Screen::Home => {
                    self.home_key(key);
                    UiAction::Nothing
                },
                Screen::Scan => self.scan_key(key),
                Screen::Findings => {
                    match key {
                        KeyInput::Enter | KeyInput::Esc => {
                            self.active_finding = None;
                        },
                        _ => {},
                    }
                    UiAction::Nothing
                },
                Screen::History => UiAction::Nothing,
                Screen::Tools => {
                    if key == KeyInput::Char('/') {
                        self.input_mode = InputMode::Editing;
                    }
                    UiAction::Nothing
                },
                Screen::Settings => self.settings_key(key),
            },
        }
    }

    /// Takes in a scan event. Returns whether the session history and the
    /// statistics should be reloaded (when a scan completes).
    pub fn handle_event(&mut self, event: AppEvent) -> (refresh: bool)
        requires
            old(self).wf(),
        ensures
            final(self).wf(),
            match event {
                AppEvent::Line { tool, line, kind, severity } => final(self)@ == (UiView {
                    scan: line_step(old(self)@.scan, StreamLine { tool, line, kind, severity }),
                    ..old(self)@
                }) && !refresh,
                AppEvent::Finding(f) => final(self)@ == (UiView {
                    scan: ScanView { findings: old(self)@.scan.findings.push(f), ..old(self)@.scan },
                    ..old(self)@
                }) && !refresh,
                AppEvent::ScanComplete { report_path } => final(self)@ == (UiView {
                    scan: ScanView {
                        running: false,
                        complete: true,
                        report_path: opt_str(report_path),
                        ..old(self)@.scan
                    },
                    ..old(self)@
                }) && refresh,
            },
    {
        match event {
            AppEvent::Line { tool, line, kind, severity } => {
                let l = StreamLine { tool, line, kind, severity };
                let ghost s0 = self.scan.stream@;
                self.scan.stream.push(l);
                if self.scan.stream.len() > 2000 {
                    self.scan.stream.remove(0);
                }
                if self.scan.auto_scroll {
                    let n = self.scan.stream.len();
                    self.scan.scroll_offset = if n >= 1 {
                        n - 1
                    } else {
                        0
                    };
                }
                false
            },
            AppEvent::Finding(f) => {
                self.scan.findings.push(f);
                false
            },
            AppEvent::ScanComplete { report_path } => {
                self.scan.running = false;
                self.scan.complete = true;
                self.scan.report_path = report_path;
                true
            },
        }
    }

    /// Counts a tick. Returns whether the statistics should be reloaded
    /// (every 20th tick).
    pub fn tick(&mut self) -> (refresh: bool)
        requires
            old(self).tick_count < u64::MAX,
        ensures
            final(self)@ == (UiView { ticks: (old(self)@.ticks + 1) as u64, ..old(self)@ }),
            refresh == (final(self)@.ticks % 20 == 0),
            final(self).wf() == old(self).wf(),
    {
        self.tick_count = self.tick_count + 1;
        self.tick_count % 20 == 0
    }

    /// The scan asked for has started as session `session_id`: the scan
    /// screen shows it from an empty stream.
    pub fn scan_started(&mut self, session_id: String)
        requires
            old(self).wf(),
        ensures
            final(self).wf(),
            final(self)@ == (UiView {
                screen: Screen::Scan,
                scan: ScanView {
                    running: true,
                    complete: false,
                    session_id: Some(session_id@),
                    stream: Seq::empty(),
                    findings: Seq::empty(),
                    report_path: None,
                    offset: 0,
                    auto: true,
                    ..old(self)@.scan
                },
                ..old(self)@
            }),
    {
        self.scan.running = true;
        self.scan.complete = false;
        self.scan.session_id = Some(session_id);
        self.scan.stream = Vec::new();
        self.scan.findings = Vec::new();
        self.scan.report_path = None;
        self.scan.scroll_offset = 0;
        self.scan.auto_scroll = true;
        self.screen = Screen::Scan;
        assert(self@.scan =~~= (ScanView {
            running: true,
            complete: false,
            session_id: Some(session_id@),
            stream: Seq::empty(),
            findings: Seq::empty(),
            report_path: None,
            offset: 0,
            auto: true,
            ..old(self)@.scan
        }));
    }

    /// The scan asked for could not start: the error shows on the form.
    pub fn scan_failed(&mut self, error: String)
        ensures
            final(self)@ == (UiView { home: HomeView { launch_error: error@, ..old(self)@.home }, ..old(self)@ }),
            final(self).wf() == old(self).wf(),
    {
        self.home.launch_error = error;
    }

    /// The report asked for was written to `path`.
    pub fn report_exported(&mut self, path: String)
        ensures
            final(self)@ == (UiView { scan: ScanView { report_path: Some(path@), ..old(self)@.scan }, ..old(self)@ }),
            final(self).wf() == old(self).wf(),
    {
        self.scan.report_path = Some(path);
    }

    /// The report asked for could not be written.
    pub fn report_failed(&mut self, error: &str)
        ensures
            final(self)@ == (UiView {
                settings: SettingsView { message: "Report error: "@ + error@, ..old(self)@.settings },
                ..old(self)@
            }),
            final(self).wf() == old(self).wf(),
    {
        let mut m = chars_of("Report error: ");
        extend_str(&mut m, error);
        self.settings.message = string_of(&m);
    }

    /// The settings were saved.
    pub fn settings_saved(&mut self)
        ensures
            final(self)@ == (UiView {
                settings: SettingsView { saved: true, message: "Settings saved."@, ..old(self)@.settings },
                ..old(self)@
            }),
            final(self).wf() == old(self).wf(),
    {
        self.settings.saved = true;
        self.settings.message = string_from("Settings saved.");
    }

    /// The settings could not be saved.
    pub fn settings_failed(&mut self, error: &str)
        ensures
            final(self)@ == (UiView {
                settings: SettingsView { message: "Save error: "@ + error@, ..old(self)@.settings },
                ..old(self)@
            }),
            final(self).wf() == old(self).wf(),
    {
        let mut m = chars_of("Save error: ");
        extend_str(&mut m, error);
        self.settings.message = string_of(&m);
    }
}

/// The stored configuration with the settings screen's values in it: the
/// install mode, sandbox profile, runtime limit and report template are
/// the screen's; everything else, the tools among it, stays as stored.
pub fn apply_settings(stored: AppConfig, settings: &SettingsState) -> (r: AppConfig)
    ensures
        r.install_mode@ == settings.install_mode@,
        r.sandbox.profile@ == settings.sandbox_profile@,
        r.sandbox.max_runtime_seconds == settings.max_runtime,
        r.default_report_template@ == settings.report_template@,
        r.sandbox.allow_network == stored.sandbox.allow_network,
        r.sandbox.writable_reports_only == stored.sandbox.writable_reports_only,
        r.version == stored.version,
        r.tools == stored.tools,
        r.knowledge_topics == stored.knowledge_topics,
{
    let mut r = stored;
    r.install_mode = settings.install_mode.clone();
    r.sandbox.profile = settings.sandbox_profile.clone();
    r.sandbox.max_runtime_seconds = settings.max_runtime;
    r.default_report_template = settings.report_template.clone();
    r
}

/// A filled-in field's text, or `None` for an empty one.
fn non_empty_field(s: &String) -> (r: Option<String>)
    ensures
        opt_str(r) == non_empty(s@),
{
    if chars_of(s.as_str()).len() == 0 {
        None
    } else {
        Some(s.clone())
    }
}

/// Whether `name` is one of `names`.
fn has_string(names: &Vec<String>, name: &str) -> (r: bool)
    ensures
        r == strs(names@).contains(name@),
{
    let mut i: usize = 0;
    while i < names.len()
        invariant
            i <= names.len(),
            forall|k: int| 0 <= k < i ==> strs(names@)[k] != name@,
        decreases names.len() - i,
    {
        if str_eq(names[i].as_str(), name) {
            assert(strs(names@)[i as int] == name@);
            return true;
        }
        i = i + 1;
    }
    false
}

/// The tools the home screen lists, those installed and enabled, each with
/// whether it is marked: every one is while nothing is selected, else the
/// selected ones.
pub fn home_tool_marks(tools: &Vec<ToolStatus>, selected: &Vec<String>) -> (r: Vec<(String, bool)>)
    ensures
        r@.len() == ready_tool_names(tools@).len(),
        forall|k: int|
            0 <= k < r@.len() ==> (#[trigger] r@[k]).0@ == ready_tool_names(tools@)[k] && r@[k].1 == (
            selected@.len() == 0 || strs(selected@).contains(ready_tool_names(tools@)[k])),
{
    let ready = ready_names(tools);
    let mut out: Vec<(String, bool)> = Vec::new();
    let mut i: usize = 0;
    while i < ready.len()
        invariant
            i <= ready.len(),
            strs(ready@) == ready_tool_names(tools@),
            out@.len() == i,
            forall|k: int|
                0 <= k < i ==> (#[trigger] out@[k]).0@ == strs(ready@)[k] && out@[k].1 == (
                selected@.len() == 0 || strs(selected@).contains(strs(ready@)[k])),
        decreases ready.len() - i,
    {
        let marked = selected.len() == 0 || has_string(selected, ready[i].as_str());
        out.push((ready[i].clone(), marked));
        i = i + 1;
    }
    out
}

/// The names of the tools that are installed and enabled.
fn ready_names(tools: &Vec<ToolStatus>) -> (r: Vec<String>)
    ensures
        strs(r@) == ready_tool_names(tools@),
{
    let mut out: Vec<String> = Vec::new();
    let mut i: usize = 0;
    assert(tools@.take(0) =~= Seq::<ToolStatus>::empty());
    while i < tools.len()
        invariant
            i <= tools.len(),
            strs(out@) == ready_tool_names(tools@.take(i as int)),
        decreases tools.len() - i,
    {
        assert(tools@.take(i + 1).drop_last() =~= tools@.take(i as int));
        assert(tools@.take(i + 1).last() == tools@[i as int]);
        if tools[i].installed && tools[i].enabled {
            let ghost before = strs(out@);
            out.push(tools[i].name.clone());
            assert(strs(out@) =~= before.push(tools@[i as int].name@));
        }
        i = i + 1;
    }
    assert(tools@.take(tools.len() as int) =~= tools@);
    out
}

/// The stream never keeps more than 2000 lines, and the scroll position
/// never passes its end, whatever keys and events arrive.
pub proof fn law_stream_bounded(u: UiView, l: StreamLine, key: KeyInput, ctrl: bool)
    requires
        u.scan.stream.len() <= stream_cap(),
        u.scan.offset <= u.scan.stream.len(),
    ensures
        line_step(u.scan, l).stream.len() <= stream_cap(),
        line_step(u.scan, l).offset <= line_step(u.scan, l).stream.len(),
        key_step(u, key, ctrl).0.scan.stream == u.scan.stream,
        key_step(u, key, ctrl).0.scan.offset <= u.scan.stream.len(),
{
}

} // verus!
