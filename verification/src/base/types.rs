//! The data model: findings, sessions, tool profiles and configuration.
use vstd::prelude::*;
use crate::text::string_from;
use crate::util::time::now_unix;

verus! {

/// The version string that configurations and reports carry.
pub const TOROT_VERSION: &'static str = "4.0.0";

/// One issue that a tool reported.
#[derive(Debug, Clone)]
pub struct Finding {
    pub id: String,
    pub session_id: String,
    pub tool: String,
    pub title: String,
    pub severity: String,
    pub domain: String,
    pub description: String,
    pub file: String,
    pub line: u32,
    pub code_snippet: String,
    pub fix_suggestion: String,
    pub impact: String,
    pub bug_type: String,
    pub timestamp: u64,
}

/// What a finding says, without its random id and its time stamp.
pub struct FindingSpec {
    pub session_id: Seq<char>,
    pub tool: Seq<char>,
    pub title: Seq<char>,
    pub severity: Seq<char>,
    pub domain: Seq<char>,
    pub description: Seq<char>,
    pub file: Seq<char>,
    pub line: u32,
    pub code_snippet: Seq<char>,
    pub fix_suggestion: Seq<char>,
    pub impact: Seq<char>,
    pub bug_type: Seq<char>,
}

/// The content of `f`, leaving out `id` and `timestamp`.
pub open spec fn core_of(f: Finding) -> FindingSpec {
    FindingSpec {
        session_id: f.session_id@,
        tool: f.tool@,
        title: f.title@,
        severity: f.severity@,
        domain: f.domain@,
        description: f.description@,
        file: f.file@,
        line: f.line,
        code_snippet: f.code_snippet@,
        fix_suggestion: f.fix_suggestion@,
        impact: f.impact@,
        bug_type: f.bug_type@,
    }
}

/// The contents of a sequence of findings.
pub open spec fn cores(s: Seq<Finding>) -> Seq<FindingSpec> {
    s.map_values(|f: Finding| core_of(f))
}

/// A fresh finding's content: the four given fields, every other text
/// empty and line 0.
pub open spec fn new_core(
    session_id: Seq<char>,
    tool: Seq<char>,
    title: Seq<char>,
    severity: Seq<char>,
) -> FindingSpec {
    FindingSpec {
        session_id,
        tool,
        title,
        severity,
        domain: Seq::empty(),
        description: Seq::empty(),
        file: Seq::empty(),
        line: 0,
        code_snippet: Seq::empty(),
        fix_suggestion: Seq::empty(),
        impact: Seq::empty(),
        bug_type: Seq::empty(),
    }
}

/// Shape of a hyphenated UUID as text: 36 characters, `-` at positions
/// 8, 13, 18 and 23.
pub open spec fn uuid_shaped(s: Seq<char>) -> bool {
    &&& s.len() == 36
    &&& s[8] == '-'
    &&& s[13] == '-'
    &&& s[18] == '-'
    &&& s[23] == '-'
}

/// A random version-4 UUID in hyphenated lowercase form.
///
/// Trusted: wraps `uuid::Uuid::new_v4().to_string()`. The value is random;
/// what holds of every outcome is the hyphenated layout that uuid's
/// `Display` writes (36 characters with `-` at 8, 13, 18, 23).
#[verifier::external_body]
fn new_uuid_string() -> (s: String)
    ensures
        uuid_shaped(s@),
{
    uuid::Uuid::new_v4().to_string()
}

impl Finding {
    /// A new finding with a random id, stamped with the current time.
    pub fn new(session_id: &str, tool: &str, title: &str, severity: &str) -> (f: Finding)
        ensures
            core_of(f) == new_core(session_id@, tool@, title@, severity@),
            uuid_shaped(f.id@),
    {
        Finding {
            id: new_uuid_string(),
            session_id: string_from(session_id),
            tool: string_from(tool),
            title: string_from(title),
            severity: string_from(severity),
            domain: String::new(),
            description: String::new(),
            file: String::new(),
            line: 0,
            code_snippet: String::new(),
            fix_suggestion: String::new(),
            impact: String::new(),
            bug_type: String::new(),
            timestamp: now_unix(),
        }
    }

    /// A copy of this finding, field for field.
    pub fn duplicate(&self) -> (r: Finding)
        ensures
            r == *self,
    {
        Finding {
            id: self.id.clone(),
            session_id: self.session_id.clone(),
            tool: self.tool.clone(),
            title: self.title.clone(),
            severity: self.severity.clone(),
            domain: self.domain.clone(),
            description: self.description.clone(),
            file: self.file.clone(),
            line: self.line,
            code_snippet: self.code_snippet.clone(),
            fix_suggestion: self.fix_suggestion.clone(),
            impact: self.impact.clone(),
            bug_type: self.bug_type.clone(),
            timestamp: self.timestamp,
        }
    }

    /// The rank of this finding's severity (0 = most severe).
    pub fn severity_rank(&self) -> (r: u8)
        ensures
            r == crate::base::parser::rank_of(self.severity@),
    {
        crate::base::parser::severity_rank(self.severity.as_str())
    }
}

/// One scan of one target.
#[derive(Debug, Clone)]
pub struct Session {
    pub id: String,
    pub target: String,
    pub mode: String,
    pub start_time: u64,
    pub findings: Vec<Finding>,
    pub report_path: Option<String>,
}

impl Session {
    /// A new session: the id is the first 12 characters of a random
    /// hyphenated UUID; no findings, no report yet.
    pub fn new(target: &str, mode: &str) -> (s: Session)
        ensures
            s.id@.len() == 12,
            s.id@[8] == '-',
            s.target@ == target@,
            s.mode@ == mode@,
            s.findings@.len() == 0,
            s.report_path is None,
    {
        let full = crate::text::chars_of(new_uuid_string().as_str());
        let prefix = crate::text::take_prefix(&full, 12);
        Session {
            id: crate::text::string_of(&prefix),
            target: string_from(target),
            mode: string_from(mode),
            start_time: now_unix(),
            findings: Vec::new(),
            report_path: None,
        }
    }
}

/// A session as the history database stores it.
#[derive(Debug, Clone)]
pub struct DbSession {
    pub id: String,
    pub target: String,
    pub domain: String,
    pub start_time: u64,
    pub end_time: u64,
    pub total_findings: u32,
    pub summary: String,
}

/// A line of tool output as the desktop front end receives it.
#[derive(Debug, Clone)]
pub struct StreamLine {
    pub session_id: String,
    pub tool: String,
    pub line: String,
    pub kind: String,
    pub severity: Option<String>,
}

/// One step of the set-up guide shown for a tool.
#[derive(Debug, Clone)]
pub struct WizardStep {
    pub order: u8,
    pub title: String,
    pub detail: String,
}

/// How to find, run and read one security tool.
#[derive(Debug, Clone)]
pub struct ToolProfile {
    pub name: String,
    pub domain: String,
    pub description: String,
    pub binary_names: Vec<String>,
    pub path_override: Option<String>,
    pub args: Vec<String>,
    pub version_args: Vec<String>,
    pub install_hint: String,
    pub output_format: String,
    pub input_kinds: Vec<String>,
    pub source: String,
    pub auto_detect: bool,
    pub enabled: bool,
    pub timeout_seconds: u64,
    pub capabilities: Vec<String>,
    pub knowledge: Vec<String>,
}

/// A tool profile together with what was found of it on this system.
#[derive(Debug, Clone)]
pub struct ToolStatus {
    pub name: String,
    pub installed: bool,
    pub binary: String,
    pub version: String,
    pub domain: String,
    pub description: String,
    pub install_hint: String,
    pub output_format: String,
    pub source: String,
    pub auto_detect: bool,
    pub enabled: bool,
    pub capabilities: Vec<String>,
    pub knowledge: Vec<String>,
    pub wizard_steps: Vec<WizardStep>,
}

/// The whole configuration.
#[derive(Debug, Clone)]
pub struct AppConfig {
    pub version: String,
    pub install_mode: String,
    pub default_report_template: String,
    pub sandbox: SandboxConfig,
    pub tools: Vec<ToolProfile>,
    pub knowledge_topics: Vec<String>,
}

/// Limits under which tools run.
#[derive(Debug, Clone)]
pub struct SandboxConfig {
    pub profile: String,
    pub max_runtime_seconds: u64,
    pub allow_network: bool,
    pub writable_reports_only: bool,
}

/// What the desktop front end shows about the application.
#[derive(Debug, Clone)]
pub struct AppInfo {
    pub version: String,
    pub install_mode: String,
    pub cli_supported: bool,
    pub knowledge_topics: Vec<String>,
    pub report_template_placeholders: Vec<String>,
}

/// A tool profile as a user enters it.
#[derive(Debug, Clone)]
pub struct ToolProfileInput {
    pub name: String,
    pub domain: String,
    pub description: String,
    pub binary_names: Vec<String>,
    pub path_override: Option<String>,
    pub args: Vec<String>,
    pub version_args: Vec<String>,
    pub install_hint: String,
    pub output_format: String,
    pub input_kinds: Vec<String>,
    pub enabled: bool,
    pub timeout_seconds: u64,
    pub capabilities: Vec<String>,
    pub knowledge: Vec<String>,
}

/// A request to scan a target.
#[derive(Debug, Clone)]
pub struct ScanRequest {
    pub target: String,
    pub mode: String,
    pub tools: Vec<String>,
    pub report_template: Option<String>,
    pub report_output_path: Option<String>,
}

/// A request to write the report of a session.
#[derive(Debug, Clone)]
pub struct ReportRequest {
    pub session_id: String,
    pub template: Option<String>,
    pub output_path: Option<String>,
}

/// Where a report was written and what it summarises.
#[derive(Debug, Clone)]
pub struct ReportResult {
    pub session_id: String,
    pub path: String,
    pub summary: String,
}

/// The character sequences of a vector of strings.
pub open spec fn strs(v: Seq<String>) -> Seq<Seq<char>> {
    v.map_values(|s: String| s@)
}

/// The character sequence of an optional string.
pub open spec fn opt_str(o: Option<String>) -> Option<Seq<char>> {
    match o {
        Some(s) => Some(s@),
        None => None,
    }
}

/// A copy of a vector of strings.
pub fn copy_strings(v: &Vec<String>) -> (r: Vec<String>)
    ensures
        r@ == v@,
{
    let mut r: Vec<String> = Vec::new();
    let mut i: usize = 0;
    while i < v.len()
        invariant
            i <= v.len(),
            r@ == v@.take(i as int),
        decreases v.len() - i,
    {
        r.push(v[i].clone());
        assert(v@.take(i as int).push(v@[i as int]) =~= v@.take(i + 1));
        i = i + 1;
    }
    assert(v@.take(v.len() as int) =~= v@);
    r
}

/// A copy of an optional string.
pub fn copy_opt(o: &Option<String>) -> (r: Option<String>)
    ensures
        r == *o,
{
    match o {
        Some(s) => Some(s.clone()),
        None => None,
    }
}

/// The content of a tool profile, with texts as character sequences.
#[verifier::ext_equal]
pub struct ToolProfileView {
    pub name: Seq<char>,
    pub domain: Seq<char>,
    pub description: Seq<char>,
    pub binary_names: Seq<Seq<char>>,
    pub path_override: Option<Seq<char>>,
    pub args: Seq<Seq<char>>,
    pub version_args: Seq<Seq<char>>,
    pub install_hint: Seq<char>,
    pub output_format: Seq<char>,
    pub input_kinds: Seq<Seq<char>>,
    pub source: Seq<char>,
    pub auto_detect: bool,
    pub enabled: bool,
    pub timeout_seconds: u64,
    pub capabilities: Seq<Seq<char>>,
    pub knowledge: Seq<Seq<char>>,
}

impl View for ToolProfile {
    type V = ToolProfileView;

    open spec fn view(&self) -> ToolProfileView {
        ToolProfileView {
            name: self.name@,
            domain: self.domain@,
            description: self.description@,
            binary_names: strs(self.binary_names@),
            path_override: opt_str(self.path_override),
            args: strs(self.args@),
            version_args: strs(self.version_args@),
            install_hint: self.install_hint@,
            output_format: self.output_format@,
            input_kinds: strs(self.input_kinds@),
            source: self.source@,
            auto_detect: self.auto_detect,
            enabled: self.enabled,
            timeout_seconds: self.timeout_seconds,
            capabilities: strs(self.capabilities@),
            knowledge: strs(self.knowledge@),
        }
    }
}

/// The contents of a sequence of tool profiles.
pub open spec fn profile_views(s: Seq<ToolProfile>) -> Seq<ToolProfileView> {
    s.map_values(|t: ToolProfile| t@)
}

impl ToolProfile {
    /// A copy of this profile, field for field.
    pub fn duplicate(&self) -> (r: ToolProfile)
        ensures
            r@ == self@,
    {
        ToolProfile {
            name: self.name.clone(),
            domain: self.domain.clone(),
            description: self.description.clone(),
            binary_names: copy_strings(&self.binary_names),
            path_override: copy_opt(&self.path_override),
            args: copy_strings(&self.args),
            version_args: copy_strings(&self.version_args),
            install_hint: self.install_hint.clone(),
            output_format: self.output_format.clone(),
            input_kinds: copy_strings(&self.input_kinds),
            source: self.source.clone(),
            auto_detect: self.auto_detect,
            enabled: self.enabled,
            timeout_seconds: self.timeout_seconds,
            capabilities: copy_strings(&self.capabilities),
            knowledge: copy_strings(&self.knowledge),
        }
    }
}

} // verus!
