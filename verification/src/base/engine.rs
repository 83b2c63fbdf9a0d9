//! The decisions of a scan pipeline: which tools run and for how long, and
//! what the pipeline tells its watchers. Starting processes, reading their
//! output and writing files are left to the caller.
use vstd::prelude::*;
use crate::base::tools::{suggest_tools, suggestion, target_kind_of};
use crate::base::types::{opt_str, profile_views, strs, AppConfig, ScanRequest, ToolProfile, ToolProfileView, TOROT_VERSION};
use crate::text::{
    chars_of, decimal, decimal_chars, extend, extend_str, join, lines, lines_exec, string_of, str_eq, trim,
    trim_exec,
};
use crate::util::fmt::join_strings;
use crate::util::path::path_join;

verus! {

/// The tools a scan runs: those the request names, or, when it names none,
/// the ones suggested for the target.
pub fn select_tools(config: &AppConfig, request: &ScanRequest) -> (r: Vec<String>)
    ensures
        request.tools@.len() > 0 ==> strs(r@) == strs(request.tools@),
        request.tools@.len() == 0 ==> exists|d: bool, f: bool, inst: Seq<bool>|
            inst.len() == config.tools@.len() && strs(r@) == suggestion(
                profile_views(config.tools@),
                target_kind_of(request.target@, d, f),
                inst,
            ),
{
    if request.tools.len() == 0 {
        suggest_tools(config, request.target.as_str())
    } else {
        crate::base::types::copy_strings(&request.tools)
    }
}

/// The first message of a scan.
pub fn start_line(mode: &str, target: &str) -> (r: String)
    ensures
        r@ == "torot v"@ + TOROT_VERSION@ + " starting "@ + mode@ + " scan against "@ + target@,
{
    let mut v = chars_of("torot v");
    extend_str(&mut v, TOROT_VERSION);
    extend_str(&mut v, " starting ");
    extend_str(&mut v, mode);
    extend_str(&mut v, " scan against ");
    extend_str(&mut v, target);
    string_of(&v)
}

/// The message when no tool can run.
pub fn no_tools_line() -> (r: String)
    ensures
        r@ == "No compatible installed tools were found for this target."@,
{
    crate::text::string_from("No compatible installed tools were found for this target.")
}

/// The message that lists the tools being launched.
pub fn launch_line(tools: &Vec<String>) -> (r: String)
    ensures
        r@ == "Launching "@ + decimal(tools@.len()) + " tool(s) in parallel: "@ + join(
            strs(tools@),
            ", "@,
        ),
{
    let mut v = chars_of("Launching ");
    let n = decimal_chars(tools.len() as u64);
    extend(&mut v, &n);
    extend_str(&mut v, " tool(s) in parallel: ");
    let names = join_strings(tools.as_slice(), ", ");
    extend_str(&mut v, names.as_str());
    string_of(&v)
}

/// The message for a selected tool that the configuration does not know.
pub fn unknown_tool_line(name: &str) -> (r: String)
    ensures
        r@ == "Unknown tool `"@ + name@ + "` skipped."@,
{
    let mut v = chars_of("Unknown tool `");
    extend_str(&mut v, name);
    extend_str(&mut v, "` skipped.");
    string_of(&v)
}

/// The last position of a tool named `name` in `tools`, or -1 (with
/// several of one name, the last one counts).
pub open spec fn profile_index(tools: Seq<ToolProfileView>, name: Seq<char>) -> int
    decreases tools.len(),
{
    if tools.len() == 0 {
        -1
    } else if tools.last().name == name {
        tools.len() - 1
    } else {
        profile_index(tools.drop_last(), name)
    }
}

pub proof fn lemma_profile_index_is(tools: Seq<ToolProfileView>, name: Seq<char>, i: int)
    requires
        -1 <= i < tools.len(),
        i >= 0 ==> tools[i].name == name,
        forall|j: int| i < j < tools.len() ==> #[trigger] tools[j].name != name,
    ensures
        profile_index(tools, name) == i,
    decreases tools.len(),
{
    if tools.len() > 0 && i < tools.len() - 1 {
        assert(tools[tools.len() - 1].name != name);
        assert forall|j: int| i < j < tools.drop_last().len() implies #[trigger] tools.drop_last()[j].name
            != name by {
            assert(tools[j].name != name);
        }
        lemma_profile_index_is(tools.drop_last(), name, i);
    }
}

/// The profile of the tool named `name`: the last one of that name.
pub fn find_profile(tools: &Vec<ToolProfile>, name: &str) -> (r: Option<ToolProfile>)
    ensures
        match r {
            Some(p) => {
                let i = profile_index(profile_views(tools@), name@);
                i >= 0 && p@ == profile_views(tools@)[i]
            },
            None => profile_index(profile_views(tools@), name@) == -1,
        },
{
    let ghost tv = profile_views(tools@);
    let mut j: usize = tools.len();
    while j > 0
        invariant
            j <= tools.len(),
            tv == profile_views(tools@),
            forall|t: int| j <= t < tv.len() ==> #[trigger] tv[t].name != name@,
        decreases j,
    {
        if str_eq(tools[j - 1].name.as_str(), name) {
            proof {
                lemma_profile_index_is(tv, name@, j - 1);
            }
            return Some(tools[j - 1].duplicate());
        }
        j = j - 1;
    }
    proof {
        lemma_profile_index_is(tv, name@, -1);
    }
    None
}

/// How long a tool may run: the sandbox limit or the tool's own timeout,
/// whichever is smaller, but at least 30 seconds.
pub open spec fn runtime_limit(sandbox_max: u64, tool_timeout: u64) -> u64 {
    let m = if sandbox_max < tool_timeout {
        sandbox_max
    } else {
        tool_timeout
    };
    if m < 30 {
        30
    } else {
        m
    }
}

/// How long a tool may run under the sandbox.
pub fn tool_runtime_limit(sandbox_max: u64, tool_timeout: u64) -> (r: u64)
    ensures
        r == runtime_limit(sandbox_max, tool_timeout),
{
    let m = if sandbox_max < tool_timeout {
        sandbox_max
    } else {
        tool_timeout
    };
    if m < 30 {
        30
    } else {
        m
    }
}

/// One step of a pipeline: skip a tool, with a message, or launch it.
#[derive(Debug, Clone)]
pub enum PipelineStep {
    Skip { line: String },
    Launch { profile: ToolProfile, max_runtime: u64 },
}

/// The content of a pipeline step.
pub enum StepView {
    Skip(Seq<char>),
    Launch(ToolProfileView, u64),
}

/// The content of a pipeline step.
pub open spec fn step_view(p: PipelineStep) -> StepView {
    match p {
        PipelineStep::Skip { line } => StepView::Skip(line@),
        PipelineStep::Launch { profile, max_runtime } => StepView::Launch(profile@, max_runtime),
    }
}

/// The contents of pipeline steps.
pub open spec fn step_views(s: Seq<PipelineStep>) -> Seq<StepView> {
    s.map_values(|p: PipelineStep| step_view(p))
}

/// The step for the selected tool `name`.
pub open spec fn step_for(tools: Seq<ToolProfileView>, sandbox_max: u64, name: Seq<char>) -> StepView {
    let i = profile_index(tools, name);
    if i >= 0 {
        StepView::Launch(tools[i], runtime_limit(sandbox_max, tools[i].timeout_seconds))
    } else {
        StepView::Skip("Unknown tool `"@ + name + "` skipped."@)
    }
}

/// The steps of a pipeline over the selected tools, one per tool, in order.
pub open spec fn pipeline_steps(tools: Seq<ToolProfileView>, sandbox_max: u64, selected: Seq<Seq<char>>) -> Seq<
    StepView,
> {
    selected.map_values(|name: Seq<char>| step_for(tools, sandbox_max, name))
}

/// The steps of a pipeline: each selected tool that the configuration
/// knows is launched with its runtime limit; an unknown one is skipped
/// with a message.
pub fn plan_pipeline(config: &AppConfig, selected: &Vec<String>) -> (r: Vec<PipelineStep>)
    ensures
        step_views(r@) == pipeline_steps(
            profile_views(config.tools@),
            config.sandbox.max_runtime_seconds,
            strs(selected@),
        ),
{
    let ghost tv = profile_views(config.tools@);
    let ghost want = pipeline_steps(tv, config.sandbox.max_runtime_seconds, strs(selected@));
    let mut out: Vec<PipelineStep> = Vec::new();
    let mut i: usize = 0;
    while i < selected.len()
        invariant
            i <= selected.len(),
            tv == profile_views(config.tools@),
            want == pipeline_steps(tv, config.sandbox.max_runtime_seconds, strs(selected@)),
            step_views(out@) == want.take(i as int),
        decreases selected.len() - i,
    {
        let name = selected[i].as_str();
        let step = match find_profile(&config.tools, name) {
            Some(profile) => {
                let limit = tool_runtime_limit(config.sandbox.max_runtime_seconds, profile.timeout_seconds);
                PipelineStep::Launch { profile, max_runtime: limit }
            },
            None => PipelineStep::Skip { line: unknown_tool_line(name) },
        };
        assert(step_view(step) == want[i as int]);
        let ghost before = out@;
        out.push(step);
        assert(step_views(out@) =~= step_views(before).push(step_view(step)));
        assert(step_views(out@) =~= want.take(i + 1));
        i = i + 1;
    }
    assert(want.take(selected.len() as int) =~= want);
    out
}

/// How a pipeline starts: with no tools selected it reports that and does
/// nothing more; otherwise it announces the tools and takes its steps.
#[derive(Debug, Clone)]
pub enum PipelineStart {
    NoTools { line: String },
    Launch { line: String, steps: Vec<PipelineStep> },
}

/// How a pipeline over the selected tools starts: with none it gives the
/// no-tools message; otherwise the launch message listing them and the
/// steps of `plan_pipeline`.
pub fn start_pipeline(config: &AppConfig, selected: &Vec<String>) -> (r: PipelineStart)
    ensures
        (r is NoTools) == (selected@.len() == 0),
        match r {
            PipelineStart::NoTools { line } => line@ == "No compatible installed tools were found for this target."@,
            PipelineStart::Launch { line, steps } => line@ == "Launching "@ + decimal(selected@.len())
                + " tool(s) in parallel: "@ + join(strs(selected@), ", "@) && step_views(steps@)
                == pipeline_steps(
                profile_views(config.tools@),
                config.sandbox.max_runtime_seconds,
                strs(selected@),
            ),
        },
{
    if selected.len() == 0 {
        PipelineStart::NoTools { line: no_tools_line() }
    } else {
        PipelineStart::Launch { line: launch_line(selected), steps: plan_pipeline(config, selected) }
    }
}

/// The file a tool writes its report to, in the reports directory.
pub fn tool_output_path(reports_dir: &str, session_id: &str, tool: &str) -> (r: String)
    ensures
        r@ == path_join(reports_dir@, session_id@ + "-"@ + tool@ + ".out"@),
{
    let mut name = chars_of(session_id);
    extend_str(&mut name, "-");
    extend_str(&mut name, tool);
    extend_str(&mut name, ".out");
    let name = string_of(&name);
    crate::util::path::join_paths(reports_dir, name.as_str())
}

/// Where a session's report goes unless the request names a path.
pub fn default_report_path(reports_dir: &str, session_id: &str) -> (r: String)
    ensures
        r@ == path_join(reports_dir@, session_id@ + ".md"@),
{
    let mut name = chars_of(session_id);
    extend_str(&mut name, ".md");
    let name = string_of(&name);
    crate::util::path::join_paths(reports_dir, name.as_str())
}

/// The report path of a scan: the requested one, or the default one.
pub fn report_path_for(requested: &Option<String>, reports_dir: &str, session_id: &str) -> (r: String)
    ensures
        r@ == match requested {
            Some(p) => p@,
            None => path_join(reports_dir@, session_id@ + ".md"@),
        },
{
    match requested {
        Some(p) => p.clone(),
        None => default_report_path(reports_dir, session_id),
    }
}

/// Where a requested report goes: the requested path unless it is absent
/// or blank, else the default path for the session.
pub fn chosen_output_path(requested: &Option<String>, reports_dir: &str, session_id: &str) -> (r: String)
    ensures
        r@ == match requested {
            Some(p) => if trim(p@).len() > 0 {
                p@
            } else {
                path_join(reports_dir@, session_id@ + ".md"@)
            },
            None => path_join(reports_dir@, session_id@ + ".md"@),
        },
{
    match requested {
        Some(p) => {
            let pv = chars_of(p.as_str());
            if trim_exec(&pv).len() > 0 {
                p.clone()
            } else {
                default_report_path(reports_dir, session_id)
            }
        },
        None => default_report_path(reports_dir, session_id),
    }
}

/// The message for a tool that is not installed.
pub fn not_installed_line(profile: &ToolProfile) -> (r: String)
    ensures
        r@ == profile.name@ + " not installed. "@ + profile.install_hint@,
{
    let mut v = chars_of(profile.name.as_str());
    extend_str(&mut v, " not installed. ");
    extend_str(&mut v, profile.install_hint.as_str());
    string_of(&v)
}

/// The message for a tool that does not take the target's kind.
pub fn incompatible_target_line() -> (r: String)
    ensures
        r@ == "Target type does not match this tool's supported inputs."@,
{
    crate::text::string_from("Target type does not match this tool's supported inputs.")
}

/// The message when a tool starts.
pub fn starting_line(name: &str, args: &Vec<String>) -> (r: String)
    ensures
        r@ == "Starting "@ + name@ + " with "@ + join(strs(args@), " "@),
{
    let mut v = chars_of("Starting ");
    extend_str(&mut v, name);
    extend_str(&mut v, " with ");
    let a = join_strings(args.as_slice(), " ");
    extend_str(&mut v, a.as_str());
    string_of(&v)
}

/// The message when a tool could not be started.
pub fn launch_failed_line(error: &str) -> (r: String)
    ensures
        r@ == "Launch failed: "@ + error@,
{
    let mut v = chars_of("Launch failed: ");
    extend_str(&mut v, error);
    string_of(&v)
}

/// The message when a tool ran out of time.
pub fn timed_out_line(seconds: u64) -> (r: String)
    ensures
        r@ == "Timed out after "@ + decimal(seconds as nat) + " seconds."@,
{
    let mut v = chars_of("Timed out after ");
    let d = decimal_chars(seconds);
    extend(&mut v, &d);
    extend_str(&mut v, " seconds.");
    string_of(&v)
}

/// The message when a tool has finished.
pub fn tool_complete_line(name: &str, findings: usize) -> (r: String)
    ensures
        r@ == name@ + " complete with "@ + decimal(findings as nat) + " parsed finding(s)."@,
{
    let mut v = chars_of(name);
    extend_str(&mut v, " complete with ");
    let d = decimal_chars(findings as u64);
    extend(&mut v, &d);
    extend_str(&mut v, " parsed finding(s).");
    string_of(&v)
}

/// The message when a scan has finished.
pub fn scan_complete_line(summary: &str, report_path: &Option<String>) -> (r: String)
    ensures
        r@ == "Scan complete. "@ + summary@ + match report_path {
            Some(p) => " Report: "@ + p@,
            None => Seq::<char>::empty(),
        },
{
    let mut v = chars_of("Scan complete. ");
    extend_str(&mut v, summary);
    match report_path {
        Some(p) => {
            extend_str(&mut v, " Report: ");
            extend_str(&mut v, p.as_str());
        },
        None => {},
    }
    string_of(&v)
}

/// Whether a line of tool output is worth passing on: it is not blank.
pub fn keep_output_line(line: &str) -> (b: bool)
    ensures
        b == (trim(line@).len() > 0),
{
    let v = chars_of(line);
    let t = trim_exec(&v);
    t.len() > 0
}

/// The environment a tool runs in: the search path and home directory
/// handed in, the sandbox profile, and the target it may touch.
pub fn tool_env(path: &str, home: &str, target: &str) -> (r: Vec<(String, String)>)
    ensures
        r@.len() == 4,
        r@[0].0@ == "PATH"@ && r@[0].1@ == path@,
        r@[1].0@ == "HOME"@ && r@[1].1@ == home@,
        r@[2].0@ == "TOROT_SANDBOX_PROFILE"@ && r@[2].1@ == "strong"@,
        r@[3].0@ == "TOROT_ALLOWED_TARGET"@ && r@[3].1@ == target@,
{
    let mut r: Vec<(String, String)> = Vec::new();
    r.push((crate::text::string_from("PATH"), crate::text::string_from(path)));
    r.push((crate::text::string_from("HOME"), crate::text::string_from(home)));
    r.push((crate::text::string_from("TOROT_SANDBOX_PROFILE"), crate::text::string_from("strong")));
    r.push((crate::text::string_from("TOROT_ALLOWED_TARGET"), crate::text::string_from(target)));
    r
}

/// The directory a tool runs in: the target when it is a directory, else
/// the current one.
pub fn working_dir(target: &str, target_is_dir: bool) -> (r: String)
    ensures
        r@ == if target_is_dir {
            target@
        } else {
            "."@
        },
{
    if target_is_dir {
        crate::text::string_from(target)
    } else {
        crate::text::string_from(".")
    }
}

/// A tool's output and error text together: the output, then a line
/// break when both are non-empty, then the error text.
pub fn combine_output(stdout: &str, stderr: &str) -> (r: String)
    ensures
        r@ == if stderr@.len() == 0 {
            stdout@
        } else if stdout@.len() == 0 {
            stderr@
        } else {
            stdout@ + seq!['\n'] + stderr@
        },
{
    let mut v = chars_of(stdout);
    let e = chars_of(stderr);
    if e.len() > 0 {
        if v.len() > 0 {
            v.push('\n');
        }
        extend(&mut v, &e);
    }
    string_of(&v)
}

/// How long a tool may run from the command line: its own timeout, but at
/// least 30 seconds.
pub fn cli_runtime_limit(profile: &ToolProfile) -> (r: u64)
    ensures
        r == if profile.timeout_seconds < 30 {
            30
        } else {
            profile.timeout_seconds
        },
{
    if profile.timeout_seconds < 30 {
        30
    } else {
        profile.timeout_seconds
    }
}


/// The version a tool reports: the first line of its output (of its error
/// text when the output is empty), trimmed; none when that text is empty.
pub open spec fn reported_version(stdout: Seq<char>, stderr: Seq<char>) -> Option<Seq<char>> {
    let text = if stdout.len() == 0 {
        stderr
    } else {
        stdout
    };
    let ls = lines(text);
    if ls.len() > 0 {
        Some(trim(ls[0]))
    } else {
        None
    }
}

/// The version a tool printed, read from its output and error text.
pub fn version_from_output(stdout: &str, stderr: &str) -> (r: Option<String>)
    ensures
        opt_str(r) == reported_version(stdout@, stderr@),
{
    let out = chars_of(stdout);
    let text = if out.len() == 0 {
        chars_of(stderr)
    } else {
        out
    };
    let ls = lines_exec(&text);
    if ls.len() > 0 {
        let first = trim_exec(&ls[0]);
        Some(string_of(&first))
    } else {
        None
    }
}

} // verus!
