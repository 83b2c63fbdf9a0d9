//! The command line: which command the arguments ask for, the values of
//! flags, the requests they make, and the tool table printed for `tools`.
use vstd::prelude::*;
use crate::base::types::{copy_opt, strs, ScanRequest, ToolStatus};
use crate::text::{
    chars_of, split_char, split_char_exec, str_eq, string_from, string_of, trim, trim_exec, views,
    extend, extend_str,
};

verus! {

/// The help text.
pub fn cli_usage() -> (r: &'static str)
    ensures
        r@ == "torot 4.0.0\n\nUsage:\n  torot tools                              List detected tools\n  torot scan --target <value> [options]    Run a scan\n  torot report --session <id> [options]    Generate a report\n  torot config                             Show current config\n  torot help                               Show this help"@,
{
    "torot 4.0.0\n\nUsage:\n  torot tools                              List detected tools\n  torot scan --target <value> [options]    Run a scan\n  torot report --session <id> [options]    Generate a report\n  torot config                             Show current config\n  torot help                               Show this help"
}

/// The first position of `flag` among `args`, or -1.
pub open spec fn flag_pos(args: Seq<Seq<char>>, flag: Seq<char>) -> int
    decreases args.len(),
{
    if args.len() == 0 {
        -1
    } else if args[0] == flag {
        0
    } else {
        let p = flag_pos(args.skip(1), flag);
        if p < 0 {
            -1
        } else {
            p + 1
        }
    }
}

/// The value after the first occurrence of `flag`, if there is one.
pub open spec fn flag_value(args: Seq<Seq<char>>, flag: Seq<char>) -> Option<Seq<char>> {
    let p = flag_pos(args, flag);
    if p >= 0 && p + 1 < args.len() {
        Some(args[p + 1])
    } else {
        None
    }
}

pub proof fn lemma_flag_pos(args: Seq<Seq<char>>, flag: Seq<char>, i: int)
    requires
        -1 <= i < args.len(),
        i >= 0 ==> args[i] == flag,
        forall|j: int| 0 <= j < args.len() && (i < 0 || j < i) ==> #[trigger] args[j] != flag,
    ensures
        flag_pos(args, flag) == i,
    decreases args.len(),
{
    if args.len() > 0 && i != 0 {
        assert(args[0] != flag);
        assert forall|j: int|
            0 <= j < args.skip(1).len() && (i - 1 < 0 || j < i - 1) implies #[trigger] args.skip(1)[j]
            != flag by {
            assert(args.skip(1)[j] == args[j + 1]);
        }
        if i > 0 {
            lemma_flag_pos(args.skip(1), flag, i - 1);
        } else {
            lemma_flag_pos(args.skip(1), flag, -1);
        }
    }
}

/// The value given after `flag`: the argument that follows its first
/// occurrence.
pub fn cli_arg(args: &[String], flag: &str) -> (r: Option<String>)
    ensures
        match r {
            Some(v) => flag_value(strs(args@), flag@) == Some(v@),
            None => flag_value(strs(args@), flag@) is None,
        },
{
    let ghost a = strs(args@);
    let mut i: usize = 0;
    while i < args.len()
        invariant
            i <= args.len(),
            a == strs(args@),
            forall|j: int| 0 <= j < i ==> #[trigger] a[j] != flag@,
        decreases args.len() - i,
    {
        if str_eq(args[i].as_str(), flag) {
            proof {
                lemma_flag_pos(a, flag@, i as int);
            }
            if i + 1 < args.len() {
                return Some(args[i + 1].clone());
            }
            return None;
        }
        i = i + 1;
    }
    proof {
        lemma_flag_pos(a, flag@, -1);
    }
    None
}

/// The trimmed pieces of `parts` that are not blank, in order.
pub open spec fn nonblank_trimmed(parts: Seq<Seq<char>>) -> Seq<Seq<char>>
    decreases parts.len(),
{
    if parts.len() == 0 {
        Seq::empty()
    } else if trim(parts.last()).len() > 0 {
        nonblank_trimmed(parts.drop_last()).push(trim(parts.last()))
    } else {
        nonblank_trimmed(parts.drop_last())
    }
}

/// The tools named by `--tools`: its value split at commas, each name
/// trimmed, blank names left out.
pub open spec fn tools_arg(args: Seq<Seq<char>>) -> Seq<Seq<char>> {
    let v = match flag_value(args, "--tools"@) {
        Some(v) => v,
        None => Seq::<char>::empty(),
    };
    nonblank_trimmed(split_char(v, ','))
}

/// The tools named by the `--tools` flag, comma-separated.
pub fn cli_tools(args: &[String]) -> (r: Vec<String>)
    ensures
        strs(r@) == tools_arg(strs(args@)),
{
    let value = match cli_arg(args, "--tools") {
        Some(v) => chars_of(v.as_str()),
        None => Vec::new(),
    };
    let parts = split_char_exec(&value, ',');
    let ghost pv = views(parts@);
    let mut out: Vec<String> = Vec::new();
    let mut i: usize = 0;
    assert(pv.take(0) =~= Seq::<Seq<char>>::empty());
    while i < parts.len()
        invariant
            i <= parts.len(),
            pv == views(parts@),
            strs(out@) == nonblank_trimmed(pv.take(i as int)),
        decreases parts.len() - i,
    {
        assert(pv.take(i + 1).drop_last() =~= pv.take(i as int));
        assert(pv.take(i + 1).last() == parts@[i as int]@);
        let t = trim_exec(&parts[i]);
        if t.len() > 0 {
            let s = string_of(&t);
            let ghost before = strs(out@);
            out.push(s);
            assert(strs(out@) =~= before.push(t@));
        }
        i = i + 1;
    }
    assert(pv.take(parts.len() as int) =~= pv);
    out
}

/// What the command line asks for.
#[derive(Debug, Clone, Copy, PartialEq, Eq, Structural)]
pub enum CliCommand {
    /// Print the help text, then start the interactive interface.
    Help,
    Tools,
    Scan,
    Report,
    Config,
    /// Not a command: start the interactive interface.
    Interactive,
}

/// The command that `args` (without the program name) ask for.
pub open spec fn command_of(args: Seq<Seq<char>>) -> CliCommand {
    if args.len() == 0 || args[0] == "help"@ {
        CliCommand::Help
    } else if args[0] == "tools"@ {
        CliCommand::Tools
    } else if args[0] == "scan"@ {
        CliCommand::Scan
    } else if args[0] == "report"@ {
        CliCommand::Report
    } else if args[0] == "config"@ {
        CliCommand::Config
    } else {
        CliCommand::Interactive
    }
}

/// The command that the arguments (without the program name) ask for.
pub fn cli_command(args: &[String]) -> (r: CliCommand)
    ensures
        r == command_of(strs(args@)),
{
    if args.len() == 0 {
        return CliCommand::Help;
    }
    let first = args[0].as_str();
    if str_eq(first, "help") {
        CliCommand::Help
    } else if str_eq(first, "tools") {
        CliCommand::Tools
    } else if str_eq(first, "scan") {
        CliCommand::Scan
    } else if str_eq(first, "report") {
        CliCommand::Report
    } else if str_eq(first, "config") {
        CliCommand::Config
    } else {
        CliCommand::Interactive
    }
}

/// The scan request of the `scan` command, with the template read from the
/// `--template-file` flag's file when there is one; an error when
/// `--target` is missing.
pub fn scan_request(args: &[String], template: Option<String>) -> (r: Result<ScanRequest, String>)
    ensures
        match r {
            Ok(req) => flag_value(strs(args@), "--target"@) == Some(req.target@) && req.mode@ == (
            match flag_value(strs(args@), "--mode"@) {
                Some(m) => m,
                None => "single"@,
            }) && strs(req.tools@) == tools_arg(strs(args@)) && req.report_template == template
                && match req.report_output_path {
                Some(p) => flag_value(strs(args@), "--output"@) == Some(p@),
                None => flag_value(strs(args@), "--output"@) is None,
            },
            Err(e) => flag_value(strs(args@), "--target"@) is None && e@ == "Missing --target"@,
        },
{
    let target = match cli_arg(args, "--target") {
        Some(t) => t,
        None => {
            return Err(string_from("Missing --target"));
        },
    };
    let tools = cli_tools(args);
    let mode = match cli_arg(args, "--mode") {
        Some(m) => m,
        None => string_from("single"),
    };
    let output = cli_arg(args, "--output");
    Ok(ScanRequest { target, mode, tools, report_template: template, report_output_path: output })
}

/// The session of the `report` command; an error when `--session` is
/// missing.
pub fn report_session(args: &[String]) -> (r: Result<String, String>)
    ensures
        match r {
            Ok(s) => flag_value(strs(args@), "--session"@) == Some(s@),
            Err(e) => flag_value(strs(args@), "--session"@) is None && e@ == "Missing --session"@,
        },
{
    match cli_arg(args, "--session") {
        Some(s) => Ok(s),
        None => Err(string_from("Missing --session")),
    }
}

/// `s` followed by spaces up to `width` characters (unchanged when it is
/// already that wide).
pub open spec fn pad_chars(s: Seq<char>, width: nat) -> Seq<char> {
    if s.len() >= width {
        s
    } else {
        s + Seq::new((width - s.len()) as nat, |i: int| ' ')
    }
}

/// Appends `s` padded to `width` characters.
fn push_padded(v: &mut Vec<char>, s: &str, width: usize)
    ensures
        final(v)@ == old(v)@ + pad_chars(s@, width as nat),
{
    let ghost start = v@;
    extend_str(v, s);
    let n = chars_of(s).len();
    if n < width {
        let ghost base = v@;
        let mut i: usize = n;
        while i < width
            invariant
                n <= i <= width,
                n == s@.len(),
                base == start + s@,
                v@ == base + Seq::new((i - n) as nat, |j: int| ' '),
            decreases width - i,
        {
            v.push(' ');
            assert(v@ =~= base + Seq::new((i + 1 - n) as nat, |j: int| ' '));
            i = i + 1;
        }
    }
    assert(v@ =~= start + pad_chars(s@, width as nat));
}

/// A row of the tool table: name, status, version, binary.
pub open spec fn table_line(name: Seq<char>, status: Seq<char>, version: Seq<char>, binary: Seq<char>) -> Seq<
    char,
> {
    pad_chars(name, 12) + seq![' '] + pad_chars(status, 9) + seq![' '] + pad_chars(version, 20) + seq![' ']
        + binary
}

/// The lines that the `tools` command prints: a header, a rule of 60
/// dashes, and one row per tool.
pub open spec fn tools_table(statuses: Seq<ToolStatus>) -> Seq<Seq<char>> {
    seq![table_line("Tool"@, "Status"@, "Version"@, "Binary"@), Seq::new(60, |i: int| '-')]
        + statuses.map_values(
        |t: ToolStatus|
            table_line(
                t.name@,
                if t.installed {
                    "installed"@
                } else {
                    "missing"@
                },
                t.version@,
                t.binary@,
            ),
    )
}

/// One row of the tool table.
fn table_row(name: &str, status: &str, version: &str, binary: &str) -> (r: String)
    ensures
        r@ == table_line(name@, status@, version@, binary@),
{
    let mut v: Vec<char> = Vec::new();
    push_padded(&mut v, name, 12);
    v.push(' ');
    push_padded(&mut v, status, 9);
    v.push(' ');
    push_padded(&mut v, version, 20);
    v.push(' ');
    extend_str(&mut v, binary);
    assert(v@ =~= table_line(name@, status@, version@, binary@));
    string_of(&v)
}

/// The lines of the tool table.
pub fn tools_table_lines(statuses: &Vec<ToolStatus>) -> (r: Vec<String>)
    ensures
        strs(r@) == tools_table(statuses@),
{
    let mut out: Vec<String> = Vec::new();
    out.push(table_row("Tool", "Status", "Version", "Binary"));
    let mut rule: Vec<char> = Vec::new();
    let mut k: usize = 0;
    while k < 60
        invariant
            k <= 60,
            rule@ == Seq::new(k as nat, |i: int| '-'),
        decreases 60 - k,
    {
        rule.push('-');
        assert(rule@ =~= Seq::new((k + 1) as nat, |i: int| '-'));
        k = k + 1;
    }
    out.push(string_of(&rule));
    let ghost want = tools_table(statuses@);
    let mut i: usize = 0;
    assert(strs(out@) =~= want.take(2));
    while i < statuses.len()
        invariant
            i <= statuses.len(),
            want == tools_table(statuses@),
            strs(out@) == want.take(i + 2),
        decreases statuses.len() - i,
    {
        let t = &statuses[i];
        let status = if t.installed {
            "installed"
        } else {
            "missing"
        };
        let row = table_row(t.name.as_str(), status, t.version.as_str(), t.binary.as_str());
        let ghost before = strs(out@);
        out.push(row);
        assert(strs(out@) =~= before.push(row@));
        assert(want.take(i + 3) =~= want.take(i + 2).push(want[i + 2]));
        i = i + 1;
    }
    assert(want.take(statuses.len() + 2) =~= want);
    out
}

} // verus!
