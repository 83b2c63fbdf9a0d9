//! Configuration: the built-in tool table, defaults, and how stored
//! settings are merged with the built-in tools.
use vstd::prelude::*;
use crate::base::knowledge::{builtin_knowledge_topics, knowledge_topics_spec};
use crate::base::types::{
    copy_opt, copy_strings, opt_str, profile_views, strs, AppConfig, AppInfo, SandboxConfig,
    ToolProfile, ToolProfileInput, ToolProfileView, TOROT_VERSION,
};
use crate::text::{
    chars_eq, chars_of, contains, join, join_exec, lex_lt, lex_lt_exec, occurs_at, string_from,
    string_of, trim, trim_exec, views,
};

verus! {

/// The character sequences of a slice of string slices.
pub open spec fn slice_strs(s: Seq<&str>) -> Seq<Seq<char>> {
    s.map_values(|x: &str| x@)
}

/// A built-in tool profile: no path override, source `builtin`,
/// auto-detected and enabled.
pub open spec fn tv(
    name: Seq<char>,
    domain: Seq<char>,
    description: Seq<char>,
    binary_names: Seq<Seq<char>>,
    args: Seq<Seq<char>>,
    version_args: Seq<Seq<char>>,
    install_hint: Seq<char>,
    output_format: Seq<char>,
    input_kinds: Seq<Seq<char>>,
    timeout_seconds: u64,
    capabilities: Seq<Seq<char>>,
    knowledge: Seq<Seq<char>>,
) -> ToolProfileView {
    ToolProfileView {
        name,
        domain,
        description,
        binary_names,
        path_override: None,
        args,
        version_args,
        install_hint,
        output_format,
        input_kinds,
        source: "builtin"@,
        auto_detect: true,
        enabled: true,
        timeout_seconds,
        capabilities,
        knowledge,
    }
}

/// The built-in tool table.
pub open spec fn builtin_views() -> Seq<ToolProfileView> {
    seq![
        tv(
            "nmap"@,
            "webapp"@,
            "Host and service discovery."@,
            seq!["nmap"@],
            seq!["-sV"@, "-Pn"@, "{{target_host}}"@],
            seq!["--version"@],
            "Install nmap with your package manager."@,
            "text"@,
            seq!["host"@, "url"@],
            900,
            seq!["recon"@, "port-scan"@, "service-detection"@],
            seq!["attack-surface-mapping"@, "network-recon"@],
        ),
        tv(
            "bbot"@,
            "webapp"@,
            "Asset discovery and recon automation."@,
            seq!["bbot"@],
            seq!["-t"@, "{{target_host}}"@, "-f"@, "subdomain-enum"@, "web-basic"@, "-y"@],
            seq!["--version"@],
            "pipx install bbot"@,
            "text"@,
            seq!["host"@, "url"@],
            1200,
            seq!["recon"@, "subdomains"@, "web-enum"@],
            seq!["subdomain-enumeration"@, "attack-surface-mapping"@],
        ),
        tv(
            "nuclei"@,
            "webapp"@,
            "Template-based vulnerability scanning."@,
            seq!["nuclei"@],
            seq!["-target"@, "{{target_url}}"@, "-jsonl"@],
            seq!["-version"@],
            "go install github.com/projectdiscovery/nuclei/v3/cmd/nuclei@latest"@,
            "jsonl"@,
            seq!["url"@, "host"@],
            900,
            seq!["vuln-scan"@, "templates"@],
            seq!["web-application-testing"@],
        ),
        tv(
            "httpx"@,
            "webapp"@,
            "HTTP probing and metadata discovery."@,
            seq!["httpx"@],
            seq!["-u"@, "{{target_url}}"@, "-json"@],
            seq!["-version"@],
            "go install github.com/projectdiscovery/httpx/cmd/httpx@latest"@,
            "jsonl"@,
            seq!["url"@, "host"@],
            300,
            seq!["recon"@, "http-probing"@],
            seq!["attack-surface-mapping"@],
        ),
        tv(
            "subfinder"@,
            "webapp"@,
            "Passive subdomain enumeration."@,
            seq!["subfinder"@],
            seq!["-d"@, "{{target_host}}"@, "-silent"@, "-oJ"@],
            seq!["-version"@],
            "go install github.com/projectdiscovery/subfinder/v2/cmd/subfinder@latest"@,
            "jsonl"@,
            seq!["host"@, "url"@],
            600,
            seq!["recon"@, "subdomains"@],
            seq!["subdomain-enumeration"@],
        ),
        tv(
            "amass"@,
            "webapp"@,
            "DNS intelligence and enumeration."@,
            seq!["amass"@],
            seq!["enum"@, "-passive"@, "-d"@, "{{target_host}}"@, "-json"@, "-"@],
            seq!["-version"@],
            "go install github.com/owasp-amass/amass/v4/...@master"@,
            "json"@,
            seq!["host"@, "url"@],
            1200,
            seq!["recon"@, "subdomains"@, "dns"@],
            seq!["subdomain-enumeration"@],
        ),
        tv(
            "katana"@,
            "webapp"@,
            "Web crawling and endpoint enumeration."@,
            seq!["katana"@],
            seq!["-u"@, "{{target_url}}"@, "-jsonl"@],
            seq!["-version"@],
            "go install github.com/projectdiscovery/katana/cmd/katana@latest"@,
            "jsonl"@,
            seq!["url"@],
            900,
            seq!["crawl"@, "content-discovery"@],
            seq!["attack-surface-mapping"@],
        ),
        tv(
            "ffuf"@,
            "webapp"@,
            "Directory and parameter fuzzing."@,
            seq!["ffuf"@],
            seq!["-u"@, "{{target_url}}/FUZZ"@, "-w"@, "/usr/share/wordlists/dirb/common.txt"@, "-mc"@, "all"@],
            seq!["-V"@],
            "go install github.com/ffuf/ffuf/v2@latest"@,
            "text"@,
            seq!["url"@],
            900,
            seq!["fuzz"@, "content-discovery"@],
            seq!["web-application-testing"@],
        ),
        tv(
            "gobuster"@,
            "webapp"@,
            "Directory brute forcing."@,
            seq!["gobuster"@],
            seq!["dir"@, "-u"@, "{{target_url}}"@, "-w"@, "/usr/share/wordlists/dirb/common.txt"@],
            seq!["version"@],
            "go install github.com/OJ/gobuster/v3@latest"@,
            "text"@,
            seq!["url"@],
            900,
            seq!["fuzz"@, "content-discovery"@],
            seq!["web-application-testing"@],
        ),
        tv(
            "nikto"@,
            "webapp"@,
            "Baseline web server checks."@,
            seq!["nikto"@],
            seq!["-h"@, "{{target_url}}"@, "-Format"@, "txt"@],
            seq!["-Version"@],
            "Install nikto with your package manager."@,
            "text"@,
            seq!["url"@],
            900,
            seq!["vuln-scan"@, "web-baseline"@],
            seq!["web-application-testing"@],
        ),
        tv(
            "sqlmap"@,
            "api"@,
            "Automated SQL injection verification."@,
            seq!["sqlmap"@],
            seq!["-u"@, "{{target_url}}"@, "--batch"@, "--level"@, "2"@],
            seq!["--version"@],
            "pipx install sqlmap"@,
            "text"@,
            seq!["url"@],
            1200,
            seq!["sqli"@, "verification"@],
            seq!["api-security"@, "web-application-testing"@],
        ),
        tv(
            "semgrep"@,
            "general"@,
            "Static analysis for code and config."@,
            seq!["semgrep"@],
            seq!["--config"@, "auto"@, "--json"@, "{{target}}"@],
            seq!["--version"@],
            "pipx install semgrep"@,
            "json"@,
            seq!["directory"@, "file"@],
            900,
            seq!["static-analysis"@, "code-review"@],
            seq!["web-application-testing"@, "api-security"@],
        ),
        tv(
            "trufflehog"@,
            "general"@,
            "Secrets discovery in repos and filesystems."@,
            seq!["trufflehog"@],
            seq!["filesystem"@, "{{target}}"@, "--json"@],
            seq!["--version"@],
            "go install github.com/trufflesecurity/trufflehog/v3@latest"@,
            "jsonl"@,
            seq!["directory"@, "file"@],
            900,
            seq!["secrets"@, "leaks"@],
            seq!["secrets-exposure"@],
        ),
        tv(
            "gitleaks"@,
            "general"@,
            "High-signal secret scanning."@,
            seq!["gitleaks"@],
            seq!["detect"@, "--source"@, "{{target}}"@, "--report-format"@, "json"@],
            seq!["version"@],
            "go install github.com/zricethezav/gitleaks/v8@latest"@,
            "json"@,
            seq!["directory"@, "file"@],
            900,
            seq!["secrets"@, "leaks"@],
            seq!["secrets-exposure"@],
        ),
    ]
}

/// Owned strings for a slice of string slices.
fn owned_strings(items: &[&str]) -> (r: Vec<String>)
    ensures
        strs(r@) == slice_strs(items@),
{
    let mut r: Vec<String> = Vec::new();
    let mut i: usize = 0;
    while i < items.len()
        invariant
            i <= items.len(),
            strs(r@) == slice_strs(items@).take(i as int),
        decreases items.len() - i,
    {
        let item: &str = items[i];
        assert(item == items@[i as int]);
        let s = string_from(item);
        let ghost r0 = strs(r@);
        r.push(s);
        assert(strs(r@) =~= r0.push(s@));
        assert(slice_strs(items@).take(i + 1) =~= slice_strs(items@).take(i as int).push(items@[i as int]@));
        i = i + 1;
    }
    assert(slice_strs(items@).take(items.len() as int) =~= slice_strs(items@));
    r
}

/// A built-in tool profile from literal data.
fn t(
    name: &str,
    domain: &str,
    description: &str,
    binaries: &[&str],
    args: &[&str],
    version_args: &[&str],
    install_hint: &str,
    output_format: &str,
    input_kinds: &[&str],
    timeout: u64,
    capabilities: &[&str],
    knowledge: &[&str],
) -> (p: ToolProfile)
    ensures
        p@ == tv(
            name@,
            domain@,
            description@,
            slice_strs(binaries@),
            slice_strs(args@),
            slice_strs(version_args@),
            install_hint@,
            output_format@,
            slice_strs(input_kinds@),
            timeout,
            slice_strs(capabilities@),
            slice_strs(knowledge@),
        ),
{
    ToolProfile {
        name: string_from(name),
        domain: string_from(domain),
        description: string_from(description),
        binary_names: owned_strings(binaries),
        path_override: None,
        args: owned_strings(args),
        version_args: owned_strings(version_args),
        install_hint: string_from(install_hint),
        output_format: string_from(output_format),
        input_kinds: owned_strings(input_kinds),
        source: string_from("builtin"),
        auto_detect: true,
        enabled: true,
        timeout_seconds: timeout,
        capabilities: owned_strings(capabilities),
        knowledge: owned_strings(knowledge),
    }
}

/// The built-in tool profiles.
pub fn builtin_tools() -> (r: Vec<ToolProfile>)
    ensures
        profile_views(r@) == builtin_views(),
{
    let mut r: Vec<ToolProfile> = Vec::new();
    let p0 = t(
        "nmap",
        "webapp",
        "Host and service discovery.",
        &["nmap"],
        &["-sV", "-Pn", "{{target_host}}"],
        &["--version"],
        "Install nmap with your package manager.",
        "text",
        &["host", "url"],
        900,
        &["recon", "port-scan", "service-detection"],
        &["attack-surface-mapping", "network-recon"],
    );
    assert(p0@ =~~= builtin_views()[0]);
    r.push(p0);
    let p1 = t(
        "bbot",
        "webapp",
        "Asset discovery and recon automation.",
        &["bbot"],
        &["-t", "{{target_host}}", "-f", "subdomain-enum", "web-basic", "-y"],
        &["--version"],
        "pipx install bbot",
        "text",
        &["host", "url"],
        1200,
        &["recon", "subdomains", "web-enum"],
        &["subdomain-enumeration", "attack-surface-mapping"],
    );
    assert(p1@ =~~= builtin_views()[1]);
    r.push(p1);
    let p2 = t(
        "nuclei",
        "webapp",
        "Template-based vulnerability scanning.",
        &["nuclei"],
        &["-target", "{{target_url}}", "-jsonl"],
        &["-version"],
        "go install github.com/projectdiscovery/nuclei/v3/cmd/nuclei@latest",
        "jsonl",
        &["url", "host"],
        900,
        &["vuln-scan", "templates"],
        &["web-application-testing"],
    );
    assert(p2@ =~~= builtin_views()[2]);
    r.push(p2);
    let p3 = t(
        "httpx",
        "webapp",
        "HTTP probing and metadata discovery.",
        &["httpx"],
        &["-u", "{{target_url}}", "-json"],
        &["-version"],
        "go install github.com/projectdiscovery/httpx/cmd/httpx@latest",
        "jsonl",
        &["url", "host"],
        300,
        &["recon", "http-probing"],
        &["attack-surface-mapping"],
    );
    assert(p3@ =~~= builtin_views()[3]);
    r.push(p3);
    let p4 = t(
        "subfinder",
        "webapp",
        "Passive subdomain enumeration.",
        &["subfinder"],
        &["-d", "{{target_host}}", "-silent", "-oJ"],
        &["-version"],
        "go install github.com/projectdiscovery/subfinder/v2/cmd/subfinder@latest",
        "jsonl",
        &["host", "url"],
        600,
        &["recon", "subdomains"],
        &["subdomain-enumeration"],
    );
    assert(p4@ =~~= builtin_views()[4]);
    r.push(p4);
    let p5 = t(
        "amass",
        "webapp",
        "DNS intelligence and enumeration.",
        &["amass"],
        &["enum", "-passive", "-d", "{{target_host}}", "-json", "-"],
        &["-version"],
        "go install github.com/owasp-amass/amass/v4/...@master",
        "json",
        &["host", "url"],
        1200,
        &["recon", "subdomains", "dns"],
        &["subdomain-enumeration"],
    );
    assert(p5@ =~~= builtin_views()[5]);
    r.push(p5);
    let p6 = t(
        "katana",
        "webapp",
        "Web crawling and endpoint enumeration.",
        &["katana"],
        &["-u", "{{target_url}}", "-jsonl"],
        &["-version"],
        "go install github.com/projectdiscovery/katana/cmd/katana@latest",
        "jsonl",
        &["url"],
        900,
        &["crawl", "content-discovery"],
        &["attack-surface-mapping"],
    );
    assert(p6@ =~~= builtin_views()[6]);
    r.push(p6);
    let p7 = t(
        "ffuf",
        "webapp",
        "Directory and parameter fuzzing.",
        &["ffuf"],
        &["-u", "{{target_url}}/FUZZ", "-w", "/usr/share/wordlists/dirb/common.txt", "-mc", "all"],
        &["-V"],
        "go install github.com/ffuf/ffuf/v2@latest",
        "text",
        &["url"],
        900,
        &["fuzz", "content-discovery"],
        &["web-application-testing"],
    );
    assert(p7@ =~~= builtin_views()[7]);
    r.push(p7);
    let p8 = t(
        "gobuster",
        "webapp",
        "Directory brute forcing.",
        &["gobuster"],
        &["dir", "-u", "{{target_url}}", "-w", "/usr/share/wordlists/dirb/common.txt"],
        &["version"],
        "go install github.com/OJ/gobuster/v3@latest",
        "text",
        &["url"],
        900,
        &["fuzz", "content-discovery"],
        &["web-application-testing"],
    );
    assert(p8@ =~~= builtin_views()[8]);
    r.push(p8);
    let p9 = t(
        "nikto",
        "webapp",
        "Baseline web server checks.",
        &["nikto"],
        &["-h", "{{target_url}}", "-Format", "txt"],
        &["-Version"],
        "Install nikto with your package manager.",
        "text",
        &["url"],
        900,
        &["vuln-scan", "web-baseline"],
        &["web-application-testing"],
    );
    assert(p9@ =~~= builtin_views()[9]);
    r.push(p9);
    let p10 = t(
        "sqlmap",
        "api",
        "Automated SQL injection verification.",
        &["sqlmap"],
        &["-u", "{{target_url}}", "--batch", "--level", "2"],
        &["--version"],
        "pipx install sqlmap",
        "text",
        &["url"],
        1200,
        &["sqli", "verification"],
        &["api-security", "web-application-testing"],
    );
    assert(p10@ =~~= builtin_views()[10]);
    r.push(p10);
    let p11 = t(
        "semgrep",
        "general",
        "Static analysis for code and config.",
        &["semgrep"],
        &["--config", "auto", "--json", "{{target}}"],
        &["--version"],
        "pipx install semgrep",
        "json",
        &["directory", "file"],
        900,
        &["static-analysis", "code-review"],
        &["web-application-testing", "api-security"],
    );
    assert(p11@ =~~= builtin_views()[11]);
    r.push(p11);
    let p12 = t(
        "trufflehog",
        "general",
        "Secrets discovery in repos and filesystems.",
        &["trufflehog"],
        &["filesystem", "{{target}}", "--json"],
        &["--version"],
        "go install github.com/trufflesecurity/trufflehog/v3@latest",
        "jsonl",
        &["directory", "file"],
        900,
        &["secrets", "leaks"],
        &["secrets-exposure"],
    );
    assert(p12@ =~~= builtin_views()[12]);
    r.push(p12);
    let p13 = t(
        "gitleaks",
        "general",
        "High-signal secret scanning.",
        &["gitleaks"],
        &["detect", "--source", "{{target}}", "--report-format", "json"],
        &["version"],
        "go install github.com/zricethezav/gitleaks/v8@latest",
        "json",
        &["directory", "file"],
        900,
        &["secrets", "leaks"],
        &["secrets-exposure"],
    );
    assert(p13@ =~~= builtin_views()[13]);
    r.push(p13);
    assert(profile_views(r@) =~= builtin_views());
    r
}

// ---------------------------------------------------------------------------
// Merging stored tool settings with the built-in table
// ---------------------------------------------------------------------------

/// No two profiles of `m` share a name.
pub open spec fn names_unique(m: Seq<ToolProfileView>) -> bool {
    forall|i: int, j: int| 0 <= i < j < m.len() ==> #[trigger] m[i].name != #[trigger] m[j].name
}

/// The built-in tool names are distinct.
pub proof fn lemma_builtin_names_unique()
    ensures
        names_unique(builtin_views()),
        builtin_views().len() == 14,
{
    let b = builtin_views();
    reveal_strlit("nmap");
    assert(b[0].name == "nmap"@);
    assert(b[0].name[0] == 'n' && b[0].name[1] == 'm');
    reveal_strlit("bbot");
    assert(b[1].name == "bbot"@);
    assert(b[1].name[0] == 'b' && b[1].name[1] == 'b');
    reveal_strlit("nuclei");
    assert(b[2].name == "nuclei"@);
    assert(b[2].name[0] == 'n' && b[2].name[1] == 'u');
    reveal_strlit("httpx");
    assert(b[3].name == "httpx"@);
    assert(b[3].name[0] == 'h' && b[3].name[1] == 't');
    reveal_strlit("subfinder");
    assert(b[4].name == "subfinder"@);
    assert(b[4].name[0] == 's' && b[4].name[1] == 'u');
    reveal_strlit("amass");
    assert(b[5].name == "amass"@);
    assert(b[5].name[0] == 'a' && b[5].name[1] == 'm');
    reveal_strlit("katana");
    assert(b[6].name == "katana"@);
    assert(b[6].name[0] == 'k' && b[6].name[1] == 'a');
    reveal_strlit("ffuf");
    assert(b[7].name == "ffuf"@);
    assert(b[7].name[0] == 'f' && b[7].name[1] == 'f');
    reveal_strlit("gobuster");
    assert(b[8].name == "gobuster"@);
    assert(b[8].name[0] == 'g' && b[8].name[1] == 'o');
    reveal_strlit("nikto");
    assert(b[9].name == "nikto"@);
    assert(b[9].name[0] == 'n' && b[9].name[1] == 'i');
    reveal_strlit("sqlmap");
    assert(b[10].name == "sqlmap"@);
    assert(b[10].name[0] == 's' && b[10].name[1] == 'q');
    reveal_strlit("semgrep");
    assert(b[11].name == "semgrep"@);
    assert(b[11].name[0] == 's' && b[11].name[1] == 'e');
    reveal_strlit("trufflehog");
    assert(b[12].name == "trufflehog"@);
    assert(b[12].name[0] == 't' && b[12].name[1] == 'r');
    reveal_strlit("gitleaks");
    assert(b[13].name == "gitleaks"@);
    assert(b[13].name[0] == 'g' && b[13].name[1] == 'i');
}

/// Text that is empty once trimmed.
pub open spec fn blank(s: Seq<char>) -> bool {
    trim(s).len() == 0
}

/// A built-in profile `b` updated with the user's settings `t` for it: the
/// path override and enabled flag always come from `t`; arguments, version
/// arguments, input kinds, capabilities and knowledge from `t` unless empty;
/// install hint and output format from `t` unless blank; the timeout from
/// `t` but at least 30 seconds; everything else stays as in `b`.
pub open spec fn merge_into(b: ToolProfileView, t: ToolProfileView) -> ToolProfileView {
    ToolProfileView {
        path_override: t.path_override,
        args: if t.args.len() == 0 {
            b.args
        } else {
            t.args
        },
        version_args: if t.version_args.len() == 0 {
            b.version_args
        } else {
            t.version_args
        },
        install_hint: if blank(t.install_hint) {
            b.install_hint
        } else {
            t.install_hint
        },
        output_format: if blank(t.output_format) {
            b.output_format
        } else {
            t.output_format
        },
        input_kinds: if t.input_kinds.len() == 0 {
            b.input_kinds
        } else {
            t.input_kinds
        },
        enabled: t.enabled,
        timeout_seconds: if t.timeout_seconds >= 30 {
            t.timeout_seconds
        } else {
            30
        },
        capabilities: if t.capabilities.len() == 0 {
            b.capabilities
        } else {
            t.capabilities
        },
        knowledge: if t.knowledge.len() == 0 {
            b.knowledge
        } else {
            t.knowledge
        },
        ..b
    }
}

/// The position of the first profile of `m` with the given name.
pub open spec fn find_name(m: Seq<ToolProfileView>, name: Seq<char>) -> Option<int>
    decreases m.len(),
{
    if m.len() == 0 {
        None
    } else {
        match find_name(m.drop_last(), name) {
            Some(k) => Some(k),
            None => if m.last().name == name {
                Some(m.len() - 1)
            } else {
                None
            },
        }
    }
}

/// A profile marked as user-defined.
pub open spec fn as_custom(t: ToolProfileView) -> ToolProfileView {
    ToolProfileView { source: "custom"@, ..t }
}

/// `m` with one more stored profile applied: merged into the profile of the
/// same name, or appended as a custom profile.
pub open spec fn merge_step(m: Seq<ToolProfileView>, t: ToolProfileView) -> Seq<ToolProfileView> {
    match find_name(m, t.name) {
        Some(k) => m.update(k, merge_into(m[k], t)),
        None => m.push(as_custom(t)),
    }
}

/// `m` with all of `ts` applied in order.
pub open spec fn merge_all(m: Seq<ToolProfileView>, ts: Seq<ToolProfileView>) -> Seq<
    ToolProfileView,
>
    decreases ts.len(),
{
    if ts.len() == 0 {
        m
    } else {
        merge_step(merge_all(m, ts.drop_last()), ts.last())
    }
}

/// Profile names strictly increase along `r`.
pub open spec fn name_sorted(r: Seq<ToolProfileView>) -> bool {
    forall|i: int, j: int| 0 <= i < j < r.len() ==> lex_lt(#[trigger] r[i].name, #[trigger] r[j].name)
}

/// `r` holds the profiles of `m` ordered by name.
pub open spec fn is_name_ordering(m: Seq<ToolProfileView>, r: Seq<ToolProfileView>) -> bool {
    &&& name_sorted(r)
    &&& r.len() == m.len()
    &&& forall|v: ToolProfileView| r.contains(v) <==> m.contains(v)
}

/// The profiles of `m` ordered by name.
pub open spec fn sorted_by_name(m: Seq<ToolProfileView>) -> Seq<ToolProfileView> {
    choose|r: Seq<ToolProfileView>| is_name_ordering(m, r)
}

/// The tool list that stored settings `existing` give: the built-in table
/// with `existing` applied in order, sorted by name.
pub open spec fn merged_tools(existing: Seq<ToolProfileView>) -> Seq<ToolProfileView> {
    sorted_by_name(merge_all(builtin_views(), existing))
}

pub proof fn lemma_find_name(m: Seq<ToolProfileView>, name: Seq<char>)
    ensures
        match find_name(m, name) {
            Some(k) => 0 <= k < m.len() && m[k].name == name && forall|j: int|
                0 <= j < k ==> m[j].name != name,
            None => forall|j: int| 0 <= j < m.len() ==> m[j].name != name,
        },
    decreases m.len(),
{
    if m.len() > 0 {
        let p = m.drop_last();
        lemma_find_name(p, name);
        assert forall|j: int| 0 <= j < p.len() implies p[j] == m[j] by {}
    }
}

pub proof fn lemma_merge_step_unique(m: Seq<ToolProfileView>, t: ToolProfileView)
    requires
        names_unique(m),
    ensures
        names_unique(merge_step(m, t)),
{
    lemma_find_name(m, t.name);
    let r = merge_step(m, t);
    match find_name(m, t.name) {
        Some(k) => {
            assert forall|i: int, j: int| 0 <= i < j < r.len() implies #[trigger] r[i].name
                != #[trigger] r[j].name by {
                assert(r[i].name == m[i].name && r[j].name == m[j].name);
            }
        },
        None => {
            assert forall|i: int, j: int| 0 <= i < j < r.len() implies #[trigger] r[i].name
                != #[trigger] r[j].name by {
                if j < m.len() {
                    assert(r[i] == m[i] && r[j] == m[j]);
                } else {
                    assert(r[i] == m[i]);
                }
            }
        },
    }
}

pub proof fn lemma_merge_all_unique(m: Seq<ToolProfileView>, ts: Seq<ToolProfileView>)
    requires
        names_unique(m),
    ensures
        names_unique(merge_all(m, ts)),
    decreases ts.len(),
{
    if ts.len() > 0 {
        lemma_merge_all_unique(m, ts.drop_last());
        lemma_merge_step_unique(merge_all(m, ts.drop_last()), ts.last());
    }
}

/// Two name-sorted sequences with the same profiles are equal.
pub proof fn lemma_name_ordering_unique(u: Seq<ToolProfileView>, w: Seq<ToolProfileView>)
    requires
        name_sorted(u),
        name_sorted(w),
        forall|v: ToolProfileView| u.contains(v) <==> w.contains(v),
    ensures
        u == w,
    decreases u.len() + w.len(),
{
    if u.len() == 0 {
        if w.len() > 0 {
            assert(w.contains(w[0]));
        }
        assert(u =~= w);
    } else if w.len() == 0 {
        assert(u.contains(u[0]));
    } else {
        assert(u.contains(u[0]));
        let k = choose|k: int| 0 <= k < w.len() && w[k] == u[0];
        assert(w.contains(w[0]));
        let m = choose|m: int| 0 <= m < u.len() && u[m] == w[0];
        if k > 0 {
            assert(lex_lt(w[0].name, w[k].name));
            if m > 0 {
                assert(lex_lt(u[0].name, u[m].name));
                crate::text::lemma_lex_asymmetric(w[0].name, u[0].name);
            } else {
                crate::text::lemma_lex_irreflexive(w[0].name);
            }
        }
        assert(u[0] == w[0]);
        let u1 = u.skip(1);
        let w1 = w.skip(1);
        assert forall|v: ToolProfileView| u1.contains(v) <==> w1.contains(v) by {
            if u1.contains(v) {
                let a = choose|a: int| 0 <= a < u1.len() && u1[a] == v;
                assert(u[a + 1] == v);
                assert(lex_lt(u[0].name, v.name));
                crate::text::lemma_lex_asymmetric(u[0].name, v.name);
                assert(w.contains(v));
                let b = choose|b: int| 0 <= b < w.len() && w[b] == v;
                assert(b != 0);
                assert(w1[b - 1] == v);
            }
            if w1.contains(v) {
                let a = choose|a: int| 0 <= a < w1.len() && w1[a] == v;
                assert(w[a + 1] == v);
                assert(lex_lt(w[0].name, v.name));
                crate::text::lemma_lex_asymmetric(w[0].name, v.name);
                assert(u.contains(v));
                let b = choose|b: int| 0 <= b < u.len() && u[b] == v;
                assert(b != 0);
                assert(u1[b - 1] == v);
            }
        }
        assert forall|i: int, j: int| 0 <= i < j < u1.len() implies lex_lt(
            #[trigger] u1[i].name,
            #[trigger] u1[j].name,
        ) by {
            assert(u1[i] == u[i + 1] && u1[j] == u[j + 1]);
        }
        assert forall|i: int, j: int| 0 <= i < j < w1.len() implies lex_lt(
            #[trigger] w1[i].name,
            #[trigger] w1[j].name,
        ) by {
            assert(w1[i] == w[i + 1] && w1[j] == w[j + 1]);
        }
        lemma_name_ordering_unique(u1, w1);
        assert(u =~= seq![u[0]] + u1);
        assert(w =~= seq![w[0]] + w1);
    }
}

/// `x` is the built-in profile `b` with stored settings applied: it keeps
/// `b`'s name, domain, description, binaries, source and detection flag;
/// a list of `x` that is empty, or a text that is blank, is `b`'s own; and
/// its timeout is at least 30 seconds.
pub open spec fn settled(b: ToolProfileView, x: ToolProfileView) -> bool {
    &&& x.name == b.name
    &&& x.domain == b.domain
    &&& x.description == b.description
    &&& x.binary_names == b.binary_names
    &&& x.source == b.source
    &&& x.auto_detect == b.auto_detect
    &&& (x.args.len() == 0 ==> b.args == x.args)
    &&& (x.version_args.len() == 0 ==> b.version_args == x.version_args)
    &&& (x.input_kinds.len() == 0 ==> b.input_kinds == x.input_kinds)
    &&& (x.capabilities.len() == 0 ==> b.capabilities == x.capabilities)
    &&& (x.knowledge.len() == 0 ==> b.knowledge == x.knowledge)
    &&& (blank(x.install_hint) ==> b.install_hint == x.install_hint)
    &&& (blank(x.output_format) ==> b.output_format == x.output_format)
    &&& x.timeout_seconds >= 30
}

/// No built-in profile has the name `n`.
pub open spec fn not_builtin(n: Seq<char>) -> bool {
    forall|k: int| 0 <= k < builtin_views().len() ==> (#[trigger] builtin_views()[k]).name != n
}

/// The shape of a merged tool list: the built-in profiles first, each
/// settled, then custom profiles under other names; no name twice.
pub open spec fn merged_shape(m: Seq<ToolProfileView>) -> bool {
    let b = builtin_views();
    &&& m.len() >= b.len()
    &&& forall|k: int| 0 <= k < b.len() ==> settled(b[k], #[trigger] m[k])
    &&& forall|j: int|
        b.len() <= j < m.len() ==> (#[trigger] m[j]).source == "custom"@ && not_builtin(m[j].name)
    &&& names_unique(m)
}

pub proof fn lemma_settled_fixed(b: ToolProfileView, x: ToolProfileView)
    requires
        settled(b, x),
    ensures
        merge_into(b, x) == x,
{
    assert(merge_into(b, x) =~~= x);
}

pub proof fn lemma_settled_step(b: ToolProfileView, y: ToolProfileView, t: ToolProfileView)
    requires
        settled(b, y),
    ensures
        settled(b, merge_into(y, t)),
{
}

pub proof fn lemma_builtin_shape()
    ensures
        merged_shape(builtin_views()),
{
    let b = builtin_views();
    lemma_builtin_names_unique();
    assert forall|k: int| 0 <= k < b.len() implies settled(b[k], #[trigger] b[k]) by {
        if k == 0 {
        } else if k == 1 {
        } else if k == 2 {
        } else if k == 3 {
        } else if k == 4 {
        } else if k == 5 {
        } else if k == 6 {
        } else if k == 7 {
        } else if k == 8 {
        } else if k == 9 {
        } else if k == 10 {
        } else if k == 11 {
        } else if k == 12 {
        } else {
        }
    }
}

pub proof fn lemma_merge_all_shape(ts: Seq<ToolProfileView>)
    ensures
        merged_shape(merge_all(builtin_views(), ts)),
    decreases ts.len(),
{
    let b = builtin_views();
    lemma_builtin_names_unique();
    if ts.len() == 0 {
        lemma_builtin_shape();
    } else {
        lemma_merge_all_shape(ts.drop_last());
        let m = merge_all(b, ts.drop_last());
        let t = ts.last();
        let r = merge_all(b, ts);
        assert(r == merge_step(m, t));
        lemma_merge_step_unique(m, t);
        lemma_find_name(m, t.name);
        match find_name(m, t.name) {
            Some(k) => {
                assert forall|k2: int| 0 <= k2 < b.len() implies settled(b[k2], #[trigger] r[k2]) by {
                    if k2 == k {
                        lemma_settled_step(b[k], m[k], t);
                    }
                }
                assert forall|j: int| b.len() <= j < r.len() implies (#[trigger] r[j]).source == "custom"@
                    && not_builtin(r[j].name) by {
                    assert(m[j].source == "custom"@ && not_builtin(m[j].name));
                }
            },
            None => {
                assert forall|k2: int| 0 <= k2 < b.len() implies settled(b[k2], #[trigger] r[k2]) by {
                    assert(r[k2] == m[k2]);
                }
                assert forall|j: int| b.len() <= j < r.len() implies (#[trigger] r[j]).source == "custom"@
                    && not_builtin(r[j].name) by {
                    if j < m.len() {
                        assert(r[j] == m[j]);
                    } else {
                        assert(r[j] == as_custom(t));
                        assert forall|k: int| 0 <= k < b.len() implies (#[trigger] b[k]).name != r[j].name by {
                            assert(m[k].name == b[k].name);
                        }
                    }
                }
            },
        }
    }
}

/// Names in a name-sorted list differ.
pub proof fn lemma_sorted_names_differ(r: Seq<ToolProfileView>, p: int, q: int)
    requires
        name_sorted(r),
        0 <= p < r.len(),
        0 <= q < r.len(),
        p != q,
    ensures
        r[p].name != r[q].name,
{
    if p < q {
        crate::text::lemma_lex_asymmetric(r[p].name, r[q].name);
    } else {
        crate::text::lemma_lex_asymmetric(r[q].name, r[p].name);
    }
}

/// What merging the first `i` profiles of `r` into the built-in table
/// gives, when `r` orders the merged list `m`: at each built-in position,
/// `m`'s profile once `r`'s prefix has named it, else the built-in one;
/// after them, custom profiles of the prefix; and every custom profile of
/// the prefix is there.
pub open spec fn remerge_inv(m: Seq<ToolProfileView>, r: Seq<ToolProfileView>, i: int, x: Seq<ToolProfileView>) -> bool {
    let b = builtin_views();
    &&& x.len() >= b.len()
    &&& forall|k: int|
        0 <= k < b.len() ==> #[trigger] x[k] == (if profile_names(r.take(i)).contains(b[k].name) {
            m[k]
        } else {
            b[k]
        })
    &&& forall|j: int| b.len() <= j < x.len() ==> r.take(i).contains(#[trigger] x[j]) && not_builtin(x[j].name)
    &&& forall|p: int| 0 <= p < i && not_builtin(r[p].name) ==> x.contains(#[trigger] r[p])
}

pub proof fn lemma_remerge_prefix(m: Seq<ToolProfileView>, r: Seq<ToolProfileView>, i: int)
    requires
        merged_shape(m),
        is_name_ordering(m, r),
        0 <= i <= r.len(),
    ensures
        remerge_inv(m, r, i, merge_all(builtin_views(), r.take(i))),
    decreases i,
{
    let b = builtin_views();
    lemma_builtin_names_unique();
    if i == 0 {
        assert(r.take(0) =~= Seq::<ToolProfileView>::empty());
        assert forall|k: int| 0 <= k < b.len() implies !profile_names(r.take(0)).contains(b[k].name) by {}
    } else {
        lemma_remerge_prefix(m, r, i - 1);
        let pre = r.take(i - 1);
        let x = merge_all(b, pre);
        let v = r[i - 1];
        assert(r.take(i).drop_last() =~= pre);
        assert(r.take(i).last() == v);
        let y = merge_all(b, r.take(i));
        assert(y == merge_step(x, v));
        assert(r.contains(v));
        assert(m.contains(v));
        let mi = choose|mi: int| 0 <= mi < m.len() && m[mi] == v;
        assert forall|p: int| 0 <= p < i - 1 implies r[p].name != v.name by {
            lemma_sorted_names_differ(r, p, i - 1);
        }
        assert(profile_names(r.take(i)) =~= profile_names(pre).push(v.name));
        lemma_find_name(x, v.name);
        if mi < b.len() {
            // a built-in profile, not yet named by the prefix
            assert(settled(b[mi], m[mi]));
            assert(!profile_names(pre).contains(b[mi].name)) by {
                if profile_names(pre).contains(b[mi].name) {
                    let p = choose|p: int| 0 <= p < profile_names(pre).len() && profile_names(pre)[p] == b[mi].name;
                    assert(r[p].name == v.name);
                }
            }
            assert(x[mi] == b[mi]);
            match find_name(x, v.name) {
                Some(k) => {
                    if k < mi {
                        assert(x[k].name == b[k].name);
                    } else if k > mi {
                        assert(x[mi].name == v.name);
                    }
                    assert(k == mi);
                },
                None => {
                    assert(x[mi].name == v.name);
                },
            }
            lemma_settled_fixed(b[mi], m[mi]);
            assert(y == x.update(mi, m[mi]));
            assert forall|k: int| 0 <= k < b.len() implies #[trigger] y[k] == (if profile_names(
                r.take(i),
            ).contains(b[k].name) {
                m[k]
            } else {
                b[k]
            }) by {
                if k != mi {
                    assert(b[k].name != b[mi].name);
                    if profile_names(r.take(i)).contains(b[k].name) {
                        let p = choose|p: int|
                            0 <= p < profile_names(r.take(i)).len() && profile_names(r.take(i))[p] == b[k].name;
                        if p == i - 1 {
                            assert(v.name == b[k].name);
                        }
                        assert(profile_names(pre)[p] == b[k].name);
                    }
                    if profile_names(pre).contains(b[k].name) {
                        let p = choose|p: int| 0 <= p < profile_names(pre).len() && profile_names(pre)[p] == b[k].name;
                        assert(profile_names(r.take(i))[p] == b[k].name);
                    }
                } else {
                    assert(profile_names(r.take(i))[i - 1] == b[k].name);
                }
            }
            assert forall|j: int| b.len() <= j < y.len() implies r.take(i).contains(#[trigger] y[j])
                && not_builtin(y[j].name) by {
                assert(y[j] == x[j]);
                assert(pre.contains(x[j]));
                let p = choose|p: int| 0 <= p < pre.len() && pre[p] == x[j];
                assert(r.take(i)[p] == x[j]);
            }
            assert forall|p: int| 0 <= p < i && not_builtin(r[p].name) implies y.contains(#[trigger] r[p]) by {
                if p == i - 1 {
                    assert(b[mi].name == v.name);
                } else {
                    assert(x.contains(r[p]));
                    let j = choose|j: int| 0 <= j < x.len() && x[j] == r[p];
                    if j == mi {
                        assert(b[mi].name == r[p].name);
                    }
                    assert(y[j] == r[p]);
                }
            }
        } else {
            // a custom profile: appended as it is
            assert(m[mi].source == "custom"@ && not_builtin(m[mi].name));
            match find_name(x, v.name) {
                Some(k) => {
                    if k < b.len() {
                        assert(b[k].name == v.name);
                    } else {
                        assert(pre.contains(x[k]));
                        let p = choose|p: int| 0 <= p < pre.len() && pre[p] == x[k];
                        assert(r[p].name == v.name);
                    }
                },
                None => {},
            }
            assert(as_custom(v) =~~= v);
            assert(y == x.push(v));
            assert forall|k: int| 0 <= k < b.len() implies #[trigger] y[k] == (if profile_names(
                r.take(i),
            ).contains(b[k].name) {
                m[k]
            } else {
                b[k]
            }) by {
                assert(y[k] == x[k]);
                if profile_names(r.take(i)).contains(b[k].name) {
                    let p = choose|p: int|
                        0 <= p < profile_names(r.take(i)).len() && profile_names(r.take(i))[p] == b[k].name;
                    if p == i - 1 {
                        assert(v.name == b[k].name);
                    }
                    assert(profile_names(pre)[p] == b[k].name);
                }
                if profile_names(pre).contains(b[k].name) {
                    let p = choose|p: int| 0 <= p < profile_names(pre).len() && profile_names(pre)[p] == b[k].name;
                    assert(profile_names(r.take(i))[p] == b[k].name);
                }
            }
            assert forall|j: int| b.len() <= j < y.len() implies r.take(i).contains(#[trigger] y[j])
                && not_builtin(y[j].name) by {
                if j < x.len() {
                    assert(y[j] == x[j]);
                    assert(pre.contains(x[j]));
                    let p = choose|p: int| 0 <= p < pre.len() && pre[p] == x[j];
                    assert(r.take(i)[p] == x[j]);
                } else {
                    assert(y[j] == v);
                    assert(r.take(i)[i - 1] == v);
                }
            }
            assert forall|p: int| 0 <= p < i && not_builtin(r[p].name) implies y.contains(#[trigger] r[p]) by {
                if p == i - 1 {
                    assert(y[x.len() as int] == v);
                } else {
                    assert(x.contains(r[p]));
                    let j = choose|j: int| 0 <= j < x.len() && x[j] == r[p];
                    assert(y[j] == r[p]);
                }
            }
        }
    }
}

/// Merging the merged tool list into the built-in table again gives the
/// same profiles, and sorted by name it is the merged list itself: saving
/// the merged tools and loading them again changes nothing.
pub proof fn law_merge_is_stable(existing: Seq<ToolProfileView>, r: Seq<ToolProfileView>)
    requires
        is_name_ordering(merge_all(builtin_views(), existing), r),
    ensures
        forall|v: ToolProfileView| merge_all(builtin_views(), r).contains(v) <==> r.contains(v),
        forall|w: Seq<ToolProfileView>| is_name_ordering(merge_all(builtin_views(), r), w) ==> w == r,
{
    let b = builtin_views();
    let m = merge_all(b, existing);
    lemma_merge_all_shape(existing);
    lemma_remerge_prefix(m, r, r.len() as int);
    assert(r.take(r.len() as int) =~= r);
    let x = merge_all(b, r);
    assert forall|k: int| 0 <= k < b.len() implies #[trigger] x[k] == m[k] by {
        assert(m.contains(m[k]));
        assert(r.contains(m[k]));
        let p = choose|p: int| 0 <= p < r.len() && r[p] == m[k];
        assert(profile_names(r)[p] == b[k].name);
    }
    assert forall|v: ToolProfileView| x.contains(v) <==> r.contains(v) by {
        if x.contains(v) {
            let j = choose|j: int| 0 <= j < x.len() && x[j] == v;
            if j < b.len() {
                assert(m.contains(m[j]));
            }
        }
        if r.contains(v) {
            assert(m.contains(v));
            let mi = choose|mi: int| 0 <= mi < m.len() && m[mi] == v;
            if mi < b.len() {
                assert(x[mi] == v);
            } else {
                let p = choose|p: int| 0 <= p < r.len() && r[p] == v;
                assert(not_builtin(r[p].name));
                assert(x.contains(r[p]));
            }
        }
    }
    assert forall|w: Seq<ToolProfileView>| is_name_ordering(x, w) implies w == r by {
        lemma_name_ordering_unique(w, r);
    }
}

/// The position of the first profile with the given name.
fn find_by_name(m: &Vec<ToolProfile>, name: &String) -> (r: Option<usize>)
    ensures
        match r {
            Some(k) => find_name(profile_views(m@), name@) == Some(k as int),
            None => find_name(profile_views(m@), name@) is None,
        },
{
    let ghost pv = profile_views(m@);
    let nv = chars_of(name.as_str());
    let mut i: usize = 0;
    assert(pv.take(0) =~= Seq::<ToolProfileView>::empty());
    while i < m.len()
        invariant
            i <= m.len(),
            pv == profile_views(m@),
            nv@ == name@,
            find_name(pv.take(i as int), name@) is None,
        decreases m.len() - i,
    {
        let ghost t = pv.take(i + 1);
        assert(t.drop_last() =~= pv.take(i as int));
        assert(t.last() == m@[i as int]@);
        let mc = chars_of(m[i].name.as_str());
        if chars_eq(&mc, &nv) {
            proof {
                lemma_find_name_prefix(pv, i + 1, name@);
            }
            return Some(i);
        }
        i = i + 1;
    }
    assert(pv.take(m.len() as int) =~= pv);
    None
}

/// A found name in a prefix is found at the same place in the whole.
pub proof fn lemma_find_name_prefix(m: Seq<ToolProfileView>, n: int, name: Seq<char>)
    requires
        0 <= n <= m.len(),
        find_name(m.take(n), name) is Some,
    ensures
        find_name(m, name) == find_name(m.take(n), name),
    decreases m.len() - n,
{
    if n < m.len() {
        assert(m.take(n + 1).drop_last() =~= m.take(n));
        lemma_find_name_prefix(m, n + 1, name);
    } else {
        assert(m.take(n) =~= m);
    }
}

/// Whether `s` is blank once trimmed.
fn is_blank(s: &String) -> (b: bool)
    ensures
        b == blank(s@),
{
    let c = chars_of(s.as_str());
    let t = trim_exec(&c);
    t.len() == 0
}

/// A built-in profile updated with the user's settings for it.
fn merge_profile(b: &ToolProfile, t: &ToolProfile) -> (r: ToolProfile)
    ensures
        r@ == merge_into(b@, t@),
{
    let mut r = b.duplicate();
    r.path_override = copy_opt(&t.path_override);
    if t.args.len() > 0 {
        r.args = copy_strings(&t.args);
    }
    if t.version_args.len() > 0 {
        r.version_args = copy_strings(&t.version_args);
    }
    if !is_blank(&t.install_hint) {
        r.install_hint = t.install_hint.clone();
    }
    if !is_blank(&t.output_format) {
        r.output_format = t.output_format.clone();
    }
    if t.input_kinds.len() > 0 {
        r.input_kinds = copy_strings(&t.input_kinds);
    }
    r.enabled = t.enabled;
    r.timeout_seconds = if t.timeout_seconds >= 30 {
        t.timeout_seconds
    } else {
        30
    };
    if t.capabilities.len() > 0 {
        r.capabilities = copy_strings(&t.capabilities);
    }
    if t.knowledge.len() > 0 {
        r.knowledge = copy_strings(&t.knowledge);
    }
    assert(r@ =~~= merge_into(b@, t@));
    r
}

/// The profiles of `m` ordered by name; the names must be distinct.
fn sort_by_name(m: &Vec<ToolProfile>) -> (r: Vec<ToolProfile>)
    requires
        names_unique(profile_views(m@)),
    ensures
        is_name_ordering(profile_views(m@), profile_views(r@)),
{
    let ghost mv = profile_views(m@);
    let mut out: Vec<ToolProfile> = Vec::new();
    let mut i: usize = 0;
    assert(mv.take(0) =~= Seq::<ToolProfileView>::empty());
    while i < m.len()
        invariant
            i <= m.len(),
            mv == profile_views(m@),
            names_unique(mv),
            name_sorted(profile_views(out@)),
            out.len() == i,
            forall|v: ToolProfileView| profile_views(out@).contains(v) <==> mv.take(i as int).contains(v),
        decreases m.len() - i,
    {
        let ghost ov = profile_views(out@);
        let ghost pre = mv.take(i as int);
        let ghost post = mv.take(i + 1);
        let ghost p = mv[i as int];
        assert(post.drop_last() =~= pre);
        assert(post.last() == p);
        let name = chars_of(m[i].name.as_str());
        let mut j: usize = 0;
        while j < out.len() && lex_lt_exec(&chars_of(out[j].name.as_str()), &name)
            invariant
                j <= out.len(),
                ov == profile_views(out@),
                name@ == p.name,
                forall|k: int| 0 <= k < j ==> lex_lt(#[trigger] ov[k].name, p.name),
            decreases out.len() - j,
        {
            j = j + 1;
        }
        proof {
            // `p`'s name differs from every name already placed.
            assert forall|k: int| 0 <= k < ov.len() implies ov[k].name != p.name by {
                assert(ov.contains(ov[k]));
                assert(pre.contains(ov[k]));
                let a = choose|a: int| 0 <= a < pre.len() && pre[a] == ov[k];
                assert(mv[a] == ov[k]);
                assert(mv[a].name != mv[i as int].name);
            }
            if j < ov.len() {
                crate::text::lemma_lex_total(ov[j as int].name, p.name);
            }
        }
        let item = m[i].duplicate();
        out.insert(j, item);
        let ghost nv = profile_views(out@);
        assert(nv =~= ov.insert(j as int, p));
        assert forall|a: int, b: int| 0 <= a < b < nv.len() implies lex_lt(
            #[trigger] nv[a].name,
            #[trigger] nv[b].name,
        ) by {
            if b < j {
                assert(nv[a] == ov[a] && nv[b] == ov[b]);
            } else if b == j {
                assert(nv[a] == ov[a]);
            } else if a > j {
                assert(nv[a] == ov[a - 1] && nv[b] == ov[b - 1]);
            } else if a == j {
                assert(nv[b] == ov[b - 1]);
                assert(lex_lt(p.name, ov[j as int].name));
                if b - 1 > j {
                    assert(lex_lt(ov[j as int].name, ov[b - 1].name));
                    crate::text::lemma_lex_transitive(p.name, ov[j as int].name, ov[b - 1].name);
                }
            } else {
                assert(nv[a] == ov[a] && nv[b] == ov[b - 1]);
                assert(lex_lt(ov[a].name, p.name));
                assert(lex_lt(p.name, ov[j as int].name));
                crate::text::lemma_lex_transitive(ov[a].name, p.name, ov[j as int].name);
                if b - 1 > j {
                    assert(lex_lt(ov[j as int].name, ov[b - 1].name));
                    crate::text::lemma_lex_transitive(ov[a].name, ov[j as int].name, ov[b - 1].name);
                }
            }
        }
        assert forall|v: ToolProfileView| nv.contains(v) <==> post.contains(v) by {
            if post.contains(v) {
                let k = choose|k: int| 0 <= k < post.len() && post[k] == v;
                if k < pre.len() {
                    assert(pre[k] == v);
                    assert(ov.contains(v));
                    let a = choose|a: int| 0 <= a < ov.len() && ov[a] == v;
                    if a < j {
                        assert(nv[a] == v);
                    } else {
                        assert(nv[a + 1] == v);
                    }
                } else {
                    assert(nv[j as int] == v);
                }
            }
            if nv.contains(v) {
                let a = choose|a: int| 0 <= a < nv.len() && nv[a] == v;
                if a < j {
                    assert(ov[a] == v);
                    assert(ov.contains(v));
                } else if a > j {
                    assert(ov[a - 1] == v);
                    assert(ov.contains(v));
                }
                if a != j {
                    assert(pre.contains(v));
                    let k = choose|k: int| 0 <= k < pre.len() && pre[k] == v;
                    assert(post[k] == v);
                } else {
                    assert(post[post.len() - 1] == v);
                }
            }
        }
        i = i + 1;
    }
    assert(mv.take(m.len() as int) =~= mv);
    out
}

/// The tool list that stored settings give: the built-in table with each
/// stored profile applied in order (merged into the built-in profile of the
/// same name, or added as a custom profile), sorted by name.
pub fn merge_builtin_tools(existing: Vec<ToolProfile>) -> (r: Vec<ToolProfile>)
    ensures
        profile_views(r@) == merged_tools(profile_views(existing@)),
        is_name_ordering(merge_all(builtin_views(), profile_views(existing@)), profile_views(r@)),
        names_unique(profile_views(r@)),
        name_sorted(profile_views(r@)),
        forall|i: int|
            0 <= i < builtin_views().len() ==> profile_names(profile_views(r@)).contains(
                #[trigger] builtin_views()[i].name,
            ),
{
    let ghost ev = profile_views(existing@);
    let mut merged = builtin_tools();
    proof {
        lemma_builtin_names_unique();
    }
    let mut i: usize = 0;
    assert(ev.take(0) =~= Seq::<ToolProfileView>::empty());
    while i < existing.len()
        invariant
            i <= existing.len(),
            ev == profile_views(existing@),
            profile_views(merged@) == merge_all(builtin_views(), ev.take(i as int)),
        decreases existing.len() - i,
    {
        let ghost mv = profile_views(merged@);
        assert(ev.take(i + 1).drop_last() =~= ev.take(i as int));
        assert(ev.take(i + 1).last() == existing@[i as int]@);
        let tool = &existing[i];
        match find_by_name(&merged, &tool.name) {
            Some(k) => {
                proof {
                    lemma_find_name(mv, tool.name@);
                }
                let updated = merge_profile(&merged[k], tool);
                merged.set(k, updated);
                assert(profile_views(merged@) =~= mv.update(k as int, merge_into(mv[k as int], tool@)));
            },
            None => {
                let mut custom = tool.duplicate();
                custom.source = string_from("custom");
                assert(custom@ =~~= as_custom(tool@));
                merged.push(custom);
                assert(profile_views(merged@) =~= mv.push(as_custom(tool@)));
            },
        }
        i = i + 1;
    }
    assert(ev.take(existing.len() as int) =~= ev);
    proof {
        lemma_merge_all_unique(builtin_views(), ev);
    }
    let r = sort_by_name(&merged);
    proof {
        let m = merge_all(builtin_views(), ev);
        let c = choose|w: Seq<ToolProfileView>| is_name_ordering(m, w);
        assert(is_name_ordering(m, profile_views(r@)));
        lemma_name_ordering_unique(profile_views(r@), c);
        let rv = profile_views(r@);
        assert forall|a: int, b: int| 0 <= a < b < rv.len() implies #[trigger] rv[a].name
            != #[trigger] rv[b].name by {
            crate::text::lemma_lex_asymmetric(rv[a].name, rv[b].name);
        }
        lemma_merge_all_keeps_names(builtin_views(), ev);
        assert forall|i: int| 0 <= i < builtin_views().len() implies profile_names(rv).contains(
            #[trigger] builtin_views()[i].name,
        ) by {
            assert(m.contains(m[i]));
            assert(rv.contains(m[i]));
            let j = choose|j: int| 0 <= j < rv.len() && rv[j] == m[i];
            assert(profile_names(rv)[j] == builtin_views()[i].name);
        }
    }
    r
}

/// The names of the profiles of `s`, in order.
pub open spec fn profile_names(s: Seq<ToolProfileView>) -> Seq<Seq<char>> {
    s.map_values(|t: ToolProfileView| t.name)
}

/// Every stored profile's name is among the names after applying them.
pub proof fn lemma_merge_all_has_names(m: Seq<ToolProfileView>, ts: Seq<ToolProfileView>)
    ensures
        forall|i: int| 0 <= i < ts.len() ==> profile_names(merge_all(m, ts)).contains(#[trigger] ts[i].name),
    decreases ts.len(),
{
    if ts.len() > 0 {
        lemma_merge_all_has_names(m, ts.drop_last());
        let x = merge_all(m, ts.drop_last());
        let y = merge_all(m, ts);
        let t = ts.last();
        lemma_find_name(x, t.name);
        assert forall|i: int| 0 <= i < ts.len() implies profile_names(y).contains(#[trigger] ts[i].name) by {
            if i < ts.len() - 1 {
                assert(ts.drop_last()[i] == ts[i]);
                assert(profile_names(x).contains(ts[i].name));
                let j = choose|j: int| 0 <= j < profile_names(x).len() && profile_names(x)[j] == ts[i].name;
                assert(profile_names(y)[j] == ts[i].name);
            } else {
                match find_name(x, t.name) {
                    Some(k) => {
                        assert(profile_names(y)[k] == t.name);
                    },
                    None => {
                        assert(profile_names(y)[x.len() as int] == t.name);
                    },
                }
            }
        }
    }
}

/// Applying stored profiles keeps every profile already there at its
/// position and under its name.
pub proof fn lemma_merge_all_keeps_names(m: Seq<ToolProfileView>, ts: Seq<ToolProfileView>)
    ensures
        merge_all(m, ts).len() >= m.len(),
        forall|i: int| 0 <= i < m.len() ==> #[trigger] merge_all(m, ts)[i].name == m[i].name,
    decreases ts.len(),
{
    if ts.len() > 0 {
        lemma_merge_all_keeps_names(m, ts.drop_last());
        let x = merge_all(m, ts.drop_last());
        lemma_find_name(x, ts.last().name);
    }
}

/// Every profile after applying stored profiles was there before or is
/// named by one of them.
pub proof fn lemma_merge_all_names_from(m: Seq<ToolProfileView>, ts: Seq<ToolProfileView>)
    ensures
        forall|j: int|
            m.len() <= j < merge_all(m, ts).len() ==> exists|i: int|
                0 <= i < ts.len() && (#[trigger] ts[i]).name == (#[trigger] merge_all(m, ts)[j]).name,
    decreases ts.len(),
{
    if ts.len() > 0 {
        let x = merge_all(m, ts.drop_last());
        let y = merge_all(m, ts);
        let t = ts.last();
        lemma_merge_all_names_from(m, ts.drop_last());
        lemma_merge_all_keeps_names(m, ts.drop_last());
        lemma_find_name(x, t.name);
        assert forall|j: int| m.len() <= j < y.len() implies exists|i: int|
            0 <= i < ts.len() && (#[trigger] ts[i]).name == (#[trigger] y[j]).name by {
            if j < x.len() {
                let i = choose|i: int| 0 <= i < ts.drop_last().len() && (#[trigger] ts.drop_last()[i]).name == x[j].name;
                assert(ts[i] == ts.drop_last()[i]);
                match find_name(x, t.name) {
                    Some(k) => {
                        assert(y[j].name == x[j].name);
                    },
                    None => {
                        assert(y[j] == x[j]);
                    },
                }
            } else {
                assert(ts[ts.len() - 1] == t);
                assert(y[j].name == t.name);
            }
        }
    }
}

/// The merged tool list, sorted by name, holds each built-in tool once,
/// keeping its built-in name, domain, description, binaries and source;
/// every other entry is a custom tool whose name some stored profile gave.
pub proof fn law_merge_names(existing: Seq<ToolProfileView>, r: Seq<ToolProfileView>)
    requires
        is_name_ordering(merge_all(builtin_views(), existing), r),
    ensures
        name_sorted(r),
        forall|k: int|
            #![trigger builtin_views()[k]]
            0 <= k < builtin_views().len() ==> exists|p: int|
                0 <= p < r.len() && settled(builtin_views()[k], #[trigger] r[p]),
        forall|p: int|
            0 <= p < r.len() && not_builtin(#[trigger] r[p].name) ==> r[p].source == "custom"@
                && exists|i: int| 0 <= i < existing.len() && (#[trigger] existing[i]).name == r[p].name,
{
    let b = builtin_views();
    let m = merge_all(b, existing);
    lemma_merge_all_shape(existing);
    lemma_merge_all_names_from(b, existing);
    assert forall|k: int| #![trigger b[k]] 0 <= k < b.len() implies exists|p: int|
        0 <= p < r.len() && settled(b[k], #[trigger] r[p]) by {
        assert(settled(b[k], m[k]));
        assert(m.contains(m[k]));
        assert(r.contains(m[k]));
        let p = choose|p: int| 0 <= p < r.len() && r[p] == m[k];
        assert(settled(b[k], r[p]));
    }
    assert forall|p: int| 0 <= p < r.len() && not_builtin(#[trigger] r[p].name) implies r[p].source == "custom"@
        && exists|i: int| 0 <= i < existing.len() && (#[trigger] existing[i]).name == r[p].name by {
        assert(r.contains(r[p]));
        assert(m.contains(r[p]));
        let j = choose|j: int| 0 <= j < m.len() && m[j] == r[p];
        if j < b.len() {
            assert(settled(b[j], m[j]));
            assert(b[j].name == r[p].name);
            assert(false);
        }
        assert(m[j].source == "custom"@);
        let i = choose|i: int| 0 <= i < existing.len() && (#[trigger] existing[i]).name == m[j].name;
        assert(existing[i].name == r[p].name);
    }
}

// ---------------------------------------------------------------------------
// Report template and placeholders
// ---------------------------------------------------------------------------

/// The lines of the default report template.
pub open spec fn default_template_lines() -> Seq<Seq<char>> {
    seq![
        "# Torot v4 Report"@,
        ""@,
        "- Session: `{{session_id}}`"@,
        "- Target: `{{target}}`"@,
        "- Generated: `{{created_at}}`"@,
        "- Findings: `{{findings_total}}`"@,
        "- Critical: `{{critical_count}}`"@,
        "- High: `{{high_count}}`"@,
        ""@,
        "## Executive Summary"@,
        "{{summary}}"@,
        ""@,
        "## Tool Coverage"@,
        "{{tool_overview}}"@,
        ""@,
        "## Findings"@,
        "{{findings_table}}"@,
    ]
}

/// The default report template: its lines joined with newlines.
pub open spec fn default_template() -> Seq<char> {
    join(default_template_lines(), "\n"@)
}

/// The placeholders that report templates may use.
pub open spec fn placeholders_spec() -> Seq<Seq<char>> {
    seq![
        "{{session_id}}"@,
        "{{target}}"@,
        "{{created_at}}"@,
        "{{findings_total}}"@,
        "{{critical_count}}"@,
        "{{high_count}}"@,
        "{{summary}}"@,
        "{{tool_overview}}"@,
        "{{findings_table}}"@,
    ]
}

/// The default report template.
pub fn default_report_template() -> (r: String)
    ensures
        r@ == default_template(),
{
    let mut lines: Vec<Vec<char>> = Vec::new();
    lines.push(chars_of("# Torot v4 Report"));
    lines.push(chars_of(""));
    lines.push(chars_of("- Session: `{{session_id}}`"));
    lines.push(chars_of("- Target: `{{target}}`"));
    lines.push(chars_of("- Generated: `{{created_at}}`"));
    lines.push(chars_of("- Findings: `{{findings_total}}`"));
    lines.push(chars_of("- Critical: `{{critical_count}}`"));
    lines.push(chars_of("- High: `{{high_count}}`"));
    lines.push(chars_of(""));
    lines.push(chars_of("## Executive Summary"));
    lines.push(chars_of("{{summary}}"));
    lines.push(chars_of(""));
    lines.push(chars_of("## Tool Coverage"));
    lines.push(chars_of("{{tool_overview}}"));
    lines.push(chars_of(""));
    lines.push(chars_of("## Findings"));
    lines.push(chars_of("{{findings_table}}"));
    assert(views(lines@) =~= default_template_lines());
    let joined = join_exec(&lines, "\n");
    string_of(&joined)
}

/// The placeholders that report templates may use.
pub fn report_placeholders() -> (r: Vec<String>)
    ensures
        strs(r@) == placeholders_spec(),
{
    let mut r: Vec<String> = Vec::new();
    r.push(string_from("{{session_id}}"));
    r.push(string_from("{{target}}"));
    r.push(string_from("{{created_at}}"));
    r.push(string_from("{{findings_total}}"));
    r.push(string_from("{{critical_count}}"));
    r.push(string_from("{{high_count}}"));
    r.push(string_from("{{summary}}"));
    r.push(string_from("{{tool_overview}}"));
    r.push(string_from("{{findings_table}}"));
    assert(strs(r@) =~= placeholders_spec());
    r
}

pub proof fn lemma_contains_in_concat(a: Seq<char>, b: Seq<char>, p: Seq<char>)
    requires
        contains(a, p) || contains(b, p),
    ensures
        contains(a + b, p),
{
    if contains(a, p) {
        let i = choose|i: int| occurs_at(a, p, i);
        assert((a + b).subrange(i, i + p.len()) =~= a.subrange(i, i + p.len()));
        assert(occurs_at(a + b, p, i));
    } else {
        let i = choose|i: int| occurs_at(b, p, i);
        assert((a + b).subrange(a.len() + i, a.len() + i + p.len()) =~= b.subrange(i, i + p.len()));
        assert(occurs_at(a + b, p, a.len() + i));
    }
}

pub proof fn lemma_join_contains(ls: Seq<Seq<char>>, sep: Seq<char>, k: int, p: Seq<char>)
    requires
        0 <= k < ls.len(),
        contains(ls[k], p),
    ensures
        contains(join(ls, sep), p),
    decreases ls.len(),
{
    if ls.len() == 1 {
    } else if k == ls.len() - 1 {
        lemma_contains_in_concat(join(ls.drop_last(), sep) + sep, ls.last(), p);
    } else {
        lemma_join_contains(ls.drop_last(), sep, k, p);
        lemma_contains_in_concat(join(ls.drop_last(), sep), sep, p);
        lemma_contains_in_concat(join(ls.drop_last(), sep) + sep, ls.last(), p);
    }
}

/// Every placeholder that `report_placeholders` lists appears in the
/// default report template.
pub proof fn law_default_template_has_every_placeholder()
    ensures
        forall|i: int|
            0 <= i < placeholders_spec().len() ==> contains(
                default_template(),
                #[trigger] placeholders_spec()[i],
            ),
{
    let ls = default_template_lines();
    let ps = placeholders_spec();
    reveal_strlit("- Session: `{{session_id}}`");
    reveal_strlit("{{session_id}}");
    assert(ls[2].subrange(12, 12 + ps[0].len() as int) =~= ps[0]);
    assert(occurs_at(ls[2], ps[0], 12));
    lemma_join_contains(ls, "\n"@, 2, ps[0]);
    reveal_strlit("- Target: `{{target}}`");
    reveal_strlit("{{target}}");
    assert(ls[3].subrange(11, 11 + ps[1].len() as int) =~= ps[1]);
    assert(occurs_at(ls[3], ps[1], 11));
    lemma_join_contains(ls, "\n"@, 3, ps[1]);
    reveal_strlit("- Generated: `{{created_at}}`");
    reveal_strlit("{{created_at}}");
    assert(ls[4].subrange(14, 14 + ps[2].len() as int) =~= ps[2]);
    assert(occurs_at(ls[4], ps[2], 14));
    lemma_join_contains(ls, "\n"@, 4, ps[2]);
    reveal_strlit("- Findings: `{{findings_total}}`");
    reveal_strlit("{{findings_total}}");
    assert(ls[5].subrange(13, 13 + ps[3].len() as int) =~= ps[3]);
    assert(occurs_at(ls[5], ps[3], 13));
    lemma_join_contains(ls, "\n"@, 5, ps[3]);
    reveal_strlit("- Critical: `{{critical_count}}`");
    reveal_strlit("{{critical_count}}");
    assert(ls[6].subrange(13, 13 + ps[4].len() as int) =~= ps[4]);
    assert(occurs_at(ls[6], ps[4], 13));
    lemma_join_contains(ls, "\n"@, 6, ps[4]);
    reveal_strlit("- High: `{{high_count}}`");
    reveal_strlit("{{high_count}}");
    assert(ls[7].subrange(9, 9 + ps[5].len() as int) =~= ps[5]);
    assert(occurs_at(ls[7], ps[5], 9));
    lemma_join_contains(ls, "\n"@, 7, ps[5]);
    reveal_strlit("{{summary}}");
    assert(ls[10].subrange(0, ps[6].len() as int) =~= ps[6]);
    assert(occurs_at(ls[10], ps[6], 0));
    lemma_join_contains(ls, "\n"@, 10, ps[6]);
    reveal_strlit("{{tool_overview}}");
    assert(ls[13].subrange(0, ps[7].len() as int) =~= ps[7]);
    assert(occurs_at(ls[13], ps[7], 0));
    lemma_join_contains(ls, "\n"@, 13, ps[7]);
    reveal_strlit("{{findings_table}}");
    assert(ls[16].subrange(0, ps[8].len() as int) =~= ps[8]);
    assert(occurs_at(ls[16], ps[8], 0));
    lemma_join_contains(ls, "\n"@, 16, ps[8]);
}

// ---------------------------------------------------------------------------
// Defaults and normalisation
// ---------------------------------------------------------------------------

impl Default for SandboxConfig {
    /// The strong profile, 900 seconds, network allowed, writes to reports only.
    fn default() -> (r: SandboxConfig)
        ensures
            r.profile@ == "strong"@,
            r.max_runtime_seconds == 900,
            r.allow_network,
            r.writable_reports_only,
    {
        SandboxConfig {
            profile: string_from("strong"),
            max_runtime_seconds: 900,
            allow_network: true,
            writable_reports_only: true,
        }
    }
}

impl Default for AppConfig {
    /// The current version, install mode `both`, the default template, the
    /// default sandbox, the built-in tools and the built-in knowledge topics.
    fn default() -> (r: AppConfig)
        ensures
            r.version@ == TOROT_VERSION@,
            r.install_mode@ == "both"@,
            r.default_report_template@ == default_template(),
            r.sandbox.profile@ == "strong"@,
            r.sandbox.max_runtime_seconds == 900,
            r.sandbox.allow_network,
            r.sandbox.writable_reports_only,
            profile_views(r.tools@) == builtin_views(),
            strs(r.knowledge_topics@) == knowledge_topics_spec(),
    {
        AppConfig {
            version: string_from(TOROT_VERSION),
            install_mode: string_from("both"),
            default_report_template: default_report_template(),
            sandbox: SandboxConfig::default(),
            tools: builtin_tools(),
            knowledge_topics: builtin_knowledge_topics(),
        }
    }
}

/// A configuration read from storage, brought up to date: the current
/// version, the tools merged with the built-in table, the default template
/// where the stored one is blank, and the built-in topics where none are
/// stored. Everything else is kept.
pub fn normalize_config(parsed: AppConfig) -> (r: AppConfig)
    ensures
        r.version@ == TOROT_VERSION@,
        profile_views(r.tools@) == merged_tools(profile_views(parsed.tools@)),
        r.default_report_template@ == (if blank(parsed.default_report_template@) {
            default_template()
        } else {
            parsed.default_report_template@
        }),
        strs(r.knowledge_topics@) == (if parsed.knowledge_topics@.len() == 0 {
            knowledge_topics_spec()
        } else {
            strs(parsed.knowledge_topics@)
        }),
        r.install_mode == parsed.install_mode,
        r.sandbox == parsed.sandbox,
{
    let mut parsed = parsed;
    parsed.version = string_from(TOROT_VERSION);
    let mut tools: Vec<ToolProfile> = Vec::new();
    std::mem::swap(&mut tools, &mut parsed.tools);
    parsed.tools = merge_builtin_tools(tools);
    if is_blank(&parsed.default_report_template) {
        parsed.default_report_template = default_report_template();
    }
    if parsed.knowledge_topics.len() == 0 {
        parsed.knowledge_topics = builtin_knowledge_topics();
    }
    parsed
}

/// Settings about to be saved: the current version and the tools merged
/// with the built-in table; everything else as given.
pub fn prepare_settings(config: AppConfig) -> (r: AppConfig)
    ensures
        r.version@ == TOROT_VERSION@,
        profile_views(r.tools@) == merged_tools(profile_views(config.tools@)),
        r.install_mode == config.install_mode,
        r.default_report_template == config.default_report_template,
        r.sandbox == config.sandbox,
        r.knowledge_topics == config.knowledge_topics,
{
    let mut merged = config;
    merged.version = string_from(TOROT_VERSION);
    let mut tools: Vec<ToolProfile> = Vec::new();
    std::mem::swap(&mut tools, &mut merged.tools);
    merged.tools = merge_builtin_tools(tools);
    merged
}

/// What the front end shows about the application.
pub fn app_info(config: &AppConfig) -> (r: AppInfo)
    ensures
        r.version@ == TOROT_VERSION@,
        r.install_mode == config.install_mode,
        r.cli_supported,
        strs(r.knowledge_topics@) == strs(config.knowledge_topics@),
        strs(r.report_template_placeholders@) == placeholders_spec(),
{
    let topics = copy_strings(&config.knowledge_topics);
    AppInfo {
        version: string_from(TOROT_VERSION),
        install_mode: config.install_mode.clone(),
        cli_supported: true,
        knowledge_topics: topics,
        report_template_placeholders: report_placeholders(),
    }
}

/// The profile a user entered, as stored: name, domain and description
/// trimmed, a blank path override dropped, source `custom`, auto-detected,
/// timeout at least 30 seconds.
pub open spec fn profile_from_input(
    name: Seq<char>,
    domain: Seq<char>,
    description: Seq<char>,
    binary_names: Seq<Seq<char>>,
    path_override: Option<Seq<char>>,
    args: Seq<Seq<char>>,
    version_args: Seq<Seq<char>>,
    install_hint: Seq<char>,
    output_format: Seq<char>,
    input_kinds: Seq<Seq<char>>,
    enabled: bool,
    timeout_seconds: u64,
    capabilities: Seq<Seq<char>>,
    knowledge: Seq<Seq<char>>,
) -> ToolProfileView {
    ToolProfileView {
        name: trim(name),
        domain: trim(domain),
        description: trim(description),
        binary_names,
        path_override: match path_override {
            Some(p) => if blank(p) {
                None
            } else {
                Some(p)
            },
            None => None,
        },
        args,
        version_args,
        install_hint,
        output_format,
        input_kinds,
        source: "custom"@,
        auto_detect: true,
        enabled,
        timeout_seconds: if timeout_seconds >= 30 {
            timeout_seconds
        } else {
            30
        },
        capabilities,
        knowledge,
    }
}

/// The stored profile for what a user entered.
pub open spec fn input_view(i: ToolProfileInput) -> ToolProfileView {
    profile_from_input(
        i.name@,
        i.domain@,
        i.description@,
        strs(i.binary_names@),
        opt_str(i.path_override),
        strs(i.args@),
        strs(i.version_args@),
        i.install_hint@,
        i.output_format@,
        strs(i.input_kinds@),
        i.enabled,
        i.timeout_seconds,
        strs(i.capabilities@),
        strs(i.knowledge@),
    )
}

/// `tools` with `t` in place of the first profile of the same name, or
/// with `t` appended.
pub open spec fn upsert(tools: Seq<ToolProfileView>, t: ToolProfileView) -> Seq<ToolProfileView> {
    match find_name(tools, t.name) {
        Some(k) => tools.update(k, t),
        None => tools.push(t),
    }
}

fn trimmed_string(s: &String) -> (r: String)
    ensures
        r@ == trim(s@),
{
    let c = chars_of(s.as_str());
    let t = trim_exec(&c);
    string_of(&t)
}

/// The stored profile for what a user entered.
pub fn tool_from_input(input: &ToolProfileInput) -> (r: ToolProfile)
    ensures
        r@ == input_view(*input),
{
    let path_override = match &input.path_override {
        Some(p) => if is_blank(p) {
            None
        } else {
            Some(p.clone())
        },
        None => None,
    };
    let r = ToolProfile {
        name: trimmed_string(&input.name),
        domain: trimmed_string(&input.domain),
        description: trimmed_string(&input.description),
        binary_names: copy_strings(&input.binary_names),
        path_override,
        args: copy_strings(&input.args),
        version_args: copy_strings(&input.version_args),
        install_hint: input.install_hint.clone(),
        output_format: input.output_format.clone(),
        input_kinds: copy_strings(&input.input_kinds),
        source: string_from("custom"),
        auto_detect: true,
        enabled: input.enabled,
        timeout_seconds: if input.timeout_seconds >= 30 {
            input.timeout_seconds
        } else {
            30
        },
        capabilities: copy_strings(&input.capabilities),
        knowledge: copy_strings(&input.knowledge),
    };
    assert(r@ =~~= input_view(*input));
    r
}

/// The configuration with a user-entered tool profile saved: it replaces
/// the stored profile of the same name (or is added), and the tool list is
/// merged with the built-in table again.
pub fn apply_tool_profile(config: AppConfig, input: &ToolProfileInput) -> (r: AppConfig)
    ensures
        profile_views(r.tools@) == merged_tools(upsert(profile_views(config.tools@), input_view(*input))),
        profile_names(profile_views(r.tools@)).contains(trim(input.name@)),
        r.version == config.version,
        r.install_mode == config.install_mode,
        r.default_report_template == config.default_report_template,
        r.sandbox == config.sandbox,
        r.knowledge_topics == config.knowledge_topics,
{
    let mut config = config;
    let tool = tool_from_input(input);
    let ghost tv = profile_views(config.tools@);
    match find_by_name(&config.tools, &tool.name) {
        Some(k) => {
            proof {
                lemma_find_name(tv, tool.name@);
            }
            config.tools.set(k, tool);
            assert(profile_views(config.tools@) =~= tv.update(k as int, input_view(*input)));
        },
        None => {
            config.tools.push(tool);
            assert(profile_views(config.tools@) =~= tv.push(input_view(*input)));
        },
    }
    let mut tools: Vec<ToolProfile> = Vec::new();
    std::mem::swap(&mut tools, &mut config.tools);
    let ghost stored = profile_views(tools@);
    let ghost at: int = match find_name(tv, input_view(*input).name) {
        Some(k) => k,
        None => tv.len() as int,
    };
    assert(stored[at] == input_view(*input));
    config.tools = merge_builtin_tools(tools);
    proof {
        let m = merge_all(builtin_views(), stored);
        let rv = profile_views(config.tools@);
        lemma_merge_all_has_names(builtin_views(), stored);
        assert(profile_names(m).contains(stored[at].name));
        let j = choose|j: int| 0 <= j < profile_names(m).len() && profile_names(m)[j] == stored[at].name;
        assert(m.contains(m[j]));
        assert(rv.contains(m[j]));
        let q = choose|q: int| 0 <= q < rv.len() && rv[q] == m[j];
        assert(profile_names(rv)[q] == trim(input.name@));
    }
    config
}

} // verus!
