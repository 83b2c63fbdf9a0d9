//! Turning raw tool output into findings, and summarising findings.
use vstd::prelude::*;
use crate::base::types::{core_of, cores, new_core, Finding, FindingSpec, ToolProfile};
use crate::json::{
    json_as_array, json_as_bool, json_as_str, json_as_u64, json_get, json_get_opt,
    parse_json_text, spec_parse_json, Json,
};
use crate::text::{
    chars_eq, chars_of, contains, contains_chars, decimal, decimal_chars, join, join_exec, lex_lt,
    lex_lt_exec, replace_char, replace_str, views, contains_str, extend, extend_str, lines, lines_exec, spec_to_lowercase,
    all_ascii, ascii_lower,
    spec_to_uppercase, starts_with, starts_with_str, str_eq, string_from, string_of, take_chars,
    take_prefix, to_lowercase, to_uppercase, trim, trim_exec, utf8_len, utf8_len_exceeds,
};

verus! {

// ---------------------------------------------------------------------------
// Severities
// ---------------------------------------------------------------------------

/// Rank of a severity name: CRITICAL 0, HIGH 1, MEDIUM 2, LOW 3, anything
/// else 4.
pub open spec fn rank_of(s: Seq<char>) -> u8 {
    if s == "CRITICAL"@ {
        0
    } else if s == "HIGH"@ {
        1
    } else if s == "MEDIUM"@ {
        2
    } else if s == "LOW"@ {
        3
    } else {
        4
    }
}

/// The severity that a line of text suggests, given its lowercase form.
pub open spec fn severity_of_lower(lower: Seq<char>) -> Seq<char> {
    if contains(lower, "critical"@) {
        "CRITICAL"@
    } else if contains(lower, " high"@) || starts_with(lower, "high"@) || contains(lower, "error"@)
        || contains(lower, "rce"@) {
        "HIGH"@
    } else if contains(lower, "medium"@) || contains(lower, "warning"@) || contains(lower, "warn"@) {
        "MEDIUM"@
    } else if contains(lower, "low"@) {
        "LOW"@
    } else {
        "INFO"@
    }
}

/// The severity that a line of text suggests.
pub open spec fn severity_of_text(text: Seq<char>) -> Seq<char> {
    severity_of_lower(spec_to_lowercase(text))
}

/// Rank of a severity name (0 = most severe).
pub fn severity_rank(value: &str) -> (r: u8)
    ensures
        r == rank_of(value@),
        r <= 4,
{
    if str_eq(value, "CRITICAL") {
        0
    } else if str_eq(value, "HIGH") {
        1
    } else if str_eq(value, "MEDIUM") {
        2
    } else if str_eq(value, "LOW") {
        3
    } else {
        4
    }
}

/// The severity name that a lowercase line of text suggests.
pub fn severity_from_lower(lower: &Vec<char>) -> (r: &'static str)
    ensures
        r@ == severity_of_lower(lower@),
{
    if contains_str(lower, "critical") {
        "CRITICAL"
    } else if contains_str(lower, " high") || starts_with_str(lower, "high") || contains_str(
        lower,
        "error",
    ) || contains_str(lower, "rce") {
        "HIGH"
    } else if contains_str(lower, "medium") || contains_str(lower, "warning") || contains_str(
        lower,
        "warn",
    ) {
        "MEDIUM"
    } else if contains_str(lower, "low") {
        "LOW"
    } else {
        "INFO"
    }
}

/// The severity name that a line of text suggests, judged on its lowercase
/// form; for ASCII text that form is the ASCII lowercasing.
pub fn severity_from_text(text: &str) -> (r: &'static str)
    ensures
        r@ == severity_of_text(text@),
        all_ascii(text@) ==> r@ == severity_of_lower(ascii_lower(text@)),
{
    let chars = chars_of(text);
    let lower = to_lowercase(&chars);
    severity_from_lower(&lower)
}

// ---------------------------------------------------------------------------
// Plain-text output
// ---------------------------------------------------------------------------

/// Whether a lowercase line mentions one of the words that mark a line of
/// plain-text output as a finding.
pub open spec fn has_keyword(lower: Seq<char>) -> bool {
    ||| contains(lower, "critical"@)
    ||| contains(lower, "high"@)
    ||| contains(lower, "medium"@)
    ||| contains(lower, "warning"@)
    ||| contains(lower, "error"@)
    ||| contains(lower, "exposed"@)
    ||| contains(lower, "vulnerable"@)
    ||| contains(lower, "sql injection"@)
    ||| contains(lower, "xss"@)
    ||| contains(lower, "ssrf"@)
    ||| contains(lower, "takeover"@)
    ||| contains(lower, "open port"@)
    ||| contains(lower, "directory listing"@)
    ||| contains(lower, "default credentials"@)
    ||| contains(lower, "secret"@)
    ||| contains(lower, "token"@)
}

/// Fix suggested for SQL injection findings in plain-text output.
pub open spec fn sqli_fix() -> Seq<char> {
    "Validate the injection manually and move the affected parameter to prepared statements."@
}

/// Impact stated for SQL injection findings in plain-text output.
pub open spec fn sqli_impact() -> Seq<char> {
    "Potential database read/write compromise."@
}

/// The finding that one trimmed line of plain-text output gives, if any,
/// judged on its lowercase form `lower`: the line must take at least 8
/// bytes and mention a keyword.
pub open spec fn text_line_finding_lowered(
    session_id: Seq<char>,
    name: Seq<char>,
    domain: Seq<char>,
    text: Seq<char>,
    lower: Seq<char>,
) -> Option<FindingSpec> {
    if utf8_len(text) < 8 || !has_keyword(lower) {
        None
    } else {
        let sqli = contains(lower, "sql injection"@);
        Some(
            FindingSpec {
                domain,
                description: text,
                fix_suggestion: if sqli {
                    sqli_fix()
                } else {
                    Seq::empty()
                },
                impact: if sqli {
                    sqli_impact()
                } else {
                    Seq::empty()
                },
                ..new_core(
                    session_id,
                    name,
                    "["@ + name + "] "@ + take_chars(text, 80),
                    severity_of_lower(lower),
                )
            },
        )
    }
}

/// The finding that one line of plain-text output gives, if any: the
/// trimmed line must take at least 8 bytes and mention a keyword.
pub open spec fn text_line_finding(
    session_id: Seq<char>,
    name: Seq<char>,
    domain: Seq<char>,
    line: Seq<char>,
) -> Option<FindingSpec> {
    text_line_finding_lowered(session_id, name, domain, trim(line), spec_to_lowercase(trim(line)))
}

/// `text_line_finding` for a line whose lowercase form is its ASCII
/// lowercasing.
pub open spec fn text_line_finding_ascii(
    session_id: Seq<char>,
    name: Seq<char>,
    domain: Seq<char>,
    line: Seq<char>,
) -> Option<FindingSpec> {
    text_line_finding_lowered(session_id, name, domain, trim(line), ascii_lower(trim(line)))
}

/// The one-or-none sequence of an optional finding.
pub open spec fn opt_seq(o: Option<FindingSpec>) -> Seq<FindingSpec> {
    match o {
        Some(x) => seq![x],
        None => Seq::empty(),
    }
}

/// The findings of the given lines of plain-text output, in line order.
pub open spec fn text_findings(
    session_id: Seq<char>,
    name: Seq<char>,
    domain: Seq<char>,
    ls: Seq<Seq<char>>,
) -> Seq<FindingSpec>
    decreases ls.len(),
{
    if ls.len() == 0 {
        Seq::empty()
    } else {
        text_findings(session_id, name, domain, ls.drop_last()) + opt_seq(
            text_line_finding(session_id, name, domain, ls.last()),
        )
    }
}

/// `text_findings` for output whose lines are lowercased as ASCII.
pub open spec fn text_findings_ascii(
    session_id: Seq<char>,
    name: Seq<char>,
    domain: Seq<char>,
    ls: Seq<Seq<char>>,
) -> Seq<FindingSpec>
    decreases ls.len(),
{
    if ls.len() == 0 {
        Seq::empty()
    } else {
        text_findings_ascii(session_id, name, domain, ls.drop_last()) + opt_seq(
            text_line_finding_ascii(session_id, name, domain, ls.last()),
        )
    }
}

pub proof fn lemma_cores_push(s: Seq<Finding>, f: Finding)
    ensures
        cores(s.push(f)) == cores(s).push(core_of(f)),
{
    assert(cores(s.push(f)) =~= cores(s).push(core_of(f)));
}

/// Whether a lowercase line mentions one of the finding keywords.
fn has_keyword_exec(lower: &Vec<char>) -> (b: bool)
    ensures
        b == has_keyword(lower@),
{
    contains_str(lower, "critical") || contains_str(lower, "high") || contains_str(lower, "medium")
        || contains_str(lower, "warning") || contains_str(lower, "error") || contains_str(
        lower,
        "exposed",
    ) || contains_str(lower, "vulnerable") || contains_str(lower, "sql injection")
        || contains_str(lower, "xss") || contains_str(lower, "ssrf") || contains_str(
        lower,
        "takeover",
    ) || contains_str(lower, "open port") || contains_str(lower, "directory listing")
        || contains_str(lower, "default credentials") || contains_str(lower, "secret")
        || contains_str(lower, "token")
}

/// The finding that one line of plain-text output gives, if any.
fn text_line_to_finding(session_id: &str, profile: &ToolProfile, line: &Vec<char>) -> (r: Option<
    Finding,
>)
    ensures
        match r {
            Some(f) => text_line_finding(session_id@, profile.name@, profile.domain@, line@) == Some(
                core_of(f),
            ),
            None => text_line_finding(session_id@, profile.name@, profile.domain@, line@) is None,
        },
        all_ascii(trim(line@)) ==> text_line_finding(session_id@, profile.name@, profile.domain@, line@)
            == text_line_finding_ascii(session_id@, profile.name@, profile.domain@, line@),
{
    let text = trim_exec(line);
    if !utf8_len_exceeds(&text, 7) {
        return None;
    }
    let lower = to_lowercase(&text);
    if !has_keyword_exec(&lower) {
        return None;
    }
    let mut title = chars_of("[");
    extend_str(&mut title, profile.name.as_str());
    extend_str(&mut title, "] ");
    let head = take_prefix(&text, 80);
    extend(&mut title, &head);
    let title_s = string_of(&title);
    let severity = severity_from_lower(&lower);
    let mut f = Finding::new(session_id, profile.name.as_str(), title_s.as_str(), severity);
    f.domain = profile.domain.clone();
    f.description = string_of(&text);
    if contains_str(&lower, "sql injection") {
        f.fix_suggestion = string_from(
            "Validate the injection manually and move the affected parameter to prepared statements.",
        );
        f.impact = string_from("Potential database read/write compromise.");
    }
    Some(f)
}

/// Findings from plain-text output: one per line that, trimmed, takes at
/// least 8 bytes and mentions a finding keyword.
pub fn parse_text(session_id: &str, profile: &ToolProfile, output: &str) -> (r: Vec<Finding>)
    ensures
        cores(r@) == text_findings(session_id@, profile.name@, profile.domain@, lines(output@)),
        all_ascii(output@) ==> cores(r@) == text_findings_ascii(
            session_id@,
            profile.name@,
            profile.domain@,
            lines(output@),
        ),
{
    let text = chars_of(output);
    let ls = lines_exec(&text);
    let ghost lv = crate::text::views(ls@);
    let mut out: Vec<Finding> = Vec::new();
    let mut i: usize = 0;
    assert(lv.take(0) =~= Seq::<Seq<char>>::empty());
    while i < ls.len()
        invariant
            i <= ls.len(),
            lv == crate::text::views(ls@),
            lv == lines(output@),
            cores(out@) == text_findings(session_id@, profile.name@, profile.domain@, lv.take(i as int)),
            all_ascii(output@) ==> cores(out@) == text_findings_ascii(
                session_id@,
                profile.name@,
                profile.domain@,
                lv.take(i as int),
            ),
        decreases ls.len() - i,
    {
        let r = text_line_to_finding(session_id, profile, &ls[i]);
        proof {
            if all_ascii(output@) {
                crate::text::lemma_ascii_lines(output@);
                assert(all_ascii(lv[i as int]));
                crate::text::lemma_ascii_trim(lv[i as int]);
            }
        }
        assert(lv.take(i + 1).drop_last() =~= lv.take(i as int));
        assert(lv.take(i + 1).last() == ls@[i as int]@);
        match r {
            Some(f) => {
                proof {
                    lemma_cores_push(out@, f);
                }
                out.push(f);
            },
            None => {
                assert(opt_seq(None) =~= Seq::<FindingSpec>::empty());
            },
        }
        assert(cores(out@) =~= text_findings(session_id@, profile.name@, profile.domain@, lv.take(i + 1)));
        proof {
            if all_ascii(output@) {
                assert(cores(out@) =~= text_findings_ascii(
                    session_id@,
                    profile.name@,
                    profile.domain@,
                    lv.take(i + 1),
                ));
            }
        }
        i = i + 1;
    }
    assert(lv.take(ls.len() as int) =~= lv);
    out
}

// ---------------------------------------------------------------------------
// JSON output
// ---------------------------------------------------------------------------

/// The text held, or `d` when there is none.
pub open spec fn str_or(o: Option<Seq<char>>, d: Seq<char>) -> Seq<char> {
    match o {
        Some(s) => s,
        None => d,
    }
}

/// The text at `key` of `v`, if it is a string.
pub open spec fn str_at(v: Json, key: Seq<char>) -> Option<Seq<char>> {
    json_as_str(json_get(v, key))
}

/// The text at `k1`/`k2` of `v`, if it is a string.
pub open spec fn str_at2(v: Json, k1: Seq<char>, k2: Seq<char>) -> Option<Seq<char>> {
    json_as_str(json_get_opt(json_get(v, k1), k2))
}

/// A line number read with `as_u64`, narrowed to `u32` as `as u32` does;
/// 0 when absent.
pub open spec fn line_of(n: Option<u64>) -> u32 {
    match n {
        Some(x) => x as u32,
        None => 0,
    }
}

/// A nuclei JSON line: one finding when it has an `info` member.
pub open spec fn nuclei_findings(
    session_id: Seq<char>,
    name: Seq<char>,
    domain: Seq<char>,
    value: Json,
) -> Seq<FindingSpec> {
    match json_get(value, "info"@) {
        Some(info) => {
            let severity = match str_at(info, "severity"@) {
                Some(s) => spec_to_uppercase(s),
                None => "INFO"@,
            };
            let title = "[nuclei] "@ + str_or(str_at(info, "name"@), "template hit"@);
            seq![
                FindingSpec {
                    domain,
                    description: str_or(str_at(info, "description"@), Seq::empty()),
                    file: str_or(str_at(value, "matched-at"@), Seq::empty()),
                    ..new_core(session_id, name, title, severity)
                },
            ]
        },
        None => Seq::empty(),
    }
}

/// Severity of one semgrep result.
pub open spec fn semgrep_severity(result: Json) -> Seq<char> {
    match str_at2(result, "extra"@, "severity"@) {
        Some(s) => if s == "ERROR"@ {
            "HIGH"@
        } else if s == "WARNING"@ {
            "MEDIUM"@
        } else {
            "LOW"@
        },
        None => "INFO"@,
    }
}

/// The finding of one semgrep result.
pub open spec fn semgrep_finding(
    session_id: Seq<char>,
    name: Seq<char>,
    domain: Seq<char>,
    result: Json,
) -> FindingSpec {
    FindingSpec {
        domain,
        description: str_or(str_at2(result, "extra"@, "message"@), Seq::empty()),
        file: str_or(str_at(result, "path"@), Seq::empty()),
        line: line_of(json_as_u64(json_get_opt(json_get(result, "start"@), "line"@))),
        ..new_core(
            session_id,
            name,
            "[semgrep] "@ + str_or(str_at(result, "check_id"@), "rule"@),
            semgrep_severity(result),
        )
    }
}

/// A semgrep JSON report: one finding per entry of `results`.
pub open spec fn semgrep_findings(
    session_id: Seq<char>,
    name: Seq<char>,
    domain: Seq<char>,
    value: Json,
) -> Seq<FindingSpec> {
    match json_as_array(json_get(value, "results"@)) {
        Some(rs) => Seq::new(rs.len(), |i: int| semgrep_finding(session_id, name, domain, rs[i])),
        None => Seq::empty(),
    }
}

/// Fix suggested for leaked secrets.
pub open spec fn secret_fix() -> Seq<char> {
    "Rotate the credential, remove it from source control, and move it to a secret manager."@
}

/// The finding of one gitleaks item.
pub open spec fn gitleaks_finding(
    session_id: Seq<char>,
    name: Seq<char>,
    domain: Seq<char>,
    item: Json,
) -> FindingSpec {
    FindingSpec {
        domain,
        description: str_or(str_at(item, "Description"@), "Potential secret exposure"@),
        file: str_or(str_at(item, "File"@), Seq::empty()),
        line: line_of(json_as_u64(json_get(item, "StartLine"@))),
        fix_suggestion: secret_fix(),
        ..new_core(session_id, name, "[gitleaks] secret exposure"@, "HIGH"@)
    }
}

/// A gitleaks JSON report: one finding per item of the top-level array.
pub open spec fn gitleaks_findings(
    session_id: Seq<char>,
    name: Seq<char>,
    domain: Seq<char>,
    value: Json,
) -> Seq<FindingSpec> {
    match json_as_array(Some(value)) {
        Some(items) => Seq::new(
            items.len(),
            |i: int| gitleaks_finding(session_id, name, domain, items[i]),
        ),
        None => Seq::empty(),
    }
}

/// A trufflehog JSON line: one finding when it names a detector or source;
/// CRITICAL when the secret was verified.
pub open spec fn trufflehog_findings(
    session_id: Seq<char>,
    name: Seq<char>,
    domain: Seq<char>,
    value: Json,
) -> Seq<FindingSpec> {
    if json_get(value, "SourceMetadata"@) is Some || json_get(value, "DetectorName"@) is Some {
        let verified = json_as_bool(json_get(value, "Verified"@)) == Some(true);
        seq![
            FindingSpec {
                domain,
                description: "Detector: "@ + str_or(str_at(value, "DetectorName"@), "unknown"@),
                ..new_core(
                    session_id,
                    name,
                    "[trufflehog] possible secret exposure"@,
                    if verified {
                        "CRITICAL"@
                    } else {
                        "HIGH"@
                    },
                )
            },
        ]
    } else {
        Seq::empty()
    }
}

/// The address that a discovery tool's JSON line names: `url`, else
/// `host`, else `name`.
pub open spec fn discovered(value: Json) -> Option<Seq<char>> {
    match str_at(value, "url"@) {
        Some(u) => Some(u),
        None => match str_at(value, "host"@) {
            Some(h) => Some(h),
            None => str_at(value, "name"@),
        },
    }
}

/// A discovery tool's JSON line: one INFO finding naming what was found.
pub open spec fn discovery_findings(
    session_id: Seq<char>,
    name: Seq<char>,
    domain: Seq<char>,
    value: Json,
) -> Seq<FindingSpec> {
    match discovered(value) {
        Some(u) => seq![
            FindingSpec {
                domain,
                description: u,
                ..new_core(session_id, name, "["@ + name + "] discovery"@, "INFO"@)
            },
        ],
        None => Seq::empty(),
    }
}

/// Whether the tool reports discoveries (hosts, URLs) as JSON lines.
pub open spec fn is_discovery_tool(name: Seq<char>) -> bool {
    name == "httpx"@ || name == "subfinder"@ || name == "amass"@ || name == "katana"@
}

/// The findings that a JSON document from the named tool gives.
pub open spec fn json_findings(
    session_id: Seq<char>,
    name: Seq<char>,
    domain: Seq<char>,
    value: Json,
) -> Seq<FindingSpec> {
    if name == "nuclei"@ {
        nuclei_findings(session_id, name, domain, value)
    } else if name == "semgrep"@ {
        semgrep_findings(session_id, name, domain, value)
    } else if name == "gitleaks"@ {
        gitleaks_findings(session_id, name, domain, value)
    } else if name == "trufflehog"@ {
        trufflehog_findings(session_id, name, domain, value)
    } else if is_discovery_tool(name) {
        discovery_findings(session_id, name, domain, value)
    } else {
        Seq::empty()
    }
}

/// The string at `key` of `v`, if there is one.
fn get_str<'a>(v: &'a Json, key: &str) -> (r: Option<&'a String>)
    ensures
        match r {
            Some(s) => str_at(*v, key@) == Some(s@),
            None => str_at(*v, key@) is None,
        },
{
    match v.get(key) {
        Some(x) => x.as_str(),
        None => None,
    }
}

/// The string at `k1`/`k2` of `v`, if there is one.
fn get_str2<'a>(v: &'a Json, k1: &str, k2: &str) -> (r: Option<&'a String>)
    ensures
        match r {
            Some(s) => str_at2(*v, k1@, k2@) == Some(s@),
            None => str_at2(*v, k1@, k2@) is None,
        },
{
    match v.get(k1) {
        Some(x) => get_str(x, k2),
        None => None,
    }
}

/// The text held, or the literal `d`.
fn or_default(o: Option<&String>, d: &str) -> (r: String)
    ensures
        r@ == str_or(
            match o {
                Some(s) => Some(s@),
                None => None,
            },
            d@,
        ),
{
    match o {
        Some(s) => s.clone(),
        None => string_from(d),
    }
}

/// The text held, or empty.
fn or_empty(o: Option<&String>) -> (r: String)
    ensures
        r@ == str_or(
            match o {
                Some(s) => Some(s@),
                None => None,
            },
            Seq::empty(),
        ),
{
    match o {
        Some(s) => s.clone(),
        None => String::new(),
    }
}

/// Narrows an optional line number as `unwrap_or(0) as u32` does.
fn line_exec(n: Option<u64>) -> (r: u32)
    ensures
        r == line_of(n),
{
    match n {
        Some(x) => x as u32,
        None => 0,
    }
}

fn parse_nuclei_json(session_id: &str, profile: &ToolProfile, value: &Json, findings: &mut Vec<
    Finding,
>)
    ensures
        cores(final(findings)@) == cores(old(findings)@) + nuclei_findings(
            session_id@,
            profile.name@,
            profile.domain@,
            *value,
        ),
{
    if let Some(info) = value.get("info") {
        let severity = match get_str(info, "severity") {
            Some(s) => {
                let sc = chars_of(s.as_str());
                let up = to_uppercase(&sc);
                string_of(&up)
            },
            None => string_from("INFO"),
        };
        let mut title = chars_of("[nuclei] ");
        let nm = or_default(get_str(info, "name"), "template hit");
        extend_str(&mut title, nm.as_str());
        let title_s = string_of(&title);
        let mut finding = Finding::new(
            session_id,
            profile.name.as_str(),
            title_s.as_str(),
            severity.as_str(),
        );
        finding.domain = profile.domain.clone();
        finding.description = or_empty(get_str(info, "description"));
        finding.file = or_empty(get_str(value, "matched-at"));
        proof {
            lemma_cores_push(findings@, finding);
        }
        findings.push(finding);
    } else {
        assert(cores(findings@) + Seq::<FindingSpec>::empty() =~= cores(findings@));
    }
}

fn semgrep_result(session_id: &str, profile: &ToolProfile, result: &Json) -> (f: Finding)
    ensures
        core_of(f) == semgrep_finding(session_id@, profile.name@, profile.domain@, *result),
{
    let severity: &str = match get_str2(result, "extra", "severity") {
        Some(s) => {
            if str_eq(s.as_str(), "ERROR") {
                "HIGH"
            } else if str_eq(s.as_str(), "WARNING") {
                "MEDIUM"
            } else {
                "LOW"
            }
        },
        None => "INFO",
    };
    let mut title = chars_of("[semgrep] ");
    let check = or_default(get_str(result, "check_id"), "rule");
    extend_str(&mut title, check.as_str());
    let title_s = string_of(&title);
    let mut finding = Finding::new(session_id, profile.name.as_str(), title_s.as_str(), severity);
    finding.domain = profile.domain.clone();
    finding.description = or_empty(get_str2(result, "extra", "message"));
    finding.file = or_empty(get_str(result, "path"));
    let line = match result.get("start") {
        Some(st) => match st.get("line") {
            Some(l) => l.as_u64(),
            None => None,
        },
        None => None,
    };
    finding.line = line_exec(line);
    finding
}

fn parse_semgrep_json(session_id: &str, profile: &ToolProfile, value: &Json, findings: &mut Vec<
    Finding,
>)
    ensures
        cores(final(findings)@) == cores(old(findings)@) + semgrep_findings(
            session_id@,
            profile.name@,
            profile.domain@,
            *value,
        ),
{
    let results = match value.get("results") {
        Some(r) => r.as_array(),
        None => None,
    };
    match results {
        Some(rs) => {
            let ghost base = cores(findings@);
            let ghost want = semgrep_findings(session_id@, profile.name@, profile.domain@, *value);
            let mut i: usize = 0;
            while i < rs.len()
                invariant
                    i <= rs.len(),
                    want == Seq::new(
                        rs@.len(),
                        |k: int| semgrep_finding(session_id@, profile.name@, profile.domain@, rs@[k]),
                    ),
                    cores(findings@) == base + want.take(i as int),
                decreases rs.len() - i,
            {
                let f = semgrep_result(session_id, profile, &rs[i]);
                proof {
                    lemma_cores_push(findings@, f);
                    assert(want.take(i + 1) =~= want.take(i as int).push(core_of(f)));
                }
                findings.push(f);
                i = i + 1;
            }
            assert(want.take(rs.len() as int) =~= want);
        },
        None => {
            assert(cores(findings@) + Seq::<FindingSpec>::empty() =~= cores(findings@));
        },
    }
}

fn gitleaks_item(session_id: &str, profile: &ToolProfile, item: &Json) -> (f: Finding)
    ensures
        core_of(f) == gitleaks_finding(session_id@, profile.name@, profile.domain@, *item),
{
    let mut finding = Finding::new(
        session_id,
        profile.name.as_str(),
        "[gitleaks] secret exposure",
        "HIGH",
    );
    finding.domain = profile.domain.clone();
    finding.description = or_default(get_str(item, "Description"), "Potential secret exposure");
    finding.file = or_empty(get_str(item, "File"));
    let line = match item.get("StartLine") {
        Some(l) => l.as_u64(),
        None => None,
    };
    finding.line = line_exec(line);
    finding.fix_suggestion = string_from(
        "Rotate the credential, remove it from source control, and move it to a secret manager.",
    );
    finding
}

fn parse_gitleaks_json(session_id: &str, profile: &ToolProfile, value: &Json, findings: &mut Vec<
    Finding,
>)
    ensures
        cores(final(findings)@) == cores(old(findings)@) + gitleaks_findings(
            session_id@,
            profile.name@,
            profile.domain@,
            *value,
        ),
{
    match value.as_array() {
        Some(items) => {
            let ghost base = cores(findings@);
            let ghost want = gitleaks_findings(session_id@, profile.name@, profile.domain@, *value);
            let mut i: usize = 0;
            while i < items.len()
                invariant
                    i <= items.len(),
                    want == Seq::new(
                        items@.len(),
                        |k: int| gitleaks_finding(session_id@, profile.name@, profile.domain@, items@[k]),
                    ),
                    cores(findings@) == base + want.take(i as int),
                decreases items.len() - i,
            {
                let f = gitleaks_item(session_id, profile, &items[i]);
                proof {
                    lemma_cores_push(findings@, f);
                    assert(want.take(i + 1) =~= want.take(i as int).push(core_of(f)));
                }
                findings.push(f);
                i = i + 1;
            }
            assert(want.take(items.len() as int) =~= want);
        },
        None => {
            assert(cores(findings@) + Seq::<FindingSpec>::empty() =~= cores(findings@));
        },
    }
}

fn parse_trufflehog_json(
    session_id: &str,
    profile: &ToolProfile,
    value: &Json,
    findings: &mut Vec<Finding>,
)
    ensures
        cores(final(findings)@) == cores(old(findings)@) + trufflehog_findings(
            session_id@,
            profile.name@,
            profile.domain@,
            *value,
        ),
{
    let verified = match value.get("Verified") {
        Some(v) => match v.as_bool() {
            Some(b) => b,
            None => false,
        },
        None => false,
    };
    if value.get("SourceMetadata").is_some() || value.get("DetectorName").is_some() {
        let mut finding = Finding::new(
            session_id,
            profile.name.as_str(),
            "[trufflehog] possible secret exposure",
            if verified {
                "CRITICAL"
            } else {
                "HIGH"
            },
        );
        finding.domain = profile.domain.clone();
        let mut desc = chars_of("Detector: ");
        let det = or_default(get_str(value, "DetectorName"), "unknown");
        extend_str(&mut desc, det.as_str());
        finding.description = string_of(&desc);
        proof {
            lemma_cores_push(findings@, finding);
        }
        findings.push(finding);
    } else {
        assert(cores(findings@) + Seq::<FindingSpec>::empty() =~= cores(findings@));
    }
}

fn parse_discovery_json(
    session_id: &str,
    profile: &ToolProfile,
    value: &Json,
    findings: &mut Vec<Finding>,
)
    ensures
        cores(final(findings)@) == cores(old(findings)@) + discovery_findings(
            session_id@,
            profile.name@,
            profile.domain@,
            *value,
        ),
{
    let url = match get_str(value, "url") {
        Some(u) => Some(u),
        None => match get_str(value, "host") {
            Some(h) => Some(h),
            None => get_str(value, "name"),
        },
    };
    if let Some(u) = url {
        let mut title = chars_of("[");
        extend_str(&mut title, profile.name.as_str());
        extend_str(&mut title, "] discovery");
        let title_s = string_of(&title);
        let mut finding = Finding::new(session_id, profile.name.as_str(), title_s.as_str(), "INFO");
        finding.domain = profile.domain.clone();
        finding.description = u.clone();
        proof {
            lemma_cores_push(findings@, finding);
        }
        findings.push(finding);
    } else {
        assert(cores(findings@) + Seq::<FindingSpec>::empty() =~= cores(findings@));
    }
}

/// Findings from one JSON document, read according to the tool that wrote it.
pub fn parse_json(session_id: &str, profile: &ToolProfile, value: &Json) -> (r: Vec<Finding>)
    ensures
        cores(r@) == json_findings(session_id@, profile.name@, profile.domain@, *value),
{
    let mut findings: Vec<Finding> = Vec::new();
    assert(cores(findings@) =~= Seq::<FindingSpec>::empty());
    let name = profile.name.as_str();
    if str_eq(name, "nuclei") {
        parse_nuclei_json(session_id, profile, value, &mut findings);
    } else if str_eq(name, "semgrep") {
        parse_semgrep_json(session_id, profile, value, &mut findings);
    } else if str_eq(name, "gitleaks") {
        parse_gitleaks_json(session_id, profile, value, &mut findings);
    } else if str_eq(name, "trufflehog") {
        parse_trufflehog_json(session_id, profile, value, &mut findings);
    } else if str_eq(name, "httpx") || str_eq(name, "subfinder") || str_eq(name, "amass")
        || str_eq(name, "katana") {
        parse_discovery_json(session_id, profile, value, &mut findings);
    }
    proof {
        let e = Seq::<FindingSpec>::empty();
        assert(e + json_findings(session_id@, profile.name@, profile.domain@, *value)
            =~= json_findings(session_id@, profile.name@, profile.domain@, *value));
    }
    findings
}

// ---------------------------------------------------------------------------
// Whole outputs
// ---------------------------------------------------------------------------

/// The findings of an optional parsed document.
pub open spec fn doc_findings(
    session_id: Seq<char>,
    name: Seq<char>,
    domain: Seq<char>,
    doc: Option<Json>,
) -> Seq<FindingSpec> {
    match doc {
        Some(j) => json_findings(session_id, name, domain, j),
        None => Seq::empty(),
    }
}

/// The findings of one line read as a JSON document, when it starts (after
/// trimming) with `{` or `[`.
pub open spec fn json_line_findings(
    session_id: Seq<char>,
    name: Seq<char>,
    domain: Seq<char>,
    line: Seq<char>,
) -> Seq<FindingSpec> {
    let t = trim(line);
    if starts_with(t, "{"@) || starts_with(t, "["@) {
        doc_findings(session_id, name, domain, spec_parse_json(t))
    } else {
        Seq::empty()
    }
}

/// The findings of the given lines, each read as a JSON document.
pub open spec fn json_lines_findings(
    session_id: Seq<char>,
    name: Seq<char>,
    domain: Seq<char>,
    ls: Seq<Seq<char>>,
) -> Seq<FindingSpec>
    decreases ls.len(),
{
    if ls.len() == 0 {
        Seq::empty()
    } else {
        json_lines_findings(session_id, name, domain, ls.drop_last()) + json_line_findings(
            session_id,
            name,
            domain,
            ls.last(),
        )
    }
}

/// Findings before ordering: the output read as one JSON document; if that
/// gives none, each line read as a JSON document; if that gives none, the
/// output read as plain text.
pub open spec fn raw_findings(
    session_id: Seq<char>,
    name: Seq<char>,
    domain: Seq<char>,
    output: Seq<char>,
) -> Seq<FindingSpec> {
    let whole = doc_findings(session_id, name, domain, spec_parse_json(output));
    let by_line = if whole.len() == 0 {
        json_lines_findings(session_id, name, domain, lines(output))
    } else {
        whole
    };
    if by_line.len() == 0 {
        text_findings(session_id, name, domain, lines(output))
    } else {
        by_line
    }
}

/// The findings of `s` whose severity has rank `r`, in their order.
pub open spec fn bucket(s: Seq<FindingSpec>, r: u8) -> Seq<FindingSpec>
    decreases s.len(),
{
    if s.len() == 0 {
        Seq::empty()
    } else if rank_of(s.last().severity) == r {
        bucket(s.drop_last(), r).push(s.last())
    } else {
        bucket(s.drop_last(), r)
    }
}

/// `s` stably sorted by severity rank.
pub open spec fn rank_sorted(s: Seq<FindingSpec>) -> Seq<FindingSpec> {
    bucket(s, 0) + bucket(s, 1) + bucket(s, 2) + bucket(s, 3) + bucket(s, 4)
}

/// Two findings repeat each other: same tool, title and description.
pub open spec fn same_finding(a: FindingSpec, b: FindingSpec) -> bool {
    a.tool == b.tool && a.title == b.title && a.description == b.description
}

/// `s` holds a finding that repeats `f`.
pub open spec fn has_repeat(s: Seq<FindingSpec>, f: FindingSpec) -> bool {
    exists|i: int| 0 <= i < s.len() && same_finding(#[trigger] s[i], f)
}

/// `s` with every finding dropped that repeats an earlier one: the first
/// finding of each tool, title and description is kept.
pub open spec fn dedup_findings(s: Seq<FindingSpec>) -> Seq<FindingSpec>
    decreases s.len(),
{
    if s.len() == 0 {
        s
    } else {
        let d = dedup_findings(s.drop_last());
        if has_repeat(d, s.last()) {
            d
        } else {
            d.push(s.last())
        }
    }
}

/// The findings that a tool's output gives: read as described at
/// `raw_findings`, stably sorted by severity rank, with every repeat of an
/// earlier finding dropped.
pub open spec fn output_findings(
    session_id: Seq<char>,
    name: Seq<char>,
    domain: Seq<char>,
    output: Seq<char>,
) -> Seq<FindingSpec> {
    dedup_findings(rank_sorted(raw_findings(session_id, name, domain, output)))
}

/// Severity ranks never decrease along `s`.
pub open spec fn rank_ordered(s: Seq<FindingSpec>) -> bool {
    forall|i: int, j: int|
        0 <= i < j < s.len() ==> rank_of(#[trigger] s[i].severity) <= rank_of(#[trigger] s[j].severity)
}

/// No two findings of `s` share tool, title and description.
pub open spec fn no_repeats(s: Seq<FindingSpec>) -> bool {
    forall|i: int, j: int| 0 <= i < j < s.len() ==> !same_finding(#[trigger] s[i], #[trigger] s[j])
}

pub proof fn lemma_bucket_ranks(s: Seq<FindingSpec>, r: u8)
    ensures
        forall|i: int| 0 <= i < bucket(s, r).len() ==> rank_of(#[trigger] bucket(s, r)[i].severity) == r,
        bucket(s, r).len() <= s.len(),
    decreases s.len(),
{
    if s.len() > 0 {
        lemma_bucket_ranks(s.drop_last(), r);
    }
}

pub proof fn lemma_rank_sorted_ordered(s: Seq<FindingSpec>)
    ensures
        rank_ordered(rank_sorted(s)),
{
    lemma_bucket_ranks(s, 0);
    lemma_bucket_ranks(s, 1);
    lemma_bucket_ranks(s, 2);
    lemma_bucket_ranks(s, 3);
    lemma_bucket_ranks(s, 4);
    let b0 = bucket(s, 0);
    let b1 = bucket(s, 1);
    let b2 = bucket(s, 2);
    let b3 = bucket(s, 3);
    let b4 = bucket(s, 4);
    let t = rank_sorted(s);
    assert forall|i: int| 0 <= i < t.len() implies #[trigger] rank_of(t[i].severity) == (if i
        < b0.len() {
        0int
    } else if i < b0.len() + b1.len() {
        1int
    } else if i < b0.len() + b1.len() + b2.len() {
        2int
    } else if i < b0.len() + b1.len() + b2.len() + b3.len() {
        3int
    } else {
        4int
    }) by {
        if i < b0.len() {
            assert(t[i] == b0[i]);
        } else if i < b0.len() + b1.len() {
            assert(t[i] == b1[i - b0.len()]);
        } else if i < b0.len() + b1.len() + b2.len() {
            assert(t[i] == b2[i - b0.len() - b1.len()]);
        } else if i < b0.len() + b1.len() + b2.len() + b3.len() {
            assert(t[i] == b3[i - b0.len() - b1.len() - b2.len()]);
        } else {
            assert(t[i] == b4[i - b0.len() - b1.len() - b2.len() - b3.len()]);
        }
    }
}

/// The findings of `dedup_findings(s)` are findings of `s`, in the same
/// order.
pub proof fn lemma_dedup_shape(s: Seq<FindingSpec>)
    ensures
        dedup_findings(s).len() <= s.len(),
        forall|i: int|
            0 <= i < dedup_findings(s).len() ==> exists|j: int|
                0 <= j < s.len() && #[trigger] dedup_findings(s)[i] == #[trigger] s[j],
        forall|i: int, j: int|
            0 <= i < j < dedup_findings(s).len() ==> exists|a: int, b: int|
                0 <= a < b < s.len() && #[trigger] dedup_findings(s)[i] == s[a]
                    && #[trigger] dedup_findings(s)[j] == s[b],
    decreases s.len(),
{
    if s.len() > 0 {
        let p = s.drop_last();
        lemma_dedup_shape(p);
        let d = dedup_findings(p);
        let e = dedup_findings(s);
        assert forall|i: int| 0 <= i < e.len() implies exists|j: int|
            0 <= j < s.len() && #[trigger] e[i] == #[trigger] s[j] by {
            if i < d.len() {
                let j = choose|j: int| 0 <= j < p.len() && #[trigger] d[i] == #[trigger] p[j];
                assert(s[j] == p[j]);
            } else {
                assert(e[i] == s[s.len() - 1]);
            }
        }
        assert forall|i: int, j: int| 0 <= i < j < e.len() implies exists|a: int, b: int|
            0 <= a < b < s.len() && #[trigger] e[i] == s[a] && #[trigger] e[j] == s[b] by {
            if j < d.len() {
                let (a, b) = choose|a: int, b: int|
                    0 <= a < b < p.len() && #[trigger] d[i] == p[a] && #[trigger] d[j] == p[b];
                assert(s[a] == p[a] && s[b] == p[b]);
            } else {
                let a = choose|a: int| 0 <= a < p.len() && #[trigger] d[i] == #[trigger] p[a];
                assert(s[a] == p[a]);
                assert(e[j] == s[s.len() - 1]);
            }
        }
    }
}

pub proof fn lemma_dedup_keeps_order(s: Seq<FindingSpec>)
    requires
        rank_ordered(s),
    ensures
        rank_ordered(dedup_findings(s)),
{
    lemma_dedup_shape(s);
    let d = dedup_findings(s);
    assert forall|i: int, j: int| 0 <= i < j < d.len() implies rank_of(#[trigger] d[i].severity)
        <= rank_of(#[trigger] d[j].severity) by {
        let (a, b) = choose|a: int, b: int|
            0 <= a < b < s.len() && #[trigger] d[i] == s[a] && #[trigger] d[j] == s[b];
        assert(rank_of(s[a].severity) <= rank_of(s[b].severity));
    }
}

/// After dropping repeats, no two findings share tool, title and
/// description.
pub proof fn lemma_dedup_no_repeats(s: Seq<FindingSpec>)
    ensures
        no_repeats(dedup_findings(s)),
    decreases s.len(),
{
    if s.len() > 0 {
        let p = s.drop_last();
        lemma_dedup_no_repeats(p);
        let d = dedup_findings(p);
        if !has_repeat(d, s.last()) {
            let e = d.push(s.last());
            assert forall|i: int, j: int| 0 <= i < j < e.len() implies !same_finding(
                #[trigger] e[i],
                #[trigger] e[j],
            ) by {
                if j < d.len() {
                    assert(e[i] == d[i] && e[j] == d[j]);
                } else {
                    assert(e[i] == d[i]);
                    if same_finding(d[i], s.last()) {
                        assert(has_repeat(d, s.last()));
                    }
                }
            }
        }
    }
}

/// Dropping repeats loses no finding: every finding of `s` has one with
/// the same tool, title and description among those kept.
pub proof fn law_dedup_keeps_one_of_each(s: Seq<FindingSpec>)
    ensures
        forall|i: int| 0 <= i < s.len() ==> has_repeat(dedup_findings(s), #[trigger] s[i]),
    decreases s.len(),
{
    if s.len() > 0 {
        let p = s.drop_last();
        law_dedup_keeps_one_of_each(p);
        let d = dedup_findings(p);
        let e = dedup_findings(s);
        assert forall|i: int| 0 <= i < s.len() implies has_repeat(e, #[trigger] s[i]) by {
            if i < p.len() {
                assert(p[i] == s[i]);
                assert(has_repeat(d, p[i]));
                let k = choose|k: int| 0 <= k < d.len() && same_finding(#[trigger] d[k], p[i]);
                assert(e[k] == d[k]);
            } else if !has_repeat(d, s.last()) {
                assert(e[d.len() as int] == s.last());
                assert(same_finding(e[d.len() as int], s[i]));
            }
        }
    }
}

/// `s` stably sorted by severity rank.
pub fn sort_by_rank(s: &Vec<Finding>) -> (r: Vec<Finding>)
    ensures
        cores(r@) == rank_sorted(cores(s@)),
{
    let ghost c = cores(s@);
    let mut out: Vec<Finding> = Vec::new();
    let mut rank: u8 = 0;
    assert(cores(out@) =~= Seq::<FindingSpec>::empty());
    while rank < 5
        invariant
            rank <= 5,
            c == cores(s@),
            cores(out@) == (if rank == 0 {
                Seq::<FindingSpec>::empty()
            } else if rank == 1 {
                bucket(c, 0)
            } else if rank == 2 {
                bucket(c, 0) + bucket(c, 1)
            } else if rank == 3 {
                bucket(c, 0) + bucket(c, 1) + bucket(c, 2)
            } else if rank == 4 {
                bucket(c, 0) + bucket(c, 1) + bucket(c, 2) + bucket(c, 3)
            } else {
                rank_sorted(c)
            }),
        decreases 5 - rank,
    {
        let ghost before = cores(out@);
        let mut i: usize = 0;
        assert(c.take(0) =~= Seq::<FindingSpec>::empty());
        assert(before + bucket(c.take(0), rank) =~= before);
        while i < s.len()
            invariant
                i <= s.len(),
                c == cores(s@),
                rank < 5,
                cores(out@) == before + bucket(c.take(i as int), rank),
            decreases s.len() - i,
        {
            assert(c.take(i + 1).drop_last() =~= c.take(i as int));
            assert(c.take(i + 1).last() == core_of(s@[i as int]));
            if s[i].severity_rank() == rank {
                let f = s[i].duplicate();
                proof {
                    lemma_cores_push(out@, f);
                }
                out.push(f);
                assert(cores(out@) =~= before + bucket(c.take(i + 1), rank));
            }
            i = i + 1;
        }
        assert(c.take(s.len() as int) =~= c);
        rank = rank + 1;
    }
    out
}

/// `s` with every finding dropped that repeats the one before it (same
/// tool, title and description).
pub fn dedup_by_content(s: &Vec<Finding>) -> (r: Vec<Finding>)
    ensures
        cores(r@) == dedup_findings(cores(s@)),
{
    let ghost c = cores(s@);
    let mut out: Vec<Finding> = Vec::new();
    let mut i: usize = 0;
    assert(c.take(0) =~= Seq::<FindingSpec>::empty());
    assert(cores(out@) =~= Seq::<FindingSpec>::empty());
    while i < s.len()
        invariant
            i <= s.len(),
            c == cores(s@),
            cores(out@) == dedup_findings(c.take(i as int)),
        decreases s.len() - i,
    {
        let ghost t = c.take(i + 1);
        assert(t.drop_last() =~= c.take(i as int));
        assert(t.last() == core_of(s@[i as int]));
        let ghost d = cores(out@);
        let mut seen = false;
        let mut k: usize = 0;
        while k < out.len()
            invariant
                k <= out.len(),
                d == cores(out@),
                i < s.len(),
                seen == exists|m: int| 0 <= m < k && same_finding(#[trigger] d[m], core_of(s@[i as int])),
            decreases out.len() - k,
        {
            let same = crate::text::str_eq(out[k].tool.as_str(), s[i].tool.as_str()) && crate::text::str_eq(
                out[k].title.as_str(),
                s[i].title.as_str(),
            ) && crate::text::str_eq(out[k].description.as_str(), s[i].description.as_str());
            assert(d[k as int] == core_of(out@[k as int]));
            if same {
                seen = true;
            }
            k = k + 1;
        }
        assert(seen == has_repeat(d, core_of(s@[i as int])));
        if !seen {
            let f = s[i].duplicate();
            proof {
                lemma_cores_push(out@, f);
            }
            out.push(f);
        }
        i = i + 1;
    }
    assert(c.take(s.len() as int) =~= c);
    out
}

/// Findings from a tool's raw output. The whole output is first read as
/// one JSON document; when that yields nothing, each line that starts with
/// `{` or `[` is read as one; when that yields nothing too, the output is
/// read as plain text. The findings come stably sorted by severity, and
/// every finding that repeats an earlier one (same tool, title and
/// description) is dropped.
pub fn parse_output(session_id: &str, profile: &ToolProfile, output: &str) -> (r: Vec<Finding>)
    ensures
        cores(r@) == output_findings(session_id@, profile.name@, profile.domain@, output@),
        rank_ordered(cores(r@)),
        no_repeats(cores(r@)),
{
    let ghost sid = session_id@;
    let ghost nm = profile.name@;
    let ghost dm = profile.domain@;
    let text = chars_of(output);
    let mut findings: Vec<Finding> = match parse_json_text(&text) {
        Some(j) => parse_json(session_id, profile, &j),
        None => {
            let v: Vec<Finding> = Vec::new();
            assert(cores(v@) =~= Seq::<FindingSpec>::empty());
            v
        },
    };
    assert(cores(findings@) == doc_findings(sid, nm, dm, spec_parse_json(output@)));
    if findings.len() == 0 {
        let ls = lines_exec(&text);
        let ghost lv = crate::text::views(ls@);
        let mut i: usize = 0;
        assert(cores(findings@) =~= Seq::<FindingSpec>::empty());
        while i < ls.len()
            invariant
                i <= ls.len(),
                lv == crate::text::views(ls@),
                lv == lines(output@),
                cores(findings@) == json_lines_findings(sid, nm, dm, lv.take(i as int)),
                sid == session_id@,
                nm == profile.name@,
                dm == profile.domain@,
            decreases ls.len() - i,
        {
            assert(lv.take(i + 1).drop_last() =~= lv.take(i as int));
            assert(lv.take(i + 1).last() == ls@[i as int]@);
            let t = trim_exec(&ls[i]);
            if starts_with_str(&t, "{") || starts_with_str(&t, "[") {
                match parse_json_text(&t) {
                    Some(j) => {
                        let mut more = parse_json(session_id, profile, &j);
                        let ghost c0 = cores(findings@);
                        let ghost m0 = cores(more@);
                        findings.append(&mut more);
                        assert(cores(findings@) =~= c0 + m0);
                    },
                    None => {
                        assert(cores(findings@) + Seq::<FindingSpec>::empty() =~= cores(findings@));
                    },
                }
            } else {
                assert(cores(findings@) + Seq::<FindingSpec>::empty() =~= cores(findings@));
            }
            i = i + 1;
        }
        assert(lv.take(ls.len() as int) =~= lv);
    }
    if findings.len() == 0 {
        findings = parse_text(session_id, profile, output);
    }
    let sorted = sort_by_rank(&findings);
    let r = dedup_by_content(&sorted);
    proof {
        lemma_rank_sorted_ordered(cores(findings@));
        lemma_dedup_keeps_order(cores(sorted@));
        lemma_dedup_no_repeats(cores(sorted@));
    }
    r
}

// ---------------------------------------------------------------------------
// Summaries
// ---------------------------------------------------------------------------

/// Number of findings in `s` with the given severity.
pub open spec fn count_severity(s: Seq<Finding>, sev: Seq<char>) -> nat
    decreases s.len(),
{
    if s.len() == 0 {
        0
    } else {
        count_severity(s.drop_last(), sev) + if s.last().severity@ == sev {
            1nat
        } else {
            0nat
        }
    }
}

/// Number of findings in `s` reported by the given tool.
pub open spec fn count_tool(s: Seq<Finding>, tool: Seq<char>) -> nat
    decreases s.len(),
{
    if s.len() == 0 {
        0
    } else {
        count_tool(s.drop_last(), tool) + if s.last().tool@ == tool {
            1nat
        } else {
            0nat
        }
    }
}

/// The tool names of the findings in `s`, in order.
pub open spec fn tool_names(s: Seq<Finding>) -> Seq<Seq<char>> {
    s.map_values(|f: Finding| f.tool@)
}

/// Number of distinct sequences in `ts`.
pub open spec fn distinct_count(ts: Seq<Seq<char>>) -> nat
    decreases ts.len(),
{
    if ts.len() == 0 {
        0
    } else {
        distinct_count(ts.drop_last()) + if ts.drop_last().contains(ts.last()) {
            0nat
        } else {
            1nat
        }
    }
}

/// The one-line summary of a set of findings.
pub open spec fn summary_of(s: Seq<Finding>) -> Seq<char> {
    if s.len() == 0 {
        "No findings were extracted from the selected tool outputs."@
    } else {
        decimal(s.len()) + " finding(s) total across "@ + decimal(distinct_count(tool_names(s)))
            + " tool(s): "@ + decimal(count_severity(s, "CRITICAL"@)) + " critical, "@ + decimal(
            count_severity(s, "HIGH"@),
        ) + " high, "@ + decimal(count_severity(s, "MEDIUM"@)) + " medium."@
    }
}

pub proof fn lemma_count_severity_bound(s: Seq<Finding>, sev: Seq<char>)
    ensures
        count_severity(s, sev) <= s.len(),
    decreases s.len(),
{
    if s.len() > 0 {
        lemma_count_severity_bound(s.drop_last(), sev);
    }
}

/// Number of findings with the given severity.
pub fn count_with_severity(findings: &[Finding], sev: &str) -> (n: usize)
    ensures
        n == count_severity(findings@, sev@),
{
    let mut n: usize = 0;
    let mut i: usize = 0;
    assert(findings@.take(0) =~= Seq::<Finding>::empty());
    while i < findings.len()
        invariant
            i <= findings.len(),
            n == count_severity(findings@.take(i as int), sev@),
            n <= i,
        decreases findings.len() - i,
    {
        assert(findings@.take(i + 1).drop_last() =~= findings@.take(i as int));
        if str_eq(findings[i].severity.as_str(), sev) {
            n = n + 1;
        }
        i = i + 1;
    }
    assert(findings@.take(findings.len() as int) =~= findings@);
    n
}

/// Number of distinct tools among the findings.
pub fn count_distinct_tools(findings: &[Finding]) -> (n: usize)
    ensures
        n == distinct_count(tool_names(findings@)),
{
    let ghost ts = tool_names(findings@);
    let mut seen: Vec<Vec<char>> = Vec::new();
    let mut i: usize = 0;
    assert(ts.take(0) =~= Seq::<Seq<char>>::empty());
    while i < findings.len()
        invariant
            i <= findings.len(),
            ts == tool_names(findings@),
            forall|x: Seq<char>| views(seen@).contains(x) <==> ts.take(i as int).contains(x),
            seen.len() == distinct_count(ts.take(i as int)),
            seen.len() <= i,
        decreases findings.len() - i,
    {
        let t = chars_of(findings[i].tool.as_str());
        let ghost pre = ts.take(i as int);
        let ghost post = ts.take(i + 1);
        assert(post.drop_last() =~= pre);
        assert(post.last() == t@);
        let present = contains_chars(&seen, &t);
        let ghost sv0 = views(seen@);
        if !present {
            seen.push(t);
            assert(views(seen@) =~= sv0.push(t@));
        }
        assert forall|x: Seq<char>| views(seen@).contains(x) <==> post.contains(x) by {
            if post.contains(x) {
                let k = choose|k: int| 0 <= k < post.len() && post[k] == x;
                if k < pre.len() {
                    assert(pre[k] == x);
                    assert(pre.contains(x));
                    assert(sv0.contains(x));
                    if !present {
                        let m = choose|m: int| 0 <= m < sv0.len() && sv0[m] == x;
                        assert(views(seen@)[m] == x);
                    }
                } else {
                    if !present {
                        assert(views(seen@)[views(seen@).len() - 1] == x);
                    }
                }
            }
            if views(seen@).contains(x) {
                let m = choose|m: int| 0 <= m < views(seen@).len() && views(seen@)[m] == x;
                if m < sv0.len() {
                    assert(sv0[m] == x);
                    assert(sv0.contains(x));
                    assert(pre.contains(x));
                    let k = choose|k: int| 0 <= k < pre.len() && pre[k] == x;
                    assert(post[k] == x);
                } else {
                    assert(post[post.len() - 1] == x);
                }
            }
        }
        i = i + 1;
    }
    assert(ts.take(findings.len() as int) =~= ts);
    seen.len()
}

/// The one-line summary: the number of findings, of distinct tools, and of
/// critical, high and medium findings; or a fixed sentence when there are
/// none.
pub fn summarize_findings(findings: &[Finding]) -> (r: String)
    ensures
        r@ == summary_of(findings@),
{
    if findings.len() == 0 {
        return string_from("No findings were extracted from the selected tool outputs.");
    }
    let critical = count_with_severity(findings, "CRITICAL");
    let high = count_with_severity(findings, "HIGH");
    let medium = count_with_severity(findings, "MEDIUM");
    let unique_tools = count_distinct_tools(findings);
    let mut out = decimal_chars(findings.len() as u64);
    extend_str(&mut out, " finding(s) total across ");
    let u = decimal_chars(unique_tools as u64);
    extend(&mut out, &u);
    extend_str(&mut out, " tool(s): ");
    let c = decimal_chars(critical as u64);
    extend(&mut out, &c);
    extend_str(&mut out, " critical, ");
    let h = decimal_chars(high as u64);
    extend(&mut out, &h);
    extend_str(&mut out, " high, ");
    let m = decimal_chars(medium as u64);
    extend(&mut out, &m);
    extend_str(&mut out, " medium.");
    string_of(&out)
}

/// What a table row shows as evidence: `file:line`, `file`, or the first
/// 48 characters of the description.
pub open spec fn evidence_of(f: Finding) -> Seq<char> {
    if f.file@.len() > 0 {
        if f.line > 0 {
            f.file@ + ":"@ + decimal(f.line as nat)
        } else {
            f.file@
        }
    } else {
        take_chars(f.description@, 48)
    }
}

/// One row of the findings table; `|` inside title and evidence becomes `/`.
pub open spec fn table_row(f: Finding) -> Seq<char> {
    "| "@ + f.severity@ + " | "@ + f.tool@ + " | "@ + replace_char(f.title@, '|', "/"@) + " | "@
        + replace_char(evidence_of(f), '|', "/"@) + " |"@
}

/// The Markdown table of findings, or a fixed note when there are none.
pub open spec fn findings_table(s: Seq<Finding>) -> Seq<char> {
    if s.len() == 0 {
        "_No findings captured._"@
    } else {
        join(
            seq!["| Severity | Tool | Title | Evidence |"@, "| --- | --- | --- | --- |"@]
                + s.map_values(|f: Finding| table_row(f)),
            "\n"@,
        )
    }
}

fn evidence_exec(f: &Finding) -> (r: Vec<char>)
    ensures
        r@ == evidence_of(*f),
{
    let file = chars_of(f.file.as_str());
    if file.len() > 0 {
        if f.line > 0 {
            let mut r = file;
            extend_str(&mut r, ":");
            let d = decimal_chars(f.line as u64);
            extend(&mut r, &d);
            r
        } else {
            file
        }
    } else {
        let d = chars_of(f.description.as_str());
        take_prefix(&d, 48)
    }
}

fn table_row_exec(f: &Finding) -> (r: Vec<char>)
    ensures
        r@ == table_row(*f),
{
    let slash = chars_of("/");
    proof {
        reveal_strlit("|");
        assert("|"@ =~= seq!['|']);
    }
    let mut r = chars_of("| ");
    extend_str(&mut r, f.severity.as_str());
    extend_str(&mut r, " | ");
    extend_str(&mut r, f.tool.as_str());
    extend_str(&mut r, " | ");
    let title = chars_of(f.title.as_str());
    let t2 = replace_str(&title, "|", &slash);
    extend(&mut r, &t2);
    extend_str(&mut r, " | ");
    let ev = evidence_exec(f);
    let e2 = replace_str(&ev, "|", &slash);
    extend(&mut r, &e2);
    extend_str(&mut r, " |");
    r
}

/// The Markdown table of findings: a header, then one row per finding with
/// severity, tool, title and evidence.
pub fn render_findings_table(findings: &[Finding]) -> (r: String)
    ensures
        r@ == findings_table(findings@),
{
    if findings.len() == 0 {
        return string_from("_No findings captured._");
    }
    let mut rows: Vec<Vec<char>> = Vec::new();
    rows.push(chars_of("| Severity | Tool | Title | Evidence |"));
    rows.push(chars_of("| --- | --- | --- | --- |"));
    let ghost head = seq!["| Severity | Tool | Title | Evidence |"@, "| --- | --- | --- | --- |"@];
    let ghost all = findings@.map_values(|f: Finding| table_row(f));
    assert(views(rows@) =~= head);
    let mut i: usize = 0;
    while i < findings.len()
        invariant
            i <= findings.len(),
            all == findings@.map_values(|f: Finding| table_row(f)),
            views(rows@) == head + all.take(i as int),
        decreases findings.len() - i,
    {
        let row = table_row_exec(&findings[i]);
        let ghost v0 = views(rows@);
        rows.push(row);
        assert(views(rows@) =~= v0.push(row@));
        assert(all.take(i + 1) =~= all.take(i as int).push(table_row(findings@[i as int])));
        assert(head + all.take(i + 1) =~= (head + all.take(i as int)).push(row@));
        i = i + 1;
    }
    assert(all.take(findings.len() as int) =~= all);
    let joined = join_exec(&rows, "\n");
    string_of(&joined)
}

/// `u` is in strictly increasing lexicographic order.
pub open spec fn strictly_sorted(u: Seq<Seq<char>>) -> bool {
    forall|i: int, j: int| 0 <= i < j < u.len() ==> lex_lt(#[trigger] u[i], #[trigger] u[j])
}

/// `u` lists the distinct tool names of `s` in increasing order.
pub open spec fn is_tool_index(s: Seq<Finding>, u: Seq<Seq<char>>) -> bool {
    &&& strictly_sorted(u)
    &&& forall|t: Seq<char>| u.contains(t) <==> tool_names(s).contains(t)
}

/// One line of the per-tool overview.
pub open spec fn overview_row(tool: Seq<char>, n: nat) -> Seq<char> {
    "- `"@ + tool + "`: "@ + decimal(n) + " finding(s)"@
}

/// The overview lines for the tools in `u`.
pub open spec fn overview_rows(s: Seq<Finding>, u: Seq<Seq<char>>) -> Seq<Seq<char>> {
    u.map_values(|t: Seq<char>| overview_row(t, count_tool(s, t)))
}

/// The per-tool overview: one line per distinct tool, in name order, with
/// the number of findings of that tool; a fixed note when there are none.
pub open spec fn tool_overview(s: Seq<Finding>) -> Seq<char> {
    if s.len() == 0 {
        "_No tool produced parsed findings._"@
    } else {
        join(overview_rows(s, choose|u: Seq<Seq<char>>| is_tool_index(s, u)), "\n"@)
    }
}

/// Two strictly sorted sequences with the same elements are equal.
pub proof fn lemma_sorted_unique(u: Seq<Seq<char>>, w: Seq<Seq<char>>)
    requires
        strictly_sorted(u),
        strictly_sorted(w),
        forall|t: Seq<char>| u.contains(t) <==> w.contains(t),
    ensures
        u == w,
    decreases u.len() + w.len(),
{
    if u.len() == 0 {
        if w.len() > 0 {
            assert(w.contains(w[0]));
        }
        assert(u =~= w);
    } else if w.len() == 0 {
        assert(u.contains(u[0]));
    } else {
        // The least elements agree.
        assert(u.contains(u[0]));
        let k = choose|k: int| 0 <= k < w.len() && w[k] == u[0];
        assert(w.contains(w[0]));
        let m = choose|m: int| 0 <= m < u.len() && u[m] == w[0];
        if k > 0 {
            assert(lex_lt(w[0], w[k]));
            if m > 0 {
                assert(lex_lt(u[0], u[m]));
                crate::text::lemma_lex_asymmetric(w[0], u[0]);
            } else {
                crate::text::lemma_lex_irreflexive(w[0]);
            }
        }
        assert(u[0] == w[0]);
        let u1 = u.skip(1);
        let w1 = w.skip(1);
        assert forall|t: Seq<char>| u1.contains(t) <==> w1.contains(t) by {
            if u1.contains(t) {
                let a = choose|a: int| 0 <= a < u1.len() && u1[a] == t;
                assert(u[a + 1] == t);
                assert(lex_lt(u[0], t));
                crate::text::lemma_lex_asymmetric(u[0], t);
                assert(w.contains(t));
                let b = choose|b: int| 0 <= b < w.len() && w[b] == t;
                assert(b != 0);
                assert(w1[b - 1] == t);
            }
            if w1.contains(t) {
                let a = choose|a: int| 0 <= a < w1.len() && w1[a] == t;
                assert(w[a + 1] == t);
                assert(lex_lt(w[0], t));
                crate::text::lemma_lex_asymmetric(w[0], t);
                assert(u.contains(t));
                let b = choose|b: int| 0 <= b < u.len() && u[b] == t;
                assert(b != 0);
                assert(u1[b - 1] == t);
            }
        }
        assert forall|i: int, j: int| 0 <= i < j < u1.len() implies lex_lt(#[trigger] u1[i], #[trigger] u1[j]) by {
            assert(u1[i] == u[i + 1] && u1[j] == u[j + 1]);
        }
        assert forall|i: int, j: int| 0 <= i < j < w1.len() implies lex_lt(#[trigger] w1[i], #[trigger] w1[j]) by {
            assert(w1[i] == w[i + 1] && w1[j] == w[j + 1]);
        }
        lemma_sorted_unique(u1, w1);
        assert(u =~= seq![u[0]] + u1);
        assert(w =~= seq![w[0]] + w1);
    }
}

/// Per-tool finding counts, one line per tool in name order, or a fixed
/// note when there are no findings.
pub fn render_tool_overview(findings: &[Finding]) -> (r: String)
    ensures
        r@ == tool_overview(findings@),
{
    if findings.len() == 0 {
        return string_from("_No tool produced parsed findings._");
    }
    let ghost s = findings@;
    let ghost ts = tool_names(s);
    let mut names: Vec<Vec<char>> = Vec::new();
    let mut counts: Vec<usize> = Vec::new();
    let mut i: usize = 0;
    assert(ts.take(0) =~= Seq::<Seq<char>>::empty());
    while i < findings.len()
        invariant
            i <= findings.len(),
            s == findings@,
            ts == tool_names(s),
            strictly_sorted(views(names@)),
            forall|t: Seq<char>| views(names@).contains(t) <==> ts.take(i as int).contains(t),
            counts.len() == names.len(),
            forall|k: int|
                0 <= k < counts.len() ==> #[trigger] counts@[k] == count_tool(
                    s.take(i as int),
                    names@[k]@,
                ) && counts@[k] <= i,
        decreases findings.len() - i,
    {
        let t = chars_of(findings[i].tool.as_str());
        let ghost nv = views(names@);
        let ghost pre = ts.take(i as int);
        let ghost post = ts.take(i + 1);
        assert(post.drop_last() =~= pre);
        assert(post.last() == t@);
        assert(s.take(i + 1).drop_last() =~= s.take(i as int));
        assert(s.take(i + 1).last() == findings@[i as int]);
        let mut j: usize = 0;
        while j < names.len() && lex_lt_exec(&names[j], &t)
            invariant
                j <= names.len(),
                nv == views(names@),
                forall|k: int| 0 <= k < j ==> lex_lt(#[trigger] nv[k], t@),
            decreases names.len() - j,
        {
            j = j + 1;
        }
        if j < names.len() && chars_eq(&names[j], &t) {
            let c = counts[j];
            counts.set(j, c + 1);
            assert forall|k: int|
                0 <= k < counts.len() implies #[trigger] counts@[k] == count_tool(
                s.take(i + 1),
                names@[k]@,
            ) && counts@[k] <= i + 1 by {
                if k != j {
                    assert(names@[k]@ != t@) by {
                        if k < j {
                            crate::text::lemma_lex_asymmetric(nv[k], t@);
                        } else {
                            assert(lex_lt(nv[j as int], nv[k]));
                            crate::text::lemma_lex_asymmetric(nv[j as int], nv[k]);
                        }
                    }
                }
            }
            assert forall|x: Seq<char>| views(names@).contains(x) <==> post.contains(x) by {
                if post.contains(x) {
                    let k = choose|k: int| 0 <= k < post.len() && post[k] == x;
                    if k < pre.len() {
                        assert(pre[k] == x);
                    } else {
                        assert(nv[j as int] == x);
                    }
                }
                if nv.contains(x) {
                    assert(pre.contains(x));
                    let k = choose|k: int| 0 <= k < pre.len() && pre[k] == x;
                    assert(post[k] == x);
                }
            }
        } else {
            proof {
                if j < names.len() {
                    crate::text::lemma_lex_total(nv[j as int], t@);
                }
                assert forall|k: int| 0 <= k < nv.len() implies nv[k] != t@ by {
                    if k < j {
                        crate::text::lemma_lex_asymmetric(nv[k], t@);
                    } else if k > j {
                        assert(lex_lt(nv[j as int], nv[k]));
                        crate::text::lemma_lex_transitive(t@, nv[j as int], nv[k]);
                        crate::text::lemma_lex_asymmetric(t@, nv[k]);
                    }
                }
            }
            names.insert(j, t);
            counts.insert(j, 1);
            let ghost nv2 = views(names@);
            assert(nv2 =~= nv.insert(j as int, t@));
            assert forall|a: int, b: int| 0 <= a < b < nv2.len() implies lex_lt(#[trigger] nv2[a], #[trigger] nv2[b]) by {
                if b < j {
                    assert(nv2[a] == nv[a] && nv2[b] == nv[b]);
                } else if b == j {
                    assert(nv2[a] == nv[a]);
                } else if a > j {
                    assert(nv2[a] == nv[a - 1] && nv2[b] == nv[b - 1]);
                } else if a == j {
                    assert(nv2[b] == nv[b - 1]);
                    assert(lex_lt(t@, nv[j as int]));
                    if b - 1 > j {
                        assert(lex_lt(nv[j as int], nv[b - 1]));
                        crate::text::lemma_lex_transitive(t@, nv[j as int], nv[b - 1]);
                    }
                } else {
                    assert(nv2[a] == nv[a] && nv2[b] == nv[b - 1]);
                    assert(lex_lt(nv[a], t@));
                    assert(lex_lt(t@, nv[j as int]));
                    crate::text::lemma_lex_transitive(nv[a], t@, nv[j as int]);
                    if b - 1 > j {
                        assert(lex_lt(nv[j as int], nv[b - 1]));
                        crate::text::lemma_lex_transitive(nv[a], nv[j as int], nv[b - 1]);
                    }
                }
            }
            assert forall|k: int|
                0 <= k < counts.len() implies #[trigger] counts@[k] == count_tool(
                s.take(i + 1),
                names@[k]@,
            ) && counts@[k] <= i + 1 by {
                if k < j {
                    assert(names@[k]@ == nv[k]);
                } else if k > j {
                    assert(names@[k]@ == nv[k - 1]);
                } else {
                    assert(names@[k]@ == t@);
                    assert(!nv.contains(t@));
                    assert(!pre.contains(t@));
                    assert(tool_names(s.take(i as int)) =~= pre);
                    lemma_count_tool_absent(s.take(i as int), t@);
                }
            }
            assert forall|x: Seq<char>| nv2.contains(x) <==> post.contains(x) by {
                if post.contains(x) {
                    let k = choose|k: int| 0 <= k < post.len() && post[k] == x;
                    if k < pre.len() {
                        assert(pre[k] == x);
                        assert(nv.contains(x));
                        let m = choose|m: int| 0 <= m < nv.len() && nv[m] == x;
                        if m < j {
                            assert(nv2[m] == x);
                        } else {
                            assert(nv2[m + 1] == x);
                        }
                    } else {
                        assert(nv2[j as int] == x);
                    }
                }
                if nv2.contains(x) {
                    let m = choose|m: int| 0 <= m < nv2.len() && nv2[m] == x;
                    if m < j {
                        assert(nv.contains(x));
                    } else if m > j {
                        assert(nv[m - 1] == x);
                        assert(nv.contains(x));
                    }
                    if m != j {
                        assert(pre.contains(x));
                        let k = choose|k: int| 0 <= k < pre.len() && pre[k] == x;
                        assert(post[k] == x);
                    } else {
                        assert(post[post.len() - 1] == x);
                    }
                }
            }
        }
        i = i + 1;
    }
    assert(ts.take(findings.len() as int) =~= ts);
    assert(s.take(findings.len() as int) =~= s);
    let ghost u = views(names@);
    let mut rows: Vec<Vec<char>> = Vec::new();
    let mut k: usize = 0;
    while k < names.len()
        invariant
            k <= names.len(),
            counts.len() == names.len(),
            u == views(names@),
            s == findings@,
            forall|m: int| 0 <= m < counts.len() ==> #[trigger] counts@[m] == count_tool(s, names@[m]@),
            views(rows@) == overview_rows(s, u).take(k as int),
        decreases names.len() - k,
    {
        let mut row = chars_of("- `");
        extend(&mut row, &names[k]);
        extend_str(&mut row, "`: ");
        let d = decimal_chars(counts[k] as u64);
        extend(&mut row, &d);
        extend_str(&mut row, " finding(s)");
        let ghost r0 = views(rows@);
        rows.push(row);
        assert(views(rows@) =~= r0.push(row@));
        assert(overview_rows(s, u).take(k + 1) =~= overview_rows(s, u).take(k as int).push(
            overview_row(u[k as int], count_tool(s, u[k as int])),
        ));
        k = k + 1;
    }
    assert(overview_rows(s, u).take(names.len() as int) =~= overview_rows(s, u));
    let joined = join_exec(&rows, "\n");
    assert(is_tool_index(findings@, u));
    assert(joined@ == join(overview_rows(findings@, u), "\n"@));
    proof {
        let c = choose|w: Seq<Seq<char>>| is_tool_index(s, w);
        lemma_sorted_unique(u, c);
    }
    string_of(&joined)
}

pub proof fn lemma_count_tool_absent(s: Seq<Finding>, t: Seq<char>)
    requires
        !tool_names(s).contains(t),
    ensures
        count_tool(s, t) == 0,
    decreases s.len(),
{
    if s.len() > 0 {
        assert(tool_names(s.drop_last()) =~= tool_names(s).drop_last());
        if tool_names(s.drop_last()).contains(t) {
            let k = choose|k: int| 0 <= k < s.len() - 1 && tool_names(s.drop_last())[k] == t;
            assert(tool_names(s)[k] == t);
        }
        assert(tool_names(s)[s.len() - 1] == s.last().tool@);
        lemma_count_tool_absent(s.drop_last(), t);
    }
}

/// A trufflehog document that names a detector or a source gives exactly
/// one finding, titled as a possible secret exposure: CRITICAL when its
/// `Verified` member is `true`, HIGH otherwise.
pub proof fn law_trufflehog_verified_is_critical(session_id: Seq<char>, domain: Seq<char>, value: Json)
    requires
        json_get(value, "SourceMetadata"@) is Some || json_get(value, "DetectorName"@) is Some,
    ensures
        doc_findings(session_id, "trufflehog"@, domain, Some(value)).len() == 1,
        doc_findings(session_id, "trufflehog"@, domain, Some(value))[0].tool == "trufflehog"@,
        doc_findings(session_id, "trufflehog"@, domain, Some(value))[0].title
            == "[trufflehog] possible secret exposure"@,
        json_get(value, "Verified"@) == Some(Json::Bool(true)) ==> doc_findings(
            session_id,
            "trufflehog"@,
            domain,
            Some(value),
        )[0].severity == "CRITICAL"@,
        json_get(value, "Verified"@) != Some(Json::Bool(true)) ==> doc_findings(
            session_id,
            "trufflehog"@,
            domain,
            Some(value),
        )[0].severity == "HIGH"@,
{
    reveal_strlit("trufflehog");
    reveal_strlit("nuclei");
    reveal_strlit("semgrep");
    reveal_strlit("gitleaks");
    assert("trufflehog"@.len() != "nuclei"@.len());
    assert("trufflehog"@.len() != "semgrep"@.len());
    assert("trufflehog"@.len() != "gitleaks"@.len());
}

/// The findings table is the header line, the rule line, then one row per
/// finding in order, joined by line breaks; each row begins with the
/// finding's severity cell and then its tool cell, matching the header.
pub proof fn law_table_rows_start_with_severity_then_tool(s: Seq<Finding>)
    requires
        s.len() > 0,
    ensures
        exists|rows: Seq<Seq<char>>|
            #![trigger rows.len()]
            rows.len() == s.len() && findings_table(s) == join(
                seq!["| Severity | Tool | Title | Evidence |"@, "| --- | --- | --- | --- |"@] + rows,
                "\n"@,
            ) && forall|i: int|
                0 <= i < s.len() ==> {
                    let p = "| "@ + s[i].severity@ + " | "@ + s[i].tool@ + " | "@;
                    p.len() <= (#[trigger] rows[i]).len() && rows[i].subrange(0, p.len() as int) == p
                },
{
    let rows = s.map_values(|f: Finding| table_row(f));
    assert forall|i: int| 0 <= i < s.len() implies {
        let p = "| "@ + s[i].severity@ + " | "@ + s[i].tool@ + " | "@;
        p.len() <= (#[trigger] rows[i]).len() && rows[i].subrange(0, p.len() as int) == p
    } by {
        let f = s[i];
        let p = "| "@ + f.severity@ + " | "@ + f.tool@ + " | "@;
        let rest = replace_char(f.title@, '|', "/"@) + " | "@ + replace_char(evidence_of(f), '|', "/"@)
            + " |"@;
        assert(rows[i] == table_row(f));
        assert(table_row(f) =~= p + rest);
        assert((p + rest).subrange(0, p.len() as int) =~= p);
    }
    assert(rows.len() == s.len());
}

/// The distinct entries of a sequence, counted, are the size of its set.
pub proof fn lemma_distinct_count_is_set_size(ts: Seq<Seq<char>>)
    ensures
        distinct_count(ts) == ts.to_set().len(),
        ts.to_set().finite(),
    decreases ts.len(),
{
    vstd::seq_lib::seq_to_set_is_finite(ts);
    if ts.len() == 0 {
        assert(ts.to_set() =~= Set::<Seq<char>>::empty());
    } else {
        let pre = ts.drop_last();
        lemma_distinct_count_is_set_size(pre);
        assert(ts.to_set() =~= pre.to_set().insert(ts.last())) by {
            assert forall|x: Seq<char>| ts.contains(x) implies pre.to_set().insert(ts.last()).contains(x) by {
                let i = choose|i: int| 0 <= i < ts.len() && ts[i] == x;
                if i < ts.len() - 1 {
                    assert(pre[i] == x);
                }
            }
            assert forall|x: Seq<char>| pre.to_set().insert(ts.last()).contains(x) implies ts.contains(x) by {
                if x != ts.last() {
                    let i = choose|i: int| 0 <= i < pre.len() && pre[i] == x;
                    assert(ts[i] == x);
                } else {
                    assert(ts[ts.len() - 1] == x);
                }
            }
        }
        vstd::set::axiom_set_insert_len(pre.to_set(), ts.last());
    }
}

/// The summary counts the tools by their distinct names: the number it
/// gives after "across" is the number of different tool names among the
/// findings, so findings that all come from one tool say "1 tool(s)".
pub proof fn law_summary_counts_distinct_tools(s: Seq<Finding>)
    requires
        s.len() > 0,
    ensures
        ({
            let tools = Set::new(|n: Seq<char>| exists|i: int| 0 <= i < s.len() && #[trigger] s[i].tool@ == n);
            &&& tools.finite()
            &&& summary_of(s) == decimal(s.len()) + " finding(s) total across "@ + decimal(tools.len())
                + " tool(s): "@ + decimal(count_severity(s, "CRITICAL"@)) + " critical, "@ + decimal(
                count_severity(s, "HIGH"@),
            ) + " high, "@ + decimal(count_severity(s, "MEDIUM"@)) + " medium."@
        }),
        (forall|i: int| 0 <= i < s.len() ==> #[trigger] s[i].tool@ == s[0].tool@) ==> summary_of(s)
            == decimal(s.len()) + " finding(s) total across 1 tool(s): "@ + decimal(
            count_severity(s, "CRITICAL"@),
        ) + " critical, "@ + decimal(count_severity(s, "HIGH"@)) + " high, "@ + decimal(
            count_severity(s, "MEDIUM"@),
        ) + " medium."@,
{
    let ts = tool_names(s);
    let tools = Set::new(|n: Seq<char>| exists|i: int| 0 <= i < s.len() && #[trigger] s[i].tool@ == n);
    lemma_distinct_count_is_set_size(ts);
    assert(ts.to_set() =~= tools) by {
        assert forall|n: Seq<char>| ts.contains(n) implies tools.contains(n) by {
            let i = choose|i: int| 0 <= i < ts.len() && ts[i] == n;
            assert(s[i].tool@ == n);
        }
        assert forall|n: Seq<char>| tools.contains(n) implies ts.contains(n) by {
            let i = choose|i: int| 0 <= i < s.len() && #[trigger] s[i].tool@ == n;
            assert(ts[i] == n);
        }
    }
    if forall|i: int| 0 <= i < s.len() ==> #[trigger] s[i].tool@ == s[0].tool@ {
        assert(tools =~= Set::empty().insert(s[0].tool@));
        assert(Set::<Seq<char>>::empty().insert(s[0].tool@).len() == 1);
        reveal_strlit(" finding(s) total across ");
        reveal_strlit(" tool(s): ");
        reveal_strlit(" finding(s) total across 1 tool(s): ");
        assert(decimal(1) =~= seq!['1']);
        assert(" finding(s) total across "@ + decimal(1) + " tool(s): "@
            =~= " finding(s) total across 1 tool(s): "@);
    }
}

} // verus!
