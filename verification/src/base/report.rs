//! Markdown reports rendered from a template with `{{placeholder}}` slots.
use vstd::prelude::*;
use crate::base::parser::{
    count_severity, count_with_severity, findings_table, render_findings_table,
    render_tool_overview, summarize_findings, summary_of, tool_overview,
};
use crate::base::config::placeholders_spec;
use crate::base::template::{
    brace_free, law_one_by_one_is_all_at_once, placeholder_like, placeholder_set, replace_each,
    substitute_all, braces_open_patterns,
};
use crate::base::types::{Finding, Session};
use crate::text::{
    chars_of, contains, decimal, decimal_chars, occurs_at, replace_all, replace_str, string_of,
    trim, trim_exec,
};
use crate::util::time::now_unix;

verus! {

/// The report for `session` and `findings` rendered from `template`, with
/// `created_at` as its time stamp. Placeholders are replaced in this order:
/// session id, target, creation time, finding count, critical count, high
/// count, summary, tool overview, findings table.
pub open spec fn report_text(
    template: Seq<char>,
    session_id: Seq<char>,
    target: Seq<char>,
    created_at: u64,
    findings: Seq<Finding>,
) -> Seq<char> {
    let t1 = replace_all(template, "{{session_id}}"@, session_id);
    let t2 = replace_all(t1, "{{target}}"@, target);
    let t3 = replace_all(t2, "{{created_at}}"@, decimal(created_at as nat));
    let t4 = replace_all(t3, "{{findings_total}}"@, decimal(findings.len()));
    let t5 = replace_all(t4, "{{critical_count}}"@, decimal(count_severity(findings, "CRITICAL"@)));
    let t6 = replace_all(t5, "{{high_count}}"@, decimal(count_severity(findings, "HIGH"@)));
    let t7 = replace_all(t6, "{{summary}}"@, summary_of(findings));
    let t8 = replace_all(t7, "{{tool_overview}}"@, tool_overview(findings));
    replace_all(t8, "{{findings_table}}"@, findings_table(findings))
}

/// The report rendered with the given creation time stamp.
pub fn render_report_at(template: &str, session: &Session, findings: &[Finding], created_at: u64) -> (r:
    String)
    ensures
        r@ == report_text(template@, session.id@, session.target@, created_at, findings@),
        fills_at_once(template@, session.id@, session.target@, findings@) ==> r@ == substitute_all(
            template@,
            placeholders_spec(),
            report_values(session.id@, session.target@, created_at, findings@),
        ),
{
    proof {
        reveal_strlit("{{session_id}}");
        reveal_strlit("{{target}}");
        reveal_strlit("{{created_at}}");
        reveal_strlit("{{findings_total}}");
        reveal_strlit("{{critical_count}}");
        reveal_strlit("{{high_count}}");
        reveal_strlit("{{summary}}");
        reveal_strlit("{{tool_overview}}");
        reveal_strlit("{{findings_table}}");
    }
    let t0 = chars_of(template);
    let sid = chars_of(session.id.as_str());
    let t1 = replace_str(&t0, "{{session_id}}", &sid);
    let target = chars_of(session.target.as_str());
    let t2 = replace_str(&t1, "{{target}}", &target);
    let created = decimal_chars(created_at);
    let t3 = replace_str(&t2, "{{created_at}}", &created);
    let total = decimal_chars(findings.len() as u64);
    let t4 = replace_str(&t3, "{{findings_total}}", &total);
    let critical = decimal_chars(count_with_severity(findings, "CRITICAL") as u64);
    let t5 = replace_str(&t4, "{{critical_count}}", &critical);
    let high = decimal_chars(count_with_severity(findings, "HIGH") as u64);
    let t6 = replace_str(&t5, "{{high_count}}", &high);
    let summary = chars_of(summarize_findings(findings).as_str());
    let t7 = replace_str(&t6, "{{summary}}", &summary);
    let overview = chars_of(render_tool_overview(findings).as_str());
    let t8 = replace_str(&t7, "{{tool_overview}}", &overview);
    let table = chars_of(render_findings_table(findings).as_str());
    let t9 = replace_str(&t8, "{{findings_table}}", &table);
    proof {
        if fills_at_once(template@, session.id@, session.target@, findings@) {
            law_report_fills_placeholders_at_once(
                template@,
                session.id@,
                session.target@,
                created_at,
                findings@,
            );
        }
    }
    string_of(&t9)
}

/// The conditions under which the report's placeholders are filled as if
/// all at once: every `{{` of the template begins a placeholder, and none
/// of the inserted texts holds a `{`.
pub open spec fn fills_at_once(
    template: Seq<char>,
    session_id: Seq<char>,
    target: Seq<char>,
    findings: Seq<Finding>,
) -> bool {
    &&& braces_open_patterns(template, placeholders_spec())
    &&& brace_free(session_id)
    &&& brace_free(target)
    &&& brace_free(summary_of(findings))
    &&& brace_free(tool_overview(findings))
    &&& brace_free(findings_table(findings))
}

/// The report rendered now: as `render_report_at` with the current time.
/// Where no creation-time placeholder is left to fill, the time does not
/// show in it.
pub fn render_report(template: &str, session: &Session, findings: &[Finding]) -> (r: String)
    ensures
        exists|t: u64| r@ == report_text(template@, session.id@, session.target@, t, findings@),
        !contains(filled_before_time(template@, session.id@, session.target@), "{{created_at}}"@) ==> r@
            == report_text(template@, session.id@, session.target@, 0, findings@),
        fills_at_once(template@, session.id@, session.target@, findings@) ==> exists|t: u64|
            r@ == substitute_all(
                template@,
                placeholders_spec(),
                report_values(session.id@, session.target@, t, findings@),
            ),
{
    let now = now_unix();
    let r = render_report_at(template, session, findings, now);
    proof {
        if !contains(filled_before_time(template@, session.id@, session.target@), "{{created_at}}"@) {
            law_report_without_time_placeholder_ignores_clock(
                template@,
                session.id@,
                session.target@,
                now,
                0,
                findings@,
            );
        }
    }
    r
}

/// The report as a string, rendered now; the same text as `render_report`
/// gives where no creation-time placeholder is left to fill.
pub fn generate_report_string(template: &str, session: &Session, findings: &[Finding]) -> (r:
    String)
    ensures
        exists|t: u64| r@ == report_text(template@, session.id@, session.target@, t, findings@),
        !contains(filled_before_time(template@, session.id@, session.target@), "{{created_at}}"@) ==> r@
            == report_text(template@, session.id@, session.target@, 0, findings@),
        fills_at_once(template@, session.id@, session.target@, findings@) ==> exists|t: u64|
            r@ == substitute_all(
                template@,
                placeholders_spec(),
                report_values(session.id@, session.target@, t, findings@),
            ),
{
    render_report(template, session, findings)
}

/// The template a report request asks for: the requested one unless it is
/// absent or blank, else the configured default.
pub open spec fn chosen_template(requested: Option<Seq<char>>, default: Seq<char>) -> Seq<char> {
    match requested {
        Some(t) => if trim(t).len() > 0 {
            t
        } else {
            default
        },
        None => default,
    }
}

/// The template a report request asks for, falling back to the default.
pub fn choose_template(requested: &Option<String>, default: &String) -> (r: String)
    ensures
        r@ == chosen_template(
            match requested {
                Some(t) => Some(t@),
                None => None,
            },
            default@,
        ),
{
    match requested {
        Some(t) => {
            let tc = chars_of(t.as_str());
            let trimmed = trim_exec(&tc);
            if trimmed.len() > 0 {
                t.clone()
            } else {
                default.clone()
            }
        },
        None => default.clone(),
    }
}

/// Replacing a pattern that does not occur leaves the text unchanged.
pub proof fn lemma_replace_absent(s: Seq<char>, p: Seq<char>, r: Seq<char>)
    requires
        !contains(s, p),
    ensures
        replace_all(s, p, r) == s,
    decreases s.len(),
{
    if s.len() > 0 {
        if p.len() > 0 {
            assert(!occurs_at(s, p, 0));
        }
        assert forall|i: int| !occurs_at(s.skip(1), p, i) by {
            if occurs_at(s.skip(1), p, i) {
                assert(s.subrange(i + 1, i + 1 + p.len()) =~= s.skip(1).subrange(i, i + p.len()));
                assert(occurs_at(s, p, i + 1));
            }
        }
        lemma_replace_absent(s.skip(1), p, r);
        assert(s =~= seq![s[0]] + s.skip(1));
    }
}

/// A template that contains no `{{` is rendered unchanged.
pub proof fn law_template_without_placeholders_unchanged(
    template: Seq<char>,
    session_id: Seq<char>,
    target: Seq<char>,
    created_at: u64,
    findings: Seq<Finding>,
)
    requires
        !contains(template, "{{"@),
    ensures
        report_text(template, session_id, target, created_at, findings) == template,
{
    reveal_strlit("{{");
    assert forall|p: Seq<char>| p.len() >= 2 && p[0] == '{' && p[1] == '{' implies !contains(
        template,
        p,
    ) by {
        if contains(template, p) {
            let i = choose|i: int| occurs_at(template, p, i);
            assert(template.subrange(i, i + 2) =~= "{{"@);
            assert(occurs_at(template, "{{"@, i));
        }
    }
    reveal_strlit("{{session_id}}");
    reveal_strlit("{{target}}");
    reveal_strlit("{{created_at}}");
    reveal_strlit("{{findings_total}}");
    reveal_strlit("{{critical_count}}");
    reveal_strlit("{{high_count}}");
    reveal_strlit("{{summary}}");
    reveal_strlit("{{tool_overview}}");
    reveal_strlit("{{findings_table}}");
    lemma_replace_absent(template, "{{session_id}}"@, session_id);
    lemma_replace_absent(template, "{{target}}"@, target);
    lemma_replace_absent(template, "{{created_at}}"@, decimal(created_at as nat));
    lemma_replace_absent(template, "{{findings_total}}"@, decimal(findings.len()));
    lemma_replace_absent(
        template,
        "{{critical_count}}"@,
        decimal(count_severity(findings, "CRITICAL"@)),
    );
    lemma_replace_absent(template, "{{high_count}}"@, decimal(count_severity(findings, "HIGH"@)));
    lemma_replace_absent(template, "{{summary}}"@, summary_of(findings));
    lemma_replace_absent(template, "{{tool_overview}}"@, tool_overview(findings));
    lemma_replace_absent(template, "{{findings_table}}"@, findings_table(findings));
}

/// The template once the session id and the target are filled in, the
/// point at which the creation time is filled in.
pub open spec fn filled_before_time(template: Seq<char>, session_id: Seq<char>, target: Seq<char>) -> Seq<
    char,
> {
    replace_all(replace_all(template, "{{session_id}}"@, session_id), "{{target}}"@, target)
}

/// A report whose template holds no creation-time placeholder, once the
/// session id and target are in, does not depend on the clock: rendered at
/// any two times it is the same text.
pub proof fn law_report_without_time_placeholder_ignores_clock(
    template: Seq<char>,
    session_id: Seq<char>,
    target: Seq<char>,
    t1: u64,
    t2: u64,
    findings: Seq<Finding>,
)
    requires
        !contains(filled_before_time(template, session_id, target), "{{created_at}}"@),
    ensures
        report_text(template, session_id, target, t1, findings) == report_text(
            template,
            session_id,
            target,
            t2,
            findings,
        ),
{
    let f = filled_before_time(template, session_id, target);
    lemma_replace_absent(f, "{{created_at}}"@, decimal(t1 as nat));
    lemma_replace_absent(f, "{{created_at}}"@, decimal(t2 as nat));
}

/// The texts that fill the placeholders of `placeholders_spec()`, in the
/// same order.
pub open spec fn report_values(
    session_id: Seq<char>,
    target: Seq<char>,
    created_at: u64,
    findings: Seq<Finding>,
) -> Seq<Seq<char>> {
    seq![
        session_id,
        target,
        decimal(created_at as nat),
        decimal(findings.len()),
        decimal(count_severity(findings, "CRITICAL"@)),
        decimal(count_severity(findings, "HIGH"@)),
        summary_of(findings),
        tool_overview(findings),
        findings_table(findings),
    ]
}

/// A decimal rendering holds no `{`.
pub proof fn lemma_decimal_brace_free(n: nat)
    ensures
        brace_free(decimal(n)),
    decreases n,
{
    if n >= 10 {
        lemma_decimal_brace_free(n / 10);
        let d = decimal(n / 10);
        assert forall|i: int| 0 <= i < decimal(n).len() implies #[trigger] decimal(n)[i] != '{' by {
            if i < d.len() {
                assert(decimal(n)[i] == d[i]);
            }
        }
    }
}

/// The report placeholders are placeholders, no two alike.
pub proof fn lemma_report_placeholders()
    ensures
        placeholder_set(placeholders_spec()),
{
    reveal_strlit("{{session_id}}");
    reveal_strlit("{{target}}");
    reveal_strlit("{{created_at}}");
    reveal_strlit("{{findings_total}}");
    reveal_strlit("{{critical_count}}");
    reveal_strlit("{{high_count}}");
    reveal_strlit("{{summary}}");
    reveal_strlit("{{tool_overview}}");
    reveal_strlit("{{findings_table}}");
    let ps = placeholders_spec();
    assert forall|j: int| 0 <= j < ps.len() implies placeholder_like(#[trigger] ps[j]) by {
        let p = ps[j];
        assert forall|i: int| 2 <= i < p.len() - 2 implies #[trigger] p[i] != '{' && p[i] != '}' by {}
    }
    assert forall|a: int, b: int| 0 <= a < ps.len() && 0 <= b < ps.len() && a != b implies #[trigger] ps[a]
        != #[trigger] ps[b] by {
        if ps[a].len() == ps[b].len() {
            if ps[a][2] == ps[b][2] {
                assert(ps[a][12] != ps[b][12]);
            } else {
                assert(ps[a][2] != ps[b][2]);
            }
        }
    }
}

/// The report fills its placeholders as if all at once: the inserted texts
/// are not searched for placeholders again. This holds when every `{{` of
/// the template begins one of the placeholders and none of the inserted
/// texts holds a `{`.
pub proof fn law_report_fills_placeholders_at_once(
    template: Seq<char>,
    session_id: Seq<char>,
    target: Seq<char>,
    created_at: u64,
    findings: Seq<Finding>,
)
    requires
        fills_at_once(template, session_id, target, findings),
    ensures
        report_text(template, session_id, target, created_at, findings) == substitute_all(
            template,
            placeholders_spec(),
            report_values(session_id, target, created_at, findings),
        ),
{
    let ps = placeholders_spec();
    let vs = report_values(session_id, target, created_at, findings);
    lemma_report_placeholders();
    lemma_decimal_brace_free(created_at as nat);
    lemma_decimal_brace_free(findings.len());
    lemma_decimal_brace_free(count_severity(findings, "CRITICAL"@));
    lemma_decimal_brace_free(count_severity(findings, "HIGH"@));
    assert forall|j: int| 0 <= j < vs.len() implies brace_free(#[trigger] vs[j]) by {}
    law_one_by_one_is_all_at_once(template, ps, vs, 9);
    assert(ps.take(9) =~= ps);
    assert(vs.take(9) =~= vs);
    reveal_with_fuel(replace_each, 10);
    assert(replace_each(template, ps, vs, 9) == report_text(
        template,
        session_id,
        target,
        created_at,
        findings,
    ));
}

} // verus!
