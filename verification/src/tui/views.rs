//! What the screens show: the scan stream, finding details, settings,
//! severity tones, and which tools a search finds.
use vstd::prelude::*;
use crate::base::types::{Finding, ToolStatus};
use crate::text::{chars_of, contains, contains_exec, spec_to_lowercase, str_eq, string_from, to_lowercase};

verus! {

/// A line of the live scan stream.
#[derive(Debug, Clone)]
pub struct StreamLine {
    pub tool: String,
    pub line: String,
    pub kind: String,
    pub severity: Option<String>,
}

/// What the scan screen shows.
#[derive(Debug, Clone)]
pub struct ScanState {
    pub stream_lines: Vec<StreamLine>,
    pub findings: Vec<Finding>,
    pub running: bool,
    pub complete: bool,
    pub target: String,
    pub scroll_offset: usize,
    pub auto_scroll: bool,
    pub tab_selected: usize,
    pub generated_report_path: Option<String>,
}

/// The details of one finding.
#[derive(Debug, Clone)]
pub struct FindingDetail {
    pub id: String,
    pub tool: String,
    pub severity: String,
    pub title: String,
    pub description: String,
    pub file: String,
    pub line: u32,
    pub fix_suggestion: String,
    pub impact: String,
}

/// What the settings screen edits.
#[derive(Debug, Clone)]
pub struct SettingsState {
    pub install_mode: String,
    pub sandbox_profile: String,
    pub max_runtime: u64,
    pub report_template: String,
    pub saved: bool,
    pub message: String,
}

/// The colour families of the interface.
#[derive(Debug, Clone, Copy, PartialEq, Eq, Structural)]
pub enum Tone {
    Red,
    Orange,
    Yellow,
    Muted,
    Secondary,
}

/// How severities are coloured.
pub struct SeverityColors;

/// The tone of a severity.
pub open spec fn severity_tone(sev: Seq<char>) -> Tone {
    if sev == "CRITICAL"@ {
        Tone::Red
    } else if sev == "HIGH"@ {
        Tone::Orange
    } else if sev == "MEDIUM"@ {
        Tone::Yellow
    } else if sev == "LOW"@ {
        Tone::Muted
    } else {
        Tone::Secondary
    }
}

impl SeverityColors {
    /// The tone a severity is shown in: red, orange, yellow, muted, or the
    /// secondary tone for anything else.
    pub fn tone(sev: &str) -> (t: Tone)
        ensures
            t == severity_tone(sev@),
    {
        if str_eq(sev, "CRITICAL") {
            Tone::Red
        } else if str_eq(sev, "HIGH") {
            Tone::Orange
        } else if str_eq(sev, "MEDIUM") {
            Tone::Yellow
        } else if str_eq(sev, "LOW") {
            Tone::Muted
        } else {
            Tone::Secondary
        }
    }
}

/// Whether a tool matches a search: the search, lowercased, is empty or
/// occurs in the lowercased name or description.
pub open spec fn tool_matches(t: ToolStatus, search: Seq<char>) -> bool {
    let s = spec_to_lowercase(search);
    s.len() == 0 || contains(spec_to_lowercase(t.name@), s) || contains(
        spec_to_lowercase(t.description@),
        s,
    )
}

/// The positions of the tools that match a search, in order.
pub open spec fn matching_tools(tools: Seq<ToolStatus>, search: Seq<char>) -> Seq<usize>
    decreases tools.len(),
{
    if tools.len() == 0 {
        Seq::empty()
    } else if tool_matches(tools.last(), search) {
        matching_tools(tools.drop_last(), search).push((tools.len() - 1) as usize)
    } else {
        matching_tools(tools.drop_last(), search)
    }
}

/// The positions of the tools that the tool screen's search finds.
pub fn filter_tools(tools: &Vec<ToolStatus>, search: &str) -> (r: Vec<usize>)
    ensures
        r@ == matching_tools(tools@, search@),
{
    let sv = chars_of(search);
    let lower = to_lowercase(&sv);
    let mut out: Vec<usize> = Vec::new();
    let mut i: usize = 0;
    assert(tools@.take(0) =~= Seq::<ToolStatus>::empty());
    while i < tools.len()
        invariant
            i <= tools.len(),
            sv@ == search@,
            lower@ == spec_to_lowercase(search@),
            out@ == matching_tools(tools@.take(i as int), search@),
        decreases tools.len() - i,
    {
        let ghost pre = tools@.take(i as int);
        assert(tools@.take(i + 1).drop_last() =~= pre);
        assert(tools@.take(i + 1).last() == tools@[i as int]);
        let hit = if lower.len() == 0 {
            true
        } else {
            let name = to_lowercase(&chars_of(tools[i].name.as_str()));
            let desc = to_lowercase(&chars_of(tools[i].description.as_str()));
            contains_exec(&name, &lower) || contains_exec(&desc, &lower)
        };
        if hit {
            out.push(i);
        }
        i = i + 1;
    }
    assert(tools@.take(tools.len() as int) =~= tools@);
    out
}

/// The labelled sections of a finding's detail view, in order: description,
/// impact and fix, each only where its text is not empty.
pub open spec fn detail_sections_spec(d: FindingDetail) -> Seq<(Seq<char>, Seq<char>)> {
    (if d.description@.len() > 0 {
        seq![(" Description:"@, d.description@)]
    } else {
        Seq::empty()
    }) + (if d.impact@.len() > 0 {
        seq![(" Impact:"@, d.impact@)]
    } else {
        Seq::empty()
    }) + (if d.fix_suggestion@.len() > 0 {
        seq![(" Fix:"@, d.fix_suggestion@)]
    } else {
        Seq::empty()
    })
}

/// The labelled sections of a finding's detail view.
pub fn detail_sections(d: &FindingDetail) -> (r: Vec<(String, String)>)
    ensures
        r@.len() == detail_sections_spec(*d).len(),
        forall|k: int|
            0 <= k < r@.len() ==> (#[trigger] r@[k]).0@ == detail_sections_spec(*d)[k].0 && r@[k].1@
                == detail_sections_spec(*d)[k].1,
{
    let mut out: Vec<(String, String)> = Vec::new();
    let ghost mut sp: Seq<(Seq<char>, Seq<char>)> = Seq::empty();
    if chars_of(d.description.as_str()).len() > 0 {
        out.push((string_from(" Description:"), d.description.clone()));
        proof {
            sp = sp.push((" Description:"@, d.description@));
        }
    }
    if chars_of(d.impact.as_str()).len() > 0 {
        out.push((string_from(" Impact:"), d.impact.clone()));
        proof {
            sp = sp.push((" Impact:"@, d.impact@));
        }
    }
    if chars_of(d.fix_suggestion.as_str()).len() > 0 {
        out.push((string_from(" Fix:"), d.fix_suggestion.clone()));
        proof {
            sp = sp.push((" Fix:"@, d.fix_suggestion@));
        }
    }
    assert(sp =~= detail_sections_spec(*d));
    out
}

/// The positions that a search finds lie within the tool list.
pub proof fn lemma_matching_in_range(tools: Seq<ToolStatus>, search: Seq<char>)
    ensures
        forall|k: int|
            0 <= k < matching_tools(tools, search).len() ==> (#[trigger] matching_tools(tools, search)[k])
                < tools.len(),
    decreases tools.len(),
{
    if tools.len() > 0 {
        let pre = tools.drop_last();
        lemma_matching_in_range(pre, search);
        let m = matching_tools(tools, search);
        let mp = matching_tools(pre, search);
        assert forall|k: int| 0 <= k < m.len() implies (#[trigger] m[k]) < tools.len() by {
            if k < mp.len() {
                assert(m[k] == mp[k]);
            }
        }
    }
}

/// How many of the tools at positions `ps` are installed.
pub open spec fn installed_at(tools: Seq<ToolStatus>, ps: Seq<usize>) -> nat
    decreases ps.len(),
{
    if ps.len() == 0 {
        0
    } else {
        installed_at(tools, ps.drop_last()) + if tools[ps.last() as int].installed {
            1nat
        } else {
            0nat
        }
    }
}

/// The tool screen's header counts: how many of the tools that the search
/// finds are installed, and how many it finds.
pub fn registry_counts(tools: &Vec<ToolStatus>, search: &str) -> (r: (usize, usize))
    ensures
        r.0 == installed_at(tools@, matching_tools(tools@, search@)),
        r.1 == matching_tools(tools@, search@).len(),
{
    let ps = filter_tools(tools, search);
    proof {
        lemma_matching_in_range(tools@, search@);
    }
    let mut n: usize = 0;
    let mut k: usize = 0;
    assert(ps@.take(0) =~= Seq::<usize>::empty());
    while k < ps.len()
        invariant
            k <= ps.len(),
            ps@ == matching_tools(tools@, search@),
            forall|j: int| 0 <= j < ps@.len() ==> (#[trigger] ps@[j]) < tools@.len(),
            n == installed_at(tools@, ps@.take(k as int)),
            n <= k,
        decreases ps.len() - k,
    {
        assert(ps@.take(k + 1).drop_last() =~= ps@.take(k as int));
        assert(ps@.take(k + 1).last() == ps@[k as int]);
        let p = ps[k];
        if tools[p].installed {
            n = n + 1;
        }
        k = k + 1;
    }
    assert(ps@.take(ps.len() as int) =~= ps@);
    (n, ps.len())
}

} // verus!
