//! Targets, tool arguments, and what is known of installed tools.
use vstd::prelude::*;
use crate::base::template::{brace_free, lemma_replace_after_plain};
use crate::base::types::{
    copy_strings, opt_str, profile_views, strs, AppConfig, ToolProfile, ToolProfileView, ToolStatus,
    WizardStep,
};
use crate::text::{
    chars_of, concat, extend, replace_all, replace_str, span_until, starts_with, starts_with_str,
    str_eq, string_from, string_of, trim, trim_end_char, trim_end_char_exec, trim_exec, before_char,
};

verus! {

// ---------------------------------------------------------------------------
// Targets
// ---------------------------------------------------------------------------

/// The target is a web address.
pub open spec fn is_url(target: Seq<char>) -> bool {
    starts_with(target, "http://"@) || starts_with(target, "https://"@)
}

/// The kind of a target: `url` for web addresses, else `directory` or
/// `file` as the file system says, else `host`.
pub open spec fn target_kind_of(target: Seq<char>, is_dir: bool, is_file: bool) -> Seq<char> {
    if is_url(target) {
        "url"@
    } else if is_dir {
        "directory"@
    } else if is_file {
        "file"@
    } else {
        "host"@
    }
}

/// Whether a directory exists at `path`.
///
/// Trusted: wraps `std::path::Path::is_dir`; the answer depends on the file
/// system, so nothing is stated of it.
#[verifier::external_body]
fn path_is_dir(path: &str) -> bool {
    std::path::Path::new(path).is_dir()
}

/// Whether a regular file exists at `path`.
///
/// Trusted: wraps `std::path::Path::is_file`; the answer depends on the file
/// system, so nothing is stated of it.
#[verifier::external_body]
fn path_is_file(path: &str) -> bool {
    std::path::Path::new(path).is_file()
}

/// Whether anything exists at `path`.
///
/// Trusted: wraps `std::path::Path::exists`; the answer depends on the file
/// system, so nothing is stated of it.
#[verifier::external_body]
fn path_exists(path: &str) -> bool {
    std::path::Path::new(path).exists()
}

/// The path of the executable named `binary` on the search path, if any.
///
/// Trusted: wraps `which::which`; the answer depends on the environment and
/// the file system, so nothing is stated of it.
#[verifier::external_body]
fn which_path(binary: &str) -> Option<String> {
    which::which(binary).ok().map(|p| p.to_string_lossy().to_string())
}

/// The kind of a target, given what the file system says of it.
pub fn target_kind_from(target: &str, is_dir: bool, is_file: bool) -> (r: &'static str)
    ensures
        r@ == target_kind_of(target@, is_dir, is_file),
{
    let t = chars_of(target);
    if starts_with_str(&t, "http://") || starts_with_str(&t, "https://") {
        "url"
    } else if is_dir {
        "directory"
    } else if is_file {
        "file"
    } else {
        "host"
    }
}

/// The kind of a target: `url`, `directory`, `file` or `host`. Only a
/// target that is not a web address is looked up in the file system.
pub fn infer_target_kind(target: &str) -> (r: &'static str)
    ensures
        exists|d: bool, f: bool| r@ == target_kind_of(target@, d, f),
        is_url(target@) ==> r@ == "url"@,
{
    let t = chars_of(target);
    if starts_with_str(&t, "http://") || starts_with_str(&t, "https://") {
        let r = target_kind_from(target, false, false);
        return r;
    }
    let d = path_is_dir(target);
    let f = if d {
        false
    } else {
        path_is_file(target)
    };
    target_kind_from(target, d, f)
}

/// The target without an `http://` or `https://` scheme.
pub open spec fn strip_scheme(target: Seq<char>) -> Seq<char> {
    if starts_with(target, "http://"@) {
        target.skip(7)
    } else if starts_with(target, "https://"@) {
        target.skip(8)
    } else {
        target
    }
}

/// The host of a target: the part before the first `/` once the scheme is
/// removed.
pub open spec fn host_of(target: Seq<char>) -> Seq<char> {
    let raw = strip_scheme(target);
    raw.take(span_until(raw, '/') as int)
}

/// The web address of a target: as given when it has a scheme, otherwise
/// `https://` and the target without trailing slashes.
pub open spec fn url_of(target: Seq<char>) -> Seq<char> {
    if is_url(target) {
        target
    } else {
        "https://"@ + trim_end_char(target, '/')
    }
}

/// The host part of a target.
pub fn host_from_target(target: &str) -> (r: String)
    ensures
        r@ == host_of(target@),
{
    proof {
        reveal_strlit("http://");
        reveal_strlit("https://");
    }
    let t = chars_of(target);
    let raw = if starts_with_str(&t, "http://") {
        crate::text::slice(&t, 7, t.len())
    } else if starts_with_str(&t, "https://") {
        crate::text::slice(&t, 8, t.len())
    } else {
        t
    };
    assert(raw@ == strip_scheme(target@));
    let h = before_char(&raw, '/');
    string_of(&h)
}

/// The web address for a target.
pub fn url_from_target(target: &str) -> (r: String)
    ensures
        r@ == url_of(target@),
{
    let t = chars_of(target);
    if starts_with_str(&t, "http://") || starts_with_str(&t, "https://") {
        string_from(target)
    } else {
        let mut u = chars_of("https://");
        let trimmed = trim_end_char_exec(&t, '/');
        extend(&mut u, &trimmed);
        string_of(&u)
    }
}

/// A host part never holds a `/`.
pub proof fn law_host_has_no_slash(target: Seq<char>)
    ensures
        forall|i: int| 0 <= i < host_of(target).len() ==> host_of(target)[i] != '/',
{
    let raw = strip_scheme(target);
    crate::text::lemma_span_until_bound(raw, '/');
}

/// The web address of a web address is itself; so making a web address is
/// idempotent.
pub proof fn law_url_of_idempotent(target: Seq<char>)
    ensures
        url_of(url_of(target)) == url_of(target),
        is_url(url_of(target)),
{
    reveal_strlit("https://");
    reveal_strlit("http://");
    if !is_url(target) {
        let u = url_of(target);
        assert(u.subrange(0, 8) =~= "https://"@);
    }
}

// ---------------------------------------------------------------------------
// Arguments
// ---------------------------------------------------------------------------

/// Whether a tool that accepts `input_kinds` takes a target of kind `kind`
/// (an empty list accepts every kind).
pub open spec fn accepts(input_kinds: Seq<Seq<char>>, kind: Seq<char>) -> bool {
    input_kinds.len() == 0 || input_kinds.contains(kind)
}

/// One argument with its placeholders filled in, in this order: target,
/// host, web address, workspace, report file.
pub open spec fn fill_arg(
    arg: Seq<char>,
    target: Seq<char>,
    workspace: Seq<char>,
    report_file: Seq<char>,
) -> Seq<char> {
    let a1 = replace_all(arg, "{{target}}"@, target);
    let a2 = replace_all(a1, "{{target_host}}"@, host_of(target));
    let a3 = replace_all(a2, "{{target_url}}"@, url_of(target));
    let a4 = replace_all(a3, "{{workspace}}"@, workspace);
    replace_all(a4, "{{report_file}}"@, report_file)
}

/// Replacing a `{{`-pattern in text that begins with `{{`, has no other
/// brace opening, and does not begin with the pattern, changes nothing.
proof fn lemma_replace_keeps_other_placeholder(x: Seq<char>, pat: Seq<char>, v: Seq<char>)
    requires
        x.len() >= 2,
        x[0] == '{',
        x[1] == '{',
        brace_free(x.skip(2)),
        pat.len() >= 2,
        pat[0] == '{',
        pat[1] == '{',
        !starts_with(x, pat),
    ensures
        replace_all(x, pat, v) == x,
{
    let x1 = x.skip(1);
    let x2 = x.skip(2);
    assert(x1.skip(1) =~= x2);
    if starts_with(x1, pat) {
        assert(x1.subrange(0, pat.len() as int)[1] == x1[1]);
        assert(x1[1] == x2[0]);
    }
    lemma_replace_after_plain(x2, Seq::empty(), pat, v);
    assert(x2 + Seq::<char>::empty() =~= x2);
    assert(replace_all(x1, pat, v) == seq![x1[0]] + replace_all(x2, pat, v));
    assert(x1 =~= seq![x1[0]] + x2);
    assert(x =~= seq![x[0]] + x1);
}

/// A `{{target_host}}` in a tool argument is filled with the target's
/// host: the target, with an `http://` or `https://` scheme taken off, up
/// to its first `/`. Text around the placeholder is kept as it is.
pub proof fn law_target_host_is_filled_with_host(
    scheme: Seq<char>,
    host: Seq<char>,
    rest: Seq<char>,
    before: Seq<char>,
    after: Seq<char>,
    workspace: Seq<char>,
    report_file: Seq<char>,
)
    requires
        scheme == "http://"@ || scheme == "https://"@ || (scheme.len() == 0 && !is_url(host + rest)),
        forall|i: int| 0 <= i < host.len() ==> #[trigger] host[i] != '/' && host[i] != '{',
        rest.len() == 0 || rest[0] == '/',
        brace_free(before),
        brace_free(after),
    ensures
        fill_arg(before + "{{target_host}}"@ + after, scheme + host + rest, workspace, report_file) == before
            + host + after,
{
    reveal_strlit("http://");
    reveal_strlit("https://");
    reveal_strlit("{{target}}");
    reveal_strlit("{{target_host}}");
    reveal_strlit("{{target_url}}");
    reveal_strlit("{{workspace}}");
    reveal_strlit("{{report_file}}");
    let target = scheme + host + rest;
    let raw = host + rest;
    // The host of the target is `host`.
    if scheme == "http://"@ {
        assert(target.subrange(0, 7) =~= "http://"@);
        assert(target.skip(7) =~= raw);
    } else if scheme == "https://"@ {
        assert(target.subrange(0, 8) =~= "https://"@);
        assert(target.skip(8) =~= raw);
        assert(!starts_with(target, "http://"@)) by {
            assert(target[4] == 's');
            if starts_with(target, "http://"@) {
                assert(target.subrange(0, 7)[4] == target[4]);
            }
        }
    } else {
        assert(target =~= raw);
    }
    assert(strip_scheme(target) == raw);
    assert forall|j: int| 0 <= j < host.len() implies raw[j] != '/' by {
        assert(raw[j] == host[j]);
    }
    if rest.len() > 0 {
        assert(raw[host.len() as int] == rest[0]);
    }
    crate::text::lemma_span_until_is(raw, '/', host.len() as int);
    assert(raw.take(host.len() as int) =~= host);
    assert(host_of(target) == host);
    // Filling in the placeholders one after another.
    let ph = "{{target_host}}"@;
    let x = ph + after;
    let arg = before + ph + after;
    assert(arg =~= before + x);
    assert(brace_free(x.skip(2))) by {
        assert forall|i: int| 0 <= i < x.skip(2).len() implies #[trigger] x.skip(2)[i] != '{' by {
            if i + 2 < ph.len() {
                assert(x.skip(2)[i] == ph[i + 2]);
            } else {
                assert(x.skip(2)[i] == after[i + 2 - ph.len()]);
            }
        }
    }
    assert(!starts_with(x, "{{target}}"@)) by {
        if starts_with(x, "{{target}}"@) {
            assert(x.subrange(0, 10)[8] == x[8]);
            assert(x[8] == ph[8]);
        }
    }
    lemma_replace_keeps_other_placeholder(x, "{{target}}"@, target);
    lemma_replace_after_plain(before, x, "{{target}}"@, target);
    let a1 = replace_all(arg, "{{target}}"@, target);
    assert(a1 == arg);
    lemma_replace_after_plain(before, x, ph, host);
    assert(x.subrange(0, ph.len() as int) =~= ph);
    assert(x.skip(ph.len() as int) =~= after);
    lemma_replace_after_plain(after, Seq::empty(), ph, host);
    assert(after + Seq::<char>::empty() =~= after);
    let a2 = replace_all(a1, ph, host);
    assert(a2 == before + host + after);
    let plain = before + host + after;
    assert(brace_free(plain)) by {
        assert forall|i: int| 0 <= i < plain.len() implies #[trigger] plain[i] != '{' by {
            if i < before.len() {
                assert(plain[i] == before[i]);
            } else if i < before.len() + host.len() {
                assert(plain[i] == host[i - before.len()]);
            } else {
                assert(plain[i] == after[i - before.len() - host.len()]);
            }
        }
    }
    assert(plain + Seq::<char>::empty() =~= plain);
    lemma_replace_after_plain(plain, Seq::empty(), "{{target_url}}"@, url_of(target));
    lemma_replace_after_plain(plain, Seq::empty(), "{{workspace}}"@, workspace);
    lemma_replace_after_plain(plain, Seq::empty(), "{{report_file}}"@, report_file);
}

/// The command-line arguments of a tool for a target of kind `kind`, or
/// `None` when the tool does not take such targets. The workspace is the
/// target itself when it is a directory, `.` otherwise.
pub open spec fn args_for(
    p: ToolProfileView,
    target: Seq<char>,
    kind: Seq<char>,
    target_is_dir: bool,
    report_file: Seq<char>,
) -> Option<Seq<Seq<char>>> {
    if !accepts(p.input_kinds, kind) {
        None
    } else {
        let workspace = if target_is_dir {
            target
        } else {
            "."@
        };
        Some(p.args.map_values(|a: Seq<char>| fill_arg(a, target, workspace, report_file)))
    }
}

/// Whether `kind` is one of `kinds`.
fn kinds_contain(kinds: &Vec<String>, kind: &str) -> (b: bool)
    ensures
        b == strs(kinds@).contains(kind@),
{
    let mut i: usize = 0;
    while i < kinds.len()
        invariant
            i <= kinds.len(),
            forall|k: int| 0 <= k < i ==> strs(kinds@)[k] != kind@,
        decreases kinds.len() - i,
    {
        if str_eq(kinds[i].as_str(), kind) {
            assert(strs(kinds@)[i as int] == kind@);
            return true;
        }
        i = i + 1;
    }
    false
}

fn fill_arg_exec(arg: &String, target: &str, workspace: &Vec<char>, report_file: &str) -> (r: String)
    ensures
        r@ == fill_arg(arg@, target@, workspace@, report_file@),
{
    proof {
        reveal_strlit("{{target}}");
        reveal_strlit("{{target_host}}");
        reveal_strlit("{{target_url}}");
        reveal_strlit("{{workspace}}");
        reveal_strlit("{{report_file}}");
    }
    let a0 = chars_of(arg.as_str());
    let tv = chars_of(target);
    let a1 = replace_str(&a0, "{{target}}", &tv);
    let host = chars_of(host_from_target(target).as_str());
    let a2 = replace_str(&a1, "{{target_host}}", &host);
    let url = chars_of(url_from_target(target).as_str());
    let a3 = replace_str(&a2, "{{target_url}}", &url);
    let a4 = replace_str(&a3, "{{workspace}}", workspace);
    let rf = chars_of(report_file);
    let a5 = replace_str(&a4, "{{report_file}}", &rf);
    string_of(&a5)
}

/// The arguments of a tool, given the target's kind and whether it is a
/// directory.
pub fn render_args_with(
    profile: &ToolProfile,
    target: &str,
    kind: &str,
    target_is_dir: bool,
    report_file: &str,
) -> (r: Option<Vec<String>>)
    ensures
        match r {
            Some(v) => args_for(profile@, target@, kind@, target_is_dir, report_file@) == Some(
                strs(v@),
            ),
            None => args_for(profile@, target@, kind@, target_is_dir, report_file@) is None,
        },
{
    if profile.input_kinds.len() > 0 && !kinds_contain(&profile.input_kinds, kind) {
        return None;
    }
    let workspace = if target_is_dir {
        chars_of(target)
    } else {
        chars_of(".")
    };
    let ghost want = profile@.args.map_values(
        |a: Seq<char>| fill_arg(a, target@, workspace@, report_file@),
    );
    let mut out: Vec<String> = Vec::new();
    let mut i: usize = 0;
    while i < profile.args.len()
        invariant
            i <= profile.args.len(),
            want == profile@.args.map_values(
                |a: Seq<char>| fill_arg(a, target@, workspace@, report_file@),
            ),
            profile@.args == strs(profile.args@),
            strs(out@) == want.take(i as int),
        decreases profile.args.len() - i,
    {
        let a = fill_arg_exec(&profile.args[i], target, &workspace, report_file);
        let ghost o0 = strs(out@);
        out.push(a);
        assert(strs(out@) =~= o0.push(a@));
        assert(want.take(i + 1) =~= want.take(i as int).push(want[i as int]));
        i = i + 1;
    }
    assert(want.take(profile.args.len() as int) =~= want);
    Some(out)
}

/// The arguments of a tool for a target, with its placeholders filled in;
/// `None` when the tool does not take targets of that kind. The target's
/// kind and whether it is a directory are looked up in the file system.
pub fn render_args(profile: &ToolProfile, target: &str, report_file: &str) -> (r: Option<
    Vec<String>,
>)
    ensures
        exists|d: bool, f: bool, w: bool|
            match r {
                Some(v) => args_for(
                    profile@,
                    target@,
                    target_kind_of(target@, d, f),
                    w,
                    report_file@,
                ) == Some(strs(v@)),
                None => args_for(
                    profile@,
                    target@,
                    target_kind_of(target@, d, f),
                    w,
                    report_file@,
                ) is None,
            },
{
    let kind = infer_target_kind(target);
    let is_dir = path_is_dir(target);
    render_args_with(profile, target, kind, is_dir, report_file)
}

// ---------------------------------------------------------------------------
// Installed tools
// ---------------------------------------------------------------------------

/// What was found of a tool on this system.
#[derive(Debug, Clone)]
pub struct ToolRuntime {
    pub installed: bool,
    pub binary: Option<String>,
    pub version: Option<String>,
}

/// The first answer in `found` that names a file, if any.
pub open spec fn first_found(found: Seq<Option<Seq<char>>>) -> Option<Seq<char>>
    decreases found.len(),
{
    if found.len() == 0 {
        None
    } else if found[0] is Some {
        found[0]
    } else {
        first_found(found.skip(1))
    }
}

/// The executable of a tool, given whether its path override exists and
/// what the search path gave for each of its binary names, in order: the
/// override when there is one and it exists, else the first name found.
pub open spec fn binary_choice(
    path_override: Option<Seq<char>>,
    override_exists: bool,
    found: Seq<Option<Seq<char>>>,
) -> Option<Seq<char>> {
    match path_override {
        Some(p) => if override_exists {
            Some(p)
        } else {
            first_found(found)
        },
        None => first_found(found),
    }
}

/// The character sequences of optional strings.
pub open spec fn opt_strs(v: Seq<Option<String>>) -> Seq<Option<Seq<char>>> {
    v.map_values(|o: Option<String>| opt_str(o))
}

/// Where the first answer that names a file stands.
pub proof fn lemma_first_found(found: Seq<Option<Seq<char>>>, i: int)
    requires
        0 <= i <= found.len(),
        forall|k: int| 0 <= k < i ==> (#[trigger] found[k]) is None,
    ensures
        i < found.len() && found[i] is Some ==> first_found(found) == found[i],
        i == found.len() ==> first_found(found) is None,
    decreases i,
{
    if i > 0 {
        let t = found.skip(1);
        assert forall|k: int| 0 <= k < i - 1 implies (#[trigger] t[k]) is None by {
            assert(t[k] == found[k + 1]);
        }
        lemma_first_found(t, i - 1);
        if i < found.len() {
            assert(t[i - 1] == found[i]);
        }
    }
}

/// The executable of a tool, given the answers of the file system and the
/// search path (see `binary_choice`).
pub fn choose_binary(path_override: &Option<String>, override_exists: bool, found: &Vec<Option<String>>) -> (r:
    Option<String>)
    ensures
        opt_str(r) == binary_choice(opt_str(*path_override), override_exists, opt_strs(found@)),
{
    if let Some(p) = path_override {
        if override_exists {
            return Some(p.clone());
        }
    }
    let ghost f = opt_strs(found@);
    let mut i: usize = 0;
    while i < found.len()
        invariant
            i <= found.len(),
            f == opt_strs(found@),
            binary_choice(opt_str(*path_override), override_exists, f) == first_found(f),
            forall|k: int| 0 <= k < i ==> (#[trigger] f[k]) is None,
        decreases found.len() - i,
    {
        if found[i].is_some() {
            let x = found[i].clone().unwrap();
            let r = Some(x);
            proof {
                assert(f[i as int] == opt_str(found@[i as int]));
                assert(opt_str(r) == f[i as int]);
                lemma_first_found(f, i as int);
            }
            return r;
        }
        i = i + 1;
    }
    proof {
        lemma_first_found(f, i as int);
    }
    None
}

/// The executable of a tool: its path override when something exists
/// there, else the first of its binary names found on the search path, the
/// names asked in order. What the file system and the search path answer is
/// not stated.
pub fn locate_binary(profile: &ToolProfile) -> (r: Option<String>)
    ensures
        exists|e: bool, f: Seq<Option<Seq<char>>>|
            f.len() == profile.binary_names@.len() && #[trigger] binary_choice(
                opt_str(profile.path_override),
                e,
                f,
            ) == opt_str(r),
{
    if let Some(p) = &profile.path_override {
        if path_exists(p.as_str()) {
            let ghost f = Seq::new(profile.binary_names@.len(), |k: int| None::<Seq<char>>);
            let r = Some(p.clone());
            assert(binary_choice(opt_str(profile.path_override), true, f) == opt_str(r));
            return r;
        }
    }
    let n = profile.binary_names.len();
    let ghost mut f: Seq<Option<Seq<char>>> = Seq::empty();
    let mut i: usize = 0;
    while i < n
        invariant
            i <= n,
            n == profile.binary_names@.len(),
            f.len() == i,
            forall|k: int| 0 <= k < i ==> (#[trigger] f[k]) is None,
        decreases n - i,
    {
        if let Some(found) = which_path(profile.binary_names[i].as_str()) {
            let ghost g = f.push(Some(found@)) + Seq::new((n - i - 1) as nat, |k: int| None::<Seq<char>>);
            proof {
                assert forall|k: int| 0 <= k < i implies (#[trigger] g[k]) is None by {
                    assert(g[k] == f[k]);
                }
                assert(g[i as int] == Some(found@));
                lemma_first_found(g, i as int);
                assert(binary_choice(opt_str(profile.path_override), false, g) == Some(found@));
            }
            return Some(found);
        }
        proof {
            f = f.push(None);
        }
        i = i + 1;
    }
    proof {
        lemma_first_found(f, i as int);
        assert(binary_choice(opt_str(profile.path_override), false, f) is None);
    }
    None
}

/// A runtime record: installed exactly when a binary was found.
pub fn runtime_from(binary: Option<String>, version: Option<String>) -> (r: ToolRuntime)
    ensures
        r.installed == binary is Some,
        r.binary == binary,
        r.version == version,
{
    ToolRuntime { installed: binary.is_some(), binary, version }
}

/// Where each tool of the configuration is installed; versions are not
/// probed here.
pub fn locate_tools(config: &AppConfig) -> (r: Vec<ToolRuntime>)
    ensures
        r@.len() == config.tools@.len(),
        forall|i: int|
            0 <= i < r@.len() ==> exists|e: bool, f: Seq<Option<Seq<char>>>|
                f.len() == config.tools@[i].binary_names@.len() && #[trigger] binary_choice(
                    opt_str(config.tools@[i].path_override),
                    e,
                    f,
                ) == opt_str((#[trigger] r@[i]).binary),
        forall|i: int| 0 <= i < r@.len() ==> #[trigger] r@[i].installed == r@[i].binary is Some,
        forall|i: int| 0 <= i < r@.len() ==> #[trigger] r@[i].version is None,
{
    let mut r: Vec<ToolRuntime> = Vec::new();
    let mut i: usize = 0;
    while i < config.tools.len()
        invariant
            i <= config.tools.len(),
            r@.len() == i,
            forall|k: int|
                0 <= k < r@.len() ==> exists|e: bool, f: Seq<Option<Seq<char>>>|
                    f.len() == config.tools@[k].binary_names@.len() && #[trigger] binary_choice(
                        opt_str(config.tools@[k].path_override),
                        e,
                        f,
                    ) == opt_str((#[trigger] r@[k]).binary),
            forall|k: int| 0 <= k < r@.len() ==> #[trigger] r@[k].installed == r@[k].binary is Some,
            forall|k: int| 0 <= k < r@.len() ==> #[trigger] r@[k].version is None,
        decreases config.tools.len() - i,
    {
        let b = locate_binary(&config.tools[i]);
        let ghost before = r@;
        r.push(runtime_from(b, None));
        proof {
            assert forall|k: int| 0 <= k < i implies exists|e: bool, f: Seq<Option<Seq<char>>>|
                f.len() == config.tools@[k].binary_names@.len() && #[trigger] binary_choice(
                    opt_str(config.tools@[k].path_override),
                    e,
                    f,
                ) == opt_str((#[trigger] r@[k]).binary) by {
                assert(r@[k] == before[k]);
            }
        }
        i = i + 1;
    }
    r
}

/// The set-up guide shown for a tool, by whether it is installed.
pub open spec fn wizard_spec(install_hint: Seq<char>, installed: bool) -> Seq<(u8, Seq<char>, Seq<char>)> {
    if installed {
        seq![
            (1u8, "Detected"@, "Torot found this tool on your system."@),
            (2u8, "Tune Arguments"@, "Adjust command arguments for your use case."@),
        ]
    } else {
        seq![
            (
                1u8,
                "Install Or Locate"@,
                if blank_hint(install_hint) {
                    "Install the tool or paste the binary path."@
                } else {
                    "Hint: "@ + install_hint
                },
            ),
            (2u8, "Set Binary Path"@, "Add the exact path in Torot tool settings if auto-detection fails."@),
            (3u8, "Choose Arguments"@, "Keep placeholders like {{target}} for Torot to fill."@),
        ]
    }
}

/// An install hint that is empty once trimmed.
pub open spec fn blank_hint(s: Seq<char>) -> bool {
    trim(s).len() == 0
}

/// The content of wizard steps.
pub open spec fn steps_view(v: Seq<WizardStep>) -> Seq<(u8, Seq<char>, Seq<char>)> {
    v.map_values(|w: WizardStep| (w.order, w.title@, w.detail@))
}

fn step(order: u8, title: &str, detail: String) -> (w: WizardStep)
    ensures
        w.order == order,
        w.title@ == title@,
        w.detail == detail,
{
    WizardStep { order, title: string_from(title), detail }
}

/// The set-up guide for a tool.
pub fn wizard_steps(profile: &ToolProfile, installed: bool) -> (r: Vec<WizardStep>)
    ensures
        steps_view(r@) == wizard_spec(profile.install_hint@, installed),
{
    let mut r: Vec<WizardStep> = Vec::new();
    if installed {
        r.push(step(1, "Detected", string_from("Torot found this tool on your system.")));
        r.push(
            step(2, "Tune Arguments", string_from("Adjust command arguments for your use case.")),
        );
    } else {
        let hint = chars_of(profile.install_hint.as_str());
        let trimmed = trim_exec(&hint);
        let detail = if trimmed.len() == 0 {
            string_from("Install the tool or paste the binary path.")
        } else {
            let mut d = chars_of("Hint: ");
            extend(&mut d, &hint);
            string_of(&d)
        };
        r.push(step(1, "Install Or Locate", detail));
        r.push(
            step(
                2,
                "Set Binary Path",
                string_from("Add the exact path in Torot tool settings if auto-detection fails."),
            ),
        );
        r.push(
            step(
                3,
                "Choose Arguments",
                string_from("Keep placeholders like {{target}} for Torot to fill."),
            ),
        );
    }
    assert(steps_view(r@) =~= wizard_spec(profile.install_hint@, installed));
    r
}

/// The status of one tool, given what was found of it.
pub open spec fn status_matches(s: ToolStatus, p: ToolProfileView, rt: ToolRuntime) -> bool {
    &&& s.name@ == p.name
    &&& s.installed == rt.installed
    &&& s.binary@ == (match rt.binary {
        Some(b) => b@,
        None => Seq::empty(),
    })
    &&& s.version@ == (match rt.version {
        Some(v) => v@,
        None => Seq::empty(),
    })
    &&& s.domain@ == p.domain
    &&& s.description@ == p.description
    &&& s.install_hint@ == p.install_hint
    &&& s.output_format@ == p.output_format
    &&& s.source@ == p.source
    &&& s.auto_detect == p.auto_detect
    &&& s.enabled == p.enabled
    &&& strs(s.capabilities@) == p.capabilities
    &&& strs(s.knowledge@) == p.knowledge
    &&& steps_view(s.wizard_steps@) == wizard_spec(p.install_hint, rt.installed)
}

fn or_empty_string(o: &Option<String>) -> (r: String)
    ensures
        r@ == (match o {
            Some(b) => b@,
            None => Seq::empty(),
        }),
{
    match o {
        Some(b) => b.clone(),
        None => String::new(),
    }
}

/// The status of one tool.
pub fn tool_status(profile: &ToolProfile, runtime: &ToolRuntime) -> (s: ToolStatus)
    ensures
        status_matches(s, profile@, *runtime),
{
    ToolStatus {
        name: profile.name.clone(),
        installed: runtime.installed,
        binary: or_empty_string(&runtime.binary),
        version: or_empty_string(&runtime.version),
        domain: profile.domain.clone(),
        description: profile.description.clone(),
        install_hint: profile.install_hint.clone(),
        output_format: profile.output_format.clone(),
        source: profile.source.clone(),
        auto_detect: profile.auto_detect,
        enabled: profile.enabled,
        capabilities: copy_strings(&profile.capabilities),
        knowledge: copy_strings(&profile.knowledge),
        wizard_steps: wizard_steps(profile, runtime.installed),
    }
}

/// The status of every configured tool, given what was found of each (one
/// runtime record per tool, in order).
pub fn tool_statuses(config: &AppConfig, runtimes: &Vec<ToolRuntime>) -> (r: Vec<ToolStatus>)
    requires
        runtimes@.len() == config.tools@.len(),
    ensures
        r@.len() == config.tools@.len(),
        forall|i: int|
            0 <= i < r@.len() ==> status_matches(#[trigger] r@[i], config.tools@[i]@, runtimes@[i]),
{
    let mut r: Vec<ToolStatus> = Vec::new();
    let mut i: usize = 0;
    while i < config.tools.len()
        invariant
            i <= config.tools.len(),
            runtimes@.len() == config.tools@.len(),
            r@.len() == i,
            forall|k: int|
                0 <= k < i ==> status_matches(#[trigger] r@[k], config.tools@[k]@, runtimes@[k]),
        decreases config.tools.len() - i,
    {
        let s = tool_status(&config.tools[i], &runtimes[i]);
        r.push(s);
        i = i + 1;
    }
    r
}

/// The tools suggested for a target of kind `kind`: the first four enabled
/// tools, in configuration order, that take such targets and are installed.
pub open spec fn suggestion(tools: Seq<ToolProfileView>, kind: Seq<char>, installed: Seq<bool>) -> Seq<
    Seq<char>,
>
    decreases tools.len(),
{
    if tools.len() == 0 {
        Seq::empty()
    } else {
        let prev = suggestion(tools.drop_last(), kind, installed);
        let t = tools.last();
        if prev.len() < 4 && t.enabled && accepts(t.input_kinds, kind) && installed[tools.len() - 1] {
            prev.push(t.name)
        } else {
            prev
        }
    }
}

/// Tools to run when none were chosen: the first four enabled tools that
/// take the target's kind and are installed on this system.
pub fn suggest_tools(config: &AppConfig, target: &str) -> (r: Vec<String>)
    ensures
        r@.len() <= 4,
        exists|d: bool, f: bool, inst: Seq<bool>|
            inst.len() == config.tools@.len() && strs(r@) == suggestion(
                profile_views(config.tools@),
                target_kind_of(target@, d, f),
                inst,
            ),
{
    let kind = infer_target_kind(target);
    let ghost tv = profile_views(config.tools@);
    let ghost mut inst: Seq<bool> = Seq::empty();
    let mut r: Vec<String> = Vec::new();
    let mut i: usize = 0;
    assert(tv.take(0) =~= Seq::<ToolProfileView>::empty());
    while i < config.tools.len()
        invariant
            i <= config.tools.len(),
            tv == profile_views(config.tools@),
            inst.len() == i,
            strs(r@) == suggestion(tv.take(i as int), kind@, inst),
            r@.len() <= 4,
        decreases config.tools.len() - i,
    {
        let tool = &config.tools[i];
        let ghost pre = tv.take(i as int);
        let ghost post = tv.take(i + 1);
        assert(post.drop_last() =~= pre);
        assert(post.last() == tool@);
        let mut found = false;
        if r.len() < 4 && tool.enabled && (tool.input_kinds.len() == 0 || kinds_contain(
            &tool.input_kinds,
            kind,
        )) {
            found = locate_binary(tool).is_some();
        }
        proof {
            lemma_suggestion_extend(pre, kind@, inst, found);
            inst = inst.push(found);
        }
        if found {
            let ghost r0 = strs(r@);
            r.push(tool.name.clone());
            assert(strs(r@) =~= r0.push(tool.name@));
        }
        i = i + 1;
    }
    assert(tv.take(config.tools.len() as int) =~= tv);
    r
}

/// The tools suggested for a target of kind `kind`, given which tools of
/// the configuration are installed.
pub fn suggest_tools_with(config: &AppConfig, kind: &str, installed: &[bool]) -> (r: Vec<String>)
    requires
        installed@.len() == config.tools@.len(),
    ensures
        strs(r@) == suggestion(profile_views(config.tools@), kind@, installed@),
{
    let ghost tv = profile_views(config.tools@);
    let mut r: Vec<String> = Vec::new();
    let mut i: usize = 0;
    assert(tv.take(0) =~= Seq::<ToolProfileView>::empty());
    proof {
        lemma_suggestion_prefix(tv.take(0), kind@, installed@);
    }
    while i < config.tools.len()
        invariant
            i <= config.tools.len(),
            installed@.len() == config.tools@.len(),
            tv == profile_views(config.tools@),
            strs(r@) == suggestion(tv.take(i as int), kind@, installed@),
            r@.len() <= 4,
        decreases config.tools.len() - i,
    {
        let tool = &config.tools[i];
        let ghost pre = tv.take(i as int);
        let ghost post = tv.take(i + 1);
        assert(post.drop_last() =~= pre);
        assert(post.last() == tool@);
        proof {
            lemma_suggestion_prefix(post, kind@, installed@);
            lemma_suggestion_prefix(pre, kind@, installed@);
            assert(installed@.take(i + 1).take(i as int) =~= installed@.take(i as int));
            lemma_suggestion_prefix(pre, kind@, installed@.take(i + 1));
        }
        if r.len() < 4 && tool.enabled && (tool.input_kinds.len() == 0 || kinds_contain(&tool.input_kinds, kind))
            && installed[i] {
            let ghost r0 = strs(r@);
            r.push(tool.name.clone());
            assert(strs(r@) =~= r0.push(tool.name@));
        }
        i = i + 1;
    }
    assert(tv.take(config.tools.len() as int) =~= tv);
    r
}

/// The suggestion for one more tool depends on the earlier tools' flags
/// only through the earlier suggestion.
pub proof fn lemma_suggestion_extend(pre: Seq<ToolProfileView>, kind: Seq<char>, inst: Seq<bool>, b: bool)
    requires
        inst.len() == pre.len(),
    ensures
        suggestion(pre, kind, inst.push(b)) == suggestion(pre, kind, inst),
{
    lemma_suggestion_prefix(pre, kind, inst.push(b));
    assert(inst.push(b).take(pre.len() as int) =~= inst);
}

/// The suggestion for some tools reads only the first flags.
pub proof fn lemma_suggestion_prefix(pre: Seq<ToolProfileView>, kind: Seq<char>, inst: Seq<bool>)
    requires
        inst.len() >= pre.len(),
    ensures
        suggestion(pre, kind, inst) == suggestion(pre, kind, inst.take(pre.len() as int)),
    decreases pre.len(),
{
    if pre.len() > 0 {
        lemma_suggestion_prefix(pre.drop_last(), kind, inst);
        lemma_suggestion_prefix(pre.drop_last(), kind, inst.take(pre.len() as int));
        assert(inst.take(pre.len() as int).take(pre.len() - 1) =~= inst.take(pre.len() - 1));
    }
}

} // verus!
