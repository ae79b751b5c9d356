//! The decisions of the health report: which browsers the configuration
//! refers to, the sample URLs of the rule preview, and the checks built
//! from what was observed.

use vstd::prelude::*;

use crate::bindings::{self, WebUrl};
use crate::check::{Check, CheckView, Level, mk_check};
use crate::config::{Config, ConfigView, RuleView};
use crate::dispatch::{self, ResolvedBrowser, UrlView};
use crate::text;

verus! {

// ---------------------------------------------------------------------------
// String order
// ---------------------------------------------------------------------------

/// The lexicographic order of strings by character (which is the order of
/// their UTF-8 bytes).
pub open spec fn str_lt(a: Seq<char>, b: Seq<char>) -> bool
    decreases a.len(),
{
    if a.len() == 0 {
        b.len() > 0
    } else if b.len() == 0 {
        false
    } else if a[0] != b[0] {
        a[0] < b[0]
    } else {
        str_lt(a.drop_first(), b.drop_first())
    }
}

/// The order is strict and total.
pub proof fn lemma_str_lt_total(a: Seq<char>, b: Seq<char>)
    ensures
        !(str_lt(a, b) && str_lt(b, a)),
        !str_lt(a, a),
        a != b ==> str_lt(a, b) || str_lt(b, a),
    decreases a.len(),
{
    if a.len() > 0 && b.len() > 0 && a[0] == b[0] {
        lemma_str_lt_total(a.drop_first(), b.drop_first());
        if a != b {
            assert(a =~= seq![a[0]] + a.drop_first());
            assert(b =~= seq![b[0]] + b.drop_first());
        }
    }
    if a.len() > 0 {
        lemma_str_lt_total(a.drop_first(), a.drop_first());
    }
    if a.len() == 0 && b.len() == 0 {
        assert(a =~= b);
    }
}

/// The order is transitive.
pub proof fn lemma_str_lt_transitive(a: Seq<char>, b: Seq<char>, c: Seq<char>)
    requires
        str_lt(a, b),
        str_lt(b, c),
    ensures
        str_lt(a, c),
    decreases a.len(),
{
    if a.len() > 0 && b.len() > 0 && c.len() > 0 && a[0] == b[0] && b[0] == c[0] {
        lemma_str_lt_transitive(a.drop_first(), b.drop_first(), c.drop_first());
    }
}

proof fn lemma_str_lt_at(a: Seq<char>, b: Seq<char>, k: int)
    requires
        0 <= k <= a.len(),
        k <= b.len(),
        a.subrange(0, k) == b.subrange(0, k),
        k == a.len() || k == b.len() || a[k] != b[k],
    ensures
        str_lt(a, b) == ((k == a.len() && k < b.len()) || (k < a.len() && k < b.len() && a[k]
            < b[k])),
    decreases k,
{
    if k > 0 {
        assert(a[0] == a.subrange(0, k)[0]);
        assert(b[0] == b.subrange(0, k)[0]);
        let a1 = a.drop_first();
        let b1 = b.drop_first();
        assert(a1.subrange(0, k - 1) =~= a.subrange(0, k).drop_first());
        assert(b1.subrange(0, k - 1) =~= b.subrange(0, k).drop_first());
        lemma_str_lt_at(a1, b1, k - 1);
    }
}

/// Whether `a` sorts before `b`.
pub fn less_than(a: &str, b: &str) -> (r: bool)
    ensures
        r == str_lt(a@, b@),
{
    let av = text::chars_of(a);
    let bv = text::chars_of(b);
    let mut k: usize = 0;
    while k < av.len() && k < bv.len() && av[k] == bv[k]
        invariant
            av@ == a@,
            bv@ == b@,
            k <= av.len(),
            k <= bv.len(),
            a@.subrange(0, k as int) == b@.subrange(0, k as int),
        decreases av.len() - k,
    {
        assert(a@.subrange(0, k + 1) =~= a@.subrange(0, k as int).push(a@[k as int]));
        assert(b@.subrange(0, k + 1) =~= b@.subrange(0, k as int).push(b@[k as int]));
        k = k + 1;
    }
    proof {
        lemma_str_lt_at(a@, b@, k as int);
    }
    if k == av.len() {
        k < bv.len()
    } else if k == bv.len() {
        false
    } else {
        av[k] < bv[k]
    }
}

/// Strictly increasing in the string order.
pub open spec fn strictly_sorted(s: Seq<Seq<char>>) -> bool {
    forall|i: int, j: int| 0 <= i < j < s.len() ==> str_lt(#[trigger] s[i], #[trigger] s[j])
}

/// A strictly sorted list names nothing twice.
pub proof fn lemma_sorted_ids_are_distinct(s: Seq<Seq<char>>)
    requires
        strictly_sorted(s),
    ensures
        forall|i: int, j: int| 0 <= i < j < s.len() ==> s[i] != s[j],
{
    assert forall|i: int, j: int| 0 <= i < j < s.len() implies s[i] != s[j] by {
        assert(str_lt(s[i], s[j]));
        lemma_str_lt_total(s[i], s[j]);
    }
}

fn insert_sorted(v: &mut Vec<String>, x: String)
    requires
        strictly_sorted(old(v).deep_view()),
    ensures
        strictly_sorted(final(v).deep_view()),
        forall|y: Seq<char>| #[trigger]
            final(v).deep_view().contains(y) <==> (old(v).deep_view().contains(y) || y == x@),
{
    let ghost old_v = v.deep_view();
    let mut p: usize = 0;
    while p < v.len() && less_than(v[p].as_str(), x.as_str())
        invariant
            p <= v.len(),
            v.deep_view() == old_v,
            forall|k: int| 0 <= k < p ==> str_lt(#[trigger] old_v[k], x@),
        decreases v.len() - p,
    {
        p = p + 1;
    }
    if p < v.len() && v[p] == x {
        assert(old_v[p as int] == x@);
        return;
    }
    proof {
        if p < old_v.len() {
            lemma_str_lt_total(old_v[p as int], x@);
        }
    }
    let ghost xv = x@;
    v.insert(p, x);
    let ghost nv = v.deep_view();
    assert(nv =~= old_v.insert(p as int, xv));
    assert forall|i: int, j: int| 0 <= i < j < nv.len() implies str_lt(
        #[trigger] nv[i],
        #[trigger] nv[j],
    ) by {
        if j < p {
            assert(nv[i] == old_v[i] && nv[j] == old_v[j]);
        } else if j == p {
            assert(nv[i] == old_v[i]);
        } else if i == p {
            assert(nv[j] == old_v[j - 1]);
            if j - 1 > p {
                lemma_str_lt_transitive(xv, old_v[p as int], old_v[j - 1]);
            }
        } else if i < p {
            assert(nv[i] == old_v[i] && nv[j] == old_v[j - 1]);
        } else {
            assert(nv[i] == old_v[i - 1] && nv[j] == old_v[j - 1]);
        }
    }
    assert forall|y: Seq<char>| #[trigger] nv.contains(y) <==> (old_v.contains(y) || y == xv) by {
        if nv.contains(y) {
            let k = choose|k: int| 0 <= k < nv.len() && nv[k] == y;
            if k < p {
                assert(old_v[k] == y);
            } else if k > p {
                assert(old_v[k - 1] == y);
            }
        }
        if old_v.contains(y) {
            let k = choose|k: int| 0 <= k < old_v.len() && old_v[k] == y;
            if k < p {
                assert(nv[k] == y);
            } else {
                assert(nv[k + 1] == y);
            }
        }
        if y == xv {
            assert(nv[p as int] == y);
        }
    }
}

// ---------------------------------------------------------------------------
// Referenced browsers
// ---------------------------------------------------------------------------

/// The browser ids a configuration refers to, trimmed: the default browser
/// and each rule's browser.
pub open spec fn referenced_ids(cfg: ConfigView) -> Seq<Seq<char>> {
    seq![text::trim(cfg.default_browser)] + cfg.rules.map_values(
        |r: RuleView| text::trim(r.browser),
    )
}

/// The distinct referenced browser ids, in string order.
pub fn referenced_browsers(cfg: &Config) -> (r: Vec<String>)
    ensures
        strictly_sorted(r.deep_view()),
        forall|y: Seq<char>| #[trigger]
            r.deep_view().contains(y) <==> referenced_ids(cfg@).contains(y),
{
    let ghost ids = referenced_ids(cfg@);
    let mut r: Vec<String> = Vec::new();
    let t0 = text::trimmed(cfg.default_browser.as_str());
    let ghost t0v = t0@;
    assert(r.deep_view() =~= Seq::<Seq<char>>::empty());
    insert_sorted(&mut r, t0);
    assert(ids[0] == t0v);
    assert forall|y: Seq<char>| #[trigger] r.deep_view().contains(y) <==> ids.take(1).contains(
        y,
    ) by {
        if y == t0v {
            assert(ids.take(1)[0] == y);
        }
    }
    let mut i: usize = 0;
    while i < cfg.rules.len()
        invariant
            i <= cfg.rules.len(),
            ids == referenced_ids(cfg@),
            strictly_sorted(r.deep_view()),
            forall|y: Seq<char>| #[trigger]
                r.deep_view().contains(y) <==> ids.take(i + 1).contains(y),
        decreases cfg.rules.len() - i,
    {
        let t = text::trimmed(cfg.rules[i].browser.as_str());
        let ghost tv = t@;
        insert_sorted(&mut r, t);
        assert(ids[i + 1] == tv);
        assert(ids.take(i + 2) =~= ids.take(i + 1).push(tv));
        let ghost pre = ids.take(i + 1);
        let ghost post = ids.take(i + 2);
        assert forall|y: Seq<char>| #[trigger] r.deep_view().contains(y) <==> post.contains(y) by {
            if post.contains(y) {
                let k = choose|k: int| 0 <= k < post.len() && #[trigger] post[k] == y;
                if k < i + 1 {
                    assert(pre[k] == y);
                } else {
                    assert(post[k] == tv);
                }
            }
            if y == tv {
                assert(post[i + 1] == y);
            }
            if pre.contains(y) {
                let k = choose|k: int| 0 <= k < pre.len() && #[trigger] pre[k] == y;
                assert(post[k] == y);
            }
        }
        i = i + 1;
    }
    assert(ids.take(cfg.rules.len() + 1) =~= ids);
    r
}

// ---------------------------------------------------------------------------
// Rule preview
// ---------------------------------------------------------------------------

/// `s` with every leading occurrence of `p` removed
/// (`str::trim_start_matches` with a string).
pub open spec fn trim_start_matches(s: Seq<char>, p: Seq<char>) -> Seq<char>
    decreases s.len(),
{
    if p.len() > 0 && text::starts_with(s, p) {
        trim_start_matches(s.subrange(p.len() as int, s.len() as int), p)
    } else {
        s
    }
}

fn without_leading(s: &str, p: &str) -> (r: String)
    ensures
        r@ == trim_start_matches(s@, p@),
{
    let plen = p.unicode_len();
    let mut cur = String::from_str(s);
    if plen == 0 {
        return cur;
    }
    while text::has_prefix(cur.as_str(), p)
        invariant
            plen == p@.len(),
            plen > 0,
            trim_start_matches(cur@, p@) == trim_start_matches(s@, p@),
        decreases cur@.len(),
    {
        let n = cur.unicode_len();
        let shorter = String::from_str(cur.as_str().substring_char(plen, n));
        cur = shorter;
    }
    cur
}

/// The host that stands for a rule in the preview: its first host pattern
/// without leading `*.` and with each `*` replaced by `example`;
/// `example.com` for a regex-only rule; none otherwise.
pub open spec fn sample_host(rule: RuleView) -> Option<Seq<char>> {
    if rule.host.len() > 0 {
        Some(
            text::replace_all(
                trim_start_matches(trim_start_matches(rule.host[0], "*."@), "*."@),
                "*"@,
                "example"@,
            ),
        )
    } else if rule.url_regex is Some {
        Some("example.com"@)
    } else {
        None
    }
}

/// The views of a list of URLs.
pub open spec fn urls_view(urls: Seq<WebUrl>) -> Seq<UrlView> {
    urls.map_values(|u: WebUrl| u@)
}

/// Adds `https://<host>/` when it parses and is not there yet.
pub open spec fn add_sample(urls: Seq<UrlView>, host: Seq<char>) -> Seq<UrlView> {
    match bindings::url_parse_result("https://"@ + host + "/"@) {
        Ok(u) => if exists|i: int| 0 <= i < urls.len() && urls[i].0 == u.0 {
            urls
        } else {
            urls.push(u)
        },
        Err(_) => urls,
    }
}

/// The samples of the first rules, in rule order.
pub open spec fn rule_samples(rules: Seq<RuleView>) -> Seq<UrlView>
    decreases rules.len(),
{
    if rules.len() == 0 {
        seq![]
    } else {
        let prev = rule_samples(rules.drop_last());
        match sample_host(rules.last()) {
            Some(h) => add_sample(prev, h),
            None => prev,
        }
    }
}

/// The preview URLs: samples for the first eight rules, then
/// `https://example.org/`.
pub open spec fn sample_urls_spec(cfg: ConfigView) -> Seq<UrlView> {
    let rules = if cfg.rules.len() > 8 {
        cfg.rules.take(8)
    } else {
        cfg.rules
    };
    add_sample(rule_samples(rules), "example.org"@)
}

fn push_sample(urls: &mut Vec<WebUrl>, host: &str)
    ensures
        urls_view(final(urls)@) == add_sample(
            urls_view(old(urls)@),
            host@,
        ),
{
    let ghost before = urls_view(urls@);
    let candidate = text::concat3("https://", host, "/");
    match bindings::url_parse(candidate.as_str()) {
        Ok(u) => {
            let mut i: usize = 0;
            while i < urls.len()
                invariant
                    i <= urls.len(),
                    before == urls_view(urls@),
                    candidate@ == "https://"@ + host@ + "/"@,
                    bindings::url_parse_result(candidate@) == Ok::<UrlView, (bool, Seq<char>)>(u@),
                    forall|k: int| 0 <= k < i ==> before[k].0 != u@.0,
                decreases urls.len() - i,
            {
                if urls[i].serialization == u.serialization {
                    assert(before[i as int].0 == u@.0);
                    return;
                }
                i = i + 1;
            }
            let ghost uv = u@;
            urls.push(u);
            assert(urls_view(urls@) =~= before.push(uv));
        },
        Err(_) => {},
    }
}

/// Derives a few representative URLs from the rules for the preview.
pub fn sample_urls(cfg: &Config) -> (r: Vec<WebUrl>)
    ensures
        urls_view(r@) == sample_urls_spec(cfg@),
{
    let n: usize = if cfg.rules.len() > 8 {
        8
    } else {
        cfg.rules.len()
    };
    let ghost rules = if cfg@.rules.len() > 8 {
        cfg@.rules.take(8)
    } else {
        cfg@.rules
    };
    let mut urls: Vec<WebUrl> = Vec::new();
    let mut i: usize = 0;
    while i < n
        invariant
            i <= n,
            n == rules.len(),
            n <= cfg.rules.len(),
            rules == (if cfg@.rules.len() > 8 {
                cfg@.rules.take(8)
            } else {
                cfg@.rules
            }),
            urls_view(urls@) == rule_samples(rules.take(i as int)),
        decreases n - i,
    {
        assert(rules.take(i + 1).drop_last() =~= rules.take(i as int));
        let rule = &cfg.rules[i];
        assert(rules.take(i + 1).last() == rule@);
        if rule.host.len() > 0 {
            let h1 = without_leading(rule.host[0].as_str(), "*.");
            let h2 = without_leading(h1.as_str(), "*.");
            let h = text::replace_str(h2.as_str(), "*", "example");
            push_sample(&mut urls, h.as_str());
        } else if rule.url_regex.is_some() {
            push_sample(&mut urls, "example.com");
        }
        i = i + 1;
    }
    assert(rules.take(n as int) =~= rules);
    push_sample(&mut urls, "example.org");
    urls
}

/// The preview line of a URL and its decision.
pub fn preview_line(url: &WebUrl, d: &dispatch::Decision) -> (r: String)
    ensures
        r@ == "  "@ + url@.0 + " -> "@ + d@.browser_id + " ("@ + dispatch::via_spec(d@) + ")"@,
{
    let line = dispatch::dry_run_line(url, d);
    text::concat("  ", line.as_str())
}

// ---------------------------------------------------------------------------
// Checks from observations
// ---------------------------------------------------------------------------

/// The check of the configuration file: loaded, or why not.
pub fn config_file_check(path: &str, load_error: Option<&str>) -> (c: Check)
    ensures
        c@ == match load_error {
            None => mk_check("config: file"@, Level::Pass, path@),
            Some(e) => mk_check(
                "config: file"@,
                Level::Fail,
                path@ + " ("@ + e@ + "); run `browser-dispatcher install`"@,
            ),
        },
{
    match load_error {
        None => Check::pass(String::from_str("config: file"), String::from_str(path)),
        Some(e) => {
            let mut d = text::concat3(path, " (", e);
            d.append("); run `browser-dispatcher install`");
            Check::fail(String::from_str("config: file"), d)
        },
    }
}

/// The warning when the configuration names no browser at all.
pub fn nothing_configured_check() -> (c: Check)
    ensures
        c@ == mk_check("browsers"@, Level::Warn, "nothing configured yet"@),
{
    Check::warn(String::from_str("browsers"), String::from_str("nothing configured yet"))
}

/// The check of one referenced browser: where it resolved, or why not.
pub fn browser_check(id: &str, resolved: &Result<ResolvedBrowser, String>) -> (c: Check)
    ensures
        c@ == match resolved {
            Ok(b) => mk_check("browser: "@ + id@, Level::Pass, b@.path),
            Err(e) => mk_check("browser: "@ + id@, Level::Fail, e@),
        },
{
    let title = text::concat("browser: ", id);
    match resolved {
        Ok(b) => Check::pass(title, b.path.clone()),
        Err(e) => Check::fail(title, e.clone()),
    }
}

/// A rule-compilation warning as a check.
pub fn rule_warning_check(warning: &str) -> (c: Check)
    ensures
        c@ == mk_check("rules"@, Level::Warn, warning@),
{
    Check::warn(String::from_str("rules"), String::from_str(warning))
}

/// Whether the installed copy is the running program: the same path, or
/// an equally long file.
pub open spec fn installed_copy_spec(
    same_path: bool,
    current_len: u64,
    stable_len: u64,
    stable: Seq<char>,
    current: Seq<char>,
) -> CheckView {
    if !same_path && current_len != stable_len {
        mk_check(
            "binary: installed copy"@,
            Level::Warn,
            stable + " differs from the running "@ + current
                + "; run `browser-dispatcher install` to refresh it"@,
        )
    } else {
        mk_check("binary: installed copy"@, Level::Pass, stable)
    }
}

/// The installed copy passes, showing its path, when the running program
/// is it or the two files are equally long; it warns, naming both paths,
/// only when they differ in path and in length.
pub proof fn lemma_installed_copy_verdict(
    same_path: bool,
    current_len: u64,
    stable_len: u64,
    stable: Seq<char>,
    current: Seq<char>,
)
    ensures
        (same_path || current_len == stable_len) ==> installed_copy_spec(
            same_path,
            current_len,
            stable_len,
            stable,
            current,
        ) == mk_check("binary: installed copy"@, Level::Pass, stable),
        (!same_path && current_len != stable_len) ==> ({
            let c = installed_copy_spec(same_path, current_len, stable_len, stable, current);
            &&& c.level == Level::Warn
            &&& c.title == "binary: installed copy"@
            &&& c.detail.subrange(0, stable.len() as int) == stable
        }),
{
    if !same_path && current_len != stable_len {
        let c = installed_copy_spec(same_path, current_len, stable_len, stable, current);
        assert(c.detail.subrange(0, stable.len() as int) =~= stable);
    }
}

/// The check of the installed copy against the running program.
pub fn installed_copy_check(
    same_path: bool,
    current_len: u64,
    stable_len: u64,
    stable: &str,
    current: &str,
) -> (c: Check)
    ensures
        c@ == installed_copy_spec(same_path, current_len, stable_len, stable@, current@),
{
    if !same_path && current_len != stable_len {
        let mut d = text::concat3(stable, " differs from the running ", current);
        d.append("; run `browser-dispatcher install` to refresh it");
        Check::warn(String::from_str("binary: installed copy"), d)
    } else {
        Check::pass(String::from_str("binary: installed copy"), String::from_str(stable))
    }
}

/// The warning when the running program cannot be located.
pub fn current_exe_failed_check(error: &str) -> (c: Check)
    ensures
        c@ == mk_check("binary: installed copy"@, Level::Warn, "current_exe failed: "@ + error@),
{
    Check::warn(String::from_str("binary: installed copy"), text::concat("current_exe failed: ", error))
}

/// How the installed copy's `dispatch --dry-run` self-test went.
pub enum SelfTest {
    /// It exited successfully with this (trimmed) output.
    Succeeded(String),
    /// It exited unsuccessfully with this status and (trimmed) error output.
    Failed { status: String, stderr: String },
    /// It could not be started.
    NotStarted(String),
    /// There is no installed copy.
    Missing,
}

/// The check of a self-test outcome.
pub open spec fn self_test_spec(stable: Seq<char>, outcome: SelfTest) -> CheckView {
    match outcome {
        SelfTest::Succeeded(out) => mk_check("binary: dispatch self-test"@, Level::Pass, out@),
        SelfTest::Failed { status, stderr } => mk_check(
            "binary: dispatch self-test"@,
            Level::Fail,
            "exit "@ + status@ + "; "@ + stderr@,
        ),
        SelfTest::NotStarted(e) => mk_check(
            "binary: dispatch self-test"@,
            Level::Fail,
            "failed to execute "@ + stable + ": "@ + e@,
        ),
        SelfTest::Missing => mk_check(
            "binary: dispatch self-test"@,
            Level::Fail,
            stable + " missing; run `browser-dispatcher install`"@,
        ),
    }
}

/// The check of the self-test.
pub fn self_test_check(stable: &str, outcome: &SelfTest) -> (c: Check)
    ensures
        c@ == self_test_spec(stable@, *outcome),
        c@ == match outcome {
            SelfTest::Succeeded(out) => mk_check("binary: dispatch self-test"@, Level::Pass, out@),
            SelfTest::Failed { status, stderr } => mk_check(
                "binary: dispatch self-test"@,
                Level::Fail,
                "exit "@ + status@ + "; "@ + stderr@,
            ),
            SelfTest::NotStarted(e) => mk_check(
                "binary: dispatch self-test"@,
                Level::Fail,
                "failed to execute "@ + stable@ + ": "@ + e@,
            ),
            SelfTest::Missing => mk_check(
                "binary: dispatch self-test"@,
                Level::Fail,
                stable@ + " missing; run `browser-dispatcher install`"@,
            ),
        },
{
    let title = String::from_str("binary: dispatch self-test");
    match outcome {
        SelfTest::Succeeded(out) => Check::pass(title, out.clone()),
        SelfTest::Failed { status, stderr } => {
            let mut d = text::concat3("exit ", status.as_str(), "; ");
            d.append(stderr.as_str());
            Check::fail(title, d)
        },
        SelfTest::NotStarted(e) => {
            let mut d = text::concat3("failed to execute ", stable, ": ");
            d.append(e.as_str());
            Check::fail(title, d)
        },
        SelfTest::Missing => Check::fail(
            title,
            text::concat(stable, " missing; run `browser-dispatcher install`"),
        ),
    }
}

/// The closing summary of the report.
pub fn summary_line(pass: usize, warn: usize, fail: usize) -> (r: String)
    ensures
        r@ == "Summary: "@ + text::decimal(pass as nat) + " passed, "@ + text::decimal(warn as nat)
            + " warnings, "@ + text::decimal(fail as nat) + " failures"@,
{
    let p = text::decimal_of(pass as u64);
    let w = text::decimal_of(warn as u64);
    let f = text::decimal_of(fail as u64);
    let mut r = text::concat3("Summary: ", p.as_str(), " passed, ");
    r.append(w.as_str());
    r.append(" warnings, ");
    r.append(f.as_str());
    r.append(" failures");
    r
}

/// The report passes when no check failed.
pub fn report_ok(fail: usize) -> (r: bool)
    ensures
        r == (fail == 0),
{
    fail == 0
}

// ---------------------------------------------------------------------------
// The whole report
// ---------------------------------------------------------------------------

/// How the running program compares with the installed copy.
pub struct RunningCopy {
    /// The running program is the installed copy.
    pub same_path: bool,
    pub current_len: u64,
    pub stable_len: u64,
    /// The running program's path, as shown.
    pub current: String,
}

/// What `doctor` observed before deciding its report.
pub struct DoctorInputs {
    /// The configuration file, as shown.
    pub config_path: String,
    /// The loaded configuration, or why it could not be loaded.
    pub config: Result<Config, String>,
    /// The operating system's registration checks.
    pub registration: Vec<Check>,
    /// The installed copy's path, as shown.
    pub stable: String,
    /// The running program, or why it could not be located.
    pub running: Result<RunningCopy, String>,
}

/// The health report: its checks, and the rule preview lines.
pub struct DoctorReport {
    pub checks: Vec<Check>,
    pub preview: Vec<String>,
}

/// The check of the installed copy, or the warning that the running
/// program could not be located.
pub open spec fn running_check(stable: Seq<char>, running: Result<RunningCopy, String>) -> CheckView {
    match running {
        Ok(c) => installed_copy_spec(c.same_path, c.current_len, c.stable_len, stable, c.current@),
        Err(e) => mk_check("binary: installed copy"@, Level::Warn, "current_exe failed: "@ + e@),
    }
}

/// One check per referenced browser id, from how it resolved.
pub open spec fn browser_checks(
    ids: Seq<Seq<char>>,
    resolved: Seq<Result<dispatch::ResolvedView, Seq<char>>>,
) -> Seq<CheckView> {
    Seq::new(
        ids.len(),
        |i: int|
            match resolved[i] {
                Ok(b) => mk_check("browser: "@ + ids[i], Level::Pass, b.path),
                Err(e) => mk_check("browser: "@ + ids[i], Level::Fail, e),
            },
    )
}

/// The rule-compilation warnings as checks.
pub open spec fn warning_checks(warnings: Seq<Seq<char>>) -> Seq<CheckView> {
    warnings.map_values(|w: Seq<char>| mk_check("rules"@, Level::Warn, w))
}

/// The referenced browser ids, sorted, each once.
pub open spec fn listed_sorted(cfg: ConfigView, ids: Seq<Seq<char>>) -> bool {
    &&& strictly_sorted(ids)
    &&& forall|y: Seq<char>| #[trigger] ids.contains(y) <==> referenced_ids(cfg).contains(y)
}

/// The checks of the report, in order. With a configuration: the file, its
/// validation, each referenced browser, the registration, the installed
/// copy, the self-test, and the rule warnings. Without one: the file's
/// failure, the warning that nothing is configured, the registration, and
/// the installed copy.
pub open spec fn doctor_checks_spec(
    obs: DoctorInputs,
    ids: Seq<Seq<char>>,
    resolved: Seq<Result<dispatch::ResolvedView, Seq<char>>>,
    self_test: SelfTest,
) -> Seq<CheckView> {
    match obs.config {
        Ok(cfg) => seq![mk_check("config: file"@, Level::Pass, obs.config_path@)]
            + crate::config::validate_spec(cfg@) + browser_checks(ids, resolved)
            + crate::check::checks_view(obs.registration@) + seq![
            running_check(obs.stable@, obs.running),
            self_test_spec(obs.stable@, self_test),
        ] + warning_checks(dispatch::compile_warnings(cfg@.rules)),
        Err(e) => seq![
            mk_check(
                "config: file"@,
                Level::Fail,
                obs.config_path@ + " ("@ + e@ + "); run `browser-dispatcher install`"@,
            ),
            mk_check("browsers"@, Level::Warn, "nothing configured yet"@),
        ] + crate::check::checks_view(obs.registration@) + seq![
            running_check(obs.stable@, obs.running),
        ],
    }
}

/// The preview line of a sample URL under the engine of `cfg`.
pub open spec fn preview_line_spec(cfg: ConfigView, u: UrlView) -> Seq<char> {
    let d = dispatch::decide_spec(dispatch::compile_spec(cfg), u);
    "  "@ + u.0 + " -> "@ + d.browser_id + " ("@ + dispatch::via_spec(d) + ")"@
}

/// The preview line of a sample URL, given the host answers of the rules.
pub open spec fn preview_line_with(cfg: ConfigView, u: UrlView, hits: Seq<bool>) -> Seq<char> {
    let d = dispatch::decide_with(dispatch::compile_spec(cfg), u, hits);
    "  "@ + u.0 + " -> "@ + d.browser_id + " ("@ + dispatch::via_spec(d) + ")"@
}

/// The rule preview: the decision for each sample URL; nothing without a
/// configuration.
pub open spec fn preview_spec(obs: DoctorInputs) -> Seq<Seq<char>> {
    match obs.config {
        Ok(cfg) => sample_urls_spec(cfg@).map_values(|u: UrlView| preview_line_spec(cfg@, u)),
        Err(_) => seq![],
    }
}

/// The rule preview, given the host answers for each sample URL.
pub open spec fn preview_with(obs: DoctorInputs, hitss: Seq<Seq<bool>>) -> Seq<Seq<char>> {
    match obs.config {
        Ok(cfg) => Seq::new(
            sample_urls_spec(cfg@).len(),
            |i: int| preview_line_with(cfg@, sample_urls_spec(cfg@)[i], hitss[i]),
        ),
        Err(_) => seq![],
    }
}

/// Host answers for the sample URLs that agree with host matching wherever
/// the answer is the same on every machine.
pub open spec fn preview_hits_consistent(obs: DoctorInputs, hitss: Seq<Seq<bool>>) -> bool {
    match obs.config {
        Ok(cfg) => {
            &&& hitss.len() == sample_urls_spec(cfg@).len()
            &&& forall|i: int|
                0 <= i < hitss.len() ==> dispatch::hits_consistent(
                    dispatch::compile_spec(cfg@).rules,
                    dispatch::url_host(sample_urls_spec(cfg@)[i]),
                    #[trigger] hitss[i],
                )
        },
        Err(_) => true,
    }
}

/// Whether every host answer of the preview is the same on every machine.
pub open spec fn preview_known(obs: DoctorInputs) -> bool {
    match obs.config {
        Ok(cfg) => forall|i: int|
            0 <= i < sample_urls_spec(cfg@).len() ==> dispatch::engine_known(
                dispatch::compile_spec(cfg@),
                #[trigger] sample_urls_spec(cfg@)[i],
            ),
        Err(_) => true,
    }
}

/// What the report's outside work gave: the referenced ids in order, how
/// each resolved with `locate`, and the self-test outcome `self_test` gave.
pub open spec fn observed<F: Fn(&str) -> Option<String>, G: Fn() -> SelfTest>(
    cfg: ConfigView,
    locate: F,
    self_test: G,
    ids: Seq<Seq<char>>,
    resolved: Seq<Result<dispatch::ResolvedView, Seq<char>>>,
    outcome: SelfTest,
) -> bool {
    &&& listed_sorted(cfg, ids)
    &&& resolved.len() == ids.len()
    &&& forall|i: int|
        0 <= i < ids.len() ==> dispatch::resolves_as(cfg, locate, #[trigger] ids[i], resolved[i])
    &&& call_ensures(self_test, (), outcome)
}

/// Decides the health report from what was observed. Each referenced
/// browser is resolved with `locate`, and the installed copy's self-test
/// (`self_test`) runs only when the configuration loaded.
pub fn doctor_report<F: Fn(&str) -> Option<String> + Copy, G: Fn() -> SelfTest>(
    obs: &DoctorInputs,
    locate: F,
    self_test: G,
) -> (r: DoctorReport)
    requires
        obs.config matches Ok(cfg) ==> crate::config::browser_ids_distinct(cfg@),
        forall|s: &str| #[trigger] call_requires(locate, (s,)),
        call_requires(self_test, ()),
    ensures
        match obs.config {
            Ok(cfg) => exists|
                ids: Seq<Seq<char>>,
                resolved: Seq<Result<dispatch::ResolvedView, Seq<char>>>,
                outcome: SelfTest,
            |
                #[trigger] observed(cfg@, locate, self_test, ids, resolved, outcome)
                    && crate::check::checks_view(r.checks@) == doctor_checks_spec(
                    *obs,
                    ids,
                    resolved,
                    outcome,
                ),
            Err(_) => crate::check::checks_view(r.checks@) == doctor_checks_spec(
                *obs,
                seq![],
                seq![],
                SelfTest::Missing,
            ),
        },
        exists|hitss: Seq<Seq<bool>>|
            #[trigger] preview_hits_consistent(*obs, hitss) && r.preview.deep_view()
                == preview_with(*obs, hitss),
        preview_known(*obs) ==> r.preview.deep_view() == preview_spec(*obs),
{
    let mut checks: Vec<Check> = Vec::new();
    let mut preview: Vec<String> = Vec::new();
    match &obs.config {
        Err(e) => {
            push_check(&mut checks, config_file_check(obs.config_path.as_str(), Some(e.as_str())));
            push_check(&mut checks, nothing_configured_check());
            push_copies(&mut checks, &obs.registration);
            push_check(&mut checks, running_copy_check(obs.stable.as_str(), &obs.running));
            assert(crate::check::checks_view(checks@) =~= doctor_checks_spec(
                *obs,
                seq![],
                seq![],
                SelfTest::Missing,
            ));
            assert(preview.deep_view() =~= preview_spec(*obs));
            assert(preview_hits_consistent(*obs, seq![]));
            assert(preview.deep_view() =~= preview_with(*obs, seq![]));
        },
        Ok(cfg) => {
            push_check(&mut checks, config_file_check(obs.config_path.as_str(), None));
            let validation = cfg.validate();
            push_copies(&mut checks, &validation);
            let ghost before_browsers = crate::check::checks_view(checks@);
            let ids = referenced_browsers(cfg);
            let ghost idv = ids.deep_view();
            let ghost mut resolved: Seq<Result<dispatch::ResolvedView, Seq<char>>> = seq![];
            let mut i: usize = 0;
            while i < ids.len()
                invariant
                    i <= ids@.len(),
                    idv == ids.deep_view(),
                    crate::config::browser_ids_distinct(cfg@),
                    forall|s: &str| #[trigger] call_requires(locate, (s,)),
                    resolved.len() == i,
                    forall|j: int|
                        0 <= j < i ==> dispatch::resolves_as(cfg@, locate, #[trigger] idv[j], resolved[j]),
                    crate::check::checks_view(checks@) == before_browsers + browser_checks(
                        idv.take(i as int),
                        resolved,
                    ),
                decreases ids.len() - i,
            {
                let id = ids[i].as_str();
                let r = dispatch::resolve_browser(cfg, id, locate);
                let c = browser_check(id, &r);
                push_check(&mut checks, c);
                proof {
                    resolved = resolved.push(dispatch::resolved_result_view(r));
                    assert(idv[i as int] == id@);
                    assert(browser_checks(idv.take(i + 1), resolved) =~= browser_checks(
                        idv.take(i as int),
                        resolved.drop_last(),
                    ).push(c@));
                    assert(resolved.drop_last() =~= resolved.take(i as int));
                }
                assert(crate::check::checks_view(checks@) =~= before_browsers + browser_checks(
                    idv.take(i + 1),
                    resolved,
                ));
                i = i + 1;
            }
            assert(idv.take(ids@.len() as int) =~= idv);
            push_copies(&mut checks, &obs.registration);
            push_check(&mut checks, running_copy_check(obs.stable.as_str(), &obs.running));
            let outcome = self_test();
            push_check(&mut checks, self_test_check(obs.stable.as_str(), &outcome));
            let (engine, warnings) = dispatch::Engine::new(cfg);
            let mut k: usize = 0;
            let ghost before_warnings = crate::check::checks_view(checks@);
            while k < warnings.len()
                invariant
                    k <= warnings@.len(),
                    crate::check::checks_view(checks@) == before_warnings + warning_checks(
                        warnings.deep_view().take(k as int),
                    ),
                decreases warnings.len() - k,
            {
                let c = rule_warning_check(warnings[k].as_str());
                push_check(&mut checks, c);
                proof {
                }
                assert(warnings.deep_view().take(k + 1) =~= warnings.deep_view().take(
                    k as int,
                ).push(warnings[k as int]@));
                assert(crate::check::checks_view(checks@) =~= before_warnings + warning_checks(
                    warnings.deep_view().take(k + 1),
                ));
                k = k + 1;
            }
            assert(warnings.deep_view().take(warnings@.len() as int) =~= warnings.deep_view());
            assert(observed(cfg@, locate, self_test, idv, resolved, outcome));
            assert(crate::check::checks_view(checks@) =~= doctor_checks_spec(
                *obs,
                idv,
                resolved,
                outcome,
            ));
            let urls = sample_urls(cfg);
            let ghost samples = sample_urls_spec(cfg@);
            let ghost mut hitss: Seq<Seq<bool>> = seq![];
            let mut m: usize = 0;
            while m < urls.len()
                invariant
                    m <= urls@.len(),
                    engine@ == dispatch::compile_spec(cfg@),
                    urls_view(urls@) == samples,
                    samples == sample_urls_spec(cfg@),
                    hitss.len() == m,
                    forall|i: int|
                        0 <= i < m ==> dispatch::hits_consistent(
                            engine@.rules,
                            dispatch::url_host(samples[i]),
                            #[trigger] hitss[i],
                        ),
                    preview.deep_view() == Seq::new(
                        m as nat,
                        |i: int| preview_line_with(cfg@, samples[i], hitss[i]),
                    ),
                    forall|i: int|
                        0 <= i < m && dispatch::engine_known(engine@, samples[i])
                            ==> #[trigger] preview_line_with(cfg@, samples[i], hitss[i])
                            == preview_line_spec(cfg@, samples[i]),
                decreases urls.len() - m,
            {
                let d = engine.decide(&urls[m]);
                let line = preview_line(&urls[m], &d);
                assert(urls_view(urls@)[m as int] == urls[m as int]@);
                let ghost h = choose|h: Seq<bool>|
                    #[trigger] dispatch::hits_consistent(engine@.rules, dispatch::url_host(urls[m as int]@), h)
                        && d@ == dispatch::decide_with(engine@, urls[m as int]@, h);
                assert(line@ == preview_line_with(cfg@, samples[m as int], h));
                let ghost before = preview.deep_view();
                preview.push(line);
                proof {
                    hitss = hitss.push(h);
                    if dispatch::engine_known(engine@, samples[m as int]) {
                        dispatch::lemma_known_hosts_decide_exactly(engine@, samples[m as int], h);
                    }
                }
                assert(preview.deep_view() =~= before.push(line@));
                assert(hitss[m as int] == h);
                assert forall|i: int| 0 <= i < m implies hitss[i] == hitss.drop_last()[i] by {}
                assert(preview.deep_view() =~= Seq::new(
                    (m + 1) as nat,
                    |i: int| preview_line_with(cfg@, samples[i], hitss[i]),
                ));
                m = m + 1;
            }
            assert(preview_hits_consistent(*obs, hitss));
            assert(preview.deep_view() =~= preview_with(*obs, hitss));
            proof {
                if preview_known(*obs) {
                    assert forall|i: int| 0 <= i < samples.len() implies dispatch::engine_known(
                        engine@,
                        #[trigger] samples[i],
                    ) by {}
                    assert(preview.deep_view() =~= preview_spec(*obs));
                }
            }
        },
    }
    DoctorReport { checks, preview }
}

/// Appends a check to `dst`.
fn push_check(dst: &mut Vec<Check>, c: Check)
    ensures
        crate::check::checks_view(final(dst)@) == crate::check::checks_view(old(dst)@).push(c@),
{
    let ghost before = dst@;
    dst.push(c);
    proof {
        crate::check::lemma_checks_view_push(before, c);
    }
}

/// Appends copies of `src` to `dst`.
fn push_copies(dst: &mut Vec<Check>, src: &Vec<Check>)
    ensures
        crate::check::checks_view(final(dst)@) == crate::check::checks_view(old(dst)@)
            + crate::check::checks_view(src@),
{
    let ghost start = crate::check::checks_view(dst@);
    let mut i: usize = 0;
    while i < src.len()
        invariant
            i <= src@.len(),
            crate::check::checks_view(dst@) == start + crate::check::checks_view(src@).take(i as int),
        decreases src.len() - i,
    {
        let ghost before = dst@;
        let c = src[i].duplicate();
        dst.push(c);
        proof {
            crate::check::lemma_checks_view_push(before, c);
        }
        assert(crate::check::checks_view(src@).take(i + 1) =~= crate::check::checks_view(src@).take(
            i as int,
        ).push(src[i as int]@));
        assert(crate::check::checks_view(dst@) =~= start + crate::check::checks_view(src@).take(
            i + 1,
        ));
        i = i + 1;
    }
    assert(crate::check::checks_view(src@).take(src@.len() as int) =~= crate::check::checks_view(
        src@,
    ));
}

/// The check of the running program against the installed copy.
fn running_copy_check(stable: &str, running: &Result<RunningCopy, String>) -> (c: Check)
    ensures
        c@ == running_check(stable@, *running),
{
    match running {
        Ok(r) => installed_copy_check(
            r.same_path,
            r.current_len,
            r.stable_len,
            stable,
            r.current.as_str(),
        ),
        Err(e) => current_exe_failed_check(e.as_str()),
    }
}

} // verus!
