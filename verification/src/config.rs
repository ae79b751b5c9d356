//! Configuration model, validation, and the default configuration text.

use vstd::prelude::*;

use crate::bindings;
use crate::check::{Check, CheckView, Level, checks_view, mk_check};
use crate::platform;
use crate::text;

verus! {

/// The configuration schema version this program reads and writes.
pub const CONFIG_VERSION: u32 = 1;

// ---------------------------------------------------------------------------
// Schema
// ---------------------------------------------------------------------------

/// One routing rule.
#[derive(Debug)]
pub struct Rule {
    /// Human-readable rule name.
    pub name: String,
    /// Glob pattern(s) matched against the URL host, case-insensitively.
    /// `*.example.com` also matches `example.com` itself.
    pub host: Vec<String>,
    /// Optional regex matched against the full URL.
    pub url_regex: Option<String>,
    /// Browser id to route matching URLs to.
    pub browser: String,
    /// Open the URL in a private/incognito window.
    pub private: bool,
}

/// Per-browser overrides.
#[derive(Debug)]
pub struct BrowserConfig {
    /// Explicit executable path. When omitted, the browser is auto-detected.
    pub path: Option<String>,
    /// Extra CLI arguments passed before the URL.
    pub args: Vec<String>,
    /// Firefox profile name (Firefox only).
    pub profile: Option<String>,
    /// Private-window flag(s) for browsers not known to the built-in catalog.
    pub private_args: Vec<String>,
}

/// The whole configuration file.
#[derive(Debug)]
pub struct Config {
    pub version: u32,
    /// Fallback browser id used when no rule matches.
    pub default_browser: String,
    /// Routing rules, evaluated top to bottom; first match wins.
    pub rules: Vec<Rule>,
    /// Optional per-browser overrides, keyed by browser id (`[browsers.<id>]`);
    /// no id has two entries (see `browser_ids_distinct`).
    pub browsers: Vec<(String, BrowserConfig)>,
}

/// A rule as plain values.
pub struct RuleView {
    pub name: Seq<char>,
    pub host: Seq<Seq<char>>,
    pub url_regex: Option<Seq<char>>,
    pub browser: Seq<char>,
    pub private: bool,
}

/// A browser entry as plain values.
pub struct BrowserConfigView {
    pub path: Option<Seq<char>>,
    pub args: Seq<Seq<char>>,
    pub profile: Option<Seq<char>>,
    pub private_args: Seq<Seq<char>>,
}

/// A configuration as plain values.
pub struct ConfigView {
    pub version: u32,
    pub default_browser: Seq<char>,
    pub rules: Seq<RuleView>,
    pub browsers: Seq<(Seq<char>, BrowserConfigView)>,
}

impl View for Rule {
    type V = RuleView;

    open spec fn view(&self) -> RuleView {
        RuleView {
            name: self.name@,
            host: self.host.deep_view(),
            url_regex: self.url_regex.deep_view(),
            browser: self.browser@,
            private: self.private,
        }
    }
}

impl View for BrowserConfig {
    type V = BrowserConfigView;

    open spec fn view(&self) -> BrowserConfigView {
        BrowserConfigView {
            path: self.path.deep_view(),
            args: self.args.deep_view(),
            profile: self.profile.deep_view(),
            private_args: self.private_args.deep_view(),
        }
    }
}

impl View for Config {
    type V = ConfigView;

    open spec fn view(&self) -> ConfigView {
        ConfigView {
            version: self.version,
            default_browser: self.default_browser@,
            rules: self.rules@.map_values(|r: Rule| r@),
            browsers: self.browsers@.map_values(|e: (String, BrowserConfig)| (e.0@, e.1@)),
        }
    }
}

/// A browser entry with nothing overridden.
pub open spec fn empty_browser_config() -> BrowserConfigView {
    BrowserConfigView { path: None, args: seq![], profile: None, private_args: seq![] }
}

impl Default for BrowserConfig {
    fn default() -> (r: BrowserConfig)
        ensures
            r@ == empty_browser_config(),
    {
        let r = BrowserConfig {
            path: None,
            args: Vec::new(),
            profile: None,
            private_args: Vec::new(),
        };
        assert(r@.args =~= seq![]);
        assert(r@.private_args =~= seq![]);
        r
    }
}

impl BrowserConfig {
    /// A copy of this entry.
    pub fn duplicate(&self) -> (r: BrowserConfig)
        ensures
            r@ == self@,
    {
        BrowserConfig {
            path: text::copy_opt_string(&self.path),
            args: text::copy_strings(&self.args),
            profile: text::copy_opt_string(&self.profile),
            private_args: text::copy_strings(&self.private_args),
        }
    }
}

impl Rule {
    /// A copy of this rule.
    pub fn duplicate(&self) -> (r: Rule)
        ensures
            r@ == self@,
    {
        Rule {
            name: self.name.clone(),
            host: text::copy_strings(&self.host),
            url_regex: text::copy_opt_string(&self.url_regex),
            browser: self.browser.clone(),
            private: self.private,
        }
    }
}

/// The index of the first `[browsers.<id>]` entry for `id`, if any.
pub open spec fn browser_index(browsers: Seq<(Seq<char>, BrowserConfigView)>, id: Seq<char>) -> Option<
    int,
>
    decreases browsers.len(),
{
    if browsers.len() == 0 {
        None
    } else {
        match browser_index(browsers.drop_last(), id) {
            Some(i) => Some(i),
            None => if browsers.last().0 == id {
                Some(browsers.len() - 1)
            } else {
                None
            },
        }
    }
}

/// The configured overrides for `id`; empty when there is no entry.
pub open spec fn browser_entry(cfg: ConfigView, id: Seq<char>) -> BrowserConfigView {
    match browser_index(cfg.browsers, id) {
        Some(i) => cfg.browsers[i].1,
        None => empty_browser_config(),
    }
}

proof fn lemma_browser_index_bounds(browsers: Seq<(Seq<char>, BrowserConfigView)>, id: Seq<char>)
    ensures
        browser_index(browsers, id) matches Some(i) ==> 0 <= i < browsers.len()
            && browsers[i].0 == id,
        browser_index(browsers, id) is None ==> forall|k: int|
            0 <= k < browsers.len() ==> browsers[k].0 != id,
    decreases browsers.len(),
{
    if browsers.len() > 0 {
        let prefix = browsers.drop_last();
        lemma_browser_index_bounds(prefix, id);
        if browser_index(browsers, id) is None {
            assert forall|k: int| 0 <= k < browsers.len() implies browsers[k].0 != id by {
                if k < prefix.len() {
                    assert(prefix[k] == browsers[k]);
                }
            }
        }
    }
}

/// The well-formedness of a configuration: no browser id has two entries,
/// as in the file, whose `[browsers.<id>]` tables are keyed by id.
pub open spec fn browser_ids_distinct(cfg: ConfigView) -> bool {
    forall|i: int, j: int|
        0 <= i < j < cfg.browsers.len() ==> #[trigger] cfg.browsers[i].0 != #[trigger] cfg.browsers[j].0
}

/// With distinct ids, the entry found for `id` is the only entry for it.
pub proof fn lemma_entry_is_unique(cfg: ConfigView, id: Seq<char>)
    requires
        browser_ids_distinct(cfg),
    ensures
        forall|k: int|
            0 <= k < cfg.browsers.len() ==> (#[trigger] cfg.browsers[k].0 == id <==> browser_index(
                cfg.browsers,
                id,
            ) == Some(k)),
{
    lemma_browser_index_bounds(cfg.browsers, id);
    assert forall|k: int| 0 <= k < cfg.browsers.len() && #[trigger] cfg.browsers[k].0 == id implies browser_index(
        cfg.browsers,
        id,
    ) == Some(k) by {
        let j = browser_index(cfg.browsers, id)->0;
        if j < k {
            assert(cfg.browsers[j].0 != cfg.browsers[k].0);
        } else if k < j {
            assert(cfg.browsers[k].0 != cfg.browsers[j].0);
        }
    }
}

/// The entry found for `id` is one named `id`; without one, it is empty.
pub proof fn lemma_entry_lookup(cfg: ConfigView, id: Seq<char>)
    ensures
        browser_index(cfg.browsers, id) matches Some(i) ==> 0 <= i < cfg.browsers.len()
            && cfg.browsers[i].0 == id && browser_entry(cfg, id) == cfg.browsers[i].1,
        browser_index(cfg.browsers, id) is None ==> browser_entry(cfg, id) == empty_browser_config()
            && forall|k: int| 0 <= k < cfg.browsers.len() ==> #[trigger] cfg.browsers[k].0 != id,
{
    lemma_browser_index_bounds(cfg.browsers, id);
}

impl Config {
    /// Whether no browser id has two entries.
    pub fn browser_ids_are_distinct(&self) -> (r: bool)
        ensures
            r == browser_ids_distinct(self@),
    {
        let ghost bs = self@.browsers;
        let mut j: usize = 0;
        while j < self.browsers.len()
            invariant
                bs == self@.browsers,
                j <= self.browsers.len(),
                forall|a: int, b: int| 0 <= a < b < j ==> #[trigger] bs[a].0 != #[trigger] bs[b].0,
            decreases self.browsers.len() - j,
        {
            let mut i: usize = 0;
            while i < j
                invariant
                    bs == self@.browsers,
                    i <= j < self.browsers.len(),
                    forall|a: int, b: int| 0 <= a < b < j ==> #[trigger] bs[a].0 != #[trigger] bs[b].0,
                    forall|a: int| 0 <= a < i ==> #[trigger] bs[a].0 != bs[j as int].0,
                decreases j - i,
            {
                if text::str_eq(self.browsers[i].0.as_str(), self.browsers[j].0.as_str()) {
                    assert(bs[i as int].0 == bs[j as int].0);
                    return false;
                }
                i = i + 1;
            }
            j = j + 1;
        }
        true
    }

    /// Where the overrides for `id` stand in `browsers`, if anywhere.
    pub fn find_browser_entry(&self, id: &str) -> (r: Option<usize>)
        ensures
            r matches Some(i) ==> browser_index(self@.browsers, id@) == Some(i as int) && i
                < self.browsers@.len(),
            r is None ==> browser_index(self@.browsers, id@) is None,
    {
        proof {
            lemma_browser_index_bounds(self@.browsers, id@);
        }
        let ghost bs = self@.browsers;
        let mut i: usize = 0;
        while i < self.browsers.len()
            invariant
                bs == self@.browsers,
                i <= self.browsers.len(),
                browser_index(bs.take(i as int), id@) is None,
            decreases self.browsers.len() - i,
        {
            assert(bs.take(i + 1).drop_last() =~= bs.take(i as int));
            if text::str_eq(self.browsers[i].0.as_str(), id) {
                proof {
                    assert(browser_index(bs.take(i + 1), id@) == Some(i as int));
                    lemma_browser_index_prefix(bs, id@, i + 1);
                }
                return Some(i);
            }
            i = i + 1;
        }
        assert(bs.take(self.browsers.len() as int) =~= bs);
        None
    }

    /// Whether there is a `[browsers.<id>]` entry.
    pub fn has_browser_entry(&self, id: &str) -> (r: bool)
        ensures
            r == (browser_index(self@.browsers, id@) is Some),
    {
        self.find_browser_entry(id).is_some()
    }
}

/// The first entry found in a prefix is the first entry of the whole list.
proof fn lemma_browser_index_prefix(
    bs: Seq<(Seq<char>, BrowserConfigView)>,
    id: Seq<char>,
    n: int,
)
    requires
        0 <= n <= bs.len(),
        browser_index(bs.take(n), id) is Some,
    ensures
        browser_index(bs, id) == browser_index(bs.take(n), id),
    decreases bs.len() - n,
{
    if n < bs.len() {
        assert(bs.take(n + 1).drop_last() =~= bs.take(n));
        lemma_browser_index_prefix(bs, id, n + 1);
    } else {
        assert(bs.take(n) =~= bs);
    }
}

// ---------------------------------------------------------------------------
// Defaults
// ---------------------------------------------------------------------------

/// The fallback default browser: the given one, else the first detected
/// browser, else Firefox.
pub open spec fn preferred_browser_spec(given: Option<Seq<char>>, first_detected: Option<Seq<char>>) -> Seq<
    char,
> {
    match given {
        Some(id) => id,
        None => match first_detected {
            Some(id) => id,
            None => "firefox"@,
        },
    }
}

/// Picks the default browser for a new configuration.
pub fn preferred_browser(given: Option<&str>, first_detected: Option<&str>) -> (r: String)
    ensures
        r@ == preferred_browser_spec(
            match given {
                Some(g) => Some(g@),
                None => None,
            },
            match first_detected {
                Some(d) => Some(d@),
                None => None,
            },
        ),
{
    match given {
        Some(id) => String::from_str(id),
        None => match first_detected {
            Some(id) => String::from_str(id),
            None => String::from_str("firefox"),
        },
    }
}

impl Config {
    /// The configuration used when none can be loaded: no rules, no
    /// overrides, and the first detected browser (else Firefox) as default.
    pub fn fallback_default(first_detected: Option<&str>) -> (cfg: Config)
        ensures
            cfg@.version == CONFIG_VERSION,
            cfg@.default_browser == preferred_browser_spec(
                None,
                match first_detected {
                    Some(d) => Some(d@),
                    None => None,
                },
            ),
            cfg@.rules.len() == 0,
            cfg@.browsers.len() == 0,
            browser_ids_distinct(cfg@),
    {
        Config {
            version: CONFIG_VERSION,
            default_browser: preferred_browser(None, first_detected),
            rules: Vec::new(),
            browsers: Vec::new(),
        }
    }
}

// ---------------------------------------------------------------------------
// Browser ids
// ---------------------------------------------------------------------------

/// Whether a browser id names a built-in browser or a configured one.
pub open spec fn known_browser(cfg: ConfigView, id: Seq<char>) -> bool {
    platform::is_catalog_id(id) || browser_index(cfg.browsers, id) is Some
}

/// The catalog ids joined by `", "`.
pub open spec fn known_ids_text() -> Seq<char> {
    text::join(platform::catalog_ids(), ", "@)
}

/// The error of [`require_browser`] for an unknown id.
pub open spec fn unknown_browser_message(id: Seq<char>) -> Seq<char> {
    "unknown browser id '"@ + id + "'; known ids: "@ + known_ids_text()
}

fn known_ids_joined() -> (r: String)
    ensures
        r@ == known_ids_text(),
{
    let ids = platform::known_ids();
    text::join_strs(&ids, ", ")
}

/// Requires that `id` resolves to something usable.
pub fn require_browser(cfg: &Config, id: &str) -> (r: Result<(), String>)
    requires
        browser_ids_distinct(cfg@),
    ensures
        r is Ok <==> known_browser(cfg@, id@),
        r matches Err(msg) ==> msg@ == unknown_browser_message(id@),
{
    if platform::catalog_def(id).is_some() || cfg.has_browser_entry(id) {
        Ok(())
    } else {
        let mut msg = text::concat3("unknown browser id '", id, "'; known ids: ");
        let known = known_ids_joined();
        msg.append(known.as_str());
        Err(msg)
    }
}

/// The check for one browser id reference (trimmed before the lookup).
pub open spec fn browser_id_check(title: Seq<char>, id: Seq<char>, cfg: ConfigView) -> CheckView {
    let id = text::trim(id);
    if id.len() == 0 {
        mk_check(title, Level::Fail, "browser id is empty"@)
    } else if known_browser(cfg, id) {
        mk_check(title, Level::Pass, "browser id '"@ + id + "' is known"@)
    } else {
        mk_check(
            title,
            Level::Fail,
            "unknown browser id '"@ + id + "'; known: "@ + known_ids_text(),
        )
    }
}

/// A browser reference passes exactly when its trimmed id is a built-in
/// browser or has a `[browsers.<id>]` entry; a blank one fails.
pub proof fn lemma_browser_check_accepts_known_ids(title: Seq<char>, id: Seq<char>, cfg: ConfigView)
    ensures
        text::trim(id).len() > 0 ==> (browser_id_check(title, id, cfg).level == Level::Pass <==> (
        platform::is_catalog_id(text::trim(id)) || exists|k: int|
            0 <= k < cfg.browsers.len() && #[trigger] cfg.browsers[k].0 == text::trim(id))),
        text::trim(id).len() == 0 ==> browser_id_check(title, id, cfg).level == Level::Fail,
        browser_id_check(title, id, cfg).title == title,
{
    let t = text::trim(id);
    lemma_browser_index_bounds(cfg.browsers, t);
    if exists|k: int| 0 <= k < cfg.browsers.len() && #[trigger] cfg.browsers[k].0 == t {
        let k = choose|k: int| 0 <= k < cfg.browsers.len() && #[trigger] cfg.browsers[k].0 == t;
        assert(cfg.browsers[k].0 == t);
    }
}

fn check_browser_id(title: &str, id: &str, cfg: &Config) -> (c: Check)
    ensures
        c@ == browser_id_check(title@, id@, cfg@),
{
    let id = text::trimmed(id);
    let t = String::from_str(title);
    if id.unicode_len() == 0 {
        return Check::fail(t, String::from_str("browser id is empty"));
    }
    if platform::catalog_def(id.as_str()).is_some() || cfg.has_browser_entry(id.as_str()) {
        Check::pass(t, text::concat3("browser id '", id.as_str(), "' is known"))
    } else {
        let mut d = text::concat3("unknown browser id '", id.as_str(), "'; known: ");
        let known = known_ids_joined();
        d.append(known.as_str());
        Check::fail(t, d)
    }
}

// ---------------------------------------------------------------------------
// Validation
// ---------------------------------------------------------------------------

/// The schema-version check.
pub open spec fn version_check(version: u32) -> CheckView {
    if version != CONFIG_VERSION {
        mk_check(
            "config: schema version"@,
            Level::Fail,
            "expected version 1, found "@ + text::decimal(version as nat),
        )
    } else {
        mk_check("config: schema version"@, Level::Pass, "version 1"@)
    }
}

/// The warnings for host patterns that contain `/`.
pub open spec fn host_slash_checks(t: Seq<char>, hosts: Seq<Seq<char>>) -> Seq<CheckView>
    decreases hosts.len(),
{
    if hosts.len() == 0 {
        seq![]
    } else {
        let pat = hosts.last();
        host_slash_checks(t, hosts.drop_last()) + if pat.contains('/') {
            seq![
                mk_check(
                    t + ": host pattern "@ + bindings::str_debug(pat),
                    Level::Warn,
                    "host patterns should not contain '/'; did you mean a host glob?"@,
                ),
            ]
        } else {
            seq![]
        }
    }
}

/// The checks for one rule, in report order.
pub open spec fn rule_checks(rule: RuleView, cfg: ConfigView) -> Seq<CheckView> {
    let t = "rule '"@ + rule.name + "'"@;
    let matcher = if rule.host.len() == 0 && rule.url_regex is None {
        seq![
            mk_check(
                t + ": matcher"@,
                Level::Fail,
                "rule has neither `host` nor `url_regex`; it can never match"@,
            ),
        ]
    } else {
        seq![]
    };
    let regex = match rule.url_regex {
        Some(src) => match bindings::regex_new_error(src) {
            None => seq![mk_check(t + ": url_regex"@, Level::Pass, "compiles"@)],
            Some(e) => seq![mk_check(t + ": url_regex"@, Level::Fail, e)],
        },
        None => seq![],
    };
    matcher + regex + host_slash_checks(t, rule.host) + seq![
        browser_id_check(t + ": browser"@, rule.browser, cfg),
    ]
}

/// The checks for all rules, rule by rule.
pub open spec fn rules_checks(rules: Seq<RuleView>, cfg: ConfigView) -> Seq<CheckView>
    decreases rules.len(),
{
    if rules.len() == 0 {
        seq![]
    } else {
        rules_checks(rules.drop_last(), cfg) + rule_checks(rules.last(), cfg)
    }
}

/// The checks for the `[browsers.<id>]` entries: a custom browser needs a path.
pub open spec fn browsers_checks(browsers: Seq<(Seq<char>, BrowserConfigView)>) -> Seq<CheckView>
    decreases browsers.len(),
{
    if browsers.len() == 0 {
        seq![]
    } else {
        let (id, bc) = browsers.last();
        browsers_checks(browsers.drop_last()) + if bc.path is None && !platform::is_catalog_id(
            id,
        ) {
            seq![
                mk_check(
                    "config: browsers."@ + id,
                    Level::Fail,
                    "custom browser needs an explicit `path`"@,
                ),
            ]
        } else {
            seq![]
        }
    }
}

/// Everything the static validation reports, in order.
pub open spec fn validate_spec(cfg: ConfigView) -> Seq<CheckView> {
    seq![version_check(cfg.version), browser_id_check("config: default browser"@, cfg.default_browser, cfg)]
        + if cfg.rules.len() == 0 {
        seq![
            mk_check(
                "config: rules"@,
                Level::Warn,
                "no rules defined; every URL goes to the default browser"@,
            ),
        ]
    } else {
        seq![]
    } + rules_checks(cfg.rules, cfg) + browsers_checks(cfg.browsers)
}

fn push_host_slash_checks(out: &mut Vec<Check>, t: &str, hosts: &Vec<String>)
    ensures
        checks_view(final(out)@) == checks_view(old(out)@) + host_slash_checks(
            t@,
            hosts.deep_view(),
        ),
{
    let ghost start = checks_view(out@);
    let ghost hv = hosts.deep_view();
    let mut i: usize = 0;
    while i < hosts.len()
        invariant
            i <= hosts.len(),
            hv == hosts.deep_view(),
            checks_view(out@) == start + host_slash_checks(t@, hv.take(i as int)),
        decreases hosts.len() - i,
    {
        assert(hv.take(i + 1).drop_last() =~= hv.take(i as int));
        assert(hv.take(i + 1).last() == hosts@[i as int]@);
        let pat = &hosts[i];
        let ghost before = checks_view(out@);
        if text::contains_char(pat.as_str(), '/') {
            let mut title = String::from_str(t);
            title.append(": host pattern ");
            let quoted = bindings::debug_quoted(pat.as_str());
            title.append(quoted.as_str());
            let c = Check::warn(
                title,
                String::from_str("host patterns should not contain '/'; did you mean a host glob?"),
            );
            let ghost cv = c@;
            out.push(c);
            assert(checks_view(out@) =~= before.push(cv));
        } else {
            assert(checks_view(out@) =~= before);
        }
        proof {
            assert(checks_view(out@) =~= start + host_slash_checks(t@, hv.take(i + 1)));
        }
        i = i + 1;
    }
    assert(hv.take(hosts.len() as int) =~= hv);
}

fn push_rule_checks(out: &mut Vec<Check>, rule: &Rule, cfg: &Config)
    ensures
        checks_view(final(out)@) == checks_view(old(out)@) + rule_checks(rule@, cfg@),
{
    let ghost start = checks_view(out@);
    let ghost r = rule@;
    let t = text::concat3("rule '", rule.name.as_str(), "'");
    let ghost tv = t@;
    let ghost matcher = if r.host.len() == 0 && r.url_regex is None {
        seq![
            mk_check(
                tv + ": matcher"@,
                Level::Fail,
                "rule has neither `host` nor `url_regex`; it can never match"@,
            ),
        ]
    } else {
        seq![]
    };
    let ghost regex = match r.url_regex {
        Some(src) => match bindings::regex_new_error(src) {
            None => seq![mk_check(tv + ": url_regex"@, Level::Pass, "compiles"@)],
            Some(e) => seq![mk_check(tv + ": url_regex"@, Level::Fail, e)],
        },
        None => seq![],
    };
    if rule.host.len() == 0 && rule.url_regex.is_none() {
        let c = Check::fail(
            text::concat(t.as_str(), ": matcher"),
            String::from_str("rule has neither `host` nor `url_regex`; it can never match"),
        );
        let ghost cv = c@;
        out.push(c);
        assert(checks_view(out@) =~= start.push(cv));
    } else {
        assert(checks_view(out@) =~= start);
    }
    assert(checks_view(out@) =~= start + matcher);
    let ghost after_matcher = checks_view(out@);
    match &rule.url_regex {
        Some(src) => {
            let c = match bindings::regex_error(src.as_str()) {
                None => Check::pass(
                    text::concat(t.as_str(), ": url_regex"),
                    String::from_str("compiles"),
                ),
                Some(e) => Check::fail(text::concat(t.as_str(), ": url_regex"), e),
            };
            let ghost cv = c@;
            out.push(c);
            assert(checks_view(out@) =~= after_matcher.push(cv));
        },
        None => {
            assert(checks_view(out@) =~= after_matcher);
        },
    }
    assert(checks_view(out@) =~= start + matcher + regex);
    let ghost after_regex = checks_view(out@);
    push_host_slash_checks(out, t.as_str(), &rule.host);
    let ghost after_hosts = checks_view(out@);
    let title = text::concat(t.as_str(), ": browser");
    let c = check_browser_id(title.as_str(), rule.browser.as_str(), cfg);
    let ghost cv = c@;
    out.push(c);
    assert(checks_view(out@) =~= after_hosts.push(cv));
    assert(checks_view(out@) =~= start + rule_checks(rule@, cfg@));
}

impl Config {
    /// Static validation that needs no filesystem access.
    pub fn validate(&self) -> (checks: Vec<Check>)
        requires
            browser_ids_distinct(self@),
        ensures
            checks_view(checks@) == validate_spec(self@),
    {
        let mut checks: Vec<Check> = Vec::new();
        if self.version != CONFIG_VERSION {
            let mut d = String::from_str("expected version 1, found ");
            let n = text::decimal_of(self.version as u64);
            d.append(n.as_str());
            checks.push(Check::fail(String::from_str("config: schema version"), d));
        } else {
            checks.push(
                Check::pass(String::from_str("config: schema version"), String::from_str("version 1")),
            );
        }
        checks.push(
            check_browser_id("config: default browser", self.default_browser.as_str(), self),
        );
        if self.rules.len() == 0 {
            checks.push(
                Check::warn(
                    String::from_str("config: rules"),
                    String::from_str("no rules defined; every URL goes to the default browser"),
                ),
            );
        }
        let ghost head = checks_view(checks@);
        let ghost rv = self@.rules;
        let mut i: usize = 0;
        while i < self.rules.len()
            invariant
                i <= self.rules.len(),
                rv == self@.rules,
                checks_view(checks@) == head + rules_checks(rv.take(i as int), self@),
            decreases self.rules.len() - i,
        {
            assert(rv.take(i + 1).drop_last() =~= rv.take(i as int));
            push_rule_checks(&mut checks, &self.rules[i], self);
            assert(checks_view(checks@) =~= head + rules_checks(rv.take(i + 1), self@));
            i = i + 1;
        }
        assert(rv.take(self.rules.len() as int) =~= rv);
        let ghost mid = checks_view(checks@);
        let ghost bv = self@.browsers;
        let mut j: usize = 0;
        while j < self.browsers.len()
            invariant
                j <= self.browsers.len(),
                bv == self@.browsers,
                checks_view(checks@) == mid + browsers_checks(bv.take(j as int)),
            decreases self.browsers.len() - j,
        {
            assert(bv.take(j + 1).drop_last() =~= bv.take(j as int));
            let (id, bc) = (&self.browsers[j].0, &self.browsers[j].1);
            let ghost before = checks_view(checks@);
            assert(bv.take(j + 1).last() == (id@, bc@));
            if bc.path.is_none() && platform::catalog_def(id.as_str()).is_none() {
                let c = Check::fail(
                    text::concat("config: browsers.", id.as_str()),
                    String::from_str("custom browser needs an explicit `path`"),
                );
                let ghost cv = c@;
                checks.push(c);
                assert(checks_view(checks@) =~= before.push(cv));
            } else {
                assert(checks_view(checks@) =~= before);
            }
            assert(checks_view(checks@) =~= mid + browsers_checks(bv.take(j + 1)));
            j = j + 1;
        }
        assert(bv.take(self.browsers.len() as int) =~= bv);
        proof {
            reveal_strlit("1");
            assert(text::decimal(1) =~= "1"@);
        }
        assert(checks_view(checks@) =~= validate_spec(self@));
        checks
    }
}

// ---------------------------------------------------------------------------
// Default config template
// ---------------------------------------------------------------------------

/// The template text before the default browser id.
pub open spec fn template_head() -> Seq<char> {
    TEMPLATE_HEAD@
}

/// The template text after the default browser id.
pub open spec fn template_tail() -> Seq<char> {
    TEMPLATE_TAIL@
}

/// Everything of the default configuration before the default browser id.
pub const TEMPLATE_HEAD: &'static str = "# Browser Dispatcher configuration
#
# Rules are evaluated top to bottom; the first match wins.
# When nothing matches, `default_browser` is used.
#
# Built-in browser ids: firefox, chrome, chromium, edge, brave, vivaldi,
# opera, safari (macOS only). Custom ids work via [browsers.<id>] below.

version = 1

# Fallback browser when no rule matches.
default_browser = \"";

/// Everything of the default configuration after the default browser id.
pub const TEMPLATE_TAIL: &'static str = "\"

# Optional per-browser overrides (any id, including custom ones):
#
# [browsers.firefox]
# path = \"C:/Program Files/Mozilla Firefox/firefox.exe\"  # omit to auto-detect
# args = []                 # extra CLI arguments
# profile = \"work\"          # Firefox profile name (firefox only)
# private_args = [\"--incognito\"]  # private-window flags for custom browsers
#
# [browsers.librewolf]      # any custom browser
# path = \"/usr/bin/librewolf\"

# `host` is a glob matched against the URL host (case-insensitive);
# \"*.example.com\" also matches \"example.com\" itself.
# `url_regex` (optional) is matched against the full URL.
# `private = true` opens the URL in a private/incognito window.
# Example rules (uncomment and edit):
#
# [[rule]]
# name = \"microsoft-login\"
# host = [\"login.microsoftonline.com\", \"*.microsoft.com\"]
# browser = \"edge\"
#
# [[rule]]
# name = \"local-dev\"
# url_regex = '^https://([a-z0-9-]+\\.)?localhost(:\\d+)?/'
# browser = \"firefox\"
# private = true
";

/// Renders the commented default configuration written at installation,
/// with `default_browser` filled in.
pub fn default_config_toml(default_browser: &str) -> (r: String)
    ensures
        r@ == template_head() + default_browser@ + template_tail(),
{
    text::concat3(TEMPLATE_HEAD, default_browser, TEMPLATE_TAIL)
}

} // verus!
