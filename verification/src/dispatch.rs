//! URL normalization, host matching, the rule engine, and browser
//! resolution.

use vstd::prelude::*;

use crate::bindings::{self, WebUrl};
use crate::config::{self, Config, ConfigView, Rule, RuleView};
use crate::platform;
use crate::text;
use crate::util::probed;

verus! {

// ---------------------------------------------------------------------------
// URL normalization
// ---------------------------------------------------------------------------

pub type UrlView = (Seq<char>, Seq<char>, Option<Seq<char>>);

/// The message of a URL that cannot be parsed.
pub open spec fn invalid_url_message(input: Seq<char>, reason: Seq<char>) -> Seq<char> {
    "invalid URL "@ + bindings::str_debug(input) + ": "@ + reason
}

/// Parses the trimmed input; an input without a scheme (a bare host such as
/// `example.com`) is parsed again with `https://` in front.
pub open spec fn normalize_url_spec(input: Seq<char>) -> Result<UrlView, Seq<char>> {
    let s = text::trim(input);
    match bindings::url_parse_result(s) {
        Ok(u) => Ok(u),
        Err((relative, reason)) => if relative {
            match bindings::url_parse_result("https://"@ + s) {
                Ok(u) => Ok(u),
                Err((_, reason2)) => Err(invalid_url_message(input, reason2)),
            }
        } else {
            Err(invalid_url_message(input, reason))
        },
    }
}

/// The plain values of a normalization outcome.
pub open spec fn url_result_view(r: Result<WebUrl, String>) -> Result<UrlView, Seq<char>> {
    match r {
        Ok(u) => Ok(u@),
        Err(e) => Err(e@),
    }
}

fn invalid_url(input: &str, reason: &str) -> (r: String)
    ensures
        r@ == invalid_url_message(input@, reason@),
{
    let quoted = bindings::debug_quoted(input);
    let mut r = text::concat3("invalid URL ", quoted.as_str(), ": ");
    r.append(reason);
    r
}

/// Parses a URL, assuming `https://` for bare hostnames like `example.com`.
pub fn normalize_url(input: &str) -> (r: Result<WebUrl, String>)
    ensures
        url_result_view(r) == normalize_url_spec(input@),
{
    let s = text::trimmed(input);
    match bindings::url_parse(s.as_str()) {
        Ok(u) => Ok(u),
        Err(p) => {
            if p.relative_without_base {
                let with_scheme = text::concat("https://", s.as_str());
                match bindings::url_parse(with_scheme.as_str()) {
                    Ok(u) => Ok(u),
                    Err(p2) => Err(invalid_url(input, p2.message.as_str())),
                }
            } else {
                Err(invalid_url(input, p.message.as_str()))
            }
        },
    }
}

// ---------------------------------------------------------------------------
// Host matching
// ---------------------------------------------------------------------------

/// How a host pattern and a host are compared: both trimmed and in ASCII
/// lowercase.
pub open spec fn host_form(s: Seq<char>) -> Seq<char> {
    text::lower(text::trim(s))
}

/// What is decided before the glob: an empty pattern or host never
/// matches; equal strings match; `*.example.com` matches `example.com` and
/// every name ending in `.example.com`; a pattern over the length limit
/// matches nothing; a plain-text pattern matches only the equal host (as
/// the glob does). `None` when the glob decides.
pub open spec fn host_prefilter(pattern: Seq<char>, host: Seq<char>) -> Option<bool> {
    let pat = host_form(pattern);
    let h = host_form(host);
    if pat.len() == 0 || h.len() == 0 {
        Some(false)
    } else if pat == h {
        Some(true)
    } else if text::starts_with(pat, "*."@) && ({
        let apex = pat.subrange(2, pat.len() as int);
        apex == h || text::ends_with(h, "."@ + apex)
    }) {
        Some(true)
    } else if pat.len() > bindings::GLOB_PATTERN_LIMIT {
        Some(false)
    } else if bindings::glob_literal(pat) && !h.contains('\\') {
        Some(false)
    } else {
        None
    }
}

/// Whether a host glob pattern matches a host: what is decided before the
/// glob, else the `globset` glob on the trimmed, lowercased pair.
pub open spec fn host_matches(pattern: Seq<char>, host: Seq<char>) -> bool {
    match host_prefilter(pattern, host) {
        Some(b) => b,
        None => bindings::glob_is_match(host_form(pattern), host_form(host)),
    }
}

/// Whether the answer for a pair is the same on every machine: it is
/// decided before the glob, or neither holds a backslash.
pub open spec fn host_answer_known(pattern: Seq<char>, host: Seq<char>) -> bool {
    host_prefilter(pattern, host) is Some || bindings::glob_portable(
        host_form(pattern),
        host_form(host),
    )
}

/// Matches a host glob pattern against a host. With a backslash in the
/// glob step the answer is the machine's `globset` answer, of which nothing
/// is stated (see `glob_match`).
pub fn host_pattern_matches(pattern: &str, host: &str) -> (r: bool)
    ensures
        host_answer_known(pattern@, host@) ==> r == host_matches(pattern@, host@),
        host_prefilter(pattern@, host@) matches Some(b) ==> r == b,
{
    let pt = text::trimmed(pattern);
    let pat = text::to_lower(pt.as_str());
    let ht = text::trimmed(host);
    let h = text::to_lower(ht.as_str());
    if pat.unicode_len() == 0 || h.unicode_len() == 0 {
        return false;
    }
    if pat == h {
        return true;
    }
    if text::has_prefix(pat.as_str(), "*.") {
        proof {
            reveal_strlit("*.");
        }
        let n = pat.unicode_len();
        let apex = pat.as_str().substring_char(2, n);
        if text::str_eq(apex, h.as_str()) {
            return true;
        }
        let dotted = text::concat(".", apex);
        if text::has_suffix(h.as_str(), dotted.as_str()) {
            return true;
        }
    }
    if pat.unicode_len() > bindings::GLOB_PATTERN_LIMIT {
        return false;
    }
    bindings::glob_match(pat.as_str(), h.as_str())
}

// ---------------------------------------------------------------------------
// Rule engine
// ---------------------------------------------------------------------------

/// Where a URL goes.
#[derive(Debug)]
pub struct Decision {
    pub browser_id: String,
    pub private: bool,
    /// Name of the matched rule, or `None` when the default browser was used.
    pub rule_name: Option<String>,
}

/// A decision as plain values.
pub struct DecisionView {
    pub browser_id: Seq<char>,
    pub private: bool,
    pub rule_name: Option<Seq<char>>,
}

impl View for Decision {
    type V = DecisionView;

    open spec fn view(&self) -> DecisionView {
        DecisionView {
            browser_id: self.browser_id@,
            private: self.private,
            rule_name: self.rule_name.deep_view(),
        }
    }
}

/// A rule ready for matching: its url regex when that compiles, and its
/// host patterns trimmed and lowercased.
struct CompiledRule {
    rule: Rule,
    regex: Option<String>,
    hosts: Vec<String>,
}

/// A compiled rule as plain values.
pub struct CompiledRuleView {
    pub rule: RuleView,
    pub regex: Option<Seq<char>>,
    pub hosts: Seq<Seq<char>>,
}

impl View for CompiledRule {
    type V = CompiledRuleView;

    closed spec fn view(&self) -> CompiledRuleView {
        CompiledRuleView { rule: self.rule@, regex: self.regex.deep_view(), hosts: self.hosts.deep_view() }
    }
}

/// The compiled configuration: the default browser and the rules in order.
pub struct Engine {
    default: String,
    rules: Vec<CompiledRule>,
}

impl Engine {
    /// Every rule is compiled from its own source.
    #[verifier::type_invariant]
    spec fn compiled(self) -> bool {
        forall|i: int|
            0 <= i < self.rules@.len() ==> #[trigger] self.rules@[i]@ == compile_rule(
                self.rules@[i]@.rule,
            )
    }
}

/// An engine as plain values: its compiled rules and default browser.
pub struct EngineView {
    pub default: Seq<char>,
    pub rules: Seq<CompiledRuleView>,
}

impl View for Engine {
    type V = EngineView;

    closed spec fn view(&self) -> EngineView {
        EngineView { default: self.default@, rules: self.rules@.map_values(|r: CompiledRule| r@) }
    }
}

/// The url regex of a rule when it compiles.
pub open spec fn usable_regex(rule: RuleView) -> Option<Seq<char>> {
    match rule.url_regex {
        Some(src) => if bindings::regex_new_error(src) is None {
            Some(src)
        } else {
            None
        },
        None => None,
    }
}

/// The host patterns of a rule, trimmed and lowercased.
pub open spec fn normalized_hosts(hosts: Seq<Seq<char>>) -> Seq<Seq<char>> {
    hosts.map_values(|h: Seq<char>| text::lower(text::trim(h)))
}

/// A rule as the engine holds it: trimmed, lowercased host patterns, and
/// the regex kept only when it compiles.
pub open spec fn compile_rule(rule: RuleView) -> CompiledRuleView {
    CompiledRuleView { rule, regex: usable_regex(rule), hosts: normalized_hosts(rule.host) }
}

/// The engine compiled from a configuration.
pub open spec fn compile_spec(cfg: ConfigView) -> EngineView {
    EngineView {
        default: cfg.default_browser,
        rules: cfg.rules.map_values(|r: RuleView| compile_rule(r)),
    }
}

/// The warnings about one rule: an invalid regex (which is then ignored),
/// and a rule that can never match.
pub open spec fn rule_warnings(rule: RuleView) -> Seq<Seq<char>> {
    let bad_regex = match rule.url_regex {
        Some(src) => match bindings::regex_new_error(src) {
            Some(e) => seq!["rule '"@ + rule.name + "': ignoring invalid url_regex: "@ + e],
            None => seq![],
        },
        None => seq![],
    };
    let never = if rule.host.len() == 0 && usable_regex(rule) is None {
        seq!["rule '"@ + rule.name + "': neither host nor url_regex set; the rule never matches"@]
    } else {
        seq![]
    };
    bad_regex + never
}

/// All warnings, rule by rule.
pub open spec fn compile_warnings(rules: Seq<RuleView>) -> Seq<Seq<char>>
    decreases rules.len(),
{
    if rules.len() == 0 {
        seq![]
    } else {
        compile_warnings(rules.drop_last()) + rule_warnings(rules.last())
    }
}

/// Whether some host pattern of the rule matches the host.
pub open spec fn any_host_matches(hosts: Seq<Seq<char>>, host: Seq<char>) -> bool {
    exists|i: int| 0 <= i < hosts.len() && host_matches(#[trigger] hosts[i], host)
}

/// Whether a compiled rule matches: a host pattern matches the (lowercased)
/// host, or the regex matches the full URL.
pub open spec fn rule_matches(rule: CompiledRuleView, host: Seq<char>, full: Seq<char>) -> bool {
    any_host_matches(rule.hosts, host) || match rule.regex {
        Some(src) => bindings::regex_is_match(src, full),
        None => false,
    }
}

/// The index of the first matching rule.
pub open spec fn first_match(rules: Seq<CompiledRuleView>, host: Seq<char>, full: Seq<char>) -> Option<
    int,
>
    decreases rules.len(),
{
    if rules.len() == 0 {
        None
    } else {
        match first_match(rules.drop_last(), host, full) {
            Some(i) => Some(i),
            None => if rule_matches(rules.last(), host, full) {
                Some(rules.len() - 1)
            } else {
                None
            },
        }
    }
}

/// The host the rules see: `host_str`, or empty, in ASCII lowercase.
pub open spec fn url_host(url: UrlView) -> Seq<char> {
    text::lower(
        match url.2 {
            Some(h) => h,
            None => Seq::empty(),
        },
    )
}

/// The decision for a URL: the first matching rule's browser, privacy, and
/// name; the default browser, non-private, when no rule matches.
pub open spec fn decide_spec(engine: EngineView, url: UrlView) -> DecisionView {
    match first_match(engine.rules, url_host(url), url.0) {
        Some(i) => DecisionView {
            browser_id: engine.rules[i].rule.browser,
            private: engine.rules[i].rule.private,
            rule_name: Some(engine.rules[i].rule.name),
        },
        None => DecisionView { browser_id: engine.default, private: false, rule_name: None },
    }
}

/// Whether every host pattern of a rule has the same answer for `host` on
/// every machine.
pub open spec fn rule_hosts_known(rule: CompiledRuleView, host: Seq<char>) -> bool {
    forall|m: int| 0 <= m < rule.hosts.len() ==> host_answer_known(#[trigger] rule.hosts[m], host)
}

/// Whether every rule's host patterns have machine-independent answers for
/// the URL's host.
pub open spec fn engine_known(engine: EngineView, url: UrlView) -> bool {
    forall|i: int|
        0 <= i < engine.rules.len() ==> rule_hosts_known(#[trigger] engine.rules[i], url_host(url))
}

/// Host answers, rule by rule, that agree with `any_host_matches` wherever
/// the answer is the same on every machine; elsewhere they are what the
/// machine's `globset` gave.
pub open spec fn hits_consistent(rules: Seq<CompiledRuleView>, host: Seq<char>, hits: Seq<bool>) -> bool {
    &&& hits.len() == rules.len()
    &&& forall|i: int|
        0 <= i < rules.len() && rule_hosts_known(rules[i], host) ==> #[trigger] hits[i]
            == any_host_matches(rules[i].hosts, host)
}

/// The index of the first matching rule, given whether each rule's host
/// patterns matched (`hits`).
pub open spec fn first_match_with(rules: Seq<CompiledRuleView>, hits: Seq<bool>, full: Seq<char>) -> Option<
    int,
>
    decreases rules.len(),
{
    if rules.len() == 0 {
        None
    } else {
        match first_match_with(rules.drop_last(), hits, full) {
            Some(i) => Some(i),
            None => if hits[rules.len() - 1] || match rules.last().regex {
                Some(src) => bindings::regex_is_match(src, full),
                None => false,
            } {
                Some(rules.len() - 1)
            } else {
                None
            },
        }
    }
}

/// The decision for a URL given the host answers of the rules.
pub open spec fn decide_with(engine: EngineView, url: UrlView, hits: Seq<bool>) -> DecisionView {
    match first_match_with(engine.rules, hits, url.0) {
        Some(i) => DecisionView {
            browser_id: engine.rules[i].rule.browser,
            private: engine.rules[i].rule.private,
            rule_name: Some(engine.rules[i].rule.name),
        },
        None => DecisionView { browser_id: engine.default, private: false, rule_name: None },
    }
}

proof fn lemma_first_match_with_exact(
    rules: Seq<CompiledRuleView>,
    host: Seq<char>,
    hits: Seq<bool>,
    full: Seq<char>,
)
    requires
        hits.len() >= rules.len(),
        forall|i: int| 0 <= i < rules.len() ==> #[trigger] hits[i] == any_host_matches(rules[i].hosts, host),
    ensures
        first_match_with(rules, hits, full) == first_match(rules, host, full),
    decreases rules.len(),
{
    if rules.len() > 0 {
        let p = rules.drop_last();
        assert forall|i: int| 0 <= i < p.len() implies #[trigger] hits[i] == any_host_matches(p[i].hosts, host) by {
            assert(p[i] == rules[i]);
        }
        lemma_first_match_with_exact(p, host, hits, full);
        assert(hits[rules.len() - 1] == any_host_matches(rules[rules.len() - 1].hosts, host));
    }
}

/// Where every host answer is the same on every machine, the decision is
/// `decide_spec`.
pub proof fn lemma_known_hosts_decide_exactly(engine: EngineView, url: UrlView, hits: Seq<bool>)
    requires
        hits_consistent(engine.rules, url_host(url), hits),
        engine_known(engine, url),
    ensures
        decide_with(engine, url, hits) == decide_spec(engine, url),
{
    assert forall|i: int| 0 <= i < engine.rules.len() implies #[trigger] hits[i] == any_host_matches(
        engine.rules[i].hosts,
        url_host(url),
    ) by {
        assert(rule_hosts_known(engine.rules[i], url_host(url)));
    }
    lemma_first_match_with_exact(engine.rules, url_host(url), hits, url.0);
}

proof fn lemma_first_match_with_prefix(
    rules: Seq<CompiledRuleView>,
    hits: Seq<bool>,
    full: Seq<char>,
    n: int,
)
    requires
        0 <= n <= rules.len(),
        first_match_with(rules.take(n), hits, full) is Some,
    ensures
        first_match_with(rules, hits, full) == first_match_with(rules.take(n), hits, full),
    decreases rules.len() - n,
{
    if n < rules.len() {
        assert(rules.take(n + 1).drop_last() =~= rules.take(n));
        lemma_first_match_with_prefix(rules, hits, full, n + 1);
    } else {
        assert(rules.take(n) =~= rules);
    }
}

/// `first_match_with` over a prefix reads only the answers in it.
proof fn lemma_first_match_with_hits_prefix(
    rules: Seq<CompiledRuleView>,
    a: Seq<bool>,
    b: Seq<bool>,
    full: Seq<char>,
)
    requires
        a.len() >= rules.len(),
        b.len() >= rules.len(),
        forall|i: int| 0 <= i < rules.len() ==> a[i] == b[i],
    ensures
        first_match_with(rules, a, full) == first_match_with(rules, b, full),
    decreases rules.len(),
{
    if rules.len() > 0 {
        lemma_first_match_with_hits_prefix(rules.drop_last(), a, b, full);
    }
}

proof fn lemma_first_match_prefix(
    rules: Seq<CompiledRuleView>,
    host: Seq<char>,
    full: Seq<char>,
    n: int,
)
    requires
        0 <= n <= rules.len(),
        first_match(rules.take(n), host, full) is Some,
    ensures
        first_match(rules, host, full) == first_match(rules.take(n), host, full),
    decreases rules.len() - n,
{
    if n < rules.len() {
        assert(rules.take(n + 1).drop_last() =~= rules.take(n));
        lemma_first_match_prefix(rules, host, full, n + 1);
    } else {
        assert(rules.take(n) =~= rules);
    }
}

/// The first match is a matching rule with no matching rule before it, and
/// no rule matches when there is none.
pub proof fn lemma_first_match_is_first(
    rules: Seq<CompiledRuleView>,
    host: Seq<char>,
    full: Seq<char>,
)
    ensures
        first_match(rules, host, full) matches Some(i) ==> {
            &&& 0 <= i < rules.len()
            &&& rule_matches(rules[i], host, full)
            &&& forall|k: int| 0 <= k < i ==> !rule_matches(#[trigger] rules[k], host, full)
        },
        first_match(rules, host, full) is None ==> forall|k: int|
            0 <= k < rules.len() ==> !rule_matches(#[trigger] rules[k], host, full),
    decreases rules.len(),
{
    if rules.len() > 0 {
        let prefix = rules.drop_last();
        lemma_first_match_is_first(prefix, host, full);
        assert forall|k: int| 0 <= k < prefix.len() implies #[trigger] prefix[k] == rules[k] by {}
        if first_match(rules, host, full) is None {
            assert forall|k: int| 0 <= k < rules.len() implies !rule_matches(
                #[trigger] rules[k],
                host,
                full,
            ) by {
                if k < prefix.len() {
                    assert(prefix[k] == rules[k]);
                }
            }
        }
        if let Some(i) = first_match(rules, host, full) {
            assert forall|k: int| 0 <= k < i implies !rule_matches(#[trigger] rules[k], host, full) by {
                assert(prefix[k] == rules[k]);
            }
        }
    }
}

fn compile(rule: &Rule) -> (r: CompiledRule)
    ensures
        r@ == compile_rule(rule@),
{
    let regex = match &rule.url_regex {
        Some(src) => match bindings::regex_error(src.as_str()) {
            None => Some(src.clone()),
            Some(_) => None,
        },
        None => None,
    };
    let ghost hv = rule.host.deep_view();
    let mut hosts: Vec<String> = Vec::new();
    let mut i: usize = 0;
    while i < rule.host.len()
        invariant
            i <= rule.host.len(),
            hv == rule.host.deep_view(),
            hosts@.len() == i,
            forall|k: int| 0 <= k < i ==> #[trigger] hosts@[k]@ == normalized_hosts(hv)[k],
        decreases rule.host.len() - i,
    {
        let t = text::trimmed(rule.host[i].as_str());
        let l = text::to_lower(t.as_str());
        hosts.push(l);
        i = i + 1;
    }
    assert(hosts.deep_view() =~= normalized_hosts(hv));
    CompiledRule { rule: rule.duplicate(), regex, hosts }
}

fn warnings_for(rule: &Rule, compiled: &CompiledRule) -> (w: Vec<String>)
    requires
        compiled@ == compile_rule(rule@),
    ensures
        w.deep_view() == rule_warnings(rule@),
{
    let mut w: Vec<String> = Vec::new();
    match &rule.url_regex {
        Some(src) => match bindings::regex_error(src.as_str()) {
            Some(e) => {
                let mut m = text::concat3("rule '", rule.name.as_str(), "': ignoring invalid url_regex: ");
                m.append(e.as_str());
                w.push(m);
            },
            None => {},
        },
        None => {},
    }
    if rule.host.len() == 0 && compiled.regex.is_none() {
        w.push(
            text::concat3(
                "rule '",
                rule.name.as_str(),
                "': neither host nor url_regex set; the rule never matches",
            ),
        );
    }
    assert(w.deep_view() =~= rule_warnings(rule@));
    w
}

impl Engine {
    /// Compiles a configuration; returns the engine plus the warnings
    /// (invalid regexes, which are then ignored, and rules that can never
    /// match).
    pub fn new(cfg: &Config) -> (r: (Engine, Vec<String>))
        ensures
            r.0@ == compile_spec(cfg@),
            r.1.deep_view() == compile_warnings(cfg@.rules),
    {
        let ghost rv = cfg@.rules;
        let mut warnings: Vec<String> = Vec::new();
        let mut rules: Vec<CompiledRule> = Vec::new();
        let mut i: usize = 0;
        while i < cfg.rules.len()
            invariant
                i <= cfg.rules.len(),
                rv == cfg@.rules,
                rules@.len() == i,
                forall|k: int| 0 <= k < i ==> #[trigger] rules@[k]@ == compile_rule(rv[k]),
                warnings.deep_view() == compile_warnings(rv.take(i as int)),
            decreases cfg.rules.len() - i,
        {
            let rule = &cfg.rules[i];
            let c = compile(rule);
            let w = warnings_for(rule, &c);
            text::append_strings(&mut warnings, &w);
            assert(rv.take(i + 1).drop_last() =~= rv.take(i as int));
            rules.push(c);
            i = i + 1;
        }
        assert(rv.take(cfg.rules.len() as int) =~= rv);
        assert(rules@.map_values(|r: CompiledRule| r@) =~= rv.map_values(
            |r: RuleView| compile_rule(r),
        ));
        let engine = Engine { default: cfg.default_browser.clone(), rules };
        (engine, warnings)
    }

    /// Routes a URL: the first rule whose host pattern or url regex matches
    /// wins; otherwise the default browser. The host answers are exact
    /// wherever they are the same on every machine (`hits_consistent`).
    pub fn decide(&self, url: &WebUrl) -> (d: Decision)
        ensures
            exists|hits: Seq<bool>|
                #[trigger] hits_consistent(self@.rules, url_host(url@), hits) && d@ == decide_with(
                    self@,
                    url@,
                    hits,
                ),
            engine_known(self@, url@) ==> d@ == decide_spec(self@, url@),
    {
        proof {
            use_type_invariant(self);
        }
        let raw_host = match &url.host {
            Some(h) => h.clone(),
            None => String::new(),
        };
        let host = text::to_lower(raw_host.as_str());
        let full = url.serialization.as_str();
        let ghost rules = self@.rules;
        let ghost exact = Seq::new(rules.len(), |j: int| any_host_matches(rules[j].hosts, host@));
        let ghost mut hits: Seq<bool> = seq![];
        let mut i: usize = 0;
        while i < self.rules.len()
            invariant
                i <= self.rules.len(),
                rules == self@.rules,
                host@ == url_host(url@),
                full@ == url@.0,
                exact == Seq::new(rules.len(), |j: int| any_host_matches(rules[j].hosts, host@)),
                hits.len() == i,
                forall|j: int|
                    0 <= j < i && rule_hosts_known(rules[j], host@) ==> #[trigger] hits[j]
                        == any_host_matches(rules[j].hosts, host@),
                first_match_with(rules.take(i as int), hits, full@) is None,
            decreases self.rules.len() - i,
        {
            proof {
                use_type_invariant(self);
            }
            let cr = &self.rules[i];
            assert(rules[i as int] == cr@);
            assert(cr@ == compile_rule(cr@.rule));
            let mut host_ok = false;
            let mut k: usize = 0;
            while k < cr.hosts.len() && !host_ok
                invariant
                    k <= cr.hosts.len(),
                    rule_hosts_known(cr@, host@) ==> (host_ok ==> any_host_matches(
                        cr@.hosts,
                        host@,
                    )),
                    rule_hosts_known(cr@, host@) ==> (!host_ok ==> forall|m: int|
                        0 <= m < k ==> !host_matches(#[trigger] cr@.hosts[m], host@)),
                decreases cr.hosts.len() - k,
            {
                assert(cr@.hosts[k as int] == cr.hosts@[k as int]@);
                if host_pattern_matches(cr.hosts[k].as_str(), host.as_str()) {
                    host_ok = true;
                }
                k = k + 1;
            }
            let regex_ok = match &cr.regex {
                Some(src) => {
                    proof {
                        lemma_usable_regex_compiles(cr@.rule);
                    }
                    bindings::regex_matches(src.as_str(), full)
                },
                None => false,
            };
            let ghost prev = hits;
            proof {
                hits = hits.push(host_ok);
                lemma_first_match_with_hits_prefix(rules.take(i as int), prev, hits, full@);
            }
            assert(rules.take(i + 1).drop_last() =~= rules.take(i as int));
            if host_ok || regex_ok {
                let ghost all = hits + exact.subrange(i + 1, rules.len() as int);
                proof {
                    lemma_first_match_with_hits_prefix(rules.take(i + 1), hits, all, full@);
                    lemma_first_match_with_prefix(rules, all, full@, i + 1);
                    assert(hits_consistent(rules, host@, all));
                    if engine_known(self@, url@) {
                        lemma_known_hosts_decide_exactly(self@, url@, all);
                    }
                }
                return Decision {
                    browser_id: cr.rule.browser.clone(),
                    private: cr.rule.private,
                    rule_name: Some(cr.rule.name.clone()),
                };
            }
            i = i + 1;
        }
        assert(rules.take(self.rules.len() as int) =~= rules);
        proof {
            assert(hits_consistent(rules, host@, hits));
            if engine_known(self@, url@) {
                lemma_known_hosts_decide_exactly(self@, url@, hits);
            }
        }
        Decision { browser_id: self.default.clone(), private: false, rule_name: None }
    }
}

proof fn lemma_usable_regex_compiles(rule: RuleView)
    ensures
        usable_regex(rule) matches Some(src) ==> bindings::regex_new_error(src) is None,
{
}

// ---------------------------------------------------------------------------
// Browser resolution & launching
// ---------------------------------------------------------------------------

/// Where a built-in browser's executable is: the location that the
/// platform lookup found, for catalog ids only.
pub open spec fn find_browser_spec(id: Seq<char>, located: Option<Seq<char>>) -> Option<Seq<char>> {
    if platform::is_catalog_id(id) {
        located
    } else {
        None
    }
}

/// A browser ready to be launched.
#[derive(Debug)]
pub struct ResolvedBrowser {
    pub id: String,
    pub path: String,
    /// Extra args from config, passed before the URL.
    pub extra_args: Vec<String>,
    /// Flags that request a private/incognito window.
    pub private_args: Vec<String>,
    /// Firefox profile name (Firefox only).
    pub profile: Option<String>,
}

/// A resolved browser as plain values.
pub struct ResolvedView {
    pub id: Seq<char>,
    pub path: Seq<char>,
    pub extra_args: Seq<Seq<char>>,
    pub private_args: Seq<Seq<char>>,
    pub profile: Option<Seq<char>>,
}

impl View for ResolvedBrowser {
    type V = ResolvedView;

    open spec fn view(&self) -> ResolvedView {
        ResolvedView {
            id: self.id@,
            path: self.path@,
            extra_args: self.extra_args.deep_view(),
            private_args: self.private_args.deep_view(),
            profile: self.profile.deep_view(),
        }
    }
}

/// The error for a browser that has neither a configured path nor a
/// detected executable.
pub open spec fn not_found_message(id: Seq<char>) -> Seq<char> {
    "browser '"@ + id + "' was not found on this system; add [browsers."@ + id
        + "] with an explicit `path` to the config file"@
}

/// Resolves a browser id: a configured `path` wins over detection; the
/// configured `args` come first on the command line; the private-window
/// flags are the configured ones, else the catalog's; the profile applies
/// to Firefox only.
pub open spec fn resolve_spec(cfg: ConfigView, id: Seq<char>, located: Option<Seq<char>>) -> Result<
    ResolvedView,
    Seq<char>,
> {
    let bc = config::browser_entry(cfg, id);
    let base: Option<(Seq<char>, Seq<Seq<char>>)> = match bc.path {
        Some(p) => Some((p, bc.private_args)),
        None => match find_browser_spec(id, located) {
            Some(p) => Some((p, seq![])),
            None => None,
        },
    };
    match base {
        None => Err(not_found_message(id)),
        Some((path, flags)) => Ok(
            ResolvedView {
                id,
                path,
                extra_args: bc.args,
                private_args: if flags.len() == 0 && platform::is_catalog_id(id) {
                    platform::catalog_private_args(id)
                } else {
                    flags
                },
                profile: if id == "firefox"@ {
                    bc.profile
                } else {
                    None
                },
            },
        ),
    }
}

/// The plain values of a resolution outcome.
pub open spec fn resolved_result_view(r: Result<ResolvedBrowser, String>) -> Result<
    ResolvedView,
    Seq<char>,
> {
    match r {
        Ok(b) => Ok(b@),
        Err(e) => Err(e@),
    }
}

fn strs_to_strings(v: &Vec<&'static str>) -> (r: Vec<String>)
    ensures
        r.deep_view() == platform::strs_view(v@),
{
    let mut r: Vec<String> = Vec::new();
    let mut i: usize = 0;
    while i < v.len()
        invariant
            i <= v.len(),
            r@.len() == i,
            forall|k: int| 0 <= k < i ==> #[trigger] r@[k]@ == v@[k]@,
        decreases v.len() - i,
    {
        r.push(String::from_str(v[i]));
        i = i + 1;
    }
    assert(r.deep_view() =~= platform::strs_view(v@));
    r
}

/// Whether resolving `id` looks for its executable on this machine: it has
/// no configured `path` and is a built-in browser.
pub open spec fn detection_needed(cfg: ConfigView, id: Seq<char>) -> bool {
    config::browser_entry(cfg, id).path is None && platform::is_catalog_id(id)
}

/// `r` is how `id` resolves in `cfg` for some answer of `locate`: when
/// detection is needed, an answer `locate` gave for `id`; otherwise
/// `locate` is not asked.
pub open spec fn resolves_as<F: Fn(&str) -> Option<String>>(
    cfg: ConfigView,
    locate: F,
    id: Seq<char>,
    r: Result<ResolvedView, Seq<char>>,
) -> bool {
    exists|located: Option<String>|
        (if detection_needed(cfg, id) {
            probed(locate, id, located)
        } else {
            located is None
        }) && r == resolve_spec(cfg, id, located.deep_view())
}

/// Resolves a browser id to an executable, honoring config overrides.
/// `locate` looks a built-in browser up on this machine; it is asked only
/// when the configuration gives no path.
pub fn resolve_browser<F: Fn(&str) -> Option<String>>(cfg: &Config, id: &str, locate: F) -> (r:
    Result<ResolvedBrowser, String>)
    requires
        config::browser_ids_distinct(cfg@),
        forall|s: &str| #[trigger] call_requires(locate, (s,)),
    ensures
        resolves_as(cfg@, locate, id@, resolved_result_view(r)),
{
    let ghost mut located: Option<String> = None;
    let bc = match cfg.find_browser_entry(id) {
        Some(i) => cfg.browsers[i].1.duplicate(),
        None => config::BrowserConfig::default(),
    };
    assert(bc@ == config::browser_entry(cfg@, id@));
    let mut resolved = match &bc.path {
        Some(path) => ResolvedBrowser {
            id: String::from_str(id),
            path: path.clone(),
            extra_args: text::copy_strings(&bc.args),
            private_args: text::copy_strings(&bc.private_args),
            profile: None,
        },
        None => {
            let found = platform::find_browser(id, locate);
            proof {
                located = found;
            }
            match found {
                Some(path) => ResolvedBrowser {
                    id: String::from_str(id),
                    path,
                    extra_args: text::copy_strings(&bc.args),
                    private_args: Vec::new(),
                    profile: None,
                },
                None => {
                    let mut msg = text::concat3(
                        "browser '",
                        id,
                        "' was not found on this system; add [browsers.",
                    );
                    msg.append(id);
                    msg.append("] with an explicit `path` to the config file");
                    assert(resolved_result_view(Err(msg)) == resolve_spec(cfg@, id@, located.deep_view()));
                    return Err(msg);
                },
            }
        },
    };
    assert(resolved.private_args.deep_view().len() == resolved.private_args@.len());
    if resolved.private_args.len() == 0 {
        if let Some(def) = platform::catalog_def(id) {
            resolved.private_args = strs_to_strings(&def.private_args);
        }
    }
    if text::str_eq(id, "firefox") {
        resolved.profile = text::copy_opt_string(&bc.profile);
    }
    assert(resolved@.private_args =~= resolve_spec(cfg@, id@, located.deep_view())->Ok_0.private_args);
    Ok(resolved)
}

/// How to start a browser for one URL.
#[derive(Debug)]
pub struct LaunchPlan {
    pub program: String,
    pub args: Vec<String>,
    /// A private window was asked for but the browser has no known flag for
    /// one, so a normal window opens.
    pub missing_private_flag: bool,
}

/// The command line after the program: `-P <profile>` when there is a
/// profile, the private-window flags when private, the configured extra
/// arguments, and the URL last.
pub open spec fn launch_args_spec(b: ResolvedView, url: Seq<char>, private: bool) -> Seq<Seq<char>> {
    (match b.profile {
        Some(p) => seq!["-P"@, p],
        None => seq![],
    }) + (if private {
        b.private_args
    } else {
        seq![]
    }) + b.extra_args + seq![url]
}

/// Plans the process that opens `url` in `browser`.
pub fn launch_plan(browser: &ResolvedBrowser, url: &str, private: bool) -> (p: LaunchPlan)
    ensures
        p.program@ == browser@.path,
        p.args.deep_view() == launch_args_spec(browser@, url@, private),
        p.missing_private_flag == (private && browser@.private_args.len() == 0),
{
    let mut args: Vec<String> = Vec::new();
    if let Some(profile) = &browser.profile {
        args.push(String::from_str("-P"));
        args.push(profile.clone());
    }
    assert(args.deep_view() =~= match browser@.profile {
        Some(p) => seq!["-P"@, p],
        None => seq![],
    });
    if private {
        text::append_strings(&mut args, &browser.private_args);
    }
    text::append_strings(&mut args, &browser.extra_args);
    let ghost before = args.deep_view();
    args.push(String::from_str(url));
    assert(args.deep_view() =~= before + seq![url@]);
    assert(args.deep_view() =~= launch_args_spec(browser@, url@, private));
    LaunchPlan {
        program: browser.path.clone(),
        args,
        missing_private_flag: private && browser.private_args.len() == 0,
    }
}

/// The warning printed when a private window cannot be requested.
pub fn missing_private_flag_warning(id: &str) -> (r: String)
    ensures
        r@ == "warning: browser '"@ + id@ + "' has no known private-window flag; opening a normal window"@,
{
    text::concat3(
        "warning: browser '",
        id,
        "' has no known private-window flag; opening a normal window",
    )
}

/// The browsers to try, in order: the decision's browser (private as
/// decided), then, when it is another browser, the default browser in a
/// normal window.
pub open spec fn launch_attempts_spec(cfg: ConfigView, d: DecisionView) -> Seq<(Seq<char>, bool)> {
    seq![(d.browser_id, d.private)] + if d.browser_id != cfg.default_browser {
        seq![(cfg.default_browser, false)]
    } else {
        seq![]
    }
}

/// Lists the launch attempts for a decision; the first that starts wins.
pub fn launch_attempts(cfg: &Config, decision: &Decision) -> (r: Vec<(String, bool)>)
    ensures
        r@.map_values(|a: (String, bool)| (a.0@, a.1)) == launch_attempts_spec(cfg@, decision@),
{
    let mut r: Vec<(String, bool)> = Vec::new();
    r.push((decision.browser_id.clone(), decision.private));
    if decision.browser_id != cfg.default_browser {
        r.push((cfg.default_browser.clone(), false));
    }
    assert(r@.map_values(|a: (String, bool)| (a.0@, a.1)) =~= launch_attempts_spec(cfg@, decision@));
    r
}

/// The message when the fallback browser failed too.
pub fn both_failed_message(matched: &str, fallback: &str, cause: &str) -> (r: String)
    ensures
        r@ == "matched browser '"@ + matched@ + "' and fallback '"@ + fallback@
            + "' both failed: "@ + cause@,
{
    let mut r = text::concat3("matched browser '", matched, "' and fallback '");
    r.append(fallback);
    r.append("' both failed: ");
    r.append(cause);
    r
}

/// The warning when the matched browser failed and the default is tried.
pub fn fallback_warning(matched: &str, cause: &str, fallback: &str) -> (r: String)
    ensures
        r@ == "warning: "@ + matched@ + " failed ("@ + cause@
            + "); falling back to default browser '"@ + fallback@ + "'"@,
{
    let mut r = text::concat3("warning: ", matched, " failed (");
    r.append(cause);
    r.append("); falling back to default browser '");
    r.append(fallback);
    r.append("'");
    r
}

// ---------------------------------------------------------------------------
// Dispatch output and log lines
// ---------------------------------------------------------------------------

/// How a decision was reached: the rule name, or `default`.
pub open spec fn via_spec(d: DecisionView) -> Seq<char> {
    match d.rule_name {
        Some(n) => n,
        None => "default"@,
    }
}

/// The rule name a decision came from, or `default`.
pub fn via(d: &Decision) -> (r: String)
    ensures
        r@ == via_spec(d@),
{
    match &d.rule_name {
        Some(n) => n.clone(),
        None => String::from_str("default"),
    }
}

/// The line printed by a dry run: `<url> -> <browser> (<via>)`.
pub fn dry_run_line(url: &WebUrl, d: &Decision) -> (r: String)
    ensures
        r@ == url@.0 + " -> "@ + d@.browser_id + " ("@ + via_spec(d@) + ")"@,
{
    let v = via(d);
    let mut r = text::concat3(url.serialization.as_str(), " -> ", d.browser_id.as_str());
    r.append(" (");
    r.append(v.as_str());
    r.append(")");
    r
}

/// The log line for an input that is not a URL.
pub fn log_line_invalid(timestamp: &str, raw: &str, error: &str) -> (r: String)
    ensures
        r@ == timestamp@ + " url="@ + text::single_line(raw@) + " error="@ + text::single_line(error@),
{
    let raw1 = text::single_line_of(raw);
    let err1 = text::single_line_of(error);
    let mut r = text::concat3(timestamp, " url=", raw1.as_str());
    r.append(" error=");
    r.append(err1.as_str());
    r
}

/// The log line for a launched URL.
pub fn log_line_ok(timestamp: &str, url: &WebUrl, launched: &str, d: &Decision) -> (r: String)
    ensures
        r@ == timestamp@ + " url="@ + url@.0 + " -> "@ + launched@ + " via="@ + via_spec(d@)
            + " ok"@,
{
    let v = via(d);
    let mut r = text::concat3(timestamp, " url=", url.serialization.as_str());
    r.append(" -> ");
    r.append(launched);
    r.append(" via=");
    r.append(v.as_str());
    r.append(" ok");
    r
}

/// The log line for a URL that no browser could open.
pub fn log_line_failed(timestamp: &str, url: &WebUrl, d: &Decision, error: &str) -> (r: String)
    ensures
        r@ == timestamp@ + " url="@ + url@.0 + " -> "@ + d@.browser_id + " via="@ + via_spec(d@)
            + " error="@ + text::single_line(error@),
{
    let v = via(d);
    let e = text::single_line_of(error);
    let mut r = text::concat3(timestamp, " url=", url.serialization.as_str());
    r.append(" -> ");
    r.append(d.browser_id.as_str());
    r.append(" via=");
    r.append(v.as_str());
    r.append(" error=");
    r.append(e.as_str());
    r
}

// ---------------------------------------------------------------------------
// The dispatch loop
// ---------------------------------------------------------------------------

/// What dispatch does with one command-line argument.
#[derive(Debug)]
pub enum UrlStep {
    /// Not a URL: the error, which is reported and logged, and the loop
    /// goes on.
    Invalid { error: String },
    /// A dry run: the line to print instead of launching.
    Preview { line: String },
    /// Launch: the URL, the decision, and the browsers to try in order.
    Launch { url: WebUrl, decision: Decision, attempts: Vec<(String, bool)> },
}

/// A dispatch step as plain values.
pub enum UrlStepView {
    Invalid(Seq<char>),
    Preview(Seq<char>),
    Launch(UrlView, DecisionView, Seq<(Seq<char>, bool)>),
}

impl View for UrlStep {
    type V = UrlStepView;

    open spec fn view(&self) -> UrlStepView {
        match self {
            UrlStep::Invalid { error } => UrlStepView::Invalid(error@),
            UrlStep::Preview { line } => UrlStepView::Preview(line@),
            UrlStep::Launch { url, decision, attempts } => UrlStepView::Launch(
                url@,
                decision@,
                attempts@.map_values(|a: (String, bool)| (a.0@, a.1)),
            ),
        }
    }
}

/// The step for one argument: an input that is not a URL is reported; a
/// dry run previews the decision (`<url> -> <browser> (<via>)`) without
/// opening a browser; otherwise the decided browser, then the default, are
/// tried.
pub open spec fn url_step_spec(
    cfg: ConfigView,
    engine: EngineView,
    raw: Seq<char>,
    dry_run: bool,
) -> UrlStepView {
    match normalize_url_spec(raw) {
        Err(e) => UrlStepView::Invalid(e),
        Ok(u) => {
            let d = decide_spec(engine, u);
            if dry_run {
                UrlStepView::Preview(u.0 + " -> "@ + d.browser_id + " ("@ + via_spec(d) + ")"@)
            } else {
                UrlStepView::Launch(u, d, launch_attempts_spec(cfg, d))
            }
        },
    }
}

/// The step for one argument, given the host answers of the rules.
pub open spec fn url_step_with(
    cfg: ConfigView,
    engine: EngineView,
    raw: Seq<char>,
    dry_run: bool,
    hits: Seq<bool>,
) -> UrlStepView {
    match normalize_url_spec(raw) {
        Err(e) => UrlStepView::Invalid(e),
        Ok(u) => {
            let d = decide_with(engine, u, hits);
            if dry_run {
                UrlStepView::Preview(u.0 + " -> "@ + d.browser_id + " ("@ + via_spec(d) + ")"@)
            } else {
                UrlStepView::Launch(u, d, launch_attempts_spec(cfg, d))
            }
        },
    }
}

/// Host answers consistent with the URL that `raw` normalizes to.
pub open spec fn step_hits_consistent(engine: EngineView, raw: Seq<char>, hits: Seq<bool>) -> bool {
    match normalize_url_spec(raw) {
        Ok(u) => hits_consistent(engine.rules, url_host(u), hits),
        Err(_) => true,
    }
}

/// Whether every host answer for the URL of `raw` is the same on every
/// machine.
pub open spec fn step_known(engine: EngineView, raw: Seq<char>) -> bool {
    match normalize_url_spec(raw) {
        Ok(u) => engine_known(engine, u),
        Err(_) => true,
    }
}

/// Plans the dispatch of one command-line argument.
pub fn plan_url(cfg: &Config, engine: &Engine, raw: &str, dry_run: bool) -> (r: UrlStep)
    ensures
        exists|hits: Seq<bool>|
            #[trigger] step_hits_consistent(engine@, raw@, hits) && r@ == url_step_with(
                cfg@,
                engine@,
                raw@,
                dry_run,
                hits,
            ),
        step_known(engine@, raw@) ==> r@ == url_step_spec(cfg@, engine@, raw@, dry_run),
{
    match normalize_url(raw) {
        Err(error) => {
            assert(step_hits_consistent(engine@, raw@, seq![]));
            UrlStep::Invalid { error }
        },
        Ok(url) => {
            let decision = engine.decide(&url);
            let ghost hits = choose|hits: Seq<bool>|
                #[trigger] hits_consistent(engine@.rules, url_host(url@), hits) && decision@
                    == decide_with(engine@, url@, hits);
            assert(step_hits_consistent(engine@, raw@, hits));
            if dry_run {
                UrlStep::Preview { line: dry_run_line(&url, &decision) }
            } else {
                let attempts = launch_attempts(cfg, &decision);
                UrlStep::Launch { url, decision, attempts }
            }
        },
    }
}

/// The attempt to make after attempt `i` of `n`: none once a browser has
/// started or every attempt was made, else the next one.
pub fn after_attempt(n: usize, i: usize, started: bool) -> (r: Option<usize>)
    ensures
        r == (if started || i + 1 >= n {
            None
        } else {
            Some((i + 1) as usize)
        }),
{
    if started || i >= n || n - i <= 1 {
        None
    } else {
        Some(i + 1)
    }
}

/// The error of a URL that no attempt opened, after attempt `last` failed
/// with `cause`: the cause itself when only the matched browser was tried,
/// else the message that both failed.
pub fn launch_error(attempts: &Vec<(String, bool)>, last: usize, cause: &str) -> (r: String)
    requires
        last < attempts@.len(),
    ensures
        last == 0 ==> r@ == cause@,
        last > 0 ==> r@ == "matched browser '"@ + attempts@[0].0@ + "' and fallback '"@
            + attempts@[last as int].0@ + "' both failed: "@ + cause@,
{
    if last == 0 {
        String::from_str(cause)
    } else {
        both_failed_message(attempts[0].0.as_str(), attempts[last].0.as_str(), cause)
    }
}

/// The result of a dispatch run: an error when no URL was given, or when
/// any URL could not be opened; success otherwise.
pub fn dispatch_outcome(n_urls: usize, any_failed: bool) -> (r: Result<(), String>)
    ensures
        r is Err <==> (n_urls == 0 || any_failed),
        n_urls == 0 ==> (r matches Err(e) && e@ == "no URL given"@),
        n_urls > 0 && any_failed ==> (r matches Err(e) && e@ == "dispatch finished with errors"@),
{
    if n_urls == 0 {
        Err(String::from_str("no URL given"))
    } else if any_failed {
        Err(String::from_str("dispatch finished with errors"))
    } else {
        Ok(())
    }
}

// ---------------------------------------------------------------------------
// Laws
// ---------------------------------------------------------------------------

proof fn lemma_normal_form(s: Seq<char>)
    ensures
        text::lower(text::trim(text::lower(text::trim(s)))) == text::lower(text::trim(s)),
{
    text::lemma_trim_lower(text::trim(s));
    text::lemma_trim_idempotent(s);
    text::lemma_lower_idempotent(text::trim(s));
}

/// Host matching ignores ASCII case and surrounding white space of both
/// the pattern and the host.
pub proof fn lemma_host_matching_ignores_case(pattern: Seq<char>, host: Seq<char>)
    ensures
        host_matches(pattern, host) == host_matches(text::lower(pattern), host),
        host_matches(pattern, host) == host_matches(pattern, text::lower(host)),
        host_matches(pattern, host) == host_matches(text::trim(pattern), text::trim(host)),
{
    text::lemma_trim_lower(pattern);
    text::lemma_trim_lower(host);
    text::lemma_lower_idempotent(text::trim(pattern));
    text::lemma_lower_idempotent(text::trim(host));
    text::lemma_trim_idempotent(pattern);
    text::lemma_trim_idempotent(host);
}

/// Host matching depends on the pattern and the host only through their
/// ASCII lowercase.
pub proof fn lemma_host_matching_sees_only_lowercase(
    p1: Seq<char>,
    p2: Seq<char>,
    h1: Seq<char>,
    h2: Seq<char>,
)
    requires
        text::lower(p1) == text::lower(p2),
        text::lower(h1) == text::lower(h2),
    ensures
        host_matches(p1, h1) == host_matches(p2, h2),
{
    text::lemma_trim_lower(p1);
    text::lemma_trim_lower(p2);
    text::lemma_trim_lower(h1);
    text::lemma_trim_lower(h2);
}

/// Host matching gives the same answer when both the pattern and the host
/// are written in ASCII uppercase.
pub proof fn lemma_host_matching_ignores_uppercasing(pattern: Seq<char>, host: Seq<char>)
    ensures
        host_matches(pattern, host) == host_matches(text::upper(pattern), text::upper(host)),
{
    text::lemma_lower_of_upper(pattern);
    text::lemma_lower_of_upper(host);
    lemma_host_matching_sees_only_lowercase(pattern, text::upper(pattern), host, text::upper(host));
}

/// A pattern without glob characters matches exactly the hosts equal to
/// it, once both are trimmed and lowercased (a host holding a backslash
/// aside, for which globset's answer depends on the machine).
pub proof fn lemma_plain_pattern_matches_only_itself(pattern: Seq<char>, host: Seq<char>)
    requires
        bindings::glob_literal(host_form(pattern)),
        !host_form(host).contains('\\'),
    ensures
        host_matches(pattern, host) <==> host_form(pattern) == host_form(host),
        host_answer_known(pattern, host),
{
    let pat = host_form(pattern);
    let h = host_form(host);
    if text::starts_with(pat, "*."@) {
        reveal_strlit("*.");
        assert(pat.subrange(0, 2)[0] == pat[0]);
        assert(pat[0] == '*');
        assert(pat.contains('*'));
    }
}

/// The answer for a pattern does not change when the pattern is first
/// trimmed and lowercased (as a compiled rule holds it).
proof fn lemma_host_matches_normalized_pattern(pattern: Seq<char>, host: Seq<char>)
    ensures
        host_matches(host_form(pattern), host) == host_matches(pattern, host),
        host_answer_known(host_form(pattern), host) == host_answer_known(pattern, host),
{
    lemma_normal_form(pattern);
}

/// What a source rule matches: one of its host patterns matches the host,
/// or its url regex compiles and matches the full URL; either suffices.
pub proof fn lemma_rule_matches_host_or_regex(rule: RuleView, host: Seq<char>, full: Seq<char>)
    ensures
        rule_matches(compile_rule(rule), host, full) <==> (
        (exists|m: int| 0 <= m < rule.host.len() && host_matches(#[trigger] rule.host[m], host))
            || (rule.url_regex matches Some(src) && bindings::regex_new_error(src) is None
            && bindings::regex_is_match(src, full))),
{
    let c = compile_rule(rule);
    assert forall|m: int| 0 <= m < rule.host.len() implies host_matches(
        #[trigger] c.hosts[m],
        host,
    ) == host_matches(rule.host[m], host) by {
        lemma_host_matches_normalized_pattern(rule.host[m], host);
    }
    if exists|m: int| 0 <= m < rule.host.len() && host_matches(#[trigger] rule.host[m], host) {
        let m = choose|m: int| 0 <= m < rule.host.len() && host_matches(#[trigger] rule.host[m], host);
        assert(host_matches(c.hosts[m], host));
    }
}

/// No host pattern or usable regex of the rule matches.
pub open spec fn rule_silent(rule: RuleView, url: UrlView) -> bool {
    &&& forall|m: int| 0 <= m < rule.host.len() ==> !host_matches(#[trigger] rule.host[m], url_host(url))
    &&& !(rule.url_regex matches Some(src) && bindings::regex_new_error(src) is None
        && bindings::regex_is_match(src, url.0))
}

/// A rule whose url regex compiles and matches the full URL decides the
/// URL, whatever its host patterns, when no earlier rule matches.
pub proof fn lemma_regex_match_decides(cfg: ConfigView, url: UrlView, i: int, src: Seq<char>)
    requires
        0 <= i < cfg.rules.len(),
        cfg.rules[i].url_regex == Some(src),
        bindings::regex_new_error(src) is None,
        bindings::regex_is_match(src, url.0),
        forall|j: int| 0 <= j < i ==> rule_silent(#[trigger] cfg.rules[j], url),
    ensures
        decide_spec(compile_spec(cfg), url) == (DecisionView {
            browser_id: cfg.rules[i].browser,
            private: cfg.rules[i].private,
            rule_name: Some(cfg.rules[i].name),
        }),
{
    let e = compile_spec(cfg);
    lemma_rule_matches_host_or_regex(cfg.rules[i], url_host(url), url.0);
    assert forall|k: int| 0 <= k < i implies !rule_matches(#[trigger] e.rules[k], url_host(url), url.0) by {
        lemma_rule_matches_host_or_regex(cfg.rules[k], url_host(url), url.0);
        assert(rule_silent(cfg.rules[k], url));
    }
    lemma_first_matching_rule_wins(e, url, i);
}

proof fn lemma_first_match_with_is_first(rules: Seq<CompiledRuleView>, hits: Seq<bool>, full: Seq<char>, i: int)
    requires
        0 <= i < rules.len(),
        hits.len() >= rules.len(),
        hits[i] || (rules[i].regex matches Some(src) && bindings::regex_is_match(src, full)),
        forall|k: int|
            0 <= k < i ==> !(#[trigger] hits[k] || (rules[k].regex matches Some(src)
                && bindings::regex_is_match(src, full))),
    ensures
        first_match_with(rules, hits, full) == Some(i),
    decreases rules.len(),
{
    if i < rules.len() - 1 {
        let p = rules.drop_last();
        assert forall|k: int| 0 <= k <= i implies #[trigger] p[k] == rules[k] by {}
        lemma_first_match_with_is_first(p, hits, full, i);
    } else {
        lemma_first_match_with_none(rules.drop_last(), hits, full);
    }
}

proof fn lemma_first_match_with_none(rules: Seq<CompiledRuleView>, hits: Seq<bool>, full: Seq<char>)
    requires
        hits.len() >= rules.len(),
        forall|k: int|
            0 <= k < rules.len() ==> !(#[trigger] hits[k] || (rules[k].regex matches Some(src)
                && bindings::regex_is_match(src, full))),
    ensures
        first_match_with(rules, hits, full) is None,
    decreases rules.len(),
{
    if rules.len() > 0 {
        let p = rules.drop_last();
        assert forall|k: int| 0 <= k < p.len() implies #[trigger] p[k] == rules[k] by {}
        lemma_first_match_with_none(p, hits, full);
        assert(!(hits[rules.len() - 1] || (rules[rules.len() - 1].regex matches Some(src)
            && bindings::regex_is_match(src, full))));
    }
}

/// Whatever the host answers, a rule whose url regex compiles and matches
/// the full URL decides it when no earlier rule matched by host or regex:
/// the regex side is consulted for every rule, host patterns or not.
pub proof fn lemma_regex_match_decides_with(
    cfg: ConfigView,
    url: UrlView,
    hits: Seq<bool>,
    i: int,
    src: Seq<char>,
)
    requires
        hits.len() == cfg.rules.len(),
        0 <= i < cfg.rules.len(),
        cfg.rules[i].url_regex == Some(src),
        bindings::regex_new_error(src) is None,
        bindings::regex_is_match(src, url.0),
        forall|j: int|
            0 <= j < i ==> !#[trigger] hits[j] && !(cfg.rules[j].url_regex matches Some(s)
                && bindings::regex_new_error(s) is None && bindings::regex_is_match(s, url.0)),
    ensures
        decide_with(compile_spec(cfg), url, hits) == (DecisionView {
            browser_id: cfg.rules[i].browser,
            private: cfg.rules[i].private,
            rule_name: Some(cfg.rules[i].name),
        }),
{
    let e = compile_spec(cfg);
    assert forall|k: int| 0 <= k < i implies !(#[trigger] hits[k] || (e.rules[k].regex matches Some(s)
        && bindings::regex_is_match(s, url.0))) by {
        assert(e.rules[k] == compile_rule(cfg.rules[k]));
        assert(!hits[k]);
        assert(e.rules[k].regex == usable_regex(cfg.rules[k]));
        match cfg.rules[k].url_regex {
            Some(s) => {
                if bindings::regex_new_error(s) is None {
                    assert(!bindings::regex_is_match(s, url.0));
                }
            },
            None => {},
        }
    }
    assert(e.rules[i] == compile_rule(cfg.rules[i]));
    lemma_first_match_with_is_first(e.rules, hits, url.0, i);
}

/// An empty (or blank) pattern matches nothing, and nothing matches an
/// empty host.
pub proof fn lemma_empty_never_matches(pattern: Seq<char>, host: Seq<char>)
    requires
        text::trim(pattern).len() == 0 || text::trim(host).len() == 0,
    ensures
        !host_matches(pattern, host),
{
}

/// A pattern matches a host that equals it, ignoring case and surrounding
/// white space.
pub proof fn lemma_exact_host_matches(pattern: Seq<char>, host: Seq<char>)
    requires
        text::lower(text::trim(pattern)) == text::lower(text::trim(host)),
        text::trim(host).len() > 0,
    ensures
        host_matches(pattern, host),
{
}

/// `*.example.com` matches `example.com` itself and every name that ends
/// in `.example.com`, at any depth.
pub proof fn lemma_wildcard_matches_apex_and_subdomains(
    pattern: Seq<char>,
    apex: Seq<char>,
    host: Seq<char>,
)
    requires
        text::lower(text::trim(pattern)) == "*."@ + apex,
        text::trim(host).len() > 0,
        text::lower(text::trim(host)) == apex || text::ends_with(
            text::lower(text::trim(host)),
            "."@ + apex,
        ),
    ensures
        host_matches(pattern, host),
{
    reveal_strlit("*.");
    let pat = text::lower(text::trim(pattern));
    assert(pat.subrange(0, 2) =~= "*."@);
    assert(pat.subrange(2, pat.len() as int) =~= apex);
}

/// The first matching rule decides: its browser, its privacy, and its name.
pub proof fn lemma_first_matching_rule_wins(engine: EngineView, url: UrlView, i: int)
    requires
        0 <= i < engine.rules.len(),
        rule_matches(engine.rules[i], url_host(url), url.0),
        forall|k: int|
            0 <= k < i ==> !rule_matches(#[trigger] engine.rules[k], url_host(url), url.0),
    ensures
        decide_spec(engine, url) == (DecisionView {
            browser_id: engine.rules[i].rule.browser,
            private: engine.rules[i].rule.private,
            rule_name: Some(engine.rules[i].rule.name),
        }),
{
    lemma_first_match_is_first(engine.rules, url_host(url), url.0);
    match first_match(engine.rules, url_host(url), url.0) {
        Some(j) => {
            if j < i {
            } else if j > i {
                assert(!rule_matches(engine.rules[i], url_host(url), url.0));
            }
        },
        None => {
            assert(!rule_matches(engine.rules[i], url_host(url), url.0));
        },
    }
}

/// When no rule matches, the default browser opens the URL in a normal
/// window, and no rule is named.
pub proof fn lemma_no_match_uses_default(engine: EngineView, url: UrlView)
    requires
        forall|k: int|
            0 <= k < engine.rules.len() ==> !rule_matches(
                #[trigger] engine.rules[k],
                url_host(url),
                url.0,
            ),
    ensures
        decide_spec(engine, url) == (DecisionView {
            browser_id: engine.default,
            private: false,
            rule_name: None,
        }),
{
    lemma_first_match_is_first(engine.rules, url_host(url), url.0);
}

/// A rule with no host pattern and no usable regex never matches, and
/// compiling it warns so.
pub proof fn lemma_rule_without_matcher_never_matches(rule: RuleView, host: Seq<char>, full: Seq<char>)
    requires
        rule.host.len() == 0,
        usable_regex(rule) is None,
    ensures
        !rule_matches(compile_rule(rule), host, full),
        rule_warnings(rule).last() == "rule '"@ + rule.name
            + "': neither host nor url_regex set; the rule never matches"@,
{
}

/// An invalid regex is ignored: the rule matches by its host patterns
/// alone, and compiling it warns with the regex error.
pub proof fn lemma_invalid_regex_ignored(rule: RuleView, host: Seq<char>, full: Seq<char>)
    requires
        rule.url_regex matches Some(src) && bindings::regex_new_error(src) is Some,
    ensures
        rule_matches(compile_rule(rule), host, full) == any_host_matches(
            normalized_hosts(rule.host),
            host,
        ),
        rule_warnings(rule)[0] == "rule '"@ + rule.name + "': ignoring invalid url_regex: "@
            + bindings::regex_new_error(rule.url_regex->Some_0)->Some_0,
{
}

/// An input without a scheme, such as `example.com`, is read as an
/// `https://` URL.
pub proof fn lemma_bare_input_becomes_https(input: Seq<char>)
    requires
        bindings::url_parse_result(text::trim(input)) matches Err((relative, _)) && relative,
        bindings::url_parse_result("https://"@ + text::trim(input)) is Ok,
    ensures
        normalize_url_spec(input) == Ok::<UrlView, Seq<char>>(
            bindings::url_parse_result("https://"@ + text::trim(input))->Ok_0,
        ),
{
}

/// A configured path is used as is, whatever detection found.
pub proof fn lemma_configured_path_wins(cfg: ConfigView, id: Seq<char>, located: Option<Seq<char>>)
    requires
        config::browser_entry(cfg, id).path is Some,
    ensures
        resolve_spec(cfg, id, located) matches Ok(b) && b.path == config::browser_entry(
            cfg,
            id,
        ).path->Some_0,
        resolve_spec(cfg, id, located) == resolve_spec(cfg, id, None),
{
}

/// A browser that is neither configured with a path nor detected cannot
/// be resolved; detection only counts for built-in ids.
pub proof fn lemma_unresolvable_browser(cfg: ConfigView, id: Seq<char>, located: Option<Seq<char>>)
    requires
        config::browser_entry(cfg, id).path is None,
        located is None || !platform::is_catalog_id(id),
    ensures
        resolve_spec(cfg, id, located) == Err::<ResolvedView, Seq<char>>(not_found_message(id)),
{
}

/// The configured `args` come before the URL however the path was found:
/// those of the browser's `[browsers.<id>]` entry, or none without one.
pub proof fn lemma_configured_args_always_apply(
    cfg: ConfigView,
    id: Seq<char>,
    located: Option<Seq<char>>,
)
    requires
        config::browser_ids_distinct(cfg),
    ensures
        forall|k: int|
            0 <= k < cfg.browsers.len() && #[trigger] cfg.browsers[k].0 == id ==> (resolve_spec(
                cfg,
                id,
                located,
            ) matches Ok(b) ==> b.extra_args == cfg.browsers[k].1.args),
        (forall|k: int| 0 <= k < cfg.browsers.len() ==> #[trigger] cfg.browsers[k].0 != id)
            ==> (resolve_spec(cfg, id, located) matches Ok(b) ==> b.extra_args.len() == 0),
{
    config::lemma_entry_is_unique(cfg, id);
    config::lemma_entry_lookup(cfg, id);
}

/// The profile applies to Firefox only, and a browser without configured
/// private flags gets the catalog's.
pub proof fn lemma_profile_and_private_flags(cfg: ConfigView, id: Seq<char>, located: Option<Seq<char>>)
    ensures
        resolve_spec(cfg, id, located) matches Ok(b) ==> {
            &&& (id != "firefox"@ ==> b.profile is None)
            &&& (config::browser_entry(cfg, id).private_args.len() == 0
                && platform::is_catalog_id(id) ==> b.private_args
                == platform::catalog_private_args(id))
        },
{
}

/// The URL is always the last argument; the private-window flags come only
/// for a private window, and a profile comes first.
pub proof fn lemma_launch_args_shape(b: ResolvedView, url: Seq<char>, private: bool)
    ensures
        launch_args_spec(b, url, private).last() == url,
        launch_args_spec(b, url, private).len() == (if b.profile is Some {
            2int
        } else {
            0
        }) + (if private {
            b.private_args.len() as int
        } else {
            0
        }) + b.extra_args.len() + 1,
        b.profile matches Some(p) ==> launch_args_spec(b, url, private)[0] == "-P"@
            && launch_args_spec(b, url, private)[1] == p,
{
}

/// The matched browser is tried first, as decided; the default browser is
/// tried at most once more, only when it is another browser, and never in
/// a private window.
pub proof fn lemma_fallback_tried_once(cfg: ConfigView, d: DecisionView)
    ensures
        launch_attempts_spec(cfg, d)[0] == (d.browser_id, d.private),
        launch_attempts_spec(cfg, d).len() == if d.browser_id == cfg.default_browser {
            1int
        } else {
            2int
        },
        launch_attempts_spec(cfg, d).len() == 2 ==> launch_attempts_spec(cfg, d)[1] == (
            cfg.default_browser,
            false,
        ),
{
}

} // verus!
