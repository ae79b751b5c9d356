//! The decisions of the interactive setup wizard: the browser choices it
//! offers, what a typed site becomes, and the rules it adds.

use vstd::prelude::*;

use crate::config::{Config, ConfigView, Rule, RuleView};
use crate::dispatch;
use crate::platform::BrowserDef;
use crate::text;

verus! {

/// A browser choice offered in the wizard: `Label (id) — path`.
#[derive(Debug)]
pub struct Choice {
    pub id: String,
    pub label: String,
}

impl View for Choice {
    type V = (Seq<char>, Seq<char>);

    open spec fn view(&self) -> (Seq<char>, Seq<char>) {
        (self.id@, self.label@)
    }
}

/// The choice for a detected built-in browser.
pub open spec fn detected_choice(id: Seq<char>, name: Seq<char>, path: Seq<char>) -> (Seq<char>, Seq<char>) {
    (id, name + " ("@ + id + ") — "@ + path)
}

/// The choices for configured custom browsers: every entry with a path.
pub open spec fn custom_choices(browsers: Seq<(Seq<char>, crate::config::BrowserConfigView)>) -> Seq<
    (Seq<char>, Seq<char>),
>
    decreases browsers.len(),
{
    if browsers.len() == 0 {
        seq![]
    } else {
        let (id, bc) = browsers.last();
        custom_choices(browsers.drop_last()) + match bc.path {
            Some(p) => seq![(id, id + " (custom) — "@ + p)],
            None => seq![],
        }
    }
}

/// All choices: the detected browsers in detection order, then the custom
/// ones.
pub open spec fn browser_choices_spec(
    detected: Seq<(Seq<char>, Seq<char>, Seq<char>)>,
    cfg: ConfigView,
) -> Seq<(Seq<char>, Seq<char>)> {
    detected.map_values(|d: (Seq<char>, Seq<char>, Seq<char>)| detected_choice(d.0, d.1, d.2))
        + custom_choices(cfg.browsers)
}

/// The id, name and path of each detected browser.
pub open spec fn detected_view(detected: Seq<(BrowserDef, String)>) -> Seq<
    (Seq<char>, Seq<char>, Seq<char>),
> {
    detected.map_values(|d: (BrowserDef, String)| (d.0.id@, d.0.name@, d.1@))
}

/// The browsers offered by the wizard, from the detected built-in browsers
/// (with their executable paths) and the configuration.
pub fn browser_choices(detected: &Vec<(BrowserDef, String)>, cfg: &Config) -> (r: Vec<Choice>)
    ensures
        r@.map_values(|c: Choice| c@) == browser_choices_spec(detected_view(detected@), cfg@),
{
    let ghost dv = detected_view(detected@);
    let mut out: Vec<Choice> = Vec::new();
    let mut i: usize = 0;
    while i < detected.len()
        invariant
            i <= detected.len(),
            dv == detected_view(detected@),
            out@.len() == i,
            forall|k: int|
                0 <= k < i ==> #[trigger] out@[k]@ == detected_choice(dv[k].0, dv[k].1, dv[k].2),
        decreases detected.len() - i,
    {
        let (def, path) = (&detected[i].0, &detected[i].1);
        let mut label = text::concat3(def.name, " (", def.id);
        label.append(") — ");
        label.append(path.as_str());
        out.push(Choice { id: String::from_str(def.id), label });
        i = i + 1;
    }
    assert(out@.map_values(|c: Choice| c@) =~= dv.map_values(
        |d: (Seq<char>, Seq<char>, Seq<char>)| detected_choice(d.0, d.1, d.2),
    ));
    let ghost head = out@.map_values(|c: Choice| c@);
    let ghost bv = cfg@.browsers;
    let mut j: usize = 0;
    while j < cfg.browsers.len()
        invariant
            j <= cfg.browsers.len(),
            bv == cfg@.browsers,
            out@.map_values(|c: Choice| c@) == head + custom_choices(bv.take(j as int)),
        decreases cfg.browsers.len() - j,
    {
        assert(bv.take(j + 1).drop_last() =~= bv.take(j as int));
        let id = &cfg.browsers[j].0;
        let ghost before = out@.map_values(|c: Choice| c@);
        if let Some(p) = &cfg.browsers[j].1.path {
            let label = text::concat3(id.as_str(), " (custom) — ", p.as_str());
            out.push(Choice { id: id.clone(), label });
            assert(out@.map_values(|c: Choice| c@) =~= before.push((id@, id@ + " (custom) — "@ + p@)));
        }
        assert(out@.map_values(|c: Choice| c@) =~= head + custom_choices(bv.take(j + 1)));
        j = j + 1;
    }
    assert(bv.take(cfg.browsers.len() as int) =~= bv);
    out
}

/// The ids of a list of choices.
pub open spec fn choice_ids(choices: Seq<Choice>) -> Seq<Seq<char>> {
    choices.map_values(|c: Choice| c.id@)
}

/// The first position of `p` in `ids`, if any.
pub open spec fn position_of(ids: Seq<Seq<char>>, p: Seq<char>) -> Option<int>
    decreases ids.len(),
{
    if ids.len() == 0 {
        None
    } else {
        match position_of(ids.drop_last(), p) {
            Some(k) => Some(k),
            None => if ids.last() == p {
                Some(ids.len() - 1)
            } else {
                None
            },
        }
    }
}

/// The text of an optional string slice.
pub open spec fn opt_view(s: Option<&str>) -> Option<Seq<char>> {
    match s {
        Some(x) => Some(x@),
        None => None,
    }
}

/// The preselected position: the first choice with the given id, else the
/// first choice.
pub open spec fn default_choice_spec(ids: Seq<Seq<char>>, preselect: Option<Seq<char>>) -> int {
    match preselect {
        Some(p) => match position_of(ids, p) {
            Some(k) => k,
            None => 0,
        },
        None => 0,
    }
}

/// The preselected choice: the first with the given id, else the first.
pub fn default_choice(choices: &Vec<Choice>, preselect: Option<&str>) -> (r: usize)
    ensures
        r as int == default_choice_spec(choice_ids(choices@), opt_view(preselect)),
{
    let ghost ids = choice_ids(choices@);
    match preselect {
        None => 0,
        Some(p) => {
            let mut i: usize = 0;
            while i < choices.len()
                invariant
                    i <= choices.len(),
                    ids == choice_ids(choices@),
                    preselect == Some(p),
                    position_of(ids.take(i as int), p@) is None,
                decreases choices.len() - i,
            {
                assert(ids.take(i + 1).drop_last() =~= ids.take(i as int));
                if text::str_eq(choices[i].id.as_str(), p) {
                    proof {
                        assert(ids.take(i + 1).last() == ids[i as int]);
                        assert(position_of(ids.take(i + 1), p@) == Some(i as int));
                        lemma_position_prefix(ids, p@, i + 1);

                    }
                    return i;
                }
                i = i + 1;
            }
            assert(ids.take(choices.len() as int) =~= ids);
            0
        },
    }
}

proof fn lemma_position_prefix(ids: Seq<Seq<char>>, p: Seq<char>, n: int)
    requires
        0 <= n <= ids.len(),
        position_of(ids.take(n), p) is Some,
    ensures
        position_of(ids, p) == position_of(ids.take(n), p),
    decreases ids.len() - n,
{
    if n < ids.len() {
        assert(ids.take(n + 1).drop_last() =~= ids.take(n));
        lemma_position_prefix(ids, p, n + 1);
    } else {
        assert(ids.take(n) =~= ids);
    }
}

/// What a typed site becomes: the host of the URL it parses to, the input
/// itself for a URL without a host, and the trimmed input when it is no URL.
pub open spec fn host_pattern_spec(input: Seq<char>) -> Seq<char> {
    match dispatch::normalize_url_spec(input) {
        Ok(u) => match u.2 {
            Some(h) => h,
            None => input,
        },
        Err(_) => text::trim(input),
    }
}

/// If the input looks like a URL, extracts its host; otherwise returns it
/// trimmed.
pub fn extract_host_pattern(input: &str) -> (r: String)
    ensures
        r@ == host_pattern_spec(input@),
{
    match dispatch::normalize_url(input) {
        Ok(u) => match u.host {
            Some(h) => h,
            None => String::from_str(input),
        },
        Err(_) => text::trimmed(input),
    }
}

/// The line that lists an existing rule: its name, its first matcher, its
/// browser, and whether it is private.
pub open spec fn rule_line_spec(rule: RuleView) -> Seq<char> {
    let matcher = if rule.host.len() > 0 {
        rule.host[0]
    } else {
        match rule.url_regex {
            Some(r) => r,
            None => "<empty>"@,
        }
    };
    "  - "@ + rule.name + " : "@ + matcher + " -> "@ + rule.browser + if rule.private {
        " (private)"@
    } else {
        ""@
    }
}

/// The line that lists a rule in the wizard.
pub fn rule_line(rule: &Rule) -> (r: String)
    ensures
        r@ == rule_line_spec(rule@),
{
    let matcher: &str = if rule.host.len() > 0 {
        rule.host[0].as_str()
    } else {
        match &rule.url_regex {
            Some(r) => r.as_str(),
            None => "<empty>",
        }
    };
    let mut r = text::concat3("  - ", rule.name.as_str(), " : ");
    r.append(matcher);
    r.append(" -> ");
    r.append(rule.browser.as_str());
    r.append(if rule.private {
        " (private)"
    } else {
        ""
    });
    r
}

/// The rule the wizard adds: the trimmed name, one host pattern, the chosen
/// browser, and no regex.
pub fn new_rule(name: &str, host: String, browser: String, private: bool) -> (r: Rule)
    ensures
        r@ == (RuleView {
            name: text::trim(name@),
            host: seq![host@],
            url_regex: None,
            browser: browser@,
            private,
        }),
{
    let ghost hv = host@;
    let mut hosts: Vec<String> = Vec::new();
    hosts.push(host);
    assert(hosts.deep_view() =~= seq![hv]);
    Rule { name: text::trimmed(name), host: hosts, url_regex: None, browser, private }
}

} // verus!
