use browser_dispatcher::check::Level;
use browser_dispatcher::config::{
    default_config_toml, require_browser, BrowserConfig, Config, Rule,
};

fn config(rules: Vec<Rule>) -> Config {
    Config {
        version: 1,
        default_browser: "firefox".into(),
        rules,
        browsers: Vec::new(),
    }
}

#[test]
fn default_template_parses() {
    for id in ["firefox", "chrome"] {
        let cfg: toml::Table = toml::from_str(&default_config_toml(id)).unwrap();
        assert_eq!(cfg["default_browser"].as_str(), Some(id));
        assert_eq!(cfg["version"].as_integer(), Some(1));
        assert!(cfg.get("rule").is_none());
    }
}

#[test]
fn roundtrip_serialization() {
    let cfg: toml::Table = toml::from_str(&default_config_toml("firefox")).unwrap();
    let text = toml::to_string_pretty(&cfg).unwrap();
    let cfg2: toml::Table = toml::from_str(&text).unwrap();
    assert_eq!(cfg2["default_browser"], cfg["default_browser"]);
    assert_eq!(cfg2.get("rule").is_none(), cfg.get("rule").is_none());
}

#[test]
fn default_template_mentions_browser_once() {
    let t = default_config_toml("brave");
    assert!(t.contains("default_browser = \"brave\"\n"));
    assert!(t.starts_with("# Browser Dispatcher configuration\n"));
    assert!(t.ends_with("# private = true\n"));
    assert!(t.contains("url_regex = '^https://([a-z0-9-]+\\.)?localhost(:\\d+)?/'"));
}

#[test]
fn require_browser_accepts_builtin_and_configured() {
    let mut cfg = config(vec![]);
    assert!(require_browser(&cfg, "edge").is_ok());
    let e = require_browser(&cfg, "librewolf").unwrap_err();
    assert_eq!(
        e,
        "unknown browser id 'librewolf'; known ids: firefox, chrome, chromium, edge, brave, vivaldi, opera, safari"
    );
    cfg.browsers.push((
        "librewolf".into(),
        BrowserConfig {
            path: Some("/usr/bin/librewolf".into()),
            ..Default::default()
        },
    ));
    assert!(require_browser(&cfg, "librewolf").is_ok());
}

#[test]
fn validate_reports_in_order() {
    let mut cfg = config(vec![
        Rule {
            name: "empty".into(),
            host: vec![],
            url_regex: None,
            browser: "nope".into(),
            private: false,
        },
        Rule {
            name: "slash".into(),
            host: vec!["a/b".into()],
            url_regex: Some("(".into()),
            browser: " chrome ".into(),
            private: false,
        },
    ]);
    cfg.version = 2;
    cfg.browsers.push(("custom".into(), BrowserConfig::default()));
    let checks = cfg.validate();
    let got: Vec<(String, Level, String)> = checks
        .iter()
        .map(|c| (c.title.clone(), c.level, c.detail.clone()))
        .collect();
    assert_eq!(got[0].0, "config: schema version");
    assert_eq!(got[0].1, Level::Fail);
    assert_eq!(got[0].2, "expected version 1, found 2");
    assert_eq!(got[1].1, Level::Pass);
    assert_eq!(got[1].2, "browser id 'firefox' is known");
    assert_eq!(got[2].0, "rule 'empty': matcher");
    assert_eq!(got[2].1, Level::Fail);
    assert_eq!(got[3].0, "rule 'empty': browser");
    assert_eq!(got[3].1, Level::Fail);
    assert!(got[3].2.starts_with("unknown browser id 'nope'; known: firefox, chrome"));
    assert_eq!(got[4].0, "rule 'slash': url_regex");
    assert_eq!(got[4].1, Level::Fail);
    assert_eq!(got[5].0, "rule 'slash': host pattern \"a/b\"");
    assert_eq!(got[5].1, Level::Warn);
    assert_eq!(got[6].0, "rule 'slash': browser");
    assert_eq!(got[6].1, Level::Pass);
    assert_eq!(got[6].2, "browser id 'chrome' is known");
    assert_eq!(got[7].0, "config: browsers.custom");
    assert_eq!(got[7].1, Level::Fail);
    assert_eq!(got.len(), 8);
}

#[test]
fn validate_warns_without_rules() {
    let cfg = config(vec![]);
    let checks = cfg.validate();
    assert_eq!(checks.len(), 3);
    assert_eq!(checks[0].detail, "version 1");
    assert_eq!(checks[2].title, "config: rules");
    assert_eq!(checks[2].level, Level::Warn);
}

#[test]
fn validate_empty_default_browser() {
    let mut cfg = config(vec![]);
    cfg.default_browser = "  ".into();
    let checks = cfg.validate();
    assert_eq!(checks[1].level, Level::Fail);
    assert_eq!(checks[1].detail, "browser id is empty");
}

#[test]
fn fallback_default_prefers_detected() {
    let c = Config::fallback_default(Some("chrome"));
    assert_eq!(c.default_browser, "chrome");
    assert_eq!(c.version, 1);
    let c = Config::fallback_default(None);
    assert_eq!(c.default_browser, "firefox");
    assert!(c.rules.is_empty() && c.browsers.is_empty());
}
