use browser_dispatcher::config::{BrowserConfig, Config, Rule};
use browser_dispatcher::dispatch::{
    dry_run_line, host_pattern_matches, log_line_failed, log_line_invalid, log_line_ok, launch_attempts, launch_plan, normalize_url, resolve_browser, Decision,
    Engine,
};

fn rule(name: &str, hosts: &[&str], browser: &str) -> Rule {
    Rule {
        name: name.into(),
        host: hosts.iter().map(|s| s.to_string()).collect(),
        url_regex: None,
        browser: browser.into(),
        private: false,
    }
}

fn config(rules: Vec<Rule>) -> Config {
    Config {
        version: 1,
        default_browser: "firefox".into(),
        rules,
        browsers: Vec::new(),
    }
}

#[test]
fn host_matching_semantics() {
    assert!(host_pattern_matches("Example.COM", "example.com"));
    assert!(host_pattern_matches("*.example.com", "example.com"));
    assert!(host_pattern_matches("*.example.com", "a.example.com"));
    assert!(host_pattern_matches("*.example.com", "a.b.example.com"));
    assert!(!host_pattern_matches("*.example.com", "badexample.com"));
    assert!(!host_pattern_matches("*.example.com", "example.org"));
    assert!(host_pattern_matches("login.*.com", "login.foo.com"));
    assert!(!host_pattern_matches("", "example.com"));
}

#[test]
fn normalize_urls() {
    assert_eq!(
        normalize_url("example.com").unwrap().serialization,
        "https://example.com/"
    );
    assert_eq!(
        normalize_url("https://a.b").unwrap().host.as_deref(),
        Some("a.b")
    );
    assert_eq!(normalize_url("mailto:x@y.z").unwrap().scheme, "mailto");
}

#[test]
fn engine_first_match_wins_with_regex_and_private() {
    let cfg = config(vec![
        Rule {
            name: "local".into(),
            host: vec![],
            url_regex: Some(r"^https://localhost".into()),
            browser: "chrome".into(),
            private: true,
        },
        rule("ms", &["*.microsoft.com"], "edge"),
    ]);
    let (engine, warnings) = Engine::new(&cfg);
    assert!(warnings.is_empty());

    let d = engine.decide(&normalize_url("https://localhost:8080/x").unwrap());
    assert_eq!(d.browser_id, "chrome");
    assert!(d.private);

    let d = engine.decide(&normalize_url("https://login.microsoft.com/").unwrap());
    assert_eq!(d.browser_id, "edge");
    assert_eq!(d.rule_name.as_deref(), Some("ms"));

    let d = engine.decide(&normalize_url("https://example.org/").unwrap());
    assert_eq!(d.browser_id, "firefox");
    assert!(d.rule_name.is_none());
}

#[test]
fn engine_reports_bad_regex() {
    let cfg = config(vec![Rule {
        name: "bad".into(),
        host: vec![],
        url_regex: Some("([".into()),
        browser: "chrome".into(),
        private: false,
    }]);
    let (engine, warnings) = Engine::new(&cfg);
    // Two warnings: invalid regex + rule can never match (no host either).
    assert_eq!(warnings.len(), 2);
    let d = engine.decide(&normalize_url("https://example.com/").unwrap());
    assert_eq!(d.browser_id, "firefox");
}

#[test]
fn bad_regex_warning_texts() {
    let cfg = config(vec![Rule {
        name: "bad".into(),
        host: vec![],
        url_regex: Some("([".into()),
        browser: "chrome".into(),
        private: false,
    }]);
    let (_, warnings) = Engine::new(&cfg);
    assert!(warnings[0].starts_with("rule 'bad': ignoring invalid url_regex: "));
    assert!(warnings[0].len() > "rule 'bad': ignoring invalid url_regex: ".len());
    assert_eq!(
        warnings[1],
        "rule 'bad': neither host nor url_regex set; the rule never matches"
    );
}

#[test]
fn host_matching_trims_and_ignores_case() {
    assert!(host_pattern_matches("  *.Example.Com ", "WWW.EXAMPLE.COM"));
    assert!(host_pattern_matches("example.com", " example.com\t"));
    assert!(!host_pattern_matches("example.com", ""));
    assert!(!host_pattern_matches("   ", "example.com"));
    // A glob that does not compile matches nothing.
    assert!(!host_pattern_matches("a[", "ab"));
    assert!(host_pattern_matches("a[", "A["));
}

#[test]
fn regex_is_case_sensitive_and_sees_the_full_url() {
    let cfg = config(vec![Rule {
        name: "path".into(),
        host: vec![],
        url_regex: Some("/Docs/".into()),
        browser: "chrome".into(),
        private: false,
    }]);
    let (engine, _) = Engine::new(&cfg);
    let d = engine.decide(&normalize_url("https://example.com/Docs/x").unwrap());
    assert_eq!(d.browser_id, "chrome");
    assert_eq!(d.rule_name.as_deref(), Some("path"));
    let d = engine.decide(&normalize_url("https://example.com/docs/x").unwrap());
    assert_eq!(d.browser_id, "firefox");
}

#[test]
fn engine_matches_host_case_insensitively() {
    let cfg = config(vec![rule("up", &["  LOGIN.Example.com "], "edge")]);
    let (engine, _) = Engine::new(&cfg);
    let d = engine.decide(&normalize_url("https://login.example.com/a").unwrap());
    assert_eq!(d.browser_id, "edge");
    assert!(!d.private);
}

#[test]
fn earlier_rule_wins_over_later_match() {
    let cfg = config(vec![
        rule("first", &["*.example.com"], "chrome"),
        rule("second", &["www.example.com"], "edge"),
    ]);
    let (engine, _) = Engine::new(&cfg);
    let d = engine.decide(&normalize_url("https://www.example.com/").unwrap());
    assert_eq!(d.rule_name.as_deref(), Some("first"));
}

#[test]
fn normalize_reports_invalid_input() {
    let e = normalize_url("http://[::1").unwrap_err();
    assert!(e.starts_with("invalid URL \"http://[::1\": "));
    let e = normalize_url("exa mple.com").unwrap_err();
    assert!(e.starts_with("invalid URL \"exa mple.com\": "));
}

#[test]
fn normalize_trims_input() {
    let u = normalize_url("  example.com/path  ").unwrap();
    assert_eq!(u.serialization, "https://example.com/path");
    assert_eq!(u.host.as_deref(), Some("example.com"));
    assert_eq!(u.scheme, "https");
}

#[test]
fn resolve_prefers_configured_path() {
    let mut cfg = config(vec![]);
    cfg.browsers.push((
        "firefox".into(),
        BrowserConfig {
            path: Some("/opt/ff/firefox".into()),
            args: vec!["--new-tab".into()],
            profile: Some("work".into()),
            private_args: vec![],
        },
    ));
    let b = resolve_browser(&cfg, "firefox", |_: &str| -> Option<String> {
        panic!("a configured path needs no lookup")
    })
    .unwrap();
    assert_eq!(b.path, "/opt/ff/firefox");
    assert_eq!(b.extra_args, vec!["--new-tab".to_string()]);
    assert_eq!(b.private_args, vec!["-private-window".to_string()]);
    assert_eq!(b.profile.as_deref(), Some("work"));
}

#[test]
fn resolve_uses_detection_for_builtin_ids_only() {
    let cfg = config(vec![]);
    let b = resolve_browser(&cfg, "chrome", |_: &str| Some("/usr/bin/google-chrome".to_string())).unwrap();
    assert_eq!(b.path, "/usr/bin/google-chrome");
    assert_eq!(b.private_args, vec!["--incognito".to_string()]);
    assert!(b.profile.is_none());
    let e = resolve_browser(&cfg, "librewolf", |_: &str| -> Option<String> {
        panic!("only built-in browsers are looked up")
    })
    .unwrap_err();
    assert_eq!(
        e,
        "browser 'librewolf' was not found on this system; add [browsers.librewolf] with an explicit `path` to the config file"
    );
}

#[test]
fn resolve_profile_only_for_firefox() {
    let mut cfg = config(vec![]);
    cfg.browsers.push((
        "chrome".into(),
        BrowserConfig {
            path: None,
            args: vec![],
            profile: Some("p".into()),
            private_args: vec!["--x".into()],
        },
    ));
    let b = resolve_browser(&cfg, "chrome", |_: &str| Some("/c".to_string())).unwrap();
    assert!(b.profile.is_none());
    // Detected browsers take the catalog's flags.
    assert_eq!(b.private_args, vec!["--incognito".to_string()]);
}

#[test]
fn launch_plan_orders_arguments() {
    let mut cfg = config(vec![]);
    cfg.browsers.push((
        "firefox".into(),
        BrowserConfig {
            path: Some("/ff".into()),
            args: vec!["--a".into()],
            profile: Some("work".into()),
            private_args: vec![],
        },
    ));
    let b = resolve_browser(&cfg, "firefox", |_: &str| -> Option<String> {
        panic!("a configured path needs no lookup")
    })
    .unwrap();
    let p = launch_plan(&b, "https://x/", true);
    assert_eq!(p.program, "/ff");
    assert_eq!(
        p.args,
        vec!["-P", "work", "-private-window", "--a", "https://x/"]
    );
    assert!(!p.missing_private_flag);
    let p = launch_plan(&b, "https://x/", false);
    assert_eq!(p.args, vec!["-P", "work", "--a", "https://x/"]);
}

#[test]
fn launch_plan_flags_missing_private_window() {
    let mut cfg = config(vec![]);
    cfg.browsers.push((
        "safari".into(),
        BrowserConfig {
            path: Some("/s".into()),
            args: vec![],
            profile: None,
            private_args: vec![],
        },
    ));
    let b = resolve_browser(&cfg, "safari", |_: &str| -> Option<String> {
        panic!("a configured path needs no lookup")
    })
    .unwrap();
    let p = launch_plan(&b, "u", true);
    assert!(p.missing_private_flag);
    assert_eq!(p.args, vec!["u"]);
}

#[test]
fn fallback_attempts() {
    let cfg = config(vec![]);
    let d = Decision {
        browser_id: "chrome".into(),
        private: true,
        rule_name: Some("r".into()),
    };
    let a = launch_attempts(&cfg, &d);
    assert_eq!(
        a,
        vec![("chrome".to_string(), true), ("firefox".to_string(), false)]
    );
    let d = Decision {
        browser_id: "firefox".into(),
        private: true,
        rule_name: None,
    };
    assert_eq!(launch_attempts(&cfg, &d), vec![("firefox".to_string(), true)]);
}

#[test]
fn dispatch_lines() {
    let u = normalize_url("example.com").unwrap();
    let d = Decision {
        browser_id: "edge".into(),
        private: false,
        rule_name: None,
    };
    assert_eq!(dry_run_line(&u, &d), "https://example.com/ -> edge (default)");
    assert_eq!(
        log_line_ok("T", &u, "firefox", &d),
        "T url=https://example.com/ -> firefox via=default ok"
    );
    assert_eq!(
        log_line_failed("T", &u, &d, "a\nb"),
        "T url=https://example.com/ -> edge via=default error=a b"
    );
    assert_eq!(log_line_invalid("T", "x\r\ny", "bad"), "T url=x  y error=bad");
}
