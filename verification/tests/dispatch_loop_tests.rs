use browser_dispatcher::check::{summarize, Check, Level};
use browser_dispatcher::config::{BrowserConfig, Config, Rule};
use browser_dispatcher::dispatch::{
    after_attempt, dispatch_outcome, host_pattern_matches, launch_error, plan_url, Engine,
    UrlStep,
};
use browser_dispatcher::doctor::{doctor_report, DoctorInputs, RunningCopy, SelfTest};
use browser_dispatcher::util::slug;

fn cfg_with(rules: Vec<Rule>) -> Config {
    Config {
        version: 1,
        default_browser: "firefox".into(),
        rules,
        browsers: Vec::new(),
    }
}

fn edge_rule() -> Rule {
    Rule {
        name: "ms".into(),
        host: vec!["*.microsoft.com".into()],
        url_regex: None,
        browser: "edge".into(),
        private: true,
    }
}

#[test]
fn glob_patterns_never_panic_and_backslash_hosts_reach_the_glob() {
    let deep = format!("{}a{}", "{".repeat(300), "}".repeat(300));
    assert!(!host_pattern_matches(&deep, "b.com"));
    assert!(host_pattern_matches("*", r"a\b"));
    assert!(host_pattern_matches("a*", "ab"));
}

#[test]
fn duplicate_browser_ids_are_detected() {
    let entry = || BrowserConfig {
        path: None,
        args: vec![],
        profile: None,
        private_args: vec![],
    };
    let mut cfg = cfg_with(vec![]);
    assert!(cfg.browser_ids_are_distinct());
    cfg.browsers.push(("a".into(), entry()));
    cfg.browsers.push(("b".into(), entry()));
    assert!(cfg.browser_ids_are_distinct());
    cfg.browsers.push(("a".into(), entry()));
    assert!(!cfg.browser_ids_are_distinct());
}

#[test]
fn plan_previews_launches_and_reports_bad_input() {
    let cfg = cfg_with(vec![edge_rule()]);
    let (engine, _) = Engine::new(&cfg);
    match plan_url(&cfg, &engine, "https://www.microsoft.com/x", true) {
        UrlStep::Preview { line } => {
            assert_eq!(line, "https://www.microsoft.com/x -> edge (ms)")
        }
        other => panic!("unexpected {other:?}"),
    }
    match plan_url(&cfg, &engine, "https://www.microsoft.com/x", false) {
        UrlStep::Launch {
            url,
            decision,
            attempts,
        } => {
            assert_eq!(url.serialization, "https://www.microsoft.com/x");
            assert_eq!(decision.browser_id, "edge");
            assert_eq!(
                attempts,
                vec![("edge".to_string(), true), ("firefox".to_string(), false)]
            );
        }
        other => panic!("unexpected {other:?}"),
    }
    match plan_url(&cfg, &engine, "http://[::1", false) {
        UrlStep::Invalid { error } => assert!(error.starts_with("invalid URL")),
        other => panic!("unexpected {other:?}"),
    }
}

#[test]
fn attempts_stop_at_the_first_start() {
    assert_eq!(after_attempt(2, 0, false), Some(1));
    assert_eq!(after_attempt(2, 0, true), None);
    assert_eq!(after_attempt(2, 1, false), None);
    assert_eq!(after_attempt(1, 0, false), None);
    let attempts = vec![("edge".to_string(), true), ("firefox".to_string(), false)];
    assert_eq!(launch_error(&attempts, 0, "boom"), "boom");
    assert_eq!(
        launch_error(&attempts, 1, "gone"),
        "matched browser 'edge' and fallback 'firefox' both failed: gone"
    );
}

#[test]
fn dispatch_fails_on_no_url_or_any_failure() {
    assert_eq!(dispatch_outcome(0, false), Err("no URL given".to_string()));
    assert_eq!(
        dispatch_outcome(3, true),
        Err("dispatch finished with errors".to_string())
    );
    assert_eq!(dispatch_outcome(3, false), Ok(()));
}

#[test]
fn doctor_report_without_config() {
    let obs = DoctorInputs {
        config_path: "/c.toml".into(),
        config: Err("missing".into()),
        registration: vec![Check::pass("reg".into(), "ok".into())],
        stable: "/bin/bd".into(),
        running: Err("no exe".into()),
    };
    let r = doctor_report(
        &obs,
        |_: &str| -> Option<String> { panic!("nothing to resolve") },
        || -> SelfTest { panic!("no self-test without a config") },
    );
    let titles: Vec<&str> = r.checks.iter().map(|c| c.title.as_str()).collect();
    assert_eq!(
        titles,
        vec!["config: file", "browsers", "reg", "binary: installed copy"]
    );
    assert_eq!(r.checks[0].level, Level::Fail);
    assert_eq!(r.checks[3].detail, "current_exe failed: no exe");
    assert!(r.preview.is_empty());
}

#[test]
fn doctor_report_with_config() {
    let obs = DoctorInputs {
        config_path: "/c.toml".into(),
        config: Ok(cfg_with(vec![edge_rule()])),
        registration: vec![],
        stable: "/bin/bd".into(),
        running: Ok(RunningCopy {
            same_path: false,
            current_len: 1,
            stable_len: 2,
            current: "/tmp/bd".into(),
        }),
    };
    let r = doctor_report(
        &obs,
        |id: &str| if id == "edge" { Some("/e".to_string()) } else { None },
        || SelfTest::Succeeded("https://example.org/ -> firefox (default)".into()),
    );
    let titles: Vec<&str> = r.checks.iter().map(|c| c.title.as_str()).collect();
    assert_eq!(
        titles,
        vec![
            "config: file",
            "config: schema version",
            "config: default browser",
            "rule 'ms': browser",
            "browser: edge",
            "browser: firefox",
            "binary: installed copy",
            "binary: dispatch self-test",
        ]
    );
    assert_eq!(r.checks[4].level, Level::Pass);
    assert_eq!(r.checks[4].detail, "/e");
    assert_eq!(r.checks[5].level, Level::Fail);
    assert_eq!(r.checks[6].level, Level::Warn);
    assert_eq!(r.checks[7].level, Level::Pass);
    assert_eq!(
        r.preview,
        vec![
            "  https://microsoft.com/ -> edge (ms)",
            "  https://example.org/ -> firefox (default)"
        ]
    );
}

#[test]
fn counts_add_up_over_joined_reports() {
    let a = vec![
        Check::pass("a".into(), "".into()),
        Check::fail("b".into(), "".into()),
    ];
    let b = vec![Check::warn("c".into(), "".into()), Check::pass("d".into(), "".into())];
    let joined: Vec<Check> = a.iter().chain(b.iter()).map(|c| c.duplicate()).collect();
    let (pa, wa, fa) = summarize(&a);
    let (pb, wb, fb) = summarize(&b);
    assert_eq!(summarize(&joined), (pa + pb, wa + wb, fa + fb));
}

#[test]
fn host_matching_ignores_uppercasing() {
    assert!(host_pattern_matches("*.EXAMPLE.COM", "A.EXAMPLE.COM"));
    assert!(host_pattern_matches("LOGIN.*.COM", "LOGIN.FOO.COM"));
    assert!(!host_pattern_matches("*.EXAMPLE.COM", "EXAMPLE.ORG"));
}

#[test]
fn slug_keeps_letters_and_digits() {
    assert_eq!(slug("!!!"), "rule");
    assert_eq!(slug("Ab-9 x").replace('-', ""), "ab9x");
}
