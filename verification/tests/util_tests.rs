use browser_dispatcher::check::{summarize, Check, Level};
use browser_dispatcher::doctor::{referenced_browsers, sample_urls, summary_line};
use browser_dispatcher::config::{Config, Rule};
use browser_dispatcher::util::{
    find_in_path, first_accepted, join_path, needs_rotation, rotated_log, single_line, slug,
};
use browser_dispatcher::wizard::{extract_host_pattern, new_rule, rule_line};
use browser_dispatcher::text::decimal_of;

#[test]
fn slugs() {
    assert_eq!(slug("*.Company.com"), "company-com");
    assert_eq!(slug("--Hello,  World!--"), "hello-world");
    assert_eq!(slug("***"), "rule");
    assert_eq!(slug(""), "rule");
    assert_eq!(slug(&slug("A b")), slug("A b"));
}

#[test]
fn single_lines() {
    assert_eq!(single_line("a\r\nb\nc"), "a  b c");
}

#[test]
fn log_rotation() {
    assert!(!needs_rotation(262144));
    assert!(needs_rotation(262145));
    let content: String = (0..600).map(|i| format!("line {i}\r\n")).collect();
    let kept = rotated_log(&content);
    assert!(kept.starts_with("line 100\n"));
    assert!(kept.ends_with("line 599\n"));
    assert_eq!(kept.lines().count(), 500);
    assert_eq!(rotated_log("a\nb"), "a\nb\n");
    assert_eq!(rotated_log("a\r"), "a\r\n");
}

#[test]
fn check_render_and_summary() {
    let c = Check::warn("t".into(), "d".into());
    assert_eq!(c.render(false), vec!["[WARN] t".to_string(), "         d".to_string()]);
    assert_eq!(Check::pass("t".into(), String::new()).render(true), vec!["\x1b[32m\u{2714}\x1b[0m t".to_string()]);
    let all = vec![
        Check::pass("a".into(), String::new()),
        Check::fail("b".into(), String::new()),
        Check::fail("c".into(), String::new()),
    ];
    assert_eq!(summarize(&all), (1, 0, 2));
    assert_eq!(Level::Fail.label(), "FAIL");
    assert_eq!(summary_line(1, 0, 12), "Summary: 1 passed, 0 warnings, 12 failures");
    assert_eq!(decimal_of(1234567890), "1234567890");
}

fn cfg_with(rules: Vec<Rule>, default: &str) -> Config {
    Config { version: 1, default_browser: default.into(), rules, browsers: Vec::new() }
}

#[test]
fn doctor_helpers() {
    let rules = vec![
        new_rule(" a ", "*.*.b.com".into(), " edge".into(), false),
        new_rule("b", "x*y.com".into(), "chrome".into(), true),
        Rule { name: "c".into(), host: vec![], url_regex: Some("x".into()), browser: "edge".into(), private: false },
    ];
    assert_eq!(rules[0].name, "a");
    let cfg = cfg_with(rules, " firefox ");
    assert_eq!(referenced_browsers(&cfg), vec!["chrome", "edge", "firefox"]);
    let urls: Vec<String> = sample_urls(&cfg).into_iter().map(|u| u.serialization).collect();
    assert_eq!(
        urls,
        vec!["https://b.com/", "https://xexampley.com/", "https://example.com/", "https://example.org/"]
    );
    assert_eq!(rule_line(&cfg.rules[1]), "  - b : x*y.com -> chrome (private)");
    assert_eq!(rule_line(&cfg.rules[2]), "  - c : x -> edge");
}

#[test]
fn wizard_host_extraction() {
    assert_eq!(extract_host_pattern("https://Login.Example.com/x"), "login.example.com");
    assert_eq!(extract_host_pattern("example.com"), "example.com");
    assert_eq!(extract_host_pattern(" *.corp.com "), "*.corp.com");
    assert_eq!(extract_host_pattern("mailto:x@y.z"), "mailto:x@y.z");
}

#[test]
fn path_lookup_skips_empty_entries_and_keeps_order() {
    let dirs = vec![
        String::new(),
        "/usr/local/bin/".to_string(),
        "/usr/bin".to_string(),
        "/bin".to_string(),
    ];
    let asked = std::cell::RefCell::new(Vec::new());
    let found = find_in_path("opera", Some(&dirs), |p: &str| {
        asked.borrow_mut().push(p.to_string());
        p.starts_with("/usr/bin")
    });
    assert_eq!(found.as_deref(), Some("/usr/bin/opera"));
    assert_eq!(*asked.borrow(), vec!["/usr/local/bin/opera", "/usr/bin/opera"]);
    assert_eq!(find_in_path("opera", None, |_: &str| true), None);
    assert_eq!(
        find_in_path("./tools/opera", Some(&dirs), |_: &str| true).as_deref(),
        Some("./tools/opera")
    );
    assert_eq!(find_in_path(r"C:\x", Some(&dirs), |_: &str| false), None);
}

#[test]
fn path_joining_and_first_accepted() {
    assert_eq!(join_path("", "a"), "a");
    assert_eq!(join_path("/x/", "a"), "/x/a");
    assert_eq!(join_path("/x", "a/b"), "/x/a/b");
    let paths = vec!["a".to_string(), "bb".to_string(), "cc".to_string()];
    assert_eq!(first_accepted(&paths, |p: &str| p.len() == 2).as_deref(), Some("bb"));
    assert_eq!(first_accepted(&paths, |_: &str| false), None);
}
