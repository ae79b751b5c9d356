//! Linux: registration via an XDG desktop file and `xdg-settings`.

use vstd::prelude::*;

use crate::check::{Check, CheckView, Level, checks_view, mk_check};
use crate::platform::InstallReport;
use crate::text;
use crate::util::{first_found, probed_in_order};

verus! {

/// The desktop file that registers the program as a browser.
pub const DESKTOP_FILE_NAME: &'static str = "browser-dispatcher.desktop";

/// The executable names of a built-in browser, in lookup order.
pub open spec fn executable_names_spec(id: Seq<char>) -> Seq<Seq<char>> {
    if id == "firefox"@ {
        seq!["firefox"@, "firefox-esr"@]
    } else if id == "chrome"@ {
        seq!["google-chrome-stable"@, "google-chrome"@]
    } else if id == "chromium"@ {
        seq!["chromium"@, "chromium-browser"@]
    } else if id == "edge"@ {
        seq!["microsoft-edge"@, "microsoft-edge-stable"@]
    } else if id == "brave"@ {
        seq!["brave-browser"@, "brave"@]
    } else if id == "vivaldi"@ {
        seq!["vivaldi"@, "vivaldi-stable"@]
    } else if id == "opera"@ {
        seq!["opera"@]
    } else {
        seq![]
    }
}

/// The executable names of a built-in browser, looked up on `PATH` in
/// order.
pub fn executable_names(id: &str) -> (r: Vec<&'static str>)
    ensures
        crate::platform::strs_view(r@) == executable_names_spec(id@),
{
    proof {
        crate::platform::lemma_catalog_id_letters();
    }
    let mut r: Vec<&'static str> = Vec::new();
    if text::str_eq(id, "firefox") {
        r.push("firefox");
        r.push("firefox-esr");
    } else if text::str_eq(id, "chrome") {
        r.push("google-chrome-stable");
        r.push("google-chrome");
    } else if text::str_eq(id, "chromium") {
        r.push("chromium");
        r.push("chromium-browser");
    } else if text::str_eq(id, "edge") {
        r.push("microsoft-edge");
        r.push("microsoft-edge-stable");
    } else if text::str_eq(id, "brave") {
        r.push("brave-browser");
        r.push("brave");
    } else if text::str_eq(id, "vivaldi") {
        r.push("vivaldi");
        r.push("vivaldi-stable");
    } else if text::str_eq(id, "opera") {
        r.push("opera");
    }
    assert(crate::platform::strs_view(r@) =~= executable_names_spec(id@));
    r
}

/// Looks a built-in browser up on `PATH`: `on_path` is asked for each of
/// its executable names in order, and the first path it finds is the
/// answer.
pub fn find_browser_impl<F: Fn(&str) -> Option<String>>(id: &str, on_path: F) -> (r: Option<
    String,
>)
    requires
        forall|s: &str| #[trigger] call_requires(on_path, (s,)),
    ensures
        probed_in_order(on_path, executable_names_spec(id@), r),
{
    let names = executable_names(id);
    let r = first_found(&names, on_path);
    assert(names@.map_values(|c: &str| c@) =~= executable_names_spec(id@));
    r
}

/// The desktop entry text before the executable path.
pub const DESKTOP_HEAD: &'static str = "[Desktop Entry]\nType=Application\nVersion=1.0\nName=Browser Dispatcher\nGenericName=Default browser dispatcher\nComment=Route URLs to different browsers based on rules\nExec=\"";

/// The desktop entry text after the executable path.
pub const DESKTOP_TAIL: &'static str = "\" dispatch %U\nTerminal=false\nNoDisplay=true\nCategories=Network;WebBrowser;\nMimeType=x-scheme-handler/http;x-scheme-handler/https;\n";

/// The desktop entry that registers `exe` as an http/https handler.
pub fn desktop_entry(exe: &str) -> (r: String)
    ensures
        r@ == DESKTOP_HEAD@ + exe@ + DESKTOP_TAIL@,
{
    text::concat3(DESKTOP_HEAD, exe, DESKTOP_TAIL)
}

/// The instructions when `xdg-settings` could not set the default browser.
pub open spec fn xdg_manual_step() -> Seq<char> {
    "Could not set the default browser automatically. Run:\n\n  xdg-settings set default-web-browser browser-dispatcher.desktop"@
}

/// The report of a registration: the desktop file written, and whether
/// `xdg-settings` set the default browser.
pub fn install_report(desktop_path: &str, xdg_ok: bool) -> (r: InstallReport)
    ensures
        r.automated.deep_view() == seq!["Created "@ + desktop_path@] + if xdg_ok {
            seq!["xdg-settings: default web browser set"@]
        } else {
            seq![]
        },
        r.manual.deep_view() == if xdg_ok {
            seq![]
        } else {
            seq![xdg_manual_step()]
        },
{
    let mut r = InstallReport::empty();
    r.automated.push(text::concat("Created ", desktop_path));
    if xdg_ok {
        r.automated.push(String::from_str("xdg-settings: default web browser set"));
    } else {
        r.manual.push(
            String::from_str(
                "Could not set the default browser automatically. Run:\n\n  xdg-settings set default-web-browser browser-dispatcher.desktop",
            ),
        );
    }
    assert(r.automated.deep_view() =~= seq!["Created "@ + desktop_path@] + if xdg_ok {
        seq!["xdg-settings: default web browser set"@]
    } else {
        seq![]
    });
    assert(r.manual.deep_view() =~= if xdg_ok {
        seq![]
    } else {
        seq![xdg_manual_step()]
    });
    r
}

/// The check of the desktop file.
pub open spec fn desktop_file_check(text: Option<Seq<char>>, path: Seq<char>, stable: Seq<char>) -> CheckView {
    let title = "linux: desktop file"@;
    match text {
        Some(t) => if text::contains_seq(t, stable) {
            mk_check(title, Level::Pass, path)
        } else {
            mk_check(
                title,
                Level::Fail,
                path + " exists but points at another executable; run `browser-dispatcher install` again"@,
            )
        },
        None => mk_check(title, Level::Fail, path + " missing; run `browser-dispatcher install`"@),
    }
}

/// The check of the default web browser setting.
pub open spec fn default_browser_check(current: Option<Seq<char>>) -> CheckView {
    let title = "linux: default web browser"@;
    match current {
        Some(c) => if text::trim_end_matches(c, ".desktop"@) == text::trim_end_matches(
            DESKTOP_FILE_NAME@,
            ".desktop"@,
        ) {
            mk_check(title, Level::Pass, "xdg-settings -> "@ + c)
        } else {
            mk_check(
                title,
                Level::Warn,
                "current default is "@ + c
                    + "; run `xdg-settings set default-web-browser browser-dispatcher.desktop`"@,
            )
        },
        None => mk_check(
            title,
            Level::Warn,
            "xdg-settings not available; cannot verify the default browser setting"@,
        ),
    }
}

/// The registration health checks, from the desktop file's text (if it
/// could be read), its path, the installed copy's path, and what
/// `xdg-settings get default-web-browser` printed (if it ran).
pub fn registration_checks(
    desktop_text: &Option<String>,
    desktop_path: &str,
    stable: &str,
    xdg_current: &Option<String>,
) -> (r: Vec<Check>)
    ensures
        checks_view(r@) == seq![
            desktop_file_check(desktop_text.deep_view(), desktop_path@, stable@),
            default_browser_check(xdg_current.deep_view()),
        ],
{
    let mut r: Vec<Check> = Vec::new();
    let title = "linux: desktop file";
    let c1 = match desktop_text {
        Some(t) => if text::has_substring(t.as_str(), stable) {
            Check::pass(String::from_str(title), String::from_str(desktop_path))
        } else {
            Check::fail(
                String::from_str(title),
                text::concat(
                    desktop_path,
                    " exists but points at another executable; run `browser-dispatcher install` again",
                ),
            )
        },
        None => Check::fail(
            String::from_str(title),
            text::concat(desktop_path, " missing; run `browser-dispatcher install`"),
        ),
    };
    r.push(c1);
    let title2 = "linux: default web browser";
    let c2 = match xdg_current {
        Some(c) => {
            let a = text::without_trailing(c.as_str(), ".desktop");
            let b = text::without_trailing(DESKTOP_FILE_NAME, ".desktop");
            if a == b {
                Check::pass(String::from_str(title2), text::concat("xdg-settings -> ", c.as_str()))
            } else {
                Check::warn(
                    String::from_str(title2),
                    text::concat3(
                        "current default is ",
                        c.as_str(),
                        "; run `xdg-settings set default-web-browser browser-dispatcher.desktop`",
                    ),
                )
            }
        },
        None => Check::warn(
            String::from_str(title2),
            String::from_str("xdg-settings not available; cannot verify the default browser setting"),
        ),
    };
    r.push(c2);
    assert(checks_view(r@) =~= seq![
        desktop_file_check(desktop_text.deep_view(), desktop_path@, stable@),
        default_browser_check(xdg_current.deep_view()),
    ]);
    r
}

} // verus!
