//! macOS: default browser registration via an AppleScript applet bundle.
//!
//! LaunchServices delivers URL opens as `GURL` Apple Events rather than
//! ordinary command-line arguments, so installation creates a small
//! `~/Applications/BrowserDispatcher.app` whose `on open location` handler
//! invokes the installed command-line program. The applet is an
//! `LSUIElement` (no Dock icon) and declares the http/https URL schemes in
//! its `Info.plist`.

use vstd::prelude::*;

use crate::check::{Check, CheckView, Level, checks_view, mk_check};
use crate::platform::{DISPLAY_NAME, InstallReport};
use crate::text;
use crate::util::{accepted_first, first_accepted, join_path, join_path_spec};

verus! {

/// The bundle identifier of the URL-handler applet.
pub const BUNDLE_ID: &'static str = "com.browser-dispatcher.app";

/// The URL-handler applet bundle, under `~/Applications`.
pub const BUNDLE_NAME: &'static str = "BrowserDispatcher.app";

/// The application bundle and executable name of a built-in browser.
pub open spec fn app_candidates_spec(id: Seq<char>) -> Option<(Seq<char>, Seq<char>)> {
    if id == "firefox"@ {
        Some(("Firefox.app"@, "firefox"@))
    } else if id == "chrome"@ {
        Some(("Google Chrome.app"@, "Google Chrome"@))
    } else if id == "chromium"@ {
        Some(("Chromium.app"@, "Chromium"@))
    } else if id == "edge"@ {
        Some(("Microsoft Edge.app"@, "Microsoft Edge"@))
    } else if id == "brave"@ {
        Some(("Brave Browser.app"@, "Brave Browser"@))
    } else if id == "vivaldi"@ {
        Some(("Vivaldi.app"@, "Vivaldi"@))
    } else if id == "opera"@ {
        Some(("Opera.app"@, "Opera"@))
    } else if id == "safari"@ {
        Some(("Safari.app"@, "Safari"@))
    } else {
        None
    }
}

/// Where a built-in browser's application bundle and executable are named.
pub fn app_candidates(id: &str) -> (r: Option<(&'static str, &'static str)>)
    ensures
        match r {
            Some((a, e)) => Some((a@, e@)),
            None => None,
        } == app_candidates_spec(id@),
{
    proof {
        crate::platform::lemma_catalog_id_letters();
    }
    if text::str_eq(id, "firefox") {
        Some(("Firefox.app", "firefox"))
    } else if text::str_eq(id, "chrome") {
        Some(("Google Chrome.app", "Google Chrome"))
    } else if text::str_eq(id, "chromium") {
        Some(("Chromium.app", "Chromium"))
    } else if text::str_eq(id, "edge") {
        Some(("Microsoft Edge.app", "Microsoft Edge"))
    } else if text::str_eq(id, "brave") {
        Some(("Brave Browser.app", "Brave Browser"))
    } else if text::str_eq(id, "vivaldi") {
        Some(("Vivaldi.app", "Vivaldi"))
    } else if text::str_eq(id, "opera") {
        Some(("Opera.app", "Opera"))
    } else if text::str_eq(id, "safari") {
        Some(("Safari.app", "Safari"))
    } else {
        None
    }
}

/// Where a bundle's executable lies under an applications folder.
pub open spec fn bundle_executable(base: Seq<char>, app: Seq<char>, exec: Seq<char>) -> Seq<char> {
    join_path_spec(join_path_spec(join_path_spec(base, app), "Contents/MacOS"@), exec)
}

/// The folders searched for applications, in order.
pub open spec fn application_folders(home: Seq<char>) -> Seq<Seq<char>> {
    seq!["/Applications"@, join_path_spec(home, "Applications"@), "/System/Applications"@]
}

/// The outcome of looking a browser up on macOS: nothing for an unknown id
/// or an unknown home folder, else the first of its bundle executables, in
/// the application folders in order, that `is_file` accepts.
pub open spec fn macos_lookup<F: Fn(&str) -> bool>(
    is_file: F,
    id: Seq<char>,
    home: Option<Seq<char>>,
    r: Option<String>,
) -> bool {
    match (app_candidates_spec(id), home) {
        (Some((app, exec)), Some(h)) => accepted_first(
            is_file,
            application_folders(h).map_values(|b: Seq<char>| bundle_executable(b, app, exec)),
            r,
        ),
        _ => r is None,
    }
}

/// The path of a bundle's executable under an applications folder.
fn bundle_executable_path(base: &str, app: &str, exec: &str) -> (r: String)
    ensures
        r@ == bundle_executable(base@, app@, exec@),
{
    let b = join_path(base, app);
    let c = join_path(b.as_str(), "Contents/MacOS");
    join_path(c.as_str(), exec)
}

/// Looks a built-in browser up on macOS: its bundle in `/Applications`,
/// `~/Applications` and `/System/Applications`, in that order.
pub fn find_browser_impl<F: Fn(&str) -> bool>(id: &str, home: Option<&str>, is_file: F) -> (r:
    Option<String>)
    requires
        forall|s: &str| #[trigger] call_requires(is_file, (s,)),
    ensures
        macos_lookup(
            is_file,
            id@,
            match home {
                Some(h) => Some(h@),
                None => None,
            },
            r,
        ),
{
    let (app, exec) = match app_candidates(id) {
        Some(c) => c,
        None => return None,
    };
    let home = match home {
        Some(h) => h,
        None => return None,
    };
    let user_apps = join_path(home, "Applications");
    let mut paths: Vec<String> = Vec::new();
    paths.push(bundle_executable_path("/Applications", app, exec));
    paths.push(bundle_executable_path(user_apps.as_str(), app, exec));
    paths.push(bundle_executable_path("/System/Applications", app, exec));
    let ghost folders = application_folders(home@);
    assert(paths.deep_view() =~= folders.map_values(
        |b: Seq<char>| bundle_executable(b, app@, exec@),
    ));
    first_accepted(&paths, is_file)
}

// ---------------------------------------------------------------------------
// AppleScript
// ---------------------------------------------------------------------------

/// How one character is written inside an AppleScript string literal.
pub open spec fn applescript_char(c: char) -> Seq<char> {
    if c == '\\' {
        seq!['\\', '\\']
    } else if c == '"' {
        seq!['\\', '"']
    } else {
        seq![c]
    }
}

/// The escaped body of an AppleScript string literal.
pub open spec fn applescript_body(s: Seq<char>) -> Seq<char>
    decreases s.len(),
{
    if s.len() == 0 {
        seq![]
    } else {
        applescript_body(s.drop_last()) + applescript_char(s.last())
    }
}

/// An AppleScript string literal holding `s`.
pub open spec fn applescript_string_spec(s: Seq<char>) -> Seq<char> {
    seq!['"'] + applescript_body(s) + seq!['"']
}

/// Quotes a string as an AppleScript string literal, escaping backslashes
/// and double quotes.
pub fn applescript_string(s: &str) -> (r: String)
    ensures
        r@ == applescript_string_spec(s@),
{
    let v = text::chars_of(s);
    let mut r = String::new();
    text::push_char(&mut r, '"');
    let ghost start = r@;
    let mut i: usize = 0;
    while i < v.len()
        invariant
            v@ == s@,
            i <= v.len(),
            start == seq!['"'],
            r@ == start + applescript_body(s@.take(i as int)),
        decreases v.len() - i,
    {
        assert(s@.take(i + 1).drop_last() =~= s@.take(i as int));
        let c = v[i];
        if c == '\\' {
            text::push_char(&mut r, '\\');
            text::push_char(&mut r, '\\');
        } else if c == '"' {
            text::push_char(&mut r, '\\');
            text::push_char(&mut r, '"');
        } else {
            text::push_char(&mut r, c);
        }
        assert(r@ =~= start + applescript_body(s@.take(i + 1)));
        i = i + 1;
    }
    assert(s@.take(v.len() as int) =~= s@);
    text::push_char(&mut r, '"');
    assert(r@ =~= applescript_string_spec(s@));
    r
}

/// The applet script: on `open location`, run the installed program with
/// the URL, both shell-quoted.
pub open spec fn applet_script_spec(exe: Seq<char>) -> Seq<char> {
    "on open location theURL\n\tset cliPath to "@ + applescript_string_spec(exe)
        + "\n\tdo shell script quoted form of cliPath & \" \" & quoted form of theURL\nend open location\n"@
}

/// The applet script for the installed program at `exe`.
pub fn applet_script(exe: &str) -> (r: String)
    ensures
        r@ == applet_script_spec(exe@),
{
    let q = applescript_string(exe);
    text::concat3(
        "on open location theURL\n\tset cliPath to ",
        q.as_str(),
        "\n\tdo shell script quoted form of cliPath & \" \" & quoted form of theURL\nend open location\n",
    )
}

// ---------------------------------------------------------------------------
// Info.plist
// ---------------------------------------------------------------------------

/// `Info.plist` text up to the bundle name.
pub const PLIST_0: &'static str = "<?xml version=\"1.0\" encoding=\"UTF-8\"?>\n<!DOCTYPE plist PUBLIC \"-//Apple//DTD PLIST 1.0//EN\" \"http://www.apple.com/DTDs/PropertyList-1.0.dtd\">\n<plist version=\"1.0\">\n<dict>\n    <key>CFBundleDevelopmentRegion</key>\n    <string>English</string>\n    <key>CFBundleName</key>\n    <string>";

/// `Info.plist` text between the bundle name and the display name.
pub const PLIST_1: &'static str = "</string>\n    <key>CFBundleDisplayName</key>\n    <string>";

/// `Info.plist` text between the display name and the bundle identifier.
pub const PLIST_2: &'static str = "</string>\n    <key>CFBundleIdentifier</key>\n    <string>";

/// `Info.plist` text between the bundle identifier and the executable name.
pub const PLIST_3: &'static str = "</string>\n    <key>CFBundleExecutable</key>\n    <string>applet</string>\n    <key>CFBundleInfoDictionaryVersion</key>\n    <string>6.0</string>\n    <key>CFBundlePackageType</key>\n    <string>APPL</string>\n    <key>CFBundleSignature</key>\n    <string>aplt</string>\n    <key>CFBundleVersion</key>\n    <string>";

/// `Info.plist` text between the executable name and the version.
pub const PLIST_4: &'static str = "</string>\n    <key>CFBundleShortVersionString</key>\n    <string>";

/// `Info.plist` text between the version and the URL-type name.
pub const PLIST_5: &'static str = "</string>\n    <key>LSMinimumSystemVersion</key>\n    <string>11.0</string>\n    <key>LSUIElement</key>\n    <true/>\n    <key>NSAppleScriptEnabled</key>\n    <true/>\n    <key>OSAAppletShowStartupScreen</key>\n    <false/>\n    <key>CFBundleURLTypes</key>\n    <array>\n        <dict>\n            <key>CFBundleURLName</key>\n            <string>";

/// `Info.plist` text after the URL-type name.
pub const PLIST_6: &'static str = " http/https handler</string>\n            <key>CFBundleURLSchemes</key>\n            <array>\n                <string>http</string>\n                <string>https</string>\n            </array>\n            <key>CFBundleURLRole</key>\n            <string>Viewer</string>\n        </dict>\n    </array>\n</dict>\n</plist>\n";

/// The applet's `Info.plist` for a program version.
pub open spec fn info_plist_spec(version: Seq<char>) -> Seq<char> {
    PLIST_0@ + DISPLAY_NAME@ + PLIST_1@ + DISPLAY_NAME@ + PLIST_2@ + BUNDLE_ID@ + PLIST_3@ + version
        + PLIST_4@ + version + PLIST_5@ + BUNDLE_ID@ + PLIST_6@
}

/// Renders the applet's `Info.plist`.
pub fn info_plist(version: &str) -> (r: String)
    ensures
        r@ == info_plist_spec(version@),
{
    let mut r = String::from_str(PLIST_0);
    r.append(DISPLAY_NAME);
    r.append(PLIST_1);
    r.append(DISPLAY_NAME);
    r.append(PLIST_2);
    r.append(BUNDLE_ID);
    r.append(PLIST_3);
    r.append(version);
    r.append(PLIST_4);
    r.append(version);
    r.append(PLIST_5);
    r.append(BUNDLE_ID);
    r.append(PLIST_6);
    r
}

// ---------------------------------------------------------------------------
// Installation report
// ---------------------------------------------------------------------------

/// Decimal notation of a signed number.
pub open spec fn signed_decimal(n: int) -> Seq<char> {
    if n < 0 {
        seq!['-'] + text::decimal((-n) as nat)
    } else {
        text::decimal(n as nat)
    }
}

fn signed_decimal_of(n: i32) -> (r: String)
    ensures
        r@ == signed_decimal(n as int),
{
    if n < 0 {
        let m: i64 = -(n as i64);
        let digits = text::decimal_of(m as u64);
        let mut r = String::new();
        text::push_char(&mut r, '-');
        r.append(digits.as_str());
        assert(r@ =~= signed_decimal(n as int));
        r
    } else {
        text::decimal_of(n as u64)
    }
}

/// The outcome of making the applet the default handler for one scheme.
pub open spec fn scheme_outcome(scheme: Seq<char>, status: i32) -> (Seq<Seq<char>>, Seq<Seq<char>>) {
    if status == 0 {
        (seq!["Set default handler for "@ + scheme + " -> "@ + BUNDLE_ID@], seq![])
    } else {
        (
            seq![],
            seq![
                "LSSetDefaultHandlerForURLScheme("@ + scheme + ") failed with status "@
                    + signed_decimal(status as int),
            ],
        )
    }
}

/// The manual step when the default handler could not be set.
pub open spec fn pick_default_manually() -> Seq<char> {
    "Open System Settings > Desktop & Dock > Default web browser and pick \"Browser Dispatcher\"."@
}

/// The report of an installation, from the bundle path, whether ad-hoc
/// signing worked, and the LaunchServices status for http and https.
pub open spec fn install_report_spec(bundle: Seq<char>, sign_ok: bool, http: i32, https: i32) -> (
    Seq<Seq<char>>,
    Seq<Seq<char>>,
) {
    let sign = if sign_ok {
        seq![]
    } else {
        seq!["Ad-hoc codesigning failed; macOS may reject the applet bundle."@]
    };
    let (ha, hm) = scheme_outcome("http"@, http);
    let (sa, sm) = scheme_outcome("https"@, https);
    let tail = if http == 0 && https == 0 {
        seq![]
    } else {
        seq![pick_default_manually()]
    };
    (seq!["Created URL-handler applet "@ + bundle] + ha + sa, sign + hm + sm + tail)
}

fn push_scheme_outcome(r: &mut InstallReport, scheme: &str, status: i32)
    ensures
        final(r).automated.deep_view() == old(r).automated.deep_view() + scheme_outcome(
            scheme@,
            status,
        ).0,
        final(r).manual.deep_view() == old(r).manual.deep_view() + scheme_outcome(scheme@, status).1,
{
    let ghost a0 = r.automated.deep_view();
    let ghost m0 = r.manual.deep_view();
    if status == 0 {
        let mut line = text::concat3("Set default handler for ", scheme, " -> ");
        line.append(BUNDLE_ID);
        r.automated.push(line);
    } else {
        let mut line = text::concat3("LSSetDefaultHandlerForURLScheme(", scheme, ") failed with status ");
        let n = signed_decimal_of(status);
        line.append(n.as_str());
        r.manual.push(line);
    }
    assert(r.automated.deep_view() =~= a0 + scheme_outcome(scheme@, status).0);
    assert(r.manual.deep_view() =~= m0 + scheme_outcome(scheme@, status).1);
}

/// Builds the installation report.
pub fn install_report(bundle: &str, sign_ok: bool, http_status: i32, https_status: i32) -> (r:
    InstallReport)
    ensures
        (r.automated.deep_view(), r.manual.deep_view()) == install_report_spec(
            bundle@,
            sign_ok,
            http_status,
            https_status,
        ),
{
    let mut r = InstallReport::empty();
    if !sign_ok {
        r.manual.push(String::from_str("Ad-hoc codesigning failed; macOS may reject the applet bundle."));
    }
    r.automated.push(text::concat("Created URL-handler applet ", bundle));
    assert(r.automated.deep_view() =~= seq!["Created URL-handler applet "@ + bundle@]);
    assert(r.manual.deep_view() =~= if sign_ok {
        seq![]
    } else {
        seq!["Ad-hoc codesigning failed; macOS may reject the applet bundle."@]
    });
    push_scheme_outcome(&mut r, "http", http_status);
    push_scheme_outcome(&mut r, "https", https_status);
    let ghost m = r.manual.deep_view();
    if http_status != 0 || https_status != 0 {
        r.manual.push(
            String::from_str(
                "Open System Settings > Desktop & Dock > Default web browser and pick \"Browser Dispatcher\".",
            ),
        );
        assert(r.manual.deep_view() =~= m.push(pick_default_manually()));
    }
    let ghost spec = install_report_spec(bundle@, sign_ok, http_status, https_status);
    assert(r.automated.deep_view() =~= spec.0);
    assert(r.manual.deep_view() =~= spec.1);
    r
}

// ---------------------------------------------------------------------------
// Health checks
// ---------------------------------------------------------------------------

/// What the bundle and LaunchServices hold that the health checks look at.
pub struct BundleObservation {
    /// The text of `Contents/Info.plist`, if readable.
    pub plist_text: Option<String>,
    /// `Contents/Resources/Scripts/main.scpt` is a file.
    pub script_present: bool,
    /// `Contents/MacOS/applet` is a file.
    pub applet_present: bool,
    /// The default handler for http, if any.
    pub http_handler: Option<String>,
    /// The default handler for https, if any.
    pub https_handler: Option<String>,
}

/// The check of the applet bundle.
pub open spec fn bundle_check(
    plist: Option<Seq<char>>,
    script: bool,
    applet: bool,
    bundle: Seq<char>,
) -> CheckView {
    let title = "macos: applet bundle"@;
    let complete = match plist {
        Some(t) => text::contains_seq(t, "<string>http</string>"@) && text::contains_seq(
            t,
            "<string>https</string>"@,
        ) && text::contains_seq(t, "<string>applet</string>"@) && script && applet,
        None => false,
    };
    if complete {
        mk_check(title, Level::Pass, bundle + " (GURL handler, LSUIElement)"@)
    } else {
        mk_check(
            title,
            Level::Fail,
            bundle + " is missing or incomplete; run `browser-dispatcher install`"@,
        )
    }
}

/// The check that the applet is the default handler for a scheme.
pub open spec fn handler_check(scheme: Seq<char>, handler: Option<Seq<char>>) -> CheckView {
    let title = "macos: default for "@ + scheme;
    match handler {
        Some(h) if text::lower(h) == text::lower(BUNDLE_ID@) => mk_check(
            title,
            Level::Pass,
            "handler = "@ + BUNDLE_ID@,
        ),
        _ => mk_check(
            title,
            Level::Warn,
            "current handler is "@ + match handler {
                Some(h) => h,
                None => "<none>"@,
            } + "; set the default web browser in System Settings > Desktop & Dock"@,
        ),
    }
}

fn handler(scheme: &str, current: &Option<String>) -> (c: Check)
    ensures
        c@ == handler_check(scheme@, current.deep_view()),
{
    let title = text::concat("macos: default for ", scheme);
    if let Some(h) = current {
        if text::eq_ignore_ascii_case(h.as_str(), BUNDLE_ID) {
            return Check::pass(title, text::concat("handler = ", BUNDLE_ID));
        }
    }
    let shown = match current {
        Some(h) => h.as_str(),
        None => "<none>",
    };
    Check::warn(
        title,
        text::concat3(
            "current handler is ",
            shown,
            "; set the default web browser in System Settings > Desktop & Dock",
        ),
    )
}

/// The registration health checks.
pub fn registration_checks(obs: &BundleObservation, bundle: &str) -> (r: Vec<Check>)
    ensures
        checks_view(r@) == seq![
            bundle_check(obs.plist_text.deep_view(), obs.script_present, obs.applet_present, bundle@),
            handler_check("http"@, obs.http_handler.deep_view()),
            handler_check("https"@, obs.https_handler.deep_view()),
        ],
{
    let complete = match &obs.plist_text {
        Some(t) => text::has_substring(t.as_str(), "<string>http</string>") && text::has_substring(
            t.as_str(),
            "<string>https</string>",
        ) && text::has_substring(t.as_str(), "<string>applet</string>") && obs.script_present
            && obs.applet_present,
        None => false,
    };
    let mut r: Vec<Check> = Vec::new();
    if complete {
        r.push(
            Check::pass(
                String::from_str("macos: applet bundle"),
                text::concat(bundle, " (GURL handler, LSUIElement)"),
            ),
        );
    } else {
        r.push(
            Check::fail(
                String::from_str("macos: applet bundle"),
                text::concat(bundle, " is missing or incomplete; run `browser-dispatcher install`"),
            ),
        );
    }
    r.push(handler("http", &obs.http_handler));
    r.push(handler("https", &obs.https_handler));
    assert(checks_view(r@) =~= seq![
        bundle_check(obs.plist_text.deep_view(), obs.script_present, obs.applet_present, bundle@),
        handler_check("http"@, obs.http_handler.deep_view()),
        handler_check("https"@, obs.https_handler.deep_view()),
    ]);
    r
}

} // verus!
