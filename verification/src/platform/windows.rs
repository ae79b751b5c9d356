//! Windows: browser registration via per-user (HKCU) registry entries.
//!
//! Layout (all under HKEY_CURRENT_USER, no admin rights needed):
//!
//! ```text
//! Software\Clients\StartMenuInternet\BrowserDispatcher
//!   (Default)                    = "Browser Dispatcher"
//!   Capabilities\ApplicationName / ApplicationDescription / ApplicationIcon / StartMenu
//!   Capabilities\UrlAssociations\http|https = BrowserDispatcherURL
//!   DefaultIcon                  = "<exe>,0"
//!   InstallInfo\ReinstallCommand, IconsVisible
//!   shell\open\command           = "\"<exe>\" \"%1\""
//! Software\Classes\BrowserDispatcherURL      (ProgID)
//!   (Default) = "Browser Dispatcher URL"
//!   URL Protocol = ""
//!   DefaultIcon / shell\open\command
//! ```
//!
//! Windows 8+ protects the `UserChoice` key with a hash, so the final
//! "set as default" step is left to the user in Settings, on the page that
//! `DEFAULT_APPS_URI` opens.

use vstd::prelude::*;

use crate::check::{Check, CheckView, Level, checks_view, mk_check};
use crate::platform::{DISPLAY_NAME, InstallReport};
use crate::text;
use crate::util::{passed_over, tested};

verus! {

/// The client name under `StartMenuInternet`.
pub const CLIENT_NAME: &'static str = "BrowserDispatcher";

/// The browser client key.
pub const CLIENT_KEY: &'static str = "Software\\Clients\\StartMenuInternet\\BrowserDispatcher";

/// The capabilities key of the browser client.
pub const CAPABILITIES_KEY: &'static str =
    "Software\\Clients\\StartMenuInternet\\BrowserDispatcher\\Capabilities";

/// The key that lists registered applications.
pub const REGISTERED_APPLICATIONS_KEY: &'static str = "Software\\RegisteredApplications";

/// The value name under `RegisteredApplications`; it must equal
/// `Capabilities\ApplicationName`.
pub const REGISTERED_APP_NAME: &'static str = DISPLAY_NAME;

/// The ProgID that http/https are associated with.
pub const PROG_ID: &'static str = "BrowserDispatcherURL";

/// The Windows 11 Settings page for this application's default-app choice.
pub const DEFAULT_APPS_URI: &'static str =
    "ms-settings:defaultapps?registeredAppUser=Browser%20Dispatcher";

/// The ProgID key under `Software\Classes`.
pub const PROG_ID_KEY: &'static str = "Software\\Classes\\BrowserDispatcherURL";

// ---------------------------------------------------------------------------
// Browser detection tables
// ---------------------------------------------------------------------------

/// The usual install locations of a built-in browser, most likely first.
pub open spec fn install_candidates_spec(id: Seq<char>) -> Seq<Seq<char>> {
    if id == "firefox"@ {
        seq![
            "%ProgramFiles%\\Mozilla Firefox\\firefox.exe"@,
            "%ProgramFiles(x86)%\\Mozilla Firefox\\firefox.exe"@,
            "%LocalAppData%\\Mozilla Firefox\\firefox.exe"@,
        ]
    } else if id == "chrome"@ {
        seq![
            "%ProgramFiles%\\Google\\Chrome\\Application\\chrome.exe"@,
            "%ProgramFiles(x86)%\\Google\\Chrome\\Application\\chrome.exe"@,
            "%LocalAppData%\\Google\\Chrome\\Application\\chrome.exe"@,
        ]
    } else if id == "chromium"@ {
        seq![
            "%LocalAppData%\\Chromium\\Application\\chrome.exe"@,
            "%ProgramFiles%\\Chromium\\Application\\chrome.exe"@,
        ]
    } else if id == "edge"@ {
        seq![
            "%ProgramFiles(x86)%\\Microsoft\\Edge\\Application\\msedge.exe"@,
            "%ProgramFiles%\\Microsoft\\Edge\\Application\\msedge.exe"@,
        ]
    } else if id == "brave"@ {
        seq![
            "%LocalAppData%\\BraveSoftware\\Brave-Browser\\Application\\brave.exe"@,
            "%ProgramFiles%\\BraveSoftware\\Brave-Browser\\Application\\brave.exe"@,
        ]
    } else if id == "vivaldi"@ {
        seq![
            "%LocalAppData%\\Vivaldi\\Application\\vivaldi.exe"@,
            "%ProgramFiles%\\Vivaldi\\Application\\vivaldi.exe"@,
        ]
    } else if id == "opera"@ {
        seq![
            "%LocalAppData%\\Programs\\Opera\\opera.exe"@,
            "%ProgramFiles%\\Opera\\opera.exe"@,
            "%ProgramFiles(x86)%\\Opera\\opera.exe"@,
        ]
    } else {
        seq![]
    }
}

/// The usual install locations of a built-in browser, with `%VAR%`
/// placeholders for the environment, most likely first.
pub fn install_candidates(id: &str) -> (r: Vec<&'static str>)
    ensures
        crate::platform::strs_view(r@) == install_candidates_spec(id@),
{
    proof {
        crate::platform::lemma_catalog_id_letters();
    }
    let mut r: Vec<&'static str> = Vec::new();
    if text::str_eq(id, "firefox") {
        r.push("%ProgramFiles%\\Mozilla Firefox\\firefox.exe");
        r.push("%ProgramFiles(x86)%\\Mozilla Firefox\\firefox.exe");
        r.push("%LocalAppData%\\Mozilla Firefox\\firefox.exe");
    } else if text::str_eq(id, "chrome") {
        r.push("%ProgramFiles%\\Google\\Chrome\\Application\\chrome.exe");
        r.push("%ProgramFiles(x86)%\\Google\\Chrome\\Application\\chrome.exe");
        r.push("%LocalAppData%\\Google\\Chrome\\Application\\chrome.exe");
    } else if text::str_eq(id, "chromium") {
        r.push("%LocalAppData%\\Chromium\\Application\\chrome.exe");
        r.push("%ProgramFiles%\\Chromium\\Application\\chrome.exe");
    } else if text::str_eq(id, "edge") {
        r.push("%ProgramFiles(x86)%\\Microsoft\\Edge\\Application\\msedge.exe");
        r.push("%ProgramFiles%\\Microsoft\\Edge\\Application\\msedge.exe");
    } else if text::str_eq(id, "brave") {
        r.push("%LocalAppData%\\BraveSoftware\\Brave-Browser\\Application\\brave.exe");
        r.push("%ProgramFiles%\\BraveSoftware\\Brave-Browser\\Application\\brave.exe");
    } else if text::str_eq(id, "vivaldi") {
        r.push("%LocalAppData%\\Vivaldi\\Application\\vivaldi.exe");
        r.push("%ProgramFiles%\\Vivaldi\\Application\\vivaldi.exe");
    } else if text::str_eq(id, "opera") {
        r.push("%LocalAppData%\\Programs\\Opera\\opera.exe");
        r.push("%ProgramFiles%\\Opera\\opera.exe");
        r.push("%ProgramFiles(x86)%\\Opera\\opera.exe");
    }
    assert(crate::platform::strs_view(r@) =~= install_candidates_spec(id@));
    r
}

/// The `App Paths` executable name of a built-in browser.
pub open spec fn app_paths_exe_spec(id: Seq<char>) -> Option<Seq<char>> {
    if id == "firefox"@ {
        Some("firefox.exe"@)
    } else if id == "chrome"@ {
        Some("chrome.exe"@)
    } else if id == "chromium"@ {
        Some("chromium.exe"@)
    } else if id == "edge"@ {
        Some("msedge.exe"@)
    } else if id == "brave"@ {
        Some("brave.exe"@)
    } else if id == "vivaldi"@ {
        Some("vivaldi.exe"@)
    } else if id == "opera"@ {
        Some("opera.exe"@)
    } else {
        None
    }
}

/// The executable name registered under `App Paths` for a built-in browser.
pub fn app_paths_exe(id: &str) -> (r: Option<&'static str>)
    ensures
        match r {
            Some(e) => Some(e@),
            None => None,
        } == app_paths_exe_spec(id@),
{
    proof {
        crate::platform::lemma_catalog_id_letters();
    }
    if text::str_eq(id, "firefox") {
        Some("firefox.exe")
    } else if text::str_eq(id, "chrome") {
        Some("chrome.exe")
    } else if text::str_eq(id, "chromium") {
        Some("chromium.exe")
    } else if text::str_eq(id, "edge") {
        Some("msedge.exe")
    } else if text::str_eq(id, "brave") {
        Some("brave.exe")
    } else if text::str_eq(id, "vivaldi") {
        Some("vivaldi.exe")
    } else if text::str_eq(id, "opera") {
        Some("opera.exe")
    } else {
        None
    }
}

/// The `App Paths` registry key of an executable name.
pub fn app_paths_key(exe: &str) -> (r: String)
    ensures
        r@ == "SOFTWARE\\Microsoft\\Windows\\CurrentVersion\\App Paths\\"@ + exe@,
{
    text::concat("SOFTWARE\\Microsoft\\Windows\\CurrentVersion\\App Paths\\", exe)
}

/// The environment variables that install locations refer to.
pub struct InstallEnv {
    pub program_files: Option<String>,
    pub program_files_x86: Option<String>,
    pub local_app_data: Option<String>,
}

/// A template with each set variable substituted, in the order
/// `ProgramFiles`, `ProgramFiles(x86)`, `LocalAppData`.
pub open spec fn substitute_env(
    tmpl: Seq<char>,
    pf: Option<Seq<char>>,
    pf86: Option<Seq<char>>,
    lad: Option<Seq<char>>,
) -> Seq<char> {
    let s1 = match pf {
        Some(v) => text::replace_all(tmpl, "%ProgramFiles%"@, v),
        None => tmpl,
    };
    let s2 = match pf86 {
        Some(v) => text::replace_all(s1, "%ProgramFiles(x86)%"@, v),
        None => s1,
    };
    match lad {
        Some(v) => text::replace_all(s2, "%LocalAppData%"@, v),
        None => s2,
    }
}

/// Expands the `%VAR%` placeholders of an install location; `None` when a
/// placeholder is left because its variable is unset.
pub fn expand_env(tmpl: &str, env: &InstallEnv) -> (r: Option<String>)
    ensures
        ({
            let s = substitute_env(
                tmpl@,
                env.program_files.deep_view(),
                env.program_files_x86.deep_view(),
                env.local_app_data.deep_view(),
            );
            &&& r is Some <==> !s.contains('%')
            &&& r matches Some(p) ==> p@ == s
        }),
{
    let mut s = String::from_str(tmpl);
    if let Some(v) = &env.program_files {
        s = text::replace_str(s.as_str(), "%ProgramFiles%", v.as_str());
    }
    if let Some(v) = &env.program_files_x86 {
        s = text::replace_str(s.as_str(), "%ProgramFiles(x86)%", v.as_str());
    }
    if let Some(v) = &env.local_app_data {
        s = text::replace_str(s.as_str(), "%LocalAppData%", v.as_str());
    }
    if text::contains_char(s.as_str(), '%') {
        None
    } else {
        Some(s)
    }
}

/// An install location expanded in `env`; `None` when a placeholder is
/// left.
pub open spec fn expanded_location(tmpl: Seq<char>, env: InstallEnv) -> Option<Seq<char>> {
    let s = substitute_env(
        tmpl,
        env.program_files.deep_view(),
        env.program_files_x86.deep_view(),
        env.local_app_data.deep_view(),
    );
    if s.contains('%') {
        None
    } else {
        Some(s)
    }
}

/// The registry hives that `App Paths` is read from.
#[derive(Clone, Copy, Debug)]
pub enum RegRoot {
    LocalMachine,
    CurrentUser,
}

/// `read` answered `v` for the default value of `key` under `root`.
pub open spec fn read_as<G: Fn(RegRoot, &str) -> Option<String>>(
    read: G,
    root: RegRoot,
    key: Seq<char>,
    v: Option<String>,
) -> bool {
    exists|s: &str| s@ == key && #[trigger] call_ensures(read, (root, s), v)
}

/// A registry answer that names a file `is_file` accepted.
pub open spec fn names_file<F: Fn(&str) -> bool>(is_file: F, v: Option<String>) -> bool {
    v matches Some(p) && tested(is_file, p@, true)
}

/// A registry answer that names no file: nothing, or a path `is_file`
/// turned down.
pub open spec fn names_no_file<F: Fn(&str) -> bool>(is_file: F, v: Option<String>) -> bool {
    match v {
        None => true,
        Some(p) => tested(is_file, p@, false),
    }
}

/// The outcome of reading `key` in HKLM and then HKCU: the first answer
/// that names an existing file, else nothing.
pub open spec fn app_paths_outcome<F: Fn(&str) -> bool, G: Fn(RegRoot, &str) -> Option<String>>(
    is_file: F,
    read: G,
    key: Seq<char>,
    r: Option<String>,
) -> bool {
    exists|m: Option<String>|
        #[trigger] read_as(read, RegRoot::LocalMachine, key, m) && {
            ||| names_file(is_file, m) && r == m
            ||| names_no_file(is_file, m) && exists|u: Option<String>|
                #[trigger] read_as(read, RegRoot::CurrentUser, key, u) && {
                    ||| names_file(is_file, u) && r == u
                    ||| names_no_file(is_file, u) && r is None
                }
        }
}

/// The `App Paths` lookup of a browser id: nothing for an id without an
/// `App Paths` name, else the outcome for its key.
pub open spec fn app_paths_found<F: Fn(&str) -> bool, G: Fn(RegRoot, &str) -> Option<String>>(
    is_file: F,
    read: G,
    id: Seq<char>,
    r: Option<String>,
) -> bool {
    match app_paths_exe_spec(id) {
        None => r is None,
        Some(exe) => app_paths_outcome(
            is_file,
            read,
            "SOFTWARE\\Microsoft\\Windows\\CurrentVersion\\App Paths\\"@ + exe,
            r,
        ),
    }
}

/// Looks a built-in browser up under `App Paths`: `read` gives the default
/// value of its key in HKLM, then in HKCU, and the first that names an
/// existing file (as `is_file` says) is the answer.
pub fn app_paths_lookup<F: Fn(&str) -> bool, G: Fn(RegRoot, &str) -> Option<String>>(
    id: &str,
    is_file: F,
    read: G,
) -> (r: Option<String>)
    requires
        forall|s: &str| #[trigger] call_requires(is_file, (s,)),
        forall|root: RegRoot, s: &str| #[trigger] call_requires(read, (root, s)),
    ensures
        app_paths_found(is_file, read, id@, r),
{
    let exe = match app_paths_exe(id) {
        Some(e) => e,
        None => return None,
    };
    let key = app_paths_key(exe);
    let ks = key.as_str();
    let m = read(RegRoot::LocalMachine, ks);
    assert(read_as(read, RegRoot::LocalMachine, key@, m));
    if let Some(p) = &m {
        let ps = p.as_str();
        let hit = is_file(ps);
        assert(tested(is_file, p@, hit));
        if hit {
            return m;
        }
    }
    let u = read(RegRoot::CurrentUser, ks);
    assert(read_as(read, RegRoot::CurrentUser, key@, u));
    if let Some(p) = &u {
        let ps = p.as_str();
        let hit = is_file(ps);
        assert(tested(is_file, p@, hit));
        if hit {
            return u;
        }
    }
    None
}

/// `r` is the candidate `path`, and `is_file` accepted it.
pub open spec fn found_at<F: Fn(&str) -> bool>(
    is_file: F,
    path: Option<Seq<char>>,
    r: Option<String>,
) -> bool {
    r matches Some(p) && path == Some(p@) && tested(is_file, p@, true)
}

/// The outcome of looking a browser up on Windows: the first of its install
/// locations that expands and names an existing file, else the `App Paths`
/// lookup.
pub open spec fn windows_lookup<F: Fn(&str) -> bool, G: Fn(RegRoot, &str) -> Option<String>>(
    is_file: F,
    read: G,
    id: Seq<char>,
    env: InstallEnv,
    r: Option<String>,
) -> bool {
    let cands = install_candidates_spec(id);
    ||| exists|k: int|
        0 <= k < cands.len() && found_at(is_file, #[trigger] expanded_location(cands[k], env), r)
            && forall|j: int|
            0 <= j < k ==> passed_over(is_file, #[trigger] expanded_location(cands[j], env))
    ||| (forall|j: int|
        0 <= j < cands.len() ==> passed_over(is_file, #[trigger] expanded_location(cands[j], env)))
        && app_paths_found(is_file, read, id, r)
}

/// Looks a built-in browser up on Windows: its usual install locations,
/// expanded in `env`, in order, then the `App Paths` registry entries.
pub fn find_browser_impl<F: Fn(&str) -> bool, G: Fn(RegRoot, &str) -> Option<String>>(
    id: &str,
    env: &InstallEnv,
    is_file: F,
    read: G,
) -> (r: Option<String>)
    requires
        forall|s: &str| #[trigger] call_requires(is_file, (s,)),
        forall|root: RegRoot, s: &str| #[trigger] call_requires(read, (root, s)),
    ensures
        windows_lookup(is_file, read, id@, *env, r),
{
    let cands = install_candidates(id);
    let ghost spec_cands = install_candidates_spec(id@);
    let mut i: usize = 0;
    while i < cands.len()
        invariant
            i <= cands@.len(),
            crate::platform::strs_view(cands@) == spec_cands,
            spec_cands == install_candidates_spec(id@),
            forall|s: &str| #[trigger] call_requires(is_file, (s,)),
            forall|j: int|
                0 <= j < i ==> passed_over(is_file, #[trigger] expanded_location(spec_cands[j], *env)),
        decreases cands.len() - i,
    {
        let tmpl = cands[i];
        assert(spec_cands[i as int] == tmpl@);
        let e = expand_env(tmpl, env);
        if let Some(p) = e {
            let ps = p.as_str();
            let hit = is_file(ps);
            assert(tested(is_file, p@, hit));
            if hit {
                assert(expanded_location(spec_cands[i as int], *env) == Some(p@));
                return Some(p);
            }
        }
        assert(passed_over(is_file, expanded_location(spec_cands[i as int], *env)));
        i = i + 1;
    }
    app_paths_lookup(id, is_file, read)
}

// ---------------------------------------------------------------------------
// Registration
// ---------------------------------------------------------------------------

/// The data of one registry value.
#[derive(Debug, PartialEq, Eq)]
pub enum RegData {
    Text(String),
    Dword(u32),
}

/// One registry value to write under HKCU.
#[derive(Debug)]
pub struct RegWrite {
    pub subkey: String,
    pub name: String,
    pub data: RegData,
}

/// Registry data as plain values.
pub enum RegDataView {
    Text(Seq<char>),
    Dword(u32),
}

impl View for RegWrite {
    type V = (Seq<char>, Seq<char>, RegDataView);

    open spec fn view(&self) -> (Seq<char>, Seq<char>, RegDataView) {
        (
            self.subkey@,
            self.name@,
            match self.data {
                RegData::Text(t) => RegDataView::Text(t@),
                RegData::Dword(d) => RegDataView::Dword(d),
            },
        )
    }
}

/// A text value to write: subkey, value name, data.
pub open spec fn text_value(subkey: Seq<char>, name: Seq<char>, value: Seq<char>) -> (
    Seq<char>,
    Seq<char>,
    RegDataView,
) {
    (subkey, name, RegDataView::Text(value))
}

/// The command that opens a URL with the program: `"<exe>" "%1"`.
pub open spec fn open_command(exe: Seq<char>) -> Seq<char> {
    "\""@ + exe + "\" \"%1\""@
}

/// The icon reference of the program: `<exe>,0`.
pub open spec fn icon_ref(exe: Seq<char>) -> Seq<char> {
    exe + ",0"@
}

/// Every registry value that registration writes, in order: the browser
/// client refers to the program `exe`, and the http/https ProgID opens URLs
/// with the console-free `handler`.
pub open spec fn registry_writes_spec(exe: Seq<char>, handler: Seq<char>) -> Seq<
    (Seq<char>, Seq<char>, RegDataView),
> {
    let client = CLIENT_KEY@;
    let caps = CAPABILITIES_KEY@;
    seq![
        text_value(client, ""@, DISPLAY_NAME@),
        text_value(caps, "ApplicationName"@, REGISTERED_APP_NAME@),
        text_value(
            caps,
            "ApplicationDescription"@,
            "Routes URLs to Firefox / Chrome / Edge / ... based on configurable rules."@,
        ),
        text_value(caps, "ApplicationIcon"@, icon_ref(exe)),
        text_value(caps + "\\Startmenu"@, "StartMenuInternet"@, CLIENT_NAME@),
        text_value(caps + "\\UrlAssociations"@, "http"@, PROG_ID@),
        text_value(caps + "\\UrlAssociations"@, "https"@, PROG_ID@),
        text_value(REGISTERED_APPLICATIONS_KEY@, REGISTERED_APP_NAME@, caps),
        text_value(client + "\\DefaultIcon"@, ""@, icon_ref(exe)),
        text_value(client + "\\shell\\open\\command"@, ""@, open_command(exe)),
        text_value(
            client + "\\InstallInfo"@,
            "ReinstallCommand"@,
            "\""@ + exe + "\" install --no-wizard"@,
        ),
        (client + "\\InstallInfo"@, "IconsVisible"@, RegDataView::Dword(1)),
        text_value(PROG_ID_KEY@, ""@, "Browser Dispatcher URL"@),
        text_value(PROG_ID_KEY@, "URL Protocol"@, ""@),
        text_value(PROG_ID_KEY@ + "\\DefaultIcon"@, ""@, icon_ref(exe)),
        text_value(PROG_ID_KEY@ + "\\shell\\open\\command"@, ""@, open_command(handler)),
    ]
}

/// The `RegisteredApplications` entry that the Windows 11 settings page
/// needs: its value name equals `Capabilities\ApplicationName`, and its data
/// is the capabilities key; and every URL scheme is associated with the
/// ProgID whose open command runs the handler.
pub proof fn lemma_registration_is_consistent(exe: Seq<char>, handler: Seq<char>)
    ensures
        ({
            let w = registry_writes_spec(exe, handler);
            &&& w[1].0 == CAPABILITIES_KEY@ && w[1].1 == "ApplicationName"@
            &&& w[7].0 == REGISTERED_APPLICATIONS_KEY@
            &&& w[1].2 == RegDataView::Text(w[7].1)
            &&& w[7].2 == RegDataView::Text(CAPABILITIES_KEY@)
            &&& w[5].2 == RegDataView::Text(PROG_ID@) && w[6].2 == RegDataView::Text(PROG_ID@)
            &&& w[15].0 == PROG_ID_KEY@ + "\\shell\\open\\command"@
            &&& w[15].2 == RegDataView::Text(open_command(handler))
        }),
{
}

fn text_write(subkey: String, name: &str, value: String) -> (w: RegWrite)
    ensures
        w@ == text_value(subkey@, name@, value@),
{
    RegWrite { subkey, name: String::from_str(name), data: RegData::Text(value) }
}

/// The registry values that register `exe` as a browser, with URLs opened
/// through `handler`, in write order.
pub fn registry_writes(exe: &str, handler: &str) -> (r: Vec<RegWrite>)
    ensures
        r@.map_values(|w: RegWrite| w@) == registry_writes_spec(exe@, handler@),
{
    let open_cmd = text::concat3("\"", exe, "\" \"%1\"");
    let icon = text::concat(exe, ",0");
    let caps = String::from_str(CAPABILITIES_KEY);
    let client = String::from_str(CLIENT_KEY);
    let mut r: Vec<RegWrite> = Vec::new();
    r.push(text_write(client.clone(), "", String::from_str(DISPLAY_NAME)));
    r.push(text_write(caps.clone(), "ApplicationName", String::from_str(REGISTERED_APP_NAME)));
    r.push(
        text_write(
            caps.clone(),
            "ApplicationDescription",
            String::from_str(
                "Routes URLs to Firefox / Chrome / Edge / ... based on configurable rules.",
            ),
        ),
    );
    r.push(text_write(caps.clone(), "ApplicationIcon", icon.clone()));
    r.push(
        text_write(
            text::concat(CAPABILITIES_KEY, "\\Startmenu"),
            "StartMenuInternet",
            String::from_str(CLIENT_NAME),
        ),
    );
    r.push(
        text_write(
            text::concat(CAPABILITIES_KEY, "\\UrlAssociations"),
            "http",
            String::from_str(PROG_ID),
        ),
    );
    r.push(
        text_write(
            text::concat(CAPABILITIES_KEY, "\\UrlAssociations"),
            "https",
            String::from_str(PROG_ID),
        ),
    );
    r.push(
        text_write(
            String::from_str(REGISTERED_APPLICATIONS_KEY),
            REGISTERED_APP_NAME,
            caps.clone(),
        ),
    );
    r.push(text_write(text::concat(CLIENT_KEY, "\\DefaultIcon"), "", icon.clone()));
    r.push(text_write(text::concat(CLIENT_KEY, "\\shell\\open\\command"), "", open_cmd));
    r.push(
        text_write(
            text::concat(CLIENT_KEY, "\\InstallInfo"),
            "ReinstallCommand",
            text::concat3("\"", exe, "\" install --no-wizard"),
        ),
    );
    r.push(
        RegWrite {
            subkey: text::concat(CLIENT_KEY, "\\InstallInfo"),
            name: String::from_str("IconsVisible"),
            data: RegData::Dword(1),
        },
    );
    r.push(text_write(String::from_str(PROG_ID_KEY), "", String::from_str("Browser Dispatcher URL")));
    r.push(text_write(String::from_str(PROG_ID_KEY), "URL Protocol", String::from_str("")));
    r.push(text_write(text::concat(PROG_ID_KEY, "\\DefaultIcon"), "", icon));
    r.push(
        text_write(
            text::concat(PROG_ID_KEY, "\\shell\\open\\command"),
            "",
            text::concat3("\"", handler, "\" \"%1\""),
        ),
    );
    assert(r@.map_values(|w: RegWrite| w@) =~= registry_writes_spec(exe@, handler@));
    r
}

/// The report of a registration: what was done, and the confirmation that
/// Windows leaves to the user.
pub fn registration_report() -> (r: InstallReport)
    ensures
        r.automated.deep_view() == seq![
            "Registered browser client + http/https handler in HKCU, including Software\\RegisteredApplications"@,
        ],
        r.manual.deep_view() == seq![
            "In the app-specific Settings page that just opened, click \"Set default\". Windows requires this confirmation to be done by the user."@,
        ],
{
    let mut r = InstallReport::empty();
    r.automated.push(
        String::from_str(
            "Registered browser client + http/https handler in HKCU, including Software\\RegisteredApplications",
        ),
    );
    r.manual.push(
        String::from_str(
            "In the app-specific Settings page that just opened, click \"Set default\". Windows requires this confirmation to be done by the user.",
        ),
    );
    assert(r.automated.deep_view() =~= seq![
        "Registered browser client + http/https handler in HKCU, including Software\\RegisteredApplications"@,
    ]);
    assert(r.manual.deep_view() =~= seq![
        "In the app-specific Settings page that just opened, click \"Set default\". Windows requires this confirmation to be done by the user."@,
    ]);
    r
}

// ---------------------------------------------------------------------------
// Health checks
// ---------------------------------------------------------------------------

/// What the registry holds that the health checks look at.
pub struct RegistryObservation {
    /// `HKCU\<CLIENT_KEY>\shell\open\command` (default value).
    pub open_command: Option<String>,
    /// `HKCU\Software\RegisteredApplications\<REGISTERED_APP_NAME>`.
    pub registered_app: Option<String>,
    /// The `UserChoice` ProgId for `http`.
    pub http_prog_id: Option<String>,
    /// The `UserChoice` ProgId for `https`.
    pub https_prog_id: Option<String>,
}

/// The check that the browser client is registered for the stable copy.
pub open spec fn client_check(cmd: Option<Seq<char>>, stable: Seq<char>) -> CheckView {
    let title = "windows: browser registration"@;
    match cmd {
        Some(c) => if text::contains_seq(c, stable) {
            mk_check(title, Level::Pass, "HKCU\\"@ + CLIENT_KEY@ + " -> "@ + stable)
        } else {
            mk_check(
                title,
                Level::Fail,
                "registered command points elsewhere ("@ + c
                    + "); run `browser-dispatcher install` again"@,
            )
        },
        None => mk_check(
            title,
            Level::Fail,
            "HKCU\\"@ + CLIENT_KEY@ + " missing; run `browser-dispatcher install`"@,
        ),
    }
}

/// The check that the application appears in the Default Apps list.
pub open spec fn registered_app_check(value: Option<Seq<char>>) -> CheckView {
    let title = "windows: RegisteredApplications"@;
    match value {
        Some(p) if text::lower(p) == text::lower(CAPABILITIES_KEY@) => mk_check(
            title,
            Level::Pass,
            REGISTERED_APP_NAME@ + " -> "@ + CAPABILITIES_KEY@,
        ),
        _ => mk_check(
            title,
            Level::Fail,
            "expected "@ + REGISTERED_APP_NAME@ + " -> "@ + CAPABILITIES_KEY@ + ", found "@
                + match value {
                Some(p) => p,
                None => "<missing>"@,
            } + "; run `browser-dispatcher install` again"@,
        ),
    }
}

/// The check that the program is the active default for a scheme.
pub open spec fn user_choice_check(scheme: Seq<char>, prog_id: Option<Seq<char>>) -> CheckView {
    let title = "windows: default for "@ + scheme;
    match prog_id {
        Some(p) if text::lower(p) == text::lower(PROG_ID@) => mk_check(
            title,
            Level::Pass,
            "UserChoice ProgId = "@ + PROG_ID@,
        ),
        _ => mk_check(
            title,
            Level::Warn,
            "current default is "@ + match prog_id {
                Some(p) => p,
                None => "<none>"@,
            } + "; open "@ + DEFAULT_APPS_URI@
                + " and click \"Set default\" (Windows requires user confirmation)"@,
        ),
    }
}

/// All registration checks, in report order.
pub open spec fn registration_checks_spec(
    open_command: Option<Seq<char>>,
    registered_app: Option<Seq<char>>,
    http: Option<Seq<char>>,
    https: Option<Seq<char>>,
    stable: Seq<char>,
) -> Seq<CheckView> {
    seq![
        client_check(open_command, stable),
        registered_app_check(registered_app),
        user_choice_check("http"@, http),
        user_choice_check("https"@, https),
    ]
}

fn user_choice(scheme: &str, prog_id: &Option<String>) -> (c: Check)
    ensures
        c@ == user_choice_check(scheme@, prog_id.deep_view()),
{
    let title = text::concat("windows: default for ", scheme);
    match prog_id {
        Some(p) => {
            if text::eq_ignore_ascii_case(p.as_str(), PROG_ID) {
                return Check::pass(title, text::concat("UserChoice ProgId = ", PROG_ID));
            }
        },
        None => {},
    }
    let current = match prog_id {
        Some(p) => p.as_str(),
        None => "<none>",
    };
    let mut d = text::concat3("current default is ", current, "; open ");
    d.append(DEFAULT_APPS_URI);
    d.append(" and click \"Set default\" (Windows requires user confirmation)");
    Check::warn(title, d)
}

/// The registration health checks, from what the registry holds and the
/// path of the installed copy.
pub fn registration_checks(obs: &RegistryObservation, stable: &str) -> (r: Vec<Check>)
    ensures
        checks_view(r@) == registration_checks_spec(
            obs.open_command.deep_view(),
            obs.registered_app.deep_view(),
            obs.http_prog_id.deep_view(),
            obs.https_prog_id.deep_view(),
            stable@,
        ),
{
    let mut r: Vec<Check> = Vec::new();
    let title = "windows: browser registration";
    let c1 = match &obs.open_command {
        Some(cmd) => if text::has_substring(cmd.as_str(), stable) {
{
                let mut d = text::concat3("HKCU\\", CLIENT_KEY, " -> ");
                d.append(stable);
                Check::pass(String::from_str(title), d)
            }
        } else {
            Check::fail(
                String::from_str(title),
                text::concat3(
                    "registered command points elsewhere (",
                    cmd.as_str(),
                    "); run `browser-dispatcher install` again",
                ),
            )
        },
        None => Check::fail(
            String::from_str(title),
            text::concat3("HKCU\\", CLIENT_KEY, " missing; run `browser-dispatcher install`"),
        ),
    };
    r.push(c1);
    let title2 = "windows: RegisteredApplications";
    let mut matched = false;
    if let Some(p) = &obs.registered_app {
        matched = text::eq_ignore_ascii_case(p.as_str(), CAPABILITIES_KEY);
    }
    let c2 = if matched {
        Check::pass(
            String::from_str(title2),
            text::concat3(REGISTERED_APP_NAME, " -> ", CAPABILITIES_KEY),
        )
    } else {
        let found = match &obs.registered_app {
            Some(p) => p.as_str(),
            None => "<missing>",
        };
        let mut d = text::concat3("expected ", REGISTERED_APP_NAME, " -> ");
        d.append(CAPABILITIES_KEY);
        d.append(", found ");
        d.append(found);
        d.append("; run `browser-dispatcher install` again");
        Check::fail(String::from_str(title2), d)
    };
    r.push(c2);
    r.push(user_choice("http", &obs.http_prog_id));
    r.push(user_choice("https", &obs.https_prog_id));
    assert(checks_view(r@) =~= registration_checks_spec(
        obs.open_command.deep_view(),
        obs.registered_app.deep_view(),
        obs.http_prog_id.deep_view(),
        obs.https_prog_id.deep_view(),
        stable@,
    ));
    r
}

} // verus!
