use browser_dispatcher::check::Level;
use browser_dispatcher::platform::windows::{
    self, registration_checks, registry_writes, InstallEnv, RegData, RegRoot,
    RegistryObservation, CAPABILITIES_KEY, DEFAULT_APPS_URI, REGISTERED_APP_NAME,
};
use browser_dispatcher::platform::{
    catalog_def, detect_all, detection_candidates, find_browser, known_ids, linux, macos, os_name, unsupported, Os,
    DISPLAY_NAME,
};

#[test]
fn windows_11_settings_uri_targets_per_user_registration() {
    assert_eq!(
        DEFAULT_APPS_URI,
        "ms-settings:defaultapps?registeredAppUser=Browser%20Dispatcher"
    );
    assert_eq!(REGISTERED_APP_NAME, DISPLAY_NAME);
}

#[test]
fn registered_application_points_to_capabilities() {
    assert_eq!(
        CAPABILITIES_KEY,
        r"Software\Clients\StartMenuInternet\BrowserDispatcher\Capabilities"
    );
}

#[test]
fn catalog_lookup() {
    let d = catalog_def("firefox").unwrap();
    assert_eq!(d.name, "Firefox");
    assert_eq!(d.private_args, vec!["-private-window"]);
    assert!(catalog_def("safari").unwrap().private_args.is_empty());
    assert!(catalog_def("Firefox").is_none());
    assert_eq!(known_ids().len(), 8);
    assert_eq!(detection_candidates(Os::Linux).len(), 7);
    assert_eq!(detection_candidates(Os::Macos)[7].id, "safari");
    assert_eq!(os_name(Os::Other), "unsupported");
}

#[test]
fn windows_registry_layout() {
    let w = registry_writes(
        r"C:\bd\browser-dispatcher.exe",
        r"C:\bd\browser-dispatcher-handler.exe",
    );
    assert_eq!(w.len(), 16);
    assert_eq!(w[7].subkey, r"Software\RegisteredApplications");
    assert_eq!(w[7].name, "Browser Dispatcher");
    assert_eq!(w[7].data, RegData::Text(CAPABILITIES_KEY.to_string()));
    assert_eq!(
        w[9].data,
        RegData::Text(r#""C:\bd\browser-dispatcher.exe" "%1""#.to_string())
    );
    assert_eq!(w[11].data, RegData::Dword(1));
    assert_eq!(w[15].subkey, r"Software\Classes\BrowserDispatcherURL\shell\open\command");
    assert_eq!(
        w[15].data,
        RegData::Text(r#""C:\bd\browser-dispatcher-handler.exe" "%1""#.to_string())
    );
}

#[test]
fn windows_checks() {
    let obs = RegistryObservation {
        open_command: Some(r#""C:\x\bd.exe" "%1""#.into()),
        registered_app: Some(CAPABILITIES_KEY.to_lowercase()),
        http_prog_id: Some("browserdispatcherurl".into()),
        https_prog_id: None,
    };
    let c = registration_checks(&obs, r"C:\x\bd.exe");
    assert_eq!(c[0].level, Level::Pass);
    assert_eq!(c[1].level, Level::Pass);
    assert_eq!(c[2].level, Level::Pass);
    assert_eq!(c[3].level, Level::Warn);
    assert!(c[3].detail.starts_with("current default is <none>; open ms-settings:"));
    let c = registration_checks(&obs, r"C:\y\bd.exe");
    assert_eq!(c[0].level, Level::Fail);
}

#[test]
fn linux_desktop_and_checks() {
    let t = linux::desktop_entry("/home/u/.local/share/browser-dispatcher/browser-dispatcher");
    assert!(t.contains("Exec=\"/home/u/.local/share/browser-dispatcher/browser-dispatcher\" dispatch %U\n"));
    let c = linux::registration_checks(&Some(t), "/d.desktop", "/home/u/.local/share/browser-dispatcher/browser-dispatcher", &Some("browser-dispatcher.desktop".into()));
    assert_eq!(c[0].level, Level::Pass);
    assert_eq!(c[1].level, Level::Pass);
    let c = linux::registration_checks(&None, "/d.desktop", "/x", &Some("firefox.desktop".into()));
    assert_eq!(c[0].detail, "/d.desktop missing; run `browser-dispatcher install`");
    assert_eq!(c[1].level, Level::Warn);
    assert_eq!(linux::executable_names("chrome"), vec!["google-chrome-stable", "google-chrome"]);
}

#[test]
fn macos_applet_quoting() {
    assert_eq!(macos::applescript_string(r#"a"b\c"#), r#""a\"b\\c""#);
    let s = macos::applet_script("/x y/bd");
    assert!(s.contains("set cliPath to \"/x y/bd\"\n"));
    let p = macos::info_plist("0.2.0");
    assert!(p.contains("<string>0.2.0</string>"));
    assert!(p.contains("<string>com.browser-dispatcher.app http/https handler</string>"));
    let r = macos::install_report("/A/BrowserDispatcher.app", false, 0, -54);
    assert_eq!(r.automated.len(), 2);
    assert_eq!(r.manual[1], "LSSetDefaultHandlerForURLScheme(https) failed with status -54");
    assert_eq!(r.manual.len(), 3);
}

#[test]
fn unsupported_platform() {
    assert!(unsupported::install_registration("/x").is_err());
    assert!(unsupported::uninstall_registration().is_ok());
    assert_eq!(unsupported::registration_checks()[0].level, Level::Fail);
    assert!(unsupported::find_browser_impl("firefox").is_none());
}

#[test]
fn linux_lookup_tries_names_in_order() {
    let asked = std::cell::RefCell::new(Vec::new());
    let found = linux::find_browser_impl("firefox", |name: &str| {
        asked.borrow_mut().push(name.to_string());
        if name == "firefox-esr" {
            Some("/usr/bin/firefox-esr".to_string())
        } else {
            None
        }
    });
    assert_eq!(found.as_deref(), Some("/usr/bin/firefox-esr"));
    assert_eq!(*asked.borrow(), vec!["firefox", "firefox-esr"]);
    assert_eq!(linux::find_browser_impl("safari", |_: &str| Some("x".to_string())), None);
}

#[test]
fn macos_lookup_prefers_system_folder_order() {
    let found = macos::find_browser_impl("chrome", Some("/Users/me/"), |p: &str| {
        p.starts_with("/Users/me/Applications/")
    });
    assert_eq!(
        found.as_deref(),
        Some("/Users/me/Applications/Google Chrome.app/Contents/MacOS/Google Chrome")
    );
    let first = macos::find_browser_impl("safari", Some("/Users/me"), |_: &str| true);
    assert_eq!(
        first.as_deref(),
        Some("/Applications/Safari.app/Contents/MacOS/Safari")
    );
    assert_eq!(macos::find_browser_impl("firefox", None, |_: &str| true), None);
    assert_eq!(macos::find_browser_impl("lynx", Some("/h"), |_: &str| true), None);
}

#[test]
fn windows_lookup_expands_then_falls_back_to_app_paths() {
    let env = InstallEnv {
        program_files: Some(r"C:\Program Files".to_string()),
        program_files_x86: None,
        local_app_data: Some(r"C:\Users\me\AppData\Local".to_string()),
    };
    let found = windows::find_browser_impl(
        "firefox",
        &env,
        |p: &str| p == r"C:\Users\me\AppData\Local\Mozilla Firefox\firefox.exe",
        |_: RegRoot, _: &str| None,
    );
    assert_eq!(
        found.as_deref(),
        Some(r"C:\Users\me\AppData\Local\Mozilla Firefox\firefox.exe")
    );
    let registered = windows::find_browser_impl(
        "edge",
        &env,
        |p: &str| p == r"D:\Edge\msedge.exe",
        |root: RegRoot, key: &str| match root {
            RegRoot::CurrentUser
                if key == r"SOFTWARE\Microsoft\Windows\CurrentVersion\App Paths\msedge.exe" =>
            {
                Some(r"D:\Edge\msedge.exe".to_string())
            }
            _ => Some(r"Z:\missing.exe".to_string()),
        },
    );
    assert_eq!(registered.as_deref(), Some(r"D:\Edge\msedge.exe"));
    let none = windows::find_browser_impl("safari", &env, |_: &str| true, |_: RegRoot, _: &str| {
        Some("x".to_string())
    });
    assert_eq!(none, None);
}

#[test]
fn detection_keeps_found_browsers_in_catalog_order() {
    let found = detect_all(Os::Linux, |id: &str| {
        if id == "opera" || id == "chrome" || id == "safari" {
            Some(format!("/bin/{id}"))
        } else {
            None
        }
    });
    let got: Vec<(&str, &str)> = found.iter().map(|(d, p)| (d.id, p.as_str())).collect();
    assert_eq!(got, vec![("chrome", "/bin/chrome"), ("opera", "/bin/opera")]);
    assert_eq!(found[0].0.name, "Google Chrome");
    let mac = detect_all(Os::Macos, |id: &str| {
        if id == "safari" {
            Some("/s".to_string())
        } else {
            None
        }
    });
    assert_eq!(mac.len(), 1);
    assert_eq!(mac[0].0.id, "safari");
}

#[test]
fn only_builtin_ids_are_looked_up() {
    assert_eq!(
        find_browser("brave", |id: &str| Some(format!("/opt/{id}"))).as_deref(),
        Some("/opt/brave")
    );
    assert_eq!(
        find_browser("librewolf", |_: &str| -> Option<String> {
            panic!("only built-in browsers are looked up")
        }),
        None
    );
}
