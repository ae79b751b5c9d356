//! The decisions of installation: the options, the configuration written
//! when there is none, and the default browser chosen for it.

use vstd::prelude::*;

use crate::config::{self, Config, CONFIG_VERSION};
use crate::text;

verus! {

/// Options of the `install` command.
#[derive(Debug)]
pub struct InstallOptions {
    /// Skip the interactive wizard.
    pub no_wizard: bool,
    /// The fallback browser id to set (e.g. `firefox`).
    pub default_browser: Option<String>,
}

/// A configuration with nothing in it, against which a browser id given on
/// the command line is checked.
pub fn empty_config() -> (cfg: Config)
    ensures
        cfg@.version == CONFIG_VERSION,
        cfg@.default_browser.len() == 0,
        cfg@.rules.len() == 0,
        cfg@.browsers.len() == 0,
        config::browser_ids_distinct(cfg@),
{
    Config {
        version: CONFIG_VERSION,
        default_browser: String::new(),
        rules: Vec::new(),
        browsers: Vec::new(),
    }
}

/// The error when `--default-browser` names an unknown browser for a new
/// configuration.
pub open spec fn unknown_default_message(id: Seq<char>) -> Seq<char> {
    "--default-browser "@ + id + " is not a known browser id: "@ + config::unknown_browser_message(
        id,
    )
}

/// Checks a `--default-browser` id before a new configuration is written:
/// only the built-in browsers are known then.
pub fn check_new_default(id: &str) -> (r: Result<(), String>)
    ensures
        r is Ok <==> crate::platform::is_catalog_id(id@),
        r matches Err(e) ==> e@ == unknown_default_message(id@),
{
    let cfg = empty_config();
    match config::require_browser(&cfg, id) {
        Ok(()) => Ok(()),
        Err(e) => {
            let mut m = text::concat3("--default-browser ", id, " is not a known browser id: ");
            m.append(e.as_str());
            Err(m)
        },
    }
}

/// The default browser of a new configuration: the one given, else the
/// first detected, else Firefox.
pub fn initial_default_browser(given: Option<&str>, first_detected: Option<&str>) -> (r: String)
    ensures
        r@ == config::preferred_browser_spec(
            match given {
                Some(g) => Some(g@),
                None => None,
            },
            match first_detected {
                Some(d) => Some(d@),
                None => None,
            },
        ),
{
    config::preferred_browser(given, first_detected)
}

/// The text of a new configuration file.
pub fn new_config_text(given: Option<&str>, first_detected: Option<&str>) -> (r: String)
    ensures
        r@ == config::template_head() + config::preferred_browser_spec(
            match given {
                Some(g) => Some(g@),
                None => None,
            },
            match first_detected {
                Some(d) => Some(d@),
                None => None,
            },
        ) + config::template_tail(),
{
    let id = initial_default_browser(given, first_detected);
    config::default_config_toml(id.as_str())
}

} // verus!
