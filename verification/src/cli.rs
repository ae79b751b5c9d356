//! The command line: its arguments and the flow they select.

use vstd::prelude::*;

verus! {

/// The parsed command line.
#[derive(Debug)]
pub struct Cli {
    /// Use this config file instead of the default location.
    pub config: Option<String>,
    pub command: Option<Commands>,
    /// URL(s) to dispatch (used when invoked by the OS as the browser handler).
    pub urls: Vec<String>,
}

/// The subcommands.
#[derive(Debug)]
pub enum Commands {
    /// Register as a browser, create the default config, and run the setup
    /// wizard.
    Install { no_wizard: bool, default_browser: Option<String> },
    /// Check that the configuration, browsers, and OS registration are
    /// healthy.
    Doctor,
    /// Resolve URL(s) against the rules and open them.
    Dispatch { dry_run: bool, urls: Vec<String> },
    /// Remove the browser registration (keeps the config file).
    Uninstall,
}

/// What the program does for a command line.
#[derive(Debug)]
pub enum Action {
    Install { no_wizard: bool, default_browser: Option<String> },
    Doctor,
    Dispatch { urls: Vec<String>, dry_run: bool },
    Uninstall,
    PrintHelp,
}

impl Cli {
    /// What the program does for this command line.
    pub open spec fn action_spec(self) -> Action {
        match self.command {
            Some(Commands::Install { no_wizard, default_browser }) => Action::Install {
                no_wizard,
                default_browser,
            },
            Some(Commands::Doctor) => Action::Doctor,
            Some(Commands::Dispatch { dry_run, urls }) => Action::Dispatch { urls, dry_run },
            Some(Commands::Uninstall) => Action::Uninstall,
            None => if self.urls@.len() == 0 {
                Action::PrintHelp
            } else {
                Action::Dispatch { urls: self.urls, dry_run: false }
            },
        }
    }

    /// A subcommand runs as given; without one, bare URLs are dispatched
    /// (the OS invokes `browser-dispatcher <url>`), and nothing at all
    /// prints the help.
    pub fn action(self) -> (a: Action)
        ensures
            a == self.action_spec(),
    {
        match self.command {
            Some(Commands::Install { no_wizard, default_browser }) => Action::Install {
                no_wizard,
                default_browser,
            },
            Some(Commands::Doctor) => Action::Doctor,
            Some(Commands::Dispatch { dry_run, urls }) => Action::Dispatch { urls, dry_run },
            Some(Commands::Uninstall) => Action::Uninstall,
            None => if self.urls.len() == 0 {
                Action::PrintHelp
            } else {
                Action::Dispatch { urls: self.urls, dry_run: false }
            },
        }
    }
}

/// A bare URL argument and the explicit `dispatch` subcommand (without
/// `--dry-run`) behave the same way.
pub proof fn lemma_bare_urls_dispatch(config: Option<String>, urls: Vec<String>, rest: Vec<String>)
    requires
        urls@.len() > 0,
    ensures
        (Cli { config, command: None, urls }).action_spec() == (Cli {
            config,
            command: Some(Commands::Dispatch { dry_run: false, urls }),
            urls: rest,
        }).action_spec(),
{
}

} // verus!
