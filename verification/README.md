# browser_dispatcher

A configurable default browser: it routes each http/https URL to Firefox,
Chrome, Edge, or another browser according to the rules of a TOML
configuration file, and registers itself with Windows, macOS, or Linux as
the system's browser.

The library under `src/` holds the routing logic with its contracts and
proofs, written in Verus:

- `config` — the configuration model, its static validation, and the
  default configuration text;
- `dispatch` — URL normalization, host-glob matching, the first-match-wins
  rule engine, browser resolution, launch plans, the plan of each
  dispatched argument (report, preview, or the browsers to try), and the
  dispatch log lines;
- `platform` — the built-in browser catalog, browser detection (the places
  looked at, in order, with the file-system probes passed in) and, per
  operating system, the registration data (registry values, desktop entry, applet script and
  `Info.plist`) and the registration health checks;
- `doctor` — the health report: which checks it holds, in which order,
  from what was observed (the browser lookup and the self-test are passed
  in), and the rule preview;
- `wizard`, `install`, `cli`, `check` — the decisions of the setup wizard,
  installation, the command line, and the checks' rendering and counts;
- `util` — rule-name slugs, log rotation, path joining, and `PATH` lookup;
- `text` — string helpers tied to their mathematical meaning;
- `bindings` — the calls into `url`, `regex`, and `globset`.

`app/` is the program around the library: argument parsing (clap), reading
and writing the configuration (serde, toml), the interactive prompts
(dialoguer), file system, processes, the registry, and LaunchServices.
