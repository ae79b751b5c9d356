//! Browser catalog and the operating-system specific registration logic.

use vstd::prelude::*;

use crate::text;
use crate::util::probed;

pub mod linux;
pub mod macos;
pub mod unsupported;
pub mod windows;

verus! {

/// The program's name, as installed.
pub const EXE_NAME: &'static str = "browser-dispatcher";

/// The program's version.
pub const VERSION: &'static str = "0.2.0";

/// The name shown to users and registered with the operating system.
pub const DISPLAY_NAME: &'static str = "Browser Dispatcher";

/// The operating systems the program distinguishes.
#[derive(Debug, Clone, Copy, PartialEq, Eq, Structural)]
pub enum Os {
    Windows,
    Macos,
    Linux,
    Other,
}

/// The name of an operating system.
pub open spec fn os_name_spec(os: Os) -> Seq<char> {
    match os {
        Os::Windows => "windows"@,
        Os::Macos => "macos"@,
        Os::Linux => "linux"@,
        Os::Other => "unsupported"@,
    }
}

/// The short name of an operating system, as shown in reports.
pub fn os_name(os: Os) -> (r: &'static str)
    ensures
        r@ == os_name_spec(os),
{
    match os {
        Os::Windows => "windows",
        Os::Macos => "macos",
        Os::Linux => "linux",
        Os::Other => "unsupported",
    }
}

// ---------------------------------------------------------------------------
// Browser catalog
// ---------------------------------------------------------------------------

/// The operating systems a built-in browser is looked for on.
#[derive(Debug, Clone, Copy, PartialEq, Eq, Structural)]
pub enum OsFilter {
    All,
    Macos,
}

/// A built-in browser.
#[derive(Debug)]
pub struct BrowserDef {
    pub id: &'static str,
    pub name: &'static str,
    /// Flags that open a private/incognito window, e.g. `--incognito`.
    pub private_args: Vec<&'static str>,
    pub os: OsFilter,
}

/// The built-in browser ids, in catalog order.
pub open spec fn catalog_ids() -> Seq<Seq<char>> {
    seq![
        "firefox"@,
        "chrome"@,
        "chromium"@,
        "edge"@,
        "brave"@,
        "vivaldi"@,
        "opera"@,
        "safari"@,
    ]
}

/// Whether `id` is a built-in browser id.
pub open spec fn is_catalog_id(id: Seq<char>) -> bool {
    ||| id == "firefox"@
    ||| id == "chrome"@
    ||| id == "chromium"@
    ||| id == "edge"@
    ||| id == "brave"@
    ||| id == "vivaldi"@
    ||| id == "opera"@
    ||| id == "safari"@
}

/// The display name of a built-in browser.
pub open spec fn catalog_name(id: Seq<char>) -> Seq<char> {
    if id == "firefox"@ {
        "Firefox"@
    } else if id == "chrome"@ {
        "Google Chrome"@
    } else if id == "chromium"@ {
        "Chromium"@
    } else if id == "edge"@ {
        "Microsoft Edge"@
    } else if id == "brave"@ {
        "Brave"@
    } else if id == "vivaldi"@ {
        "Vivaldi"@
    } else if id == "opera"@ {
        "Opera"@
    } else {
        "Safari"@
    }
}

/// The private-window flags of a built-in browser.
pub open spec fn catalog_private_args(id: Seq<char>) -> Seq<Seq<char>> {
    if id == "firefox"@ {
        seq!["-private-window"@]
    } else if id == "safari"@ {
        seq![]
    } else {
        seq!["--incognito"@]
    }
}

/// Which operating systems a built-in browser exists on.
pub open spec fn catalog_os(id: Seq<char>) -> OsFilter {
    if id == "safari"@ {
        OsFilter::Macos
    } else {
        OsFilter::All
    }
}

/// The texts of a sequence of string slices.
pub open spec fn strs_view(v: Seq<&str>) -> Seq<Seq<char>> {
    v.map_values(|s: &str| s@)
}

/// The length and first letter of each catalog id, which tell them apart.
pub proof fn lemma_catalog_id_letters()
    ensures
        "firefox"@.len() == 7 && "firefox"@[0] == 'f',
        "chrome"@.len() == 6 && "chrome"@[0] == 'c',
        "chromium"@.len() == 8 && "chromium"@[0] == 'c',
        "edge"@.len() == 4 && "edge"@[0] == 'e',
        "brave"@.len() == 5 && "brave"@[0] == 'b',
        "vivaldi"@.len() == 7 && "vivaldi"@[0] == 'v',
        "opera"@.len() == 5 && "opera"@[0] == 'o',
        "safari"@.len() == 6 && "safari"@[0] == 's',
{
    reveal_strlit("firefox");
    reveal_strlit("chrome");
    reveal_strlit("chromium");
    reveal_strlit("edge");
    reveal_strlit("brave");
    reveal_strlit("vivaldi");
    reveal_strlit("opera");
    reveal_strlit("safari");
}

impl BrowserDef {
    /// The definition describes the built-in browser `id`.
    pub open spec fn describes(&self, id: Seq<char>) -> bool {
        &&& self.id@ == id
        &&& self.name@ == catalog_name(id)
        &&& strs_view(self.private_args@) == catalog_private_args(id)
        &&& self.os == catalog_os(id)
    }
}

fn def(id: &'static str, name: &'static str, flag: &'static str) -> (d: BrowserDef)
    ensures
        d.id == id,
        d.name == name,
        strs_view(d.private_args@) == seq![flag@],
        d.os == OsFilter::All,
{
    let mut private_args: Vec<&'static str> = Vec::new();
    private_args.push(flag);
    assert(strs_view(private_args@) =~= seq![flag@]);
    BrowserDef { id, name, private_args, os: OsFilter::All }
}

/// The built-in definition of a browser id, if there is one.
pub fn catalog_def(id: &str) -> (r: Option<BrowserDef>)
    ensures
        r is Some <==> is_catalog_id(id@),
        r matches Some(d) ==> d.describes(id@),
{
    proof {
        lemma_catalog_id_letters();
    }
    if text::str_eq(id, "firefox") {
        Some(def("firefox", "Firefox", "-private-window"))
    } else if text::str_eq(id, "chrome") {
        Some(def("chrome", "Google Chrome", "--incognito"))
    } else if text::str_eq(id, "chromium") {
        Some(def("chromium", "Chromium", "--incognito"))
    } else if text::str_eq(id, "edge") {
        Some(def("edge", "Microsoft Edge", "--incognito"))
    } else if text::str_eq(id, "brave") {
        Some(def("brave", "Brave", "--incognito"))
    } else if text::str_eq(id, "vivaldi") {
        Some(def("vivaldi", "Vivaldi", "--incognito"))
    } else if text::str_eq(id, "opera") {
        Some(def("opera", "Opera", "--incognito"))
    } else if text::str_eq(id, "safari") {
        let private_args: Vec<&'static str> = Vec::new();
        assert(strs_view(private_args@) =~= Seq::<Seq<char>>::empty());
        Some(BrowserDef { id: "safari", name: "Safari", private_args, os: OsFilter::Macos })
    } else {
        None
    }
}

/// The ids of the whole catalog, in catalog order.
pub fn known_ids() -> (r: Vec<&'static str>)
    ensures
        strs_view(r@) == catalog_ids(),
{
    let mut r: Vec<&'static str> = Vec::new();
    r.push("firefox");
    r.push("chrome");
    r.push("chromium");
    r.push("edge");
    r.push("brave");
    r.push("vivaldi");
    r.push("opera");
    r.push("safari");
    assert(strs_view(r@) =~= catalog_ids());
    r
}

/// Whether a built-in browser is looked for on the given operating system:
/// browsers marked `All` everywhere, the others on macOS only.
pub open spec fn detectable_on(d: OsFilter, os: Os) -> bool {
    d == OsFilter::All || os == Os::Macos
}

/// The catalog entries that detection looks for on `os`, in catalog order.
pub open spec fn detection_order_spec(os: Os) -> Seq<Seq<char>> {
    if os == Os::Macos {
        catalog_ids()
    } else {
        catalog_ids().take(7)
    }
}

/// The built-in definition of a known catalog id.
fn builtin(id: &'static str) -> (d: BrowserDef)
    requires
        is_catalog_id(id@),
    ensures
        d.describes(id@),
{
    catalog_def(id).unwrap()
}

/// The built-in browsers that detection looks for on `os`, in catalog order.
pub fn detection_candidates(os: Os) -> (r: Vec<BrowserDef>)
    ensures
        r@.len() == detection_order_spec(os).len(),
        forall|i: int|
            0 <= i < r@.len() ==> #[trigger] r@[i].describes(detection_order_spec(os)[i]),
{
    let mut r: Vec<BrowserDef> = Vec::new();
    r.push(builtin("firefox"));
    r.push(builtin("chrome"));
    r.push(builtin("chromium"));
    r.push(builtin("edge"));
    r.push(builtin("brave"));
    r.push(builtin("vivaldi"));
    r.push(builtin("opera"));
    if os == Os::Macos {
        r.push(builtin("safari"));
    }
    assert forall|i: int|
        0 <= i < r@.len() implies #[trigger] r@[i].describes(detection_order_spec(os)[i]) by {
        assert(detection_order_spec(os)[i] == catalog_ids()[i]);
    }
    r
}

/// The outcome of detecting `id`: nothing for an id outside the catalog,
/// else what `locate` found for it.
pub open spec fn found_browser<F: Fn(&str) -> Option<String>>(
    locate: F,
    id: Seq<char>,
    r: Option<String>,
) -> bool {
    if is_catalog_id(id) {
        probed(locate, id, r)
    } else {
        r is None
    }
}

/// Detects the executable of a built-in browser id with `locate`; other ids
/// are not looked for.
pub fn find_browser<F: Fn(&str) -> Option<String>>(id: &str, locate: F) -> (r: Option<String>)
    requires
        forall|s: &str| #[trigger] call_requires(locate, (s,)),
    ensures
        found_browser(locate, id@, r),
{
    if catalog_def(id).is_none() {
        return None;
    }
    let r = locate(id);
    assert(probed(locate, id@, r));
    r
}

/// The ids among the first `n` of `ids` for which a path was found, each
/// with its path, in order.
pub open spec fn keep_found(ids: Seq<Seq<char>>, found: Seq<Option<String>>, n: nat) -> Seq<
    (Seq<char>, Seq<char>),
>
    decreases n,
{
    if n == 0 {
        seq![]
    } else {
        let rest = keep_found(ids, found, (n - 1) as nat);
        match found[n - 1] {
            Some(p) => rest.push((ids[n - 1], p@)),
            None => rest,
        }
    }
}

/// The ids and paths of a detection result.
pub open spec fn detection_view(r: Seq<(BrowserDef, String)>) -> Seq<(Seq<char>, Seq<char>)> {
    r.map_values(|e: (BrowserDef, String)| (e.0.id@, e.1@))
}

/// Detects the built-in browsers looked for on `os`: `find` is asked for
/// each detection candidate in catalog order, and those it finds a path
/// for are kept, with their definitions and paths.
pub fn detect_all<F: Fn(&str) -> Option<String>>(os: Os, find: F) -> (r: Vec<(BrowserDef, String)>)
    requires
        forall|s: &str| #[trigger] call_requires(find, (s,)),
    ensures
        exists|found: Seq<Option<String>>|
            found.len() == detection_order_spec(os).len() && (forall|i: int|
                0 <= i < found.len() ==> probed(find, #[trigger] detection_order_spec(os)[i], found[i]))
                && detection_view(r@) == keep_found(detection_order_spec(os), found, found.len()),
        forall|i: int| 0 <= i < r@.len() ==> #[trigger] r@[i].0.describes(r@[i].0.id@),
{
    let candidates = detection_candidates(os);
    let ghost order = detection_order_spec(os);
    let ghost mut found: Seq<Option<String>> = seq![];
    let mut r: Vec<(BrowserDef, String)> = Vec::new();
    let mut i: usize = 0;
    while i < candidates.len()
        invariant
            i <= candidates@.len(),
            candidates@.len() == order.len(),
            order == detection_order_spec(os),
            forall|j: int|
                0 <= j < candidates@.len() ==> #[trigger] candidates@[j].describes(order[j]),
            found.len() == i,
            forall|s: &str| #[trigger] call_requires(find, (s,)),
            forall|j: int| 0 <= j < i ==> probed(find, #[trigger] order[j], found[j]),
            detection_view(r@) == keep_found(order, found, i as nat),
            forall|j: int| 0 <= j < r@.len() ==> #[trigger] r@[j].0.describes(r@[j].0.id@),
        decreases candidates.len() - i,
    {
        let id = candidates[i].id;
        assert(candidates@[i as int].describes(order[i as int]));
        assert(is_catalog_id(id@)) by {
            assert(order[i as int] == catalog_ids()[i as int]);
        }
        let hit = find(id);
        assert(probed(find, order[i as int], hit));
        let ghost before = r@;
        let ghost prev = found;
        proof {
            found = found.push(hit);
            lemma_keep_found_prefix(order, prev, found, i as nat);
        }
        match hit {
            Some(p) => {
                let def = builtin(id);
                r.push((def, p));
                assert(detection_view(r@) =~= detection_view(before).push((order[i as int], found[i as int]->0@)));
            },
            None => {},
        }
        i = i + 1;
    }
    r
}

/// `keep_found` over a prefix depends only on the answers in that prefix.
proof fn lemma_keep_found_prefix(
    ids: Seq<Seq<char>>,
    a: Seq<Option<String>>,
    b: Seq<Option<String>>,
    n: nat,
)
    requires
        n <= a.len(),
        n <= b.len(),
        forall|j: int| 0 <= j < n ==> a[j] == b[j],
    ensures
        keep_found(ids, a, n) == keep_found(ids, b, n),
    decreases n,
{
    if n > 0 {
        lemma_keep_found_prefix(ids, a, b, (n - 1) as nat);
    }
}

// ---------------------------------------------------------------------------
// Registration
// ---------------------------------------------------------------------------

/// What an installation did, and what is left to the user.
#[derive(Debug)]
pub struct InstallReport {
    /// Steps completed automatically.
    pub automated: Vec<String>,
    /// Steps the user must perform by hand.
    pub manual: Vec<String>,
}

impl InstallReport {
    /// A report with nothing in it.
    pub fn empty() -> (r: InstallReport)
        ensures
            r.automated@.len() == 0,
            r.manual@.len() == 0,
    {
        InstallReport { automated: Vec::new(), manual: Vec::new() }
    }
}

} // verus!
