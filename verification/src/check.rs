//! Check/report primitives shared by the health report and the platform
//! modules.

use vstd::prelude::*;

use crate::text;

verus! {

/// How a health check came out.
#[derive(Debug, Clone, Copy, PartialEq, Eq, Structural)]
pub enum Level {
    Pass,
    Warn,
    Fail,
}

impl Level {
    /// The plain-text tag of a level.
    pub open spec fn label_spec(self) -> Seq<char> {
        match self {
            Level::Pass => "PASS"@,
            Level::Warn => "WARN"@,
            Level::Fail => "FAIL"@,
        }
    }

    /// The symbol shown in colored output.
    pub open spec fn symbol_spec(self) -> Seq<char> {
        match self {
            Level::Pass => "\u{2714}"@,
            Level::Warn => "!"@,
            Level::Fail => "\u{2718}"@,
        }
    }

    /// The ANSI color sequence of a level.
    pub open spec fn ansi_spec(self) -> Seq<char> {
        match self {
            Level::Pass => "\x1b[32m"@,
            Level::Warn => "\x1b[33m"@,
            Level::Fail => "\x1b[31m"@,
        }
    }

    /// The word printed for the level.
    pub fn label(self) -> (r: &'static str)
        ensures
            r@ == self.label_spec(),
    {
        match self {
            Level::Pass => "PASS",
            Level::Warn => "WARN",
            Level::Fail => "FAIL",
        }
    }

    /// The mark printed before a check.
    pub fn symbol(self) -> (r: &'static str)
        ensures
            r@ == self.symbol_spec(),
    {
        match self {
            Level::Pass => "\u{2714}",
            Level::Warn => "!",
            Level::Fail => "\u{2718}",
        }
    }

    /// The ANSI color sequence of the level.
    pub fn ansi(self) -> (r: &'static str)
        ensures
            r@ == self.ansi_spec(),
    {
        match self {
            Level::Pass => "\x1b[32m",
            Level::Warn => "\x1b[33m",
            Level::Fail => "\x1b[31m",
        }
    }
}

/// The mathematical content of a [`Check`].
pub struct CheckView {
    pub title: Seq<char>,
    pub level: Level,
    pub detail: Seq<char>,
}

/// One line of a health report: a title, a verdict, and an explanation.
#[derive(Debug)]
pub struct Check {
    pub title: String,
    pub level: Level,
    pub detail: String,
}

impl View for Check {
    type V = CheckView;

    open spec fn view(&self) -> CheckView {
        CheckView { title: self.title@, level: self.level, detail: self.detail@ }
    }
}

/// Views of a list of checks.
pub open spec fn checks_view(checks: Seq<Check>) -> Seq<CheckView> {
    checks.map_values(|c: Check| c@)
}

/// The check with the given parts.
pub open spec fn mk_check(title: Seq<char>, level: Level, detail: Seq<char>) -> CheckView {
    CheckView { title, level, detail }
}

impl Check {
    /// A check that passed.
    pub fn pass(title: String, detail: String) -> (c: Check)
        ensures
            c@ == mk_check(title@, Level::Pass, detail@),
    {
        Check { title, level: Level::Pass, detail }
    }

    /// A check that needs attention.
    pub fn warn(title: String, detail: String) -> (c: Check)
        ensures
            c@ == mk_check(title@, Level::Warn, detail@),
    {
        Check { title, level: Level::Warn, detail }
    }

    /// A check that failed.
    pub fn fail(title: String, detail: String) -> (c: Check)
        ensures
            c@ == mk_check(title@, Level::Fail, detail@),
    {
        Check { title, level: Level::Fail, detail }
    }

    /// A copy of this check.
    pub fn duplicate(&self) -> (c: Check)
        ensures
            c@ == self@,
    {
        Check { title: self.title.clone(), level: self.level, detail: self.detail.clone() }
    }

    /// The lines that the report prints for this check: the verdict and the
    /// title, then (when there is one) the indented detail.
    pub open spec fn render_spec(self, color: bool) -> Seq<Seq<char>> {
        let prefix = if color {
            self.level.ansi_spec() + self.level.symbol_spec() + "\x1b[0m"@
        } else {
            "["@ + self.level.label_spec() + "]"@
        };
        let first = prefix + " "@ + self.title@;
        if self.detail@.len() == 0 {
            seq![first]
        } else {
            seq![first, "       "@ + "  "@ + self.detail@]
        }
    }

    /// Renders the check as the report prints it.
    pub fn render(&self, color: bool) -> (lines: Vec<String>)
        ensures
            lines.deep_view() == self.render_spec(color),
    {
        let prefix = if color {
            text::concat3(self.level.ansi(), self.level.symbol(), "\x1b[0m")
        } else {
            text::concat3("[", self.level.label(), "]")
        };
        let first = text::concat3(prefix.as_str(), " ", self.title.as_str());
        let mut lines: Vec<String> = Vec::new();
        lines.push(first);
        if self.detail.unicode_len() > 0 {
            let second = text::concat3("       ", "  ", self.detail.as_str());
            lines.push(second);
        }
        assert(lines.deep_view() =~= self.render_spec(color));
        lines
    }
}

/// How many checks have the given level.
pub open spec fn count_level(checks: Seq<CheckView>, level: Level) -> nat
    decreases checks.len(),
{
    if checks.len() == 0 {
        0
    } else {
        count_level(checks.drop_last(), level) + if checks.last().level == level {
            1nat
        } else {
            0nat
        }
    }
}

/// Counts the passed, warned, and failed checks.
pub fn summarize(checks: &[Check]) -> (r: (usize, usize, usize))
    ensures
        r.0 == count_level(checks_view(checks@), Level::Pass),
        r.1 == count_level(checks_view(checks@), Level::Warn),
        r.2 == count_level(checks_view(checks@), Level::Fail),
{
    let ghost all = checks_view(checks@);
    let mut pass: usize = 0;
    let mut warn: usize = 0;
    let mut fail: usize = 0;
    let mut i: usize = 0;
    while i < checks.len()
        invariant
            i <= checks@.len(),
            all == checks_view(checks@),
            pass == count_level(all.take(i as int), Level::Pass),
            warn == count_level(all.take(i as int), Level::Warn),
            fail == count_level(all.take(i as int), Level::Fail),
            pass + warn + fail == i,
        decreases checks.len() - i,
    {
        assert(all.take(i + 1).drop_last() =~= all.take(i as int));
        match checks[i].level {
            Level::Pass => pass = pass + 1,
            Level::Warn => warn = warn + 1,
            Level::Fail => fail = fail + 1,
        }
        i = i + 1;
    }
    assert(all.take(checks.len() as int) =~= all);
    (pass, warn, fail)
}

/// Every check is counted exactly once: the three counts add up to the
/// number of checks.
pub proof fn lemma_summary_counts_every_check(checks: Seq<CheckView>)
    ensures
        count_level(checks, Level::Pass) + count_level(checks, Level::Warn) + count_level(
            checks,
            Level::Fail,
        ) == checks.len(),
    decreases checks.len(),
{
    if checks.len() > 0 {
        lemma_summary_counts_every_check(checks.drop_last());
    }
}

/// Counting is additive: the checks of two reports together count as the
/// sum of their counts, level by level.
pub proof fn lemma_counts_add_up(a: Seq<CheckView>, b: Seq<CheckView>, level: Level)
    ensures
        count_level(a + b, level) == count_level(a, level) + count_level(b, level),
    decreases b.len(),
{
    if b.len() == 0 {
        assert(a + b =~= a);
    } else {
        assert((a + b).drop_last() =~= a + b.drop_last());
        lemma_counts_add_up(a, b.drop_last(), level);
    }
}

/// The view of a list with one more check.
pub proof fn lemma_checks_view_push(v: Seq<Check>, c: Check)
    ensures
        checks_view(v.push(c)) == checks_view(v).push(c@),
{
    assert(checks_view(v.push(c)) =~= checks_view(v).push(c@));
}

} // verus!
