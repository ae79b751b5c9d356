//! Calls into `url`, `regex`, `globset`, and std's `Debug` for `str`.
//!
//! Each function here makes one outside call; its contract ties the result to
//! a named function of the arguments, which the rest of the library reasons
//! about.

use vstd::prelude::*;

verus! {

// ---------------------------------------------------------------------------
// url
// ---------------------------------------------------------------------------

/// What `url::Url::parse` gives for an input: on success the serialization,
/// the scheme, and the host (`host_str`); on failure whether the error is
/// `ParseError::RelativeUrlWithoutBase`, and the error's `Display` text.
pub uninterp spec fn url_parse_result(input: Seq<char>) -> Result<
    (Seq<char>, Seq<char>, Option<Seq<char>>),
    (bool, Seq<char>),
>;

/// A parsed absolute URL, as plain strings.
#[derive(Debug)]
pub struct WebUrl {
    /// The full serialization (`Url::as_str`).
    pub serialization: String,
    /// The scheme (`Url::scheme`).
    pub scheme: String,
    /// The host (`Url::host_str`).
    pub host: Option<String>,
}

impl View for WebUrl {
    type V = (Seq<char>, Seq<char>, Option<Seq<char>>);

    open spec fn view(&self) -> (Seq<char>, Seq<char>, Option<Seq<char>>) {
        (self.serialization@, self.scheme@, self.host.deep_view())
    }
}

/// Why `url::Url::parse` refused an input.
#[derive(Debug)]
pub struct UrlProblem {
    /// The error is `ParseError::RelativeUrlWithoutBase`.
    pub relative_without_base: bool,
    /// The error's `Display` text.
    pub message: String,
}

impl View for UrlProblem {
    type V = (bool, Seq<char>);

    open spec fn view(&self) -> (bool, Seq<char>) {
        (self.relative_without_base, self.message@)
    }
}

/// The plain values of a parse outcome.
pub open spec fn parse_outcome_view(r: Result<WebUrl, UrlProblem>) -> Result<
    (Seq<char>, Seq<char>, Option<Seq<char>>),
    (bool, Seq<char>),
> {
    match r {
        Ok(u) => Ok(u@),
        Err(p) => Err(p@),
    }
}

/// `url::Url::parse`: the result is the named function of the input.
#[verifier::external_body]
pub(crate) fn url_parse(input: &str) -> (r: Result<WebUrl, UrlProblem>)
    ensures
        parse_outcome_view(r) == url_parse_result(input@),
{
    match url::Url::parse(input) {
        Ok(u) => Ok(WebUrl {
            serialization: u.as_str().to_string(),
            scheme: u.scheme().to_string(),
            host: u.host_str().map(|h| h.to_string()),
        }),
        Err(e) => Err(UrlProblem {
            relative_without_base: e == url::ParseError::RelativeUrlWithoutBase,
            message: e.to_string(),
        }),
    }
}

// ---------------------------------------------------------------------------
// regex
// ---------------------------------------------------------------------------

/// What `regex::Regex::new` gives for a pattern: `None` when it compiles,
/// otherwise the error's `Display` text.
pub uninterp spec fn regex_new_error(pattern: Seq<char>) -> Option<Seq<char>>;

/// `regex::Regex::new`, keeping only whether it compiled and, if not, the
/// error text.
#[verifier::external_body]
pub(crate) fn regex_error(pattern: &str) -> (r: Option<String>)
    ensures
        r.deep_view() == regex_new_error(pattern@),
{
    match regex::Regex::new(pattern) {
        Ok(_) => None,
        Err(e) => Some(e.to_string()),
    }
}

/// What `Regex::is_match` answers for the compiled `pattern` on `haystack`.
pub uninterp spec fn regex_is_match(pattern: Seq<char>, haystack: Seq<char>) -> bool;

/// `regex::Regex::is_match` on the regex compiled from `pattern`.
#[verifier::external_body]
pub(crate) fn regex_matches(pattern: &str, haystack: &str) -> (r: bool)
    requires
        regex_new_error(pattern@) is None,
    ensures
        r == regex_is_match(pattern@, haystack@),
{
    match regex::Regex::new(pattern) {
        Ok(re) => re.is_match(haystack),
        Err(_) => false,
    }
}

// ---------------------------------------------------------------------------
// globset
// ---------------------------------------------------------------------------

/// The longest glob pattern, in characters, handed to `globset`: far below
/// the size at which the literal matchers that `GlobSet` builds run out of
/// state ids.
pub const GLOB_PATTERN_LIMIT: usize = 0x100_0000;

/// Whether `globset`, with its default options, matches `text` against
/// `pattern`: false when the pattern does not parse or its matcher cannot
/// be built. Only pairs without a backslash are described by it: with one,
/// the answer depends on the operating system (see `glob_match`).
pub uninterp spec fn glob_is_match(pattern: Seq<char>, text: Seq<char>) -> bool;

/// Whether neither the pattern nor the text holds a backslash, so that what
/// `globset` answers is the same on every operating system.
pub open spec fn glob_portable(pattern: Seq<char>, text: Seq<char>) -> bool {
    !pattern.contains('\\') && !text.contains('\\')
}

/// A pattern that `globset` reads as plain text: not empty, and without
/// any of the characters its parser treats specially (`*`, `?`, `[`, `{`,
/// `}`, `\`).
pub open spec fn glob_literal(pattern: Seq<char>) -> bool {
    &&& pattern.len() > 0
    &&& !pattern.contains('*')
    &&& !pattern.contains('?')
    &&& !pattern.contains('[')
    &&& !pattern.contains('{')
    &&& !pattern.contains('}')
    &&& !pattern.contains('\\')
}

/// `globset::Glob::new(pattern)` (default options), put in a one-glob set
/// (`GlobSetBuilder::add`, `build`), then `GlobSet::is_match(text)`; a parse
/// or build error gives `false` (building the set reports a regex that is
/// too large or too deeply nested as an error, where
/// `Glob::compile_matcher` would panic).
///
/// For a pair without a backslash the answer is `glob_is_match`. With a
/// backslash nothing is said of it: globset's default reads `\` in a
/// pattern as an escape on Unix and as a path separator on Windows, and on
/// Windows it rewrites `\` in the text as `/` before matching, so the answer
/// depends on the machine.
///
/// A plain-text pattern (`glob_literal`) parses to literal tokens only
/// (`Parser::parse`, glob.rs), so the set holds it in its literal strategy
/// (`MatchStrategy::new`, `Glob::literal`), which matches exactly the equal
/// text (`LiteralStrategy::is_match`, lib.rs).
#[verifier::external_body]
pub(crate) fn glob_match(pattern: &str, text: &str) -> (r: bool)
    requires
        pattern@.len() <= GLOB_PATTERN_LIMIT,
    ensures
        glob_portable(pattern@, text@) ==> r == glob_is_match(pattern@, text@),
        glob_portable(pattern@, text@) && glob_literal(pattern@) ==> r == (pattern@ == text@),
{
    let glob = match globset::Glob::new(pattern) {
        Ok(g) => g,
        Err(_) => return false,
    };
    match globset::GlobSetBuilder::new().add(glob).build() {
        Ok(set) => set.is_match(text),
        Err(_) => false,
    }
}

// ---------------------------------------------------------------------------
// std: Debug for str
// ---------------------------------------------------------------------------

/// The `Debug` rendering of a string: quoted, with escapes.
pub uninterp spec fn str_debug(s: Seq<char>) -> Seq<char>;

/// `format!("{:?}", s)`.
#[verifier::external_body]
pub(crate) fn debug_quoted(s: &str) -> (r: String)
    ensures
        r@ == str_debug(s@),
{
    format!("{:?}", s)
}

} // verus!
