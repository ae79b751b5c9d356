//! Small helpers: rule-name slugs, single-line log fields, log rotation,
//! path joining, and trying candidates in order.

use vstd::prelude::*;

use crate::text;

verus! {

// ---------------------------------------------------------------------------
// Slugs
// ---------------------------------------------------------------------------

/// One step of the slug scan: letters and digits are kept in lowercase, and
/// each run of other characters becomes one `-` (none at the start).
pub open spec fn slug_step(state: (Seq<char>, bool), c: char) -> (Seq<char>, bool) {
    let (out, prev_dash) = state;
    if text::is_ascii_alnum(c) {
        (out.push(text::ascii_lower_char(c)), false)
    } else if !prev_dash {
        (out.push('-'), true)
    } else {
        (out, prev_dash)
    }
}

/// The slug scan over a whole input: the output so far and whether the last
/// thing emitted was a dash (true at the start).
pub open spec fn slug_scan(s: Seq<char>) -> (Seq<char>, bool)
    decreases s.len(),
{
    if s.len() == 0 {
        (Seq::empty(), true)
    } else {
        slug_step(slug_scan(s.drop_last()), s.last())
    }
}

/// `s` without its trailing dashes.
pub open spec fn strip_trailing_dashes(s: Seq<char>) -> Seq<char>
    decreases s.len(),
{
    if s.len() > 0 && s.last() == '-' {
        strip_trailing_dashes(s.drop_last())
    } else {
        s
    }
}

/// The slug of an input; `rule` when nothing is left.
pub open spec fn slug_spec(s: Seq<char>) -> Seq<char> {
    let out = strip_trailing_dashes(slug_scan(s).0);
    if out.len() == 0 {
        "rule"@
    } else {
        out
    }
}

/// Lowercase slug suitable for a rule name.
pub fn slug(input: &str) -> (r: String)
    ensures
        r@ == slug_spec(input@),
{
    let v = text::chars_of(input);
    let mut out: Vec<char> = Vec::new();
    let mut prev_dash = true;
    let mut i: usize = 0;
    while i < v.len()
        invariant
            v@ == input@,
            i <= v.len(),
            (out@, prev_dash) == slug_scan(input@.take(i as int)),
        decreases v.len() - i,
    {
        assert(input@.take(i + 1).drop_last() =~= input@.take(i as int));
        let ch = v[i];
        if text::is_ascii_alnum_char(ch) {
            out.push(text::lower_char(ch));
            prev_dash = false;
        } else if !prev_dash {
            out.push('-');
            prev_dash = true;
        }
        i = i + 1;
    }
    assert(input@.take(v.len() as int) =~= input@);
    let ghost scanned = out@;
    while out.len() > 0 && out[out.len() - 1] == '-'
        invariant
            strip_trailing_dashes(out@) == strip_trailing_dashes(scanned),
        decreases out.len(),
    {
        let ghost before = out@;
        out.pop();
        assert(out@ =~= before.drop_last());
    }
    if out.len() == 0 {
        String::from_str("rule")
    } else {
        text::string_of(out.as_slice())
    }
}

/// The character set of a slug body: lowercase letters, digits, and dashes.
pub open spec fn slug_char(c: char) -> bool {
    ('a' <= c && c <= 'z') || ('0' <= c && c <= '9') || c == '-'
}

/// The shape of slug text: slug characters, no leading dash, no two dashes
/// in a row.
pub open spec fn slug_shaped(s: Seq<char>) -> bool {
    &&& forall|i: int| 0 <= i < s.len() ==> slug_char(#[trigger] s[i])
    &&& s.len() > 0 ==> s[0] != '-'
    &&& forall|i: int| 0 <= i < s.len() - 1 ==> !(#[trigger] s[i] == '-' && s[i + 1] == '-')
}

proof fn lemma_slug_scan_shape(s: Seq<char>)
    ensures
        slug_shaped(slug_scan(s).0),
        slug_scan(s).1 == (slug_scan(s).0.len() == 0 || slug_scan(s).0.last() == '-'),
    decreases s.len(),
{
    if s.len() > 0 {
        lemma_slug_scan_shape(s.drop_last());
        let (out, prev) = slug_scan(s.drop_last());
        let c = s.last();
        if text::is_ascii_alnum(c) {
            let n = out.push(text::ascii_lower_char(c));
            assert forall|i: int| 0 <= i < n.len() implies slug_char(#[trigger] n[i]) by {
                if i < out.len() {
                    assert(n[i] == out[i]);
                }
            }
            assert forall|i: int| 0 <= i < n.len() - 1 implies !(#[trigger] n[i] == '-' && n[i
                + 1] == '-') by {
                if i < out.len() - 1 {
                    assert(n[i] == out[i] && n[i + 1] == out[i + 1]);
                }
            }
        } else if !prev {
            let n = out.push('-');
            assert forall|i: int| 0 <= i < n.len() implies slug_char(#[trigger] n[i]) by {
                if i < out.len() {
                    assert(n[i] == out[i]);
                }
            }
            assert forall|i: int| 0 <= i < n.len() - 1 implies !(#[trigger] n[i] == '-' && n[i
                + 1] == '-') by {
                if i < out.len() - 1 {
                    assert(n[i] == out[i] && n[i + 1] == out[i + 1]);
                }
            }
        }
    }
}

proof fn lemma_strip_keeps_shape(s: Seq<char>)
    requires
        slug_shaped(s),
    ensures
        slug_shaped(strip_trailing_dashes(s)),
        strip_trailing_dashes(s).len() > 0 ==> strip_trailing_dashes(s).last() != '-',
    decreases s.len(),
{
    if s.len() > 0 && s.last() == '-' {
        let t = s.drop_last();
        assert forall|i: int| 0 <= i < t.len() implies slug_char(#[trigger] t[i]) by {
            assert(t[i] == s[i]);
        }
        assert forall|i: int| 0 <= i < t.len() - 1 implies !(#[trigger] t[i] == '-' && t[i + 1]
            == '-') by {
            assert(t[i] == s[i] && t[i + 1] == s[i + 1]);
        }
        lemma_strip_keeps_shape(t);
    }
}

/// A slug is never empty, uses only lowercase letters, digits, and dashes,
/// neither starts nor ends with a dash, and has no two dashes in a row.
pub proof fn lemma_slug_well_formed(input: Seq<char>)
    ensures
        slug_spec(input).len() > 0,
        slug_shaped(slug_spec(input)),
        slug_spec(input).last() != '-',
{
    lemma_slug_scan_shape(input);
    lemma_strip_keeps_shape(slug_scan(input).0);
    reveal_strlit("rule");
}

proof fn lemma_scan_of_shaped(s: Seq<char>)
    requires
        slug_shaped(s),
    ensures
        slug_scan(s) == (s, s.len() == 0 || s.last() == '-'),
    decreases s.len(),
{
    if s.len() > 0 {
        let t = s.drop_last();
        assert forall|i: int| 0 <= i < t.len() implies slug_char(#[trigger] t[i]) by {
            assert(t[i] == s[i]);
        }
        assert forall|i: int| 0 <= i < t.len() - 1 implies !(#[trigger] t[i] == '-' && t[i + 1]
            == '-') by {
            assert(t[i] == s[i] && t[i + 1] == s[i + 1]);
        }
        lemma_scan_of_shaped(t);
        let c = s.last();
        assert(slug_char(s[s.len() - 1]));
        if c == '-' {
            if t.len() > 0 {
                assert(!(s[t.len() - 1] == '-' && s[t.len() as int] == '-'));
            }
        }
        assert(t.push(c) =~= s);
    } else {
        assert(s =~= Seq::<char>::empty());
    }
}

/// Slugging a slug gives it back.
pub proof fn lemma_slug_idempotent(input: Seq<char>)
    ensures
        slug_spec(slug_spec(input)) == slug_spec(input),
{
    lemma_slug_well_formed(input);
    let y = slug_spec(input);
    lemma_scan_of_shaped(y);
}

/// The ASCII letters and digits of `s`, lowercased, in order.
pub open spec fn lowered_alnums(s: Seq<char>) -> Seq<char>
    decreases s.len(),
{
    if s.len() == 0 {
        Seq::empty()
    } else if text::is_ascii_alnum(s.last()) {
        lowered_alnums(s.drop_last()).push(text::ascii_lower_char(s.last()))
    } else {
        lowered_alnums(s.drop_last())
    }
}

/// `s` without its dashes.
pub open spec fn without_dashes(s: Seq<char>) -> Seq<char>
    decreases s.len(),
{
    if s.len() == 0 {
        Seq::empty()
    } else if s.last() == '-' {
        without_dashes(s.drop_last())
    } else {
        without_dashes(s.drop_last()).push(s.last())
    }
}

proof fn lemma_scan_keeps_alnums(s: Seq<char>)
    ensures
        without_dashes(slug_scan(s).0) == lowered_alnums(s),
    decreases s.len(),
{
    if s.len() > 0 {
        lemma_scan_keeps_alnums(s.drop_last());
        let out = slug_scan(s.drop_last()).0;
        let c = s.last();
        if text::is_ascii_alnum(c) {
            let n = out.push(text::ascii_lower_char(c));
            assert(n.drop_last() =~= out);
            assert(text::ascii_lower_char(c) != '-');
        } else if !slug_scan(s.drop_last()).1 {
            assert(out.push('-').drop_last() =~= out);
        }
    }
}

proof fn lemma_strip_keeps_non_dashes(s: Seq<char>)
    ensures
        without_dashes(strip_trailing_dashes(s)) == without_dashes(s),
        strip_trailing_dashes(s).len() == 0 <==> without_dashes(s).len() == 0,
    decreases s.len(),
{
    if s.len() > 0 {
        lemma_strip_keeps_non_dashes(s.drop_last());
        if s.last() != '-' {
            assert(without_dashes(s).len() > 0);
        }
    }
}

/// The slug is `rule` for an input without ASCII letters or digits;
/// otherwise, its dashes aside, it is the input's ASCII letters and digits,
/// lowercased, in order.
pub proof fn lemma_slug_keeps_letters_and_digits(input: Seq<char>)
    ensures
        lowered_alnums(input).len() == 0 ==> slug_spec(input) == "rule"@,
        lowered_alnums(input).len() > 0 ==> without_dashes(slug_spec(input)) == lowered_alnums(
            input,
        ),
{
    lemma_scan_keeps_alnums(input);
    lemma_strip_keeps_non_dashes(slug_scan(input).0);
}

// ---------------------------------------------------------------------------
// Single-line log fields
// ---------------------------------------------------------------------------

/// Replaces line breaks with spaces so that a value fits on one log line.
pub fn single_line(s: &str) -> (r: String)
    ensures
        r@ == text::single_line(s@),
{
    text::single_line_of(s)
}

/// A single-line value has no line breaks and keeps its length.
pub proof fn lemma_single_line_has_no_breaks(s: Seq<char>)
    ensures
        text::single_line(s).len() == s.len(),
        forall|i: int|
            0 <= i < s.len() ==> #[trigger] text::single_line(s)[i] != '\n' && text::single_line(
                s,
            )[i] != '\r',
{
}

// ---------------------------------------------------------------------------
// Log rotation
// ---------------------------------------------------------------------------

/// The log is rotated once it grows past 256 KiB.
pub const LOG_ROTATE_BYTES: u64 = 262144;

/// The number of most recent lines a rotation keeps.
pub const LOG_KEEP_LINES: usize = 500;

/// Whether a log of `len` bytes is due for rotation.
pub fn needs_rotation(len: u64) -> (r: bool)
    ensures
        r == (len > LOG_ROTATE_BYTES),
{
    len > LOG_ROTATE_BYTES
}

/// A line without the `\r` of a `\r\n` ending.
pub open spec fn strip_cr(line: Seq<char>) -> Seq<char> {
    if line.len() > 0 && line.last() == '\r' {
        line.drop_last()
    } else {
        line
    }
}

/// The completed lines and the current partial line after reading `s`.
pub open spec fn line_scan(s: Seq<char>) -> (Seq<Seq<char>>, Seq<char>)
    decreases s.len(),
{
    if s.len() == 0 {
        (seq![], seq![])
    } else {
        let (done, cur) = line_scan(s.drop_last());
        if s.last() == '\n' {
            (done.push(strip_cr(cur)), seq![])
        } else {
            (done, cur.push(s.last()))
        }
    }
}

/// The lines of a text as `str::lines` gives them: split at `\n`, a `\r`
/// before the `\n` removed, the final line ending optional.
pub open spec fn lines_spec(s: Seq<char>) -> Seq<Seq<char>> {
    let (done, cur) = line_scan(s);
    if cur.len() > 0 {
        done.push(cur)
    } else {
        done
    }
}

/// The text a rotation writes back: the last 500 lines, each ended by `\n`.
pub open spec fn rotate_spec(content: Seq<char>) -> Seq<char> {
    let ls = lines_spec(content);
    let keep = if ls.len() > 500 {
        ls.subrange(ls.len() - 500, ls.len() as int)
    } else {
        ls
    };
    text::join(keep, "\n"@) + "\n"@
}

/// Splits a text into lines (`str::lines`).
pub fn lines_of(s: &str) -> (r: Vec<String>)
    ensures
        r.deep_view() == lines_spec(s@),
{
    let v = text::chars_of(s);
    let mut done: Vec<String> = Vec::new();
    let mut cur: Vec<char> = Vec::new();
    let mut i: usize = 0;
    while i < v.len()
        invariant
            v@ == s@,
            i <= v.len(),
            (done.deep_view(), cur@) == line_scan(s@.take(i as int)),
        decreases v.len() - i,
    {
        assert(s@.take(i + 1).drop_last() =~= s@.take(i as int));
        if v[i] == '\n' {
            if cur.len() > 0 && cur[cur.len() - 1] == '\r' {
                cur.pop();
            }
            let line = text::string_of(cur.as_slice());
            let ghost before = done.deep_view();
            done.push(line);
            assert(done.deep_view() =~= before.push(line@));
            cur = Vec::new();
            assert(cur@ =~= Seq::<char>::empty());
        } else {
            cur.push(v[i]);
        }
        i = i + 1;
    }
    assert(s@.take(v.len() as int) =~= s@);
    if cur.len() > 0 {
        let line = text::string_of(cur.as_slice());
        let ghost before = done.deep_view();
        done.push(line);
        assert(done.deep_view() =~= before.push(line@));
    }
    done
}

/// The text kept when the log is rotated: its last 500 lines.
pub fn rotated_log(content: &str) -> (r: String)
    ensures
        r@ == rotate_spec(content@),
{
    let ls = lines_of(content);
    let n = ls.len();
    let start: usize = if n > LOG_KEEP_LINES {
        n - LOG_KEEP_LINES
    } else {
        0
    };
    let mut keep: Vec<&str> = Vec::new();
    let mut i: usize = start;
    while i < n
        invariant
            n == ls.len(),
            start <= i <= n,
            keep@.len() == i - start,
            forall|k: int| 0 <= k < i - start ==> #[trigger] keep@[k]@ == ls@[start + k]@,
        decreases n - i,
    {
        keep.push(ls[i].as_str());
        i = i + 1;
    }
    let ghost lv = lines_spec(content@);
    assert(keep@.map_values(|p: &str| p@) =~= if lv.len() > 500 {
        lv.subrange(lv.len() - 500, lv.len() as int)
    } else {
        lv
    });
    let mut r = text::join_strs(&keep, "\n");
    r.append("\n");
    r
}

/// The last `n` lines of a text (all of them when there are fewer), in
/// order.
pub open spec fn last_lines_spec(content: Seq<char>, n: nat) -> Seq<Seq<char>> {
    let ls = lines_spec(content);
    if ls.len() > n {
        ls.subrange(ls.len() - n, ls.len() as int)
    } else {
        ls
    }
}

/// The most recent `n` lines of a log.
pub fn last_lines(content: &str, n: usize) -> (r: Vec<String>)
    ensures
        r.deep_view() == last_lines_spec(content@, n as nat),
{
    let ls = lines_of(content);
    let len = ls.len();
    let start: usize = if len > n {
        len - n
    } else {
        0
    };
    let mut r: Vec<String> = Vec::new();
    let mut i: usize = start;
    while i < len
        invariant
            len == ls.len(),
            start <= i <= len,
            r@.len() == i - start,
            forall|k: int| 0 <= k < i - start ==> #[trigger] r@[k]@ == ls@[start + k]@,
        decreases len - i,
    {
        r.push(ls[i].clone());
        i = i + 1;
    }
    assert(r.deep_view() =~= last_lines_spec(content@, n as nat));
    r
}

/// A rotation keeps at most 500 lines, and they are the last lines of the
/// log, in order.
pub proof fn lemma_rotation_keeps_last_lines(content: Seq<char>)
    ensures
        ({
            let ls = lines_spec(content);
            let keep = if ls.len() > 500 {
                ls.subrange(ls.len() - 500, ls.len() as int)
            } else {
                ls
            };
            &&& keep.len() <= 500
            &&& keep.len() == if ls.len() > 500 { 500 } else { ls.len() }
            &&& forall|k: int|
                0 <= k < keep.len() ==> #[trigger] keep[k] == ls[ls.len() - keep.len() + k]
            &&& rotate_spec(content) == text::join(keep, "\n"@) + "\n"@
        }),
{
}

// ---------------------------------------------------------------------------
// Colors
// ---------------------------------------------------------------------------

/// Colors are used when `NO_COLOR` is unset and standard output is a
/// terminal.
pub fn use_color(no_color_set: bool, stdout_is_tty: bool) -> (r: bool)
    ensures
        r == (!no_color_set && stdout_is_tty),
{
    !no_color_set && stdout_is_tty
}


/// `probe` answered `found` for some string whose text is `name`.
pub open spec fn probed<F: Fn(&str) -> Option<String>>(
    probe: F,
    name: Seq<char>,
    found: Option<String>,
) -> bool {
    exists|s: &str| s@ == name && #[trigger] call_ensures(probe, (s,), found)
}

/// The outcome of trying `names` in order with `probe`: nothing found for
/// any of them, or the answer for one of them after nothing was found for
/// each before it.
pub open spec fn probed_in_order<F: Fn(&str) -> Option<String>>(
    probe: F,
    names: Seq<Seq<char>>,
    r: Option<String>,
) -> bool {
    match r {
        None => forall|i: int| 0 <= i < names.len() ==> probed(probe, #[trigger] names[i], None),
        Some(_) => exists|k: int|
            0 <= k < names.len() && probed(probe, #[trigger] names[k], r) && forall|j: int|
                0 <= j < k ==> probed(probe, #[trigger] names[j], None),
    }
}

/// `test` answered `b` for some string whose text is `path`.
pub open spec fn tested<F: Fn(&str) -> bool>(test: F, path: Seq<char>, b: bool) -> bool {
    exists|s: &str| s@ == path && #[trigger] call_ensures(test, (s,), b)
}

/// A candidate path that `test` did not accept: there is none, or `test`
/// answered `false` for it.
pub open spec fn passed_over<F: Fn(&str) -> bool>(test: F, path: Option<Seq<char>>) -> bool {
    match path {
        None => true,
        Some(p) => tested(test, p, false),
    }
}

/// The result of the first candidate for which `probe` finds something,
/// trying the candidates in order.
pub fn first_found<F: Fn(&str) -> Option<String>>(candidates: &Vec<&str>, probe: F) -> (r: Option<
    String,
>)
    requires
        forall|s: &str| #[trigger] call_requires(probe, (s,)),
    ensures
        probed_in_order(probe, candidates@.map_values(|c: &str| c@), r),
{
    let ghost names = candidates@.map_values(|c: &str| c@);
    let mut i: usize = 0;
    while i < candidates.len()
        invariant
            i <= candidates@.len(),
            names == candidates@.map_values(|c: &str| c@),
            forall|s: &str| #[trigger] call_requires(probe, (s,)),
            forall|j: int| 0 <= j < i ==> probed(probe, #[trigger] names[j], None),
        decreases candidates.len() - i,
    {
        let c = candidates[i];
        let found = probe(c);
        assert(names[i as int] == c@);
        if found.is_some() {
            assert(probed(probe, names[i as int], found));
            return found;
        }
        assert(probed(probe, names[i as int], None));
        i = i + 1;
    }
    None
}

/// The first of `paths` that `test` accepts, trying them in order; nothing
/// when it turns each of them down.
pub open spec fn accepted_first<F: Fn(&str) -> bool>(
    test: F,
    paths: Seq<Seq<char>>,
    r: Option<String>,
) -> bool {
    match r {
        None => forall|i: int| 0 <= i < paths.len() ==> tested(test, #[trigger] paths[i], false),
        Some(p) => exists|k: int|
            0 <= k < paths.len() && p@ == #[trigger] paths[k] && tested(test, p@, true) && forall|
                j: int,
            | 0 <= j < k ==> tested(test, #[trigger] paths[j], false),
    }
}

/// The first of `paths` that `test` accepts, trying them in order.
pub fn first_accepted<F: Fn(&str) -> bool>(paths: &Vec<String>, test: F) -> (r: Option<String>)
    requires
        forall|s: &str| #[trigger] call_requires(test, (s,)),
    ensures
        accepted_first(test, paths.deep_view(), r),
{
    let ghost views = paths.deep_view();
    let mut i: usize = 0;
    while i < paths.len()
        invariant
            i <= paths@.len(),
            views == paths.deep_view(),
            forall|s: &str| #[trigger] call_requires(test, (s,)),
            forall|j: int| 0 <= j < i ==> tested(test, #[trigger] views[j], false),
        decreases paths.len() - i,
    {
        let ps = paths[i].as_str();
        let hit = test(ps);
        assert(views[i as int] == ps@);
        assert(tested(test, views[i as int], hit));
        if hit {
            let p = paths[i].clone();
            return Some(p);
        }
        i = i + 1;
    }
    None
}

/// `base` joined with the relative path `rel`: one `/` between them, none
/// after an empty base or one that already ends in `/`.
pub open spec fn join_path_spec(base: Seq<char>, rel: Seq<char>) -> Seq<char> {
    if base.len() == 0 || base.last() == '/' {
        base + rel
    } else {
        base + seq!['/'] + rel
    }
}

/// Joins a relative path onto `base`.
pub fn join_path(base: &str, rel: &str) -> (r: String)
    ensures
        r@ == join_path_spec(base@, rel@),
{
    proof {
        reveal_strlit("/");
    }
    if base.unicode_len() == 0 {
        return text::concat(base, rel);
    }
    let ends = text::has_suffix(base, "/");
    assert(ends == (base@.last() == '/')) by {
        if base@.last() == '/' {
            assert(base@.subrange(base@.len() - 1, base@.len() as int) =~= "/"@);
        }
        if ends {
            assert(base@.subrange(base@.len() - 1, base@.len() as int)[0] == base@.last());
        }
    }
    if ends {
        text::concat(base, rel)
    } else {
        text::concat3(base, "/", rel)
    }
}

/// The places `find_in_path` tries for `name`: `name` itself when it holds
/// a path separator, else `name` in each non-empty directory of `PATH`, in
/// order (none when `PATH` is unset).
pub open spec fn path_candidates(name: Seq<char>, dirs: Option<Seq<Seq<char>>>) -> Seq<Seq<char>> {
    if name.contains('/') || name.contains('\\') {
        seq![name]
    } else {
        match dirs {
            None => seq![],
            Some(d) => d.filter(|dir: Seq<char>| dir.len() > 0).map_values(
                |dir: Seq<char>| join_path_spec(dir, name),
            ),
        }
    }
}

/// Looks `name` up on `PATH` (`dirs`, its directories): the first candidate
/// that `is_executable` accepts.
pub fn find_in_path<F: Fn(&str) -> bool>(name: &str, dirs: Option<&Vec<String>>, is_executable: F) -> (r:
    Option<String>)
    requires
        forall|s: &str| #[trigger] call_requires(is_executable, (s,)),
    ensures
        accepted_first(
            is_executable,
            path_candidates(
                name@,
                match dirs {
                    Some(d) => Some(d.deep_view()),
                    None => None,
                },
            ),
            r,
        ),
{
    let mut cands: Vec<String> = Vec::new();
    if text::contains_char(name, '/') || text::contains_char(name, '\\') {
        cands.push(String::from_str(name));
        assert(cands.deep_view() =~= seq![name@]);
        return first_accepted(&cands, is_executable);
    }
    let dirs = match dirs {
        Some(d) => d,
        None => {
            assert(cands.deep_view() =~= Seq::<Seq<char>>::empty());
            return first_accepted(&cands, is_executable);
        },
    };
    let ghost views = dirs.deep_view();
    let ghost keep = |dir: Seq<char>| dir.len() > 0;
    let ghost join = |dir: Seq<char>| join_path_spec(dir, name@);
    let mut i: usize = 0;
    while i < dirs.len()
        invariant
            i <= dirs@.len(),
            views == dirs.deep_view(),
            keep == (|dir: Seq<char>| dir.len() > 0),
            join == (|dir: Seq<char>| join_path_spec(dir, name@)),
            cands.deep_view() == views.take(i as int).filter(keep).map_values(join),
        decreases dirs.len() - i,
    {
        let dir = dirs[i].as_str();
        if dir.unicode_len() > 0 {
            let c = join_path(dir, name);
            let ghost before = cands.deep_view();
            cands.push(c);
            proof {
                views.take(i as int).lemma_filter_push(views[i as int], keep);
                assert(views.take(i + 1) =~= views.take(i as int).push(views[i as int]));
                assert(views[i as int] == dir@);
                assert(keep(views[i as int]));
                let f = views.take(i as int).filter(keep);
                assert(views.take(i + 1).filter(keep) == f.push(views[i as int]));
                assert(f.push(views[i as int]).map_values(join) =~= f.map_values(join).push(
                    join(views[i as int]),
                ));
                assert(cands.deep_view() =~= before.push(c@));
            }
            assert(cands.deep_view() =~= views.take(i + 1).filter(keep).map_values(join));
        } else {
            proof {
                views.take(i as int).lemma_filter_push(views[i as int], keep);
                assert(views.take(i + 1) =~= views.take(i as int).push(views[i as int]));
            }
            assert(cands.deep_view() =~= views.take(i + 1).filter(keep).map_values(join));
        }
        i = i + 1;
    }
    assert(views.take(dirs@.len() as int) =~= views);
    first_accepted(&cands, is_executable)
}

} // verus!

