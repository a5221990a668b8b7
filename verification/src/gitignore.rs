//! The ignore-pattern compiler: translates the text of a `.gitignore` /
//! `.ignore` file, or of a darcs `boring` file, into the list of regex
//! pattern strings its dialect denotes, and compiles them into a
//! [`PatternSet`].
//!
//! The gitignore dialect translates glob metacharacters per line (`*` to
//! `.*`, `?` to `.`, a literal `.` or `+` escaped), anchors each line at its
//! end, and drops comment lines — the leading one and any full line opened
//! by `#` — while a `#` in mid-line swallows the rest of that line. The
//! darcs dialect passes lines through as literal patterns, recognizing only
//! the escapes `\_` (a literal underscore) and `\`, with the same comment
//! handling.
//! Negation prefixes (`!`) are deliberately not supported: such a line is
//! compiled literally. Malformed input never fails: it yields a set that
//! matches nothing.

use vstd::prelude::*;

verus! {

use crate::matcher::PatternSet;
use crate::matcher::regex_set_accepts;
use crate::strutil::is_space;
use crate::strutil::is_space_exec;
use crate::strutil::push_char;

/// The first position at or after `i` whose character satisfies `pred`, or
/// the length of `s` if none does.
pub open spec fn scan_to(s: Seq<char>, pred: spec_fn(char) -> bool, i: int) -> int
    decreases s.len() - i,
{
    if i < 0 || i >= s.len() {
        s.len() as int
    } else if pred(s[i]) {
        i
    } else {
        scan_to(s, pred, i + 1)
    }
}

pub proof fn lemma_scan_to(s: Seq<char>, pred: spec_fn(char) -> bool, i: int)
    requires
        0 <= i <= s.len(),
    ensures
        i <= scan_to(s, pred, i) <= s.len(),
        forall|m: int| i <= m < scan_to(s, pred, i) ==> !pred(s[m]),
        scan_to(s, pred, i) < s.len() ==> pred(s[scan_to(s, pred, i)]),
    decreases s.len() - i,
{
    if i < s.len() && !pred(s[i]) {
        lemma_scan_to(s, pred, i + 1);
    }
}

/// A scan result is determined by its characterization.
pub proof fn lemma_scan_to_unique(s: Seq<char>, pred: spec_fn(char) -> bool, i: int, j: int)
    requires
        0 <= i <= j <= s.len(),
        forall|m: int| i <= m < j ==> !pred(s[m]),
        j < s.len() ==> pred(s[j]),
    ensures
        scan_to(s, pred, i) == j,
    decreases j - i,
{
    if i < j {
        lemma_scan_to_unique(s, pred, i + 1, j);
    }
}

/// Prepend a fixed emission to the rest of a translation, propagating
/// failure.
pub open spec fn emit(piece: Seq<char>, rest: Option<Seq<char>>) -> Option<Seq<char>> {
    match rest {
        Some(t) => Some(piece + t),
        None => None,
    }
}

/// A gitignore metacharacter, or a character otherwise treated specially.
pub open spec fn gi_special(c: char) -> bool {
    c == '*' || c == '?' || c == '+' || c == '.' || c == '#' || c == '\n'
}

/// A character special to the darcs boring dialect.
pub open spec fn darcs_special(c: char) -> bool {
    c == '\\' || c == '#'
}

pub open spec fn is_newline(c: char) -> bool {
    c == '\n'
}

/// The line-by-line gitignore translation, starting at position `i`: each line
/// end becomes `$` plus a break, a literal run passes through, `*` becomes
/// `.*`, `?` becomes `.`, `.` and `+` are escaped. A `#` opening a line
/// drops that whole comment line, terminator included; a `#` in mid-line
/// swallows the rest of the line. `None` marks the inputs the translator
/// rejects outright (a trailing `*` or `?` with no line end).
pub open spec fn gi_body(s: Seq<char>, i: int) -> Option<Seq<char>>
    decreases s.len() - i,
    when 0 <= i <= s.len()
    via gi_body_decreases
{
    if i >= s.len() {
        Some(Seq::<char>::empty())
    } else {
        let c = s[i];
        if c == '\n' {
            emit("$\n"@, gi_body(s, i + 1))
        } else if !gi_special(c) {
            let j = scan_to(s, |ch: char| gi_special(ch), i);
            emit(s.subrange(i, j), gi_body(s, j))
        } else if c == '*' {
            if i + 1 == s.len() {
                None
            } else if s[i + 1] == '\n' && i + 2 == s.len() {
                emit(".*"@, gi_body(s, i + 2))
            } else {
                emit(".*"@, gi_body(s, i + 1))
            }
        } else if c == '?' {
            if i + 1 == s.len() {
                None
            } else if s[i + 1] == '\n' && i + 2 == s.len() {
                emit("."@, gi_body(s, i + 2))
            } else {
                emit("."@, gi_body(s, i + 1))
            }
        } else if c == '.' {
            emit("\\."@, gi_body(s, i + 1))
        } else if c == '+' {
            emit("\\+"@, gi_body(s, i + 1))
        } else {
            let j = scan_to(s, |ch: char| is_newline(ch), i);
            if i == 0 || s[i - 1] == '\n' {
                if j >= s.len() {
                    gi_body(s, j)
                } else {
                    gi_body(s, j + 1)
                }
            } else {
                emit("#"@, gi_body(s, j))
            }
        }
    }
}

#[via_fn]
proof fn gi_body_decreases(s: Seq<char>, i: int) {
    if 0 <= i < s.len() {
        let c = s[i];
        if c != '\n' && !gi_special(c) {
            lemma_scan_to(s, |ch: char| gi_special(ch), i);
            lemma_scan_to_unique(s, |ch: char| gi_special(ch), i, scan_to(s, |ch: char| gi_special(ch), i));
        } else if gi_special(c) && c != '\n' && c != '*' && c != '?' && c != '.' && c != '+' {
            lemma_scan_to(s, |ch: char| is_newline(ch), i);
        }
    }
}

/// Where the body translation starts, after the optional leading comment
/// line, and the piece that line emits. `None` marks rejection: an input
/// whose leading comment line never ends.
pub open spec fn gi_head(s: Seq<char>) -> Option<(Seq<char>, int)> {
    if s.len() == 0 {
        None
    } else if s[0] == '#' {
        if s.len() == 1 {
            None
        } else if s[1] == '\n' {
            Some((Seq::<char>::empty(), 0))
        } else {
            let j = scan_to(s, |ch: char| is_newline(ch), 1);
            if j == s.len() {
                None
            } else {
                Some(("\n"@, j + 1))
            }
        }
    } else {
        Some((Seq::<char>::empty(), 0))
    }
}

/// The whole gitignore translation: the joined emission, or `None` where
/// the translator rejects the input (which compiles to an empty set).
pub open spec fn gi_translate(s: Seq<char>) -> Option<Seq<char>> {
    match gi_head(s) {
        None => None,
        Some((piece, start)) => emit(piece, gi_body(s, start)),
    }
}

fn scan_nl(s: &str, i: usize) -> (j: usize)
    requires
        i <= s@.len(),
    ensures
        j == scan_to(s@, |ch: char| is_newline(ch), i as int),
        i <= j <= s@.len(),
        forall|m: int| i <= m < j ==> !is_newline(s@[m]),
        j < s@.len() ==> is_newline(s@[j as int]),
{
    let n = s.unicode_len();
    let mut j = i;
    while j < n && s.get_char(j) != '\n'
        invariant
            n == s@.len(),
            i <= j <= n,
            forall|m: int| i <= m < j ==> !is_newline(s@[m]),
        decreases n - j,
    {
        j = j + 1;
    }
    proof {
        lemma_scan_to_unique(s@, |ch: char| is_newline(ch), i as int, j as int);
    }
    j
}

fn gi_special_exec(c: char) -> (r: bool)
    ensures
        r == gi_special(c),
{
    c == '*' || c == '?' || c == '+' || c == '.' || c == '#' || c == '\n'
}

fn scan_gi(s: &str, i: usize) -> (j: usize)
    requires
        i <= s@.len(),
    ensures
        j == scan_to(s@, |ch: char| gi_special(ch), i as int),
        i <= j <= s@.len(),
        forall|m: int| i <= m < j ==> !gi_special(s@[m]),
        j < s@.len() ==> gi_special(s@[j as int]),
{
    let n = s.unicode_len();
    let mut j = i;
    while j < n && !gi_special_exec(s.get_char(j))
        invariant
            n == s@.len(),
            i <= j <= n,
            forall|m: int| i <= m < j ==> !gi_special(s@[m]),
        decreases n - j,
    {
        j = j + 1;
    }
    proof {
        lemma_scan_to_unique(s@, |ch: char| gi_special(ch), i as int, j as int);
    }
    j
}

fn darcs_special_exec(c: char) -> (r: bool)
    ensures
        r == darcs_special(c),
{
    c == '\\' || c == '#'
}

fn scan_darcs(s: &str, i: usize) -> (j: usize)
    requires
        i <= s@.len(),
    ensures
        j == scan_to(s@, |ch: char| darcs_special(ch), i as int),
        i <= j <= s@.len(),
        forall|m: int| i <= m < j ==> !darcs_special(s@[m]),
        j < s@.len() ==> darcs_special(s@[j as int]),
{
    let n = s.unicode_len();
    let mut j = i;
    while j < n && !darcs_special_exec(s.get_char(j))
        invariant
            n == s@.len(),
            i <= j <= n,
            forall|m: int| i <= m < j ==> !darcs_special(s@[m]),
        decreases n - j,
    {
        j = j + 1;
    }
    proof {
        lemma_scan_to_unique(s@, |ch: char| darcs_special(ch), i as int, j as int);
    }
    j
}

/// Append `s[i..j]` to `out`.
fn append_range(out: &mut String, s: &str, i: usize, j: usize)
    requires
        i <= j <= s@.len(),
    ensures
        final(out)@ == old(out)@ + s@.subrange(i as int, j as int),
{
    let mut k = i;
    while k < j
        invariant
            i <= k <= j <= s@.len(),
            out@ == old(out)@ + s@.subrange(i as int, k as int),
        decreases j - k,
    {
        push_char(out, s.get_char(k));
        proof {
            assert(old(out)@ + s@.subrange(i as int, k + 1) =~= (old(out)@ + s@.subrange(
                i as int,
                k as int,
            )).push(s@[k as int]));
        }
        k = k + 1;
    }
    proof {
        assert(out@ =~= old(out)@ + s@.subrange(i as int, j as int));
    }
}

/// The executable gitignore translator.
fn translate_gitignore(file: &str) -> (r: Option<String>)
    ensures
        match r {
            Some(t) => gi_translate(file@) == Some(t@),
            None => gi_translate(file@) is None,
        },
{
    let n = file.unicode_len();
    if n == 0 {
        return None;
    }
    let mut out = String::new();
    let mut i: usize = 0;
    if file.get_char(0) == '#' {
        if n == 1 {
            return None;
        }
        if file.get_char(1) == '\n' {
            // the would-be comment line is empty: no leading line is stripped
        } else {
            let j = scan_nl(file, 1);
            if j == n {
                return None;
            }
            out.append("\n");
            i = j + 1;
        }
    }
    proof {
        assert(gi_translate(file@) == emit(out@, gi_body(file@, i as int)));
    }
    while i < n
        invariant
            n == file@.len(),
            0 <= i <= n,
            gi_translate(file@) == emit(out@, gi_body(file@, i as int)),
        decreases n - i,
    {
        let ghost out0 = out@;
        let ghost i0 = i as int;
        let ghost mut piece: Seq<char> = Seq::empty();
        let c = file.get_char(i);
        if c == '\n' {
            out.append("$\n");
            i = i + 1;
            proof {
                piece = "$\n"@;
            }
        } else if !gi_special_exec(c) {
            let j = scan_gi(file, i);
            append_range(&mut out, file, i, j);
            i = j;
            proof {
                piece = file@.subrange(i0, j as int);
            }
        } else if c == '*' {
            if i + 1 == n {
                proof {
                    assert(gi_body(file@, i0) is None);
                }
                return None;
            }
            out.append(".*");
            if file.get_char(i + 1) == '\n' && i + 2 == n {
                i = i + 2;
            } else {
                i = i + 1;
            }
            proof {
                piece = ".*"@;
            }
        } else if c == '?' {
            if i + 1 == n {
                proof {
                    assert(gi_body(file@, i0) is None);
                }
                return None;
            }
            out.append(".");
            if file.get_char(i + 1) == '\n' && i + 2 == n {
                i = i + 2;
            } else {
                i = i + 1;
            }
            proof {
                piece = "."@;
            }
        } else if c == '.' {
            out.append("\\.");
            i = i + 1;
            proof {
                piece = "\\."@;
            }
        } else if c == '+' {
            out.append("\\+");
            i = i + 1;
            proof {
                piece = "\\+"@;
            }
        } else {
            let line_start = i == 0 || file.get_char(i - 1) == '\n';
            let j = scan_nl(file, i);
            if line_start {
                if j == n {
                    i = n;
                } else {
                    i = j + 1;
                }
                proof {
                    assert(c == '#');
                    assert(out0 + piece =~= out0);
                    match gi_body(file@, i as int) {
                        Some(t) => {
                            assert(piece + t =~= t);
                        },
                        None => {},
                    }
                }
            } else {
                out.append("#");
                i = j;
                proof {
                    assert(c == '#');
                    piece = "#"@;
                }
            }
        }
        proof {
            assert(out@ == out0 + piece);
            assert(gi_body(file@, i0) == emit(piece, gi_body(file@, i as int)));
            match gi_body(file@, i as int) {
                Some(t) => {
                    assert((out0 + piece) + t =~= out0 + (piece + t));
                },
                None => {},
            }
        }
    }
    proof {
        assert(gi_body(file@, n as int) == Some(Seq::<char>::empty()));
        assert(out@ + Seq::<char>::empty() =~= out@);
    }
    Some(out)
}

/// The darcs boring-file translation, starting at position `i`: characters pass
/// through literally, `\_` unescapes to an underscore, a lone backslash
/// passes through. A `#` opening a line drops that whole comment line,
/// terminator included; a `#` in mid-line swallows the rest of the line.
/// `None` marks the rejected inputs: those ending in a bare backslash.
pub open spec fn darcs_body(s: Seq<char>, i: int) -> Option<Seq<char>>
    decreases s.len() - i,
    when 0 <= i <= s.len()
    via darcs_body_decreases
{
    if i >= s.len() {
        Some(Seq::<char>::empty())
    } else {
        let c = s[i];
        if !darcs_special(c) {
            let j = scan_to(s, |ch: char| darcs_special(ch), i);
            emit(s.subrange(i, j), darcs_body(s, j))
        } else if c == '\\' {
            if i + 1 == s.len() {
                None
            } else if s[i + 1] == '_' {
                emit("_"@, darcs_body(s, i + 2))
            } else {
                emit("\\"@, darcs_body(s, i + 1))
            }
        } else {
            let j = scan_to(s, |ch: char| is_newline(ch), i);
            if i == 0 || s[i - 1] == '\n' {
                if j >= s.len() {
                    darcs_body(s, j)
                } else {
                    darcs_body(s, j + 1)
                }
            } else {
                emit("#"@, darcs_body(s, j))
            }
        }
    }
}

#[via_fn]
proof fn darcs_body_decreases(s: Seq<char>, i: int) {
    if 0 <= i < s.len() {
        let c = s[i];
        if !darcs_special(c) {
            lemma_scan_to(s, |ch: char| darcs_special(ch), i);
        } else if c != '\\' {
            lemma_scan_to(s, |ch: char| is_newline(ch), i);
        }
    }
}

/// The whole darcs translation, with the same leading-comment-line handling
/// as the gitignore dialect.
pub open spec fn darcs_translate(s: Seq<char>) -> Option<Seq<char>> {
    match gi_head(s) {
        None => None,
        Some((piece, start)) => emit(piece, darcs_body(s, start)),
    }
}

/// The executable darcs translator.
fn translate_darcs(file: &str) -> (r: Option<String>)
    ensures
        match r {
            Some(t) => darcs_translate(file@) == Some(t@),
            None => darcs_translate(file@) is None,
        },
{
    let n = file.unicode_len();
    if n == 0 {
        return None;
    }
    let mut out = String::new();
    let mut i: usize = 0;
    if file.get_char(0) == '#' {
        if n == 1 {
            return None;
        }
        if file.get_char(1) == '\n' {
            // the would-be comment line is empty: no leading line is stripped
        } else {
            let j = scan_nl(file, 1);
            if j == n {
                return None;
            }
            out.append("\n");
            i = j + 1;
        }
    }
    proof {
        assert(darcs_translate(file@) == emit(out@, darcs_body(file@, i as int)));
    }
    while i < n
        invariant
            n == file@.len(),
            0 <= i <= n,
            darcs_translate(file@) == emit(out@, darcs_body(file@, i as int)),
        decreases n - i,
    {
        let ghost out0 = out@;
        let ghost i0 = i as int;
        let ghost mut piece: Seq<char> = Seq::empty();
        let c = file.get_char(i);
        if !darcs_special_exec(c) {
            let j = scan_darcs(file, i);
            append_range(&mut out, file, i, j);
            i = j;
            proof {
                piece = file@.subrange(i0, j as int);
            }
        } else if c == '\\' {
            if i + 1 == n {
                proof {
                    assert(darcs_body(file@, i0) is None);
                }
                return None;
            }
            if file.get_char(i + 1) == '_' {
                out.append("_");
                i = i + 2;
                proof {
                    piece = "_"@;
                }
            } else {
                out.append("\\");
                i = i + 1;
                proof {
                    piece = "\\"@;
                }
            }
        } else {
            let line_start = i == 0 || file.get_char(i - 1) == '\n';
            let j = scan_nl(file, i);
            if line_start {
                if j == n {
                    i = n;
                } else {
                    i = j + 1;
                }
                proof {
                    assert(c == '#');
                    assert(out0 + piece =~= out0);
                    match darcs_body(file@, i as int) {
                        Some(t) => {
                            assert(piece + t =~= t);
                        },
                        None => {},
                    }
                }
            } else {
                out.append("#");
                i = j;
                proof {
                    assert(c == '#');
                    piece = "#"@;
                }
            }
        }
        proof {
            assert(out@ == out0 + piece);
            assert(darcs_body(file@, i0) == emit(piece, darcs_body(file@, i as int)));
            match darcs_body(file@, i as int) {
                Some(t) => {
                    assert((out0 + piece) + t =~= out0 + (piece + t));
                },
                None => {},
            }
        }
    }
    proof {
        assert(darcs_body(file@, n as int) == Some(Seq::<char>::empty()));
        assert(out@ + Seq::<char>::empty() =~= out@);
    }
    Some(out)
}

/// The whitespace-separated tokens of `t` from position `i` on.
pub open spec fn split_ws_at(t: Seq<char>, i: int) -> Seq<Seq<char>>
    decreases t.len() - i,
    when 0 <= i <= t.len()
    via split_ws_at_decreases
{
    if i >= t.len() {
        Seq::<Seq<char>>::empty()
    } else if is_space(t[i]) {
        split_ws_at(t, i + 1)
    } else {
        let j = scan_to(t, |ch: char| is_space(ch), i);
        seq![t.subrange(i, j)] + split_ws_at(t, j)
    }
}

#[via_fn]
proof fn split_ws_at_decreases(t: Seq<char>, i: int) {
    if 0 <= i < t.len() && !is_space(t[i]) {
        lemma_scan_to(t, |ch: char| is_space(ch), i);
    }
}

fn scan_space(s: &str, i: usize) -> (j: usize)
    requires
        i <= s@.len(),
    ensures
        j == scan_to(s@, |ch: char| is_space(ch), i as int),
        i <= j <= s@.len(),
        forall|m: int| i <= m < j ==> !is_space(s@[m]),
        j < s@.len() ==> is_space(s@[j as int]),
{
    let n = s.unicode_len();
    let mut j = i;
    while j < n && !is_space_exec(s.get_char(j))
        invariant
            n == s@.len(),
            i <= j <= n,
            forall|m: int| i <= m < j ==> !is_space(s@[m]),
        decreases n - j,
    {
        j = j + 1;
    }
    proof {
        lemma_scan_to_unique(s@, |ch: char| is_space(ch), i as int, j as int);
    }
    j
}

/// Split on whitespace runs, dropping empty tokens, as `split_whitespace`
/// does.
fn split_whitespace_vec(t: &str) -> (r: Vec<String>)
    ensures
        r@.map_values(|p: String| p@) == split_ws_at(t@, 0),
{
    let n = t.unicode_len();
    let mut out: Vec<String> = Vec::new();
    let mut i: usize = 0;
    proof {
        assert(out@.map_values(|p: String| p@) + split_ws_at(t@, 0) =~= split_ws_at(t@, 0));
    }
    while i < n
        invariant
            n == t@.len(),
            0 <= i <= n,
            split_ws_at(t@, 0) == out@.map_values(|p: String| p@) + split_ws_at(t@, i as int),
        decreases n - i,
    {
        let ghost out0 = out@;
        let ghost i0 = i as int;
        let c = t.get_char(i);
        if is_space_exec(c) {
            i = i + 1;
            proof {
                assert(split_ws_at(t@, i0) == split_ws_at(t@, i as int));
            }
        } else {
            let j = scan_space(t, i);
            let mut tok = String::new();
            append_range(&mut tok, t, i, j);
            out.push(tok);
            i = j;
            proof {
                let m = |p: String| p@;
                assert(out@.map_values(m) =~= out0.map_values(m).push(t@.subrange(i0, j as int)));
                assert(split_ws_at(t@, i0) == seq![t@.subrange(i0, j as int)] + split_ws_at(
                    t@,
                    j as int,
                ));
                assert(out0.map_values(m) + split_ws_at(t@, i0) =~= out@.map_values(m)
                    + split_ws_at(t@, j as int));
            }
        }
    }
    proof {
        assert(split_ws_at(t@, n as int) == Seq::<Seq<char>>::empty());
        assert(out@.map_values(|p: String| p@) + Seq::<Seq<char>>::empty() =~= out@.map_values(
            |p: String| p@,
        ));
    }
    out
}

/// The pattern list a gitignore-dialect file denotes: the translated text
/// split on whitespace, or nothing where the translator rejects the input.
pub open spec fn gitignore_patterns(s: Seq<char>) -> Seq<Seq<char>> {
    match gi_translate(s) {
        None => Seq::<Seq<char>>::empty(),
        Some(t) => split_ws_at(t, 0),
    }
}

/// The pattern list a darcs boring file denotes.
pub open spec fn darcs_patterns(s: Seq<char>) -> Seq<Seq<char>> {
    match darcs_translate(s) {
        None => Seq::<Seq<char>>::empty(),
        Some(t) => split_ws_at(t, 0),
    }
}

/// What a pattern list compiles to: itself where the regex engine accepts
/// it, an empty (never-matching) set where it does not.
pub open spec fn compiled_patterns(pats: Seq<Seq<char>>) -> Seq<Seq<char>> {
    if regex_set_accepts(pats) {
        pats
    } else {
        Seq::<Seq<char>>::empty()
    }
}

/// Compile a `.gitignore` / `.ignore` file's contents. Never fails: input
/// the translator or the regex engine rejects yields a set matching nothing.
pub fn file_contents_to_regex(file: &str) -> (r: PatternSet)
    ensures
        r@ == compiled_patterns(gitignore_patterns(file@)),
{
    let pats: Vec<String> = match translate_gitignore(file) {
        Some(t) => split_whitespace_vec(t.as_str()),
        None => Vec::new(),
    };
    proof {
        assert(Seq::<String>::empty().map_values(|p: String| p@) =~= Seq::<Seq<char>>::empty());
    }
    match PatternSet::new(pats) {
        Some(s) => s,
        None => PatternSet::empty(),
    }
}

/// Compile a darcs `boring` file's contents. Never fails: input the
/// translator or the regex engine rejects yields a set matching nothing.
pub fn darcs_contents_to_regex(file: &str) -> (r: PatternSet)
    ensures
        r@ == compiled_patterns(darcs_patterns(file@)),
{
    let pats: Vec<String> = match translate_darcs(file) {
        Some(t) => split_whitespace_vec(t.as_str()),
        None => Vec::new(),
    };
    proof {
        assert(Seq::<String>::empty().map_values(|p: String| p@) =~= Seq::<Seq<char>>::empty());
    }
    match PatternSet::new(pats) {
        Some(s) => s,
        None => PatternSet::empty(),
    }
}

/// Whether a `.gitignore` / `.ignore` file's contents are fully
/// recognized: the translator accepts them and the regex engine accepts the
/// resulting pattern list. A caller can emit a diagnostic before
/// `file_contents_to_regex` falls back to the empty set.
pub fn gitignore_recognized(file: &str) -> (r: bool)
    ensures
        r == (gi_translate(file@) is Some && regex_set_accepts(gitignore_patterns(file@))),
{
    match translate_gitignore(file) {
        Some(t) => {
            let pats = split_whitespace_vec(t.as_str());
            PatternSet::new(pats).is_some()
        },
        None => false,
    }
}

/// The darcs twin of `gitignore_recognized`, for `boring` files.
pub fn darcs_recognized(file: &str) -> (r: bool)
    ensures
        r == (darcs_translate(file@) is Some && regex_set_accepts(darcs_patterns(file@))),
{
    match translate_darcs(file) {
        Some(t) => {
            let pats = split_whitespace_vec(t.as_str());
            PatternSet::new(pats).is_some()
        },
        None => false,
    }
}

} // verus!
