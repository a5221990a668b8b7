//! The cleanup engine: decide, over the filesystem model, which files and
//! directories a cleanup pass deletes. A matched directory is removed whole
//! and not descended into; a user exclusion regex guards entries against
//! deletion; version-control state is never touched.

use vstd::prelude::*;

verus! {

use crate::classify::ghc_environment_name;
use crate::classify::go_generated_name;
use crate::classify::numbered_suffix;
use crate::classify::project_dir_spec;
use crate::classify::is_project_dir;
use crate::classify::glob_exists;
use crate::fs_tree::FsDir;
use crate::fs_tree::FsEntry;
use crate::matcher::UserRegex;
use crate::matcher::regex_match;
use crate::single_threaded::child_path;
use crate::single_threaded::regex_view;
use crate::strutil::contains_seq;
use crate::strutil::contains_sub;
use crate::strutil::has_suffix;
use crate::strutil::path_join;

/// The static table of endings the cleanup pass deletes, applied to the
/// full path. It differs slightly from the reporting table: it adds LaTeX
/// bibliography and spelling outputs, `.chs.h`, the numbered
/// `.N.actual`/`.N.expected` test outputs and the `.pix`/`.mix` profiles,
/// and does not delete bare `.S` assembly or `.exe` files.
pub open spec fn clean_name(s: Seq<char>) -> bool {
    ".a"@.is_suffix_of(s) || ".i"@.is_suffix_of(s) || ".ii"@.is_suffix_of(s)
        || ".la"@.is_suffix_of(s) || ".lo"@.is_suffix_of(s) || ".o"@.is_suffix_of(s)
        || ".keter"@.is_suffix_of(s) || ".bc"@.is_suffix_of(s) || ".dyn_o"@.is_suffix_of(s)
        || ".d"@.is_suffix_of(s) || ".rlib"@.is_suffix_of(s) || ".crate"@.is_suffix_of(s)
        || ".hi"@.is_suffix_of(s) || ".hc"@.is_suffix_of(s) || ".chi"@.is_suffix_of(s)
        || ".dyn_hi"@.is_suffix_of(s) || ".jsexe"@.is_suffix_of(s) || ".webapp"@.is_suffix_of(s)
        || ".js.externs"@.is_suffix_of(s) || ".ibc"@.is_suffix_of(s) || ".toc"@.is_suffix_of(s)
        || ".aux"@.is_suffix_of(s) || ".fdb_latexmk"@.is_suffix_of(s) || ".spl"@.is_suffix_of(s)
        || ".bbl"@.is_suffix_of(s) || ".blg"@.is_suffix_of(s) || ".fls"@.is_suffix_of(s)
        || ".egg-info"@.is_suffix_of(s) || ".whl"@.is_suffix_of(s) || ".js_a"@.is_suffix_of(s)
        || ".js_hi"@.is_suffix_of(s) || ".jld"@.is_suffix_of(s) || ".ji"@.is_suffix_of(s)
        || ".js_o"@.is_suffix_of(s) || contains_seq(s, ".so"@) || contains_seq(s, ".dump-"@)
        || ".vmb"@.is_suffix_of(s) || ".crx"@.is_suffix_of(s) || ".orig"@.is_suffix_of(s)
        || ".elmo"@.is_suffix_of(s) || ".elmi"@.is_suffix_of(s)
        || ".hspec-failures"@.is_suffix_of(s) || ".pyc"@.is_suffix_of(s) || ".mod"@.is_suffix_of(s)
        || ".vo"@.is_suffix_of(s) || ".beam"@.is_suffix_of(s) || ".agdai"@.is_suffix_of(s)
        || go_generated_name(s) || ".p_hi"@.is_suffix_of(s) || ".p_o"@.is_suffix_of(s)
        || ".prof"@.is_suffix_of(s) || ".hide-cache"@.is_suffix_of(s) || ghc_environment_name(s)
        || ".tix"@.is_suffix_of(s) || ".pix"@.is_suffix_of(s) || ".mix"@.is_suffix_of(s)
        || ".synctex.gz"@.is_suffix_of(s) || ".hl"@.is_suffix_of(s)
        || ".sandbox.config"@.is_suffix_of(s) || ".hp"@.is_suffix_of(s)
        || ".eventlog"@.is_suffix_of(s) || ".ipa"@.is_suffix_of(s) || ".ttc"@.is_suffix_of(s)
        || ".chs.h"@.is_suffix_of(s) || numbered_suffix(s, ".actual"@) || numbered_suffix(
        s,
        ".expected"@,
    )
}

pub fn clean_name_exec(s: &str) -> (r: bool)
    ensures
        r == clean_name(s@),
{
    has_suffix(s, ".a") || has_suffix(s, ".i") || has_suffix(s, ".ii") || has_suffix(s, ".la")
        || has_suffix(s, ".lo") || has_suffix(s, ".o") || has_suffix(s, ".keter") || has_suffix(
        s,
        ".bc",
    ) || has_suffix(s, ".dyn_o") || has_suffix(s, ".d") || has_suffix(s, ".rlib") || has_suffix(
        s,
        ".crate",
    ) || has_suffix(s, ".hi") || has_suffix(s, ".hc") || has_suffix(s, ".chi") || has_suffix(
        s,
        ".dyn_hi",
    ) || has_suffix(s, ".jsexe") || has_suffix(s, ".webapp") || has_suffix(s, ".js.externs")
        || has_suffix(s, ".ibc") || has_suffix(s, ".toc") || has_suffix(s, ".aux") || has_suffix(
        s,
        ".fdb_latexmk",
    ) || has_suffix(s, ".spl") || has_suffix(s, ".bbl") || has_suffix(s, ".blg") || has_suffix(
        s,
        ".fls",
    ) || has_suffix(s, ".egg-info") || has_suffix(s, ".whl") || has_suffix(s, ".js_a")
        || has_suffix(s, ".js_hi") || has_suffix(s, ".jld") || has_suffix(s, ".ji") || has_suffix(
        s,
        ".js_o",
    ) || contains_sub(s, ".so") || contains_sub(s, ".dump-") || has_suffix(s, ".vmb")
        || has_suffix(s, ".crx") || has_suffix(s, ".orig") || has_suffix(s, ".elmo") || has_suffix(
        s,
        ".elmi",
    ) || has_suffix(s, ".hspec-failures") || has_suffix(s, ".pyc") || has_suffix(s, ".mod")
        || has_suffix(s, ".vo") || has_suffix(s, ".beam") || has_suffix(s, ".agdai")
        || crate::classify::go_generated_name_exec(s) || has_suffix(s, ".p_hi") || has_suffix(
        s,
        ".p_o",
    ) || has_suffix(s, ".prof") || has_suffix(s, ".hide-cache")
        || crate::classify::ghc_environment_name_exec(s) || has_suffix(s, ".tix") || has_suffix(
        s,
        ".pix",
    ) || has_suffix(s, ".mix") || has_suffix(s, ".synctex.gz") || has_suffix(s, ".hl")
        || has_suffix(s, ".sandbox.config") || has_suffix(s, ".hp") || has_suffix(s, ".eventlog")
        || has_suffix(s, ".ipa") || has_suffix(s, ".ttc") || has_suffix(s, ".chs.h")
        || crate::classify::numbered_suffix_exec(s, ".actual")
        || crate::classify::numbered_suffix_exec(s, ".expected")
}

/// The path passes through version-control state, which cleanup never
/// touches.
pub open spec fn src_control_path(s: Seq<char>) -> bool {
    contains_seq(s, "_darcs"@) || contains_seq(s, ".git"@) || contains_seq(s, ".hg"@)
        || contains_seq(s, ".pijul"@)
}

pub fn src_control_path_exec(s: &str) -> (r: bool)
    ensures
        r == src_control_path(s@),
{
    contains_sub(s, "_darcs") || contains_sub(s, ".git") || contains_sub(s, ".hg") || contains_sub(
        s,
        ".pijul",
    )
}

/// C sources and headers generated by the ATS toolchain.
pub open spec fn ats_cgen_name(s: Seq<char>) -> bool {
    "_dats.c"@.is_suffix_of(s) || "_hats.c"@.is_suffix_of(s) || "_sats.c"@.is_suffix_of(s)
        || "_lats.dats"@.is_suffix_of(s) || "_stub.h"@.is_suffix_of(s)
}

pub fn ats_cgen_name_exec(s: &str) -> (r: bool)
    ensures
        r == ats_cgen_name(s@),
{
    has_suffix(s, "_dats.c") || has_suffix(s, "_hats.c") || has_suffix(s, "_sats.c") || has_suffix(
        s,
        "_lats.dats",
    ) || has_suffix(s, "_stub.h")
}

/// A LaTeX run log: a `.log` whose directory also holds a `.tex` source.
pub open spec fn latex_log_spec(path: Seq<char>, sibs: Seq<FsEntry>) -> bool {
    ".log"@.is_suffix_of(path) && crate::classify::sib_glob(sibs, ".tex"@)
}

pub fn latex_log(path: &str, sibs: &Vec<FsEntry>) -> (r: bool)
    ensures
        r == latex_log_spec(path@, sibs@),
{
    has_suffix(path, ".log") && glob_exists(sibs, ".tex")
}

/// The deletion rule for one entry: a known output ending on the full path,
/// a confirmed project directory, a LaTeX log beside its source, ATS
/// generated C, or a compiler statistics file — unless the path lies in
/// version-control state or matches the user's exclusion guard.
pub open spec fn clean_matches(
    sibs: Seq<FsEntry>,
    ex: Option<Seq<char>>,
    path: Seq<char>,
    name: Seq<char>,
) -> bool {
    !(match ex {
        Some(src) => regex_match(src, path),
        None => false,
    }) && !src_control_path(path) && (clean_name(path) || project_dir_spec(sibs, name)
        || latex_log_spec(path, sibs) || ats_cgen_name(name) || "/flxg_stats.txt"@.is_suffix_of(
        path,
    ))
}

/// Whether one entry falls to the deletion rule: what a caller needs to
/// test a bare file root it would otherwise hand to no traversal.
pub fn clean_matches_exec(
    sibs: &Vec<FsEntry>,
    ex: Option<&UserRegex>,
    path: &str,
    name: &str,
) -> (r: bool)
    ensures
        r == clean_matches(sibs@, regex_view(ex), path@, name@),
{
    let guarded = match ex {
        Some(re) => re.is_match(path),
        None => false,
    };
    if guarded || src_control_path_exec(path) {
        return false;
    }
    clean_name_exec(path) || is_project_dir(sibs, name) || latex_log(path, sibs)
        || ats_cgen_name_exec(name) || has_suffix(path, "/flxg_stats.txt")
}

/// The paths a cleanup pass deletes below one directory, in pre-order: a
/// matched entry is deleted (a directory recursively, without descent), an
/// unmatched directory is descended into.
pub open spec fn clean_tree(d: FsDir, path: Seq<char>, ex: Option<Seq<char>>) -> Seq<Seq<char>>
    decreases d, 1int, 0int,
{
    clean_entries(d.entries@, path, ex, d.entries@.len() as int)
}

pub open spec fn clean_entries(
    sibs: Seq<FsEntry>,
    path: Seq<char>,
    ex: Option<Seq<char>>,
    n: int,
) -> Seq<Seq<char>>
    decreases sibs, 0int, n,
{
    if n <= 0 || n > sibs.len() {
        Seq::<Seq<char>>::empty()
    } else {
        clean_entries(sibs, path, ex, n - 1) + clean_entry(sibs, path, ex, sibs[n - 1])
    }
}

pub open spec fn clean_entry(
    sibs: Seq<FsEntry>,
    path: Seq<char>,
    ex: Option<Seq<char>>,
    e: FsEntry,
) -> Seq<Seq<char>>
    decreases e, 1int, 0int,
{
    match e {
        FsEntry::File(f) => {
            let full = child_path(path, f.name@);
            if clean_matches(sibs, ex, full, f.name@) {
                seq![full]
            } else {
                Seq::<Seq<char>>::empty()
            }
        },
        FsEntry::Dir(sub) => {
            let full = child_path(path, sub.name@);
            if clean_matches(sibs, ex, full, sub.name@) {
                seq![full]
            } else {
                clean_tree(sub, full, ex)
            }
        },
        FsEntry::Skip => Seq::<Seq<char>>::empty(),
    }
}

/// What a cleanup of `d`, reported at `path` with the given siblings next
/// to it, deletes: the root itself when it matches (its siblings confirm a
/// project directory just as an inner directory's would), otherwise
/// everything `clean_tree` lists beneath it.
pub open spec fn clean_root(
    d: FsDir,
    path: Seq<char>,
    root_sibs: Seq<FsEntry>,
    ex: Option<Seq<char>>,
) -> Seq<Seq<char>> {
    if clean_matches(root_sibs, ex, path, d.name@) {
        seq![path]
    } else {
        clean_tree(d, path, ex)
    }
}

/// Compute the deletion list for one cleanup pass; `siblings` are the
/// entries found next to the root, so that a root that is itself a
/// confirmed project directory is deleted whole. The caller performs the
/// removals; a directory in the list is removed recursively and none of its
/// contents appear separately.
pub fn clean_project_dirs(
    dir: &FsDir,
    path: &str,
    siblings: &Vec<FsEntry>,
    exclude: Option<&UserRegex>,
) -> (r: Vec<String>)
    ensures
        r@.map_values(|p: String| p@) == clean_root(*dir, path@, siblings@, regex_view(exclude)),
    decreases crate::fs_tree::dir_height(*dir),
{
    let mut out: Vec<String> = Vec::new();
    if clean_matches_exec(siblings, exclude, path, dir.name.as_str()) {
        out.push(String::from_str(path));
        proof {
            assert(out@.map_values(|p: String| p@) =~= clean_root(
                *dir,
                path@,
                siblings@,
                regex_view(exclude),
            ));
        }
        return out;
    }
    let r = clean_below(dir, path, exclude);
    r
}

/// The deletion list strictly below one directory.
fn clean_below(dir: &FsDir, path: &str, exclude: Option<&UserRegex>) -> (r: Vec<String>)
    ensures
        r@.map_values(|p: String| p@) == clean_tree(*dir, path@, regex_view(exclude)),
    decreases crate::fs_tree::dir_height(*dir),
{
    let mut out: Vec<String> = Vec::new();
    let ghost sibs = dir.entries@;
    let ghost ex = regex_view(exclude);
    let n = dir.entries.len();
    let mut i: usize = 0;
    proof {
        assert(out@.map_values(|p: String| p@) =~= clean_entries(sibs, path@, ex, 0));
    }
    while i < n
        invariant
            n == sibs.len(),
            sibs == dir.entries@,
            0 <= i <= n,
            ex == regex_view(exclude),
            out@.map_values(|p: String| p@) == clean_entries(sibs, path@, ex, i as int),
        decreases n - i,
    {
        let ghost out0 = out@;
        match &dir.entries[i] {
            FsEntry::File(f) => {
                let full = path_join(path, f.name.as_str());
                if clean_matches_exec(&dir.entries, exclude, full.as_str(), f.name.as_str()) {
                    out.push(full);
                    proof {
                        assert(out@ =~= out0.push(out@.last()));
                        assert(out@.map_values(|p: String| p@) =~= out0.map_values(
                            |p: String| p@,
                        ) + clean_entry(sibs, path@, ex, sibs[i as int]));
                    }
                }
            },
            FsEntry::Dir(sub) => {
                proof {
                    crate::fs_tree::lemma_entry_height_le_entries(sibs, n as int, i as int);
                    assert(crate::fs_tree::entry_height(sibs[i as int])
                        == crate::fs_tree::dir_height(*sub));
                }
                let full = path_join(path, sub.name.as_str());
                if clean_matches_exec(&dir.entries, exclude, full.as_str(), sub.name.as_str()) {
                    out.push(full);
                    proof {
                        assert(out@ =~= out0.push(out@.last()));
                        assert(out@.map_values(|p: String| p@) =~= out0.map_values(
                            |p: String| p@,
                        ) + clean_entry(sibs, path@, ex, sibs[i as int]));
                    }
                } else {
                    let mut below = clean_below(sub, full.as_str(), exclude);
                    let ghost below_v = below@;
                    out.append(&mut below);
                    proof {
                        assert(out@ =~= out0 + below_v);
                        assert(out@.map_values(|p: String| p@) =~= out0.map_values(
                            |p: String| p@,
                        ) + below_v.map_values(|p: String| p@));
                    }
                }
            },
            FsEntry::Skip => {},
        }
        i = i + 1;
        proof {
            if out@ == out0 {
                assert(out0.map_values(|p: String| p@) + Seq::<Seq<char>>::empty() =~= out0
                    .map_values(|p: String| p@));
            }
            assert(clean_entries(sibs, path@, ex, i as int) == clean_entries(
                sibs,
                path@,
                ex,
                i - 1,
            ) + clean_entry(sibs, path@, ex, sibs[i - 1]));
        }
    }
    out
}

} // verus!
