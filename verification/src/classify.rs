//! The per-file artifact classifier, the per-directory project-directory
//! classifier, and the static suffix tables they are built from.

use vstd::prelude::*;

verus! {

use crate::fs_tree::FsEntry;
use crate::matcher::PatternSet;
use crate::matcher::regex_set_match;
use crate::strutil::contains_seq;
use crate::strutil::contains_sub;
use crate::strutil::has_prefix;
use crate::strutil::has_suffix;
use crate::strutil::is_digit;
use crate::strutil::is_digit_exec;
use crate::strutil::str_eq;

/// A file is executable by owner, group or other.
pub open spec fn is_executable_spec(mode: u32) -> bool {
    mode & 0b001001001u32 != 0
}

/// Whether the permission bits mark a file executable by owner, group or
/// other.
pub fn is_executable(mode: u32) -> (r: bool)
    ensures
        r == is_executable_spec(mode),
{
    (mode & 0b001001001u32) != 0
}

/// `.ghc.environment.` occurs, and the name ends digit, any, digit, any,
/// digit — a GHC environment file.
pub open spec fn ghc_environment_name(s: Seq<char>) -> bool {
    s.len() >= 22 && contains_seq(s.subrange(0, s.len() - 5), ".ghc.environment."@) && is_digit(
        s[s.len() - 5],
    ) && is_digit(s[s.len() - 3]) && is_digit(s[s.len() - 1])
}

pub fn ghc_environment_name_exec(s: &str) -> (r: bool)
    ensures
        r == ghc_environment_name(s@),
{
    let n = s.unicode_len();
    if n < 22 {
        return false;
    }
    let head = s.substring_char(0, n - 5);
    contains_sub(head, ".ghc.environment.") && is_digit_exec(s.get_char(n - 5)) && is_digit_exec(
        s.get_char(n - 3),
    ) && is_digit_exec(s.get_char(n - 1))
}

/// A run of `k` digits ends at `pos_end` in `s`, with a `.` just before the
/// run.
pub open spec fn dot_digit_run(s: Seq<char>, pos_end: int, k: int) -> bool {
    s[pos_end - k - 1] == '.' && (forall|m: int|
        pos_end - k <= m < pos_end ==> is_digit(#[trigger] s[m]))
}

/// The name ends with `.`, one or more digits, then `suffix` — as the
/// numbered `.N.actual` / `.N.expected` outputs do.
pub open spec fn numbered_suffix(s: Seq<char>, suffix: Seq<char>) -> bool {
    exists|k: int|
        1 <= k && k + suffix.len() + 1 <= s.len() && #[trigger] dot_digit_run(
            s,
            s.len() - suffix.len(),
            k,
        ) && suffix.is_suffix_of(s)
}

pub fn numbered_suffix_exec(s: &str, suffix: &str) -> (r: bool)
    ensures
        r == numbered_suffix(s@, suffix@),
{
    let n = s.unicode_len();
    let m = suffix.unicode_len();
    if !has_suffix(s, suffix) {
        return false;
    }
    if n - m < 2 {
        return false;
    }
    // count digits backwards from just before the suffix
    let mut k: usize = 0;
    while n - m - k > 0 && is_digit_exec(s.get_char(n - m - k - 1))
        invariant
            n == s@.len(),
            m == suffix@.len(),
            n >= m + 2,
            0 <= k <= n - m,
            forall|q: int| n - m - k <= q < n - m ==> is_digit(s@[q]),
        decreases n - m - k,
    {
        k = k + 1;
    }
    // the maximal digit run before the suffix has length k; the rule needs
    // k >= 1 and a '.' right before the run
    let hit = k > 0 && n - m - k > 0 && s.get_char(n - m - k - 1) == '.';
    proof {
        let pe = s@.len() - suffix@.len();
        if hit {
            assert(dot_digit_run(s@, pe, k as int));
        } else {
            assert forall|kk: int|
                1 <= kk && kk + suffix@.len() + 1 <= s@.len() implies !dot_digit_run(
                s@,
                pe,
                kk,
            ) by {
                if kk < k {
                    assert(is_digit(s@[pe - kk - 1]));
                    assert(s@[pe - kk - 1] != '.');
                } else if kk == k {
                    // the run stopped: either at the start of the name or at
                    // a character that is neither a digit nor a '.'
                } else {
                    // a longer run would need a digit where the scan stopped
                    if n - m - k > 0 {
                        assert(!is_digit(s@[pe - (k as int) - 1]));
                        assert(pe - kk <= pe - (k as int) - 1 < pe);
                    }
                }
            }
        }
    }
    hit
}

/// The static table of build-output name endings the artifact classifier
/// recognizes, together with its contains-style entries (`.so`-versioned
/// libraries, GHC `.dump-` outputs, GHC environment files).
pub open spec fn artifact_name(s: Seq<char>) -> bool {
    ".a"@.is_suffix_of(s) || ".i"@.is_suffix_of(s) || ".ii"@.is_suffix_of(s)
        || ".la"@.is_suffix_of(s) || ".lo"@.is_suffix_of(s) || ".o"@.is_suffix_of(s)
        || ".keter"@.is_suffix_of(s) || ".bc"@.is_suffix_of(s) || ".dyn_o"@.is_suffix_of(s)
        || ".d"@.is_suffix_of(s) || ".rlib"@.is_suffix_of(s) || ".crate"@.is_suffix_of(s)
        || ".hi"@.is_suffix_of(s) || ".hc"@.is_suffix_of(s) || ".chi"@.is_suffix_of(s)
        || ".dyn_hi"@.is_suffix_of(s) || ".S"@.is_suffix_of(s) || ".jsexe"@.is_suffix_of(s)
        || ".webapp"@.is_suffix_of(s) || ".js.externs"@.is_suffix_of(s) || ".ibc"@.is_suffix_of(s)
        || ".toc"@.is_suffix_of(s) || ".aux"@.is_suffix_of(s) || ".fdb_latexmk"@.is_suffix_of(s)
        || ".fls"@.is_suffix_of(s) || ".egg-info"@.is_suffix_of(s) || ".whl"@.is_suffix_of(s)
        || ".js_a"@.is_suffix_of(s) || ".js_hi"@.is_suffix_of(s) || ".jld"@.is_suffix_of(s)
        || ".ji"@.is_suffix_of(s) || ".js_o"@.is_suffix_of(s) || contains_seq(s, ".so"@)
        || contains_seq(s, ".dump-"@) || ".vmb"@.is_suffix_of(s) || ".crx"@.is_suffix_of(s)
        || ".orig"@.is_suffix_of(s) || ".elmo"@.is_suffix_of(s) || ".elmi"@.is_suffix_of(s)
        || ".hspec-failures"@.is_suffix_of(s) || ".pyc"@.is_suffix_of(s) || ".vo"@.is_suffix_of(s)
        || ".agdai"@.is_suffix_of(s) || ".beam"@.is_suffix_of(s) || ".mod"@.is_suffix_of(s)
        || go_generated_name(s) || ".p_hi"@.is_suffix_of(s) || ".p_o"@.is_suffix_of(s)
        || ".prof"@.is_suffix_of(s) || ".hide-cache"@.is_suffix_of(s) || ghc_environment_name(s)
        || ".tix"@.is_suffix_of(s) || ".synctex.gz"@.is_suffix_of(s) || ".hl"@.is_suffix_of(s)
        || ".hp"@.is_suffix_of(s) || ".sandbox.config"@.is_suffix_of(s) || ".exe"@.is_suffix_of(s)
        || ".eventlog"@.is_suffix_of(s) || ".ipa"@.is_suffix_of(s) || ".ttc"@.is_suffix_of(s)
}

/// Outputs of the Go-frontend toolchains in the table.
pub open spec fn go_generated_name(s: Seq<char>) -> bool {
    ".go.v"@.is_suffix_of(s) || ".go.teak"@.is_suffix_of(s) || ".go.xmldef"@.is_suffix_of(s)
        || ".go.rewrittenast"@.is_suffix_of(s) || ".go.rewrittengo"@.is_suffix_of(s)
        || ".go.simplego"@.is_suffix_of(s) || ".go.tree-bind"@.is_suffix_of(s)
        || ".go.tree-eval"@.is_suffix_of(s) || ".go.tree-finish"@.is_suffix_of(s)
        || ".go.tree-parse"@.is_suffix_of(s)
}

pub fn go_generated_name_exec(s: &str) -> (r: bool)
    ensures
        r == go_generated_name(s@),
{
    has_suffix(s, ".go.v") || has_suffix(s, ".go.teak") || has_suffix(s, ".go.xmldef")
        || has_suffix(s, ".go.rewrittenast") || has_suffix(s, ".go.rewrittengo") || has_suffix(
        s,
        ".go.simplego",
    ) || has_suffix(s, ".go.tree-bind") || has_suffix(s, ".go.tree-eval") || has_suffix(
        s,
        ".go.tree-finish",
    ) || has_suffix(s, ".go.tree-parse")
}

/// Whether a file name is in the static artifact table.
pub fn artifact_name_exec(s: &str) -> (r: bool)
    ensures
        r == artifact_name(s@),
{
    has_suffix(s, ".a") || has_suffix(s, ".i") || has_suffix(s, ".ii") || has_suffix(s, ".la")
        || has_suffix(s, ".lo") || has_suffix(s, ".o") || has_suffix(s, ".keter") || has_suffix(
        s,
        ".bc",
    ) || has_suffix(s, ".dyn_o") || has_suffix(s, ".d") || has_suffix(s, ".rlib") || has_suffix(
        s,
        ".crate",
    ) || has_suffix(s, ".hi") || has_suffix(s, ".hc") || has_suffix(s, ".chi") || has_suffix(
        s,
        ".dyn_hi",
    ) || has_suffix(s, ".S") || has_suffix(s, ".jsexe") || has_suffix(s, ".webapp") || has_suffix(
        s,
        ".js.externs",
    ) || has_suffix(s, ".ibc") || has_suffix(s, ".toc") || has_suffix(s, ".aux") || has_suffix(
        s,
        ".fdb_latexmk",
    ) || has_suffix(s, ".fls") || has_suffix(s, ".egg-info") || has_suffix(s, ".whl")
        || has_suffix(s, ".js_a") || has_suffix(s, ".js_hi") || has_suffix(s, ".jld")
        || has_suffix(s, ".ji") || has_suffix(s, ".js_o") || contains_sub(s, ".so") || contains_sub(
        s,
        ".dump-",
    ) || has_suffix(s, ".vmb") || has_suffix(s, ".crx") || has_suffix(s, ".orig") || has_suffix(
        s,
        ".elmo",
    ) || has_suffix(s, ".elmi") || has_suffix(s, ".hspec-failures") || has_suffix(s, ".pyc")
        || has_suffix(s, ".vo") || has_suffix(s, ".agdai") || has_suffix(s, ".beam")
        || has_suffix(s, ".mod") || go_generated_name_exec(s) || has_suffix(s, ".p_hi")
        || has_suffix(s, ".p_o") || has_suffix(s, ".prof") || has_suffix(s, ".hide-cache")
        || ghc_environment_name_exec(s) || has_suffix(s, ".tix") || has_suffix(s, ".synctex.gz")
        || has_suffix(s, ".hl") || has_suffix(s, ".hp") || has_suffix(s, ".sandbox.config")
        || has_suffix(s, ".exe") || has_suffix(s, ".eventlog") || has_suffix(s, ".ipa")
        || has_suffix(s, ".ttc")
}

/// The secondary "maybe generated" table: cache-, config- and log-like
/// endings that count only for executable files matched by an ignore file.
pub open spec fn secondary_name(s: Seq<char>) -> bool {
    ".stats"@.is_suffix_of(s) || ".conf"@.is_suffix_of(s) || ".h"@.is_suffix_of(s)
        || ".c"@.is_suffix_of(s) || ".out"@.is_suffix_of(s) || contains_seq(s, ".cache"@)
        || ".dat"@.is_suffix_of(s) || ".pc"@.is_suffix_of(s) || ".info"@.is_suffix_of(s)
        || ".ll"@.is_suffix_of(s) || ".js"@.is_suffix_of(s)
}

pub fn secondary_name_exec(s: &str) -> (r: bool)
    ensures
        r == secondary_name(s@),
{
    has_suffix(s, ".stats") || has_suffix(s, ".conf") || has_suffix(s, ".h") || has_suffix(s, ".c")
        || has_suffix(s, ".out") || contains_sub(s, ".cache") || has_suffix(s, ".dat")
        || has_suffix(s, ".pc") || has_suffix(s, ".info") || has_suffix(s, ".ll") || has_suffix(
        s,
        ".js",
    )
}

/// The pattern list of an optional ignore context.
pub open spec fn ignore_view(ig: Option<PatternSet>) -> Option<Seq<Seq<char>>> {
    match ig {
        Some(p) => Some(p@),
        None => None,
    }
}

/// The artifact rule: a name in the static table is an artifact outright.
/// So is the vim `tags` file, but only under the `vimtags` flag — a
/// carve-out that stands beside the suffix-and-ignore rule rather than
/// inside it. Otherwise, with an ignore context, a file is an artifact
/// exactly when it looks generated (its permission bits mark it executable
/// OR its name is in the secondary table) AND the ignore patterns match its
/// full path — both conditions together, neither alone; with no context,
/// only the `flxg_stats.txt` statistics file remains.
pub open spec fn is_artifact_spec(
    name: Seq<char>,
    full_path: Seq<char>,
    mode: u32,
    vimtags: bool,
    ig: Option<Seq<Seq<char>>>,
) -> bool {
    if artifact_name(name) || (name == "tags"@ && vimtags) {
        true
    } else {
        match ig {
            Some(pats) => (is_executable_spec(mode) || secondary_name(name)) && regex_set_match(
                pats,
                full_path,
            ),
            None => name == "flxg_stats.txt"@,
        }
    }
}

/// Classify one file. `path_str` is its bare name, `full_path` the path the
/// ignore patterns are matched against, `mode` its permission bits.
pub fn is_artifact(
    path_str: &str,
    full_path: &str,
    mode: u32,
    vimtags: bool,
    gitignore: &Option<PatternSet>,
) -> (r: bool)
    ensures
        r == is_artifact_spec(path_str@, full_path@, mode, vimtags, ignore_view(*gitignore)),
{
    if artifact_name_exec(path_str) || (vimtags && str_eq(path_str, "tags")) {
        true
    } else {
        match gitignore {
            Some(pats) => {
                if is_executable(mode) || secondary_name_exec(path_str) {
                    pats.is_match(full_path)
                } else {
                    false
                }
            },
            None => str_eq(path_str, "flxg_stats.txt"),
        }
    }
}

/// The toolchain a recognized artifact belongs to.
pub enum ArtifactType {
    Haskell,
    GHCJS,
    Rust,
    Idris,
    Julia,
    Python,
    Vimscript,
    FORTRAN,
    Assembly,
    Generic,
    LaTeX,
    Keter,
    LLVM,
    Unknown,
}

/// A name ending typical of GHC's intermediate and profiling outputs.
pub open spec fn haskell_ext_name(s: Seq<char>) -> bool {
    ".dyn_o"@.is_suffix_of(s) || ".out"@.is_suffix_of(s) || ".d"@.is_suffix_of(s)
        || ".hi"@.is_suffix_of(s) || ".dyn_hi"@.is_suffix_of(s) || contains_seq(s, ".dump-"@)
        || ".p_hi"@.is_suffix_of(s) || ".p_o"@.is_suffix_of(s) || ".prof"@.is_suffix_of(s)
        || ".tix"@.is_suffix_of(s)
}

/// A name inside a Haskell build output directory.
pub open spec fn haskell_dir_name(s: Seq<char>) -> bool {
    contains_seq(s, ".stack-work"@) || contains_seq(s, "dist-newstyle"@)
}

/// Classify a file name by the toolchain whose output it looks like: GHC
/// extensions first, then Idris bytecode, then the slower full-name checks
/// for Haskell build directories.
pub fn match_extension(file_name: &str, full_path: &str) -> (r: ArtifactType)
    ensures
        haskell_ext_name(file_name@) ==> r is Haskell,
        !haskell_ext_name(file_name@) && ".ibc"@.is_suffix_of(file_name@) ==> r is Idris,
        !haskell_ext_name(file_name@) && !".ibc"@.is_suffix_of(file_name@) && haskell_dir_name(
            file_name@,
        ) ==> r is Haskell,
        !haskell_ext_name(file_name@) && !".ibc"@.is_suffix_of(file_name@) && !haskell_dir_name(
            file_name@,
        ) ==> r is Unknown,
{
    let _ = full_path;
    let haskell_ext = has_suffix(file_name, ".dyn_o") || has_suffix(file_name, ".out")
        || has_suffix(file_name, ".d") || has_suffix(file_name, ".hi") || has_suffix(
        file_name,
        ".dyn_hi",
    ) || contains_sub(file_name, ".dump-") || has_suffix(file_name, ".p_hi") || has_suffix(
        file_name,
        ".p_o",
    ) || has_suffix(file_name, ".prof") || has_suffix(file_name, ".tix");
    if haskell_ext {
        ArtifactType::Haskell
    } else if has_suffix(file_name, ".ibc") {
        ArtifactType::Idris
    } else if contains_sub(file_name, ".stack-work") || contains_sub(file_name, "dist-newstyle") {
        ArtifactType::Haskell
    } else {
        ArtifactType::Unknown
    }
}

/// The entry bears this exact name (a skipped entry bears none).
pub open spec fn entry_named(e: FsEntry, target: Seq<char>) -> bool {
    match e {
        FsEntry::File(f) => f.name@ == target,
        FsEntry::Dir(d) => d.name@ == target,
        FsEntry::Skip => false,
    }
}

/// The entry's name ends with `suffix`.
pub open spec fn entry_name_ends(e: FsEntry, suffix: Seq<char>) -> bool {
    match e {
        FsEntry::File(f) => suffix.is_suffix_of(f.name@),
        FsEntry::Dir(d) => suffix.is_suffix_of(d.name@),
        FsEntry::Skip => false,
    }
}

/// An entry of this exact name exists among the siblings.
pub open spec fn sib_exists(sibs: Seq<FsEntry>, target: Seq<char>) -> bool {
    exists|i: int| 0 <= i < sibs.len() && entry_named(#[trigger] sibs[i], target)
}

/// An entry whose name ends with `suffix` exists among the siblings: the
/// model of probing a `*.ext` glob next to a directory.
pub open spec fn sib_glob(sibs: Seq<FsEntry>, suffix: Seq<char>) -> bool {
    exists|i: int| 0 <= i < sibs.len() && entry_name_ends(#[trigger] sibs[i], suffix)
}

/// Whether an entry of this exact name exists.
pub fn sibling_exists(sibs: &Vec<FsEntry>, target: &str) -> (r: bool)
    ensures
        r == sib_exists(sibs@, target@),
{
    let n = sibs.len();
    let mut i: usize = 0;
    while i < n
        invariant
            n == sibs@.len(),
            0 <= i <= n,
            forall|j: int| 0 <= j < i ==> !entry_named(#[trigger] sibs@[j], target@),
        decreases n - i,
    {
        let hit = match &sibs[i] {
            FsEntry::File(f) => str_eq(f.name.as_str(), target),
            FsEntry::Dir(d) => str_eq(d.name.as_str(), target),
            FsEntry::Skip => false,
        };
        if hit {
            return true;
        }
        i = i + 1;
    }
    false
}

/// Whether an entry whose name ends with `suffix` exists: the sibling glob
/// probe.
pub fn glob_exists(sibs: &Vec<FsEntry>, suffix: &str) -> (r: bool)
    ensures
        r == sib_glob(sibs@, suffix@),
{
    let n = sibs.len();
    let mut i: usize = 0;
    while i < n
        invariant
            n == sibs@.len(),
            0 <= i <= n,
            forall|j: int| 0 <= j < i ==> !entry_name_ends(#[trigger] sibs@[j], suffix@),
        decreases n - i,
    {
        let hit = match &sibs[i] {
            FsEntry::File(f) => has_suffix(f.name.as_str(), suffix),
            FsEntry::Dir(d) => has_suffix(d.name.as_str(), suffix),
            FsEntry::Skip => false,
        };
        if hit {
            return true;
        }
        i = i + 1;
    }
    false
}

/// The name table of well-known build-output directories.
pub open spec fn project_dir_name(s: Seq<char>) -> bool {
    contains_seq(s, "_minted"@) || ".stack-work"@.is_suffix_of(s) || "build"@.is_suffix_of(s)
        || "gen"@.is_suffix_of(s) || "cbits"@.is_suffix_of(s) || "ats-deps"@.is_suffix_of(s)
        || ".atspkg"@.is_suffix_of(s) || "target"@.is_suffix_of(s) || ".reco-work"@.is_suffix_of(s)
        || ".cabal-sandbox"@.is_suffix_of(s) || "dist"@.is_suffix_of(s)
        || ".criterion"@.is_suffix_of(s) || contains_seq(s, "dist-newstyle"@)
        || ".egg-info"@.is_suffix_of(s) || "elm-stuff"@.is_suffix_of(s)
        || ".pulp-cache"@.is_suffix_of(s) || ".psc-package"@.is_suffix_of(s)
        || "output"@.is_suffix_of(s) || "bower_components"@.is_suffix_of(s)
        || "node_modules"@.is_suffix_of(s) || ".liquid"@.is_suffix_of(s)
}

fn project_dir_name_exec(s: &str) -> (r: bool)
    ensures
        r == project_dir_name(s@),
{
    contains_sub(s, "_minted") || has_suffix(s, ".stack-work") || has_suffix(s, "build")
        || has_suffix(s, "gen") || has_suffix(s, "cbits") || has_suffix(s, "ats-deps")
        || has_suffix(s, ".atspkg") || has_suffix(s, "target") || has_suffix(s, ".reco-work")
        || has_suffix(s, ".cabal-sandbox") || has_suffix(s, "dist") || has_suffix(s, ".criterion")
        || contains_sub(s, "dist-newstyle") || has_suffix(s, ".egg-info") || has_suffix(
        s,
        "elm-stuff",
    ) || has_suffix(s, ".pulp-cache") || has_suffix(s, ".psc-package") || has_suffix(s, "output")
        || has_suffix(s, "bower_components") || has_suffix(s, "node_modules") || has_suffix(
        s,
        ".liquid",
    )
}

/// The confirmation rule: which manifest files, found next to the candidate
/// directory, confirm that a directory of this name is build output.
pub open spec fn project_dir_confirmed(sibs: Seq<FsEntry>, name: Seq<char>) -> bool {
    if name == ".stack-work"@ {
        sib_exists(sibs, "cabal.project"@) || sib_exists(sibs, "package.yaml"@) || sib_glob(
            sibs,
            ".cabal"@,
        )
    } else if name == "nimcache"@ {
        sib_glob(sibs, ".nim"@)
    } else if name == "target"@ {
        sib_exists(sibs, "atspkg.dhall"@) || sib_exists(sibs, "shake.hs"@) || sib_exists(
            sibs,
            "elba.toml"@,
        ) || sib_exists(sibs, "Cargo.toml"@)
    } else if name == ".atspkg"@ || name == "ats-deps"@ || name == "cbits"@ || name == "gen"@ {
        sib_exists(sibs, "atspkg.dhall"@)
    } else if name == ".criterion"@ {
        sib_exists(sibs, "Cargo.toml"@)
    } else if name == ".liquid"@ {
        sib_glob(sibs, ".hs"@)
    } else if name == ".reco-work"@ {
        sib_exists(sibs, "main.go"@)
    } else if name == "elm-stuff"@ {
        sib_exists(sibs, "elm-package.json"@)
    } else if name == ".pulp-cache"@ || name == "output"@ || name == ".psc-package"@ {
        sib_exists(sibs, "psc-package.json"@)
    } else if name == "build"@ || name == "dist"@ || name == ".cabal-sandbox"@ || name
        == "dist-newstyle"@ || name == "dist-newstyle-meta"@ {
        sib_exists(sibs, "setup.py"@) || sib_glob(sibs, ".cabal"@) || sib_exists(
            sibs,
            "cabal.project"@,
        ) || sib_glob(sibs, ".blod"@)
    } else if name == "bower_components"@ {
        sib_exists(sibs, "bower.json"@)
    } else if name == "node_modules"@ {
        true
    } else {
        (sib_exists(sibs, "setup.py"@) && ".egg-info"@.is_suffix_of(name)) || (sib_glob(
            sibs,
            ".tex"@,
        ) && "_minted"@.is_prefix_of(name))
    }
}

/// The project-directory rule: the name must be in the table, and the
/// toolchain that would produce it must be confirmed by a manifest file next
/// to the directory.
pub open spec fn project_dir_spec(sibs: Seq<FsEntry>, name: Seq<char>) -> bool {
    project_dir_name(name) && project_dir_confirmed(sibs, name)
}

/// Whether a directory of this name, with these siblings, is itself
/// toolchain-generated output.
pub fn is_project_dir(sibs: &Vec<FsEntry>, name: &str) -> (r: bool)
    ensures
        r == project_dir_spec(sibs@, name@),
{
    if !project_dir_name_exec(name) {
        return false;
    }
    if str_eq(name, ".stack-work") {
        sibling_exists(sibs, "cabal.project") || sibling_exists(sibs, "package.yaml")
            || glob_exists(sibs, ".cabal")
    } else if str_eq(name, "nimcache") {
        glob_exists(sibs, ".nim")
    } else if str_eq(name, "target") {
        sibling_exists(sibs, "atspkg.dhall") || sibling_exists(sibs, "shake.hs") || sibling_exists(
            sibs,
            "elba.toml",
        ) || sibling_exists(sibs, "Cargo.toml")
    } else if str_eq(name, ".atspkg") || str_eq(name, "ats-deps") || str_eq(name, "cbits")
        || str_eq(name, "gen") {
        sibling_exists(sibs, "atspkg.dhall")
    } else if str_eq(name, ".criterion") {
        sibling_exists(sibs, "Cargo.toml")
    } else if str_eq(name, ".liquid") {
        glob_exists(sibs, ".hs")
    } else if str_eq(name, ".reco-work") {
        sibling_exists(sibs, "main.go")
    } else if str_eq(name, "elm-stuff") {
        sibling_exists(sibs, "elm-package.json")
    } else if str_eq(name, ".pulp-cache") || str_eq(name, "output") || str_eq(name, ".psc-package")
        {
        sibling_exists(sibs, "psc-package.json")
    } else if str_eq(name, "build") || str_eq(name, "dist") || str_eq(name, ".cabal-sandbox")
        || str_eq(name, "dist-newstyle") || str_eq(name, "dist-newstyle-meta") {
        sibling_exists(sibs, "setup.py") || glob_exists(sibs, ".cabal") || sibling_exists(
            sibs,
            "cabal.project",
        ) || glob_exists(sibs, ".blod")
    } else if str_eq(name, "bower_components") {
        sibling_exists(sibs, "bower.json")
    } else if str_eq(name, "node_modules") {
        true
    } else {
        (sibling_exists(sibs, "setup.py") && has_suffix(name, ".egg-info")) || (glob_exists(
            sibs,
            ".tex",
        ) && has_prefix(name, "_minted"))
    }
}

/// Law: a name in the static artifact table is classified an artifact in
/// every ignore context; a file that neither bears a table name, nor the
/// tags exception, nor looks generated (no executable bit and no secondary
/// name) is never one, however the ignore patterns match; and without an
/// ignore match the generated look alone never suffices.
pub proof fn lemma_classifier_conjunction(
    name: Seq<char>,
    full_path: Seq<char>,
    mode: u32,
    vimtags: bool,
    ig: Option<Seq<Seq<char>>>,
)
    ensures
        artifact_name(name) ==> is_artifact_spec(name, full_path, mode, vimtags, ig),
        !artifact_name(name) && !(name == "tags"@ && vimtags) && !is_executable_spec(mode)
            && !secondary_name(name) && !(name == "flxg_stats.txt"@ && ig is None)
            ==> !is_artifact_spec(name, full_path, mode, vimtags, ig),
        !artifact_name(name) && !(name == "tags"@ && vimtags) && (ig matches Some(pats)
            && !regex_set_match(pats, full_path)) ==> !is_artifact_spec(
            name,
            full_path,
            mode,
            vimtags,
            ig,
        ),
{
}

} // verus!
