//! The sequential traversal engines over the filesystem model: size-only
//! aggregation (`read_size`, `read_no_excludes`) and full tree construction
//! with depth-collapse (`read_all`, `read_all_fast`).

use vstd::prelude::*;

verus! {

use crate::classify::ignore_view;
use crate::classify::is_artifact;
use crate::classify::is_artifact_spec;
use crate::classify::is_project_dir;
use crate::classify::project_dir_spec;
use crate::fs_tree::FsDir;
use crate::fs_tree::FsEntry;
use crate::fs_tree::dir_height;
use crate::fs_tree::dir_raw_size;
use crate::fs_tree::entries_height;
use crate::fs_tree::entries_raw_size;
use crate::fs_tree::entry_height;
use crate::fs_tree::entry_raw_size;
use crate::fs_tree::lemma_entries_size_monotone;
use crate::fs_tree::lemma_entry_height_le_entries;
use crate::fs_tree::lemma_entry_size_le_entries;
use crate::matcher::PatternSet;
use crate::matcher::UserRegex;
use crate::matcher::regex_match;
use crate::strutil::path_join;
use crate::types::FileSize;
use crate::types::FileTree;
use crate::types::NamePair;
use crate::utils::mk_ignores;
use crate::utils::resolve_ignore;

/// The path matches the user's exclusion regex.
pub open spec fn excluded(ex: Option<Seq<char>>, path: Seq<char>) -> bool {
    match ex {
        Some(src) => regex_match(src, path),
        None => false,
    }
}

/// The exclusion regex an optional compiled value denotes.
pub open spec fn regex_view(ex: Option<&UserRegex>) -> Option<Seq<char>> {
    match ex {
        Some(r) => Some(r@),
        None => None,
    }
}

/// The full path of a child named `name` under `path`.
pub open spec fn child_path(path: Seq<char>, name: Seq<char>) -> Seq<char> {
    path + "/"@ + name
}

/// Bytes that the size-only engine counts for directory `d` reported at
/// `path`: every file not excluded and (in artifact mode) classified as an
/// artifact, recursively, with this directory's own ignore context resolved
/// from the inherited one. Inside a confirmed project directory
/// classification is disabled and everything counts.
pub open spec fn size_tree(
    d: FsDir,
    path: Seq<char>,
    ex: Option<Seq<char>>,
    ig0: Option<Seq<Seq<char>>>,
    vt: bool,
    ao: bool,
) -> nat
    decreases d, 1int, 0int,
{
    let ig = if ao {
        resolve_ignore(d, ig0)
    } else {
        Option::<Seq<Seq<char>>>::None
    };
    size_entries(d.entries@, path, ex, ig, vt, ao, d.entries@.len() as int)
}

/// Bytes counted over the first `n` entries; `sibs` is the whole entry list
/// (the project-directory probe needs all siblings).
pub open spec fn size_entries(
    sibs: Seq<FsEntry>,
    path: Seq<char>,
    ex: Option<Seq<char>>,
    ig: Option<Seq<Seq<char>>>,
    vt: bool,
    ao: bool,
    n: int,
) -> nat
    decreases sibs, 0int, n,
{
    if n <= 0 || n > sibs.len() {
        0
    } else {
        size_entries(sibs, path, ex, ig, vt, ao, n - 1) + size_entry(
            sibs,
            path,
            ex,
            ig,
            vt,
            ao,
            sibs[n - 1],
        )
    }
}

/// Bytes counted for one entry.
pub open spec fn size_entry(
    sibs: Seq<FsEntry>,
    path: Seq<char>,
    ex: Option<Seq<char>>,
    ig: Option<Seq<Seq<char>>>,
    vt: bool,
    ao: bool,
    e: FsEntry,
) -> nat
    decreases e, 1int, 0int,
{
    match e {
        FsEntry::File(f) => {
            let full = child_path(path, f.name@);
            if !excluded(ex, full) && (!ao || is_artifact_spec(f.name@, full, f.mode, vt, ig)) {
                f.len as nat
            } else {
                0
            }
        },
        FsEntry::Dir(sub) => {
            let full = child_path(path, sub.name@);
            if excluded(ex, full) {
                0
            } else if ao && project_dir_spec(sibs, sub.name@) {
                size_tree(sub, full, ex, ig, vt, false)
            } else {
                size_tree(sub, full, ex, ig, vt, ao)
            }
        },
        FsEntry::Skip => 0,
    }
}

/// Whatever the engine counts is part of the unfiltered total.
pub proof fn lemma_size_tree_le_raw(
    d: FsDir,
    path: Seq<char>,
    ex: Option<Seq<char>>,
    ig0: Option<Seq<Seq<char>>>,
    vt: bool,
    ao: bool,
)
    ensures
        size_tree(d, path, ex, ig0, vt, ao) <= dir_raw_size(d),
    decreases d, 1int, 0int,
{
    let ig = if ao {
        resolve_ignore(d, ig0)
    } else {
        Option::<Seq<Seq<char>>>::None
    };
    lemma_size_entries_le_raw(d.entries@, path, ex, ig, vt, ao, d.entries@.len() as int);
}

pub proof fn lemma_size_entries_le_raw(
    sibs: Seq<FsEntry>,
    path: Seq<char>,
    ex: Option<Seq<char>>,
    ig: Option<Seq<Seq<char>>>,
    vt: bool,
    ao: bool,
    n: int,
)
    ensures
        size_entries(sibs, path, ex, ig, vt, ao, n) <= entries_raw_size(sibs, n),
    decreases sibs, 0int, n,
{
    if 0 < n <= sibs.len() {
        lemma_size_entries_le_raw(sibs, path, ex, ig, vt, ao, n - 1);
        lemma_size_entry_le_raw(sibs, path, ex, ig, vt, ao, sibs[n - 1]);
    }
}

pub proof fn lemma_size_entry_le_raw(
    sibs: Seq<FsEntry>,
    path: Seq<char>,
    ex: Option<Seq<char>>,
    ig: Option<Seq<Seq<char>>>,
    vt: bool,
    ao: bool,
    e: FsEntry,
)
    ensures
        size_entry(sibs, path, ex, ig, vt, ao, e) <= entry_raw_size(e),
    decreases e, 1int, 0int,
{
    match e {
        FsEntry::Dir(sub) => {
            let full = child_path(path, sub.name@);
            if !excluded(ex, full) {
                if ao && project_dir_spec(sibs, sub.name@) {
                    lemma_size_tree_le_raw(sub, full, ex, ig, vt, false);
                } else {
                    lemma_size_tree_le_raw(sub, full, ex, ig, vt, ao);
                }
            }
        },
        _ => {},
    }
}

/// The abstract value of one reported entry.
pub ghost struct EntryV {
    pub name: Seq<char>,
    pub bytes: nat,
    pub depth: nat,
    pub is_dir: bool,
}

/// The abstract value of a reported entry list.
pub open spec fn pairs_view(s: Seq<NamePair>) -> Seq<EntryV> {
    s.map_values(
        |p: NamePair|
            EntryV { name: p.name@, bytes: p.bytes@ as nat, depth: p.depth as nat, is_dir: p.is_dir },
    )
}

/// What the full engine reports for directory `d` at `path` whose own entry
/// was recorded at `depth`: the flattened entry trail and the byte total.
/// Children stand at `depth + 1`; once `depth + 1` reaches the depth budget
/// a subtree is collapsed to its size-only total (outside artifact mode),
/// and a confirmed project directory is collapsed likewise with
/// classification disabled beneath it.
pub open spec fn walk_tree(
    d: FsDir,
    path: Seq<char>,
    depth: int,
    md: Option<u8>,
    ex: Option<Seq<char>>,
    ig0: Option<Seq<Seq<char>>>,
    vt: bool,
    ao: bool,
) -> (Seq<EntryV>, nat)
    decreases d, 1int, 0int,
{
    let ig = if ao {
        resolve_ignore(d, ig0)
    } else {
        Option::<Seq<Seq<char>>>::None
    };
    walk_entries(d.entries@, path, depth, md, ex, ig, vt, ao, d.entries@.len() as int)
}

pub open spec fn walk_entries(
    sibs: Seq<FsEntry>,
    path: Seq<char>,
    depth: int,
    md: Option<u8>,
    ex: Option<Seq<char>>,
    ig: Option<Seq<Seq<char>>>,
    vt: bool,
    ao: bool,
    n: int,
) -> (Seq<EntryV>, nat)
    decreases sibs, 0int, n,
{
    if n <= 0 || n > sibs.len() {
        (Seq::<EntryV>::empty(), 0nat)
    } else {
        let prev = walk_entries(sibs, path, depth, md, ex, ig, vt, ao, n - 1);
        let step = walk_entry(sibs, path, depth, md, ex, ig, vt, ao, sibs[n - 1]);
        (prev.0 + step.0, prev.1 + step.1)
    }
}

pub open spec fn walk_entry(
    sibs: Seq<FsEntry>,
    path: Seq<char>,
    depth: int,
    md: Option<u8>,
    ex: Option<Seq<char>>,
    ig: Option<Seq<Seq<char>>>,
    vt: bool,
    ao: bool,
    e: FsEntry,
) -> (Seq<EntryV>, nat)
    decreases e, 1int, 0int,
{
    match e {
        FsEntry::File(f) => {
            let full = child_path(path, f.name@);
            if !excluded(ex, full) && (!ao || is_artifact_spec(f.name@, full, f.mode, vt, ig)) {
                (
                    seq![
                        (EntryV {
                            name: full,
                            bytes: f.len as nat,
                            depth: (depth + 1) as nat,
                            is_dir: false,
                        }),
                    ],
                    f.len as nat,
                )
            } else {
                (Seq::<EntryV>::empty(), 0nat)
            }
        },
        FsEntry::Dir(sub) => {
            let full = child_path(path, sub.name@);
            if excluded(ex, full) {
                (Seq::<EntryV>::empty(), 0nat)
            } else if md is Some && depth + 1 >= md->0 && !ao {
                let sz = size_tree(sub, full, ex, ig, vt, ao);
                (
                    seq![
                        (EntryV { name: full, bytes: sz, depth: (depth + 1) as nat, is_dir: true }),
                    ],
                    sz,
                )
            } else if ao && project_dir_spec(sibs, sub.name@) {
                let sz = size_tree(sub, full, ex, ig, vt, false);
                (
                    seq![
                        (EntryV { name: full, bytes: sz, depth: (depth + 1) as nat, is_dir: true }),
                    ],
                    sz,
                )
            } else {
                let rec = walk_tree(sub, full, depth + 1, md, ex, ig, vt, ao);
                (
                    rec.0.push(
                        (EntryV { name: full, bytes: rec.1, depth: (depth + 1) as nat, is_dir: true
                        }),
                    ),
                    rec.1,
                )
            }
        },
        FsEntry::Skip => (Seq::<EntryV>::empty(), 0nat),
    }
}

/// Law: the total the full engine reports does not depend on the starting
/// depth or the depth budget: depth-collapse only curtails the entry trail,
/// never the bytes. The total always equals the size-only engine's.
pub proof fn lemma_walk_total_is_size(
    d: FsDir,
    path: Seq<char>,
    depth: int,
    md: Option<u8>,
    ex: Option<Seq<char>>,
    ig0: Option<Seq<Seq<char>>>,
    vt: bool,
    ao: bool,
)
    ensures
        walk_tree(d, path, depth, md, ex, ig0, vt, ao).1 == size_tree(d, path, ex, ig0, vt, ao),
    decreases d, 1int, 0int,
{
    let ig = if ao {
        resolve_ignore(d, ig0)
    } else {
        Option::<Seq<Seq<char>>>::None
    };
    lemma_walk_entries_total(d.entries@, path, depth, md, ex, ig, vt, ao, d.entries@.len() as int);
}

pub proof fn lemma_walk_entries_total(
    sibs: Seq<FsEntry>,
    path: Seq<char>,
    depth: int,
    md: Option<u8>,
    ex: Option<Seq<char>>,
    ig: Option<Seq<Seq<char>>>,
    vt: bool,
    ao: bool,
    n: int,
)
    ensures
        walk_entries(sibs, path, depth, md, ex, ig, vt, ao, n).1 == size_entries(
            sibs,
            path,
            ex,
            ig,
            vt,
            ao,
            n,
        ),
    decreases sibs, 0int, n,
{
    if 0 < n <= sibs.len() {
        lemma_walk_entries_total(sibs, path, depth, md, ex, ig, vt, ao, n - 1);
        lemma_walk_entry_total(sibs, path, depth, md, ex, ig, vt, ao, sibs[n - 1]);
    }
}

pub proof fn lemma_walk_entry_total(
    sibs: Seq<FsEntry>,
    path: Seq<char>,
    depth: int,
    md: Option<u8>,
    ex: Option<Seq<char>>,
    ig: Option<Seq<Seq<char>>>,
    vt: bool,
    ao: bool,
    e: FsEntry,
)
    ensures
        walk_entry(sibs, path, depth, md, ex, ig, vt, ao, e).1 == size_entry(
            sibs,
            path,
            ex,
            ig,
            vt,
            ao,
            e,
        ),
    decreases e, 1int, 0int,
{
    match e {
        FsEntry::Dir(sub) => {
            let full = child_path(path, sub.name@);
            if !excluded(ex, full) {
                if md is Some && depth + 1 >= md->0 && !ao {
                } else if ao && project_dir_spec(sibs, sub.name@) {
                } else {
                    lemma_walk_total_is_size(sub, full, depth + 1, md, ex, ig, vt, ao);
                }
            }
        },
        _ => {},
    }
}

/// Law (depth-collapse equivalence): two runs of the full engine over the
/// same tree with the same filters report the same byte total whatever
/// their starting depths and depth budgets.
pub proof fn lemma_depth_collapse_total(
    d: FsDir,
    path: Seq<char>,
    depth1: int,
    md1: Option<u8>,
    depth2: int,
    md2: Option<u8>,
    ex: Option<Seq<char>>,
    ig0: Option<Seq<Seq<char>>>,
    vt: bool,
    ao: bool,
)
    ensures
        walk_tree(d, path, depth1, md1, ex, ig0, vt, ao).1 == walk_tree(
            d,
            path,
            depth2,
            md2,
            ex,
            ig0,
            vt,
            ao,
        ).1,
{
    lemma_walk_total_is_size(d, path, depth1, md1, ex, ig0, vt, ao);
    lemma_walk_total_is_size(d, path, depth2, md2, ex, ig0, vt, ao);
}

/// Total the bytes under one directory, honouring exclusions and (in
/// artifact mode) the classifiers, without building an entry trail.
pub fn read_size(
    in_paths: &str,
    dir: &FsDir,
    excludes: Option<&UserRegex>,
    maybe_gitignore: &Option<PatternSet>,
    vimtags: bool,
    artifacts_only: bool,
) -> (r: FileSize)
    requires
        dir_raw_size(*dir) <= u64::MAX,
    ensures
        r@ == size_tree(
            *dir,
            in_paths@,
            regex_view(excludes),
            ignore_view(*maybe_gitignore),
            vimtags,
            artifacts_only,
        ),
    decreases dir_height(*dir),
{
    let mut size = FileSize::new(0);
    let gitignore: Option<PatternSet> = if artifacts_only {
        mk_ignores(dir, maybe_gitignore)
    } else {
        None
    };
    let ghost ig = ignore_view(gitignore);
    let ghost ex = regex_view(excludes);
    let ghost sibs = dir.entries@;
    let n = dir.entries.len();
    let mut i: usize = 0;
    while i < n
        invariant
            n == sibs.len(),
            sibs == dir.entries@,
            0 <= i <= n,
            dir_raw_size(*dir) <= u64::MAX,
            entries_raw_size(sibs, n as int) == dir_raw_size(*dir),
            ig == (if artifacts_only {
                resolve_ignore(*dir, ignore_view(*maybe_gitignore))
            } else {
                Option::<Seq<Seq<char>>>::None
            }),
            ignore_view(gitignore) == ig,
            ex == regex_view(excludes),
            size@ == size_entries(sibs, in_paths@, ex, ig, vimtags, artifacts_only, i as int),
        decreases n - i,
    {
        proof {
            lemma_size_entries_le_raw(sibs, in_paths@, ex, ig, vimtags, artifacts_only, i as int);
            lemma_size_entry_le_raw(sibs, in_paths@, ex, ig, vimtags, artifacts_only, sibs[i as int]);
            lemma_entry_size_le_entries(sibs, n as int, i as int);
            lemma_entries_size_monotone(sibs, i as int, n as int);
            lemma_entries_size_monotone(sibs, i + 1, n as int);
        }
        match &dir.entries[i] {
            FsEntry::File(f) => {
                let full = path_join(in_paths, f.name.as_str());
                let excl = match excludes {
                    Some(r) => r.is_match(full.as_str()),
                    None => false,
                };
                if !excl {
                    let counted = if artifacts_only {
                        is_artifact(f.name.as_str(), full.as_str(), f.mode, vimtags, &gitignore)
                    } else {
                        true
                    };
                    if counted {
                        proof {
                            assert(entries_raw_size(sibs, i + 1) == entries_raw_size(sibs, i as int)
                                + entry_raw_size(sibs[i as int]));
                        }
                        size.add(FileSize::new(f.len));
                    }
                }
            },
            FsEntry::Dir(sub) => {
                let full = path_join(in_paths, sub.name.as_str());
                let excl = match excludes {
                    Some(r) => r.is_match(full.as_str()),
                    None => false,
                };
                if !excl {
                    proof {
                        assert(entry_raw_size(sibs[i as int]) == dir_raw_size(*sub));
                        lemma_entry_height_le_entries(sibs, n as int, i as int);
                        assert(entry_height(sibs[i as int]) == dir_height(*sub));
                        assert(dir_height(*sub) < dir_height(*dir));
                    }
                    let dir_size = if artifacts_only && is_project_dir(
                        &dir.entries,
                        sub.name.as_str(),
                    ) {
                        read_size(full.as_str(), sub, excludes, &gitignore, vimtags, false)
                    } else {
                        read_size(full.as_str(), sub, excludes, &gitignore, vimtags, artifacts_only)
                    };
                    size.add(dir_size);
                }
            },
            FsEntry::Skip => {},
        }
        i = i + 1;
    }
    size
}

/// Build the full tree for one directory: every surviving file and every
/// subdirectory becomes an entry, subdirectories recursively, with
/// depth-collapse and project-directory collapse as [`walk_tree`] states.
pub fn read_all(
    in_paths: &str,
    dir: &FsDir,
    depth: u8,
    max_depth: Option<u8>,
    excludes: Option<&UserRegex>,
    maybe_gitignore: &Option<PatternSet>,
    vimtags: bool,
    artifacts_only: bool,
) -> (r: FileTree)
    requires
        dir_raw_size(*dir) <= u64::MAX,
        depth + dir_height(*dir) <= u8::MAX,
    ensures
        pairs_view(r.files@) == walk_tree(
            *dir,
            in_paths@,
            depth as int,
            max_depth,
            regex_view(excludes),
            ignore_view(*maybe_gitignore),
            vimtags,
            artifacts_only,
        ).0,
        r.file_size@ == walk_tree(
            *dir,
            in_paths@,
            depth as int,
            max_depth,
            regex_view(excludes),
            ignore_view(*maybe_gitignore),
            vimtags,
            artifacts_only,
        ).1,
    decreases dir_height(*dir),
{
    let mut tree = FileTree::new();
    let gitignore: Option<PatternSet> = if artifacts_only {
        mk_ignores(dir, maybe_gitignore)
    } else {
        None
    };
    let ghost ig = ignore_view(gitignore);
    let ghost ex = regex_view(excludes);
    let ghost sibs = dir.entries@;
    let ghost dp = depth as int;
    let n = dir.entries.len();
    let mut i: usize = 0;
    proof {
        assert(pairs_view(tree.files@) =~= Seq::<EntryV>::empty());
    }
    while i < n
        invariant
            n == sibs.len(),
            sibs == dir.entries@,
            0 <= i <= n,
            dp == depth as int,
            dir_raw_size(*dir) <= u64::MAX,
            depth + dir_height(*dir) <= u8::MAX,
            entries_raw_size(sibs, n as int) == dir_raw_size(*dir),
            1 + entries_height(sibs, n as int) == dir_height(*dir),
            ig == (if artifacts_only {
                resolve_ignore(*dir, ignore_view(*maybe_gitignore))
            } else {
                Option::<Seq<Seq<char>>>::None
            }),
            ignore_view(gitignore) == ig,
            ex == regex_view(excludes),
            pairs_view(tree.files@) == walk_entries(
                sibs,
                in_paths@,
                dp,
                max_depth,
                ex,
                ig,
                vimtags,
                artifacts_only,
                i as int,
            ).0,
            tree.file_size@ == walk_entries(
                sibs,
                in_paths@,
                dp,
                max_depth,
                ex,
                ig,
                vimtags,
                artifacts_only,
                i as int,
            ).1,
        decreases n - i,
    {
        let ghost files0 = tree.files@;
        proof {
            lemma_walk_entries_total(
                sibs,
                in_paths@,
                dp,
                max_depth,
                ex,
                ig,
                vimtags,
                artifacts_only,
                i as int,
            );
            lemma_walk_entry_total(
                sibs,
                in_paths@,
                dp,
                max_depth,
                ex,
                ig,
                vimtags,
                artifacts_only,
                sibs[i as int],
            );
            lemma_size_entries_le_raw(sibs, in_paths@, ex, ig, vimtags, artifacts_only, i as int);
            lemma_size_entry_le_raw(sibs, in_paths@, ex, ig, vimtags, artifacts_only, sibs[i as int]);
            lemma_entry_size_le_entries(sibs, n as int, i as int);
            lemma_entries_size_monotone(sibs, i + 1, n as int);
            lemma_entry_height_le_entries(sibs, n as int, i as int);
            assert(entries_raw_size(sibs, i + 1) == entries_raw_size(sibs, i as int)
                + entry_raw_size(sibs[i as int]));
        }
        match &dir.entries[i] {
            FsEntry::File(f) => {
                let full = path_join(in_paths, f.name.as_str());
                let excl = match excludes {
                    Some(r) => r.is_match(full.as_str()),
                    None => false,
                };
                if !excl {
                    let counted = if artifacts_only {
                        is_artifact(f.name.as_str(), full.as_str(), f.mode, vimtags, &gitignore)
                    } else {
                        true
                    };
                    if counted {
                        tree.push(full, FileSize::new(f.len), None, depth + 1, false);
                        proof {
                            assert(pairs_view(tree.files@) =~= pairs_view(files0) + walk_entry(
                                sibs,
                                in_paths@,
                                dp,
                                max_depth,
                                ex,
                                ig,
                                vimtags,
                                artifacts_only,
                                sibs[i as int],
                            ).0);
                        }
                    }
                }
            },
            FsEntry::Dir(sub) => {
                let full = path_join(in_paths, sub.name.as_str());
                let excl = match excludes {
                    Some(r) => r.is_match(full.as_str()),
                    None => false,
                };
                if !excl {
                    proof {
                        assert(entry_raw_size(sibs[i as int]) == dir_raw_size(*sub));
                        assert(entry_height(sibs[i as int]) == dir_height(*sub));
                        assert(dir_height(*sub) < dir_height(*dir));
                    }
                    let collapse = match max_depth {
                        Some(m) => depth + 1 >= m && !artifacts_only,
                        None => false,
                    };
                    if collapse {
                        let dir_size = read_size(
                            full.as_str(),
                            sub,
                            excludes,
                            &gitignore,
                            vimtags,
                            artifacts_only,
                        );
                        tree.push(full, dir_size, None, depth + 1, true);
                    } else if artifacts_only && is_project_dir(&dir.entries, sub.name.as_str()) {
                        let dir_size = read_size(
                            full.as_str(),
                            sub,
                            excludes,
                            &gitignore,
                            vimtags,
                            false,
                        );
                        tree.push(full, dir_size, None, depth + 1, true);
                    } else {
                        let sub_tree = read_all(
                            full.as_str(),
                            sub,
                            depth + 1,
                            max_depth,
                            excludes,
                            &gitignore,
                            vimtags,
                            artifacts_only,
                        );
                        let dir_size = sub_tree.file_size;
                        let ghost sub_files = sub_tree.files@;
                        tree.push(full, dir_size, Some(sub_tree), depth + 1, true);
                        proof {
                            let step = walk_entry(
                                sibs,
                                in_paths@,
                                dp,
                                max_depth,
                                ex,
                                ig,
                                vimtags,
                                artifacts_only,
                                sibs[i as int],
                            );
                            assert(pairs_view(tree.files@) =~= pairs_view(files0) + step.0);
                        }
                    }
                    proof {
                        assert(pairs_view(tree.files@) =~= pairs_view(files0) + walk_entry(
                            sibs,
                            in_paths@,
                            dp,
                            max_depth,
                            ex,
                            ig,
                            vimtags,
                            artifacts_only,
                            sibs[i as int],
                        ).0);
                    }
                }
            },
            FsEntry::Skip => {},
        }
        i = i + 1;
        proof {
            let prev = walk_entries(
                sibs,
                in_paths@,
                dp,
                max_depth,
                ex,
                ig,
                vimtags,
                artifacts_only,
                i - 1,
            );
            let step = walk_entry(
                sibs,
                in_paths@,
                dp,
                max_depth,
                ex,
                ig,
                vimtags,
                artifacts_only,
                sibs[i - 1],
            );
            if pairs_view(tree.files@) == pairs_view(files0) {
                assert(pairs_view(files0) + Seq::<EntryV>::empty() =~= pairs_view(files0));
            }
            assert(walk_entries(
                sibs,
                in_paths@,
                dp,
                max_depth,
                ex,
                ig,
                vimtags,
                artifacts_only,
                i as int,
            ).0 == prev.0 + step.0);
        }
    }
    tree
}

/// Total every byte under one directory: the light-weight aggregation used
/// beyond the depth budget. The exclusion, ignore and tags parameters are
/// accepted for interface parity and ignored.
pub fn read_no_excludes(
    dir: &FsDir,
    excludes: Option<&UserRegex>,
    maybe_gitignore: &Option<PatternSet>,
    vimtags: bool,
) -> (r: FileSize)
    requires
        dir_raw_size(*dir) <= u64::MAX,
    ensures
        r@ == dir_raw_size(*dir),
    decreases dir_height(*dir),
{
    let _ = excludes;
    let _ = maybe_gitignore;
    let _ = vimtags;
    let mut size = FileSize::new(0);
    let ghost sibs = dir.entries@;
    let n = dir.entries.len();
    let mut i: usize = 0;
    while i < n
        invariant
            n == sibs.len(),
            sibs == dir.entries@,
            0 <= i <= n,
            dir_raw_size(*dir) <= u64::MAX,
            entries_raw_size(sibs, n as int) == dir_raw_size(*dir),
            size@ == entries_raw_size(sibs, i as int),
        decreases n - i,
    {
        proof {
            lemma_entry_size_le_entries(sibs, n as int, i as int);
            lemma_entries_size_monotone(sibs, i + 1, n as int);
        }
        match &dir.entries[i] {
            FsEntry::File(f) => {
                size.add(FileSize::new(f.len));
            },
            FsEntry::Dir(sub) => {
                proof {
                    assert(entry_raw_size(sibs[i as int]) == dir_raw_size(*sub));
                    lemma_entry_height_le_entries(sibs, n as int, i as int);
                    assert(entry_height(sibs[i as int]) == dir_height(*sub));
                }
                let dir_size = read_no_excludes(sub, None, &None, false);
                size.add(dir_size);
            },
            FsEntry::Skip => {},
        }
        i = i + 1;
    }
    size
}

/// What the unfiltered fast engine reports: every readable file and every
/// subdirectory, with subtrees beyond the depth budget collapsed to their
/// raw size.
pub open spec fn fast_tree(d: FsDir, path: Seq<char>, depth: int, md: Option<u8>) -> (
    Seq<EntryV>,
    nat,
)
    decreases d, 1int, 0int,
{
    fast_entries(d.entries@, path, depth, md, d.entries@.len() as int)
}

pub open spec fn fast_entries(
    sibs: Seq<FsEntry>,
    path: Seq<char>,
    depth: int,
    md: Option<u8>,
    n: int,
) -> (Seq<EntryV>, nat)
    decreases sibs, 0int, n,
{
    if n <= 0 || n > sibs.len() {
        (Seq::<EntryV>::empty(), 0nat)
    } else {
        let prev = fast_entries(sibs, path, depth, md, n - 1);
        let step = fast_entry(path, depth, md, sibs[n - 1]);
        (prev.0 + step.0, prev.1 + step.1)
    }
}

pub open spec fn fast_entry(path: Seq<char>, depth: int, md: Option<u8>, e: FsEntry) -> (
    Seq<EntryV>,
    nat,
)
    decreases e, 1int, 0int,
{
    match e {
        FsEntry::File(f) => {
            let full = child_path(path, f.name@);
            (
                seq![
                    (EntryV {
                        name: full,
                        bytes: f.len as nat,
                        depth: (depth + 1) as nat,
                        is_dir: false,
                    }),
                ],
                f.len as nat,
            )
        },
        FsEntry::Dir(sub) => {
            let full = child_path(path, sub.name@);
            if md is Some && depth + 1 >= md->0 {
                let sz = dir_raw_size(sub);
                (
                    seq![
                        (EntryV { name: full, bytes: sz, depth: (depth + 1) as nat, is_dir: true }),
                    ],
                    sz,
                )
            } else {
                let rec = fast_tree(sub, full, depth + 1, md);
                (
                    rec.0.push(
                        (EntryV { name: full, bytes: rec.1, depth: (depth + 1) as nat, is_dir: true
                        }),
                    ),
                    rec.1,
                )
            }
        },
        FsEntry::Skip => (Seq::<EntryV>::empty(), 0nat),
    }
}

/// Law: the fast engine's total is the raw recursive byte count, whatever
/// the starting depth and depth budget.
pub proof fn lemma_fast_total_is_raw(d: FsDir, path: Seq<char>, depth: int, md: Option<u8>)
    ensures
        fast_tree(d, path, depth, md).1 == dir_raw_size(d),
    decreases d, 1int, 0int,
{
    lemma_fast_entries_total(d.entries@, path, depth, md, d.entries@.len() as int);
}

pub proof fn lemma_fast_entries_total(
    sibs: Seq<FsEntry>,
    path: Seq<char>,
    depth: int,
    md: Option<u8>,
    n: int,
)
    ensures
        fast_entries(sibs, path, depth, md, n).1 == entries_raw_size(sibs, n),
    decreases sibs, 0int, n,
{
    if 0 < n <= sibs.len() {
        lemma_fast_entries_total(sibs, path, depth, md, n - 1);
        lemma_fast_entry_total(path, depth, md, sibs[n - 1]);
    }
}

pub proof fn lemma_fast_entry_total(path: Seq<char>, depth: int, md: Option<u8>, e: FsEntry)
    ensures
        fast_entry(path, depth, md, e).1 == entry_raw_size(e),
    decreases e, 1int, 0int,
{
    match e {
        FsEntry::Dir(sub) => {
            let full = child_path(path, sub.name@);
            if !(md is Some && depth + 1 >= md->0) {
                lemma_fast_total_is_raw(sub, full, depth + 1, md);
            }
        },
        _ => {},
    }
}

/// With no exclusions and no classification the size-only engine counts
/// every byte.
pub proof fn lemma_size_unfiltered_is_raw(
    d: FsDir,
    path: Seq<char>,
    ig0: Option<Seq<Seq<char>>>,
    vt: bool,
)
    ensures
        size_tree(d, path, None, ig0, vt, false) == dir_raw_size(d),
    decreases d, 1int, 0int,
{
    lemma_size_entries_unfiltered(d.entries@, path, vt, d.entries@.len() as int);
}

proof fn lemma_size_entries_unfiltered(sibs: Seq<FsEntry>, path: Seq<char>, vt: bool, n: int)
    ensures
        size_entries(sibs, path, None, None, vt, false, n) == entries_raw_size(sibs, n),
    decreases sibs, 0int, n,
{
    if 0 < n <= sibs.len() {
        lemma_size_entries_unfiltered(sibs, path, vt, n - 1);
        match sibs[n - 1] {
            FsEntry::Dir(sub) => {
                let full = child_path(path, sub.name@);
                lemma_size_unfiltered_is_raw(sub, full, None, vt);
                assert(size_entry(sibs, path, None, None, vt, false, sibs[n - 1])
                    == entry_raw_size(sibs[n - 1]));
            },
            FsEntry::File(f) => {
                assert(size_entry(sibs, path, None, None, vt, false, sibs[n - 1])
                    == entry_raw_size(sibs[n - 1]));
            },
            FsEntry::Skip => {
                assert(size_entry(sibs, path, None, None, vt, false, sibs[n - 1])
                    == entry_raw_size(sibs[n - 1]));
            },
        }
        assert(size_entries(sibs, path, None, None, vt, false, n)
            == size_entries(sibs, path, None, None, vt, false, n - 1)
            + size_entry(sibs, path, None, None, vt, false, sibs[n - 1]));
        assert(entries_raw_size(sibs, n) == entries_raw_size(sibs, n - 1)
            + entry_raw_size(sibs[n - 1]));
    }
}

/// Law (aggregation invariant): with no exclusions and no artifact
/// filtering, the byte total either engine reports for a directory is the
/// recursive sum of its children's bytes — files at any depth, collapsed
/// subtrees included — whatever the starting depth and depth budget.
pub proof fn lemma_aggregation_invariant(
    d: FsDir,
    path: Seq<char>,
    depth: int,
    md: Option<u8>,
    vt: bool,
)
    ensures
        walk_tree(d, path, depth, md, None, None, vt, false).1 == dir_raw_size(d),
        fast_tree(d, path, depth, md).1 == dir_raw_size(d),
{
    lemma_walk_total_is_size(d, path, depth, md, None, None, vt, false);
    lemma_size_unfiltered_is_raw(d, path, None, vt);
    lemma_fast_total_is_raw(d, path, depth, md);
}

/// Build the full tree with no exclusions and no classification: the fast
/// path the callers take when neither applies.
pub fn read_all_fast(in_paths: &str, dir: &FsDir, depth: u8, max_depth: Option<u8>) -> (r: FileTree)
    requires
        dir_raw_size(*dir) <= u64::MAX,
        depth + dir_height(*dir) <= u8::MAX,
    ensures
        pairs_view(r.files@) == fast_tree(*dir, in_paths@, depth as int, max_depth).0,
        r.file_size@ == fast_tree(*dir, in_paths@, depth as int, max_depth).1,
    decreases dir_height(*dir),
{
    let mut tree = FileTree::new();
    let ghost sibs = dir.entries@;
    let ghost dp = depth as int;
    let n = dir.entries.len();
    let mut i: usize = 0;
    proof {
        assert(pairs_view(tree.files@) =~= Seq::<EntryV>::empty());
    }
    while i < n
        invariant
            n == sibs.len(),
            sibs == dir.entries@,
            0 <= i <= n,
            dp == depth as int,
            dir_raw_size(*dir) <= u64::MAX,
            depth + dir_height(*dir) <= u8::MAX,
            entries_raw_size(sibs, n as int) == dir_raw_size(*dir),
            1 + entries_height(sibs, n as int) == dir_height(*dir),
            pairs_view(tree.files@) == fast_entries(sibs, in_paths@, dp, max_depth, i as int).0,
            tree.file_size@ == fast_entries(sibs, in_paths@, dp, max_depth, i as int).1,
        decreases n - i,
    {
        let ghost files0 = tree.files@;
        proof {
            lemma_fast_entries_total(sibs, in_paths@, dp, max_depth, i as int);
            lemma_fast_entry_total(in_paths@, dp, max_depth, sibs[i as int]);
            lemma_entry_size_le_entries(sibs, n as int, i as int);
            lemma_entries_size_monotone(sibs, i + 1, n as int);
            lemma_entry_height_le_entries(sibs, n as int, i as int);
            assert(entries_raw_size(sibs, i + 1) == entries_raw_size(sibs, i as int)
                + entry_raw_size(sibs[i as int]));
        }
        match &dir.entries[i] {
            FsEntry::File(f) => {
                let full = path_join(in_paths, f.name.as_str());
                tree.push(full, FileSize::new(f.len), None, depth + 1, false);
                proof {
                    assert(pairs_view(tree.files@) =~= pairs_view(files0) + fast_entry(
                        in_paths@,
                        dp,
                        max_depth,
                        sibs[i as int],
                    ).0);
                }
            },
            FsEntry::Dir(sub) => {
                proof {
                    assert(entry_raw_size(sibs[i as int]) == dir_raw_size(*sub));
                    assert(entry_height(sibs[i as int]) == dir_height(*sub));
                    assert(dir_height(*sub) < dir_height(*dir));
                }
                let full = path_join(in_paths, sub.name.as_str());
                let collapse = match max_depth {
                    Some(m) => depth + 1 >= m,
                    None => false,
                };
                if collapse {
                    let dir_size = read_no_excludes(sub, None, &None, false);
                    tree.push(full, dir_size, None, depth + 1, true);
                } else {
                    let sub_tree = read_all_fast(full.as_str(), sub, depth + 1, max_depth);
                    let dir_size = sub_tree.file_size;
                    tree.push(full, dir_size, Some(sub_tree), depth + 1, true);
                }
                proof {
                    assert(pairs_view(tree.files@) =~= pairs_view(files0) + fast_entry(
                        in_paths@,
                        dp,
                        max_depth,
                        sibs[i as int],
                    ).0);
                }
            },
            FsEntry::Skip => {},
        }
        i = i + 1;
        proof {
            let prev = fast_entries(sibs, in_paths@, dp, max_depth, i - 1);
            let step = fast_entry(in_paths@, dp, max_depth, sibs[i - 1]);
            if pairs_view(tree.files@) == pairs_view(files0) {
                assert(pairs_view(files0) + Seq::<EntryV>::empty() =~= pairs_view(files0));
            }
            assert(fast_entries(sibs, in_paths@, dp, max_depth, i as int).0 == prev.0 + step.0);
        }
    }
    tree
}

} // verus!
