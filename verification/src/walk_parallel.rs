//! The parallel traversal plan: a `Walk` bundles one traversal's
//! configuration; the planner turns a root directory into one work unit per
//! immediate subdirectory plus the immediate files' bytes, and closes the
//! queue with one `Done` marker per worker. Each unit is meant to be run by
//! `print_dir` on its own thread; the law at the end states that, outside
//! artifact mode and block accounting, the bytes the units report plus the
//! immediate files always equal the sequential engine's total for the root
//! — whatever the worker count.

use vstd::prelude::*;

verus! {

use crate::classify::ignore_view;
use crate::fs_tree::FsDir;
use crate::fs_tree::FsEntry;
use crate::fs_tree::dir_height;
use crate::fs_tree::dir_raw_size;
use crate::matcher::PatternSet;
use crate::matcher::UserRegex;
use crate::single_threaded::EntryV;
use crate::single_threaded::child_path;
use crate::single_threaded::excluded;
use crate::single_threaded::fast_tree;
use crate::single_threaded::lemma_fast_total_is_raw;
use crate::single_threaded::lemma_size_unfiltered_is_raw;
use crate::single_threaded::lemma_walk_total_is_size;
use crate::single_threaded::pairs_view;
use crate::single_threaded::read_all;
use crate::single_threaded::read_all_fast;
use crate::single_threaded::size_entries;
use crate::single_threaded::size_entry;
use crate::single_threaded::size_tree;
use crate::single_threaded::walk_tree;
use crate::strutil::path_join;
use crate::types::FileSize;
use crate::types::FileTree;
use crate::types::NamePair;
use crate::types::keep_entry;
use crate::types::reported_total;

/// A queue message: a unit of work, or the marker a worker stops on.
pub enum Status<T> {
    Done,
    Data(T),
}

/// Everything one traversal needs: the root to walk and the options that
/// apply beneath it.
pub struct Walk {
    pub path: String,
    pub gitignore: Option<PatternSet>,
    pub hgignore: Option<PatternSet>,
    pub darcs_boring: Option<PatternSet>,
    pub excludes: Option<UserRegex>,
    pub max_depth: Option<u8>,
    pub threshold: Option<u64>,
    pub start_depth: usize,
    pub nproc: usize,
    pub show_files: bool,
    pub get_blocks: bool,
    pub follow_symlinks: bool,
    pub artifacts_only: bool,
}

/// The abstract value of a `Walk`: its path and options, with each compiled
/// pattern replaced by its source text.
pub ghost struct WalkV {
    pub path: Seq<char>,
    pub gitignore: Option<Seq<Seq<char>>>,
    pub excludes: Option<Seq<char>>,
    pub max_depth: Option<u8>,
    pub threshold: Option<u64>,
    pub start_depth: nat,
    pub nproc: nat,
    pub show_files: bool,
    pub get_blocks: bool,
    pub artifacts_only: bool,
}

impl View for Walk {
    type V = WalkV;

    open spec fn view(&self) -> WalkV {
        WalkV {
            path: self.path@,
            gitignore: ignore_view(self.gitignore),
            excludes: match self.excludes {
                Some(ref r) => Some(r@),
                None => None,
            },
            max_depth: self.max_depth,
            threshold: self.threshold,
            start_depth: self.start_depth as nat,
            nproc: self.nproc as nat,
            show_files: self.show_files,
            get_blocks: self.get_blocks,
            artifacts_only: self.artifacts_only,
        }
    }
}

impl Walk {
    /// A fresh walk of `p` with every option at its default, to be run with
    /// `n` workers.
    pub fn new(p: String, n: usize) -> (r: Walk)
        ensures
            r@.path == p@,
            r@.gitignore is None,
            r@.excludes is None,
            r@.max_depth is None,
            r@.threshold is None,
            r@.start_depth == 0,
            r@.nproc == n,
            !r@.show_files,
            !r@.get_blocks,
            !r@.artifacts_only,
    {
        Walk {
            path: p,
            gitignore: None,
            hgignore: None,
            darcs_boring: None,
            excludes: None,
            max_depth: None,
            threshold: None,
            start_depth: 0,
            nproc: n,
            show_files: false,
            get_blocks: false,
            follow_symlinks: false,
            artifacts_only: false,
        }
    }

    /// Set the maximum depth to display.
    pub fn set_depth(&mut self, d: u8)
        ensures
            *final(self) == (Walk { max_depth: Some(d), ..*old(self) }),
    {
        self.max_depth = Some(d);
    }

    /// Set the regex for excludes.
    pub fn set_regex(&mut self, r: UserRegex)
        ensures
            final(self).excludes is Some,
            final(self)@.excludes == Some(r@),
            *final(self) == (Walk { excludes: final(self).excludes, ..*old(self) }),
    {
        self.excludes = Some(r);
    }

    /// Set the minimum byte threshold.
    pub fn set_threshold(&mut self, n: u64)
        ensures
            *final(self) == (Walk { threshold: Some(n), ..*old(self) }),
    {
        self.threshold = Some(n);
    }

    /// Include files when printing.
    pub fn with_files(&mut self)
        ensures
            *final(self) == (Walk { show_files: true, ..*old(self) }),
    {
        self.show_files = true;
    }

    /// Count stat blocks instead of byte lengths.
    pub fn blocks(&mut self)
        ensures
            *final(self) == (Walk { get_blocks: true, ..*old(self) }),
    {
        self.get_blocks = true;
    }

    /// Report artifacts only.
    pub fn artifacts_only(&mut self)
        ensures
            *final(self) == (Walk { artifacts_only: true, ..*old(self) }),
    {
        self.artifacts_only = true;
    }

    /// The number of workers this walk was configured with.
    pub fn get_proc(&self) -> (r: usize)
        ensures
            r == self.nproc,
    {
        self.nproc
    }

    fn bump_depth(&mut self)
        requires
            old(self).start_depth < usize::MAX,
        ensures
            final(self).start_depth == old(self).start_depth + 1,
            *final(self) == (Walk { start_depth: final(self).start_depth, ..*old(self) }),
    {
        self.start_depth = self.start_depth + 1;
    }
}

/// The view-level filter predicate matching `crate::types::keep_entry`.
pub open spec fn keep_entry_v(
    e: EntryV,
    min_bytes: Option<u64>,
    dirs_only: bool,
    max_depth: Option<u8>,
) -> bool {
    (dirs_only ==> e.is_dir) && (match min_bytes {
        Some(m) => e.bytes > m,
        None => true,
    }) && (match max_depth {
        Some(m) => e.depth <= m,
        None => true,
    })
}

/// Filtering entries and abstracting them commute.
pub proof fn lemma_filter_view_commute(
    s: Seq<NamePair>,
    min_bytes: Option<u64>,
    dirs_only: bool,
    max_depth: Option<u8>,
)
    ensures
        pairs_view(s.filter(|p: NamePair| keep_entry(p, min_bytes, dirs_only, max_depth)))
            == pairs_view(s).filter(|e: EntryV| keep_entry_v(e, min_bytes, dirs_only, max_depth)),
    decreases s.len(),
{
    reveal(Seq::filter);
    let pk = |p: NamePair| keep_entry(p, min_bytes, dirs_only, max_depth);
    let vk = |e: EntryV| keep_entry_v(e, min_bytes, dirs_only, max_depth);
    if s.len() == 0 {
        assert(pairs_view(s.filter(pk)) =~= pairs_view(s).filter(vk));
    } else {
        lemma_filter_view_commute(s.drop_last(), min_bytes, dirs_only, max_depth);
        assert(pairs_view(s).drop_last() =~= pairs_view(s.drop_last()));
        assert(pairs_view(s).last() == pairs_view(s)[s.len() - 1]);
        if pk(s.last()) {
            assert(pairs_view(s.filter(pk)) =~= pairs_view(s.drop_last().filter(pk)).push(
                pairs_view(s).last(),
            ));
        } else {
            assert(pairs_view(s.filter(pk)) =~= pairs_view(s.drop_last().filter(pk)));
        }
        assert(pairs_view(s.filter(pk)) =~= pairs_view(s).filter(vk));
    }
}

/// The tree `print_dir` builds for one work unit: the full engine when an
/// exclusion regex or artifact mode calls for it, the fast engine otherwise.
pub open spec fn print_dir_tree(w: WalkV, d: FsDir) -> (Seq<EntryV>, nat) {
    if w.excludes is Some || w.artifacts_only {
        walk_tree(
            d,
            w.path,
            w.start_depth as int,
            w.max_depth,
            w.excludes,
            w.gitignore,
            false,
            w.artifacts_only,
        )
    } else {
        fast_tree(d, w.path, w.start_depth as int, w.max_depth)
    }
}

/// Whether `print_dir` emits a listing: the unit's total must beat the
/// threshold, and a zero depth budget suppresses output altogether.
pub open spec fn print_dir_shows(w: WalkV, total: nat) -> bool {
    (match w.threshold {
        Some(m) => total > m,
        None => true,
    }) && w.max_depth != Some(0u8)
}

/// Run one work unit: build its tree, report the bytes to add to the shared
/// total, and return the filtered listing to print, if any.
pub fn print_dir(w: &Walk, dir: &FsDir) -> (r: (FileSize, Option<FileTree>))
    requires
        dir_raw_size(*dir) <= u64::MAX,
        w.start_depth + dir_height(*dir) <= u8::MAX,
    ensures
        r.0@ == print_dir_tree(w@, *dir).1,
        r.1 is Some <==> print_dir_shows(w@, print_dir_tree(w@, *dir).1),
        r.1 matches Some(t) ==> t.file_size@ == reported_total(r.0@, w@.threshold)
            && pairs_view(t.files@) == print_dir_tree(w@, *dir).0.filter(
            |e: EntryV| keep_entry_v(e, w@.threshold, !w@.show_files, w@.max_depth),
        ),
{
    let start = w.start_depth as u8;
    let v: FileTree = if w.excludes.is_some() || w.artifacts_only {
        proof {
            lemma_walk_total_is_size(
                *dir,
                w@.path,
                w@.start_depth as int,
                w@.max_depth,
                w@.excludes,
                w@.gitignore,
                false,
                w@.artifacts_only,
            );
        }
        read_all(
            w.path.as_str(),
            dir,
            start,
            w.max_depth,
            w.excludes.as_ref(),
            &w.gitignore,
            false,
            w.artifacts_only,
        )
    } else {
        read_all_fast(w.path.as_str(), dir, start, w.max_depth)
    };
    let subdir_size = v.file_size;
    let to_print = match w.threshold {
        Some(m) => subdir_size.get() > m,
        None => true,
    };
    let to_print = match w.max_depth {
        Some(0u8) => false,
        _ => to_print,
    };
    if to_print {
        let ghost files = v.files@;
        let v_filtered = v.filtered(w.threshold, !w.show_files, w.max_depth);
        proof {
            lemma_filter_view_commute(files, w@.threshold, !w@.show_files, w@.max_depth);
        }
        (subdir_size, Some(v_filtered))
    } else {
        (subdir_size, None)
    }
}

/// The abstract value of a queue message.
pub open spec fn status_view(s: Status<Walk>) -> Option<WalkV> {
    match s {
        Status::Done => None,
        Status::Data(u) => Some(u@),
    }
}

pub open spec fn status_views(s: Seq<Status<Walk>>) -> Seq<Option<WalkV>> {
    s.map_values(|x: Status<Walk>| status_view(x))
}

/// The walk a planned unit carries: the subdirectory's path at depth one,
/// bundling the exclusion regex, depth budget, threshold, file display,
/// worker count and the artifact and block-accounting flags. Each unit
/// resolves its own ignore context when it runs.
pub open spec fn unit_walk(w: WalkV, full: Seq<char>) -> WalkV {
    WalkV {
        path: full,
        gitignore: None,
        excludes: w.excludes,
        max_depth: w.max_depth,
        threshold: w.threshold,
        start_depth: 1,
        nproc: w.nproc,
        show_files: w.show_files,
        get_blocks: w.get_blocks,
        artifacts_only: w.artifacts_only,
    }
}

/// The work units the planner pushes for the first `n` entries: one per
/// non-excluded subdirectory, in directory order.
pub open spec fn plan_units(sibs: Seq<FsEntry>, w: WalkV, n: int) -> Seq<Option<WalkV>>
    decreases n,
{
    if n <= 0 || n > sibs.len() {
        Seq::<Option<WalkV>>::empty()
    } else {
        let prev = plan_units(sibs, w, n - 1);
        match sibs[n - 1] {
            FsEntry::Dir(sub) => {
                let full = child_path(w.path, sub.name@);
                if !excluded(w.excludes, full) {
                    prev.push(Some(unit_walk(w, full)))
                } else {
                    prev
                }
            },
            _ => prev,
        }
    }
}

/// The bytes one file accounts for: its stat block count scaled to bytes
/// under block accounting, its byte length otherwise.
pub open spec fn file_size_of(f: crate::fs_tree::FsFile, get_blocks: bool) -> nat {
    if get_blocks {
        (f.blocks * 512) as nat
    } else {
        f.len as nat
    }
}

/// The accounted bytes of every immediate file among the first `n` entries,
/// with no exclusion applied: the machine-limit bound the planner asks its
/// caller for.
pub open spec fn files_size_total(sibs: Seq<FsEntry>, get_blocks: bool, n: int) -> nat
    decreases n,
{
    if n <= 0 || n > sibs.len() {
        0
    } else {
        files_size_total(sibs, get_blocks, n - 1) + (match sibs[n - 1] {
            FsEntry::File(f) => file_size_of(f, get_blocks),
            _ => 0,
        })
    }
}

pub proof fn lemma_files_size_monotone(sibs: Seq<FsEntry>, get_blocks: bool, n1: int, n2: int)
    requires
        0 <= n1 <= n2 <= sibs.len(),
    ensures
        files_size_total(sibs, get_blocks, n1) <= files_size_total(sibs, get_blocks, n2),
    decreases n2,
{
    if n1 < n2 {
        lemma_files_size_monotone(sibs, get_blocks, n1, n2 - 1);
    }
}

/// The bytes of the non-excluded immediate files among the first `n`
/// entries: what the planner itself adds to the shared total.
pub open spec fn plan_files_total(
    sibs: Seq<FsEntry>,
    path: Seq<char>,
    ex: Option<Seq<char>>,
    get_blocks: bool,
    n: int,
) -> nat
    decreases n,
{
    if n <= 0 || n > sibs.len() {
        0
    } else {
        plan_files_total(sibs, path, ex, get_blocks, n - 1) + (match sibs[n - 1] {
            FsEntry::File(f) => {
                if !excluded(ex, child_path(path, f.name@)) {
                    file_size_of(f, get_blocks)
                } else {
                    0
                }
            },
            _ => 0,
        })
    }
}

/// Exclusion only removes terms from the accounted files.
pub proof fn lemma_plan_files_le(
    sibs: Seq<FsEntry>,
    path: Seq<char>,
    ex: Option<Seq<char>>,
    get_blocks: bool,
    n: int,
)
    ensures
        plan_files_total(sibs, path, ex, get_blocks, n) <= files_size_total(sibs, get_blocks, n),
    decreases n,
{
    if 0 < n <= sibs.len() {
        lemma_plan_files_le(sibs, path, ex, get_blocks, n - 1);
    }
}

/// The bytes the planned units will report when each is run by `print_dir`,
/// over the first `n` entries.
pub open spec fn plan_units_total(sibs: Seq<FsEntry>, w: WalkV, n: int) -> nat
    decreases n,
{
    if n <= 0 || n > sibs.len() {
        0
    } else {
        plan_units_total(sibs, w, n - 1) + (match sibs[n - 1] {
            FsEntry::Dir(sub) => {
                let full = child_path(w.path, sub.name@);
                if !excluded(w.excludes, full) {
                    print_dir_tree(unit_walk(w, full), sub).1
                } else {
                    0
                }
            },
            _ => 0,
        })
    }
}

/// Enumerate the root's immediate entries: push one work unit per
/// non-excluded subdirectory, total the non-excluded immediate files (by
/// blocks or by length as the walk asks), and close the queue with one
/// `Done` marker per worker.
pub fn push_subdir(w: &Walk, dir: &FsDir) -> (r: (Vec<Status<Walk>>, FileSize))
    requires
        files_size_total(dir.entries@, w.get_blocks, dir.entries@.len() as int) <= u64::MAX,
    ensures
        status_views(r.0@) == plan_units(dir.entries@, w@, dir.entries@.len() as int) + Seq::new(
            w@.nproc,
            |k: int| Option::<WalkV>::None,
        ),
        r.1@ == plan_files_total(
            dir.entries@,
            w@.path,
            w@.excludes,
            w@.get_blocks,
            dir.entries@.len() as int,
        ),
{
    let mut units: Vec<Status<Walk>> = Vec::new();
    let mut total = FileSize::new(0);
    let ghost sibs = dir.entries@;
    let n = dir.entries.len();
    let mut i: usize = 0;
    proof {
        assert(status_views(units@) =~= plan_units(sibs, w@, 0));
    }
    while i < n
        invariant
            n == sibs.len(),
            sibs == dir.entries@,
            0 <= i <= n,
            w.get_blocks == w@.get_blocks,
            files_size_total(sibs, w@.get_blocks, n as int) <= u64::MAX,
            status_views(units@) == plan_units(sibs, w@, i as int),
            total@ == plan_files_total(sibs, w@.path, w@.excludes, w@.get_blocks, i as int),
            total@ <= files_size_total(sibs, w@.get_blocks, i as int),
        decreases n - i,
    {
        let ghost units0 = units@;
        proof {
            lemma_files_size_monotone(sibs, w@.get_blocks, i + 1, n as int);
            assert(files_size_total(sibs, w@.get_blocks, i + 1) == files_size_total(
                sibs,
                w@.get_blocks,
                i as int,
            ) + (match sibs[i as int] {
                FsEntry::File(f) => file_size_of(f, w@.get_blocks),
                _ => 0nat,
            }));
        }
        match &dir.entries[i] {
            FsEntry::File(f) => {
                let full = path_join(w.path.as_str(), f.name.as_str());
                let excl = match &w.excludes {
                    Some(r) => r.is_match(full.as_str()),
                    None => false,
                };
                if !excl {
                    let accounted = crate::utils::size(f.len, f.blocks, w.get_blocks);
                    total.add(FileSize::new(accounted));
                }
            },
            FsEntry::Dir(sub) => {
                let full = path_join(w.path.as_str(), sub.name.as_str());
                let excl = match &w.excludes {
                    Some(r) => r.is_match(full.as_str()),
                    None => false,
                };
                if !excl {
                    let mut new_walk = Walk::new(full, w.get_proc());
                    match &w.excludes {
                        Some(r) => new_walk.set_regex(r.clone()),
                        None => {},
                    }
                    if w.show_files {
                        new_walk.with_files();
                    }
                    new_walk.bump_depth();
                    match w.max_depth {
                        Some(d) => new_walk.set_depth(d),
                        None => {},
                    }
                    match w.threshold {
                        Some(b) => new_walk.set_threshold(b),
                        None => {},
                    }
                    if w.artifacts_only {
                        new_walk.artifacts_only();
                    }
                    if w.get_blocks {
                        new_walk.blocks();
                    }
                    proof {
                        assert(new_walk@ == unit_walk(w@, child_path(w@.path, sub.name@)));
                    }
                    units.push(Status::Data(new_walk));
                }
            },
            FsEntry::Skip => {},
        }
        i = i + 1;
        proof {
            if status_views(units@) != status_views(units0) {
                assert(units@ =~= units0.push(units@.last()));
                assert(status_views(units@) =~= status_views(units0).push(
                    status_view(units@.last()),
                ));
            }
            assert(status_views(units@) =~= plan_units(sibs, w@, i as int));
        }
    }
    let nproc = w.get_proc();
    let mut k: usize = 0;
    let ghost planned = plan_units(sibs, w@, n as int);
    while k < nproc
        invariant
            0 <= k <= nproc,
            nproc == w@.nproc,
            planned == plan_units(sibs, w@, sibs.len() as int),
            sibs == dir.entries@,
            status_views(units@) == planned + Seq::new(k as nat, |q: int| Option::<WalkV>::None),
            total@ == plan_files_total(sibs, w@.path, w@.excludes, w@.get_blocks, sibs.len() as int),
        decreases nproc - k,
    {
        let ghost units0 = units@;
        units.push(Status::Done);
        k = k + 1;
        proof {
            assert(units@ =~= units0.push(Status::Done));
            assert(status_views(units@) =~= status_views(units0).push(
                Option::<WalkV>::None,
            ));
            assert(Seq::new(k as nat, |q: int| Option::<WalkV>::None) =~= Seq::new(
                (k - 1) as nat,
                |q: int| Option::<WalkV>::None,
            ).push(Option::<WalkV>::None));
            assert(status_views(units@) =~= planned + Seq::new(
                k as nat,
                |q: int| Option::<WalkV>::None,
            ));
        }
    }
    (units, total)
}

/// Law (parallel/sequential equivalence): outside artifact mode and block
/// accounting, the immediate files' bytes plus the bytes each planned unit
/// reports through `print_dir` equal the sequential engine's total for the
/// root — for any worker count, which only changes how many `Done` markers
/// close the queue. In artifact mode the planner's own accounting differs
/// by design (every immediate file counts, and a unit resolves its own
/// ignore context rather than the root's), so the law excludes it.
pub proof fn lemma_parallel_sequential_total(d: FsDir, w: WalkV)
    requires
        !w.artifacts_only,
        !w.get_blocks,
    ensures
        plan_files_total(d.entries@, w.path, w.excludes, false, d.entries@.len() as int)
            + plan_units_total(d.entries@, w, d.entries@.len() as int) == size_tree(
            d,
            w.path,
            w.excludes,
            None,
            false,
            false,
        ),
{
    lemma_plan_total_entries(d.entries@, w, d.entries@.len() as int);
}

proof fn lemma_plan_total_entries(sibs: Seq<FsEntry>, w: WalkV, n: int)
    requires
        !w.artifacts_only,
        !w.get_blocks,
    ensures
        plan_files_total(sibs, w.path, w.excludes, false, n) + plan_units_total(sibs, w, n)
            == size_entries(sibs, w.path, w.excludes, None, false, false, n),
    decreases n,
{
    if 0 < n <= sibs.len() {
        lemma_plan_total_entries(sibs, w, n - 1);
        let e = sibs[n - 1];
        match e {
            FsEntry::Dir(sub) => {
                let full = child_path(w.path, sub.name@);
                if !excluded(w.excludes, full) {
                    let unit = unit_walk(w, full);
                    if unit.excludes is Some {
                        lemma_walk_total_is_size(
                            sub,
                            full,
                            1,
                            unit.max_depth,
                            unit.excludes,
                            None,
                            false,
                            false,
                        );
                    } else {
                        lemma_fast_total_is_raw(sub, full, 1, unit.max_depth);
                        lemma_size_unfiltered_is_raw(sub, full, None, false);
                    }
                    assert(print_dir_tree(unit, sub).1 == size_tree(
                        sub,
                        full,
                        w.excludes,
                        None,
                        false,
                        false,
                    ));
                }
                assert(size_entry(sibs, w.path, w.excludes, None, false, false, e)
                    == (if !excluded(w.excludes, full) {
                    size_tree(sub, full, w.excludes, None, false, false)
                } else {
                    0nat
                }));
            },
            FsEntry::File(f) => {
                assert(size_entry(sibs, w.path, w.excludes, None, false, false, e) == (
                if !excluded(w.excludes, child_path(w.path, f.name@)) {
                    f.len as nat
                } else {
                    0nat
                }));
            },
            FsEntry::Skip => {
                assert(size_entry(sibs, w.path, w.excludes, None, false, false, e) == 0nat);
            },
        }
        assert(size_entries(sibs, w.path, w.excludes, None, false, false, n) == size_entries(
            sibs,
            w.path,
            w.excludes,
            None,
            false,
            false,
            n - 1,
        ) + size_entry(sibs, w.path, w.excludes, None, false, false, e));
    }
}

} // verus!
