//! Per-directory ignore-context resolution, metadata size selection, and
//! processor counting.

use vstd::prelude::*;

verus! {

use crate::fs_tree::FsDir;
use crate::fs_tree::FsEntry;
use crate::gitignore::compiled_patterns;
use crate::gitignore::darcs_contents_to_regex;
use crate::gitignore::darcs_patterns;
use crate::gitignore::file_contents_to_regex;
use crate::gitignore::gitignore_patterns;
use crate::matcher::PatternSet;
use crate::strutil::str_eq;

/// The text of the first readable file of this name, from position `i` on.
/// A file whose text could not be read counts as absent.
pub open spec fn find_file_text(entries: Seq<FsEntry>, name: Seq<char>, i: int) -> Option<
    Seq<char>,
>
    decreases entries.len() - i,
{
    if i < 0 || i >= entries.len() {
        None
    } else {
        match entries[i] {
            FsEntry::File(f) => if f.name@ == name && f.text is Some {
                Some(f.text->0@)
            } else {
                find_file_text(entries, name, i + 1)
            },
            _ => find_file_text(entries, name, i + 1),
        }
    }
}

/// The first subdirectory of this name, from position `i` on.
pub open spec fn find_subdir(entries: Seq<FsEntry>, name: Seq<char>, i: int) -> Option<FsDir>
    decreases entries.len() - i,
{
    if i < 0 || i >= entries.len() {
        None
    } else {
        match entries[i] {
            FsEntry::Dir(d) => if d.name@ == name {
                Some(d)
            } else {
                find_subdir(entries, name, i + 1)
            },
            _ => find_subdir(entries, name, i + 1),
        }
    }
}

/// The text of `_darcs/prefs/boring` under this directory, if present.
pub open spec fn darcs_boring_text(d: FsDir) -> Option<Seq<char>> {
    match find_subdir(d.entries@, "_darcs"@, 0) {
        None => None,
        Some(darcs) => match find_subdir(darcs.entries@, "prefs"@, 0) {
            None => None,
            Some(prefs) => find_file_text(prefs.entries@, "boring"@, 0),
        },
    }
}

/// The ignore context a directory resolves to: an inherited context is
/// reused untouched; otherwise `.ignore`, `.gitignore` and the darcs boring
/// file are probed in that order and the first hit is compiled.
pub open spec fn resolve_ignore(d: FsDir, inherited: Option<Seq<Seq<char>>>) -> Option<
    Seq<Seq<char>>,
> {
    if inherited is Some {
        inherited
    } else if find_file_text(d.entries@, ".ignore"@, 0) is Some {
        Some(compiled_patterns(gitignore_patterns(find_file_text(d.entries@, ".ignore"@, 0)->0)))
    } else if find_file_text(d.entries@, ".gitignore"@, 0) is Some {
        Some(compiled_patterns(gitignore_patterns(find_file_text(d.entries@, ".gitignore"@, 0)->0)))
    } else if darcs_boring_text(d) is Some {
        Some(compiled_patterns(darcs_patterns(darcs_boring_text(d)->0)))
    } else {
        None
    }
}

fn find_file_text_ref<'a>(entries: &'a Vec<FsEntry>, name: &str) -> (r: Option<&'a String>)
    ensures
        match r {
            Some(t) => find_file_text(entries@, name@, 0) == Some(t@),
            None => find_file_text(entries@, name@, 0) is None,
        },
{
    let n = entries.len();
    let mut i: usize = 0;
    while i < n
        invariant
            n == entries@.len(),
            0 <= i <= n,
            find_file_text(entries@, name@, 0) == find_file_text(entries@, name@, i as int),
        decreases n - i,
    {
        match &entries[i] {
            FsEntry::File(f) => {
                if str_eq(f.name.as_str(), name) {
                    match &f.text {
                        Some(t) => {
                            return Some(t);
                        },
                        None => {},
                    }
                }
            },
            _ => {},
        }
        i = i + 1;
    }
    None
}

fn find_subdir_ref<'a>(entries: &'a Vec<FsEntry>, name: &str) -> (r: Option<&'a FsDir>)
    ensures
        match r {
            Some(d) => find_subdir(entries@, name@, 0) == Some(*d),
            None => find_subdir(entries@, name@, 0) is None,
        },
{
    let n = entries.len();
    let mut i: usize = 0;
    while i < n
        invariant
            n == entries@.len(),
            0 <= i <= n,
            find_subdir(entries@, name@, 0) == find_subdir(entries@, name@, i as int),
        decreases n - i,
    {
        match &entries[i] {
            FsEntry::Dir(d) => {
                if str_eq(d.name.as_str(), name) {
                    return Some(d);
                }
            },
            _ => {},
        }
        i = i + 1;
    }
    None
}

/// Gather the applicable ignore context for one directory: reuse an
/// inherited one, else probe `.ignore`, `.gitignore` and the darcs boring
/// file in that order and compile the first found.
pub fn mk_ignores(dir: &FsDir, maybe_ignore: &Option<PatternSet>) -> (r: Option<PatternSet>)
    ensures
        crate::classify::ignore_view(r) == resolve_ignore(
            *dir,
            crate::classify::ignore_view(*maybe_ignore),
        ),
{
    match maybe_ignore {
        Some(ig) => Some(ig.clone()),
        None => {
            match find_file_text_ref(&dir.entries, ".ignore") {
                Some(t) => Some(file_contents_to_regex(t.as_str())),
                None => match find_file_text_ref(&dir.entries, ".gitignore") {
                    Some(t) => Some(file_contents_to_regex(t.as_str())),
                    None => {
                        match find_subdir_ref(&dir.entries, "_darcs") {
                            Some(darcs) => match find_subdir_ref(&darcs.entries, "prefs") {
                                Some(prefs) => match find_file_text_ref(&prefs.entries, "boring") {
                                    Some(t) => Some(darcs_contents_to_regex(t.as_str())),
                                    None => None,
                                },
                                None => None,
                            },
                            None => None,
                        }
                    },
                },
            }
        },
    }
}

/// The reported size of one file: its stat block count scaled to bytes when
/// block accounting is asked for, its byte length otherwise.
pub fn size(len: u64, blocks: u64, get_blocks: bool) -> (r: u64)
    requires
        get_blocks ==> blocks * 512 <= u64::MAX,
    ensures
        r == if get_blocks {
            blocks * 512
        } else {
            len as int
        },
{
    if get_blocks {
        blocks * 512
    } else {
        len
    }
}

/// Relies on `num_cpus::get`: the number of logical CPUs available to this
/// process, always at least 1.
#[verifier::external_body]
fn num_cpus_get() -> (r: usize)
    ensures
        1 <= r,
{
    num_cpus::get()
}

/// The worker count a core count yields: one core is kept back for the
/// spawning thread, but never below one worker.
pub fn worker_count(n: usize) -> (r: usize)
    ensures
        r == if n > 1 {
            n - 1
        } else {
            n as int
        },
{
    if n > 1 {
        n - 1
    } else {
        n
    }
}

/// The number of worker threads to use: the detected logical CPU count put
/// through `worker_count`.
pub fn get_processors() -> (r: usize)
    ensures
        1 <= r,
{
    worker_count(num_cpus_get())
}

} // verus!
