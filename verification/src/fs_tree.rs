//! The filesystem model the traversal engines run on: a directory is a
//! value holding its entries, a file holds its byte length, its permission
//! bits and (for ignore files) the text it contains.
//!
//! The binary around this library builds one of these values from the real
//! filesystem and hands it in; an entry it could not read (a broken symlink,
//! a file whose type cannot be determined, a non-decodable name) appears as
//! [`FsEntry::Skip`] and contributes nothing anywhere.

use vstd::prelude::*;

verus! {

/// A regular file: its name, byte length, stat block count, permission
/// bits, and — where the caller has read it, as it does for ignore files —
/// its text.
pub struct FsFile {
    pub name: String,
    pub len: u64,
    pub blocks: u64,
    pub mode: u32,
    pub text: Option<String>,
}

/// A directory with its name and entries.
pub struct FsDir {
    pub name: String,
    pub entries: Vec<FsEntry>,
}

/// One directory entry.
pub enum FsEntry {
    File(FsFile),
    Dir(FsDir),
    /// An entry that could not be read: skipped silently everywhere.
    Skip,
}

/// Total bytes of every file anywhere below, with no filtering at all.
pub open spec fn entry_raw_size(e: FsEntry) -> nat
    decreases e, 0int,
{
    match e {
        FsEntry::File(f) => f.len as nat,
        FsEntry::Dir(d) => dir_raw_size(d),
        FsEntry::Skip => 0,
    }
}

pub open spec fn dir_raw_size(d: FsDir) -> nat
    decreases d, 0int,
{
    entries_raw_size(d.entries@, d.entries@.len() as int)
}

/// Total bytes of the first `n` entries.
pub open spec fn entries_raw_size(s: Seq<FsEntry>, n: int) -> nat
    decreases s, n,
{
    if n <= 0 || n > s.len() {
        0
    } else {
        entries_raw_size(s, n - 1) + entry_raw_size(s[n - 1])
    }
}

/// Nesting height: a directory is one higher than its highest entry.
pub open spec fn entry_height(e: FsEntry) -> nat
    decreases e, 0int,
{
    match e {
        FsEntry::File(f) => 0,
        FsEntry::Dir(d) => dir_height(d),
        FsEntry::Skip => 0,
    }
}

pub open spec fn dir_height(d: FsDir) -> nat
    decreases d, 0int,
{
    1 + entries_height(d.entries@, d.entries@.len() as int)
}

pub open spec fn entries_height(s: Seq<FsEntry>, n: int) -> nat
    decreases s, n,
{
    if n <= 0 || n > s.len() {
        0
    } else {
        let rest = entries_height(s, n - 1);
        let here = entry_height(s[n - 1]);
        if here > rest {
            here
        } else {
            rest
        }
    }
}

/// Every entry's bytes are part of the prefix total it belongs to.
pub proof fn lemma_entry_size_le_entries(s: Seq<FsEntry>, n: int, i: int)
    requires
        0 <= i < n <= s.len(),
    ensures
        entry_raw_size(s[i]) <= entries_raw_size(s, n),
    decreases n,
{
    if i < n - 1 {
        lemma_entry_size_le_entries(s, n - 1, i);
    }
}

/// Prefix totals grow with the prefix.
pub proof fn lemma_entries_size_monotone(s: Seq<FsEntry>, n1: int, n2: int)
    requires
        0 <= n1 <= n2 <= s.len(),
    ensures
        entries_raw_size(s, n1) <= entries_raw_size(s, n2),
    decreases n2,
{
    if n1 < n2 {
        lemma_entries_size_monotone(s, n1, n2 - 1);
    }
}

/// Every entry's height is within the prefix height it belongs to.
pub proof fn lemma_entry_height_le_entries(s: Seq<FsEntry>, n: int, i: int)
    requires
        0 <= i < n <= s.len(),
    ensures
        entry_height(s[i]) <= entries_height(s, n),
    decreases n,
{
    if i < n - 1 {
        lemma_entry_height_le_entries(s, n - 1, i);
    }
}

} // verus!
