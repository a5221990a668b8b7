//! Core value types: byte counts, flattened tree entries, and the
//! size-aggregating tree with its filter and sort transforms.

use vstd::prelude::*;

verus! {

use vstd::multiset::Multiset;

/// A non-negative byte count with a total order and explicit addition.
#[derive(Clone, Copy, PartialEq, Eq, Structural)]
pub struct FileSize {
    size: u64,
}

impl View for FileSize {
    type V = u64;

    closed spec fn view(&self) -> u64 {
        self.size
    }
}

impl FileSize {
    pub fn new(i: u64) -> (r: FileSize)
        ensures
            r@ == i,
    {
        FileSize { size: i }
    }

    /// Accumulate another byte count in place.
    pub fn add(&mut self, other: FileSize)
        requires
            old(self)@ + other@ <= u64::MAX,
        ensures
            final(self)@ == old(self)@ + other@,
    {
        self.size = self.size + other.size;
    }

    pub fn get(self) -> (r: u64)
        ensures
            r == self@,
    {
        self.size
    }
}

/// One flattened record of the tree: a file or a directory, tagged with the
/// full path it was reported under, its own subtree size, and its depth.
pub struct NamePair {
    pub bytes: FileSize,
    pub depth: u8,
    pub name: String,
    pub is_dir: bool,
}

impl NamePair {
    pub fn new(path: String, bytes_in: FileSize, d: u8, b: bool) -> (r: NamePair)
        ensures
            r.name == path,
            r.bytes == bytes_in,
            r.depth == d,
            r.is_dir == b,
    {
        NamePair { name: path, bytes: bytes_in, depth: d, is_dir: b }
    }
}

/// Whether a byte count exceeds an optional strict threshold; absent means
/// everything passes.
pub open spec fn over_threshold(bytes: u64, min_bytes: Option<u64>) -> bool {
    match min_bytes {
        Some(m) => bytes > m,
        None => true,
    }
}

/// Whether a depth lies within an optional depth bound; absent means
/// everything passes.
pub open spec fn within_depth(depth: u8, max_depth: Option<u8>) -> bool {
    match max_depth {
        Some(m) => depth <= m,
        None => true,
    }
}

/// The predicate that `FileTree::filtered` and `FileTree::sort` keep an
/// entry under.
pub open spec fn keep_entry(
    e: NamePair,
    min_bytes: Option<u64>,
    dirs_only: bool,
    max_depth: Option<u8>,
) -> bool {
    (dirs_only ==> e.is_dir) && over_threshold(e.bytes@, min_bytes) && within_depth(
        e.depth,
        max_depth,
    )
}

/// The entries surviving the filter predicate, in their original order.
pub open spec fn kept_entries(
    files: Seq<NamePair>,
    min_bytes: Option<u64>,
    dirs_only: bool,
    max_depth: Option<u8>,
) -> Seq<NamePair> {
    files.filter(|e: NamePair| keep_entry(e, min_bytes, dirs_only, max_depth))
}

/// The grand total that a filtered tree reports: the original total if it
/// itself exceeds the threshold, otherwise suppressed to zero.
pub open spec fn reported_total(total: u64, min_bytes: Option<u64>) -> u64 {
    if over_threshold(total, min_bytes) {
        total
    } else {
        0
    }
}

/// Entries in non-increasing size order.
pub open spec fn sorted_desc(s: Seq<NamePair>) -> bool {
    forall|i: int, j: int| 0 <= i < j < s.len() ==> #[trigger] s[i].bytes@ >= #[trigger] s[j].bytes@
}

/// Entries in non-decreasing size order.
pub open spec fn sorted_asc(s: Seq<NamePair>) -> bool {
    forall|i: int, j: int| 0 <= i < j < s.len() ==> #[trigger] s[i].bytes@ <= #[trigger] s[j].bytes@
}

fn keep_entry_exec(
    e: &NamePair,
    min_bytes: Option<u64>,
    dirs_only: bool,
    max_depth: Option<u8>,
) -> (r: bool)
    ensures
        r == keep_entry(*e, min_bytes, dirs_only, max_depth),
{
    let dirs_ok = if dirs_only {
        e.is_dir
    } else {
        true
    };
    let size_ok = match min_bytes {
        Some(m) => e.bytes.get() > m,
        None => true,
    };
    let depth_ok = match max_depth {
        Some(m) => e.depth <= m,
        None => true,
    };
    dirs_ok && size_ok && depth_ok
}

/// Keep exactly the entries satisfying `keep_entry`, in their original order.
fn filter_entries(
    v: Vec<NamePair>,
    min_bytes: Option<u64>,
    dirs_only: bool,
    max_depth: Option<u8>,
) -> (r: Vec<NamePair>)
    ensures
        r@ == v@.filter(|e: NamePair| keep_entry(e, min_bytes, dirs_only, max_depth)),
{
    let ghost pred = |e: NamePair| keep_entry(e, min_bytes, dirs_only, max_depth);
    let ghost orig = v@;
    let mut rest = v;
    let mut out: Vec<NamePair> = Vec::new();
    let ghost mut done: Seq<NamePair> = Seq::empty();
    proof {
        reveal(Seq::filter);
        assert(done + rest@ =~= orig);
    }
    while rest.len() > 0
        invariant
            orig == done + rest@,
            out@ == done.filter(pred),
            pred == (|e: NamePair| keep_entry(e, min_bytes, dirs_only, max_depth)),
        decreases rest@.len(),
    {
        let ghost prev = rest@;
        let e = rest.remove(0);
        let keep = keep_entry_exec(&e, min_bytes, dirs_only, max_depth);
        proof {
            reveal(Seq::filter);
            assert(done.push(e).drop_last() =~= done);
            assert(done.push(e).last() == e);
            assert(done.push(e) + rest@ =~= done + prev);
        }
        if keep {
            out.push(e);
        }
        proof {
            done = done.push(e);
        }
    }
    proof {
        assert(done =~= orig);
    }
    out
}

/// Insert `x` into a list sorted largest-first, after every element at
/// least as large: the insertion step of a stable sort.
pub open spec fn insert_desc(s: Seq<NamePair>, x: NamePair) -> Seq<NamePair>
    decreases s.len(),
{
    if s.len() == 0 {
        seq![x]
    } else if s[0].bytes@ >= x.bytes@ {
        seq![s[0]] + insert_desc(s.drop_first(), x)
    } else {
        seq![x] + s
    }
}

/// The stable largest-first ordering of `s`: equal sizes keep their
/// original relative order.
pub open spec fn sort_desc_spec(s: Seq<NamePair>) -> Seq<NamePair>
    decreases s.len(),
{
    if s.len() == 0 {
        s
    } else {
        insert_desc(sort_desc_spec(s.drop_last()), s.last())
    }
}

/// Insert `x` into a list sorted smallest-first, after every element no
/// larger.
pub open spec fn insert_asc(s: Seq<NamePair>, x: NamePair) -> Seq<NamePair>
    decreases s.len(),
{
    if s.len() == 0 {
        seq![x]
    } else if s[0].bytes@ <= x.bytes@ {
        seq![s[0]] + insert_asc(s.drop_first(), x)
    } else {
        seq![x] + s
    }
}

/// The stable smallest-first ordering of `s`.
pub open spec fn sort_asc_spec(s: Seq<NamePair>) -> Seq<NamePair>
    decreases s.len(),
{
    if s.len() == 0 {
        s
    } else {
        insert_asc(sort_asc_spec(s.drop_last()), s.last())
    }
}

/// Where the insertion point is known — after the `p` leading elements at
/// least as large, before a strictly smaller one — the stable insertion is
/// exactly a splice at `p`.
proof fn lemma_insert_desc_at(s: Seq<NamePair>, x: NamePair, p: int)
    requires
        sorted_desc(s),
        0 <= p <= s.len(),
        forall|q: int| 0 <= q < p ==> #[trigger] s[q].bytes@ >= x.bytes@,
        p < s.len() ==> s[p].bytes@ < x.bytes@,
    ensures
        insert_desc(s, x) =~= s.subrange(0, p) + seq![x] + s.subrange(p, s.len() as int),
    decreases s.len(),
{
    if s.len() == 0 {
    } else if p == 0 {
        assert(s[0].bytes@ < x.bytes@);
        assert(insert_desc(s, x) == seq![x] + s);
    } else {
        assert(s[0].bytes@ >= x.bytes@);
        let rest = s.drop_first();
        assert(forall|q: int| 0 <= q < p - 1 ==> #[trigger] rest[q].bytes@ == s[q + 1].bytes@);
        lemma_insert_desc_at(rest, x, p - 1);
        assert(insert_desc(s, x) == seq![s[0]] + insert_desc(rest, x));
        assert(rest.subrange(0, p - 1) =~= s.subrange(1, p));
        assert(rest.subrange(p - 1, rest.len() as int) =~= s.subrange(p, s.len() as int));
    }
}

proof fn lemma_insert_asc_at(s: Seq<NamePair>, x: NamePair, p: int)
    requires
        sorted_asc(s),
        0 <= p <= s.len(),
        forall|q: int| 0 <= q < p ==> #[trigger] s[q].bytes@ <= x.bytes@,
        p < s.len() ==> s[p].bytes@ > x.bytes@,
    ensures
        insert_asc(s, x) =~= s.subrange(0, p) + seq![x] + s.subrange(p, s.len() as int),
    decreases s.len(),
{
    if s.len() == 0 {
    } else if p == 0 {
        assert(s[0].bytes@ > x.bytes@);
        assert(insert_asc(s, x) == seq![x] + s);
    } else {
        assert(s[0].bytes@ <= x.bytes@);
        let rest = s.drop_first();
        assert(forall|q: int| 0 <= q < p - 1 ==> #[trigger] rest[q].bytes@ == s[q + 1].bytes@);
        lemma_insert_asc_at(rest, x, p - 1);
        assert(insert_asc(s, x) == seq![s[0]] + insert_asc(rest, x));
        assert(rest.subrange(0, p - 1) =~= s.subrange(1, p));
        assert(rest.subrange(p - 1, rest.len() as int) =~= s.subrange(p, s.len() as int));
    }
}

/// Removing an element and re-inserting it elsewhere leaves the multiset of
/// elements unchanged.
proof fn lemma_remove_reinsert_multiset(s: Seq<NamePair>, i: int, p: int)
    requires
        0 <= i < s.len(),
        0 <= p <= s.len() - 1,
    ensures
        s.remove(i).insert(p, s[i]).to_multiset() =~= s.to_multiset(),
{
    broadcast use vstd::seq_lib::group_seq_properties;

    let removed = s.remove(i);
    s.remove_ensures(i);
    removed.insert_ensures(p, s[i]);
    lemma_remove_multiset(s, i);
    lemma_insert_multiset(removed, p, s[i]);
    assert(s.remove(i).insert(p, s[i]).to_multiset() =~= s.to_multiset());
}

/// `to_multiset` after removing index `i` equals the original minus `s[i]`.
proof fn lemma_remove_multiset(s: Seq<NamePair>, i: int)
    requires
        0 <= i < s.len(),
    ensures
        s.to_multiset() =~= s.remove(i).to_multiset().insert(s[i]),
{
    broadcast use vstd::seq_lib::group_to_multiset_ensures;

    let left = s.subrange(0, i);
    let right = s.subrange(i + 1, s.len() as int);
    let mid = Seq::<NamePair>::empty().push(s[i]);
    assert(s =~= left + (mid + right));
    assert(s.remove(i) =~= left + right);
    vstd::seq_lib::lemma_multiset_commutative(left, mid + right);
    vstd::seq_lib::lemma_multiset_commutative(mid, right);
    vstd::seq_lib::lemma_multiset_commutative(left, right);
    assert(mid.to_multiset() =~= Multiset::<NamePair>::empty().insert(s[i]));
    assert(s.to_multiset() =~= s.remove(i).to_multiset().insert(s[i]));
}

/// `to_multiset` after inserting `x` at `p` equals the original plus `x`.
proof fn lemma_insert_multiset(s: Seq<NamePair>, p: int, x: NamePair)
    requires
        0 <= p <= s.len(),
    ensures
        s.insert(p, x).to_multiset() =~= s.to_multiset().insert(x),
{
    broadcast use vstd::seq_lib::group_to_multiset_ensures;

    let left = s.subrange(0, p);
    let right = s.subrange(p, s.len() as int);
    let mid = Seq::<NamePair>::empty().push(x);
    assert(s =~= left + right);
    assert(s.insert(p, x) =~= left + (mid + right));
    vstd::seq_lib::lemma_multiset_commutative(left, mid + right);
    vstd::seq_lib::lemma_multiset_commutative(mid, right);
    vstd::seq_lib::lemma_multiset_commutative(left, right);
    assert(mid.to_multiset() =~= Multiset::<NamePair>::empty().insert(x));
    assert(s.insert(p, x).to_multiset() =~= s.to_multiset().insert(x));
}

/// Stable insertion sort by size, largest first: among equal sizes the
/// original relative order is kept.
fn sort_entries_desc(v: Vec<NamePair>) -> (r: Vec<NamePair>)
    ensures
        r@.to_multiset() == v@.to_multiset(),
        r@.len() == v@.len(),
        sorted_desc(r@),
        r@ == sort_desc_spec(v@),
{
    let ghost orig = v@;
    let mut v = v;
    if v.len() < 2 {
        proof {
            if orig.len() == 1 {
                reveal_with_fuel(sort_desc_spec, 2);
                reveal_with_fuel(insert_desc, 2);
                let e = Seq::<NamePair>::empty();
                assert(orig.drop_last() =~= e);
                assert(sort_desc_spec(e) == e);
                assert(insert_desc(e, orig.last()) == seq![orig.last()]);
                assert(sort_desc_spec(orig) =~= orig);
            }
        }
        return v;
    }
    let mut i: usize = 1;
    proof {
        reveal_with_fuel(sort_desc_spec, 2);
        reveal_with_fuel(insert_desc, 2);
        let e = Seq::<NamePair>::empty();
        assert(orig.take(1).drop_last() =~= e);
        assert(sort_desc_spec(e) == e);
        assert(insert_desc(e, orig.take(1).last()) == seq![orig.take(1).last()]);
        assert(sort_desc_spec(orig.take(1)) =~= orig.take(1));
        assert(v@.take(1) =~= orig.take(1));
        assert(v@.skip(1) =~= orig.skip(1));
    }
    while i < v.len()
        invariant
            1 <= i <= v@.len(),
            v@.len() == orig.len(),
            v@.to_multiset() == orig.to_multiset(),
            sorted_desc(v@.take(i as int)),
            v@.take(i as int) == sort_desc_spec(orig.take(i as int)),
            v@.skip(i as int) == orig.skip(i as int),
        decreases v@.len() - i,
    {
        let mut p: usize = 0;
        while p < i && v[p].bytes.get() >= v[i].bytes.get()
            invariant
                0 <= p <= i < v@.len(),
                forall|q: int| 0 <= q < p ==> #[trigger] v@[q].bytes@ >= v@[i as int].bytes@,
            decreases i - p,
        {
            p = p + 1;
        }
        let ghost before = v@;
        let x = v.remove(i);
        v.insert(p, x);
        proof {
            lemma_remove_reinsert_multiset(before, i as int, p as int);
            let rem = before.remove(i as int);
            before.remove_ensures(i as int);
            rem.insert_ensures(p as int, before[i as int]);
            assert(v@ =~= rem.insert(p as int, before[i as int]));
            assert forall|a: int, b: int| 0 <= a < b < i + 1 implies #[trigger] v@[a].bytes@
                >= #[trigger] v@[b].bytes@ by {
                assert(sorted_desc(before.take(i as int)));
                assert(forall|q: int| 0 <= q < i ==> before.take(i as int)[q] == before[q]);
                if b < p {
                    assert(v@[a] == before[a] && v@[b] == before[b]);
                } else if b == p {
                    assert(v@[b] == before[i as int]);
                    if a < p {
                        assert(v@[a] == before[a]);
                    }
                } else {
                    assert(v@[b] == before[b - 1]);
                    if a < p {
                        assert(v@[a] == before[a]);
                    } else if a == p {
                        assert(v@[a] == before[i as int]);
                        assert(p < i ==> before[p as int].bytes@ < before[i as int].bytes@);
                    } else {
                        assert(v@[a] == before[a - 1]);
                    }
                }
            }
            assert(sorted_desc(v@.take(i + 1)));
            assert(before[i as int] == orig.skip(i as int)[0]);
            assert(x == orig[i as int]);
            lemma_insert_desc_at(before.take(i as int), x, p as int);
            assert(v@.take(i + 1) =~= before.take(i as int).subrange(0, p as int) + seq![x]
                + before.take(i as int).subrange(p as int, i as int));
            assert(orig.take(i + 1).drop_last() =~= orig.take(i as int));
            assert(orig.take(i + 1).last() == orig[i as int]);
            assert(sort_desc_spec(orig.take(i + 1)) == insert_desc(
                sort_desc_spec(orig.take(i as int)),
                orig[i as int],
            ));
            assert(v@.take(i + 1) =~= insert_desc(before.take(i as int), x));
            assert forall|k: int| i + 1 <= k < v@.len() implies v@[k] == orig[k] by {
                assert(v@[k] == rem[k - 1]);
                assert(rem[k - 1] == before[k]);
                assert(before[k] == before.skip(i as int)[k - i]);
                assert(orig[k] == orig.skip(i as int)[k - i]);
            }
            assert(v@.skip(i + 1) =~= orig.skip(i + 1));
        }
        i = i + 1;
    }
    proof {
        assert(v@.take(v@.len() as int) =~= v@);
        assert(orig.take(orig.len() as int) =~= orig);
    }
    v
}

/// Stable insertion sort by size, smallest first.
fn sort_entries_asc(v: Vec<NamePair>) -> (r: Vec<NamePair>)
    ensures
        r@.to_multiset() == v@.to_multiset(),
        r@.len() == v@.len(),
        sorted_asc(r@),
        r@ == sort_asc_spec(v@),
{
    let ghost orig = v@;
    let mut v = v;
    if v.len() < 2 {
        proof {
            if orig.len() == 1 {
                reveal_with_fuel(sort_asc_spec, 2);
                reveal_with_fuel(insert_asc, 2);
                let e = Seq::<NamePair>::empty();
                assert(orig.drop_last() =~= e);
                assert(sort_asc_spec(e) == e);
                assert(insert_asc(e, orig.last()) == seq![orig.last()]);
                assert(sort_asc_spec(orig) =~= orig);
            }
        }
        return v;
    }
    let mut i: usize = 1;
    proof {
        reveal_with_fuel(sort_asc_spec, 2);
        reveal_with_fuel(insert_asc, 2);
        let e = Seq::<NamePair>::empty();
        assert(orig.take(1).drop_last() =~= e);
        assert(sort_asc_spec(e) == e);
        assert(insert_asc(e, orig.take(1).last()) == seq![orig.take(1).last()]);
        assert(sort_asc_spec(orig.take(1)) =~= orig.take(1));
        assert(v@.take(1) =~= orig.take(1));
        assert(v@.skip(1) =~= orig.skip(1));
    }
    while i < v.len()
        invariant
            1 <= i <= v@.len(),
            v@.len() == orig.len(),
            v@.to_multiset() == orig.to_multiset(),
            sorted_asc(v@.take(i as int)),
            v@.take(i as int) == sort_asc_spec(orig.take(i as int)),
            v@.skip(i as int) == orig.skip(i as int),
        decreases v@.len() - i,
    {
        let mut p: usize = 0;
        while p < i && v[p].bytes.get() <= v[i].bytes.get()
            invariant
                0 <= p <= i < v@.len(),
                forall|q: int| 0 <= q < p ==> #[trigger] v@[q].bytes@ <= v@[i as int].bytes@,
            decreases i - p,
        {
            p = p + 1;
        }
        let ghost before = v@;
        let x = v.remove(i);
        v.insert(p, x);
        proof {
            lemma_remove_reinsert_multiset(before, i as int, p as int);
            let rem = before.remove(i as int);
            before.remove_ensures(i as int);
            rem.insert_ensures(p as int, before[i as int]);
            assert(v@ =~= rem.insert(p as int, before[i as int]));
            assert forall|a: int, b: int| 0 <= a < b < i + 1 implies #[trigger] v@[a].bytes@
                <= #[trigger] v@[b].bytes@ by {
                assert(sorted_asc(before.take(i as int)));
                assert(forall|q: int| 0 <= q < i ==> before.take(i as int)[q] == before[q]);
                if b < p {
                    assert(v@[a] == before[a] && v@[b] == before[b]);
                } else if b == p {
                    assert(v@[b] == before[i as int]);
                    if a < p {
                        assert(v@[a] == before[a]);
                    }
                } else {
                    assert(v@[b] == before[b - 1]);
                    if a < p {
                        assert(v@[a] == before[a]);
                    } else if a == p {
                        assert(v@[a] == before[i as int]);
                        assert(p < i ==> before[p as int].bytes@ > before[i as int].bytes@);
                    } else {
                        assert(v@[a] == before[a - 1]);
                    }
                }
            }
            assert(sorted_asc(v@.take(i + 1)));
            assert(before[i as int] == orig.skip(i as int)[0]);
            assert(x == orig[i as int]);
            lemma_insert_asc_at(before.take(i as int), x, p as int);
            assert(v@.take(i + 1) =~= before.take(i as int).subrange(0, p as int) + seq![x]
                + before.take(i as int).subrange(p as int, i as int));
            assert(orig.take(i + 1).drop_last() =~= orig.take(i as int));
            assert(orig.take(i + 1).last() == orig[i as int]);
            assert(sort_asc_spec(orig.take(i + 1)) == insert_asc(
                sort_asc_spec(orig.take(i as int)),
                orig[i as int],
            ));
            assert(v@.take(i + 1) =~= insert_asc(before.take(i as int), x));
            assert forall|k: int| i + 1 <= k < v@.len() implies v@[k] == orig[k] by {
                assert(v@[k] == rem[k - 1]);
                assert(rem[k - 1] == before[k]);
                assert(before[k] == before.skip(i as int)[k - i]);
                assert(orig[k] == orig.skip(i as int)[k - i]);
            }
            assert(v@.skip(i + 1) =~= orig.skip(i + 1));
        }
        i = i + 1;
    }
    proof {
        assert(v@.take(v@.len() as int) =~= v@);
        assert(orig.take(orig.len() as int) =~= orig);
    }
    v
}

/// Law: with a higher size threshold the filtered entry list only shrinks
/// (every entry kept under the higher threshold is kept under the lower one),
/// and every kept entry strictly exceeds its threshold.
pub proof fn lemma_filter_threshold_monotone(
    files: Seq<NamePair>,
    t1: u64,
    t2: u64,
    dirs_only: bool,
    max_depth: Option<u8>,
)
    requires
        t1 <= t2,
    ensures
        forall|x: NamePair|
            #[trigger] kept_entries(files, Some(t2), dirs_only, max_depth).contains(x)
                ==> kept_entries(files, Some(t1), dirs_only, max_depth).contains(x),
        forall|i: int|
            0 <= i < kept_entries(files, Some(t2), dirs_only, max_depth).len()
                ==> #[trigger] kept_entries(files, Some(t2), dirs_only, max_depth)[i].bytes@ > t2,
{
    broadcast use vstd::seq_lib::group_filter_ensures;

    let p1 = |e: NamePair| keep_entry(e, Some(t1), dirs_only, max_depth);
    let p2 = |e: NamePair| keep_entry(e, Some(t2), dirs_only, max_depth);
    assert forall|x: NamePair| #[trigger] files.filter(p2).contains(x) implies files.filter(
        p1,
    ).contains(x) by {
        let j = choose|j: int| 0 <= j < files.filter(p2).len() && files.filter(p2)[j] == x;
        assert(p2(files.filter(p2)[j]));
        files.lemma_filter_contains_rev(p2, x);
        let i = choose|i: int| 0 <= i < files.len() && files[i] == x;
        assert(p1(files[i]));
        files.lemma_filter_contains(p1, i);
    }
    assert(kept_entries(files, Some(t1), dirs_only, max_depth) == files.filter(p1));
    assert(kept_entries(files, Some(t2), dirs_only, max_depth) == files.filter(p2));
}

/// The size-aggregating tree: a running byte total plus the flattened audit
/// trail of every file and directory folded into it.
pub struct FileTree {
    pub file_size: FileSize,
    pub files: Vec<NamePair>,
}

impl Default for FileTree {
    fn default() -> (r: Self)
        ensures
            r.file_size@ == 0,
            r.files@ == Seq::<NamePair>::empty(),
    {
        Self::new()
    }
}

impl FileTree {
    pub fn new() -> (r: FileTree)
        ensures
            r.file_size@ == 0,
            r.files@ == Seq::<NamePair>::empty(),
    {
        FileTree { file_size: FileSize::new(0), files: Vec::new() }
    }

    /// Add bytes to the total without recording an entry.
    pub fn add(&mut self, size: FileSize)
        requires
            old(self).file_size@ + size@ <= u64::MAX,
        ensures
            final(self).file_size@ == old(self).file_size@ + size@,
            final(self).files@ == old(self).files@,
    {
        self.file_size.add(size);
    }

    /// Fold one child into the tree: add its size to the total, splice in the
    /// child's own entry trail (for a directory built bottom-up), then record
    /// the child itself.
    pub fn push(
        &mut self,
        path: String,
        size: FileSize,
        subtree: Option<FileTree>,
        depth: u8,
        is_dir: bool,
    )
        requires
            old(self).file_size@ + size@ <= u64::MAX,
        ensures
            final(self).file_size@ == old(self).file_size@ + size@,
            final(self).files@ == old(self).files@ + (match subtree {
                Some(s) => s.files@,
                None => Seq::<NamePair>::empty(),
            }) + seq![
                (NamePair { name: path, bytes: size, depth: depth, is_dir: is_dir }),
            ],
    {
        self.file_size.add(size);
        match subtree {
            Some(s) => {
                let mut sub = s;
                self.files.append(&mut sub.files);
            },
            None => {
                proof {
                    assert(old(self).files@ + Seq::<NamePair>::empty() =~= old(self).files@);
                }
            },
        }
        self.files.push(NamePair::new(path, size, depth, is_dir));
    }

    /// Filter as `filtered` does, then order the surviving entries by size.
    /// With a count `n` the largest `n` survivors are kept, largest first;
    /// without one every survivor is kept, smallest first.
    pub fn sort(
        self,
        maybe_num: Option<usize>,
        min_bytes: Option<u64>,
        dirs_only: bool,
        max_depth: Option<u8>,
    ) -> (r: FileTree)
        ensures
            r.file_size@ == reported_total(self.file_size@, min_bytes),
            match maybe_num {
                Some(n) => {
                    let kept = kept_entries(self.files@, min_bytes, dirs_only, max_depth);
                    r.files@ == (if kept.len() <= n {
                        sort_desc_spec(kept)
                    } else {
                        sort_desc_spec(kept).take(n as int)
                    }) && r.files@.len() <= n && (r.files@.len() == kept.len() || (r.files@.len()
                        == n && kept.len() > n)) && sorted_desc(r.files@)
                        && r.files@.to_multiset().subset_of(kept.to_multiset()) && (forall|
                        i: int,
                        x: NamePair,
                    |
                        0 <= i < r.files@.len() && #[trigger] kept.to_multiset().sub(
                            r.files@.to_multiset(),
                        ).count(x) > 0 ==> #[trigger] r.files@[i].bytes@ >= x.bytes@)
                },
                None => {
                    let kept = kept_entries(self.files@, min_bytes, dirs_only, max_depth);
                    r.files@ == sort_asc_spec(kept) && r.files@.to_multiset() == kept.to_multiset()
                        && r.files@.len() == kept.len() && sorted_asc(r.files@)
                },
            },
    {
        let self_size = match min_bytes {
            Some(m) => if self.file_size.get() > m {
                self.file_size
            } else {
                FileSize::new(0)
            },
            None => self.file_size,
        };
        let kept = filter_entries(self.files, min_bytes, dirs_only, max_depth);
        let ghost kept_seq = kept@;
        match maybe_num {
            Some(n) => {
                let mut sorted = sort_entries_desc(kept);
                let ghost full = sorted@;
                proof {
                    broadcast use vstd::seq_lib::group_to_multiset_ensures;
                    broadcast use vstd::multiset::group_multiset_axioms;

                    full.to_multiset_ensures();
                }
                if sorted.len() > n {
                    sorted.truncate(n);
                    proof {
                        broadcast use vstd::seq_lib::group_to_multiset_ensures;
                        broadcast use vstd::multiset::group_multiset_axioms;

                        assert(sorted@ =~= full.take(n as int));
                        assert(full =~= full.take(n as int) + full.skip(n as int));
                        vstd::seq_lib::lemma_multiset_commutative(
                            full.take(n as int),
                            full.skip(n as int),
                        );
                        let dropped = kept_seq.to_multiset().sub(sorted@.to_multiset());
                        assert(dropped =~= full.skip(n as int).to_multiset());
                        full.skip(n as int).to_multiset_ensures();
                        assert forall|i: int, x: NamePair|
                            0 <= i < sorted@.len() && #[trigger] dropped.count(x) > 0 implies #[trigger] sorted@[i].bytes@
                            >= x.bytes@ by {
                            assert(full.skip(n as int).contains(x));
                            let j = choose|j: int|
                                0 <= j < full.skip(n as int).len() && full.skip(n as int)[j] == x;
                            assert(full[j + n] == x);
                            assert(sorted@[i] == full[i]);
                            assert(sorted_desc(full));
                        }
                    }
                } else {
                    proof {
                        broadcast use vstd::multiset::group_multiset_axioms;

                        let dropped = kept_seq.to_multiset().sub(sorted@.to_multiset());
                        assert(dropped =~= Multiset::<NamePair>::empty());
                    }
                }
                FileTree { file_size: self_size, files: sorted }
            },
            None => {
                let sorted = sort_entries_asc(kept);
                proof {
                    broadcast use vstd::seq_lib::group_to_multiset_ensures;

                    sorted@.to_multiset_ensures();
                    kept_seq.to_multiset_ensures();
                }
                FileTree { file_size: self_size, files: sorted }
            },
        }
    }

    /// Keep only the entries passing the size/kind/depth predicate; the
    /// reported total is suppressed to zero unless it itself exceeds the
    /// threshold.
    pub fn filtered(self, min_bytes: Option<u64>, dirs_only: bool, max_depth: Option<u8>) -> (r:
        FileTree)
        ensures
            r.file_size@ == reported_total(self.file_size@, min_bytes),
            r.files@ == self.files@.filter(
                |e: NamePair| keep_entry(e, min_bytes, dirs_only, max_depth),
            ),
    {
        let self_size = match min_bytes {
            Some(m) => if self.file_size.get() > m {
                self.file_size
            } else {
                FileSize::new(0)
            },
            None => self.file_size,
        };
        let files = filter_entries(self.files, min_bytes, dirs_only, max_depth);
        FileTree { file_size: self_size, files }
    }
}

} // verus!
