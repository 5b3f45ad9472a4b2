//! A snapshot of part of a directory tree, as plain values.
//!
//! The caller lists the directories and records, for every entry, what the
//! discovery rules read: its name, its path, whether it is a directory,
//! whether it is a regular file, and, for a directory that could be listed,
//! its own entries.

use vstd::prelude::*;

verus! {

/// One entry of a directory listing.
#[derive(Debug)]
pub struct DirEntry {
    /// Base name of the entry.
    pub name: String,
    /// Path of the entry, as the listing gave it.
    pub path: String,
    /// The entry is, or resolves to, a directory.
    pub is_dir: bool,
    /// The entry is a regular file.
    pub is_file: bool,
    /// The entries directly inside, where this is a directory that could be
    /// listed; `None` otherwise.
    pub entries: Option<Vec<DirEntry>>,
}

/// The entries directly inside `dir`; none where it could not be listed.
pub open spec fn listing(dir: DirEntry) -> Seq<DirEntry> {
    match dir.entries {
        Some(v) => v@,
        None => Seq::empty(),
    }
}

/// The directories among `entries`, in the order of the listing.
pub open spec fn directories(entries: Seq<DirEntry>) -> Seq<DirEntry> {
    entries.filter(|e: DirEntry| e.is_dir)
}

/// Two entries that a shallow look cannot tell apart: same name, same path,
/// same kind. What lies below them is not compared.
pub open spec fn same_entry(a: DirEntry, b: DirEntry) -> bool {
    &&& a.name@ == b.name@
    &&& a.path@ == b.path@
    &&& a.is_dir == b.is_dir
    &&& a.is_file == b.is_file
}

/// Two listings that agree entry by entry, as `same_entry` compares them.
pub open spec fn same_listing(a: Seq<DirEntry>, b: Seq<DirEntry>) -> bool {
    &&& a.len() == b.len()
    &&& forall|i: int| 0 <= i < a.len() ==> same_entry(#[trigger] a[i], b[i])
}

/// Two stack directories that look alike: the entries themselves and what
/// lies directly inside them.
pub open spec fn same_stack_dir(a: DirEntry, b: DirEntry) -> bool {
    same_entry(a, b) && same_listing(listing(a), listing(b))
}

/// Two host directories that look alike: the entries themselves, what lies
/// directly inside them, and every directory there as a stack directory.
pub open spec fn same_host_dir(a: DirEntry, b: DirEntry) -> bool {
    &&& same_entry(a, b)
    &&& same_listing(listing(a), listing(b))
    &&& forall|i: int|
        0 <= i < listing(a).len() && (#[trigger] listing(a)[i]).is_dir ==> same_stack_dir(
            listing(a)[i],
            listing(b)[i],
        )
}

/// Two scan roots that look alike as far as discovery reads them: both
/// absent, or both listed with the same entries, every directory among them
/// alike as a host directory.
pub open spec fn same_root(a: Option<Vec<DirEntry>>, b: Option<Vec<DirEntry>>) -> bool {
    match (a, b) {
        (None, None) => true,
        (Some(x), Some(y)) => {
            &&& same_listing(x@, y@)
            &&& forall|i: int|
                0 <= i < x@.len() && (#[trigger] x@[i]).is_dir ==> same_host_dir(x@[i], y@[i])
        },
        _ => false,
    }
}

/// The positions of the directories in a listing, in increasing order.
pub open spec fn dir_positions(entries: Seq<DirEntry>) -> Seq<int>
    decreases entries.len(),
{
    if entries.len() == 0 {
        Seq::empty()
    } else {
        let rest = dir_positions(entries.drop_last());
        if entries.last().is_dir {
            rest.push(entries.len() - 1)
        } else {
            rest
        }
    }
}

/// `directories` keeps exactly the entries at `dir_positions`, in that order:
/// the positions are in range, strictly increasing, each one is a directory,
/// and every directory's position is among them.
pub proof fn lemma_directories_by_position(entries: Seq<DirEntry>)
    ensures
        dir_positions(entries).len() == directories(entries).len(),
        forall|k: int|
            0 <= k < dir_positions(entries).len() ==> {
                let p = #[trigger] dir_positions(entries)[k];
                &&& 0 <= p < entries.len()
                &&& entries[p].is_dir
                &&& directories(entries)[k] == entries[p]
            },
        forall|j: int, k: int|
            0 <= j < k < dir_positions(entries).len() ==> dir_positions(entries)[j]
                < dir_positions(entries)[k],
        forall|i: int|
            0 <= i < entries.len() && (#[trigger] entries[i]).is_dir ==> dir_positions(
                entries,
            ).contains(i),
    decreases entries.len(),
{
    if entries.len() > 0 {
        let front = entries.drop_last();
        let last = entries.last();
        lemma_directories_by_position(front);
        assert(entries =~= front.push(last));
        front.lemma_filter_push(last, |e: DirEntry| e.is_dir);
        let pos = dir_positions(entries);
        let before = dir_positions(front);
        assert forall|i: int| 0 <= i < entries.len() && (#[trigger] entries[i]).is_dir implies pos.contains(
            i,
        ) by {
            if i < front.len() {
                assert(front[i].is_dir);
                let k = choose|k: int| 0 <= k < before.len() && before[k] == i;
                assert(pos[k] == i);
            } else {
                assert(pos[pos.len() - 1] == i);
            }
        }
    } else {
        assert(directories(entries) =~= Seq::empty());
    }
}

/// Listings that agree on which entries are directories, and on what `f`
/// makes of each directory, give the same sequence of `f`-values.
pub proof fn lemma_directories_agree<T>(a: Seq<DirEntry>, b: Seq<DirEntry>, f: spec_fn(DirEntry) -> T)
    requires
        a.len() == b.len(),
        forall|i: int| 0 <= i < a.len() ==> (#[trigger] a[i]).is_dir == b[i].is_dir,
        forall|i: int| 0 <= i < a.len() && (#[trigger] a[i]).is_dir ==> f(a[i]) == f(b[i]),
    ensures
        directories(a).map_values(f) == directories(b).map_values(f),
    decreases a.len(),
{
    if a.len() > 0 {
        let fa = a.drop_last();
        let fb = b.drop_last();
        assert forall|i: int| 0 <= i < fa.len() implies (#[trigger] fa[i]).is_dir == fb[i].is_dir by {
            assert(a[i].is_dir == b[i].is_dir);
        }
        assert forall|i: int| 0 <= i < fa.len() && (#[trigger] fa[i]).is_dir implies f(fa[i]) == f(
            fb[i],
        ) by {
            assert(a[i].is_dir);
        }
        lemma_directories_agree(fa, fb, f);
        assert(a =~= fa.push(a.last()));
        assert(b =~= fb.push(b.last()));
        fa.lemma_filter_push(a.last(), |e: DirEntry| e.is_dir);
        fb.lemma_filter_push(b.last(), |e: DirEntry| e.is_dir);
        assert(a[a.len() - 1].is_dir == b[a.len() - 1].is_dir);
        if a.last().is_dir {
            directories(fa).lemma_push_map_commute(f, a.last());
            directories(fb).lemma_push_map_commute(f, b.last());
        }
    } else {
        assert(directories(a) =~= Seq::empty());
        assert(directories(b) =~= Seq::empty());
        assert(directories(a).map_values(f) =~= directories(b).map_values(f));
    }
}

impl DirEntry {
    /// A regular file, which has nothing inside.
    pub fn file(name: String, path: String) -> (e: DirEntry)
        ensures
            e.name == name,
            e.path == path,
            !e.is_dir,
            e.is_file,
            e.entries is None,
    {
        DirEntry { name, path, is_dir: false, is_file: true, entries: None }
    }

    /// A directory with the entries found in it.
    pub fn dir(name: String, path: String, entries: Vec<DirEntry>) -> (e: DirEntry)
        ensures
            e.name == name,
            e.path == path,
            e.is_dir,
            !e.is_file,
            e.entries == Some(entries),
    {
        DirEntry { name, path, is_dir: true, is_file: false, entries: Some(entries) }
    }
}

} // verus!
