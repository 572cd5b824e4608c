//! The directory tree a build runs against, as a plain value.
//!
//! A pipeline decides and copies against this model: an entry records
//! that a directory exists under a name, which canonical path the name
//! resolves to, and a fingerprint of the directory's contents.  A copy
//! appends the destination entry and records the operation performed,
//! so a caller can replay the recorded operations on a real filesystem
//! and state exactly what a run did and did not touch.

use crate::path::{DirPath, PathView};
use vstd::prelude::*;

verus! {

/// The abstract value of a [`DiskEntry`].
pub struct EntryView {
    pub name: PathView,
    pub canonical: PathView,
    pub tree: int,
}

/// One existing directory: the name under which it is reached, the
/// canonical path that name resolves to, and a fingerprint of the
/// directory tree's contents.
#[derive(Debug)]
pub struct DiskEntry {
    /// The path under which the directory is reached.
    pub name: DirPath,
    /// The canonical path the name resolves to.
    pub canonical: DirPath,
    /// Stands for the contents of the whole tree: two directories with
    /// the same fingerprint hold the same bytes.
    pub tree: u64,
}

impl View for DiskEntry {
    type V = EntryView;

    open spec fn view(&self) -> EntryView {
        EntryView { name: self.name@, canonical: self.canonical@, tree: self.tree as int }
    }
}

impl DeepView for DiskEntry {
    type V = EntryView;

    open spec fn deep_view(&self) -> EntryView {
        self@
    }
}

/// The abstract value of a [`Disk`].
pub struct DiskView {
    pub entries: Seq<EntryView>,
    pub ops: Seq<(PathView, PathView)>,
}

/// The directory-tree model: the directories that exist, and the copy
/// operations performed so far, in order.
#[derive(Debug)]
pub struct Disk {
    entries: Vec<DiskEntry>,
    ops: Vec<(DirPath, DirPath)>,
}

impl View for Disk {
    type V = DiskView;

    closed spec fn view(&self) -> DiskView {
        DiskView { entries: self.entries.deep_view(), ops: self.ops.deep_view() }
    }
}

/// The entry under `name`, if any; a later entry shadows an earlier
/// one, as a copy overwrites what was there.
pub open spec fn find_entry(es: Seq<EntryView>, name: PathView) -> Option<EntryView>
    decreases es.len(),
{
    if es.len() == 0 {
        None
    } else if es.last().name == name {
        Some(es.last())
    } else {
        find_entry(es.drop_last(), name)
    }
}

/// What a disk holds after one copy: the destination entry, resolving
/// to itself and holding the source's contents, and the recorded
/// operation.
pub open spec fn disk_after_copy(d: DiskView, src: PathView, tree: int, dst: PathView) -> DiskView {
    DiskView {
        entries: d.entries.push(EntryView { name: dst, canonical: dst, tree }),
        ops: d.ops.push((src, dst)),
    }
}

/// A copy changes no entry but the destination's.
pub proof fn lemma_copy_frame(d: DiskView, src: PathView, tree: int, dst: PathView, p: PathView)
    requires
        p != dst,
    ensures
        find_entry(disk_after_copy(d, src, tree, dst).entries, p) == find_entry(d.entries, p),
{
    let es = disk_after_copy(d, src, tree, dst).entries;
    assert(es.drop_last() =~= d.entries);
}

impl Disk {
    /// A disk with no directories and no operations performed.
    pub fn new() -> (r: Self)
        ensures
            r@.entries == Seq::<EntryView>::empty(),
            r@.ops == Seq::<(PathView, PathView)>::empty(),
    {
        let r = Disk { entries: Vec::new(), ops: Vec::new() };
        proof {
            assert(r@.entries =~= Seq::<EntryView>::empty());
            assert(r@.ops =~= Seq::<(PathView, PathView)>::empty());
        }
        r
    }

    /// Records that a directory exists.
    pub fn add_dir(&mut self, entry: DiskEntry)
        ensures
            final(self)@.entries == old(self)@.entries.push(entry@),
            final(self)@.ops == old(self)@.ops,
    {
        self.entries.push(entry);
        proof {
            assert(self@.entries =~= old(self)@.entries.push(entry@));
            assert(self@.ops =~= old(self)@.ops);
        }
    }

    /// Resolves a path: the canonical path it stands for and the
    /// contents of the directory there, or `None` when nothing exists
    /// under it.
    pub fn canonicalize(&self, p: &DirPath) -> (r: Option<(DirPath, u64)>)
        ensures
            match find_entry(self@.entries, p@) {
                Some(en) => r matches Some(pair) && pair.0@ == en.canonical && pair.1 as int
                    == en.tree,
                None => r is None,
            },
    {
        let mut i: usize = self.entries.len();
        proof {
            assert(self@.entries.take(i as int) =~= self@.entries);
        }
        while i > 0
            invariant
                i <= self.entries.len(),
                find_entry(self@.entries.take(i as int), p@) == find_entry(self@.entries, p@),
            decreases i,
        {
            i -= 1;
            let ghost pre = self@.entries.take(i as int + 1);
            proof {
                assert(pre.last() == self@.entries[i as int]);
                assert(pre.drop_last() =~= self@.entries.take(i as int));
            }
            if self.entries[i].name.same_as(p) {
                return Some((self.entries[i].canonical.clone(), self.entries[i].tree));
            }
        }
        proof {
            assert(self@.entries.take(0) =~= Seq::<EntryView>::empty());
        }
        None
    }

    /// Copies the tree at canonical path `src`, whose contents are
    /// `tree`, to `dst`, and records the operation.
    pub fn copy_tree(&mut self, src: &DirPath, tree: u64, dst: &DirPath)
        ensures
            final(self)@ == disk_after_copy(old(self)@, src@, tree as int, dst@),
    {
        let name = dst.clone();
        let canonical = dst.clone();
        self.entries.push(DiskEntry { name, canonical, tree });
        self.ops.push((src.clone(), dst.clone()));
        proof {
            assert(self@.entries =~= disk_after_copy(
                old(self)@,
                src@,
                tree as int,
                dst@,
            ).entries);
            assert(self@.ops =~= disk_after_copy(old(self)@, src@, tree as int, dst@).ops);
        }
    }

    /// How many copy operations were performed.
    pub fn op_count(&self) -> (r: usize)
        ensures
            r == self@.ops.len(),
    {
        self.ops.len()
    }

    /// The `k`-th copy operation performed: source, then destination.
    pub fn op_at(&self, k: usize) -> (r: (&DirPath, &DirPath))
        requires
            k < self@.ops.len(),
        ensures
            r.0@ == self@.ops[k as int].0,
            r.1@ == self@.ops[k as int].1,
    {
        (&self.ops[k].0, &self.ops[k].1)
    }
}

} // verus!
