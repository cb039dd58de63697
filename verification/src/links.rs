//! The process-wide hard-link table: inode id to link count. An absent entry
//! means "exactly one reference" — the directory entry a file's creation
//! wrote. Linking inserts 2 on first use and increments afterwards;
//! unlinking decrements a present entry but seeds an absent one with 0.
//! Query and unlink thus disagree about what absence means; both
//! conventions are part of the layer's behaviour and are kept side by
//! side, not reconciled.

use vstd::prelude::*;
use std::collections::BTreeMap;

verus! {

broadcast use vstd::laws_cmp::group_laws_cmp, vstd::std_specs::btree::group_btree_axioms;

/// The link count the table answers for `id`: the stored count, or 1 when
/// no entry exists.
pub open spec fn nlink_of(m: Map<usize, u32>, id: usize) -> u32 {
    if m.contains_key(id) {
        m[id]
    } else {
        1u32
    }
}

/// Reference counts for inode ids that have been linked or unlinked since
/// the table was created.
pub struct LinkTable {
    pub map: BTreeMap<usize, u32>,
}

impl View for LinkTable {
    type V = Map<usize, u32>;

    open spec fn view(&self) -> Map<usize, u32> {
        self.map@
    }
}

impl LinkTable {
    /// An empty table: every inode id answers a link count of 1.
    pub fn new() -> (r: LinkTable)
        ensures
            r@ == Map::<usize, u32>::empty(),
    {
        LinkTable { map: BTreeMap::new() }
    }

    /// The link count recorded for `inode_id` (1 when absent).
    pub fn nlink(&self, inode_id: usize) -> (r: u32)
        ensures
            r == nlink_of(self@, inode_id),
    {
        match self.map.get(&inode_id) {
            Some(v) => *v,
            None => 1,
        }
    }

    /// Record one more link to `inode_id`: an absent entry is seeded with 2
    /// (the original link plus the new one), a present one is incremented.
    pub fn add_link(&mut self, inode_id: usize)
        requires
            old(self)@.contains_key(inode_id) ==> old(self)@[inode_id] < u32::MAX,
        ensures
            final(self)@ == if old(self)@.contains_key(inode_id) {
                old(self)@.insert(inode_id, (old(self)@[inode_id] + 1) as u32)
            } else {
                old(self)@.insert(inode_id, 2u32)
            },
    {
        let newv: u32 = match self.map.get(&inode_id) {
            Some(v) => *v + 1,
            None => 2,
        };
        self.map.insert(inode_id, newv);
    }

    /// Record one link to `inode_id` gone: a present positive entry is
    /// decremented, a present zero stays zero, and an absent entry is seeded
    /// with 0 — the layer's historical baseline for ids it never linked.
    pub fn remove_link(&mut self, inode_id: usize)
        ensures
            final(self)@ == if old(self)@.contains_key(inode_id) {
                if old(self)@[inode_id] > 0 {
                    old(self)@.insert(inode_id, (old(self)@[inode_id] - 1) as u32)
                } else {
                    old(self)@
                }
            } else {
                old(self)@.insert(inode_id, 0u32)
            },
    {
        match self.map.get(&inode_id) {
            Some(v) => {
                let v = *v;
                if v > 0 {
                    self.map.insert(inode_id, v - 1);
                } else {
                    proof {
                        assert(self@ =~= old(self)@);
                    }
                }
            },
            None => {
                self.map.insert(inode_id, 0);
            },
        }
    }
}

} // verus!
