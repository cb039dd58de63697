//! The filesystem arena: the inode records of the inode area, addressed
//! through `(block id, block offset)` pairs, and the data-block allocator.
//! Four 128-byte inode records share each 512-byte block; the inode area
//! begins right after the superblock.

use vstd::prelude::*;
use crate::disk::{DiskInode, DiskInodeType};

verus! {

/// First block of the inode area.
pub const INODE_AREA_START: usize = 1;

/// Inode records per 512-byte block.
pub const INODES_PER_BLOCK: usize = 4;

/// Bytes of one on-disk inode record.
pub const INODE_SZ: usize = 128;

/// Most inode records one filesystem can hold; keeps every allocated id
/// below the directory-entry sentinel.
pub const MAX_INODES: usize = 0xffff_ffff;

/// An open filesystem: its inode records and its data-block allocator.
pub struct EasyFileSystem {
    /// The inode area, indexed by inode id.
    pub inodes: Vec<DiskInode>,
    /// Total data blocks the allocator may ever hand out.
    pub data_capacity: u32,
    /// First data-block id never yet handed out.
    pub next_data_block: u32,
    /// Deallocated block ids, reusable.
    pub free_blocks: Vec<u32>,
}

/// Data blocks still available from the allocator.
pub open spec fn avail_blocks(fs: EasyFileSystem) -> int {
    fs.free_blocks@.len() + fs.data_capacity - fs.next_data_block
}

impl EasyFileSystem {
    /// Structural invariant: records are sound, ids fit below the sentinel,
    /// and the allocator cursor stays within its capacity.
    pub open spec fn wf(&self) -> bool {
        &&& self.inodes@.len() <= MAX_INODES
        &&& self.next_data_block <= self.data_capacity
        &&& avail_blocks(*self) <= u32::MAX
        &&& forall|i: int| 0 <= i < self.inodes@.len() ==> (#[trigger] self.inodes@[i]).wf()
    }

    /// A fresh filesystem: an empty root directory at inode id 0, and
    /// `data_capacity` data blocks to allocate from.
    pub fn new(data_capacity: u32) -> (r: EasyFileSystem)
        ensures
            r.wf(),
            r.inodes@.len() == 1,
            r.inodes@[0].kind == DiskInodeType::Directory,
            r.inodes@[0].data@ == Seq::<u8>::empty(),
            avail_blocks(r) == data_capacity,
    {
        let mut inodes: Vec<DiskInode> = Vec::new();
        inodes.push(DiskInode::new(DiskInodeType::Directory));
        EasyFileSystem { inodes, data_capacity, next_data_block: 0, free_blocks: Vec::new() }
    }

    /// Where inode `inode_id` lives: its block id and its byte offset inside
    /// that block.
    pub fn get_disk_inode_pos(&self, inode_id: u32) -> (r: (u32, usize))
        ensures
            r.0 == INODE_AREA_START + inode_id / (INODES_PER_BLOCK as u32),
            r.1 == (inode_id % (INODES_PER_BLOCK as u32)) * INODE_SZ,
    {
        (
            (INODE_AREA_START as u32) + inode_id / (INODES_PER_BLOCK as u32),
            ((inode_id % (INODES_PER_BLOCK as u32)) as usize) * INODE_SZ,
        )
    }

    /// The inode id living at `(block_id, block_offset)`: the inverse of
    /// `get_disk_inode_pos`.
    pub fn get_inode_id(&self, block_id: usize, block_offset: usize) -> (r: u32)
        requires
            self.wf(),
            INODE_AREA_START <= block_id,
            block_offset % INODE_SZ == 0,
            block_offset < INODES_PER_BLOCK * INODE_SZ,
            (block_id - INODE_AREA_START) * INODES_PER_BLOCK + block_offset / INODE_SZ
                < self.inodes@.len(),
        ensures
            r == (block_id - INODE_AREA_START) * INODES_PER_BLOCK + block_offset / INODE_SZ,
    {
        (((block_id - INODE_AREA_START) * INODES_PER_BLOCK + block_offset / INODE_SZ)) as u32
    }

    /// Allocate a fresh inode id; the record starts as an empty file and is
    /// initialized by the caller. Fails only when the inode area is full.
    pub fn alloc_inode(&mut self) -> (r: Option<u32>)
        requires
            old(self).wf(),
        ensures
            final(self).wf(),
            r.is_some() <==> old(self).inodes@.len() < MAX_INODES,
            match r {
                Some(id) => {
                    &&& id == old(self).inodes@.len()
                    &&& final(self).inodes@.len() == old(self).inodes@.len() + 1
                    &&& forall|i: int|
                        0 <= i < old(self).inodes@.len() ==> final(self).inodes@[i] == old(
                            self,
                        ).inodes@[i]
                    &&& final(self).inodes@[id as int].kind == DiskInodeType::File
                    &&& final(self).inodes@[id as int].data@ == Seq::<u8>::empty()
                    &&& avail_blocks(*final(self)) == avail_blocks(*old(self))
                    &&& final(self).data_capacity == old(self).data_capacity
                },
                None => *final(self) == *old(self),
            },
    {
        if self.inodes.len() >= MAX_INODES {
            return None;
        }
        let id = self.inodes.len() as u32;
        self.inodes.push(DiskInode::new(DiskInodeType::File));
        Some(id)
    }

    /// Allocate one data block. Fails exactly when no block is left.
    pub fn alloc_data(&mut self) -> (r: Option<u32>)
        requires
            old(self).wf(),
        ensures
            final(self).wf(),
            r.is_some() <==> avail_blocks(*old(self)) > 0,
            final(self).inodes@ == old(self).inodes@,
            final(self).data_capacity == old(self).data_capacity,
            match r {
                Some(_) => avail_blocks(*final(self)) == avail_blocks(*old(self)) - 1,
                None => avail_blocks(*final(self)) == avail_blocks(*old(self)),
            },
    {
        if let Some(id) = self.free_blocks.pop() {
            return Some(id);
        }
        if self.next_data_block < self.data_capacity {
            let id = self.next_data_block;
            self.next_data_block = self.next_data_block + 1;
            return Some(id);
        }
        None
    }

    /// Hand a data block back to the allocator.
    pub fn dealloc_data(&mut self, block_id: u32)
        requires
            old(self).wf(),
            avail_blocks(*old(self)) < u32::MAX,
        ensures
            final(self).wf(),
            final(self).inodes@ == old(self).inodes@,
            final(self).data_capacity == old(self).data_capacity,
            avail_blocks(*final(self)) == avail_blocks(*old(self)) + 1,
    {
        self.free_blocks.push(block_id);
    }

    /// How many data blocks the allocator can still hand out.
    pub fn available_data_blocks(&self) -> (r: u64)
        requires
            self.wf(),
        ensures
            r == avail_blocks(*self),
    {
        (self.free_blocks.len() as u64) + ((self.data_capacity - self.next_data_block) as u64)
    }
}

} // verus!
