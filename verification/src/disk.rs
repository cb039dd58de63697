//! The on-disk inode record: a type tag, a byte size, and the data blocks
//! backing that size. The record's invariant is that `size` always equals the
//! number of bytes actually backed by allocated blocks; it grows only through
//! an explicit pre-allocation step (`increase_size`), never implicitly.

use vstd::prelude::*;

verus! {

/// Size in bytes of one storage block.
pub const BLOCK_SZ: usize = 512;

/// How many blocks are needed to back `size` bytes.
pub open spec fn blocks_for(size: int) -> int {
    (size + 511) / 512
}

/// Bytes `data` with the range starting at `offset` overwritten by `patch`;
/// `data` unchanged when the range does not lie inside it.
pub open spec fn overwrite(data: Seq<u8>, offset: int, patch: Seq<u8>) -> Seq<u8> {
    if offset < 0 || offset + patch.len() > data.len() {
        data
    } else {
        data.subrange(0, offset) + patch + data.subrange(offset + patch.len(), data.len() as int)
    }
}

/// The bytes a read of `len` bytes at `offset` out of `data` transfers: empty
/// past the end, truncated at the end otherwise.
pub open spec fn read_result(data: Seq<u8>, offset: int, len: int) -> Seq<u8> {
    if len <= 0 || offset < 0 || offset >= data.len() {
        Seq::<u8>::empty()
    } else if offset + len <= data.len() {
        data.subrange(offset, offset + len)
    } else {
        data.subrange(offset, data.len() as int)
    }
}

/// Larger sizes never need fewer blocks.
pub proof fn lemma_blocks_for_monotone(a: int, b: int)
    requires
        a <= b,
    ensures
        blocks_for(a) <= blocks_for(b),
{
    vstd::arithmetic::div_mod::lemma_div_is_ordered(a + 511, b + 511, 512);
}

/// The type tag of an on-disk inode record.
#[derive(Clone, Copy, PartialEq, Eq, Structural, Debug)]
pub enum DiskInodeType {
    File,
    Directory,
}

/// One on-disk inode record. `data` holds the file's bytes (its length is the
/// record's size) and `blocks` the ids of the data blocks backing them.
pub struct DiskInode {
    pub kind: DiskInodeType,
    pub data: Vec<u8>,
    pub blocks: Vec<u32>,
}

impl DiskInode {
    /// Structural invariant: the size fits the on-disk 32-bit field and the
    /// record owns exactly the blocks its size implies.
    pub open spec fn wf(&self) -> bool {
        &&& self.data@.len() <= u32::MAX
        &&& self.blocks@.len() == blocks_for(self.data@.len() as int)
    }

    /// A fresh, empty record of the given type.
    pub fn new(kind: DiskInodeType) -> (r: DiskInode)
        ensures
            r.wf(),
            r.kind == kind,
            r.data@ == Seq::<u8>::empty(),
            r.blocks@ == Seq::<u32>::empty(),
    {
        let r = DiskInode { kind, data: Vec::new(), blocks: Vec::new() };
        proof {
            assert(r.data@ =~= Seq::<u8>::empty());
            assert(r.blocks@ =~= Seq::<u32>::empty());
        }
        r
    }

    /// Reset the record to an empty inode of the given type, as done right
    /// after its inode id is allocated.
    pub fn initialize(&mut self, kind: DiskInodeType)
        ensures
            final(self).wf(),
            final(self).kind == kind,
            final(self).data@ == Seq::<u8>::empty(),
            final(self).blocks@ == Seq::<u32>::empty(),
    {
        self.kind = kind;
        self.data = Vec::new();
        self.blocks = Vec::new();
        proof {
            assert(self.data@ =~= Seq::<u8>::empty());
            assert(self.blocks@ =~= Seq::<u32>::empty());
        }
    }

    /// The record's byte size.
    pub fn size(&self) -> (r: u32)
        requires
            self.wf(),
        ensures
            r == self.data@.len(),
    {
        self.data.len() as u32
    }

    pub fn is_dir(&self) -> (r: bool)
        ensures
            r == (self.kind == DiskInodeType::Directory),
    {
        matches!(self.kind, DiskInodeType::Directory)
    }

    pub fn is_file(&self) -> (r: bool)
        ensures
            r == (self.kind == DiskInodeType::File),
    {
        matches!(self.kind, DiskInodeType::File)
    }

    /// Read up to `buf.len()` bytes starting at `offset` into the front of
    /// `buf`; returns how many bytes were transferred. Bytes of `buf` past
    /// the transferred count keep their old values.
    pub fn read_at(&self, offset: usize, buf: &mut Vec<u8>) -> (n: usize)
        requires
            self.wf(),
        ensures
            n == read_result(self.data@, offset as int, old(buf)@.len() as int).len(),
            final(buf)@.len() == old(buf)@.len(),
            final(buf)@.subrange(0, n as int) == read_result(
                self.data@,
                offset as int,
                old(buf)@.len() as int,
            ),
            final(buf)@.subrange(n as int, final(buf)@.len() as int) == old(buf)@.subrange(
                n as int,
                old(buf)@.len() as int,
            ),
    {
        let size = self.data.len();
        if offset >= size {
            proof {
                assert(final(buf)@.subrange(0, 0) =~= Seq::<u8>::empty());
                assert(final(buf)@.subrange(0, final(buf)@.len() as int) =~= old(buf)@.subrange(
                    0,
                    old(buf)@.len() as int,
                ));
            }
            return 0;
        }
        let n: usize = if buf.len() < size - offset {
            buf.len()
        } else {
            size - offset
        };
        let mut i: usize = 0;
        while i < n
            invariant
                self.wf(),
                offset + n <= self.data@.len(),
                n <= buf@.len(),
                i <= n,
                buf@.len() == old(buf)@.len(),
                forall|j: int| 0 <= j < i ==> buf@[j] == self.data@[offset + j],
                forall|j: int| i <= j < buf@.len() ==> buf@[j] == old(buf)@[j],
            decreases n - i,
        {
            let b = self.data[offset + i];
            buf[i] = b;
            i += 1;
        }
        proof {
            assert(final(buf)@.subrange(0, n as int) =~= read_result(
                self.data@,
                offset as int,
                old(buf)@.len() as int,
            ));
            assert(final(buf)@.subrange(n as int, final(buf)@.len() as int) =~= old(buf)@.subrange(
                n as int,
                old(buf)@.len() as int,
            ));
        }
        n
    }

    /// Write `buf` at `offset`, but never past the current size: the transfer
    /// is truncated at the end of the record. Growth is a separate,
    /// explicit step (`increase_size`). Returns the bytes written.
    pub fn write_at(&mut self, offset: usize, buf: &[u8]) -> (n: usize)
        requires
            old(self).wf(),
        ensures
            final(self).wf(),
            final(self).kind == old(self).kind,
            final(self).blocks@ == old(self).blocks@,
            final(self).data@.len() == old(self).data@.len(),
            n == read_result(buf@, 0, old(self).data@.len() - offset).len(),
            final(self).data@ == overwrite(old(self).data@, offset as int, buf@.subrange(0, n as int)),
    {
        let size = self.data.len();
        if offset >= size {
            proof {
                assert(buf@.subrange(0, 0) =~= Seq::<u8>::empty());
                assert(final(self).data@ =~= overwrite(
                    old(self).data@,
                    offset as int,
                    Seq::<u8>::empty(),
                ));
            }
            return 0;
        }
        let n: usize = if buf.len() < size - offset {
            buf.len()
        } else {
            size - offset
        };
        let mut i: usize = 0;
        while i < n
            invariant
                offset + n <= self.data@.len(),
                self.data@.len() <= usize::MAX,
                n <= buf@.len(),
                i <= n,
                self.data@.len() == old(self).data@.len(),
                self.kind == old(self).kind,
                self.blocks@ == old(self).blocks@,
                forall|j: int| 0 <= j < i ==> self.data@[offset + j] == buf@[j],
                forall|j: int|
                    0 <= j < self.data@.len() && !(offset <= j < offset + i) ==> self.data@[j]
                        == old(self).data@[j],
            decreases n - i,
        {
            let b = buf[i];
            let idx: usize = offset + i;
            self.data[idx] = b;
            i += 1;
        }
        proof {
            assert(buf@.subrange(0, n as int) =~= read_result(
                buf@,
                0,
                old(self).data@.len() - offset,
            ));
            assert(final(self).data@ =~= overwrite(
                old(self).data@,
                offset as int,
                buf@.subrange(0, n as int),
            ));
        }
        n
    }

    /// How many more blocks a growth to `new_size` bytes needs.
    pub fn blocks_num_needed(&self, new_size: u32) -> (r: u32)
        requires
            self.wf(),
            self.data@.len() <= new_size,
        ensures
            r == blocks_for(new_size as int) - blocks_for(self.data@.len() as int),
    {
        proof {
            lemma_blocks_for_monotone(self.data@.len() as int, new_size as int);
        }
        Self::total_blocks(new_size) - Self::total_blocks(self.data.len() as u32)
    }

    /// Total blocks needed to back `size` bytes.
    pub fn total_blocks(size: u32) -> (r: u32)
        ensures
            r == blocks_for(size as int),
    {
        (((size as u64) + 511) / 512) as u32
    }

    /// Extend the record to `new_size` bytes, appending the freshly allocated
    /// blocks that back the new range. The old bytes keep their values; the
    /// new range reads as zero until written.
    pub fn increase_size(&mut self, new_size: u32, new_blocks: Vec<u32>)
        requires
            old(self).wf(),
            old(self).data@.len() <= new_size,
            new_blocks@.len() == blocks_for(new_size as int) - blocks_for(
                old(self).data@.len() as int,
            ),
        ensures
            final(self).wf(),
            final(self).kind == old(self).kind,
            final(self).data@.len() == new_size,
            final(self).data@.subrange(0, old(self).data@.len() as int) == old(self).data@,
            forall|j: int|
                old(self).data@.len() <= j < new_size ==> final(self).data@[j] == 0u8,
            final(self).blocks@ == old(self).blocks@ + new_blocks@,
    {
        let target = new_size as usize;
        while self.data.len() < target
            invariant
                old(self).data@.len() <= self.data@.len() <= target,
                self.kind == old(self).kind,
                self.blocks@ == old(self).blocks@,
                self.data@.subrange(0, old(self).data@.len() as int) =~= old(self).data@,
                forall|j: int|
                    old(self).data@.len() <= j < self.data@.len() ==> self.data@[j] == 0u8,
            decreases target - self.data.len(),
        {
            self.data.push(0u8);
        }
        let mut nb = new_blocks;
        let mut i: usize = 0;
        let added = nb.len();
        while i < added
            invariant
                i <= added,
                added == nb@.len(),
                self.data@.len() == new_size,
                self.kind == old(self).kind,
                self.data@.subrange(0, old(self).data@.len() as int) == old(self).data@,
                forall|j: int|
                    old(self).data@.len() <= j < new_size ==> self.data@[j] == 0u8,
                self.blocks@ == old(self).blocks@ + nb@.subrange(0, i as int),
            decreases added - i,
        {
            let b = nb[i];
            self.blocks.push(b);
            proof {
                assert(self.blocks@ =~= old(self).blocks@ + nb@.subrange(0, i + 1));
            }
            i += 1;
        }
        proof {
            assert(nb@.subrange(0, added as int) =~= nb@);
        }
    }

    /// Drop all content: the record becomes empty and every backing block id
    /// is handed back to the caller for deallocation. The count returned
    /// always equals the count implied by the old size.
    pub fn clear_size(&mut self) -> (freed: Vec<u32>)
        requires
            old(self).wf(),
        ensures
            final(self).wf(),
            final(self).kind == old(self).kind,
            final(self).data@ == Seq::<u8>::empty(),
            final(self).blocks@ == Seq::<u32>::empty(),
            freed@ == old(self).blocks@,
            freed@.len() == blocks_for(old(self).data@.len() as int),
    {
        self.data = Vec::new();
        let mut freed: Vec<u32> = Vec::new();
        core::mem::swap(&mut freed, &mut self.blocks);
        proof {
            assert(self.data@ =~= Seq::<u8>::empty());
        }
        freed
    }
}

} // verus!
