//! Inode handles: lightweight `(block id, block offset)` locators into the
//! filesystem arena. Every directory and file operation is a method on a
//! handle; several handles may alias one on-disk record, and exclusive
//! access to the filesystem value serializes them.

use vstd::prelude::*;
use crate::dirent::{
    DirEntry, DIRENT_SZ, SENTINEL_INODE, name_storable, slot_count, slot_at, dir_name_at,
    dir_id_at, first_match, lemma_first_match_from_props, lemma_first_match_from_found,
    lemma_first_match_from_none,
};
use crate::disk::{
    DiskInode, DiskInodeType, blocks_for, overwrite, read_result, lemma_blocks_for_monotone,
};
use crate::efs::{
    EasyFileSystem, INODE_AREA_START, INODES_PER_BLOCK, INODE_SZ, MAX_INODES, avail_blocks,
};
use crate::links::LinkTable;

verus! {

/// Every non-sentinel inode id stored in a directory's slots refers to an
/// existing inode record.
pub open spec fn dir_ids_ok(data: Seq<u8>, n_inodes: int) -> bool {
    forall|i: int|
        0 <= i < slot_count(data) && #[trigger] dir_id_at(data, i) != SENTINEL_INODE ==> 0 <= dir_id_at(
            data,
            i,
        ) < n_inodes
}

/// Blocks a growth from `cur` bytes to `new` bytes must allocate.
pub open spec fn grow_needed(cur: int, new: int) -> int {
    if new <= cur {
        0
    } else {
        blocks_for(new) - blocks_for(cur)
    }
}

/// Directory bytes `d2` are `d1` with one slot holding `(name, id)`
/// appended: the old slots are untouched and the count grows by one.
pub open spec fn dir_append_post(d1: Seq<u8>, d2: Seq<u8>, name: Seq<u8>, id: int) -> bool {
    &&& slot_count(d2) == slot_count(d1) + 1
    &&& d2.len() == (slot_count(d1) + 1) * DIRENT_SZ
    &&& forall|i: int| 0 <= i < slot_count(d1) ==> slot_at(d2, i) == slot_at(d1, i)
    &&& dir_name_at(d2, slot_count(d1)) == name
    &&& dir_id_at(d2, slot_count(d1)) == id
}

/// Directory bytes `d2` are `d1` with slot `m` overwritten in place by the
/// tombstone: empty name, sentinel id. No slot is removed or moved.
pub open spec fn dir_tombstone_post(d1: Seq<u8>, d2: Seq<u8>, m: int) -> bool {
    &&& d2.len() == d1.len()
    &&& forall|i: int| 0 <= i < slot_count(d1) && i != m ==> slot_at(d2, i) == slot_at(d1, i)
    &&& dir_name_at(d2, m) == Seq::<u8>::empty()
    &&& dir_id_at(d2, m) == SENTINEL_INODE
}

/// Creation succeeds exactly when a fresh inode id and the blocks for one
/// more directory slot are available.
pub open spec fn create_ok(fs: EasyFileSystem, d1: Seq<u8>) -> bool {
    &&& fs.inodes@.len() < MAX_INODES
    &&& avail_blocks(fs) >= grow_needed(d1.len() as int, (slot_count(d1) + 1) * (DIRENT_SZ as int))
}

/// A handle naming one on-disk inode record by its location in the arena.
/// It owns nothing and is freely copied; all operations take the filesystem
/// explicitly.
#[derive(Clone, Copy, PartialEq, Eq, Structural, Debug)]
pub struct Inode {
    pub block_id: usize,
    pub block_offset: usize,
}

impl Inode {
    /// The inode id this handle locates.
    pub open spec fn iid(&self) -> int {
        (self.block_id - INODE_AREA_START) * INODES_PER_BLOCK + (self.block_offset as int) / (
        INODE_SZ as int)
    }

    /// The handle points at a real, well-aligned record of `fs`.
    pub open spec fn valid(&self, fs: EasyFileSystem) -> bool {
        &&& INODE_AREA_START <= self.block_id
        &&& (self.block_offset as int) % (INODE_SZ as int) == 0
        &&& self.block_offset < INODES_PER_BLOCK * INODE_SZ
        &&& self.iid() < fs.inodes@.len()
    }

    /// The record this handle locates.
    pub open spec fn record(&self, fs: EasyFileSystem) -> DiskInode {
        fs.inodes@[self.iid()]
    }

    /// The bytes of the located record.
    pub open spec fn file_data(&self, fs: EasyFileSystem) -> Seq<u8> {
        self.record(fs).data@
    }

    /// Create a handle for the record at `(block_id, block_offset)`.
    pub fn new(block_id: u32, block_offset: usize) -> (r: Inode)
        ensures
            r.block_id == block_id,
            r.block_offset == block_offset,
    {
        Inode { block_id: block_id as usize, block_offset }
    }

    /// The arena index of this handle's record, as a `usize`.
    fn inode_index(&self, fs: &EasyFileSystem) -> (r: usize)
        requires
            fs.wf(),
            self.valid(*fs),
        ensures
            r == self.iid(),
            r < fs.inodes@.len(),
    {
        (self.block_id - INODE_AREA_START) * INODES_PER_BLOCK + self.block_offset / INODE_SZ
    }

    /// The inode id this handle names, translated back through the arena
    /// layout.
    pub fn inode_id(&self, fs: &EasyFileSystem) -> (r: u32)
        requires
            fs.wf(),
            self.valid(*fs),
        ensures
            r == self.iid(),
    {
        fs.get_inode_id(self.block_id, self.block_offset)
    }

    /// Whether the record is a directory.
    pub fn is_dir(&self, fs: &EasyFileSystem) -> (r: bool)
        requires
            fs.wf(),
            self.valid(*fs),
        ensures
            r == (self.record(*fs).kind == DiskInodeType::Directory),
    {
        let idx = self.inode_index(fs);
        fs.inodes[idx].is_dir()
    }

    /// Whether the record is a regular file.
    pub fn is_file(&self, fs: &EasyFileSystem) -> (r: bool)
        requires
            fs.wf(),
            self.valid(*fs),
        ensures
            r == (self.record(*fs).kind == DiskInodeType::File),
    {
        let idx = self.inode_index(fs);
        fs.inodes[idx].is_file()
    }

    /// Read one directory-entry slot.
    fn read_dirent(&self, fs: &EasyFileSystem, i: usize) -> (r: DirEntry)
        requires
            fs.wf(),
            self.valid(*fs),
            (i + 1) * DIRENT_SZ <= self.file_data(*fs).len(),
        ensures
            r.wf(),
            r@ == slot_at(self.file_data(*fs), i as int),
    {
        let idx = self.inode_index(fs);
        let mut buf: Vec<u8> = vec![0u8; DIRENT_SZ];
        let n = fs.inodes[idx].read_at(i * DIRENT_SZ, &mut buf);
        proof {
            let data = self.file_data(*fs);
            assert(read_result(data, (i * DIRENT_SZ) as int, DIRENT_SZ as int) =~= slot_at(
                data,
                i as int,
            ));
            assert(buf@.subrange(0, DIRENT_SZ as int) =~= buf@);
        }
        DirEntry::from_bytes(buf)
    }

    /// Overwrite one directory-entry slot with `e`.
    fn write_dirent(&self, fs: &mut EasyFileSystem, i: usize, e: &DirEntry)
        requires
            old(fs).wf(),
            self.valid(*old(fs)),
            e.wf(),
            (i + 1) * DIRENT_SZ <= self.file_data(*old(fs)).len(),
        ensures
            final(fs).wf(),
            self.valid(*final(fs)),
            final(fs).inodes@.len() == old(fs).inodes@.len(),
            final(fs).data_capacity == old(fs).data_capacity,
            avail_blocks(*final(fs)) == avail_blocks(*old(fs)),
            forall|j: int|
                0 <= j < old(fs).inodes@.len() && j != self.iid() ==> final(fs).inodes@[j] == old(fs).inodes@[j],
            final(fs).inodes@[self.iid()].kind == old(fs).inodes@[self.iid()].kind,
            final(fs).inodes@[self.iid()].blocks@ == old(fs).inodes@[self.iid()].blocks@,
            self.file_data(*final(fs)).len() == self.file_data(*old(fs)).len(),
            self.file_data(*final(fs)) == overwrite(
                self.file_data(*old(fs)),
                (i * DIRENT_SZ) as int,
                e@,
            ),
            slot_at(self.file_data(*final(fs)), i as int) == e@,
            forall|j: int|
                0 <= j < slot_count(self.file_data(*old(fs))) && j != i ==> slot_at(
                    self.file_data(*final(fs)),
                    j,
                ) == slot_at(self.file_data(*old(fs)), j),
            forall|j: int|
                0 <= j < self.file_data(*old(fs)).len() && !((i * DIRENT_SZ) <= j < (i + 1)
                    * DIRENT_SZ) ==> self.file_data(*final(fs))[j] == self.file_data(*old(fs))[j],
    {
        let idx = self.inode_index(fs);
        let n = fs.inodes[idx].write_at(i * DIRENT_SZ, e.as_bytes().as_slice());
        proof {
            let d1 = self.file_data(*old(fs));
            let d2 = self.file_data(*final(fs));
            assert(e@.subrange(0, n as int) =~= e@);
            assert(slot_at(d2, i as int) =~= e@);
            assert forall|j: int|
                0 <= j < slot_count(d1) && j != i implies slot_at(d2, j) == slot_at(d1, j) by {
                assert(slot_at(d2, j) =~= slot_at(d1, j));
            }
        }
    }

    /// Find the first slot whose name is `name`; return its stored inode id,
    /// the sentinel included.
    fn find_inode_id(&self, fs: &EasyFileSystem, name: &[u8]) -> (r: Option<u32>)
        requires
            fs.wf(),
            self.valid(*fs),
            self.record(*fs).kind == DiskInodeType::Directory,
        ensures
            ({
                let d = self.file_data(*fs);
                match r {
                    None => first_match(d, name@) == -1,
                    Some(id) => first_match(d, name@) >= 0 && id == dir_id_at(
                        d,
                        first_match(d, name@),
                    ),
                }
            }),
    {
        let idx = self.inode_index(fs);
        let size = fs.inodes[idx].size();
        let file_count: usize = (size as usize) / DIRENT_SZ;
        let ghost d = self.file_data(*fs);
        let mut i: usize = 0;
        while i < file_count
            invariant
                fs.wf(),
                self.valid(*fs),
                self.record(*fs).kind == DiskInodeType::Directory,
                d == self.file_data(*fs),
                file_count == slot_count(d),
                i <= file_count,
                forall|k: int| 0 <= k < i ==> dir_name_at(d, k) != name@,
            decreases file_count - i,
        {
            let dirent = self.read_dirent(fs, i);
            let ename = dirent.name();
            if bytes_eq(&ename, name) {
                let id = dirent.inode_id();
                proof {
                    lemma_first_match_from_found(d, name@, 0, i as int);
                }
                return Some(id);
            }
            i += 1;
        }
        proof {
            lemma_first_match_from_none(d, name@, 0);
        }
        None
    }

    /// Resolve `name` to a handle. The first slot bearing the name decides:
    /// a tombstoned first match resolves to nothing even if a later slot
    /// repeats the name.
    pub fn find(&self, fs: &EasyFileSystem, name: &[u8]) -> (r: Option<Inode>)
        requires
            fs.wf(),
            self.valid(*fs),
            self.record(*fs).kind == DiskInodeType::Directory,
            dir_ids_ok(self.file_data(*fs), fs.inodes@.len() as int),
        ensures
            ({
                let d = self.file_data(*fs);
                let m = first_match(d, name@);
                match r {
                    None => m == -1 || dir_id_at(d, m) == SENTINEL_INODE,
                    Some(h) => {
                        &&& m >= 0
                        &&& dir_id_at(d, m) != SENTINEL_INODE
                        &&& h.valid(*fs)
                        &&& h.iid() == dir_id_at(d, m)
                    },
                }
            }),
    {
        let inode_id = self.find_inode_id(fs, name);
        match inode_id {
            None => None,
            Some(id) => {
                if id == SENTINEL_INODE {
                    return None;
                }
                let (block_id, block_offset) = fs.get_disk_inode_pos(id);
                let h = Inode::new(block_id, block_offset);
                proof {
                    lemma_pos_roundtrip(id);
                    lemma_first_match_from_props(self.file_data(*fs), name@, 0);
                }
                Some(h)
            },
        }
    }

    /// Read up to `buf.len()` bytes at `offset` into the front of `buf`.
    pub fn read_at(&self, fs: &EasyFileSystem, offset: usize, buf: &mut Vec<u8>) -> (n: usize)
        requires
            fs.wf(),
            self.valid(*fs),
        ensures
            n == read_result(self.file_data(*fs), offset as int, old(buf)@.len() as int).len(),
            final(buf)@.len() == old(buf)@.len(),
            final(buf)@.subrange(0, n as int) == read_result(
                self.file_data(*fs),
                offset as int,
                old(buf)@.len() as int,
            ),
            final(buf)@.subrange(n as int, final(buf)@.len() as int) == old(buf)@.subrange(
                n as int,
                old(buf)@.len() as int,
            ),
    {
        let idx = self.inode_index(fs);
        fs.inodes[idx].read_at(offset, buf)
    }

    /// Grow the record to `new_size` bytes, allocating the missing blocks
    /// one at a time with no rollback: when the allocator runs dry partway,
    /// the blocks already taken are leaked and the size is left unchanged.
    /// Never shrinks. Returns whether the growth happened.
    fn increase_size(&self, fs: &mut EasyFileSystem, new_size: u32) -> (ok: bool)
        requires
            old(fs).wf(),
            self.valid(*old(fs)),
        ensures
            final(fs).wf(),
            self.valid(*final(fs)),
            final(fs).inodes@.len() == old(fs).inodes@.len(),
            final(fs).data_capacity == old(fs).data_capacity,
            forall|j: int|
                0 <= j < old(fs).inodes@.len() && j != self.iid() ==> final(fs).inodes@[j] == old(fs).inodes@[j],
            final(fs).inodes@[self.iid()].kind == old(fs).inodes@[self.iid()].kind,
            ok <==> avail_blocks(*old(fs)) >= grow_needed(
                self.file_data(*old(fs)).len() as int,
                new_size as int,
            ),
            ok ==> ({
                let d1 = self.file_data(*old(fs));
                let d2 = self.file_data(*final(fs));
                &&& d2.len() == if new_size <= d1.len() {
                    d1.len() as int
                } else {
                    new_size as int
                }
                &&& d2.subrange(0, d1.len() as int) == d1
                &&& forall|j: int| d1.len() <= j < d2.len() ==> d2[j] == 0u8
                &&& avail_blocks(*final(fs)) == avail_blocks(*old(fs)) - grow_needed(
                    d1.len() as int,
                    new_size as int,
                )
            }),
            !ok ==> ({
                &&& self.file_data(*final(fs)) == self.file_data(*old(fs))
                &&& final(fs).inodes@[self.iid()] == old(fs).inodes@[self.iid()]
                &&& avail_blocks(*final(fs)) == 0
            }),
    {
        let idx = self.inode_index(fs);
        let cur = fs.inodes[idx].size();
        if new_size < cur {
            proof {
                assert(self.file_data(*final(fs)).subrange(
                    0,
                    self.file_data(*old(fs)).len() as int,
                ) =~= self.file_data(*old(fs)));
            }
            return true;
        }
        let blocks_needed = fs.inodes[idx].blocks_num_needed(new_size);
        let mut v: Vec<u32> = Vec::new();
        let mut k: u32 = 0;
        while k < blocks_needed
            invariant
                fs.wf(),
                self.valid(*fs),
                fs.inodes@ == old(fs).inodes@,
                fs.data_capacity == old(fs).data_capacity,
                k <= blocks_needed,
                v@.len() == k,
                avail_blocks(*fs) == avail_blocks(*old(fs)) - k,
                self.file_data(*old(fs)).len() <= new_size,
                blocks_needed == grow_needed(self.file_data(*old(fs)).len() as int, new_size as int),
            decreases blocks_needed - k,
        {
            match fs.alloc_data() {
                Some(b) => {
                    v.push(b);
                },
                None => {
                    return false;
                },
            }
            k += 1;
        }
        proof {
            lemma_blocks_for_monotone(self.file_data(*old(fs)).len() as int, new_size as int);
        }
        fs.inodes[idx].increase_size(new_size, v);
        true
    }

    /// Write `buf` at `offset`, first growing the record to cover
    /// `offset + buf.len()` bytes. When the allocator cannot back the
    /// growth, the write is truncated at the old size instead. Returns the
    /// bytes written. Bytes of any gap between the old size and `offset`
    /// are left unspecified.
    pub fn write_at(&self, fs: &mut EasyFileSystem, offset: usize, buf: &[u8]) -> (n: usize)
        requires
            old(fs).wf(),
            self.valid(*old(fs)),
            offset + buf@.len() <= u32::MAX,
        ensures
            final(fs).wf(),
            self.valid(*final(fs)),
            final(fs).inodes@.len() == old(fs).inodes@.len(),
            final(fs).data_capacity == old(fs).data_capacity,
            forall|j: int|
                0 <= j < old(fs).inodes@.len() && j != self.iid() ==> final(fs).inodes@[j] == old(fs).inodes@[j],
            final(fs).inodes@[self.iid()].kind == old(fs).inodes@[self.iid()].kind,
            ({
                let d1 = self.file_data(*old(fs));
                let d2 = self.file_data(*final(fs));
                let ok = avail_blocks(*old(fs)) >= grow_needed(
                    d1.len() as int,
                    offset + buf@.len(),
                );
                if ok {
                    &&& n == buf@.len()
                    &&& d2.len() == if offset + buf@.len() <= d1.len() {
                        d1.len() as int
                    } else {
                        offset + buf@.len()
                    }
                    &&& forall|j: int|
                        offset <= j < offset + buf@.len() ==> d2[j] == buf@[j - offset]
                    &&& forall|j: int|
                        0 <= j < d1.len() && !(offset <= j < offset + buf@.len()) ==> d2[j]
                            == d1[j]
                    &&& avail_blocks(*final(fs)) == avail_blocks(*old(fs)) - grow_needed(
                        d1.len() as int,
                        offset + buf@.len(),
                    )
                } else {
                    &&& n == read_result(buf@, 0, d1.len() - offset).len()
                    &&& d2 == overwrite(d1, offset as int, buf@.subrange(0, n as int))
                    &&& avail_blocks(*final(fs)) == 0
                }
            }),
    {
        let new_size = (offset + buf.len()) as u32;
        let grown = self.increase_size(fs, new_size);
        let idx = self.inode_index(fs);
        let n = fs.inodes[idx].write_at(offset, buf);
        proof {
            let d1 = self.file_data(*old(fs));
            let dg = fs.inodes@[self.iid()].data@;
            if grown {
                assert(n == buf@.len());
                assert forall|j: int|
                    0 <= j < d1.len() && !(offset <= j < offset + buf@.len()) implies self.file_data(
                    *final(fs),
                )[j] == d1[j] by {
                    assert(d1[j] == dg[j]);
                }
            }
        }
        n
    }

    /// Append one slot `(name, id)` to the directory: grow by one slot and
    /// write the entry into the new slot. Fails, leaving the directory
    /// unchanged, when the allocator cannot back the growth.
    fn append_dirent(&self, fs: &mut EasyFileSystem, name: &[u8], id: u32) -> (ok: bool)
        requires
            old(fs).wf(),
            self.valid(*old(fs)),
            name_storable(name@),
            self.file_data(*old(fs)).len() + DIRENT_SZ <= u32::MAX,
        ensures
            final(fs).wf(),
            self.valid(*final(fs)),
            final(fs).inodes@.len() == old(fs).inodes@.len(),
            final(fs).data_capacity == old(fs).data_capacity,
            forall|j: int|
                0 <= j < old(fs).inodes@.len() && j != self.iid() ==> final(fs).inodes@[j] == old(fs).inodes@[j],
            final(fs).inodes@[self.iid()].kind == old(fs).inodes@[self.iid()].kind,
            ok <==> avail_blocks(*old(fs)) >= grow_needed(
                self.file_data(*old(fs)).len() as int,
                (slot_count(self.file_data(*old(fs))) + 1) * (DIRENT_SZ as int),
            ),
            ok ==> ({
                let d1 = self.file_data(*old(fs));
                let d2 = self.file_data(*final(fs));
                &&& dir_append_post(d1, d2, name@, id as int)
                &&& avail_blocks(*final(fs)) == avail_blocks(*old(fs)) - grow_needed(
                    d1.len() as int,
                    (slot_count(d1) + 1) * (DIRENT_SZ as int),
                )
                &&& (dir_ids_ok(d1, old(fs).inodes@.len() as int) && id < old(fs).inodes@.len()
                    ==> dir_ids_ok(d2, old(fs).inodes@.len() as int))
            }),
            !ok ==> ({
                &&& self.file_data(*final(fs)) == self.file_data(*old(fs))
                &&& final(fs).inodes@[self.iid()] == old(fs).inodes@[self.iid()]
                &&& avail_blocks(*final(fs)) == 0
            }),
    {
        let idx = self.inode_index(fs);
        let size = fs.inodes[idx].size();
        let file_count: usize = (size as usize) / DIRENT_SZ;
        let new_size: u32 = ((file_count + 1) * DIRENT_SZ) as u32;
        let ghost d1 = self.file_data(*old(fs));
        proof {
            assert(file_count * DIRENT_SZ <= d1.len() < (file_count + 1) * DIRENT_SZ) by {
                vstd::arithmetic::div_mod::lemma_fundamental_div_mod(d1.len() as int, 32);
            }
        }
        if !self.increase_size(fs, new_size) {
            return false;
        }
        let e = DirEntry::new(name, id);
        let ghost dg = self.file_data(*fs);
        self.write_dirent(fs, file_count, &e);
        proof {
            let d2 = self.file_data(*fs);
            assert(slot_count(d2) == file_count + 1) by {
                vstd::arithmetic::div_mod::lemma_div_multiples_vanish((file_count + 1) as int, 32);
            }
            assert forall|j: int| 0 <= j < d1.len() implies dg[j] == d1[j] by {
                assert(dg.subrange(0, d1.len() as int)[j] == d1[j]);
            }
            assert forall|i: int| 0 <= i < slot_count(d1) implies slot_at(d2, i) == slot_at(
                d1,
                i,
            ) by {
                assert(slot_at(dg, i) =~= slot_at(d1, i));
            }
            assert(dir_append_post(d1, d2, name@, id as int));
            if dir_ids_ok(d1, old(fs).inodes@.len() as int) && id < old(fs).inodes@.len() {
                assert forall|i: int|
                    0 <= i < slot_count(d2) && #[trigger] dir_id_at(d2, i) != SENTINEL_INODE
                        implies 0 <= dir_id_at(d2, i) < old(fs).inodes@.len() by {
                    if i < slot_count(d1) {
                        assert(dir_id_at(d2, i) == dir_id_at(d1, i));
                    } else {
                        assert(dir_id_at(d2, i) == id);
                    }
                }
            }
        }
        true
    }

    /// Create a fresh file named `name` in this directory. Creation refuses
    /// any name whose first matching slot exists at all — tombstoned slots
    /// included, so a deleted name cannot be recreated — and fails when
    /// either allocator is exhausted.
    pub fn create(&self, fs: &mut EasyFileSystem, name: &[u8]) -> (r: Option<Inode>)
        requires
            old(fs).wf(),
            self.valid(*old(fs)),
            self.record(*old(fs)).kind == DiskInodeType::Directory,
            first_match(self.file_data(*old(fs)), name@) == -1 ==> name_storable(name@)
                && self.file_data(*old(fs)).len() + DIRENT_SZ <= u32::MAX,
        ensures
            final(fs).wf(),
            self.valid(*final(fs)),
            final(fs).data_capacity == old(fs).data_capacity,
            old(fs).inodes@.len() <= final(fs).inodes@.len(),
            forall|j: int|
                0 <= j < old(fs).inodes@.len() && j != self.iid() ==> final(fs).inodes@[j] == old(fs).inodes@[j],
            final(fs).inodes@[self.iid()].kind == old(fs).inodes@[self.iid()].kind,
            r.is_some() <==> (first_match(self.file_data(*old(fs)), name@) == -1 && create_ok(
                *old(fs),
                self.file_data(*old(fs)),
            )),
            first_match(self.file_data(*old(fs)), name@) != -1 ==> *final(fs) == *old(fs),
            ({
                let d1 = self.file_data(*old(fs));
                let d2 = self.file_data(*final(fs));
                match r {
                    Some(h) => {
                        &&& h.valid(*final(fs))
                        &&& h.iid() == old(fs).inodes@.len()
                        &&& final(fs).inodes@.len() == old(fs).inodes@.len() + 1
                        &&& h.record(*final(fs)).kind == DiskInodeType::File
                        &&& h.file_data(*final(fs)) == Seq::<u8>::empty()
                        &&& dir_append_post(d1, d2, name@, h.iid())
                        &&& avail_blocks(*final(fs)) == avail_blocks(*old(fs)) - grow_needed(
                            d1.len() as int,
                            (slot_count(d1) + 1) * (DIRENT_SZ as int),
                        )
                        &&& (dir_ids_ok(d1, old(fs).inodes@.len() as int) ==> dir_ids_ok(
                            d2,
                            final(fs).inodes@.len() as int,
                        ))
                    },
                    None => d2 == d1,
                }
            }),
    {
        if self.find_inode_id(fs, name).is_some() {
            return None;
        }
        let new_inode_id = match fs.alloc_inode() {
            Some(id) => id,
            None => {
                return None;
            },
        };
        let (nb, no) = fs.get_disk_inode_pos(new_inode_id);
        let nh = Inode::new(nb, no);
        proof {
            lemma_pos_roundtrip(new_inode_id);
        }
        let nidx = nh.inode_index(fs);
        fs.inodes[nidx].initialize(DiskInodeType::File);
        let ghost fs_mid = *fs;
        if !self.append_dirent(fs, name, new_inode_id) {
            return None;
        }
        proof {
            if dir_ids_ok(self.file_data(*old(fs)), old(fs).inodes@.len() as int) {
                assert(dir_ids_ok(self.file_data(fs_mid), fs_mid.inodes@.len() as int));
            }
        }
        let (block_id, block_offset) = fs.get_disk_inode_pos(new_inode_id);
        Some(Inode::new(block_id, block_offset))
    }

    /// Add a hard link: append a slot binding `new_name` to the existing
    /// inode `old_inode_id` (no new inode is allocated), and record the
    /// extra reference in the link table — 2 on the table's first sight of
    /// the id, one more afterwards. When the allocator cannot back the
    /// directory growth, nothing changes.
    pub fn hard_link(
        &self,
        fs: &mut EasyFileSystem,
        new_name: &[u8],
        old_inode_id: u32,
        count: &mut LinkTable,
    )
        requires
            old(fs).wf(),
            self.valid(*old(fs)),
            name_storable(new_name@),
            self.file_data(*old(fs)).len() + DIRENT_SZ <= u32::MAX,
            old_inode_id < old(fs).inodes@.len(),
            old(count)@.contains_key(old_inode_id as usize) ==> old(count)@[old_inode_id as usize]
                < u32::MAX,
        ensures
            final(fs).wf(),
            self.valid(*final(fs)),
            final(fs).inodes@.len() == old(fs).inodes@.len(),
            final(fs).data_capacity == old(fs).data_capacity,
            forall|j: int|
                0 <= j < old(fs).inodes@.len() && j != self.iid() ==> final(fs).inodes@[j] == old(fs).inodes@[j],
            final(fs).inodes@[self.iid()].kind == old(fs).inodes@[self.iid()].kind,
            ({
                let d1 = self.file_data(*old(fs));
                let d2 = self.file_data(*final(fs));
                let ok = avail_blocks(*old(fs)) >= grow_needed(
                    d1.len() as int,
                    (slot_count(d1) + 1) * (DIRENT_SZ as int),
                );
                if ok {
                    &&& dir_append_post(d1, d2, new_name@, old_inode_id as int)
                    &&& (dir_ids_ok(d1, old(fs).inodes@.len() as int) ==> dir_ids_ok(
                        d2,
                        final(fs).inodes@.len() as int,
                    ))
                    &&& final(count)@ == if old(count)@.contains_key(old_inode_id as usize) {
                        old(count)@.insert(
                            old_inode_id as usize,
                            (old(count)@[old_inode_id as usize] + 1) as u32,
                        )
                    } else {
                        old(count)@.insert(old_inode_id as usize, 2u32)
                    }
                } else {
                    &&& d2 == d1
                    &&& final(count)@ == old(count)@
                    &&& avail_blocks(*final(fs)) == 0
                }
            }),
    {
        if !self.append_dirent(fs, new_name, old_inode_id) {
            return ;
        }
        count.add_link(old_inode_id as usize);
    }

    /// Remove the first slot named `name` by overwriting it in place with
    /// the tombstone, and note the lost reference in the link table: a
    /// present positive count is decremented, an id the table never saw is
    /// seeded with 0. No slot is compacted away; repeated names beyond the
    /// first match are left alone. Without a match nothing changes.
    pub fn unlink(&self, fs: &mut EasyFileSystem, name: &[u8], count: &mut LinkTable)
        requires
            old(fs).wf(),
            self.valid(*old(fs)),
        ensures
            final(fs).wf(),
            self.valid(*final(fs)),
            final(fs).inodes@.len() == old(fs).inodes@.len(),
            final(fs).data_capacity == old(fs).data_capacity,
            avail_blocks(*final(fs)) == avail_blocks(*old(fs)),
            forall|j: int|
                0 <= j < old(fs).inodes@.len() && j != self.iid() ==> final(fs).inodes@[j] == old(fs).inodes@[j],
            final(fs).inodes@[self.iid()].kind == old(fs).inodes@[self.iid()].kind,
            self.file_data(*final(fs)).len() == self.file_data(*old(fs)).len(),
            ({
                let d1 = self.file_data(*old(fs));
                let d2 = self.file_data(*final(fs));
                let m = first_match(d1, name@);
                if m == -1 {
                    &&& d2 == d1
                    &&& final(count)@ == old(count)@
                } else {
                    let k = dir_id_at(d1, m) as usize;
                    &&& dir_tombstone_post(d1, d2, m)
                    &&& forall|j: int|
                        slot_count(d1) * DIRENT_SZ <= j < d1.len() ==> d2[j] == d1[j]
                    &&& final(count)@ == if old(count)@.contains_key(k) {
                        if old(count)@[k] > 0 {
                            old(count)@.insert(k, (old(count)@[k] - 1) as u32)
                        } else {
                            old(count)@
                        }
                    } else {
                        old(count)@.insert(k, 0u32)
                    }
                }
            }),
    {
        let idx = self.inode_index(fs);
        let size = fs.inodes[idx].size();
        let file_count: usize = (size as usize) / DIRENT_SZ;
        let ghost d1 = self.file_data(*fs);
        proof {
            assert(file_count * DIRENT_SZ <= d1.len()) by {
                vstd::arithmetic::div_mod::lemma_fundamental_div_mod(d1.len() as int, 32);
            }
        }
        let mut i: usize = 0;
        while i < file_count
            invariant
                fs.wf(),
                self.valid(*fs),
                *fs == *old(fs),
                *count == *old(count),
                d1 == self.file_data(*fs),
                file_count == slot_count(d1),
                (file_count + 1) * DIRENT_SZ <= d1.len() + DIRENT_SZ,
                i <= file_count,
                forall|k: int| 0 <= k < i ==> dir_name_at(d1, k) != name@,
            decreases file_count - i,
        {
            let dirent = self.read_dirent(fs, i);
            let ename = dirent.name();
            if bytes_eq(&ename, name) {
                proof {
                    lemma_first_match_from_found(d1, name@, 0, i as int);
                }
                let old_id = dirent.inode_id();
                let empty_name: Vec<u8> = Vec::new();
                let tomb = DirEntry::new(empty_name.as_slice(), SENTINEL_INODE);
                self.write_dirent(fs, i, &tomb);
                count.remove_link(old_id as usize);
                proof {
                    let d2 = self.file_data(*fs);
                    assert(dir_tombstone_post(d1, d2, i as int));
                    assert forall|j: int|
                        slot_count(d1) * DIRENT_SZ <= j < d1.len() implies d2[j] == d1[j] by {
                        assert((i + 1) * DIRENT_SZ <= slot_count(d1) * DIRENT_SZ);
                    }
                }
                return ;
            }
            i += 1;
        }
        proof {
            lemma_first_match_from_none(d1, name@, 0);
        }
    }

    /// The name field of every slot, in directory order — tombstoned slots
    /// included, whose empty names appear as-is. Slots are never compacted,
    /// so the list length is the slot count itself.
    pub fn ls(&self, fs: &EasyFileSystem) -> (r: Vec<Vec<u8>>)
        requires
            fs.wf(),
            self.valid(*fs),
        ensures
            r@.len() == slot_count(self.file_data(*fs)),
            forall|i: int|
                0 <= i < r@.len() ==> r@[i]@ == dir_name_at(self.file_data(*fs), i),
    {
        let idx = self.inode_index(fs);
        let size = fs.inodes[idx].size();
        let file_count: usize = (size as usize) / DIRENT_SZ;
        let ghost d = self.file_data(*fs);
        proof {
            assert(file_count * DIRENT_SZ <= d.len()) by {
                vstd::arithmetic::div_mod::lemma_fundamental_div_mod(d.len() as int, 32);
            }
        }
        let mut v: Vec<Vec<u8>> = Vec::new();
        let mut i: usize = 0;
        while i < file_count
            invariant
                fs.wf(),
                self.valid(*fs),
                d == self.file_data(*fs),
                file_count == slot_count(d),
                file_count * DIRENT_SZ <= d.len(),
                i <= file_count,
                v@.len() == i,
                forall|k: int| 0 <= k < i ==> v@[k]@ == dir_name_at(d, k),
            decreases file_count - i,
        {
            let dirent = self.read_dirent(fs, i);
            v.push(dirent.name());
            i += 1;
        }
        v
    }

    /// Free all content: the record becomes empty and every freed data
    /// block — exactly as many as the old size implied — goes back to the
    /// allocator. The inode record itself is not reclaimed.
    pub fn clear(&self, fs: &mut EasyFileSystem)
        requires
            old(fs).wf(),
            self.valid(*old(fs)),
            avail_blocks(*old(fs)) + blocks_for(self.file_data(*old(fs)).len() as int)
                <= u32::MAX,
        ensures
            final(fs).wf(),
            self.valid(*final(fs)),
            final(fs).inodes@.len() == old(fs).inodes@.len(),
            final(fs).data_capacity == old(fs).data_capacity,
            forall|j: int|
                0 <= j < old(fs).inodes@.len() && j != self.iid() ==> final(fs).inodes@[j] == old(fs).inodes@[j],
            final(fs).inodes@[self.iid()].kind == old(fs).inodes@[self.iid()].kind,
            self.file_data(*final(fs)) == Seq::<u8>::empty(),
            avail_blocks(*final(fs)) == avail_blocks(*old(fs)) + blocks_for(
                self.file_data(*old(fs)).len() as int,
            ),
    {
        let idx = self.inode_index(fs);
        let size = fs.inodes[idx].size();
        let mut freed = fs.inodes[idx].clear_size();
        assert(freed@.len() == blocks_for(size as int));
        let total = freed.len();
        let mut k: usize = 0;
        while k < total
            invariant
                fs.wf(),
                self.valid(*fs),
                k <= total,
                total == freed@.len(),
                total == blocks_for(self.file_data(*old(fs)).len() as int),
                fs.inodes@.len() == old(fs).inodes@.len(),
                fs.data_capacity == old(fs).data_capacity,
                forall|j: int|
                    0 <= j < old(fs).inodes@.len() && j != self.iid() ==> fs.inodes@[j] == old(fs).inodes@[j],
                fs.inodes@[self.iid()].kind == old(fs).inodes@[self.iid()].kind,
                self.file_data(*fs) == Seq::<u8>::empty(),
                avail_blocks(*fs) == avail_blocks(*old(fs)) + k,
                avail_blocks(*old(fs)) + total <= u32::MAX,
            decreases total - k,
        {
            let b = freed[k];
            fs.dealloc_data(b);
            k += 1;
        }
    }
}

impl EasyFileSystem {
    /// The handle of the root directory: inode id 0.
    pub fn root_inode(&self) -> (r: Inode)
        requires
            self.wf(),
            self.inodes@.len() >= 1,
        ensures
            r.valid(*self),
            r.iid() == 0,
    {
        let (block_id, block_offset) = self.get_disk_inode_pos(0);
        proof {
            lemma_pos_roundtrip(0);
        }
        Inode::new(block_id, block_offset)
    }
}

/// Byte-wise equality of a stored name and a queried one.
fn bytes_eq(a: &Vec<u8>, b: &[u8]) -> (r: bool)
    ensures
        r == (a@ == b@),
{
    if a.len() != b.len() {
        proof {
            assert(a@.len() != b@.len());
        }
        return false;
    }
    let n = a.len();
    let mut i: usize = 0;
    while i < n
        invariant
            n == a@.len(),
            n == b@.len(),
            i <= n,
            forall|j: int| 0 <= j < i ==> a@[j] == b@[j],
        decreases n - i,
    {
        if a[i] != b[i] {
            return false;
        }
        i += 1;
    }
    proof {
        assert(a@ =~= b@);
    }
    true
}

/// The arena position computed for an id decodes back to that id.
proof fn lemma_pos_roundtrip(id: u32)
    ensures
        ((INODE_AREA_START + id / (INODES_PER_BLOCK as u32)) - INODE_AREA_START) * INODES_PER_BLOCK
            + ((id % (INODES_PER_BLOCK as u32)) * INODE_SZ) / (INODE_SZ as int) == id,
        ((id % (INODES_PER_BLOCK as u32)) * INODE_SZ) % (INODE_SZ as int) == 0,
        (id % (INODES_PER_BLOCK as u32)) * INODE_SZ < INODES_PER_BLOCK * INODE_SZ,
{
    assert(id / 4 * 4 + id % 4 == id) by {
        vstd::arithmetic::div_mod::lemma_fundamental_div_mod(id as int, 4);
    }
    assert((id % 4) * 128 / 128 == id % 4 && ((id % 4) * 128) % 128 == 0) by {
        vstd::arithmetic::div_mod::lemma_div_multiples_vanish((id % 4) as int, 128);
        vstd::arithmetic::div_mod::lemma_mod_multiples_basic((id % 4) as int, 128);
    }
}

} // verus!
