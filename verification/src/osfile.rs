//! The open-file layer: open flags, the open-file object with its private
//! cursor, and the name-based operations the syscall layer consumes. All
//! state is dependency-injected: the filesystem and the hard-link table are
//! passed in explicitly.

use vstd::prelude::*;
use crate::dirent::{
    DIRENT_SZ, SENTINEL_INODE, name_storable, slot_count, dir_id_at, first_match,
};
use crate::disk::{DiskInodeType, blocks_for, read_result};
use crate::efs::{EasyFileSystem, avail_blocks};
use crate::links::{LinkTable, nlink_of};
use crate::vfs::{Inode, dir_ids_ok, dir_append_post, dir_tombstone_post, grow_needed, create_ok};

verus! {

/// Open for reading only (the empty flag set).
pub const RDONLY: u32 = 0;

/// Open for writing only.
pub const WRONLY: u32 = 1;

/// Open for reading and writing.
pub const RDWR: u32 = 2;

/// Create the file; an existing file of that name is truncated instead.
pub const CREATE: u32 = 512;

/// Truncate an existing file to zero length on open.
pub const TRUNC: u32 = 1024;

/// The flags argument of `open`: a set of the five flag bits above.
#[derive(Clone, Copy, PartialEq, Eq, Structural, Debug)]
pub struct OpenFlags {
    pub bits: u32,
}

/// The `(readable, writable)` pair a flag set grants.
pub open spec fn read_write_spec(f: OpenFlags) -> (bool, bool) {
    if f.bits == 0 {
        (true, false)
    } else if f.bits & WRONLY == WRONLY {
        (false, true)
    } else {
        (true, true)
    }
}

impl OpenFlags {
    /// Whether every bit of `flag` is set.
    pub open spec fn contains_spec(&self, flag: u32) -> bool {
        self.bits & flag == flag
    }

    /// Build a flag set, refusing unknown bits.
    pub fn from_bits(bits: u32) -> (r: Option<OpenFlags>)
        ensures
            r.is_some() <==> bits & !(WRONLY | RDWR | CREATE | TRUNC) == 0,
            r.is_some() ==> r->0.bits == bits,
    {
        if bits & !(WRONLY | RDWR | CREATE | TRUNC) == 0 {
            Some(OpenFlags { bits })
        } else {
            None
        }
    }

    /// No flag bit at all is set.
    pub fn is_empty(&self) -> (r: bool)
        ensures
            r == (self.bits == 0),
    {
        self.bits == 0
    }

    /// Whether every bit of `flag` is set.
    pub fn contains(&self, flag: u32) -> (r: bool)
        ensures
            r == self.contains_spec(flag),
    {
        self.bits & flag == flag
    }

    /// The access pair the flags grant: no flags mean read-only,
    /// write-only means exactly that, anything else grants both.
    pub fn read_write(&self) -> (r: (bool, bool))
        ensures
            r == read_write_spec(*self),
    {
        if self.is_empty() {
            (true, false)
        } else if self.contains(WRONLY) {
            (false, true)
        } else {
            (true, true)
        }
    }
}

/// The file-type tag reported to `stat`.
#[derive(Clone, Copy, PartialEq, Eq, Structural, Debug)]
pub enum StatMode {
    Null,
    Dir,
    File,
}

impl StatMode {
    /// The numeric mode field: the POSIX file-type bits.
    pub fn bits(&self) -> (r: u32)
        ensures
            *self == StatMode::Null ==> r == 0,
            *self == StatMode::Dir ==> r == 0o040000,
            *self == StatMode::File ==> r == 0o100000,
    {
        match self {
            StatMode::Null => 0,
            StatMode::Dir => 0o040000,
            StatMode::File => 0o100000,
        }
    }
}

/// The mutable half of an open file: its cursor and its inode handle.
pub struct OSInodeInner {
    pub offset: usize,
    pub inode: Inode,
}

/// One open file: access mode fixed at open time, plus a private cursor.
/// Two opens of one name alias the same on-disk inode but keep independent
/// cursors.
pub struct OSInode {
    pub readable: bool,
    pub writable: bool,
    pub inner: OSInodeInner,
}

impl OSInode {
    /// Wrap an inode handle as an open file with a fresh cursor.
    pub fn new(readable: bool, writable: bool, inode: Inode) -> (r: OSInode)
        ensures
            r.readable == readable,
            r.writable == writable,
            r.inner.offset == 0,
            r.inner.inode == inode,
    {
        OSInode { readable, writable, inner: OSInodeInner { offset: 0, inode } }
    }

    /// Read from the cursor to the end of the file, advancing the cursor to
    /// the end, in fixed-size chunks; a cursor at or past the end reads
    /// nothing.
    pub fn read_all(&mut self, fs: &EasyFileSystem) -> (v: Vec<u8>)
        requires
            fs.wf(),
            old(self).inner.inode.valid(*fs),
        ensures
            final(self).readable == old(self).readable,
            final(self).writable == old(self).writable,
            final(self).inner.inode == old(self).inner.inode,
            ({
                let data = old(self).inner.inode.file_data(*fs);
                let start = old(self).inner.offset as int;
                if start >= data.len() {
                    v@ == Seq::<u8>::empty() && final(self).inner.offset == old(self).inner.offset
                } else {
                    v@ == data.subrange(start, data.len() as int) && final(self).inner.offset
                        == data.len()
                }
            }),
    {
        let ghost data = self.inner.inode.file_data(*fs);
        let ghost start = self.inner.offset as int;
        let mut v: Vec<u8> = Vec::new();
        loop
            invariant
                fs.wf(),
                self.inner.inode.valid(*fs),
                self.readable == old(self).readable,
                self.writable == old(self).writable,
                self.inner.inode == old(self).inner.inode,
                data == self.inner.inode.file_data(*fs),
                start == old(self).inner.offset,
                start <= self.inner.offset,
                start < data.len() ==> self.inner.offset <= data.len(),
                start >= data.len() ==> self.inner.offset == start,
                v@ == if start >= data.len() || self.inner.offset > data.len() {
                    Seq::<u8>::empty()
                } else {
                    data.subrange(start, self.inner.offset as int)
                },
            ensures
                self.readable == old(self).readable,
                self.writable == old(self).writable,
                self.inner.inode == old(self).inner.inode,
                start >= data.len() ==> v@ == Seq::<u8>::empty() && self.inner.offset == old(
                    self,
                ).inner.offset,
                start < data.len() ==> v@ == data.subrange(start, data.len() as int)
                    && self.inner.offset == data.len(),
            decreases data.len() + 1 - self.inner.offset,
        {
            let mut buffer: Vec<u8> = vec![0u8; 512];
            let len = self.inner.inode.read_at(fs, self.inner.offset, &mut buffer);
            if len == 0 {
                proof {
                    if start < data.len() {
                        assert(self.inner.offset >= data.len());
                        assert(v@ == data.subrange(start, data.len() as int));
                    }
                }
                break ;
            }
            proof {
                assert(self.inner.offset < data.len());
                let m = self.inner.offset as int;
                assert forall|t: int| 0 <= t < len implies buffer@[t] == data[m + t] by {
                    assert(buffer@.subrange(0, len as int)[t] == read_result(data, m, 512)[t]);
                }
            }
            let mut j: usize = 0;
            while j < len
                invariant
                    j <= len,
                    len <= buffer@.len(),
                    v@.len() == self.inner.offset + j - start,
                    forall|t: int| 0 <= t < j ==> v@[v@.len() - j + t] == buffer@[t],
                    v@.subrange(0, (v@.len() - j) as int) == if self.inner.offset > data.len()
                        || start >= data.len() {
                        Seq::<u8>::empty()
                    } else {
                        data.subrange(start, self.inner.offset as int)
                    },
                    start < data.len(),
                    start <= self.inner.offset,
                    self.inner.offset <= data.len(),
                decreases len - j,
            {
                let b = buffer[j];
                v.push(b);
                proof {
                    assert(v@.subrange(0, (v@.len() - (j + 1)) as int) =~= v@.subrange(
                        0,
                        (v@.len() - 1 - j) as int,
                    ));
                }
                j += 1;
            }
            proof {
                let m = self.inner.offset as int;
                assert forall|k: int| 0 <= k < v@.len() implies v@[k] == data.subrange(
                    start,
                    m + len,
                )[k] by {
                    if k < v@.len() - len {
                        assert(v@.subrange(0, (v@.len() - len) as int)[k] == data.subrange(
                            start,
                            m,
                        )[k]);
                    } else {
                        let t = k - (v@.len() - len);
                        assert(v@[v@.len() - len + t] == buffer@[t]);
                    }
                }
                assert(v@ =~= data.subrange(start, m + len));
            }
            self.inner.offset = self.inner.offset + len;
        }
        v
    }

    /// Whether this open grants reading.
    pub fn readable(&self) -> (r: bool)
        ensures
            r == self.readable,
    {
        self.readable
    }

    /// Whether this open grants writing.
    pub fn writable(&self) -> (r: bool)
        ensures
            r == self.writable,
    {
        self.writable
    }

    /// Read into `buf` at the cursor and advance the cursor by the bytes
    /// transferred.
    pub fn read(&mut self, fs: &EasyFileSystem, buf: &mut Vec<u8>) -> (n: usize)
        requires
            fs.wf(),
            old(self).inner.inode.valid(*fs),
        ensures
            final(self).readable == old(self).readable,
            final(self).writable == old(self).writable,
            final(self).inner.inode == old(self).inner.inode,
            n == read_result(
                old(self).inner.inode.file_data(*fs),
                old(self).inner.offset as int,
                old(buf)@.len() as int,
            ).len(),
            final(self).inner.offset == old(self).inner.offset + n,
            final(buf)@.len() == old(buf)@.len(),
            final(buf)@.subrange(0, n as int) == read_result(
                old(self).inner.inode.file_data(*fs),
                old(self).inner.offset as int,
                old(buf)@.len() as int,
            ),
            final(buf)@.subrange(n as int, final(buf)@.len() as int) == old(buf)@.subrange(
                n as int,
                old(buf)@.len() as int,
            ),
    {
        let n = self.inner.inode.read_at(fs, self.inner.offset, buf);
        proof {
            assert(n <= old(buf)@.len());
            assert(self.inner.offset + n <= usize::MAX) by {
                assert(read_result(
                    old(self).inner.inode.file_data(*fs),
                    old(self).inner.offset as int,
                    old(buf)@.len() as int,
                ).len() <= old(self).inner.inode.file_data(*fs).len());
            }
        }
        self.inner.offset = self.inner.offset + n;
        n
    }

    /// Write all of `buf` at the cursor and advance the cursor past it. The
    /// growth step must be able to back the whole write: a short write is a
    /// broken structural invariant, so the blocks must be available.
    pub fn write(&mut self, fs: &mut EasyFileSystem, buf: &[u8]) -> (n: usize)
        requires
            old(fs).wf(),
            old(self).inner.inode.valid(*old(fs)),
            old(self).inner.offset + buf@.len() <= u32::MAX,
            avail_blocks(*old(fs)) >= grow_needed(
                old(self).inner.inode.file_data(*old(fs)).len() as int,
                old(self).inner.offset + buf@.len(),
            ),
        ensures
            final(self).readable == old(self).readable,
            final(self).writable == old(self).writable,
            final(self).inner.inode == old(self).inner.inode,
            final(fs).wf(),
            final(self).inner.inode.valid(*final(fs)),
            final(fs).inodes@.len() == old(fs).inodes@.len(),
            final(fs).data_capacity == old(fs).data_capacity,
            forall|j: int|
                0 <= j < old(fs).inodes@.len() && j != old(self).inner.inode.iid() ==> final(fs).inodes@[j] == old(fs).inodes@[j],
            final(fs).inodes@[old(self).inner.inode.iid()].kind == old(fs).inodes@[old(self).inner.inode.iid()].kind,
            n == buf@.len(),
            final(self).inner.offset == old(self).inner.offset + buf@.len(),
            ({
                let d1 = old(self).inner.inode.file_data(*old(fs));
                let d2 = old(self).inner.inode.file_data(*final(fs));
                let off = old(self).inner.offset as int;
                &&& d2.len() == if off + buf@.len() <= d1.len() {
                    d1.len() as int
                } else {
                    off + buf@.len()
                }
                &&& forall|j: int| off <= j < off + buf@.len() ==> d2[j] == buf@[j - off]
                &&& forall|j: int|
                    0 <= j < d1.len() && !(off <= j < off + buf@.len()) ==> d2[j] == d1[j]
                &&& avail_blocks(*final(fs)) == avail_blocks(*old(fs)) - grow_needed(
                    d1.len() as int,
                    off + buf@.len(),
                )
            }),
    {
        let n = self.inner.inode.write_at(fs, self.inner.offset, buf);
        self.inner.offset = self.inner.offset + n;
        n
    }

    /// The inode id of the wrapped handle.
    pub fn inode_id(&self, fs: &EasyFileSystem) -> (r: usize)
        requires
            fs.wf(),
            self.inner.inode.valid(*fs),
        ensures
            r == self.inner.inode.iid(),
    {
        self.inner.inode.inode_id(fs) as usize
    }

    /// The file-type tag of the wrapped inode.
    pub fn mode(&self, fs: &EasyFileSystem) -> (r: StatMode)
        requires
            fs.wf(),
            self.inner.inode.valid(*fs),
        ensures
            self.inner.inode.record(*fs).kind == DiskInodeType::Directory ==> r == StatMode::Dir,
            self.inner.inode.record(*fs).kind == DiskInodeType::File ==> r == StatMode::File,
    {
        if self.inner.inode.is_dir(fs) {
            StatMode::Dir
        } else if self.inner.inode.is_file(fs) {
            StatMode::File
        } else {
            StatMode::Null
        }
    }
}

/// The root directory's bytes.
pub open spec fn root_data(fs: EasyFileSystem) -> Seq<u8> {
    fs.inodes@[0].data@
}

/// What a filesystem must look like for the name-based operations: a root
/// directory exists at inode id 0 and its slots point at real inodes.
pub open spec fn fs_root_ok(fs: EasyFileSystem) -> bool {
    &&& fs.wf()
    &&& fs.inodes@.len() >= 1
    &&& fs.inodes@[0].kind == DiskInodeType::Directory
    &&& dir_ids_ok(root_data(fs), fs.inodes@.len() as int)
}

/// When an `open` of `name` with `flags` hands back a file: the name
/// resolves to a live slot, or `CREATE` is set and a wholly absent name can
/// be created.
pub open spec fn open_succeeds(fs: EasyFileSystem, name: Seq<u8>, flags: OpenFlags) -> bool {
    let d = root_data(fs);
    let m = first_match(d, name);
    ||| (m >= 0 && dir_id_at(d, m) != SENTINEL_INODE)
    ||| (flags.contains_spec(CREATE) && m == -1 && create_ok(fs, d))
}

/// What `open` asks of its caller: a storable name when a file will be
/// created, and block headroom when an existing file will be truncated.
pub open spec fn open_requires(fs: EasyFileSystem, name: Seq<u8>, flags: OpenFlags) -> bool {
    let d = root_data(fs);
    let m = first_match(d, name);
    &&& (flags.contains_spec(CREATE) && m == -1 ==> name_storable(name) && d.len() + DIRENT_SZ
        <= u32::MAX)
    &&& ((flags.contains_spec(CREATE) || flags.contains_spec(TRUNC)) && m >= 0 && dir_id_at(d, m)
        != SENTINEL_INODE ==> avail_blocks(fs) + blocks_for(
        fs.inodes@[dir_id_at(d, m)].data@.len() as int,
    ) <= u32::MAX)
}

/// What holds of the file object `f` and the filesystem after a successful
/// `open` of `name` with `flags` turned `fs1` into `fs2`.
pub open spec fn open_file_post(
    fs1: EasyFileSystem,
    fs2: EasyFileSystem,
    name: Seq<u8>,
    flags: OpenFlags,
    f: OSInode,
) -> bool {
    let d = root_data(fs1);
    let m = first_match(d, name);
    let found_live = m >= 0 && dir_id_at(d, m) != SENTINEL_INODE;
    &&& f.readable == read_write_spec(flags).0
    &&& f.writable == read_write_spec(flags).1
    &&& f.inner.offset == 0
    &&& f.inner.inode.valid(fs2)
    &&& fs_root_ok(fs2)
    &&& fs2.inodes@.len() >= fs1.inodes@.len()
    &&& (found_live ==> {
        &&& f.inner.inode.iid() == dir_id_at(d, m)
        &&& (flags.contains_spec(CREATE) || flags.contains_spec(TRUNC))
            ==> f.inner.inode.file_data(fs2) == Seq::<u8>::empty()
        &&& (!flags.contains_spec(CREATE) && !flags.contains_spec(TRUNC)) ==> fs2 == fs1
        &&& (dir_id_at(d, m) != 0 ==> root_data(fs2) == d)
        &&& (forall|j: int|
            0 <= j < fs1.inodes@.len() && j != f.inner.inode.iid() ==> fs2.inodes@[j]
                == fs1.inodes@[j])
    })
    &&& (!found_live ==> {
        &&& f.inner.inode.iid() == fs1.inodes@.len()
        &&& f.inner.inode.file_data(fs2) == Seq::<u8>::empty()
        &&& f.inner.inode.record(fs2).kind == DiskInodeType::File
        &&& dir_append_post(d, root_data(fs2), name, f.inner.inode.iid())
        &&& (forall|j: int|
            0 < j < fs1.inodes@.len() ==> fs2.inodes@[j] == fs1.inodes@[j])
    })
}

/// Resolve `name` under the root directory.
pub fn find_inode(fs: &EasyFileSystem, name: &[u8]) -> (r: Option<Inode>)
    requires
        fs_root_ok(*fs),
    ensures
        ({
            let d = root_data(*fs);
            let m = first_match(d, name@);
            match r {
                None => m == -1 || dir_id_at(d, m) == SENTINEL_INODE,
                Some(h) => {
                    &&& m >= 0
                    &&& dir_id_at(d, m) != SENTINEL_INODE
                    &&& h.valid(*fs)
                    &&& h.iid() == dir_id_at(d, m)
                },
            }
        }),
{
    let root = fs.root_inode();
    root.find(fs, name)
}

/// Open `name` under the root directory. With `CREATE`, an existing file is
/// truncated and a missing one created; without it, a missing name fails
/// and `TRUNC` truncates. The returned object's access pair comes from the
/// flags and its cursor starts at zero.
pub fn open_file(fs: &mut EasyFileSystem, name: &[u8], flags: OpenFlags) -> (r: Option<OSInode>)
    requires
        fs_root_ok(*old(fs)),
        open_requires(*old(fs), name@, flags),
    ensures
        final(fs).wf(),
        final(fs).inodes@.len() >= old(fs).inodes@.len(),
        r.is_some() <==> open_succeeds(*old(fs), name@, flags),
        match r {
            Some(f) => open_file_post(*old(fs), *final(fs), name@, flags, f),
            None => root_data(*final(fs)) == root_data(*old(fs)) && fs_root_ok(*final(fs)),
        },
{
    let (readable, writable) = flags.read_write();
    let root = fs.root_inode();
    if flags.contains(CREATE) {
        match root.find(fs, name) {
            Some(inode) => {
                inode.clear(fs);
                Some(OSInode::new(readable, writable, inode))
            },
            None => {
                match root.create(fs, name) {
                    Some(inode) => Some(OSInode::new(readable, writable, inode)),
                    None => None,
                }
            },
        }
    } else {
        match root.find(fs, name) {
            Some(inode) => {
                if flags.contains(TRUNC) {
                    inode.clear(fs);
                }
                Some(OSInode::new(readable, writable, inode))
            },
            None => None,
        }
    }
}

/// Bind `new_name` to the existing inode `old_inode_id` under the root and
/// record the reference in the link table.
pub fn link(fs: &mut EasyFileSystem, count: &mut LinkTable, new_name: &[u8], old_inode_id: u32)
    requires
        fs_root_ok(*old(fs)),
        name_storable(new_name@),
        root_data(*old(fs)).len() + DIRENT_SZ <= u32::MAX,
        old_inode_id < old(fs).inodes@.len(),
        old(count)@.contains_key(old_inode_id as usize) ==> old(count)@[old_inode_id as usize]
            < u32::MAX,
    ensures
        fs_root_ok(*final(fs)),
        final(fs).inodes@.len() == old(fs).inodes@.len(),
        forall|j: int|
            0 <= j < old(fs).inodes@.len() && j != 0 ==> final(fs).inodes@[j] == old(fs).inodes@[j],
        ({
            let d1 = root_data(*old(fs));
            let d2 = root_data(*final(fs));
            let ok = avail_blocks(*old(fs)) >= grow_needed(
                d1.len() as int,
                (slot_count(d1) + 1) * (DIRENT_SZ as int),
            );
            if ok {
                &&& dir_append_post(d1, d2, new_name@, old_inode_id as int)
                &&& final(count)@ == if old(count)@.contains_key(old_inode_id as usize) {
                    old(count)@.insert(
                        old_inode_id as usize,
                        (old(count)@[old_inode_id as usize] + 1) as u32,
                    )
                } else {
                    old(count)@.insert(old_inode_id as usize, 2u32)
                }
            } else {
                &&& d2 == d1
                &&& final(count)@ == old(count)@
            }
        }),
{
    let root = fs.root_inode();
    root.hard_link(fs, new_name, old_inode_id, count);
}

/// Remove the first slot named `name` under the root (tombstoning it in
/// place) and note the lost reference in the link table.
pub fn unlink(fs: &mut EasyFileSystem, count: &mut LinkTable, name: &[u8])
    requires
        fs_root_ok(*old(fs)),
    ensures
        fs_root_ok(*final(fs)),
        final(fs).inodes@.len() == old(fs).inodes@.len(),
        avail_blocks(*final(fs)) == avail_blocks(*old(fs)),
        forall|j: int|
            0 <= j < old(fs).inodes@.len() && j != 0 ==> final(fs).inodes@[j] == old(fs).inodes@[j],
        ({
            let d1 = root_data(*old(fs));
            let d2 = root_data(*final(fs));
            let m = first_match(d1, name@);
            if m == -1 {
                &&& d2 == d1
                &&& final(count)@ == old(count)@
            } else {
                let k = dir_id_at(d1, m) as usize;
                &&& dir_tombstone_post(d1, d2, m)
                &&& final(count)@ == if old(count)@.contains_key(k) {
                    if old(count)@[k] > 0 {
                        old(count)@.insert(k, (old(count)@[k] - 1) as u32)
                    } else {
                        old(count)@
                    }
                } else {
                    old(count)@.insert(k, 0u32)
                }
            }
        }),
{
    let root = fs.root_inode();
    root.unlink(fs, name, count);
    proof {
        let d1 = root_data(*old(fs));
        let d2 = root_data(*final(fs));
        let m = first_match(d1, name@);
        if m != -1 {
            assert forall|i: int|
                0 <= i < slot_count(d2) && #[trigger] dir_id_at(d2, i) != SENTINEL_INODE
                    implies 0 <= dir_id_at(d2, i) < final(fs).inodes@.len() by {
                if i != m {
                    assert(dir_id_at(d2, i) == dir_id_at(d1, i));
                }
            }
        }
    }
}

/// The recorded link count of `inode_id`: the table's entry, or 1 when the
/// table never saw the id.
pub fn nlink(count: &LinkTable, inode_id: usize) -> (r: u32)
    ensures
        r == nlink_of(count@, inode_id),
{
    count.nlink(inode_id)
}

} // verus!
