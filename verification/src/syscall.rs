//! The syscall-facing surface: the per-process state (file-descriptor
//! table, mapped pages, program break) and the file and memory syscalls
//! over it. Raw user pointers are resolved by the caller; the functions
//! here take and return plain values.

use vstd::prelude::*;
use crate::dirent::{DIRENT_SZ, SENTINEL_INODE, first_match, dir_id_at, name_storable};
use crate::disk::{DiskInodeType, blocks_for, read_result};
use crate::efs::{EasyFileSystem, avail_blocks};
use crate::links::{LinkTable, nlink_of};
use crate::osfile::{
    OSInode, OpenFlags, StatMode, open_file, find_inode, link, unlink, fs_root_ok, root_data,
    open_succeeds, open_requires, open_file_post, WRONLY, RDWR, CREATE, TRUNC,
};
use crate::vfs::{grow_needed, dir_append_post, dir_tombstone_post};

verus! {

/// Number of syscall ids whose use is counted per task.
pub const MAX_SYSCALL_NUM: usize = 500;

/// Bytes of one virtual-memory page.
pub const PAGE_SIZE: usize = 4096;

/// Seconds and microseconds, as `gettimeofday` reports them.
#[derive(Clone, Copy, PartialEq, Eq, Structural, Debug)]
pub struct TimeVal {
    pub sec: usize,
    pub usec: usize,
}

impl TimeVal {
    /// Split a microsecond count into whole seconds and the remainder.
    pub fn from_micros(us: usize) -> (r: TimeVal)
        ensures
            r.sec == us as int / 1000000,
            r.usec == us as int % 1000000,
            r.sec * 1000000 + r.usec == us,
    {
        proof {
            vstd::arithmetic::div_mod::lemma_fundamental_div_mod(us as int, 1000000);
        }
        TimeVal { sec: us / 1000000, usec: us % 1000000 }
    }
}

/// Where a task stands in its life cycle.
#[derive(Clone, Copy, PartialEq, Eq, Structural, Debug)]
pub enum TaskStatus {
    UnInit,
    Ready,
    Running,
    Zombie,
}

/// What `task_info` reports of a task: its status, its syscall counts and
/// its running time in milliseconds.
#[derive(Clone, Copy)]
pub struct TaskInfo {
    pub status: TaskStatus,
    pub syscall_times: [u32; MAX_SYSCALL_NUM],
    pub time: usize,
}

/// What `fstat` reports of an open file.
#[derive(Clone, Copy, Debug)]
pub struct Stat {
    pub dev: u64,
    pub ino: u64,
    pub mode: StatMode,
    pub nlink: u32,
    pub pad: [u64; 7],
}

/// The mapped virtual pages of one task's address space.
pub struct MemorySet {
    pub pages: Vec<usize>,
}

/// First page of the mapping that starts at address `start`.
pub open spec fn vpn_start(start: int) -> int {
    start / (PAGE_SIZE as int)
}

/// One past the last page of a mapping of `len` bytes at address `start`.
pub open spec fn vpn_end(start: int, len: int) -> int {
    (start + len + (PAGE_SIZE as int) - 1) / (PAGE_SIZE as int)
}

impl MemorySet {
    /// No page is recorded twice.
    pub open spec fn wf(&self) -> bool {
        forall|i: int, j: int|
            0 <= i < j < self.pages@.len() ==> self.pages@[i] != self.pages@[j]
    }

    /// Whether page `vpn` is mapped.
    pub open spec fn mapped(&self, vpn: int) -> bool {
        exists|i: int| 0 <= i < self.pages@.len() && self.pages@[i] == vpn
    }

    /// An empty address space.
    pub fn new() -> (r: MemorySet)
        ensures
            r.wf(),
            forall|v: int| !r.mapped(v),
    {
        MemorySet { pages: Vec::new() }
    }

    /// Whether page `vpn` is mapped.
    fn contains_page(&self, vpn: usize) -> (r: bool)
        ensures
            r == self.mapped(vpn as int),
    {
        let mut i: usize = 0;
        let n = self.pages.len();
        while i < n
            invariant
                n == self.pages@.len(),
                i <= n,
                forall|j: int| 0 <= j < i ==> self.pages@[j] != vpn,
            decreases n - i,
        {
            if self.pages[i] == vpn {
                return true;
            }
            i += 1;
        }
        false
    }
}

/// One task's kernel-visible state: its open files, its address space and
/// its heap bounds.
pub struct ProcessState {
    pub fd_table: Vec<Option<OSInode>>,
    pub memory_set: MemorySet,
    pub heap_bottom: usize,
    pub program_brk: usize,
}

impl ProcessState {
    /// Every open file points at a real inode of `fs`, the page list is
    /// duplicate-free, and the break never sits below the heap bottom nor
    /// beyond the address range.
    pub open spec fn wf(&self, fs: EasyFileSystem) -> bool {
        &&& self.memory_set.wf()
        &&& self.heap_bottom <= self.program_brk
        &&& self.program_brk <= isize::MAX
        &&& forall|fd: int|
            0 <= fd < self.fd_table@.len() ==> ((#[trigger] self.fd_table@[fd]) matches Some(f)
                ==> f.inner.inode.valid(fs))
    }

    /// A fresh task: no open files, nothing mapped, the break at the heap
    /// bottom.
    pub fn new(heap_bottom: usize) -> (r: ProcessState)
        requires
            heap_bottom <= isize::MAX,
        ensures
            r.fd_table@.len() == 0,
            r.memory_set.wf(),
            forall|v: int| !r.memory_set.mapped(v),
            r.heap_bottom == heap_bottom,
            r.program_brk == heap_bottom,
            forall|fs: EasyFileSystem| r.wf(fs),
    {
        ProcessState {
            fd_table: Vec::new(),
            memory_set: MemorySet::new(),
            heap_bottom,
            program_brk: heap_bottom,
        }
    }

    /// The lowest free file descriptor, extending the table when none is
    /// free.
    fn alloc_fd(&mut self) -> (fd: usize)
        ensures
            final(self).memory_set == old(self).memory_set,
            final(self).heap_bottom == old(self).heap_bottom,
            final(self).program_brk == old(self).program_brk,
            fd < final(self).fd_table@.len(),
            final(self).fd_table@[fd as int] is None,
            forall|j: int| 0 <= j < fd ==> old(self).fd_table@[j] is Some,
            old(self).fd_table@.len() <= final(self).fd_table@.len() <= old(self).fd_table@.len()
                + 1,
            final(self).fd_table@.len() > old(self).fd_table@.len() ==> fd == old(
                self,
            ).fd_table@.len(),
            forall|j: int|
                0 <= j < old(self).fd_table@.len() && j != fd ==> final(self).fd_table@[j] == old(self).fd_table@[j],
    {
        let n = self.fd_table.len();
        let mut fd: usize = 0;
        while fd < n
            invariant
                n == self.fd_table@.len(),
                fd <= n,
                *self == *old(self),
                forall|j: int| 0 <= j < fd ==> self.fd_table@[j] is Some,
            decreases n - fd,
        {
            if self.fd_table[fd].is_none() {
                return fd;
            }
            fd += 1;
        }
        self.fd_table.push(None);
        n
    }
}

/// Write `buf` into the open file `fd` at its cursor. Fails with -1 on a
/// descriptor that is out of range, closed, or not writable.
pub fn sys_write(proc: &mut ProcessState, fs: &mut EasyFileSystem, fd: usize, buf: &[u8]) -> (r:
    isize)
    requires
        old(fs).wf(),
        old(proc).wf(*old(fs)),
        buf@.len() <= isize::MAX,
        ({
            let t = old(proc).fd_table@;
            let f = t[fd as int]->0;
            fd < t.len() && t[fd as int] is Some && f.writable ==> f.inner.offset + buf@.len()
                <= u32::MAX && avail_blocks(*old(fs)) >= grow_needed(
                f.inner.inode.file_data(*old(fs)).len() as int,
                f.inner.offset + buf@.len(),
            )
        }),
    ensures
        final(fs).wf(),
        final(proc).wf(*final(fs)),
        final(proc).memory_set == old(proc).memory_set,
        final(proc).heap_bottom == old(proc).heap_bottom,
        final(proc).program_brk == old(proc).program_brk,
        final(proc).fd_table@.len() == old(proc).fd_table@.len(),
        final(fs).inodes@.len() == old(fs).inodes@.len(),
        r == -1 <==> !(fd < old(proc).fd_table@.len() && old(proc).fd_table@[fd as int] is Some
            && old(proc).fd_table@[fd as int]->0.writable),
        r == -1 ==> *final(proc) == *old(proc) && *final(fs) == *old(fs),
        r != -1 ==> ({
            let f = old(proc).fd_table@[fd as int]->0;
            let d1 = f.inner.inode.file_data(*old(fs));
            let d2 = f.inner.inode.file_data(*final(fs));
            let off = f.inner.offset as int;
            &&& r == buf@.len()
            &&& final(proc).fd_table@ == old(proc).fd_table@.update(
                fd as int,
                Some(
                    OSInode {
                        inner: crate::osfile::OSInodeInner {
                            offset: (f.inner.offset + buf@.len()) as usize,
                            inode: f.inner.inode,
                        },
                        ..f
                    },
                ),
            )
            &&& d2.len() == if off + buf@.len() <= d1.len() {
                d1.len() as int
            } else {
                off + buf@.len()
            }
            &&& (forall|j: int| off <= j < off + buf@.len() ==> d2[j] == buf@[j - off])
            &&& (forall|j: int|
                0 <= j < d1.len() && !(off <= j < off + buf@.len()) ==> d2[j] == d1[j])
            &&& (forall|j: int|
                0 <= j < old(fs).inodes@.len() && j != f.inner.inode.iid() ==> final(fs).inodes@[j] == old(fs).inodes@[j])
        }),
{
    if fd >= proc.fd_table.len() {
        return -1;
    }
    let is_writable = match &proc.fd_table[fd] {
        Some(f) => f.writable(),
        None => {
            return -1;
        },
    };
    if !is_writable {
        return -1;
    }
    let ghost t0 = proc.fd_table@;
    let mut file_opt: Option<OSInode> = None;
    core::mem::swap(&mut file_opt, &mut proc.fd_table[fd]);
    let mut file = match file_opt {
        Some(f) => f,
        None => vstd::pervasive::unreached(),
    };
    let n = file.write(fs, buf);
    proc.fd_table[fd] = Some(file);
    proof {
        assert(proc.fd_table@ =~= t0.update(fd as int, proc.fd_table@[fd as int]));
        assert forall|fdx: int|
            0 <= fdx < proc.fd_table@.len() implies ((#[trigger] proc.fd_table@[fdx])
            matches Some(f) ==> f.inner.inode.valid(*fs)) by {
            if fdx != fd {
                assert(proc.fd_table@[fdx] == old(proc).fd_table@[fdx]);
            }
        }
    }
    n as isize
}

/// Read from the open file `fd` at its cursor into `buf`. Fails with -1 on
/// a descriptor that is out of range, closed, or not readable.
pub fn sys_read(proc: &mut ProcessState, fs: &EasyFileSystem, fd: usize, buf: &mut Vec<u8>) -> (r:
    isize)
    requires
        fs.wf(),
        old(proc).wf(*fs),
        old(buf)@.len() <= isize::MAX,
    ensures
        final(proc).wf(*fs),
        final(proc).memory_set == old(proc).memory_set,
        final(proc).heap_bottom == old(proc).heap_bottom,
        final(proc).program_brk == old(proc).program_brk,
        final(proc).fd_table@.len() == old(proc).fd_table@.len(),
        r == -1 <==> !(fd < old(proc).fd_table@.len() && old(proc).fd_table@[fd as int] is Some
            && old(proc).fd_table@[fd as int]->0.readable),
        r == -1 ==> *final(proc) == *old(proc) && final(buf)@ == old(buf)@,
        r != -1 ==> ({
            let f = old(proc).fd_table@[fd as int]->0;
            let data = f.inner.inode.file_data(*fs);
            let got = read_result(data, f.inner.offset as int, old(buf)@.len() as int);
            &&& r == got.len()
            &&& final(buf)@.len() == old(buf)@.len()
            &&& final(buf)@.subrange(0, r as int) == got
            &&& final(buf)@.subrange(r as int, final(buf)@.len() as int) == old(buf)@.subrange(
                r as int,
                old(buf)@.len() as int,
            )
            &&& final(proc).fd_table@ == old(proc).fd_table@.update(
                fd as int,
                Some(
                    OSInode {
                        inner: crate::osfile::OSInodeInner {
                            offset: (f.inner.offset + got.len()) as usize,
                            inode: f.inner.inode,
                        },
                        ..f
                    },
                ),
            )
        }),
{
    if fd >= proc.fd_table.len() {
        return -1;
    }
    let is_readable = match &proc.fd_table[fd] {
        Some(f) => f.readable(),
        None => {
            return -1;
        },
    };
    if !is_readable {
        return -1;
    }
    let ghost t0 = proc.fd_table@;
    let mut file_opt: Option<OSInode> = None;
    core::mem::swap(&mut file_opt, &mut proc.fd_table[fd]);
    let mut file = match file_opt {
        Some(f) => f,
        None => vstd::pervasive::unreached(),
    };
    let n = file.read(fs, buf);
    proc.fd_table[fd] = Some(file);
    proof {
        assert(proc.fd_table@ =~= t0.update(fd as int, proc.fd_table@[fd as int]));
        assert forall|fdx: int|
            0 <= fdx < proc.fd_table@.len() implies ((#[trigger] proc.fd_table@[fdx])
            matches Some(f) ==> f.inner.inode.valid(*fs)) by {
            if fdx != fd {
                assert(proc.fd_table@[fdx] == old(proc).fd_table@[fdx]);
            }
        }
    }
    n as isize
}

/// Open `name` with `flags` and install the file in the lowest free
/// descriptor. Fails with -1 when the open itself fails.
pub fn sys_open(proc: &mut ProcessState, fs: &mut EasyFileSystem, name: &[u8], flags_bits: u32) -> (
    r: isize)
    requires
        fs_root_ok(*old(fs)),
        old(proc).wf(*old(fs)),
        flags_bits & !(WRONLY | RDWR | CREATE | TRUNC) == 0,
        open_requires(*old(fs), name@, OpenFlags { bits: flags_bits }),
        old(proc).fd_table@.len() < isize::MAX,
    ensures
        final(fs).wf(),
        final(proc).wf(*final(fs)),
        final(proc).memory_set == old(proc).memory_set,
        final(proc).heap_bottom == old(proc).heap_bottom,
        final(proc).program_brk == old(proc).program_brk,
        r == -1 || r >= 0,
        r == -1 <==> !open_succeeds(*old(fs), name@, OpenFlags { bits: flags_bits }),
        r == -1 ==> *final(proc) == *old(proc),
        r >= 0 ==> ({
            let t2 = final(proc).fd_table@;
            &&& r < t2.len()
            &&& t2[r as int] matches Some(f) && open_file_post(
                *old(fs),
                *final(fs),
                name@,
                OpenFlags { bits: flags_bits },
                f,
            )
            &&& forall|j: int|
                0 <= j < old(proc).fd_table@.len() && j != r ==> t2[j] == old(proc).fd_table@[j]
            &&& forall|j: int| 0 <= j < r ==> old(proc).fd_table@[j] is Some
        }),
{
    let flags = match OpenFlags::from_bits(flags_bits) {
        Some(f) => f,
        None => {
            proof {
                assert(false);
            }
            return -1;
        },
    };
    match open_file(fs, name, flags) {
        Some(inode) => {
            let fd = proc.alloc_fd();
            proc.fd_table[fd] = Some(inode);
            proof {
                assert forall|fdx: int|
                    0 <= fdx < proc.fd_table@.len() implies ((#[trigger] proc.fd_table@[fdx])
                    matches Some(f) ==> f.inner.inode.valid(*fs)) by {
                    if fdx != fd && fdx < old(proc).fd_table@.len() {
                        assert(proc.fd_table@[fdx] == old(proc).fd_table@[fdx]);
                        if proc.fd_table@[fdx] is Some {
                            let f = proc.fd_table@[fdx]->0;
                            assert(f.inner.inode.valid(*old(fs)));
                            assert(f.inner.inode.valid(*fs));
                        }
                    }
                }
            }
            fd as isize
        },
        None => -1,
    }
}

/// Close the open file `fd`. Fails with -1 when the descriptor is out of
/// range or already closed.
pub fn sys_close(proc: &mut ProcessState, fd: usize) -> (r: isize)
    ensures
        r == -1 || r == 0,
        r == -1 <==> !(fd < old(proc).fd_table@.len() && old(proc).fd_table@[fd as int] is Some),
        r == -1 ==> *final(proc) == *old(proc),
        r == 0 ==> final(proc).fd_table@ == old(proc).fd_table@.update(fd as int, None),
        final(proc).memory_set == old(proc).memory_set,
        final(proc).heap_bottom == old(proc).heap_bottom,
        final(proc).program_brk == old(proc).program_brk,
    {
    if fd >= proc.fd_table.len() {
        return -1;
    }
    if proc.fd_table[fd].is_none() {
        return -1;
    }
    proc.fd_table[fd] = None;
    0
}

/// Report the inode id, file type and link count of the open file `fd`.
/// `None` stands for the -1 of the raw syscall: the descriptor is out of
/// range or closed.
pub fn sys_fstat(proc: &ProcessState, fs: &EasyFileSystem, count: &LinkTable, fd: usize) -> (r:
    Option<Stat>)
    requires
        fs.wf(),
        proc.wf(*fs),
    ensures
        r is Some <==> fd < proc.fd_table@.len() && proc.fd_table@[fd as int] is Some,
        r matches Some(st) ==> ({
            let f = proc.fd_table@[fd as int]->0;
            &&& st.dev == 0
            &&& st.ino == f.inner.inode.iid()
            &&& (f.inner.inode.record(*fs).kind == DiskInodeType::Directory ==> st.mode
                == StatMode::Dir)
            &&& (f.inner.inode.record(*fs).kind == DiskInodeType::File ==> st.mode
                == StatMode::File)
            &&& st.nlink == nlink_of(count@, f.inner.inode.iid() as usize)
            &&& forall|i: int| 0 <= i < 7 ==> st.pad@[i] == 0
        }),
{
    if fd >= proc.fd_table.len() {
        return None;
    }
    match &proc.fd_table[fd] {
        Some(file) => {
            let inode_id = file.inode_id(fs);
            let mode = file.mode(fs);
            let nl = count.nlink(inode_id);
            Some(Stat { dev: 0, ino: inode_id as u64, mode, nlink: nl, pad: [0u64; 7] })
        },
        None => None,
    }
}

/// Bind `new_name` to the inode `old_name` resolves to. Fails with -1 when
/// `old_name` does not resolve or `new_name` already does.
pub fn sys_linkat(
    fs: &mut EasyFileSystem,
    count: &mut LinkTable,
    old_name: &[u8],
    new_name: &[u8],
) -> (r: isize)
    requires
        fs_root_ok(*old(fs)),
        ({
            let d = root_data(*old(fs));
            let mo = first_match(d, old_name@);
            let mn = first_match(d, new_name@);
            mo >= 0 && dir_id_at(d, mo) != SENTINEL_INODE && !(mn >= 0 && dir_id_at(d, mn)
                != SENTINEL_INODE) ==> {
                &&& name_storable(new_name@)
                &&& d.len() + DIRENT_SZ <= u32::MAX
                &&& (old(count)@.contains_key(dir_id_at(d, mo) as usize) ==> old(count)@[dir_id_at(d, mo) as usize] < u32::MAX)
            }
        }),
    ensures
        r == -1 || r == 0,
        fs_root_ok(*final(fs)),
        final(fs).inodes@.len() == old(fs).inodes@.len(),
        forall|j: int|
            0 <= j < old(fs).inodes@.len() && j != 0 ==> final(fs).inodes@[j] == old(fs).inodes@[j],
        ({
            let d = root_data(*old(fs));
            let mo = first_match(d, old_name@);
            let mn = first_match(d, new_name@);
            let old_live = mo >= 0 && dir_id_at(d, mo) != SENTINEL_INODE;
            let new_live = mn >= 0 && dir_id_at(d, mn) != SENTINEL_INODE;
            &&& (r == -1 <==> (!old_live || new_live))
            &&& (r == -1 ==> *final(fs) == *old(fs) && *final(count) == *old(count))
            &&& (r == 0 ==> ({
                let k = dir_id_at(d, mo);
                let ok = avail_blocks(*old(fs)) >= grow_needed(
                    d.len() as int,
                    ((d.len() as int) / (DIRENT_SZ as int) + 1) * (DIRENT_SZ as int),
                );
                if ok {
                    &&& dir_append_post(d, root_data(*final(fs)), new_name@, k)
                    &&& final(count)@ == if old(count)@.contains_key(k as usize) {
                        old(count)@.insert(k as usize, (old(count)@[k as usize] + 1) as u32)
                    } else {
                        old(count)@.insert(k as usize, 2u32)
                    }
                } else {
                    root_data(*final(fs)) == d && final(count)@ == old(count)@
                }
            }))
        }),
{
    let old_inode = find_inode(fs, old_name);
    let new_inode = find_inode(fs, new_name);
    let old_inode = match old_inode {
        Some(h) => h,
        None => {
            return -1;
        },
    };
    if new_inode.is_some() {
        return -1;
    }
    let old_id = old_inode.inode_id(fs);
    link(fs, count, new_name, old_id);
    0
}

/// Unlink `name`: tombstone its slot, drop its table reference, and free
/// the file's content once the recorded link count reaches zero. Fails
/// with -1 when the name does not resolve.
pub fn sys_unlinkat(fs: &mut EasyFileSystem, count: &mut LinkTable, name: &[u8]) -> (r: isize)
    requires
        fs_root_ok(*old(fs)),
        ({
            let d = root_data(*old(fs));
            let m = first_match(d, name@);
            let k = dir_id_at(d, m) as usize;
            m >= 0 && dir_id_at(d, m) != SENTINEL_INODE && (!old(count)@.contains_key(k) || old(count)@[k] <= 1) ==> avail_blocks(*old(fs)) + blocks_for(
                old(fs).inodes@[dir_id_at(d, m)].data@.len() as int,
            ) <= u32::MAX
        }),
    ensures
        r == -1 || r == 0,
        fs_root_ok(*final(fs)),
        final(fs).inodes@.len() == old(fs).inodes@.len(),
        ({
            let d = root_data(*old(fs));
            let m = first_match(d, name@);
            let live = m >= 0 && dir_id_at(d, m) != SENTINEL_INODE;
            let k = dir_id_at(d, m) as usize;
            let gone = !old(count)@.contains_key(k) || old(count)@[k] <= 1;
            &&& (r == -1 <==> !live)
            &&& (r == -1 ==> *final(fs) == *old(fs) && *final(count) == *old(count))
            &&& (r == 0 ==> ({
                &&& (dir_id_at(d, m) != 0 ==> dir_tombstone_post(
                    d,
                    root_data(*final(fs)),
                    m,
                ))
                &&& final(count)@ == if old(count)@.contains_key(k) {
                    if old(count)@[k] > 0 {
                        old(count)@.insert(k, (old(count)@[k] - 1) as u32)
                    } else {
                        old(count)@
                    }
                } else {
                    old(count)@.insert(k, 0u32)
                }
                &&& nlink_of(final(count)@, k) == 0 <==> gone
                &&& (gone && dir_id_at(d, m) != 0 ==> old(fs).inodes@[dir_id_at(
                    d,
                    m,
                )].kind == final(fs).inodes@[dir_id_at(d, m)].kind && final(fs).inodes@[dir_id_at(
                    d,
                    m,
                )].data@ == Seq::<u8>::empty())
                &&& (!gone ==> forall|j: int|
                    0 <= j < old(fs).inodes@.len() && j != 0 ==> final(fs).inodes@[j] == old(fs).inodes@[j])
            }))
        }),
{
    let inode = match find_inode(fs, name) {
        Some(h) => h,
        None => {
            return -1;
        },
    };
    let inode_id = inode.inode_id(fs);
    unlink(fs, count, name);
    let cnt = count.nlink(inode_id as usize);
    if cnt == 0 {
        inode.clear(fs);
    }
    0
}

/// Map `len` bytes of fresh pages at `start`. Fails with -1 on a
/// misaligned start, invalid permission bits, or any page of the range
/// already mapped; on failure nothing is mapped.
pub fn sys_mmap(proc: &mut ProcessState, start: usize, len: usize, port: usize) -> (r: isize)
    requires
        old(proc).memory_set.wf(),
        start + len + PAGE_SIZE <= usize::MAX,
    ensures
        final(proc).memory_set.wf(),
        final(proc).fd_table@ == old(proc).fd_table@,
        final(proc).heap_bottom == old(proc).heap_bottom,
        final(proc).program_brk == old(proc).program_brk,
        ({
            let s = vpn_start(start as int);
            let e = vpn_end(start as int, len as int);
            let fits = start as int % (PAGE_SIZE as int) == 0 && port & !0x7usize == 0 && port
                & 0x7usize != 0;
            let free = forall|v: int| s <= v < e ==> !old(proc).memory_set.mapped(v);
            &&& (r == 0 <==> fits && free)
            &&& (r == -1 <==> !(fits && free))
            &&& (r == -1 ==> final(proc).memory_set == old(proc).memory_set)
            &&& (r == 0 ==> forall|v: int|
                final(proc).memory_set.mapped(v) <==> (old(proc).memory_set.mapped(v) || s <= v
                    < e))
        }),
{
    if start % PAGE_SIZE != 0 {
        return -1;
    }
    if port & !0x7 != 0 {
        return -1;
    }
    if port & 0x7 == 0 {
        return -1;
    }
    let s = start / PAGE_SIZE;
    let e = (start + len + PAGE_SIZE - 1) / PAGE_SIZE;
    let mut v: usize = s;
    while v < e
        invariant
            s == vpn_start(start as int),
            e == vpn_end(start as int, len as int),
            start as int % (PAGE_SIZE as int) == 0,
            port & !0x7usize == 0,
            port & 0x7usize != 0,
            s <= v <= e || (s > e && v == s),
            *proc == *old(proc),
            proc.memory_set.wf(),
            forall|w: int| s <= w < v ==> !proc.memory_set.mapped(w),
        decreases e - v,
    {
        if proc.memory_set.contains_page(v) {
            return -1;
        }
        v += 1;
    }
    let mut w: usize = s;
    while w < e
        invariant
            s == vpn_start(start as int),
            e == vpn_end(start as int, len as int),
            start as int % (PAGE_SIZE as int) == 0,
            port & !0x7usize == 0,
            port & 0x7usize != 0,
            s <= w <= e || (s > e && w == s),
            proc.fd_table@ == old(proc).fd_table@,
            proc.heap_bottom == old(proc).heap_bottom,
            proc.program_brk == old(proc).program_brk,
            proc.memory_set.wf(),
            forall|x: int| s <= x < e ==> !old(proc).memory_set.mapped(x),
            forall|x: int|
                proc.memory_set.mapped(x) <==> (old(proc).memory_set.mapped(x) || s <= x < w),
        decreases e - w,
    {
        let ghost ms0 = proc.memory_set;
        proc.memory_set.pages.push(w);
        proof {
            assert(!ms0.mapped(w as int));
            assert forall|x: int|
                proc.memory_set.mapped(x) <==> (ms0.mapped(x) || x == w) by {
                let n = proc.memory_set.pages@.len();
                if proc.memory_set.mapped(x) {
                    let i = choose|i: int|
                        0 <= i < n && proc.memory_set.pages@[i] == x;
                    if i < n - 1 {
                        assert(ms0.pages@[i] == x);
                    }
                }
                if ms0.mapped(x) {
                    let i = choose|i: int| 0 <= i < ms0.pages@.len() && ms0.pages@[i] == x;
                    assert(proc.memory_set.pages@[i] == x);
                }
                if x == w {
                    assert(proc.memory_set.pages@[n - 1] == x);
                }
            }
            assert forall|a: int, b: int|
                0 <= a < b < proc.memory_set.pages@.len() implies proc.memory_set.pages@[a]
                != proc.memory_set.pages@[b] by {
                let n = proc.memory_set.pages@.len();
                if b < n - 1 {
                    assert(ms0.pages@[a] == proc.memory_set.pages@[a]);
                    assert(ms0.pages@[b] == proc.memory_set.pages@[b]);
                } else {
                    assert(proc.memory_set.pages@[b] == w);
                    assert(ms0.pages@[a] == proc.memory_set.pages@[a]);
                    assert(proc.memory_set.pages@[a] != w) by {
                        if ms0.pages@[a] == w {
                            assert(ms0.mapped(w as int));
                        }
                    }
                }
            }
        }
        w += 1;
    }
    0
}

/// Unmap the pages of `len` bytes at `start`. Fails with -1 on a
/// misaligned start or any page of the range not mapped; on failure
/// nothing is unmapped.
pub fn sys_munmap(proc: &mut ProcessState, start: usize, len: usize) -> (r: isize)
    requires
        old(proc).memory_set.wf(),
        start + len + PAGE_SIZE <= usize::MAX,
    ensures
        final(proc).memory_set.wf(),
        final(proc).fd_table@ == old(proc).fd_table@,
        final(proc).heap_bottom == old(proc).heap_bottom,
        final(proc).program_brk == old(proc).program_brk,
        ({
            let s = vpn_start(start as int);
            let e = vpn_end(start as int, len as int);
            let fits = start as int % (PAGE_SIZE as int) == 0;
            let covered = forall|v: int| s <= v < e ==> old(proc).memory_set.mapped(v);
            &&& (r == 0 <==> fits && covered)
            &&& (r == -1 <==> !(fits && covered))
            &&& (r == -1 ==> final(proc).memory_set == old(proc).memory_set)
            &&& (r == 0 ==> forall|v: int|
                final(proc).memory_set.mapped(v) <==> (old(proc).memory_set.mapped(v) && !(s <= v
                    < e)))
        }),
{
    if start % PAGE_SIZE != 0 {
        return -1;
    }
    let s = start / PAGE_SIZE;
    let e = (start + len + PAGE_SIZE - 1) / PAGE_SIZE;
    let mut v: usize = s;
    while v < e
        invariant
            s == vpn_start(start as int),
            e == vpn_end(start as int, len as int),
            start as int % (PAGE_SIZE as int) == 0,
            s <= v <= e || (s > e && v == s),
            *proc == *old(proc),
            proc.memory_set.wf(),
            forall|w: int| s <= w < v ==> proc.memory_set.mapped(w),
        decreases e - v,
    {
        if !proc.memory_set.contains_page(v) {
            return -1;
        }
        v += 1;
    }
    let n = proc.memory_set.pages.len();
    let mut kept: Vec<usize> = Vec::new();
    let mut i: usize = 0;
    while i < n
        invariant
            n == old(proc).memory_set.pages@.len(),
            *proc == *old(proc),
            old(proc).memory_set.wf(),
            i <= n,
            forall|a: int, b: int| 0 <= a < b < kept@.len() ==> kept@[a] != kept@[b],
            forall|a: int|
                0 <= a < kept@.len() ==> !((s as int) <= #[trigger] kept@[a] < (e as int))
                    && exists|b: int| 0 <= b < i && old(proc).memory_set.pages@[b] == kept@[a],
            forall|b: int|
                0 <= b < i && !((s as int) <= old(proc).memory_set.pages@[b] < (e as int))
                    ==> exists|a: int| 0 <= a < kept@.len() && kept@[a] == #[trigger] old(proc).memory_set.pages@[b],
        decreases n - i,
    {
        let p = proc.memory_set.pages[i];
        if !(s <= p && p < e) {
            proof {
                assert forall|a: int| 0 <= a < kept@.len() implies kept@[a] != p by {
                    let b = choose|b: int|
                        0 <= b < i && old(proc).memory_set.pages@[b] == kept@[a];
                    assert(old(proc).memory_set.pages@[b] != old(proc).memory_set.pages@[
                        i as int
                    ]);
                }
            }
            let ghost k0 = kept@;
            kept.push(p);
            proof {
                assert forall|b: int|
                    0 <= b < i + 1 && !((s as int) <= old(proc).memory_set.pages@[b] < (
                    e as int)) implies exists|a: int|
                    0 <= a < kept@.len() && kept@[a] == #[trigger] old(
                        proc,
                    ).memory_set.pages@[b] by {
                    if b == i {
                        assert(kept@[kept@.len() - 1] == old(proc).memory_set.pages@[b]);
                    } else {
                        let a = choose|a: int|
                            0 <= a < k0.len() && k0[a] == old(proc).memory_set.pages@[b];
                        assert(kept@[a] == old(proc).memory_set.pages@[b]);
                    }
                }
            }
        } else {
            proof {
                assert forall|b: int|
                    0 <= b < i + 1 && !((s as int) <= old(proc).memory_set.pages@[b] < (
                    e as int)) implies exists|a: int|
                    0 <= a < kept@.len() && kept@[a] == #[trigger] old(
                        proc,
                    ).memory_set.pages@[b] by {
                    if b < i {
                    }
                }
            }
        }
        i += 1;
    }
    proc.memory_set = MemorySet { pages: kept };
    proof {
        assert forall|x: int|
            proc.memory_set.mapped(x) <==> (old(proc).memory_set.mapped(x) && !((s as int) <= x
                < (e as int))) by {
            if proc.memory_set.mapped(x) {
            }
            if old(proc).memory_set.mapped(x) && !((s as int) <= x < (e as int)) {
                let b = choose|b: int|
                    0 <= b < old(proc).memory_set.pages@.len() && old(proc).memory_set.pages@[b] == x;
            }
        }
    }
    0
}

/// Move the program break by `size` bytes and report the old break;
/// refuses, with -1, a break below the heap bottom.
pub fn sys_sbrk(proc: &mut ProcessState, size: i32) -> (r: isize)
    requires
        old(proc).heap_bottom <= old(proc).program_brk,
        old(proc).program_brk <= isize::MAX,
        old(proc).program_brk + size <= isize::MAX,
    ensures
        final(proc).fd_table@ == old(proc).fd_table@,
        final(proc).memory_set == old(proc).memory_set,
        final(proc).heap_bottom == old(proc).heap_bottom,
        r == -1 <==> old(proc).program_brk + size < old(proc).heap_bottom,
        r == -1 ==> *final(proc) == *old(proc),
        r != -1 ==> r == old(proc).program_brk && final(proc).program_brk == old(proc).program_brk + size,
    {
    let old_brk = proc.program_brk;
    let new_brk: isize = (old_brk as isize) + (size as isize);
    if new_brk < (proc.heap_bottom as isize) {
        return -1;
    }
    proc.program_brk = new_brk as usize;
    old_brk as isize
}

} // verus!
