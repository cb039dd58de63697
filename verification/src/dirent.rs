//! Directory entries: fixed-width 32-byte records holding a zero-padded name
//! (at most 27 name bytes) and a little-endian 32-bit inode id. The id
//! `0xffff_ffff` is reserved as the "no inode" sentinel that marks a
//! tombstoned slot.

use vstd::prelude::*;

verus! {

/// Size in bytes of one directory-entry slot.
pub const DIRENT_SZ: usize = 32;

/// Width of the name field inside a slot (name bytes plus zero padding).
pub const NAME_FIELD_SZ: usize = 28;

/// Longest representable name: one byte of zero padding always remains.
pub const NAME_LENGTH_LIMIT: usize = 27;

/// Inode id reserved to mean "no inode": a tombstoned slot.
pub const SENTINEL_INODE: u32 = 0xffff_ffff;

/// A name is storable when it fits the fixed-width field and contains no
/// zero byte (zero terminates the stored name).
pub open spec fn name_storable(name: Seq<u8>) -> bool {
    &&& name.len() <= NAME_LENGTH_LIMIT
    &&& forall|i: int| 0 <= i < name.len() ==> name[i] != 0u8
}

/// Length of the logical name inside a zero-padded field: the index of the
/// first zero byte, or the whole length if none occurs.
pub open spec fn name_prefix_len(s: Seq<u8>) -> int
    decreases s.len(),
{
    if s.len() == 0 {
        0
    } else if s[0] == 0u8 {
        0
    } else {
        1 + name_prefix_len(s.drop_first())
    }
}

/// The value of a 4-byte little-endian field.
pub open spec fn le32(b: Seq<u8>) -> int {
    b[0] + 256 * (b[1] + 256 * (b[2] + 256 * b[3]))
}

/// The logical name stored in one 32-byte slot.
pub open spec fn slot_name(s: Seq<u8>) -> Seq<u8> {
    let field = s.subrange(0, NAME_FIELD_SZ as int);
    field.subrange(0, name_prefix_len(field))
}

/// The inode id stored in one 32-byte slot.
pub open spec fn slot_id(s: Seq<u8>) -> int {
    le32(s.subrange(NAME_FIELD_SZ as int, DIRENT_SZ as int))
}

/// How many whole slots a directory of `data` bytes holds.
pub open spec fn slot_count(data: Seq<u8>) -> int {
    (data.len() as int) / (DIRENT_SZ as int)
}

/// The raw bytes of slot `i`.
pub open spec fn slot_at(data: Seq<u8>, i: int) -> Seq<u8> {
    data.subrange(i * (DIRENT_SZ as int), i * (DIRENT_SZ as int) + (DIRENT_SZ as int))
}

/// The name stored in slot `i` of a directory.
pub open spec fn dir_name_at(data: Seq<u8>, i: int) -> Seq<u8> {
    slot_name(slot_at(data, i))
}

/// The inode id stored in slot `i` of a directory.
pub open spec fn dir_id_at(data: Seq<u8>, i: int) -> int {
    slot_id(slot_at(data, i))
}

/// Index of the first slot whose name equals `name`, searching from slot `i`
/// upward; `-1` when no slot matches.
pub open spec fn first_match_from(data: Seq<u8>, name: Seq<u8>, i: int) -> int
    decreases slot_count(data) - i,
{
    if i < 0 || i >= slot_count(data) {
        -1
    } else if dir_name_at(data, i) == name {
        i
    } else {
        first_match_from(data, name, i + 1)
    }
}

/// Index of the first slot whose name equals `name`, or `-1`.
pub open spec fn first_match(data: Seq<u8>, name: Seq<u8>) -> int {
    first_match_from(data, name, 0)
}

/// What a first-match index means: every slot before it misses, and the
/// match itself (when there is one) hits.
pub proof fn lemma_first_match_from_props(data: Seq<u8>, name: Seq<u8>, i: int)
    requires
        0 <= i,
    ensures
        first_match_from(data, name, i) == -1 ==> forall|k: int|
            i <= k < slot_count(data) ==> dir_name_at(data, k) != name,
        first_match_from(data, name, i) >= 0 ==> {
            let m = first_match_from(data, name, i);
            &&& i <= m < slot_count(data)
            &&& dir_name_at(data, m) == name
            &&& forall|k: int| i <= k < m ==> dir_name_at(data, k) != name
        },
    decreases slot_count(data) - i,
{
    if i < slot_count(data) && dir_name_at(data, i) != name {
        lemma_first_match_from_props(data, name, i + 1);
    }
}

/// A slot that matches, with only misses before it, is the first match.
pub proof fn lemma_first_match_from_found(data: Seq<u8>, name: Seq<u8>, i: int, m: int)
    requires
        0 <= i <= m < slot_count(data),
        dir_name_at(data, m) == name,
        forall|k: int| i <= k < m ==> dir_name_at(data, k) != name,
    ensures
        first_match_from(data, name, i) == m,
    decreases m - i,
{
    if i < m {
        lemma_first_match_from_found(data, name, i + 1, m);
    }
}

/// When every slot misses, there is no first match.
pub proof fn lemma_first_match_from_none(data: Seq<u8>, name: Seq<u8>, i: int)
    requires
        0 <= i,
        forall|k: int| i <= k < slot_count(data) ==> dir_name_at(data, k) != name,
    ensures
        first_match_from(data, name, i) == -1,
    decreases slot_count(data) - i,
{
    if i < slot_count(data) {
        lemma_first_match_from_none(data, name, i + 1);
    }
}

/// A zero-padded field whose stored prefix has no zero bytes parses back to
/// exactly that prefix.
proof fn lemma_name_prefix_of_padded(field: Seq<u8>, n: int)
    requires
        0 <= n < field.len(),
        forall|i: int| 0 <= i < n ==> field[i] != 0u8,
        field[n] == 0u8,
    ensures
        name_prefix_len(field) == n,
    decreases n,
{
    if n == 0 {
    } else {
        lemma_name_prefix_of_padded(field.drop_first(), n - 1);
    }
}

/// One in-memory directory entry: the exact 32 bytes of a slot.
pub struct DirEntry {
    bytes: Vec<u8>,
}

impl View for DirEntry {
    type V = Seq<u8>;

    closed spec fn view(&self) -> Seq<u8> {
        self.bytes@
    }
}

impl DirEntry {
    /// A structurally sound entry is exactly one slot wide.
    pub open spec fn wf(&self) -> bool {
        self@.len() == DIRENT_SZ
    }

    /// Build the slot for `name` and `inode_id`: the name, zero padding up to
    /// 28 bytes, then the id in little-endian order.
    pub fn new(name: &[u8], inode_id: u32) -> (r: DirEntry)
        requires
            name_storable(name@),
        ensures
            r.wf(),
            slot_name(r@) == name@,
            slot_id(r@) == inode_id,
    {
        let mut bytes: Vec<u8> = Vec::new();
        let name_len: usize = name.len();
        let mut i: usize = 0;
        while i < name_len
            invariant
                name_storable(name@),
                name_len == name@.len(),
                i <= name_len,
                bytes@.len() == i,
                bytes@ =~= name@.subrange(0, i as int),
            decreases name_len - i,
        {
            bytes.push(name[i]);
            i += 1;
        }
        while i < NAME_FIELD_SZ
            invariant
                name_len <= NAME_LENGTH_LIMIT,
                name_len <= i <= NAME_FIELD_SZ,
                bytes@.len() == i,
                bytes@.subrange(0, name_len as int) =~= name@,
                forall|j: int| name_len <= j < i ==> bytes@[j] == 0u8,
            decreases NAME_FIELD_SZ - i,
        {
            bytes.push(0u8);
            i += 1;
        }
        let b0: u8 = (inode_id % 256) as u8;
        let b1: u8 = ((inode_id / 256) % 256) as u8;
        let b2: u8 = ((inode_id / 65536) % 256) as u8;
        let b3: u8 = (inode_id / 16777216) as u8;
        bytes.push(b0);
        bytes.push(b1);
        bytes.push(b2);
        bytes.push(b3);
        let r = DirEntry { bytes };
        proof {
            let field = r@.subrange(0, NAME_FIELD_SZ as int);
            assert(forall|j: int| 0 <= j < name_len ==> field[j] == name@[j]);
            assert(field[name_len as int] == 0u8);
            lemma_name_prefix_of_padded(field, name_len as int);
            assert(slot_name(r@) =~= name@);
            let id_field = r@.subrange(NAME_FIELD_SZ as int, DIRENT_SZ as int);
            assert(id_field[0] == b0 && id_field[1] == b1 && id_field[2] == b2 && id_field[3]
                == b3);
            assert(b0 + 256 * (b1 + 256 * (b2 + 256 * b3)) == inode_id) by {
                lemma_le32_decompose(inode_id);
            }
        }
        r
    }

    /// Rebuild an entry from the 32 raw bytes of a slot.
    pub fn from_bytes(bytes: Vec<u8>) -> (r: DirEntry)
        requires
            bytes@.len() == DIRENT_SZ,
        ensures
            r.wf(),
            r@ == bytes@,
    {
        DirEntry { bytes }
    }

    /// The raw slot bytes, for writing the entry into a directory.
    pub fn as_bytes(&self) -> (r: &Vec<u8>)
        ensures
            r@ == self@,
    {
        &self.bytes
    }

    /// The logical name: the name field up to its first zero byte.
    pub fn name(&self) -> (r: Vec<u8>)
        requires
            self.wf(),
        ensures
            r@ == slot_name(self@),
    {
        let mut r: Vec<u8> = Vec::new();
        let mut i: usize = 0;
        while i < NAME_FIELD_SZ
            invariant
                self.wf(),
                i <= NAME_FIELD_SZ,
                r@.len() == i,
                forall|j: int| 0 <= j < i ==> self@[j] != 0u8 && r@[j] == self@[j],
            decreases NAME_FIELD_SZ - i,
        {
            if self.bytes[i] == 0u8 {
                proof {
                    let field = self@.subrange(0, NAME_FIELD_SZ as int);
                    lemma_name_prefix_of_padded(field, i as int);
                    assert(r@ =~= slot_name(self@));
                }
                return r;
            }
            r.push(self.bytes[i]);
            i += 1;
        }
        proof {
            let field = self@.subrange(0, NAME_FIELD_SZ as int);
            lemma_name_prefix_full(field);
            assert(r@ =~= slot_name(self@));
        }
        r
    }

    /// The stored inode id, read from the little-endian field.
    pub fn inode_id(&self) -> (r: u32)
        requires
            self.wf(),
        ensures
            r == slot_id(self@),
    {
        let b0: u32 = self.bytes[28] as u32;
        let b1: u32 = self.bytes[29] as u32;
        let b2: u32 = self.bytes[30] as u32;
        let b3: u32 = self.bytes[31] as u32;
        let r: u32 = b0 + 256 * (b1 + 256 * (b2 + 256 * b3));
        proof {
            let id_field = self@.subrange(NAME_FIELD_SZ as int, DIRENT_SZ as int);
            assert(id_field[0] == self@[28] && id_field[1] == self@[29] && id_field[2] == self@[30]
                && id_field[3] == self@[31]);
        }
        r
    }
}

/// A field with no zero byte at all parses to its full width.
proof fn lemma_name_prefix_full(field: Seq<u8>)
    requires
        forall|i: int| 0 <= i < field.len() ==> field[i] != 0u8,
    ensures
        name_prefix_len(field) == field.len(),
    decreases field.len(),
{
    if field.len() > 0 {
        lemma_name_prefix_full(field.drop_first());
    }
}

/// Base-256 decomposition of a 32-bit value into its four digits.
proof fn lemma_le32_decompose(id: u32)
    ensures
        (id % 256) + 256 * (((id / 256) % 256) + 256 * (((id / 65536) % 256) + 256 * (id
            / 16777216))) == id,
{
    assert((id % 256) + 256 * (((id / 256) % 256) + 256 * (((id / 65536) % 256) + 256 * (id
        / 16777216))) == id) by (bit_vector);
}

} // verus!
