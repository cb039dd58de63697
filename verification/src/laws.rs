//! The layer's laws: what holds across sequences of operations, proved from
//! the contracts' own spec-level descriptions of each operation. Each proof
//! function's hypotheses are exactly the postcondition shapes of the
//! operations it chains.

use vstd::prelude::*;
use crate::dirent::{
    SENTINEL_INODE, slot_count, dir_name_at, dir_id_at, first_match,
    lemma_first_match_from_props, lemma_first_match_from_found, lemma_first_match_from_none,
};
use crate::disk::read_result;
use crate::links::nlink_of;
use crate::vfs::{dir_append_post, dir_tombstone_post};

verus! {

/// Round trip and growth correctness: when a write of `buf` at `offset`
/// has turned file bytes `d1` into `d2` — covering the written range,
/// preserving what lies outside it, and extending the file to at least
/// `offset + buf.len()` bytes — a read of `buf.len()` bytes at `offset`
/// out of `d2` transfers exactly `buf`, whatever the gap below `offset`
/// holds.
pub proof fn lemma_write_read_round_trip(d1: Seq<u8>, d2: Seq<u8>, offset: int, buf: Seq<u8>)
    requires
        0 <= offset,
        d2.len() == if offset + buf.len() <= d1.len() {
            d1.len() as int
        } else {
            offset + buf.len()
        },
        forall|j: int| offset <= j < offset + buf.len() ==> d2[j] == buf[j - offset],
    ensures
        read_result(d2, offset, buf.len() as int) == buf,
        d2.len() >= offset + buf.len(),
{
    if buf.len() == 0 {
        assert(read_result(d2, offset, 0) =~= buf);
    } else {
        assert(offset < d2.len());
        assert(read_result(d2, offset, buf.len() as int) =~= buf);
    }
}

/// Idempotent creation guard: once a creation has appended a slot binding
/// `name` to the fresh inode `id`, the directory's first match for `name`
/// is that very slot — so a second creation of `name` finds it and yields
/// nothing, while a lookup resolves it to `id`.
pub proof fn lemma_create_then_create_fails(d1: Seq<u8>, d2: Seq<u8>, name: Seq<u8>, id: int)
    requires
        first_match(d1, name) == -1,
        dir_append_post(d1, d2, name, id),
    ensures
        first_match(d2, name) == slot_count(d1),
        dir_id_at(d2, first_match(d2, name)) == id,
{
    lemma_first_match_from_props(d1, name, 0);
    assert forall|k: int| 0 <= k < slot_count(d1) implies dir_name_at(d2, k) != name by {
        assert(dir_name_at(d2, k) == dir_name_at(d1, k));
    }
    lemma_first_match_from_found(d2, name, 0, slot_count(d1));
}

/// Tombstone non-resolution: after the only slot named `name` is
/// tombstoned in place, no slot matches `name` any more — a lookup comes
/// back empty — yet the slot count is unchanged and the slot still sits
/// there bearing the empty name.
pub proof fn lemma_tombstone_non_resolution(d1: Seq<u8>, d2: Seq<u8>, name: Seq<u8>)
    requires
        name.len() > 0,
        first_match(d1, name) >= 0,
        forall|k: int|
            0 <= k < slot_count(d1) && k != first_match(d1, name) ==> dir_name_at(d1, k) != name,
        dir_tombstone_post(d1, d2, first_match(d1, name)),
    ensures
        first_match(d2, name) == -1,
        slot_count(d2) == slot_count(d1),
        dir_name_at(d2, first_match(d1, name)) == Seq::<u8>::empty(),
    {
    let m = first_match(d1, name);
    lemma_first_match_from_props(d1, name, 0);
    assert forall|k: int| 0 <= k < slot_count(d2) implies dir_name_at(d2, k) != name by {
        if k == m {
            assert(dir_name_at(d2, k) == Seq::<u8>::empty());
        } else {
            assert(dir_name_at(d2, k) == dir_name_at(d1, k));
        }
    }
    lemma_first_match_from_none(d2, name, 0);
}

/// Link accounting: starting from a directory `d1` where `a` resolves
/// uniquely to inode `ida` and `b` is absent, and a table `t0` that never
/// saw `ida` (so `ida` answers one link):
/// hard-linking `b` to `ida` (directory `d1` to `d2`, table `t0` to `t1`)
/// makes `b` resolve to `ida` with two links recorded; then unlinking `a`
/// (directory `d2` to `d3`, table `t1` to `t2`) leaves `a` unresolvable,
/// one link recorded, and `b` still resolving to `ida`.
pub proof fn lemma_link_accounting(
    d1: Seq<u8>,
    d2: Seq<u8>,
    d3: Seq<u8>,
    t0: Map<usize, u32>,
    t1: Map<usize, u32>,
    t2: Map<usize, u32>,
    a: Seq<u8>,
    b: Seq<u8>,
    ida: int,
)
    requires
        a.len() > 0,
        b.len() > 0,
        0 <= ida < SENTINEL_INODE,
        // `a` resolves uniquely to `ida` in `d1`, and `b` is absent
        first_match(d1, a) >= 0,
        dir_id_at(d1, first_match(d1, a)) == ida,
        forall|k: int|
            0 <= k < slot_count(d1) && k != first_match(d1, a) ==> dir_name_at(d1, k) != a,
        first_match(d1, b) == -1,
        // the table never saw `ida`
        !t0.contains_key(ida as usize),
        // what the hard link of `b` to `ida` did
        dir_append_post(d1, d2, b, ida),
        t1 == if t0.contains_key(ida as usize) {
            t0.insert(ida as usize, (t0[ida as usize] + 1) as u32)
        } else {
            t0.insert(ida as usize, 2u32)
        },
        // what the unlink of `a` did
        dir_tombstone_post(d2, d3, first_match(d2, a)),
        t2 == ({
            let k = dir_id_at(d2, first_match(d2, a)) as usize;
            if t1.contains_key(k) {
                if t1[k] > 0 {
                    t1.insert(k, (t1[k] - 1) as u32)
                } else {
                    t1
                }
            } else {
                t1.insert(k, 0u32)
            }
        }),
    ensures
        // before any link: one implicit reference
        nlink_of(t0, ida as usize) == 1,
        // after the hard link: `b` resolves to `ida`, two links
        first_match(d2, b) == slot_count(d1),
        dir_id_at(d2, first_match(d2, b)) == ida,
        nlink_of(t1, ida as usize) == 2,
        // after the unlink: `a` gone, one link, `b` still resolves to `ida`
        first_match(d3, a) == -1,
        nlink_of(t2, ida as usize) == 1,
        first_match(d3, b) == slot_count(d1),
        dir_id_at(d3, first_match(d3, b)) == ida,
{
    let ma = first_match(d1, a);
    let cnt = slot_count(d1);
    lemma_first_match_from_props(d1, a, 0);
    // the appended slot bears `b`, so `a` still first-matches at `ma`
    assert(dir_name_at(d2, cnt) == b);
    assert forall|k: int| 0 <= k < ma implies dir_name_at(d2, k) != a by {
        assert(dir_name_at(d2, k) == dir_name_at(d1, k));
    }
    assert(dir_name_at(d2, ma) == dir_name_at(d1, ma));
    lemma_first_match_from_found(d2, a, 0, ma);
    // `b` first-matches at the appended slot
    lemma_create_then_create_fails(d1, d2, b, ida);
    // after the tombstone, nothing matches `a`
    assert forall|k: int| 0 <= k < slot_count(d3) implies dir_name_at(d3, k) != a by {
        if k == ma {
            assert(dir_name_at(d3, k) == Seq::<u8>::empty());
        } else if k < cnt {
            assert(dir_name_at(d3, k) == dir_name_at(d2, k));
            assert(dir_name_at(d2, k) == dir_name_at(d1, k));
        } else {
            assert(dir_name_at(d3, k) == dir_name_at(d2, k));
        }
    }
    lemma_first_match_from_none(d3, a, 0);
    // `b`'s slot was untouched by the tombstone
    assert forall|k: int| 0 <= k < cnt implies dir_name_at(d3, k) != b by {
        if k == ma {
            assert(dir_name_at(d3, k) == Seq::<u8>::empty());
        } else {
            assert(dir_name_at(d3, k) == dir_name_at(d2, k));
            assert(dir_name_at(d2, k) == dir_name_at(d1, k));
            lemma_first_match_from_props(d1, b, 0);
        }
    }
    assert(dir_name_at(d3, cnt) == dir_name_at(d2, cnt));
    assert(dir_id_at(d3, cnt) == dir_id_at(d2, cnt));
    lemma_first_match_from_found(d3, b, 0, cnt);
}

/// Clear semantics: a read at offset 0 out of a cleared (empty) file
/// transfers zero bytes, whatever length was asked for.
pub proof fn lemma_clear_then_read_empty(len: int)
    ensures
        read_result(Seq::<u8>::empty(), 0, len) == Seq::<u8>::empty(),
        read_result(Seq::<u8>::empty(), 0, len).len() == 0,
{
}

} // verus!
