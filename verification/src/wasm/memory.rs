//! The linear memory of a guest, as the host calls see it: a run of bytes
//! addressed by 32-bit offsets.

use vstd::prelude::*;
use vstd::slice::{slice_subrange, slice_to_vec};

verus! {

/// Whether the `len` bytes from offset `ptr` lie inside a memory of
/// `memory_len` bytes.
pub open spec fn in_bounds(memory_len: nat, ptr: u32, len: nat) -> bool {
    ptr + len <= memory_len
}

/// The bytes of `memory` from offset `ptr`, `len` of them.
pub open spec fn loaded(memory: Seq<u8>, ptr: u32, len: nat) -> Seq<u8>
    recommends
        in_bounds(memory.len(), ptr, len),
{
    memory.subrange(ptr as int, ptr + len)
}

/// The memory after `data` was stored from offset `ptr` on.
pub open spec fn stored(memory: Seq<u8>, ptr: u32, data: Seq<u8>) -> Seq<u8>
    recommends
        in_bounds(memory.len(), ptr, data.len()),
{
    Seq::new(
        memory.len(),
        |i: int|
            if ptr <= i < ptr + data.len() {
                data[i - ptr]
            } else {
                memory[i]
            },
    )
}

/// The four bytes of `value`, lowest first.
pub open spec fn le_bytes(value: u32) -> Seq<u8> {
    seq![
        (value % 256) as u8,
        ((value / 256) % 256) as u8,
        ((value / 65536) % 256) as u8,
        ((value / 16777216) % 256) as u8,
    ]
}

/// Copies `len` bytes out of the guest's memory, from offset `ptr`.
/// `None` if they do not all lie inside it.
pub fn read_guest(memory: &[u8], ptr: u32, len: u32) -> (bytes: Option<Vec<u8>>)
    ensures
        bytes is Some <==> in_bounds(memory@.len(), ptr, len as nat),
        bytes matches Some(copy) ==> copy@ == loaded(memory@, ptr, len as nat),
{
    let start: usize = ptr as usize;
    let count: usize = len as usize;
    if start > memory.len() || count > memory.len() - start {
        return None;
    }
    Some(slice_to_vec(slice_subrange(memory, start, start + count)))
}

/// Copies `data` into the guest's memory, from offset `ptr` on. Returns
/// `false`, and writes nothing, if it does not all fit inside.
pub fn write_guest(memory: &mut [u8], ptr: u32, data: &[u8]) -> (done: bool)
    ensures
        done == in_bounds(old(memory)@.len(), ptr, data@.len()),
        final(memory)@ == if done {
            stored(old(memory)@, ptr, data@)
        } else {
            old(memory)@
        },
{
    let start: usize = ptr as usize;
    let total: usize = memory.len();
    if start > total || data.len() > total - start {
        return false;
    }
    let mut i: usize = 0;
    while i < data.len()
        invariant
            0 <= i <= data.len(),
            start == ptr,
            memory@.len() == old(memory)@.len() == total,
            start + data.len() <= total,
            memory@ == stored(old(memory)@, ptr, data@.take(i as int)),
        decreases data.len() - i,
    {
        memory[start + i] = data[i];
        assert(memory@ =~= stored(old(memory)@, ptr, data@.take(i + 1)));
        i += 1;
    }
    assert(data@.take(i as int) =~= data@);
    true
}

/// The four bytes of `value`, lowest first.
pub fn u32_le_bytes(value: u32) -> (bytes: [u8; 4])
    ensures
        bytes@ == le_bytes(value),
{
    let b0: u8 = (value & 0xFF) as u8;
    let b1: u8 = ((value >> 8) & 0xFF) as u8;
    let b2: u8 = ((value >> 16) & 0xFF) as u8;
    let b3: u8 = ((value >> 24) & 0xFF) as u8;
    assert(value & 0xFF == value % 256) by (bit_vector);
    assert((value >> 8) & 0xFF == (value / 256) % 256) by (bit_vector);
    assert((value >> 16) & 0xFF == (value / 65536) % 256) by (bit_vector);
    assert((value >> 24) & 0xFF == (value / 16777216) % 256) by (bit_vector);
    let bytes: [u8; 4] = [b0, b1, b2, b3];
    assert(bytes@ =~= le_bytes(value));
    bytes
}

} // verus!
