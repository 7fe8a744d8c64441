//! Bounds-checked access to a WASM plugin's linear memory, seen as bytes.

use vstd::prelude::*;
use vstd::string::StringExecFns;

use crate::text::{append_dec, dec};

verus! {

/// Offset in linear memory where the guest writes the length (u32, little
/// endian) of the JSON result produced by `process_packet`.
pub const RESULT_LEN_PTR: u32 = 0x10;

/// The error for an access that would end past the memory.
pub open spec fn out_of_bounds(what: Seq<char>, end: nat, mem_size: nat) -> Seq<char> {
    what + " out of bounds: end="@ + dec(end) + " > mem_size="@ + dec(mem_size)
}

fn bounds_error(what: &str, end: usize, mem_size: usize) -> (e: String)
    ensures
        e@ == out_of_bounds(what@, end as nat, mem_size as nat),
{
    let mut e = String::from_str(what);
    e.append(" out of bounds: end=");
    append_dec(&mut e, end as u64);
    e.append(" > mem_size=");
    append_dec(&mut e, mem_size as u64);
    e
}

/// Copies `data` into memory at `offset`, refusing a write that would end
/// past the memory.
pub fn write_to_memory(mem: &mut Vec<u8>, offset: u32, data: &[u8]) -> (r: Result<(), String>)
    requires
        offset + data@.len() <= usize::MAX,
    ensures
        offset + data@.len() > old(mem)@.len() ==> (r matches Err(e) && e@ == out_of_bounds(
            "write_to_memory"@,
            (offset + data@.len()) as nat,
            old(mem)@.len(),
        ) && final(mem)@ == old(mem)@),
        offset + data@.len() <= old(mem)@.len() ==> (r is Ok && final(mem)@ == old(mem)@.take(offset as int)
            + data@ + old(mem)@.skip(offset + data@.len())),
{
    let start = offset as usize;
    let end = start + data.len();
    let size = mem.len();
    if end > size {
        return Err(bounds_error("write_to_memory", end, size));
    }
    let ghost before = mem@;
    let mut i: usize = 0;
    while i < data.len()
        invariant
            end == start + data@.len(),
            end <= before.len(),
            data@.len() == data.len(),
            i <= data@.len(),
            mem@.len() == before.len(),
            forall|k: int|
                0 <= k < mem@.len() ==> #[trigger] mem@[k] == if start <= k < start + i {
                    data@[k - start]
                } else {
                    before[k]
                },
        decreases data@.len() - i,
    {
        mem.set(start + i, data[i]);
        i = i + 1;
    }
    assert(mem@ =~= before.take(start as int) + data@ + before.skip(end as int));
    Ok(())
}

/// Reads `len` bytes of memory at `offset`, refusing a read that would end
/// past the memory.
pub fn read_from_memory(mem: &[u8], offset: u32, len: usize) -> (r: Result<Vec<u8>, String>)
    requires
        offset + len <= usize::MAX,
    ensures
        offset + len > mem@.len() ==> (r matches Err(e) && e@ == out_of_bounds(
            "read_from_memory"@,
            (offset + len) as nat,
            mem@.len(),
        )),
        offset + len <= mem@.len() ==> (r matches Ok(v) && v@ == mem@.subrange(offset as int, offset + len)),
{
    let start = offset as usize;
    let end = start + len;
    let size = mem.len();
    if end > size {
        return Err(bounds_error("read_from_memory", end, size));
    }
    let mut v: Vec<u8> = Vec::new();
    let mut k: usize = start;
    while k < end
        invariant
            start <= k <= end <= mem@.len(),
            v@ == mem@.subrange(start as int, k as int),
        decreases end - k,
    {
        v.push(mem[k]);
        k = k + 1;
        assert(v@ =~= mem@.subrange(start as int, k as int));
    }
    Ok(v)
}

/// The little-endian value of four bytes.
pub open spec fn le_u32(b0: u8, b1: u8, b2: u8, b3: u8) -> int {
    b0 + 256 * b1 + 65536 * b2 + 16777216 * b3
}

/// Reads a little-endian `u32` from memory at `offset`.
pub fn read_u32_le(mem: &[u8], offset: u32) -> (r: Result<u32, String>)
    requires
        offset + 4 <= usize::MAX,
    ensures
        offset + 4 > mem@.len() ==> (r matches Err(e) && e@ == out_of_bounds(
            "read_from_memory"@,
            (offset + 4) as nat,
            mem@.len(),
        )),
        offset + 4 <= mem@.len() ==> (r matches Ok(x) && x == le_u32(
            mem@[offset as int],
            mem@[offset + 1],
            mem@[offset + 2],
            mem@[offset + 3],
        )),
{
    let bytes = read_from_memory(mem, offset, 4)?;
    let x: u32 = (bytes[0] as u32) + 256 * (bytes[1] as u32) + 65536 * (bytes[2] as u32) + 16777216 * (
    bytes[3] as u32);
    Ok(x)
}

/// Reading back the bytes just written gives the bytes written, and
/// reading elsewhere gives what was there before.
pub proof fn lemma_read_after_write(before: Seq<u8>, after: Seq<u8>, offset: int, data: Seq<u8>)
    requires
        0 <= offset,
        offset + data.len() <= before.len(),
        after == before.take(offset) + data + before.skip(offset + data.len()),
    ensures
        after.len() == before.len(),
        after.subrange(offset, offset + data.len()) == data,
        forall|k: int|
            0 <= k < before.len() && !(offset <= k < offset + data.len()) ==> #[trigger] after[k] == before[k],
{
    assert(after.subrange(offset, offset + data.len()) =~= data);
}

} // verus!
