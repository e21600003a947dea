//! Access to a guest's linear memory.
//!
//! A guest's memory is a slice of bytes, and a guest names a place in it by a
//! signed 32-bit offset. These functions read and write regions of such a
//! slice, refuse every access that does not lie inside it, and leave the
//! memory untouched where they refuse. Inside a host function the slice is
//! the memory that the calling guest exports, which [`guest_memory_mut`]
//! hands out.

use vstd::prelude::*;
use vstd::slice::{slice_subrange, slice_to_vec};
use vstd::utf8::{encode_utf8, valid_utf8};
use wasmtime::Caller;
use wasmtime_wasi::WasiCtx;

verus! {

/// An access that does not lie inside the guest's memory.
#[derive(Debug, Clone, Copy, PartialEq, Eq, Structural)]
pub struct MemoryAccessError {
    /// The offset at which the access was to start.
    pub ptr: i32,
    /// The size of the memory in bytes.
    pub memory_len: usize,
}

/// Whether the `len` bytes from offset `ptr` lie inside a memory of
/// `memory_len` bytes. Negative offsets and lengths lie outside every memory.
pub open spec fn region_in_bounds(memory_len: nat, ptr: int, len: int) -> bool {
    0 <= ptr && 0 <= len && ptr + len <= memory_len
}

/// The memory after `data` has been written at offset `ptr`.
pub open spec fn memory_after_write(memory: Seq<u8>, ptr: int, data: Seq<u8>) -> Seq<u8> {
    memory.subrange(0, ptr) + data + memory.subrange(ptr + data.len(), memory.len() as int)
}

/// The four bytes of `value`, least significant first.
pub open spec fn le_bytes_u32(value: u32) -> Seq<u8> {
    seq![
        (value % 256) as u8,
        ((value / 256) % 256) as u8,
        ((value / 65536) % 256) as u8,
        ((value / 16777216) % 256) as u8,
    ]
}

/// The number that four bytes stand for, least significant first.
pub open spec fn u32_of_le_bytes(bytes: Seq<u8>) -> int {
    bytes[0] + 256 * bytes[1] + 65536 * bytes[2] + 16777216 * bytes[3]
}

/// Reading back the bytes of a number gives the number.
pub proof fn lemma_le_bytes_round_trip(value: u32)
    ensures
        le_bytes_u32(value).len() == 4,
        u32_of_le_bytes(le_bytes_u32(value)) == value,
{
}

/// Whether a zero byte stands at or after offset `ptr`.
pub open spec fn has_terminator(memory: Seq<u8>, ptr: int) -> bool {
    0 <= ptr && exists|i: int| ptr <= i < memory.len() && #[trigger] memory[i] == 0
}

/// Whether `bytes` are the bytes from offset `ptr` up to the first zero byte.
pub open spec fn is_c_string_at(memory: Seq<u8>, ptr: int, bytes: Seq<u8>) -> bool {
    &&& 0 <= ptr
    &&& ptr + bytes.len() < memory.len()
    &&& memory[ptr + bytes.len()] == 0
    &&& bytes == memory.subrange(ptr, ptr + bytes.len())
    &&& forall|i: int| 0 <= i < bytes.len() ==> #[trigger] bytes[i] != 0
}

/// Reads the `len` bytes at offset `ptr`.
///
/// Fails, whatever the memory holds, when the region does not lie inside it.
pub fn read_wasm_memory(memory: &[u8], ptr: i32, len: i32) -> (result: Result<
    Vec<u8>,
    MemoryAccessError,
>)
    ensures
        result is Ok <==> region_in_bounds(memory@.len(), ptr as int, len as int),
        result matches Ok(bytes) ==> bytes@ == memory@.subrange(ptr as int, ptr + len),
        result matches Err(e) ==> e == (MemoryAccessError { ptr, memory_len: memory@.len() as usize }),
{
    let memory_len: usize = memory.len();
    if ptr < 0 || len < 0 {
        return Err(MemoryAccessError { ptr, memory_len });
    }
    let start: usize = ptr as usize;
    let count: usize = len as usize;
    if start > memory_len || count > memory_len - start {
        return Err(MemoryAccessError { ptr, memory_len });
    }
    Ok(slice_to_vec(slice_subrange(memory, start, start + count)))
}

/// Writes `data` at the unsigned offset `offset`.
///
/// Returns whether the region lies inside the memory; where it does not,
/// nothing is written.
pub fn write_at(memory: &mut [u8], offset: usize, data: &[u8]) -> (written: bool)
    ensures
        written == region_in_bounds(old(memory)@.len(), offset as int, data@.len() as int),
        written ==> final(memory)@ == memory_after_write(old(memory)@, offset as int, data@),
        !written ==> final(memory)@ == old(memory)@,
{
    let memory_len: usize = memory.len();
    let count: usize = data.len();
    if offset > memory_len || count > memory_len - offset {
        return false;
    }
    let mut i: usize = 0;
    while i < count
        invariant
            i <= count,
            count == data@.len(),
            memory_len == memory@.len(),
            memory_len == old(memory)@.len(),
            offset + count <= memory_len,
            memory@ == old(memory)@.subrange(0, offset as int) + data@.subrange(0, i as int) + old(
                memory,
            )@.subrange(offset + i, memory_len as int),
        decreases count - i,
    {
        memory[offset + i] = data[i];
        i = i + 1;
    }
    assert(data@.subrange(0, count as int) == data@);
    true
}

/// Writes `data` at offset `ptr`.
///
/// Fails, and changes nothing, when the region does not lie inside the memory.
pub fn write_wasm_memory(memory: &mut [u8], ptr: i32, data: &[u8]) -> (result: Result<
    (),
    MemoryAccessError,
>)
    ensures
        result is Ok <==> region_in_bounds(old(memory)@.len(), ptr as int, data@.len() as int),
        result is Ok ==> final(memory)@ == memory_after_write(old(memory)@, ptr as int, data@),
        result matches Err(e) ==> final(memory)@ == old(memory)@ && e == (MemoryAccessError {
            ptr,
            memory_len: old(memory)@.len() as usize,
        }),
{
    let memory_len: usize = memory.len();
    if ptr >= 0 && write_at(memory, ptr as usize, data) {
        Ok(())
    } else {
        Err(MemoryAccessError { ptr, memory_len })
    }
}

/// Reads the bytes from offset `ptr` up to, and without, the first zero byte.
///
/// Fails when no zero byte stands between `ptr` and the end of the memory.
pub fn read_c_string(memory: &[u8], ptr: i32) -> (result: Result<Vec<u8>, MemoryAccessError>)
    ensures
        result is Ok <==> has_terminator(memory@, ptr as int),
        result matches Ok(bytes) ==> is_c_string_at(memory@, ptr as int, bytes@),
        result matches Err(e) ==> e == (MemoryAccessError { ptr, memory_len: memory@.len() as usize }),
{
    let memory_len: usize = memory.len();
    if ptr < 0 {
        return Err(MemoryAccessError { ptr, memory_len });
    }
    let start: usize = ptr as usize;
    let mut bytes: Vec<u8> = Vec::new();
    let mut at: usize = start;
    while at < memory_len
        invariant
            0 <= ptr,
            start == ptr,
            start <= at,
            at <= memory_len || bytes@.len() == 0,
            memory_len == memory@.len(),
            at <= memory_len ==> bytes@ == memory@.subrange(start as int, at as int),
            forall|i: int| start <= i < at && i < memory_len ==> #[trigger] memory@[i] != 0,
        decreases memory_len - at,
    {
        let byte: u8 = memory[at];
        if byte == 0 {
            assert forall|i: int| 0 <= i < bytes@.len() implies #[trigger] bytes@[i] != 0 by {
                assert(bytes@[i] == memory@[start + i]);
            }
            assert(memory@[start + bytes@.len()] == 0);
            return Ok(bytes);
        }
        bytes.push(byte);
        at = at + 1;
        assert(bytes@ == memory@.subrange(start as int, at as int));
    }
    Err(MemoryAccessError { ptr, memory_len })
}

/// The four bytes of `value`, least significant first.
pub fn u32_to_le_bytes(value: u32) -> (bytes: [u8; 4])
    ensures
        bytes@ == le_bytes_u32(value),
{
    let bytes: [u8; 4] = [
        (value % 256) as u8,
        ((value / 256) % 256) as u8,
        ((value / 65536) % 256) as u8,
        ((value / 16777216) % 256) as u8,
    ];
    assert(bytes@ =~= le_bytes_u32(value));
    bytes
}

/// The number that the first four bytes of `bytes` stand for, least
/// significant first.
pub fn u32_from_le_bytes(bytes: &[u8]) -> (value: u32)
    requires
        bytes@.len() >= 4,
    ensures
        value == u32_of_le_bytes(bytes@),
{
    let low: u32 = bytes[0] as u32 + 256 * (bytes[1] as u32);
    let high: u32 = bytes[2] as u32 + 256 * (bytes[3] as u32);
    low + 65536 * high
}

/// Whether two byte strings are equal.
pub fn bytes_equal(left: &[u8], right: &[u8]) -> (equal: bool)
    ensures
        equal == (left@ == right@),
{
    if left.len() != right.len() {
        return false;
    }
    let mut i: usize = 0;
    while i < left.len()
        invariant
            i <= left@.len(),
            left@.len() == right@.len(),
            left@.subrange(0, i as int) == right@.subrange(0, i as int),
        decreases left@.len() - i,
    {
        if left[i] != right[i] {
            return false;
        }
        i = i + 1;
        assert(left@.subrange(0, i as int) == left@.subrange(0, i - 1).push(left@[i - 1]));
        assert(right@.subrange(0, i as int) == right@.subrange(0, i - 1).push(right@[i - 1]));
    }
    assert(left@ == left@.subrange(0, left@.len() as int));
    assert(right@ == right@.subrange(0, right@.len() as int));
    true
}

/// `String::from_utf8`: the text that `bytes` encode, where they are valid
/// UTF-8, and nothing where they are not. The contract takes from the
/// standard library's documentation that the call succeeds exactly on valid
/// UTF-8 and that the text keeps the bytes it was made from.
#[verifier::external_body]
pub(crate) fn string_from_utf8(bytes: Vec<u8>) -> (text: Option<String>)
    ensures
        text is Some <==> valid_utf8(bytes@),
        text matches Some(s) ==> encode_utf8(s@) == bytes@,
{
    String::from_utf8(bytes).ok()
}

/// The guest that calls a host function, as wasmtime hands it to the
/// function.
#[verifier::external_type_specification]
#[verifier::external_body]
#[verifier::reject_recursive_types(T)]
pub struct ExCaller<'a, T>(Caller<'a, T>);

/// The WASI state that the host keeps for a guest.
#[verifier::external_type_specification]
#[verifier::external_body]
pub struct ExWasiCtx(WasiCtx);

/// Whether the calling guest exports a memory under `name`.
pub uninterp spec fn exports_memory(caller: Caller<'_, WasiCtx>, name: Seq<char>) -> bool;

/// The bytes of the memory that the calling guest exports under `name`.
pub uninterp spec fn exported_memory(caller: Caller<'_, WasiCtx>, name: Seq<char>) -> Seq<u8>;

/// `Caller::get_export`, `Extern::into_memory` and `Memory::data_mut`: the
/// memory that the calling guest exports under `name`, as the slice of bytes
/// that it is, or nothing where the guest has no such export or the export
/// is no memory. The contract claims that the slice holds the memory's bytes,
/// that what is written to the slice is written to the memory, and that
/// looking for an export that is not there changes nothing.
#[verifier::external_body]
pub(crate) fn guest_memory_mut<'a, 'b>(caller: &'a mut Caller<'b, WasiCtx>, name: &str) -> (memory:
    Option<&'a mut [u8]>)
    ensures
        memory is Some <==> exports_memory(*old(caller), name@),
        exports_memory(*final(caller), name@) == exports_memory(*old(caller), name@),
        memory is Some ==> memory.unwrap()@ == exported_memory(*old(caller), name@),
        memory is Some ==> exported_memory(*final(caller), name@) == final(memory.unwrap())@,
        memory is None ==> exported_memory(*final(caller), name@) == exported_memory(
            *old(caller),
            name@,
        ),
{
    let memory = caller.get_export(name)?.into_memory()?;
    Some(memory.data_mut(caller))
}

} // verus!
