//! What the memory that a client shares with its owner holds.
//!
//! The owner's memory is mapped twice, once to be written and once to be read: an address in one of
//! the mappings and an address in the other mean the same byte if they are as far from the beginning
//! of theirs.

use crate::external_client_api::calls::OwnerCall;
use crate::external_client_api::owner::SharedMemoryPtr;
use crate::external_client_api::put::{ExternalGetInfo, ExternalMemHolder, ExternalPutStartOk};
use vstd::prelude::*;

verus! {

/// The memory once a value was written at an offset.
pub open spec fn overwritten(memory: Seq<u8>, offset: int, value: Seq<u8>) -> Seq<u8> {
    memory.take(offset) + value + memory.skip(offset + value.len())
}

/// The memory once a value was written at an address of the mapping for writing.
pub open spec fn written_at(
    memory: Seq<u8>,
    mapped: SharedMemoryPtr,
    addr: int,
    value: Seq<u8>,
) -> Seq<u8> {
    overwritten(memory, addr - mapped.ptr_rw, value)
}

/// The bytes that a holder stands for.
pub open spec fn bytes_held(
    memory: Seq<u8>,
    mapped: SharedMemoryPtr,
    holder: ExternalMemHolder,
) -> Seq<u8> {
    let offset = holder.addr - mapped.ptr_ro;
    memory.subrange(offset, offset + holder.len)
}

/// A get reads what a put wrote, in one generation of the owner: where the owner answers with the
/// place that it gave to the put for the value, the holder stands for that value. `addr` is where the
/// put was told to write.
pub proof fn law_get_reads_what_the_put_wrote(
    memory: Seq<u8>,
    mapped: SharedMemoryPtr,
    call: OwnerCall,
    started: ExternalPutStartOk,
    addr: u64,
    value: Seq<u8>,
    info: ExternalGetInfo,
    holder: ExternalMemHolder,
    key: Seq<char>,
    external_client_id: Seq<char>,
    started_time: i64,
)
    requires
        call.base_addr == mapped.ptr_rw,
        addr == call.base_addr + started.write_offset(),
        started.write_offset() + value.len() <= memory.len(),
        info.offset == started.write_offset(),
        info.len == value.len(),
        crate::external_client_api::put::held(
            Some(holder),
            Some(info),
            mapped.ptr_ro,
            key,
            external_client_id,
            started_time,
        ),
    ensures
        bytes_held(written_at(memory, mapped, addr as int, value), mapped, holder) == value,
{
    let after = written_at(memory, mapped, addr as int, value);
    assert(bytes_held(after, mapped, holder) =~= value);
}

/// A put changes no value that stands elsewhere.
pub proof fn law_put_keeps_other_values(
    memory: Seq<u8>,
    mapped: SharedMemoryPtr,
    call: OwnerCall,
    started: ExternalPutStartOk,
    addr: u64,
    value: Seq<u8>,
    other: ExternalMemHolder,
)
    requires
        call.base_addr == mapped.ptr_rw,
        addr == call.base_addr + started.write_offset(),
        started.write_offset() + value.len() <= memory.len(),
        mapped.ptr_ro <= other.addr,
        other.addr - mapped.ptr_ro + other.len <= memory.len(),
        other.addr - mapped.ptr_ro + other.len <= started.write_offset()
            || started.write_offset() + value.len() <= other.addr - mapped.ptr_ro,
    ensures
        bytes_held(written_at(memory, mapped, addr as int, value), mapped, other) == bytes_held(
            memory,
            mapped,
            other,
        ),
{
    let after = written_at(memory, mapped, addr as int, value);
    assert(bytes_held(after, mapped, other) =~= bytes_held(memory, mapped, other));
}

} // verus!
