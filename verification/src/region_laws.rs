//! What holds of every access to a region: it stays in the region, it
//! is aligned, and it moves the bytes it names.

use vstd::prelude::*;

use crate::error::{Access, Error};
use crate::rdma::calls::Handle;
use crate::rdma::verbs::{Connection, Transfer, WorkRequest};
use crate::regions;
use crate::regions::{AccessPlan, GroupConnection, RemoteMemoryRegion};

verus! {

/// An access that is planned stays within the region. (The one region
/// the check cannot hold to this spans the whole address space.)
pub proof fn law_byte_accesses_stay_in_the_region(
    region: RemoteMemoryRegion,
    slot: GroupConnection,
    access: Access,
    local: u64,
    offset: u64,
    size: usize,
)
    requires
        region.byte_refusal(slot, access, offset, size) is None,
        region.size < u64::MAX,
        region.remote_addr + region.size <= u64::MAX,
    ensures
        ({
            let plan = region.plan(slot, access, local, offset, size);
            &&& region.remote_addr <= plan.remote_addr
            &&& plan.remote_addr + plan.len <= region.remote_addr + region.size
            &&& plan.remote_addr - region.remote_addr == offset
            &&& plan.len == size
        }),
{
}

/// Every range of bytes within the region can be accessed, wherever it
/// starts and ends, once the group is connected: nothing asks for
/// alignment.
pub proof fn law_every_byte_range_is_accessible(
    region: RemoteMemoryRegion,
    slot: GroupConnection,
    access: Access,
    offset: u64,
    size: usize,
)
    requires
        slot.connection is Some,
        0 < size,
        offset + size <= region.size,
    ensures
        region.byte_refusal(slot, access, offset, size) is None,
{
}

/// A typed access that is planned stays within the region, and starts
/// at an address its elements can have: a read at its byte, a write at
/// its element.
pub proof fn law_typed_accesses_stay_in_the_region(
    region: RemoteMemoryRegion,
    slot: GroupConnection,
    access: Access,
    local: u64,
    offset: u64,
    count: usize,
    elem_size: usize,
    elem_align: usize,
)
    requires
        region.typed_refusal(slot, access, offset, count, elem_size, elem_align) is None,
        elem_align > 0,
        count * elem_size <= usize::MAX,
        region.size < u64::MAX,
        region.remote_addr + region.size <= u64::MAX,
    ensures
        ({
            let start = regions::start_of(access, offset, elem_size as int);
            let plan = region.plan(slot, access, local, start, (count * elem_size) as usize);
            &&& region.remote_addr <= plan.remote_addr
            &&& plan.remote_addr + plan.len <= region.remote_addr + region.size
            &&& plan.remote_addr as int % elem_align as int == 0
            &&& plan.remote_addr - region.remote_addr == match access {
                Access::Read => offset as int,
                Access::Write => offset * elem_size,
            }
            &&& plan.len == count * elem_size
        }),
{
    assert(offset * elem_size >= 0) by (nonlinear_arith);
    assert(count * elem_size >= 0) by (nonlinear_arith);
}

/// In a region whose base is aligned for its elements every element
/// starts at an address its type can have: a read at an element's byte
/// is never misaligned, and neither is a write at an element.
pub proof fn law_elements_are_aligned(
    region: RemoteMemoryRegion,
    slot: GroupConnection,
    access: Access,
    index: nat,
    offset: u64,
    count: usize,
    elem_size: usize,
    elem_align: usize,
)
    requires
        elem_align > 0,
        elem_size as int % elem_align as int == 0,
        region.remote_addr as int % elem_align as int == 0,
        index * elem_size <= u64::MAX,
        offset == match access {
            Access::Read => index * elem_size,
            Access::Write => index as int,
        },
    ensures
        regions::start_of(access, offset, elem_size as int) == index * elem_size,
        (region.remote_addr + index * elem_size) % elem_align as int == 0,
        region.typed_refusal(slot, access, offset, count, elem_size, elem_align) != Some(
            Error::Misaligned { access, offset, align: elem_align },
        ),
{
    let align = elem_align as int;
    let base = region.remote_addr as int;
    let size = elem_size as int;
    let at = index * elem_size;
    assert(at >= 0) by (nonlinear_arith)
        requires
            at == index * elem_size,
    ;
    assert((base + at) % align == 0) by (nonlinear_arith)
        requires
            align > 0,
            size % align == 0,
            base % align == 0,
            at == index * size,
    {
        let p = base / align;
        let q = size / align;
        assert(base == align * p);
        assert(size == align * q);
        assert(base + at == align * (p + index * q));
        vstd::arithmetic::div_mod::lemma_mod_multiples_basic(p + index * q, align);
    }
}

/// Elements whose alignment is a multiple of the machine word keep
/// every planned access on word boundaries, at its start and at its
/// end.
pub proof fn law_word_aligned_elements_keep_to_words(
    region: RemoteMemoryRegion,
    slot: GroupConnection,
    access: Access,
    local: u64,
    offset: u64,
    count: usize,
    elem_size: usize,
    elem_align: usize,
)
    requires
        region.typed_refusal(slot, access, offset, count, elem_size, elem_align) is None,
        region.remote_addr + regions::start_of(access, offset, elem_size as int) <= u64::MAX,
        count * elem_size <= usize::MAX,
        elem_align > 0,
        elem_align % 8 == 0,
        elem_size as int % elem_align as int == 0,
    ensures
        ({
            let start = regions::start_of(access, offset, elem_size as int);
            let plan = region.plan(slot, access, local, start, (count * elem_size) as usize);
            &&& plan.remote_addr % 8 == 0
            &&& plan.len % 8 == 0
        }),
{
    let align = elem_align as int;
    let address = region.remote_addr + regions::start_of(access, offset, elem_size as int);
    assert(count * elem_size >= 0) by (nonlinear_arith);
    assert(address % 8 == 0) by (nonlinear_arith)
        requires
            address % align == 0,
            align % 8 == 0,
            align > 0,
    {
        let q = address / align;
        let w = align / 8;
        assert(address == align * q);
        assert(align == 8 * w);
        assert(address == 8 * (w * q));
    }
    assert((count * elem_size) % 8 == 0) by (nonlinear_arith)
        requires
            elem_size as int % align == 0,
            align % 8 == 0,
            align > 0,
    {
        let q = elem_size as int / align;
        let w = align / 8;
        assert(elem_size == align * q);
        assert(align == 8 * w);
        assert(count * elem_size == 8 * (w * q * count));
    }
}

/// The bytes of a machine's memory, by address.
pub type Memory = spec_fn(int) -> u8;

/// `n` bytes of `memory`, from `addr` on.
pub open spec fn bytes_at(memory: Memory, addr: int, n: nat) -> Seq<u8> {
    Seq::new(n, |i: int| memory(addr + i))
}

/// `memory` with `bytes` at `addr`.
pub open spec fn with_bytes(memory: Memory, addr: int, bytes: Seq<u8>) -> Memory {
    |a: int|
        if addr <= a < addr + bytes.len() {
            bytes[a - addr]
        } else {
            memory(a)
        }
}

/// What a one-sided request moves: a read fills local memory from
/// remote memory, a write remote memory from local memory.
pub open spec fn performed(
    access: Access,
    request: WorkRequest,
    local: Memory,
    remote: Memory,
) -> (Memory, Memory) {
    let n = request.length as nat;
    match access {
        Access::Read => (
            with_bytes(
                local,
                request.local_addr as int,
                bytes_at(remote, request.remote_addr as int, n),
            ),
            remote,
        ),
        Access::Write => (
            local,
            with_bytes(
                remote,
                request.remote_addr as int,
                bytes_at(local, request.local_addr as int, n),
            ),
        ),
    }
}

/// The access that a plan becomes: its local memory is registered,
/// which gave `mr` and its keys, and the connection requests it.
pub open spec fn carried_out(
    plan: AccessPlan,
    connection: Connection,
    mr: Handle,
    lkey: u32,
    rkey: u32,
) -> Transfer {
    connection.transfer(
        plan.access,
        plan.registration.region(mr, lkey, rkey),
        plan.remote_addr,
        plan.rkey,
        plan.len,
    )
}

/// The region's bytes in the remote machine's memory.
pub open spec fn contents(region: RemoteMemoryRegion, remote: Memory) -> Seq<u8> {
    bytes_at(remote, region.remote_addr as int, region.size as nat)
}

/// The connection in the slot that an access was planned through
/// carries the access out.
pub proof fn law_planned_accesses_are_requested(
    region: RemoteMemoryRegion,
    slot: GroupConnection,
    access: Access,
    local: u64,
    offset: u64,
    size: usize,
    mr: Handle,
    lkey: u32,
    rkey: u32,
)
    requires
        slot.wf(),
        slot.refusal(size as int) is None,
    ensures
        slot.connection->0.refusal(
            access,
            region.plan(slot, access, local, offset, size).registration.region(mr, lkey, rkey),
            size,
        ) is None,
{
}

/// A read, of bytes or of elements, gives the region's bytes at the byte
/// it starts at, and changes nothing else. (The device counts a request's bytes in 32 bits.)
pub proof fn law_reads_give_the_regions_bytes(
    region: RemoteMemoryRegion,
    slot: GroupConnection,
    buffer: u64,
    offset: u64,
    size: usize,
    mr: Handle,
    lkey: u32,
    rkey: u32,
    local: Memory,
    remote: Memory,
)
    requires
        slot.connection is Some,
        !region.exceeded_by(offset, size as int),
        region.size < u64::MAX,
        region.remote_addr + region.size <= u64::MAX,
        size <= u32::MAX,
    ensures
        ({
            let plan = region.plan(slot, Access::Read, buffer, offset, size);
            let transfer = carried_out(plan, slot.connection->0, mr, lkey, rkey);
            let (local_after, remote_after) = performed(
                Access::Read,
                transfer.request,
                local,
                remote,
            );
            &&& bytes_at(local_after, buffer as int, size as nat) == contents(
                region,
                remote,
            ).subrange(offset as int, offset + size)
            &&& forall|a: int|
                !(buffer <= a < buffer + size) ==> #[trigger] local_after(a) == local(a)
            &&& remote_after == remote
        }),
{
    let plan = region.plan(slot, Access::Read, buffer, offset, size);
    let transfer = carried_out(plan, slot.connection->0, mr, lkey, rkey);
    let after = performed(Access::Read, transfer.request, local, remote);
    assert(transfer.request.length == size);
    assert(bytes_at(after.0, buffer as int, size as nat) =~= contents(region, remote).subrange(
        offset as int,
        offset + size,
    ));
}

/// A write, of bytes or of elements, replaces the region's bytes at the
/// byte it starts at, and changes nothing else.
pub proof fn law_writes_replace_the_regions_bytes(
    region: RemoteMemoryRegion,
    slot: GroupConnection,
    buffer: u64,
    offset: u64,
    size: usize,
    mr: Handle,
    lkey: u32,
    rkey: u32,
    local: Memory,
    remote: Memory,
)
    requires
        slot.connection is Some,
        !region.exceeded_by(offset, size as int),
        region.size < u64::MAX,
        region.remote_addr + region.size <= u64::MAX,
        size <= u32::MAX,
    ensures
        ({
            let plan = region.plan(slot, Access::Write, buffer, offset, size);
            let transfer = carried_out(plan, slot.connection->0, mr, lkey, rkey);
            let (local_after, remote_after) = performed(
                Access::Write,
                transfer.request,
                local,
                remote,
            );
            let before = contents(region, remote);
            &&& contents(region, remote_after) == before.take(offset as int) + bytes_at(
                local,
                buffer as int,
                size as nat,
            ) + before.skip(offset + size)
            &&& forall|a: int|
                !(region.remote_addr <= a < region.remote_addr + region.size)
                    ==> #[trigger] remote_after(a) == remote(a)
            &&& local_after == local
        }),
{
    let plan = region.plan(slot, Access::Write, buffer, offset, size);
    let transfer = carried_out(plan, slot.connection->0, mr, lkey, rkey);
    let after = performed(Access::Write, transfer.request, local, remote);
    let before = contents(region, remote);
    assert(transfer.request.length == size);
    assert(contents(region, after.1) =~= before.take(offset as int) + bytes_at(
        local,
        buffer as int,
        size as nat,
    ) + before.skip(offset + size));
}

/// What was written at a byte of the region is what a read at the byte
/// gives.
pub proof fn law_reads_give_back_writes(
    region: RemoteMemoryRegion,
    slot: GroupConnection,
    source: u64,
    target: u64,
    offset: u64,
    size: usize,
    mr: Handle,
    lkey: u32,
    rkey: u32,
    local: Memory,
    remote: Memory,
)
    requires
        slot.connection is Some,
        !region.exceeded_by(offset, size as int),
        region.size < u64::MAX,
        region.remote_addr + region.size <= u64::MAX,
        size <= u32::MAX,
    ensures
        ({
            let write = carried_out(
                region.plan(slot, Access::Write, source, offset, size),
                slot.connection->0,
                mr,
                lkey,
                rkey,
            );
            let read = carried_out(
                region.plan(slot, Access::Read, target, offset, size),
                slot.connection->0,
                mr,
                lkey,
                rkey,
            );
            let written = performed(Access::Write, write.request, local, remote);
            let fetched = performed(Access::Read, read.request, written.0, written.1);
            bytes_at(fetched.0, target as int, size as nat) == bytes_at(
                local,
                source as int,
                size as nat,
            )
        }),
{
    let write = carried_out(
        region.plan(slot, Access::Write, source, offset, size),
        slot.connection->0,
        mr,
        lkey,
        rkey,
    );
    let read = carried_out(
        region.plan(slot, Access::Read, target, offset, size),
        slot.connection->0,
        mr,
        lkey,
        rkey,
    );
    let written = performed(Access::Write, write.request, local, remote);
    let fetched = performed(Access::Read, read.request, written.0, written.1);
    assert(write.request.length == size && read.request.length == size);
    assert(bytes_at(fetched.0, target as int, size as nat) =~= bytes_at(
        local,
        source as int,
        size as nat,
    ));
}

} // verus!
