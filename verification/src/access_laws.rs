//! What each access to a region gives, said of the call itself: when it
//! is refused and why, and where the bytes it moves lie on both sides.

use vstd::prelude::*;

use crate::error::{Access, Error};
use crate::pod::RemoteSafe;
use crate::rdma::calls::Handle;
use crate::rdma::verbs::{
    address_of, address_of_vec, Connection, MemoryRegion, Registration, Transfer,
};
use crate::readers::RemoteMemoryProvider;
use crate::regions::{element_offset, AccessPlan, GroupConnection, RemoteMemoryRegion};

verus! {

/// A read of bytes is refused if it leaves the region, if the region's
/// group is not connected, and if it has no bytes, and in no other case.
/// It then fetches the bytes at its offset, with the region's key, into
/// the very buffer that it returns.
pub proof fn law_read(
    region: &RemoteMemoryRegion,
    provider: &RemoteMemoryProvider,
    offset: u64,
    size: usize,
    result: Result<(Vec<u8>, AccessPlan), Error>,
)
    requires
        call_ensures(RemoteMemoryRegion::read, (region, provider, offset, size), result),
        region.size < u64::MAX,
        region.remote_addr + region.size <= u64::MAX,
    ensures
        match result {
            Ok((buffer, plan)) => {
                let connected = provider.sessions@.contains_key(region.group)
                && provider.sessions@[region.group].connection.connection is Some;
                &&& offset + size <= region.size
                &&& connected
                &&& size > 0
                &&& buffer@.len() == size
                &&& forall|i: int| 0 <= i < size ==> #[trigger] buffer@[i] == 0u8
                &&& call_ensures(address_of_vec::<u8>, (&buffer,), plan.registration.addr)
                &&& plan.access == Access::Read
                &&& plan.len == size
                &&& plan.remote_addr == region.remote_addr + offset
                &&& plan.rkey == region.rkey
                &&& plan.registration.pd
                == provider.sessions@[region.group].connection.connection->0.pd->0.pd
                &&& plan.registration.length == size
                &&& plan.registration.access == 15
            },
            Err(e) => {
                let connected = provider.sessions@.contains_key(region.group)
                && provider.sessions@[region.group].connection.connection is Some;
                if offset + size > region.size {
                    e == (Error::ExceedsRegion {
                        access: Access::Read,
                        size: size,
                        offset,
                        region: region.size,
                    })
                } else if !connected {
                    e == Error::NotConnected
                } else {
                    size == 0 && e == Error::EmptyRegistration
                }
            },
        },
{
}

/// A read of bytes into a buffer is refused as [`law_read`] says, and if
/// the buffer is too short. It then fetches the bytes at its offset into
/// the start of that buffer, which is left as it is until then.
pub proof fn law_read_into(
    region: &RemoteMemoryRegion,
    provider: &RemoteMemoryProvider,
    offset: u64,
    size: usize,
    buf: &mut [u8],
    result: Result<AccessPlan, Error>,
)
    requires
        call_ensures(RemoteMemoryRegion::read_into, (region, provider, offset, size, buf), result),
        region.size < u64::MAX,
        region.remote_addr + region.size <= u64::MAX,
    ensures
        final(buf)@ == old(buf)@,
        match result {
            Ok(plan) => {
                let connected = provider.sessions@.contains_key(region.group)
                && provider.sessions@[region.group].connection.connection is Some;
                &&& size <= old(buf)@.len()
                &&& offset + size <= region.size
                &&& connected
                &&& size > 0
                &&& call_ensures(address_of::<u8>, (&*final(buf),), plan.registration.addr)
                &&& plan.access == Access::Read
                &&& plan.len == size
                &&& plan.remote_addr == region.remote_addr + offset
                &&& plan.rkey == region.rkey
                &&& plan.registration.pd
                == provider.sessions@[region.group].connection.connection->0.pd->0.pd
                &&& plan.registration.length == size
                &&& plan.registration.access == 15
            },
            Err(e) => {
                let connected = provider.sessions@.contains_key(region.group)
                && provider.sessions@[region.group].connection.connection is Some;
                if size > old(buf)@.len() {
                    e == (Error::ExceedsBuffer { size, buffer: old(buf)@.len() as usize })
                } else if offset + size > region.size {
                    e == (Error::ExceedsRegion {
                        access: Access::Read,
                        size: size,
                        offset,
                        region: region.size,
                    })
                } else if !connected {
                    e == Error::NotConnected
                } else {
                    size == 0 && e == Error::EmptyRegistration
                }
            },
        },
{
}

/// A write of bytes is refused as a read is. It then replaces the bytes
/// at its offset, with the region's key, by those of the buffer it was
/// given.
pub proof fn law_write(
    region: &RemoteMemoryRegion,
    provider: &RemoteMemoryProvider,
    offset: u64,
    buf: &[u8],
    result: Result<AccessPlan, Error>,
)
    requires
        call_ensures(RemoteMemoryRegion::write, (region, provider, offset, buf), result),
        region.size < u64::MAX,
        region.remote_addr + region.size <= u64::MAX,
    ensures
        match result {
            Ok(plan) => {
                let connected = provider.sessions@.contains_key(region.group)
                && provider.sessions@[region.group].connection.connection is Some;
                &&& offset + buf@.len() <= region.size
                &&& connected
                &&& buf@.len() > 0
                &&& call_ensures(address_of::<u8>, (buf,), plan.registration.addr)
                &&& plan.access == Access::Write
                &&& plan.len == buf@.len()
                &&& plan.remote_addr == region.remote_addr + offset
                &&& plan.rkey == region.rkey
                &&& plan.registration.pd
                == provider.sessions@[region.group].connection.connection->0.pd->0.pd
                &&& plan.registration.length == buf@.len()
                &&& plan.registration.access == 15
            },
            Err(e) => {
                let connected = provider.sessions@.contains_key(region.group)
                && provider.sessions@[region.group].connection.connection is Some;
                if offset + buf@.len() > region.size {
                    e == (Error::ExceedsRegion {
                        access: Access::Write,
                        size: buf@.len() as usize,
                        offset,
                        region: region.size,
                    })
                } else if !connected {
                    e == Error::NotConnected
                } else {
                    buf@.len() == 0 && e == Error::EmptyRegistration
                }
            },
        },
{
}

/// What the low word of a type's size and alignment is.
pub proof fn lemma_layout_words<T>()
    requires
        vstd::layout::size_of::<T>() <= usize::MAX,
        vstd::layout::align_of::<T>() <= usize::MAX,
    ensures
        vstd::layout::size_of::<T>() as usize as u32 == vstd::layout::size_of::<T>()
            % 0x1_0000_0000,
        vstd::layout::align_of::<T>() as usize as u32 == vstd::layout::align_of::<T>()
            % 0x1_0000_0000,
{
    let size: u64 = vstd::layout::size_of::<T>() as usize as u64;
    let align: u64 = vstd::layout::align_of::<T>() as usize as u64;
    assert(size as u32 == size % 0x1_0000_0000) by (bit_vector);
    assert(align as u32 == align % 0x1_0000_0000) by (bit_vector);
}

/// A typed read is planned only of elements that have the region's own
/// size and alignment, within the region, at an address they can have,
/// through a connected group; where one of these fails the first that
/// does is the error. Its offset is in bytes, and it fills the very
/// buffer that it returns.
pub proof fn law_read_typed<T: RemoteSafe>(
    region: &RemoteMemoryRegion,
    provider: &RemoteMemoryProvider,
    offset: u64,
    count: usize,
    result: Result<(Vec<T>, AccessPlan), Error>,
)
    requires
        call_ensures(RemoteMemoryRegion::read_typed::<T>, (region, provider, offset, count), result),
        region.size < u64::MAX,
        region.remote_addr + region.size <= u64::MAX,
        vstd::layout::size_of::<T>() <= usize::MAX,
        0 < vstd::layout::align_of::<T>() <= usize::MAX,
    ensures
        ({
            let elem_size = vstd::layout::size_of::<T>();
            let elem_align = vstd::layout::align_of::<T>();
            let same = elem_size % 0x1_0000_0000 == region.elem_size && elem_align % 0x1_0000_0000
                == region.elem_align;
            let connected = provider.sessions@.contains_key(region.group)
                && provider.sessions@[region.group].connection.connection is Some;
            match result {
                Ok((buffer, plan)) => {
                    &&& same
                    &&& offset + count * elem_size <= region.size
                    &&& (region.remote_addr + offset) % elem_align as int == 0
                    &&& connected
                    &&& count * elem_size > 0
                    &&& buffer@.len() == count
                    &&& forall|i: int|
                        0 <= i < count ==> call_ensures(T::zeroed, (), #[trigger] buffer@[i])
                    &&& call_ensures(address_of_vec::<T>, (&buffer,), plan.registration.addr)
                    &&& plan.access == Access::Read
                    &&& plan.len == count * elem_size
                    &&& plan.remote_addr == region.remote_addr + offset
                    &&& plan.rkey == region.rkey
                    &&& plan.registration.pd
                        == provider.sessions@[region.group].connection.connection->0.pd->0.pd
                    &&& plan.registration.length == count * elem_size
                    &&& plan.registration.access == 15
                },
                Err(e) => if !same {
                    e matches Error::LayoutMismatch {
                        shared_type,
                        shared_size,
                        shared_align,
                        elem_type,
                        elem_size: size,
                        elem_align: align,
                    } && shared_type == region.elem_type && shared_size == region.elem_size
                        && shared_align == region.elem_align && size == elem_size && align
                        == elem_align && call_ensures(T::elem_type, (), elem_type)
                } else if offset + count * elem_size > region.size {
                    e matches Error::ExceedsElements {
                        access,
                        count: c,
                        offset: o,
                        elements,
                        elem_size: size,
                    } && access == Access::Read && c == count && o == offset && size == elem_size
                        && (elem_size > 0 ==> elements == region.size as nat / elem_size)
                } else if (region.remote_addr + offset) % elem_align as int != 0 {
                    e == (Error::Misaligned {
                        access: Access::Read,
                        offset,
                        align: elem_align as usize,
                    })
                } else if !connected {
                    e == Error::NotConnected
                } else {
                    count * elem_size == 0 && e == Error::EmptyRegistration
                },
            }
        }),
{
    lemma_layout_words::<T>();
    let elem_size = vstd::layout::size_of::<T>() as int;
    let n = count as int;
    assert(offset * elem_size >= 0 && n * elem_size >= 0) by (nonlinear_arith)
        requires
            elem_size >= 0,
            offset >= 0,
            n >= 0,
    ;
    assert((elem_size as usize) as int == elem_size);
    assert(count * (elem_size as usize) == n * elem_size);
    assert(offset * (elem_size as usize) == offset * elem_size);
}

/// A typed read into a buffer is refused as [`law_read_typed`] says. It
/// then fills that buffer, which is left as it is until then.
pub proof fn law_read_into_typed<T: RemoteSafe>(
    region: &RemoteMemoryRegion,
    provider: &RemoteMemoryProvider,
    offset: u64,
    buf: &mut [T],
    result: Result<AccessPlan, Error>,
)
    requires
        call_ensures(RemoteMemoryRegion::read_into_typed::<T>, (region, provider, offset, buf), result),
        region.size < u64::MAX,
        region.remote_addr + region.size <= u64::MAX,
        vstd::layout::size_of::<T>() <= usize::MAX,
        0 < vstd::layout::align_of::<T>() <= usize::MAX,
    ensures
        final(buf)@ == old(buf)@,
        ({
            let elem_size = vstd::layout::size_of::<T>();
            let elem_align = vstd::layout::align_of::<T>();
            let same = elem_size % 0x1_0000_0000 == region.elem_size && elem_align % 0x1_0000_0000
                == region.elem_align;
            let connected = provider.sessions@.contains_key(region.group)
                && provider.sessions@[region.group].connection.connection is Some;
            match result {
                Ok(plan) => {
                    &&& same
                    &&& offset + old(buf)@.len() * elem_size <= region.size
                    &&& (region.remote_addr + offset) % elem_align as int == 0
                    &&& connected
                    &&& old(buf)@.len() * elem_size > 0
                    &&& call_ensures(address_of::<T>, (&*final(buf),), plan.registration.addr)
                    &&& plan.access == Access::Read
                    &&& plan.len == old(buf)@.len() * elem_size
                    &&& plan.remote_addr == region.remote_addr + offset
                    &&& plan.rkey == region.rkey
                    &&& plan.registration.pd
                        == provider.sessions@[region.group].connection.connection->0.pd->0.pd
                    &&& plan.registration.length == old(buf)@.len() * elem_size
                    &&& plan.registration.access == 15
                },
                Err(e) => if !same {
                    e matches Error::LayoutMismatch {
                        shared_type,
                        shared_size,
                        shared_align,
                        elem_type,
                        elem_size: size,
                        elem_align: align,
                    } && shared_type == region.elem_type && shared_size == region.elem_size
                        && shared_align == region.elem_align && size == elem_size && align
                        == elem_align && call_ensures(T::elem_type, (), elem_type)
                } else if offset + old(buf)@.len() * elem_size > region.size {
                    e matches Error::ExceedsElements {
                        access,
                        count: c,
                        offset: o,
                        elements,
                        elem_size: size,
                    } && access == Access::Read && c == old(buf)@.len() && o == offset
                        && size == elem_size
                        && (elem_size > 0 ==> elements == region.size as nat / elem_size)
                } else if (region.remote_addr + offset) % elem_align as int != 0 {
                    e == (Error::Misaligned {
                        access: Access::Read,
                        offset,
                        align: elem_align as usize,
                    })
                } else if !connected {
                    e == Error::NotConnected
                } else {
                    old(buf)@.len() * elem_size == 0 && e == Error::EmptyRegistration
                },
            }
        }),
{
    lemma_layout_words::<T>();
    let elem_size = vstd::layout::size_of::<T>() as int;
    assert(old(buf).len() == old(buf)@.len());
    let n = old(buf)@.len() as int;
    assert(offset * elem_size >= 0 && n * elem_size >= 0) by (nonlinear_arith)
        requires
            elem_size >= 0,
            offset >= 0,
            n >= 0,
    ;
    assert((elem_size as usize) as int == elem_size);
    assert(old(buf)@.len() * (elem_size as usize) == n * elem_size);
    assert(offset * (elem_size as usize) == offset * elem_size);
}

/// A typed write is refused as [`law_read_typed`] says, its offset
/// counted in elements. It then writes the elements of the buffer it was
/// given, from that memory itself.
pub proof fn law_write_typed<T: RemoteSafe>(
    region: &RemoteMemoryRegion,
    provider: &RemoteMemoryProvider,
    offset: u64,
    buf: &[T],
    result: Result<AccessPlan, Error>,
)
    requires
        call_ensures(RemoteMemoryRegion::write_typed::<T>, (region, provider, offset, buf), result),
        region.size < u64::MAX,
        region.remote_addr + region.size <= u64::MAX,
        vstd::layout::size_of::<T>() <= usize::MAX,
        0 < vstd::layout::align_of::<T>() <= usize::MAX,
    ensures
        ({
            let elem_size = vstd::layout::size_of::<T>();
            let elem_align = vstd::layout::align_of::<T>();
            let same = elem_size % 0x1_0000_0000 == region.elem_size && elem_align % 0x1_0000_0000
                == region.elem_align;
            let connected = provider.sessions@.contains_key(region.group)
                && provider.sessions@[region.group].connection.connection is Some;
            match result {
                Ok(plan) => {
                    &&& same
                    &&& offset * elem_size + buf@.len() * elem_size <= region.size
                    &&& (region.remote_addr + offset * elem_size) % elem_align as int == 0
                    &&& connected
                    &&& buf@.len() * elem_size > 0
                    &&& call_ensures(address_of::<T>, (buf,), plan.registration.addr)
                    &&& plan.access == Access::Write
                    &&& plan.len == buf@.len() * elem_size
                    &&& plan.remote_addr == region.remote_addr + offset * elem_size
                    &&& plan.rkey == region.rkey
                    &&& plan.registration.pd
                        == provider.sessions@[region.group].connection.connection->0.pd->0.pd
                    &&& plan.registration.length == buf@.len() * elem_size
                    &&& plan.registration.access == 15
                },
                Err(e) => if !same {
                    e matches Error::LayoutMismatch {
                        shared_type,
                        shared_size,
                        shared_align,
                        elem_type,
                        elem_size: size,
                        elem_align: align,
                    } && shared_type == region.elem_type && shared_size == region.elem_size
                        && shared_align == region.elem_align && size == elem_size && align
                        == elem_align && call_ensures(T::elem_type, (), elem_type)
                } else if offset * elem_size + buf@.len() * elem_size > region.size {
                    e matches Error::ExceedsElements {
                        access,
                        count: c,
                        offset: o,
                        elements,
                        elem_size: size,
                    } && access == Access::Write && c == buf@.len() && o == offset
                        && size == elem_size
                        && (elem_size > 0 ==> elements == region.size as nat / elem_size)
                } else if (region.remote_addr + offset * elem_size) % elem_align as int != 0 {
                    e == (Error::Misaligned {
                        access: Access::Write,
                        offset,
                        align: elem_align as usize,
                    })
                } else if !connected {
                    e == Error::NotConnected
                } else {
                    buf@.len() * elem_size == 0 && e == Error::EmptyRegistration
                },
            }
        }),
{
    lemma_layout_words::<T>();
    let elem_size = vstd::layout::size_of::<T>() as int;
    let n = buf@.len() as int;
    assert(offset * elem_size >= 0 && n * elem_size >= 0) by (nonlinear_arith)
        requires
            elem_size >= 0,
            offset >= 0,
            n >= 0,
    ;
    assert((elem_size as usize) as int == elem_size);
    assert(buf@.len() * (elem_size as usize) == n * elem_size);
    assert(offset * (elem_size as usize) == offset * elem_size);
}

/// Elements are of the region's layout only if both their size and their
/// alignment are, each in its low word; otherwise the error names both
/// layouts.
pub proof fn law_layouts_must_agree(
    region: &RemoteMemoryRegion,
    elem_type: String,
    elem_size: usize,
    elem_align: usize,
    result: Result<(), Error>,
)
    requires
        call_ensures(
            RemoteMemoryRegion::check_layout,
            (region, elem_type, elem_size, elem_align),
            result,
        ),
    ensures
        ({
            let same = elem_size as nat % 0x1_0000_0000 == region.elem_size && elem_align as nat
                % 0x1_0000_0000 == region.elem_align;
            match result {
                Ok(()) => same,
                Err(e) => !same && e == (Error::LayoutMismatch {
                    shared_type: region.elem_type,
                    shared_size: region.elem_size,
                    shared_align: region.elem_align,
                    elem_type,
                    elem_size,
                    elem_align,
                }),
            }
        }),
{
    let size: u64 = elem_size as u64;
    let align: u64 = elem_align as u64;
    assert(size as u32 == size % 0x1_0000_0000) by (bit_vector);
    assert(align as u32 == align % 0x1_0000_0000) by (bit_vector);
}

/// An element starts behind all those before it.
pub proof fn law_elements_follow_each_other<T: RemoteSafe>(index: u64, offset: u64)
    requires
        call_ensures(element_offset::<T>, (index,), offset),
    ensures
        index * vstd::layout::size_of::<T>() <= u64::MAX ==> offset == index
            * vstd::layout::size_of::<T>(),
        index * vstd::layout::size_of::<T>() > u64::MAX ==> offset == u64::MAX,
{
}

/// A plan is what it was asked for: the local memory, the bytes of the
/// region at the offset, the region's key, the connection's domain. It
/// is refused beyond the region, without a connection, and without
/// bytes.
pub proof fn law_byte_plans_are_what_was_asked(
    region: &RemoteMemoryRegion,
    slot: &GroupConnection,
    access: Access,
    local: u64,
    offset: u64,
    size: usize,
    result: Result<AccessPlan, Error>,
)
    requires
        call_ensures(
            RemoteMemoryRegion::byte_plan,
            (region, slot, access, local, offset, size),
            result,
        ),
        region.size < u64::MAX,
        region.remote_addr + region.size <= u64::MAX,
    ensures
        match result {
            Ok(plan) => {
                &&& offset + size <= region.size
                &&& slot.connection is Some
                &&& size > 0
                &&& plan.access == access
                &&& plan.len == size
                &&& plan.remote_addr == region.remote_addr + offset
                &&& plan.rkey == region.rkey
                &&& plan.registration.pd == slot.connection->0.pd->0.pd
                &&& plan.registration.addr == local
                &&& plan.registration.length == size
                &&& plan.registration.access == 15
            },
            Err(e) => if offset + size > region.size {
                e == (Error::ExceedsRegion { access, size, offset, region: region.size })
            } else if slot.connection is None {
                e == Error::NotConnected
            } else {
                size == 0 && e == Error::EmptyRegistration
            },
        },
{
}

/// A plan of elements is what it was asked for, as
/// [`law_byte_plans_are_what_was_asked`] says of bytes: a read's offset
/// in bytes, a write's in elements.
pub proof fn law_typed_plans_are_what_was_asked(
    region: &RemoteMemoryRegion,
    slot: &GroupConnection,
    access: Access,
    local: u64,
    offset: u64,
    count: usize,
    elem_size: usize,
    elem_align: usize,
    result: Result<AccessPlan, Error>,
)
    requires
        call_ensures(
            RemoteMemoryRegion::typed_plan,
            (region, slot, access, local, offset, count, elem_size, elem_align),
            result,
        ),
        region.size < u64::MAX,
        region.remote_addr + region.size <= u64::MAX,
        elem_size > 0,
        elem_align > 0,
    ensures
        ({
            let start = match access {
                Access::Read => offset as int,
                Access::Write => offset * elem_size,
            };
            match result {
                Ok(plan) => {
                    &&& start + count * elem_size <= region.size
                    &&& (region.remote_addr + start) % elem_align as int == 0
                    &&& slot.connection is Some
                    &&& count * elem_size > 0
                    &&& plan.access == access
                    &&& plan.len == count * elem_size
                    &&& plan.remote_addr == region.remote_addr + start
                    &&& plan.rkey == region.rkey
                    &&& plan.registration.pd == slot.connection->0.pd->0.pd
                    &&& plan.registration.addr == local
                    &&& plan.registration.length == count * elem_size
                    &&& plan.registration.access == 15
                },
                Err(e) => if start + count * elem_size > region.size {
                    e == (Error::ExceedsElements {
                        access,
                        count,
                        offset,
                        elements: region.size / elem_size,
                        elem_size,
                    })
                } else if (region.remote_addr + start) % elem_align as int != 0 {
                    e == (Error::Misaligned { access, offset, align: elem_align })
                } else if slot.connection is None {
                    e == Error::NotConnected
                } else {
                    count * elem_size == 0 && e == Error::EmptyRegistration
                },
            }
        }),
{
    assert(offset * elem_size >= 0 && count * elem_size >= 0) by (nonlinear_arith);
}

/// A planned write becomes the device's request for it: with the key of
/// the remote region and the key of the local registration, to the
/// region's bytes at the offset, from the memory of the buffer. The
/// group's connection takes it. (The device knows a write as opcode 0.)
pub proof fn law_writes_are_requested(
    region: &RemoteMemoryRegion,
    provider: &RemoteMemoryProvider,
    offset: u64,
    buf: &[u8],
    plan: AccessPlan,
    mr: Handle,
    lkey: u32,
    rkey: u32,
    local: MemoryRegion,
    connection: &mut Connection,
    outcome: Result<Transfer, Error>,
)
    requires
        call_ensures(RemoteMemoryRegion::write, (region, provider, offset, buf), Ok(plan)),
        region.size < u64::MAX,
        region.remote_addr + region.size <= u64::MAX,
        call_ensures(Registration::complete, (plan.registration, mr, lkey, rkey), Ok(local)),
        provider.sessions@[region.group].connection.connection == Some(*old(connection)),
        call_ensures(
            Connection::write,
            (connection, &local, plan.remote_addr, plan.rkey, plan.len),
            outcome,
        ),
    ensures
        outcome matches Ok(transfer) && {
            &&& transfer.access == Access::Write
            &&& transfer.request.opcode == 0
            &&& transfer.request.remote_addr == region.remote_addr + offset
            &&& transfer.request.rkey == region.rkey
            &&& transfer.request.lkey == lkey
            &&& transfer.request.local_addr == plan.registration.addr
            &&& buf@.len() <= u32::MAX ==> transfer.request.length == buf@.len()
            &&& transfer.request.wr_id == old(connection).next_wr_id
        },
        mr != 0,
        final(connection).pd == old(connection).pd,
{
}

/// A planned read becomes the device's request for it, keyed and placed
/// as [`law_writes_are_requested`] says of a write. (The device knows a
/// read as opcode 4.)
pub proof fn law_reads_are_requested(
    region: &RemoteMemoryRegion,
    provider: &RemoteMemoryProvider,
    offset: u64,
    size: usize,
    buffer: Vec<u8>,
    plan: AccessPlan,
    mr: Handle,
    lkey: u32,
    rkey: u32,
    local: MemoryRegion,
    connection: &mut Connection,
    outcome: Result<Transfer, Error>,
)
    requires
        call_ensures(RemoteMemoryRegion::read, (region, provider, offset, size), Ok((buffer, plan))),
        region.size < u64::MAX,
        region.remote_addr + region.size <= u64::MAX,
        call_ensures(Registration::complete, (plan.registration, mr, lkey, rkey), Ok(local)),
        provider.sessions@[region.group].connection.connection == Some(*old(connection)),
        call_ensures(
            Connection::read,
            (connection, &local, plan.remote_addr, plan.rkey, plan.len),
            outcome,
        ),
    ensures
        outcome matches Ok(transfer) && {
            &&& transfer.access == Access::Read
            &&& transfer.request.opcode == 4
            &&& transfer.request.remote_addr == region.remote_addr + offset
            &&& transfer.request.rkey == region.rkey
            &&& transfer.request.lkey == lkey
            &&& transfer.request.local_addr == plan.registration.addr
            &&& size <= u32::MAX ==> transfer.request.length == size
            &&& transfer.request.wr_id == old(connection).next_wr_id
        },
        mr != 0,
        final(connection).pd == old(connection).pd,
{
}

} // verus!
