//! An active memory region on a remote machine, and the accesses to it.
//!
//! An access is checked against the region first, and before anything
//! else; what passes becomes an [`AccessPlan`]: the local memory to
//! register, and the remote memory to reach through the RDMA connection
//! of the region's group. That connection is in the group's slot
//! ([`GroupConnection`]), which each access looks up in the provider
//! that gave the region out: it goes through the connection that the
//! group has at the time.

use vstd::prelude::*;

use crate::error::{Access, Error};
use crate::pod;
use crate::pod::{zeroed_vec, RemoteSafe};
use crate::rdma::calls::Handle;
use crate::rdma::verbs;
use crate::rdma::verbs::{address_of, address_of_vec, Connection, Registration};
use crate::readers::RemoteMemoryProvider;

verus! {

broadcast use vstd::layout::layout_of_slices;

/// An active memory region on the remote machine, as returned by
/// [`RemoteMemoryProvider::get_remote_mr`](crate::RemoteMemoryProvider::get_remote_mr).
///
/// Reads and writes go through the RDMA connection of the region's
/// group (established by that group's
/// [`RemoteMemoryProvider::update`](crate::RemoteMemoryProvider::update),
/// and kept in the group's
/// [`RemoteMemoryProvider::slot`](crate::RemoteMemoryProvider::slot))
/// as bytes ([`Self::read`], [`Self::read_into`], [`Self::write`]) or as
/// elements of any [`RemoteSafe`] type ([`Self::read_typed`],
/// [`Self::read_into_typed`], [`Self::write_typed`]), provided that is
/// the type the sharing side registered the region as.
#[derive(Debug, Clone, PartialEq, Eq)]
pub struct RemoteMemoryRegion {
    /// Address of the region in the remote machine's address space.
    pub remote_addr: u64,
    /// Size of the region, in bytes.
    pub size: usize,
    /// Remote key required to access the region with RDMA.
    pub rkey: u32,
    /// Group id this region belongs to (the group used at lookup time).
    pub group: u32,
    /// `size_of` of the element type the region is shared as.
    pub elem_size: u32,
    /// `align_of` of the element type the region is shared as.
    pub elem_align: u32,
    /// `std::any::type_name` of the element type, for diagnostics.
    pub elem_type: String,
}

/// The slot of one group's RDMA connection: filled by the group's
/// session, accessed through by the group's regions.
#[derive(Debug, PartialEq, Eq)]
pub struct GroupConnection {
    pub connection: Option<Connection>,
}

impl GroupConnection {
    /// A connection in the slot is established: it has its domain.
    pub open spec fn wf(self) -> bool {
        self.connection matches Some(connection) ==> connection.pd is Some
    }

    /// The protection domain of the connection in the slot.
    pub open spec fn domain(self) -> Handle {
        self.connection->0.pd->0.pd
    }

    /// Why an access of `size` bytes cannot go through the slot, if it
    /// cannot.
    pub open spec fn refusal(self, size: int) -> Option<Error> {
        if self.connection is None {
            Some(Error::NotConnected)
        } else if size == 0 {
            Some(Error::EmptyRegistration)
        } else {
            None
        }
    }

    /// A slot no session has filled yet: accesses through it fail, as
    /// a successful
    /// [`RemoteMemoryProvider::update`](crate::RemoteMemoryProvider::update)
    /// of the group is needed first.
    pub fn empty() -> (slot: Self)
        ensures
            slot.wf(),
            slot.connection is None,
    {
        GroupConnection { connection: None }
    }

    /// The connection, or an error explaining why there is none.
    pub fn get(&self) -> (result: Result<&Connection, Error>)
        ensures
            match self.connection {
                Some(connection) => result == Ok::<&Connection, Error>(&connection),
                None => result == Err::<&Connection, Error>(Error::NotConnected),
            },
    {
        match &self.connection {
            Some(connection) => Ok(connection),
            None => Err(Error::NotConnected),
        }
    }

    /// As [`Self::get`], to request accesses of the connection.
    pub fn get_mut(&mut self) -> (result: Result<&mut Connection, Error>)
        ensures
            match old(self).connection {
                Some(connection) => {
                    &&& result matches Ok(slot)
                    &&& *slot == connection
                    &&& *final(self) == (GroupConnection { connection: Some(*final(slot)) })
                },
                None => {
                    &&& result matches Err(e)
                    &&& e == Error::NotConnected
                    &&& *final(self) == *old(self)
                },
            },
    {
        match &mut self.connection {
            Some(connection) => Ok(connection),
            None => Err(Error::NotConnected),
        }
    }

    /// Reject an access without a connection, or without bytes.
    fn check(&self, empty: bool) -> (result: Result<(), Error>)
        ensures
            match self.refusal(
                if empty {
                    0
                } else {
                    1
                },
            ) {
                Some(e) => result == Err::<(), Error>(e),
                None => result == Ok::<(), Error>(()),
            },
    {
        self.get()?;
        if empty {
            return Err(Error::EmptyRegistration);
        }
        Ok(())
    }
}

/// A checked access: register the local memory, then read or write
/// `len` bytes at `remote_addr`, accessed with `rkey`, through the
/// connection of the region's group.
#[derive(Debug, Clone, Copy, PartialEq, Eq)]
pub struct AccessPlan {
    pub access: Access,
    pub registration: Registration,
    pub remote_addr: u64,
    pub rkey: u32,
    pub len: usize,
}

/// Whether the local memory of `plan` is where `T`s can lie: its
/// address is one that `T`s can have, and its bytes lie below the end of
/// the address space.
pub open spec fn holds<T>(plan: AccessPlan) -> bool {
    &&& plan.registration.addr as nat % vstd::layout::align_of::<T>() == 0
    &&& plan.registration.addr + plan.len <= usize::MAX
}

/// `n`, or the largest 64-bit number if it is larger.
pub open spec fn saturated(n: int) -> int {
    if n > u64::MAX {
        u64::MAX as int
    } else {
        n
    }
}

/// Where element `index` of a region of `T`s starts, in bytes from the
/// region's start; the largest 64-bit number if that overflows.
pub fn element_offset<T: RemoteSafe>(index: u64) -> (offset: u64)
    ensures
        offset == saturated(index * vstd::layout::size_of::<T>()),
{
    match index.checked_mul(core::mem::size_of::<T>() as u64) {
        Some(offset) => offset,
        None => u64::MAX,
    }
}

/// The byte that a typed access at `offset` starts at: reads count
/// bytes, writes count elements.
pub open spec fn start_of(access: Access, offset: u64, elem_size: int) -> u64 {
    match access {
        Access::Read => offset,
        Access::Write => saturated(offset * elem_size) as u64,
    }
}

/// The byte that a typed access at `offset` starts at.
fn first_byte(access: Access, offset: u64, elem_size: usize) -> (start: u64)
    ensures
        start == start_of(access, offset, elem_size as int),
{
    assert(offset * elem_size >= 0) by (nonlinear_arith);
    match access {
        Access::Read => offset,
        Access::Write => match offset.checked_mul(elem_size as u64) {
            Some(start) => start,
            None => u64::MAX,
        },
    }
}

impl RemoteMemoryRegion {
    /// Whether `size` bytes at `offset` reach past the region's end.
    pub open spec fn exceeded_by(self, offset: u64, size: int) -> bool {
        saturated(offset + size) > self.size
    }

    /// Whether elements of this size and alignment are what the region
    /// is shared as.
    pub open spec fn is_shared_as(self, elem_size: usize, elem_align: usize) -> bool {
        elem_size as u32 == self.elem_size && elem_align as u32 == self.elem_align
    }

    /// The slot of the region's group.
    pub open spec fn slot_in(self, provider: RemoteMemoryProvider) -> GroupConnection {
        provider.session(self.group).connection
    }

    /// The plan of an access of `size` bytes at the byte `offset`,
    /// through the connection in `slot`, to or from the local memory at
    /// `local`.
    pub open spec fn plan(
        self,
        slot: GroupConnection,
        access: Access,
        local: u64,
        offset: u64,
        size: usize,
    ) -> AccessPlan {
        AccessPlan {
            access,
            registration: verbs::open_registration(slot.domain(), local, size),
            remote_addr: (self.remote_addr + offset) as u64,
            rkey: self.rkey,
            len: size,
        }
    }

    /// Why an access of `size` bytes at `offset` cannot be planned, if
    /// it cannot.
    pub open spec fn byte_refusal(
        self,
        slot: GroupConnection,
        access: Access,
        offset: u64,
        size: usize,
    ) -> Option<Error> {
        if self.exceeded_by(offset, size as int) {
            Some(Error::ExceedsRegion { access, size, offset, region: self.size })
        } else {
            slot.refusal(size as int)
        }
    }

    /// Why an access of `count` elements at `offset` cannot be planned,
    /// if it cannot. The elements are what the region is shared as.
    pub open spec fn typed_refusal(
        self,
        slot: GroupConnection,
        access: Access,
        offset: u64,
        count: usize,
        elem_size: usize,
        elem_align: usize,
    ) -> Option<Error> {
        let start = start_of(access, offset, elem_size as int);
        if self.exceeded_by(start, count * elem_size) {
            Some(
                Error::ExceedsElements {
                    access,
                    count,
                    offset,
                    elements: self.size / elem_size,
                    elem_size,
                },
            )
        } else if (self.remote_addr + start) % (elem_align as int) != 0 {
            Some(Error::Misaligned { access, offset, align: elem_align })
        } else {
            slot.refusal(count * elem_size)
        }
    }

    /// Whether `e` says that `T` is not what the region is shared as.
    pub open spec fn is_mismatch<T: RemoteSafe>(self, e: Error) -> bool {
        e matches Error::LayoutMismatch {
            shared_type,
            shared_size,
            shared_align,
            elem_type,
            elem_size,
            elem_align,
        } && shared_type == self.elem_type && shared_size == self.elem_size && shared_align
            == self.elem_align && pod::is_name::<T>(elem_type) && elem_size
            == vstd::layout::size_of::<T>() && elem_align == vstd::layout::align_of::<T>()
    }

    /// Whether an access of `T`s at `offset` has a sound address and a
    /// sound error: what lies in the region lies below the end of the
    /// address space, and elements without bytes are not counted.
    pub open spec fn can_hold<T>(self, access: Access, offset: u64, count: nat) -> bool {
        let elem_size = vstd::layout::size_of::<T>() as usize;
        let elem_align = vstd::layout::align_of::<T>() as usize;
        self.is_shared_as(elem_size, elem_align) ==> self.is_sound(
            access,
            offset,
            count as int,
            elem_size,
        )
    }

    /// Whether an access of `count` elements at `offset` has a sound
    /// address, if it lies in the region, and a sound error, if it does
    /// not.
    pub open spec fn is_sound(
        self,
        access: Access,
        offset: u64,
        count: int,
        elem_size: usize,
    ) -> bool {
        let start = start_of(access, offset, elem_size as int);
        if self.exceeded_by(start, count * elem_size) {
            elem_size > 0
        } else {
            self.remote_addr + start <= u64::MAX
        }
    }

    /// What planning an access of `count` `T`s at `offset` gives.
    pub open spec fn typed_outcome<T: RemoteSafe>(
        self,
        slot: GroupConnection,
        access: Access,
        offset: u64,
        count: usize,
        result: Result<AccessPlan, Error>,
    ) -> bool {
        let elem_size = vstd::layout::size_of::<T>() as usize;
        let elem_align = vstd::layout::align_of::<T>() as usize;
        if !self.is_shared_as(elem_size, elem_align) {
            result matches Err(e) && self.is_mismatch::<T>(e)
        } else {
            match self.typed_refusal(slot, access, offset, count, elem_size, elem_align) {
                Some(e) => result == Err::<AccessPlan, Error>(e),
                None => result matches Ok(plan) && plan == self.plan(
                    slot,
                    access,
                    plan.registration.addr,
                    start_of(access, offset, elem_size as int),
                    (count * elem_size) as usize,
                ) && holds::<T>(plan),
            }
        }
    }

    /// Plan an access of `size` bytes to or from the local memory at
    /// `local`, to or from the remote memory at the byte `offset`,
    /// which fits the region.
    fn connected_plan(
        &self,
        slot: &GroupConnection,
        access: Access,
        local: u64,
        offset: u64,
        size: usize,
    ) -> (result: Result<AccessPlan, Error>)
        requires
            slot.wf(),
            slot.refusal(size as int) is None ==> self.remote_addr + offset <= u64::MAX,
        ensures
            match slot.refusal(size as int) {
                Some(e) => result == Err::<AccessPlan, Error>(e),
                None => result == Ok::<AccessPlan, Error>(
                    self.plan(*slot, access, local, offset, size),
                ),
            },
    {
        let connection: &Connection = slot.get()?;
        let registration: Registration = connection.register_addr(local, size)?;
        Ok(
            AccessPlan {
                access,
                registration,
                remote_addr: self.remote_addr + offset,
                rkey: self.rkey,
                len: size,
            },
        )
    }

    /// Reject an access of `size` bytes at `offset` that cannot be
    /// planned.
    fn check_bytes(
        &self,
        slot: &GroupConnection,
        access: Access,
        offset: u64,
        size: usize,
    ) -> (result: Result<(), Error>)
        ensures
            match self.byte_refusal(*slot, access, offset, size) {
                Some(e) => result == Err::<(), Error>(e),
                None => result == Ok::<(), Error>(()),
            },
    {
        if offset.saturating_add(size as u64) > self.size as u64 {
            return Err(Error::ExceedsRegion { access, size, offset, region: self.size });
        }
        slot.check(size == 0)
    }

    /// Reject an access of `count` elements at `offset` that cannot be
    /// planned. The elements are what the region is shared as.
    fn check_elements(
        &self,
        slot: &GroupConnection,
        access: Access,
        offset: u64,
        count: usize,
        elem_size: usize,
        elem_align: usize,
    ) -> (result: Result<(), Error>)
        requires
            elem_align > 0,
            self.is_sound(access, offset, count as int, elem_size),
        ensures
            match self.typed_refusal(*slot, access, offset, count, elem_size, elem_align) {
                Some(e) => result == Err::<(), Error>(e),
                None => result == Ok::<(), Error>(()),
            },
    {
        assert(count * elem_size >= 0) by (nonlinear_arith);
        assert(count * elem_size == 0 <==> count == 0 || elem_size == 0) by (nonlinear_arith);
        let start: u64 = first_byte(access, offset, elem_size);
        let size: u64 = match (count as u64).checked_mul(elem_size as u64) {
            Some(size) => size,
            None => u64::MAX,
        };
        if start.saturating_add(size) > self.size as u64 {
            return Err(
                Error::ExceedsElements {
                    access,
                    count,
                    offset,
                    elements: self.size / elem_size,
                    elem_size,
                },
            );
        }
        let address: u64 = self.remote_addr + start;
        if address % (elem_align as u64) != 0 {
            return Err(Error::Misaligned { access, offset, align: elem_align });
        }
        slot.check(count == 0 || elem_size == 0)
    }

    /// Plan an access of `size` bytes at `offset`, through the
    /// connection in `slot`, to or from the local memory at `local`.
    pub fn byte_plan(
        &self,
        slot: &GroupConnection,
        access: Access,
        local: u64,
        offset: u64,
        size: usize,
    ) -> (result: Result<AccessPlan, Error>)
        requires
            slot.wf(),
            self.byte_refusal(*slot, access, offset, size) is None ==> self.remote_addr + offset
                <= u64::MAX,
        ensures
            match self.byte_refusal(*slot, access, offset, size) {
                Some(e) => result == Err::<AccessPlan, Error>(e),
                None => result == Ok::<AccessPlan, Error>(
                    self.plan(*slot, access, local, offset, size),
                ),
            },
    {
        self.check_bytes(slot, access, offset, size)?;
        self.connected_plan(slot, access, local, offset, size)
    }

    /// Plan an access of `count` elements at `offset`, through the
    /// connection in `slot`, to or from the local memory at `local`. The
    /// elements are what the region is shared as.
    pub fn typed_plan(
        &self,
        slot: &GroupConnection,
        access: Access,
        local: u64,
        offset: u64,
        count: usize,
        elem_size: usize,
        elem_align: usize,
    ) -> (result: Result<AccessPlan, Error>)
        requires
            slot.wf(),
            elem_align > 0,
            count * elem_size <= usize::MAX,
            self.is_sound(access, offset, count as int, elem_size),
        ensures
            match self.typed_refusal(*slot, access, offset, count, elem_size, elem_align) {
                Some(e) => result == Err::<AccessPlan, Error>(e),
                None => result == Ok::<AccessPlan, Error>(
                    self.plan(
                        *slot,
                        access,
                        local,
                        start_of(access, offset, elem_size as int),
                        (count * elem_size) as usize,
                    ),
                ),
            },
    {
        self.check_elements(slot, access, offset, count, elem_size, elem_align)?;
        assert(count * elem_size >= 0) by (nonlinear_arith);
        let start: u64 = first_byte(access, offset, elem_size);
        self.connected_plan(slot, access, local, start, count * elem_size)
    }

    /// Reject elements of a layout, called `elem_type`, that is not the
    /// layout the region is shared as.
    pub fn check_layout(&self, elem_type: String, elem_size: usize, elem_align: usize) -> (result:
        Result<(), Error>)
        ensures
            self.is_shared_as(elem_size, elem_align) ==> result == Ok::<(), Error>(()),
            !self.is_shared_as(elem_size, elem_align) ==> result == Err::<(), Error>(
                Error::LayoutMismatch {
                    shared_type: self.elem_type,
                    shared_size: self.elem_size,
                    shared_align: self.elem_align,
                    elem_type,
                    elem_size,
                    elem_align,
                },
            ),
    {
        if elem_size as u32 == self.elem_size && elem_align as u32 == self.elem_align {
            return Ok(());
        }
        Err(
            Error::LayoutMismatch {
                shared_type: self.elem_type.clone(),
                shared_size: self.elem_size,
                shared_align: self.elem_align,
                elem_type,
                elem_size,
                elem_align,
            },
        )
    }

    /// Reject a `T` whose layout is not the layout the region is shared
    /// as.
    fn check_elem<T: RemoteSafe>(&self) -> (result: Result<(), Error>)
        ensures
            ({
                let elem_size = vstd::layout::size_of::<T>() as usize;
                let elem_align = vstd::layout::align_of::<T>() as usize;
                if self.is_shared_as(elem_size, elem_align) {
                    result == Ok::<(), Error>(())
                } else {
                    result matches Err(e) && self.is_mismatch::<T>(e)
                }
            }),
    {
        self.check_layout(
            T::elem_type(),
            core::mem::size_of::<T>(),
            core::mem::align_of::<T>(),
        )
    }

    /// Plan an access to or from `buf`, at `offset`.
    fn slice_plan<T: RemoteSafe>(
        &self,
        provider: &RemoteMemoryProvider,
        access: Access,
        offset: u64,
        buf: &[T],
    ) -> (result: Result<AccessPlan, Error>)
        requires
            provider.wf(),
            self.can_hold::<T>(access, offset, buf@.len()),
        ensures
            self.typed_outcome::<T>(self.slot_in(*provider), access, offset, buf.len(), result),
            result matches Ok(plan) ==> call_ensures(
                address_of::<T>,
                (buf,),
                plan.registration.addr,
            ),
    {
        vstd::layout::layout_for_type_is_valid::<T>();
        self.check_elem::<T>()?;
        let size: usize = core::mem::size_of_val(buf);
        assert(size == buf@.len() * vstd::layout::size_of::<T>());
        self.typed_plan(
            provider.slot(self.group),
            access,
            address_of(buf),
            offset,
            buf.len(),
            core::mem::size_of::<T>(),
            core::mem::align_of::<T>(),
        )
    }

    /// Read `size` bytes starting at `offset` from the remote region,
    /// into a new buffer: it is returned, all zero, with the plan that
    /// fills it.
    ///
    /// The read must stay within the region: `offset + size` may not
    /// exceed the region's size. Nothing is allocated for a read that
    /// is refused.
    pub fn read(
        &self,
        provider: &RemoteMemoryProvider,
        offset: u64,
        size: usize,
    ) -> (result: Result<(Vec<u8>, AccessPlan), Error>)
        requires
            provider.wf(),
            self.byte_refusal(self.slot_in(*provider), Access::Read, offset, size) is None
                ==> self.remote_addr + offset <= u64::MAX,
        ensures
            match self.byte_refusal(self.slot_in(*provider), Access::Read, offset, size) {
                Some(e) => result == Err::<(Vec<u8>, AccessPlan), Error>(e),
                None => {
                    &&& result matches Ok((buffer, plan))
                    &&& buffer@ == Seq::new(size as nat, |i: int| 0u8)
                    &&& plan == self.plan(
                        self.slot_in(*provider),
                        Access::Read,
                        plan.registration.addr,
                        offset,
                        size,
                    )
                    &&& holds::<u8>(plan)
                    &&& call_ensures(address_of_vec::<u8>, (&buffer,), plan.registration.addr)
                },
            },
    {
        self.check_bytes(provider.slot(self.group), Access::Read, offset, size)?;
        let buffer: Vec<u8> = zeroed_vec(size);
        assert(buffer@ =~= Seq::new(size as nat, |i: int| 0u8)) by {
            assert forall|i: int| 0 <= i < size implies buffer@[i] == 0u8 by {
                assert(pod::is_zero(buffer@[i]));
            }
        }
        proof {
            broadcast use vstd::layout::layout_of_primitives;

            assert(vstd::layout::size_of::<u8>() == 1);
        }
        let plan: AccessPlan = self.byte_plan(
            provider.slot(self.group),
            Access::Read,
            address_of_vec(&buffer),
            offset,
            size,
        )?;
        Ok((buffer, plan))
    }

    /// Read `size` bytes starting at `offset` into the start of `buf`,
    /// overwriting its first `size` bytes without allocating new
    /// memory.
    ///
    /// `size` may not exceed `buf.len()`, and the read must stay within
    /// the region.
    pub fn read_into(
        &self,
        provider: &RemoteMemoryProvider,
        offset: u64,
        size: usize,
        buf: &mut [u8],
    ) -> (result: Result<AccessPlan, Error>)
        requires
            provider.wf(),
            size <= old(buf)@.len() && self.byte_refusal(
                self.slot_in(*provider),
                Access::Read,
                offset,
                size,
            ) is None ==> self.remote_addr + offset <= u64::MAX,
        ensures
            final(buf)@ == old(buf)@,
            size > old(buf)@.len() ==> result == Err::<AccessPlan, Error>(
                Error::ExceedsBuffer { size, buffer: old(buf)@.len() as usize },
            ),
            size <= old(buf)@.len() ==> match self.byte_refusal(
                self.slot_in(*provider),
                Access::Read,
                offset,
                size,
            ) {
                Some(e) => result == Err::<AccessPlan, Error>(e),
                None => result matches Ok(plan) && plan == self.plan(
                    self.slot_in(*provider),
                    Access::Read,
                    plan.registration.addr,
                    offset,
                    size,
                ) && holds::<u8>(plan),
            },
            result matches Ok(plan) ==> call_ensures(
                address_of::<u8>,
                (&*final(buf),),
                plan.registration.addr,
            ),
    {
        if size > buf.len() {
            return Err(Error::ExceedsBuffer { size, buffer: buf.len() });
        }
        proof {
            broadcast use vstd::layout::layout_of_primitives;

            assert(vstd::layout::size_of::<u8>() == 1);
        }
        self.byte_plan(provider.slot(self.group), Access::Read, address_of(buf), offset, size)
    }

    /// Read `count` elements starting at the byte `offset` from the
    /// remote region, into a new `Vec` of them: it is returned, all
    /// zero, with the plan that fills it.
    ///
    /// `T` must be the element type the sharing side registered the
    /// region as: its size and alignment travel with the region, and a
    /// `T` that does not match fails here instead of reading garbage,
    /// though type identity across separately compiled applications
    /// still cannot be verified, only the layout. Element `i` starts at
    /// [`element_offset::<T>(i)`](element_offset); the read must stay
    /// within the region, and start where a `T` can.
    pub fn read_typed<T: RemoteSafe>(
        &self,
        provider: &RemoteMemoryProvider,
        offset: u64,
        count: usize,
    ) -> (result: Result<(Vec<T>, AccessPlan), Error>)
        requires
            provider.wf(),
            self.can_hold::<T>(Access::Read, offset, count as nat),
        ensures
            match result {
                Ok((buffer, plan)) => {
                    &&& self.typed_outcome::<T>(
                        self.slot_in(*provider),
                        Access::Read,
                        offset,
                        count,
                        Ok::<AccessPlan, Error>(plan),
                    )
                    &&& buffer@.len() == count
                    &&& forall|i: int| 0 <= i < count ==> pod::is_zero(#[trigger] buffer@[i])
                    &&& call_ensures(address_of_vec::<T>, (&buffer,), plan.registration.addr)
                },
                Err(e) => self.typed_outcome::<T>(
                    self.slot_in(*provider),
                    Access::Read,
                    offset,
                    count,
                    Err::<AccessPlan, Error>(e),
                ),
            },
    {
        vstd::layout::layout_for_type_is_valid::<T>();
        self.check_elem::<T>()?;
        self.check_elements(
            provider.slot(self.group),
            Access::Read,
            offset,
            count,
            core::mem::size_of::<T>(),
            core::mem::align_of::<T>(),
        )?;
        let buffer: Vec<T> = zeroed_vec(count);
        let local: u64 = address_of_vec(&buffer);
        let plan: AccessPlan = self.typed_plan(
            provider.slot(self.group),
            Access::Read,
            local,
            offset,
            count,
            core::mem::size_of::<T>(),
            core::mem::align_of::<T>(),
        )?;
        Ok((buffer, plan))
    }

    /// Read `buf.len()` elements starting at the byte `offset` into
    /// `buf`, without allocating new memory.
    ///
    /// The same `T`, bounds, and alignment rules as
    /// [`Self::read_typed`]; a partial read is a shorter `buf` slice.
    pub fn read_into_typed<T: RemoteSafe>(
        &self,
        provider: &RemoteMemoryProvider,
        offset: u64,
        buf: &mut [T],
    ) -> (result: Result<AccessPlan, Error>)
        requires
            provider.wf(),
            self.can_hold::<T>(Access::Read, offset, old(buf)@.len()),
        ensures
            final(buf)@ == old(buf)@,
            self.typed_outcome::<T>(
                self.slot_in(*provider),
                Access::Read,
                offset,
                old(buf)@.len() as usize,
                result,
            ),
            result matches Ok(plan) ==> call_ensures(
                address_of::<T>,
                (&*final(buf),),
                plan.registration.addr,
            ),
    {
        self.slice_plan(provider, Access::Read, offset, buf)
    }

    /// Write `buf` to the remote region starting at byte `offset`,
    /// modifying the remote memory in place.
    ///
    /// The write must stay within the region: `offset + buf.len()` may
    /// not exceed the region's size.
    pub fn write(
        &self,
        provider: &RemoteMemoryProvider,
        offset: u64,
        buf: &[u8],
    ) -> (result: Result<AccessPlan, Error>)
        requires
            provider.wf(),
            self.byte_refusal(self.slot_in(*provider), Access::Write, offset, buf.len()) is None
                ==> self.remote_addr + offset <= u64::MAX,
        ensures
            match self.byte_refusal(self.slot_in(*provider), Access::Write, offset, buf.len()) {
                Some(e) => result == Err::<AccessPlan, Error>(e),
                None => result matches Ok(plan) && plan == self.plan(
                    self.slot_in(*provider),
                    Access::Write,
                    plan.registration.addr,
                    offset,
                    buf.len(),
                ) && holds::<u8>(plan),
            },
            result matches Ok(plan) ==> call_ensures(
                address_of::<u8>,
                (buf,),
                plan.registration.addr,
            ),
    {
        proof {
            broadcast use vstd::layout::layout_of_primitives;

            assert(vstd::layout::size_of::<u8>() == 1);
        }
        self.byte_plan(provider.slot(self.group), Access::Write, address_of(buf), offset, buf.len())
    }

    /// Write `buf` to the remote region starting at element `offset`,
    /// modifying the remote memory in place.
    ///
    /// The same `T` rules as [`Self::read_typed`]: `T` must be the
    /// element type the sharing side registered the region as. Here
    /// `offset` and `buf.len()` are both in elements of `T`; the write
    /// must stay within the region. For byte offsets, use
    /// [`Self::write`].
    pub fn write_typed<T: RemoteSafe>(
        &self,
        provider: &RemoteMemoryProvider,
        offset: u64,
        buf: &[T],
    ) -> (result: Result<AccessPlan, Error>)
        requires
            provider.wf(),
            self.can_hold::<T>(Access::Write, offset, buf@.len()),
        ensures
            self.typed_outcome::<T>(
                self.slot_in(*provider),
                Access::Write,
                offset,
                buf.len(),
                result,
            ),
            result matches Ok(plan) ==> call_ensures(
                address_of::<T>,
                (buf,),
                plan.registration.addr,
            ),
    {
        self.slice_plan(provider, Access::Write, offset, buf)
    }
}

} // verus!
