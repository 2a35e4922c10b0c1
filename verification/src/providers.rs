//! Server side: memory regions shared with remote machines.
//!
//! [`SharedMemoryRegionProvider`] catalogs the registered regions,
//! assigning each a fresh id and handing out a
//! [`SharedMemoryRegionHandle`] for continued access. Regions are
//! shared as bytes ([`SharedMemoryRegionProvider::register`]) or as a
//! `Vec` of any [`RemoteSafe`] type
//! ([`SharedMemoryRegionProvider::register_typed`]), either way without
//! copying: the buffer is moved in, and only its address and size
//! travel further. Readers are accepted into groups that share a
//! protection domain, each over a session of its own
//! ([`Session`](crate::sessions::Session)).

use vstd::prelude::*;

use crate::error::Error;
use crate::pod;
use crate::pod::RemoteSafe;
use crate::rdma::calls::SocketAddrV4;
use crate::rdma::verbs::{address_of_vec, MemoryRegion};
use crate::shared::{RegionInfo, Shared, SharedTuple};

verus! {

broadcast use vstd::layout::layout_of_slices;

/// A memory region to be shared with remote machines, as raw bytes.
///
/// Owns the region's buffer. Registering the metadata with a
/// [`SharedMemoryRegionProvider`] moves the buffer into the handle that
/// is returned. For a `Vec` of some other [`RemoteSafe`] element type,
/// use [`SharedMemoryRegionProvider::register_typed`]. Deliberately not
/// `Clone`: cloning would duplicate the region's memory.
#[derive(Debug)]
pub struct SharedMemoryRegionMetadata {
    /// Name of the region. Names need not be unique: an id is set upon
    /// registering.
    pub name: String,
    /// The region's buffer.
    pub buffer: Vec<u8>,
}

impl SharedMemoryRegionMetadata {
    /// Create region metadata from a name and its buffer.
    pub fn new(name: &str, buffer: Vec<u8>) -> (metadata: Self)
        ensures
            metadata.name@ == name@,
            metadata.buffer == buffer,
    {
        SharedMemoryRegionMetadata { name: name.to_owned(), buffer }
    }
}

/// Connection parameters of this node's memory provider service.
///
/// Built by the node sharing memory and handed to
/// [`SharedMemoryRegionProvider::new`]: serving binds both ports, the
/// TCP port for the metadata exchange and the RDMA port for the memory
/// traffic.
#[derive(Debug, Clone, Copy, PartialEq, Eq, Hash)]
pub struct SharedMemoryRegionProviderAddr {
    /// RDMA port the provider serves memory on.
    pub rdma_port: u16,
    /// Desired TCP port for the metadata exchange.
    pub tcp_port: u16,
}

impl SharedMemoryRegionProviderAddr {
    /// Describe this provider's RDMA and TCP ports.
    pub fn new(rdma_port: u16, tcp_port: u16) -> (addr: Self)
        ensures
            addr == (SharedMemoryRegionProviderAddr { rdma_port, tcp_port }),
    {
        SharedMemoryRegionProviderAddr { rdma_port, tcp_port }
    }
}

/// Handle to a region registered with a [`SharedMemoryRegionProvider`].
///
/// Grants read and write access to the region's buffer via
/// [`Self::borrow`] and [`Self::borrow_mut`]: as `T`s for a region
/// registered with [`SharedMemoryRegionProvider::register_typed`], as
/// bytes for one registered with [`SharedMemoryRegionProvider::register`]
/// (then `T` is `u8`). The buffer is never resized: only its elements
/// change. The provider keeps working while a buffer is borrowed: it
/// knows the buffer's address and size only. The handle must be kept for
/// as long as the region is shared.
#[derive(Debug)]
pub struct SharedMemoryRegionHandle<T = u8> {
    id: u32,
    /// The buffer that was moved in at registration.
    buffer: Vec<T>,
}

/// `<Vec<T> as AsMut<[T]>>::as_mut`: the elements of `vec`, to be
/// changed in place. What is claimed of it is that the slice holds the
/// elements, that `vec` then holds what was written through the slice,
/// that a slice, whatever is written through it, keeps its length, and
/// that `vec`, which is not resized, stays where it is: an address it had
/// it has.
#[verifier::external_body]
fn elements_of<T>(vec: &mut Vec<T>) -> (slice: &mut [T])
    ensures
        slice@ == old(vec)@,
        final(vec)@ == final(slice)@,
        final(slice)@.len() == slice@.len(),
        forall|addr: u64| #[trigger]
            call_ensures(address_of_vec::<T>, (&*old(vec),), addr) ==> call_ensures(
                address_of_vec::<T>,
                (&*final(vec),),
                addr,
            ),
{
    vec.as_mut()
}

impl<T> SharedMemoryRegionHandle<T> {
    /// The id the provider assigned to this region.
    pub closed spec fn spec_id(self) -> u32 {
        self.id
    }

    /// The elements of the region's buffer.
    pub closed spec fn contents(self) -> Seq<T> {
        self.buffer@
    }

    /// The buffer that the handle holds.
    pub closed spec fn held(self) -> Vec<T> {
        self.buffer
    }

    /// The id the provider assigned to this region.
    pub fn id(&self) -> (id: u32)
        ensures
            id == self.spec_id(),
    {
        self.id
    }
}

impl<T: RemoteSafe> SharedMemoryRegionHandle<T> {
    /// Immutably borrow the buffer as a slice of `T`s.
    ///
    /// Values may change under the borrow without notice: remote
    /// readers of the region write to the same memory.
    pub fn borrow(&self) -> (slice: &[T])
        ensures
            slice@ == self.contents(),
            slice@ == self.held()@,
    {
        self.buffer.as_slice()
    }

    /// Mutably borrow the buffer as a slice of `T`s, to read and modify
    /// the region's data. What is written is what later borrows see;
    /// the buffer keeps its length.
    pub fn borrow_mut(&mut self) -> (slice: &mut [T])
        ensures
            slice@ == old(self).contents(),
            final(self).spec_id() == old(self).spec_id(),
            final(self).contents() == final(slice)@,
            slice@ == old(self).held()@,
            final(self).held()@ == final(slice)@,
            forall|addr: u64| #[trigger]
                call_ensures(address_of_vec::<T>, (&old(self).held(),), addr) ==> call_ensures(
                    address_of_vec::<T>,
                    (&final(self).held(),),
                    addr,
                ),
            final(self).contents().len() == old(self).contents().len(),
    {
        elements_of(&mut self.buffer)
    }
}

/// Where a provider is to be reached.
#[derive(Debug, Clone, Copy, PartialEq, Eq)]
pub struct Endpoints {
    /// The metadata listener's address.
    pub tcp: SocketAddrV4,
    /// The RDMA listener's address.
    pub rdma: SocketAddrV4,
}

/// `port` on every interface.
pub open spec fn is_wildcard(addr: SocketAddrV4, port: u16) -> bool {
    addr.port == port && addr.ip@ == seq![0u8, 0u8, 0u8, 0u8]
}

/// `port` on every interface.
fn wildcard(port: u16) -> (addr: SocketAddrV4)
    ensures
        is_wildcard(addr, port),
{
    let addr: SocketAddrV4 = SocketAddrV4 { ip: [0, 0, 0, 0], port };
    assert(addr.ip@ =~= seq![0u8, 0u8, 0u8, 0u8]);
    addr
}

/// Serves the memory regions shared with remote machines.
///
/// Constructed from a [`SharedMemoryRegionProviderAddr`]. Regions are
/// registered with [`Self::register`] (a `Vec<u8>`) or
/// [`Self::register_typed`] (a `Vec` of any [`RemoteSafe`] type): each
/// takes the buffer without copying it and assigns the region an id. A
/// reader's session greets over TCP, joins the group of the reader's
/// choosing, and connects over RDMA, accepted into the group's
/// protection domain, created with the group's first reader, so every
/// reader of the group shares the rkey of each tuple. (remote_addr,
/// size, rkey) tuples are created lazily, one per (region, group) pair,
/// and served with the catalog; readers re-request them over their open
/// session at any time.
#[derive(Debug)]
pub struct SharedMemoryRegionProvider {
    pub addr: SharedMemoryRegionProviderAddr,
    /// The state the sessions work from.
    pub shared: Shared,
    /// Whether the service runs.
    pub serving: bool,
}

impl SharedMemoryRegionProvider {
    /// The sessions' state is sound.
    pub open spec fn wf(self) -> bool {
        self.shared.wf()
    }

    /// Create a provider serving memory over `addr`'s RDMA port and
    /// exchanging metadata over its TCP port, once it is served.
    pub fn new(addr: SharedMemoryRegionProviderAddr) -> (provider: Self)
        ensures
            provider.wf(),
            provider.addr == addr,
            !provider.serving,
            provider.shared.catalog@ == Seq::<RegionInfo>::empty(),
            provider.shared.groups@ == Map::<u32, crate::shared::GroupEntry>::empty(),
            provider.shared.tuples@ == Map::<u64, MemoryRegion>::empty(),
    {
        SharedMemoryRegionProvider { addr, shared: Shared::new(), serving: false }
    }

    /// Where to bind the provider's ports, to serve readers in the
    /// background; a provider is served once.
    ///
    /// The metadata listener binds the TCP port on every IPv4
    /// interface; the RDMA listener binds the RDMA port with a wildcard
    /// address, across the node's RDMA devices. Once both are bound,
    /// [`Self::bound`] says so. Regions registered before or after this
    /// call are served alike.
    pub fn serve(&self) -> (result: Result<Endpoints, Error>)
        ensures
            self.serving ==> result == Err::<Endpoints, Error>(Error::AlreadyServing),
            !self.serving ==> {
                &&& result matches Ok(endpoints)
                &&& is_wildcard(endpoints.tcp, self.addr.tcp_port)
                &&& is_wildcard(endpoints.rdma, self.addr.rdma_port)
            },
    {
        if self.serving {
            return Err(Error::AlreadyServing);
        }
        Ok(
            Endpoints {
                tcp: wildcard(self.addr.tcp_port),
                rdma: wildcard(self.addr.rdma_port),
            },
        )
    }

    /// Both ports are bound: the service runs.
    pub fn bound(&mut self)
        ensures
            *final(self) == (SharedMemoryRegionProvider { serving: true, ..*old(self) }),
    {
        self.serving = true;
    }

    /// Whether `info` describes a region of `len` `T`s called `name`.
    pub open spec fn describes<T: RemoteSafe>(info: RegionInfo, name: Seq<char>, len: nat) -> bool {
        let elem_size = vstd::layout::size_of::<T>();
        let elem_align = vstd::layout::align_of::<T>();
        &&& info.name@ == name
        &&& info.size == len * elem_size
        &&& info.elem_size == elem_size as usize as u32
        &&& info.elem_align == elem_align as usize as u32
        &&& pod::is_name::<T>(info.elem_type)
    }

    /// Whether `info` catalogs a region of `len` `T`s called `name`:
    /// its address is one that `T`s can have, and its bytes lie below
    /// the end of the address space.
    pub open spec fn catalogs<T: RemoteSafe>(info: RegionInfo, name: Seq<char>, len: nat) -> bool {
        &&& Self::describes::<T>(info, name, len)
        &&& info.remote_addr as nat % vstd::layout::align_of::<T>() == 0
        &&& info.remote_addr + info.size <= usize::MAX
    }

    /// Take ownership of `metadata` and assign the region a fresh id.
    ///
    /// The byte-flavored entry point; see [`Self::register_typed`] for
    /// sharing a `Vec` of some other element type. Returns a handle for
    /// continued access to the buffer; the assigned id is available as
    /// [`SharedMemoryRegionHandle::id`]. No tuples are created here:
    /// they materialize when a reader's session is served, one per
    /// (region, group) pair.
    pub fn register(&mut self, metadata: SharedMemoryRegionMetadata) -> (handle:
        SharedMemoryRegionHandle)
        requires
            old(self).wf(),
            old(self).shared.catalog@.len() < u32::MAX,
        ensures
            final(self).wf(),
            final(self).addr == old(self).addr,
            final(self).serving == old(self).serving,
            final(self).shared.groups == old(self).shared.groups,
            final(self).shared.tuples == old(self).shared.tuples,
            handle.spec_id() == old(self).shared.catalog@.len(),
            handle.contents() == metadata.buffer@,
            handle.held() == metadata.buffer,
            call_ensures(
                address_of_vec::<u8>,
                (&handle.held(),),
                final(self).shared.catalog@.last().remote_addr,
            ),
            final(self).shared.catalog@.drop_last() == old(self).shared.catalog@,
            final(self).shared.catalog@.len() == old(self).shared.catalog@.len() + 1,
            Self::catalogs::<u8>(
                final(self).shared.catalog@.last(),
                metadata.name@,
                metadata.buffer@.len(),
            ),
    {
        proof {
            broadcast use vstd::layout::layout_of_primitives;

            assert(vstd::layout::size_of::<u8>() == 1);
        }
        self.register_typed(metadata.name.as_str(), metadata.buffer)
    }

    /// Take ownership of a `Vec` of `T`s and assign the region a fresh
    /// id, sharing it without copying: the buffer's heap allocation
    /// does not move with the value, and remote readers access it in
    /// place.
    ///
    /// `T` must be the type the readers read the region as: its size
    /// and alignment travel with the region's metadata, so the reader
    /// side rejects a `T` that does not match them, but type identity
    /// across separately compiled applications cannot be verified, so a
    /// same-sized, same-aligned `T` still reads whatever bytes the
    /// sharing side meant by its type. Elements of size zero cannot be
    /// shared: such a region has no bytes.
    pub fn register_typed<T: RemoteSafe>(&mut self, name: &str, buffer: Vec<T>) -> (handle:
        SharedMemoryRegionHandle<T>)
        requires
            old(self).wf(),
            old(self).shared.catalog@.len() < u32::MAX,
            vstd::layout::size_of::<T>() > 0,
        ensures
            final(self).wf(),
            final(self).addr == old(self).addr,
            final(self).serving == old(self).serving,
            final(self).shared.groups == old(self).shared.groups,
            final(self).shared.tuples == old(self).shared.tuples,
            handle.spec_id() == old(self).shared.catalog@.len(),
            handle.contents() == buffer@,
            handle.held() == buffer,
            call_ensures(
                address_of_vec::<T>,
                (&handle.held(),),
                final(self).shared.catalog@.last().remote_addr,
            ),
            final(self).shared.catalog@.drop_last() == old(self).shared.catalog@,
            final(self).shared.catalog@.len() == old(self).shared.catalog@.len() + 1,
            Self::catalogs::<T>(final(self).shared.catalog@.last(), name@, buffer@.len()),
    {
        let remote_addr: u64 = address_of_vec(&buffer);
        let size: usize = core::mem::size_of_val(buffer.as_slice());
        assert(size == buffer@.len() * vstd::layout::size_of::<T>());
        let id: u32 = self.register_at::<T>(name, buffer.len(), remote_addr);
        SharedMemoryRegionHandle { id, buffer }
    }

    /// Catalog `len` elements of `T` at `remote_addr` as a region of
    /// this name, with a fresh id.
    pub fn register_at<T: RemoteSafe>(&mut self, name: &str, len: usize, remote_addr: u64) -> (id:
        u32)
        requires
            old(self).wf(),
            old(self).shared.catalog@.len() < u32::MAX,
            vstd::layout::size_of::<T>() > 0,
            len * vstd::layout::size_of::<T>() <= usize::MAX,
        ensures
            final(self).wf(),
            final(self).addr == old(self).addr,
            final(self).serving == old(self).serving,
            final(self).shared.groups == old(self).shared.groups,
            final(self).shared.tuples == old(self).shared.tuples,
            id == old(self).shared.catalog@.len(),
            final(self).shared.catalog@ == old(self).shared.catalog@.push(
                final(self).shared.catalog@.last(),
            ),
            final(self).shared.catalog@.last().remote_addr == remote_addr,
            Self::describes::<T>(final(self).shared.catalog@.last(), name@, len as nat),
    {
        let info: RegionInfo = RegionInfo {
            name: name.to_owned(),
            remote_addr,
            size: len * core::mem::size_of::<T>(),
            elem_size: core::mem::size_of::<T>() as u32,
            elem_align: core::mem::align_of::<T>() as u32,
            elem_type: T::elem_type(),
        };
        self.shared.add_region(info)
    }

    /// The (remote_addr, size, rkey) tuple of region `id` for `group`,
    /// or the registration that creates it on first request.
    ///
    /// Creating a tuple registers the region's buffer in the group's
    /// protection domain: the rkey is a real one, usable by every
    /// reader of the group, and the registration is kept for as long as
    /// the provider is. Repeated requests for the same region and group
    /// return the same tuple; registration errors are reported as
    /// `Err`; unknown region ids or groups return `Ok(None)`.
    ///
    /// The buffer is never touched here: its address and size were
    /// captured at registration time, so the application may hold a
    /// borrow of the buffer while tuples are created and served.
    pub fn get_shared_mr(&self, id: u32, group: u32) -> (result: Result<Option<SharedTuple>, Error>)
        ensures
            result == self.shared.lookup(id, group),
    {
        self.shared.tuple_of(id, group)
    }

    /// Close the provider, whose service has stopped: the tuples'
    /// registrations are given up while the buffers they pin and the
    /// groups (whose protection domains the registrations belong to)
    /// are still alive.
    pub fn close(&mut self)
        requires
            old(self).wf(),
        ensures
            final(self).wf(),
            !final(self).serving,
            final(self).addr == old(self).addr,
            final(self).shared.catalog == old(self).shared.catalog,
            final(self).shared.groups == old(self).shared.groups,
            final(self).shared.tuples@ == Map::<u64, MemoryRegion>::empty(),
    {
        self.serving = false;
        self.shared.clear_tuples();
    }
}

} // verus!
