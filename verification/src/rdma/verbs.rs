//! Memory registrations, protection domains, and the one-sided
//! accesses of a connection.
//!
//! The objects here are what the library knows of the verbs objects:
//! their handles and the numbers that travel. The calls themselves are
//! made outside, from the requests handed out here, and what they gave
//! is judged here.

use vstd::prelude::*;

use crate::error::{Access, Error};
use crate::rdma::calls;
use crate::rdma::calls::{check, check_ptr, Handle, Release};
use crate::rdma::codes;

verus! {

/// A locally registered memory region.
///
/// Registering a buffer pins it for RDMA access: the tuple
/// (remote_addr, size, rkey) tells remote readers how to reach it, and
/// `lkey` authorizes local operations, such as the destination buffer
/// of a read.
///
/// The buffer must outlive the region without moving or being resized,
/// and the region must be released before its connection.
#[derive(Debug, PartialEq, Eq)]
pub struct MemoryRegion {
    /// The registration's handle.
    pub mr: Handle,
    /// The protection domain, checked by the accesses.
    pub pd: Handle,
    pub addr: u64,
    pub size: usize,
    pub lkey: u32,
    pub rkey: u32,
}

impl MemoryRegion {
    /// Address of the region in this machine's address space, as seen
    /// by remote readers.
    pub fn addr(&self) -> (addr: u64)
        ensures
            addr == self.addr,
    {
        self.addr
    }

    /// Size of the region, in bytes.
    pub fn size(&self) -> (size: usize)
        ensures
            size == self.size,
    {
        self.size
    }

    /// Local key: authorizes local operations on this region.
    pub fn lkey(&self) -> (lkey: u32)
        ensures
            lkey == self.lkey,
    {
        self.lkey
    }

    /// Remote key: what remote readers need to access this region.
    pub fn rkey(&self) -> (rkey: u32)
        ensures
            rkey == self.rkey,
    {
        self.rkey
    }

    /// The (remote_addr, size, rkey) tuple to hand to remote readers.
    pub fn tuple(&self) -> (tuple: (u64, usize, u32))
        ensures
            tuple == (self.addr, self.size, self.rkey),
    {
        (self.addr, self.size, self.rkey)
    }

    /// The call that deregisters the region.
    pub fn release(&self) -> (release: Release)
        ensures
            release == (Release::Deregister { mr: self.mr }),
    {
        Release::Deregister { mr: self.mr }
    }
}

/// The address of the first element of `slice`, as
/// `<[T]>::as_ptr` gives it. Where a buffer lies is up to the
/// allocator; what is claimed is what every slice has: its address is
/// aligned for its elements, and its bytes do not run past the end of
/// the address space. Contracts that speak of a buffer's address say
/// that it is what this call gave for the buffer.
#[verifier::external_body]
pub fn address_of<T>(slice: &[T]) -> (addr: u64)
    ensures
        addr as nat % vstd::layout::align_of::<T>() == 0,
        addr + slice@.len() * vstd::layout::size_of::<T>() <= usize::MAX,
{
    slice.as_ptr() as u64
}

/// The address of the first element of `vec`: of the very slice that
/// its elements are.
pub fn address_of_vec<T>(vec: &Vec<T>) -> (addr: u64)
    ensures
        exists|slice: &[T]|
            slice@ == vec@ && #[trigger] call_ensures(address_of::<T>, (slice,), addr),
        addr as nat % vstd::layout::align_of::<T>() == 0,
        addr + vec@.len() * vstd::layout::size_of::<T>() <= usize::MAX,
{
    address_of(vec.as_slice())
}

/// A call of `ibv_reg_mr`.
#[derive(Debug, Clone, Copy, PartialEq, Eq)]
pub struct Registration {
    pub pd: Handle,
    pub addr: u64,
    pub length: usize,
    /// What local and remote sides may do with the memory.
    pub access: u32,
}

impl Registration {
    /// The region registered by the call, which gave `mr` with its
    /// keys.
    pub open spec fn region(self, mr: Handle, lkey: u32, rkey: u32) -> MemoryRegion {
        MemoryRegion { mr, pd: self.pd, addr: self.addr, size: self.length, lkey, rkey }
    }

    /// Judge what the call gave: the registration's handle, and behind
    /// it the keys.
    pub fn complete(self, mr: Handle, lkey: u32, rkey: u32) -> (result: Result<
        MemoryRegion,
        Error,
    >)
        ensures
            mr != 0 ==> result == Ok::<MemoryRegion, Error>(self.region(mr, lkey, rkey)),
            mr == 0 ==> (result matches Err(e) && calls::failed(e, "ibv_reg_mr"@, None)),
    {
        let mr: Handle = check_ptr("ibv_reg_mr", mr)?;
        Ok(MemoryRegion { mr, pd: self.pd, addr: self.addr, size: self.length, lkey, rkey })
    }
}

/// A protection domain: the verbs scope in which memory regions are
/// registered and queue pairs are created.
///
/// Connections created in the same domain share the rkeys of the
/// memory registered in it: that is how a group of readers gets access
/// to the same memory with one registration. A domain belongs to a
/// single device; accepting a connection through another device's
/// listener into it fails.
#[derive(Debug, Clone, Copy, PartialEq, Eq, Structural)]
pub struct ProtectionDomain {
    /// The device the domain belongs to.
    pub context: Handle,
    /// The domain's handle.
    pub pd: Handle,
}

/// The registration of `length` bytes at `addr` in `pd`: open to local
/// writes and to remote reads, writes and atomic operations.
pub open spec fn open_registration(pd: Handle, addr: u64, length: usize) -> Registration {
    Registration { pd, addr, length, access: 15 }
}

impl ProtectionDomain {
    /// Judge what allocating a domain on `context`'s device gave.
    pub fn allocated(context: Handle, pd: Handle) -> (result: Result<Self, Error>)
        ensures
            pd != 0 ==> result == Ok::<Self, Error>(ProtectionDomain { context, pd }),
            pd == 0 ==> (result matches Err(e) && calls::failed(e, "ibv_alloc_pd"@, None)),
    {
        let pd: Handle = check_ptr("ibv_alloc_pd", pd)?;
        Ok(ProtectionDomain { context, pd })
    }

    /// The domain's handle.
    pub fn raw(&self) -> (pd: Handle)
        ensures
            pd == self.pd,
    {
        self.pd
    }

    /// The device the domain belongs to.
    pub fn context(&self) -> (context: Handle)
        ensures
            context == self.context,
    {
        self.context
    }

    /// Register the memory at `addr`..`addr + size` in this protection
    /// domain.
    ///
    /// The memory must stay valid and unmoved while the region is
    /// alive, but no Rust reference to it needs to exist while it is
    /// being registered. The rkey is usable through every connection of
    /// this domain.
    pub fn register_addr(&self, addr: u64, size: usize) -> (result: Result<Registration, Error>)
        ensures
            size == 0 ==> result == Err::<Registration, Error>(Error::EmptyRegistration),
            size != 0 ==> result == Ok::<Registration, Error>(
                open_registration(self.pd, addr, size),
            ),
    {
        if size == 0 {
            return Err(Error::EmptyRegistration);
        }
        let access: u32 = codes::IBV_ACCESS_LOCAL_WRITE | codes::IBV_ACCESS_REMOTE_WRITE
            | codes::IBV_ACCESS_REMOTE_READ | codes::IBV_ACCESS_REMOTE_ATOMIC;
        assert(codes::IBV_ACCESS_LOCAL_WRITE | codes::IBV_ACCESS_REMOTE_WRITE
            | codes::IBV_ACCESS_REMOTE_READ | codes::IBV_ACCESS_REMOTE_ATOMIC == 15u32)
            by (bit_vector);
        Ok(Registration { pd: self.pd, addr, length: size, access })
    }

    /// Register `buffer` in this protection domain.
    ///
    /// The buffer may be modified remotely at any time while
    /// registered, through every connection of this domain. It must
    /// outlive the registered region without moving or being resized:
    /// release the region first.
    pub fn register(&self, buffer: &[u8]) -> (result: Result<Registration, Error>)
        ensures
            buffer@.len() == 0 ==> result == Err::<Registration, Error>(Error::EmptyRegistration),
            buffer@.len() != 0 ==> (result matches Ok(r) && r == open_registration(
                self.pd,
                r.addr,
                buffer.len(),
            ) && r.addr as nat % vstd::layout::align_of::<u8>() == 0 && r.addr + r.length
                <= usize::MAX),
            result matches Ok(r) ==> call_ensures(address_of::<u8>, (buffer,), r.addr),
    {
        proof {
            broadcast use vstd::layout::layout_of_primitives;

            assert(vstd::layout::size_of::<u8>() == 1);
        }
        self.register_addr(address_of(buffer), buffer.len())
    }

    /// The call that deallocates the domain.
    pub fn release(&self) -> (release: Release)
        ensures
            release == (Release::DeallocDomain { pd: self.pd }),
    {
        Release::DeallocDomain { pd: self.pd }
    }
}

/// An RDMA connection to a remote machine.
///
/// Set up by [`Connection::connect`](crate::rdma::Setup) or accepted by
/// a [`Listener`](crate::rdma::Listener). Each connection belongs to a
/// [`ProtectionDomain`]: the rkeys of the memory registered in it work
/// through the domain's connections, so connections sharing a domain (a
/// group of readers) share access.
#[derive(Debug, PartialEq, Eq)]
pub struct Connection {
    /// The communication identifier.
    pub id: Handle,
    /// Completion queue, created during the setup.
    pub cq: Handle,
    /// The protection domain, shared with the connection's group;
    /// absent until the resources are created.
    pub pd: Option<ProtectionDomain>,
    /// Event channel owned by this connection; accepted connections
    /// share the listener's channel and leave this null.
    pub event_channel: Handle,
    /// Work request ids, to match completions.
    pub next_wr_id: u64,
}

/// A one-sided work request (`struct ibv_send_wr`) of a single
/// scatter/gather entry.
#[derive(Debug, Clone, Copy, PartialEq, Eq)]
pub struct WorkRequest {
    pub wr_id: u64,
    pub opcode: i32,
    pub send_flags: u32,
    /// The local memory: address, length and key.
    pub local_addr: u64,
    pub length: u32,
    pub lkey: u32,
    /// The remote memory: address and key.
    pub remote_addr: u64,
    pub rkey: u32,
}

/// The opcode of an access.
pub open spec fn opcode(access: Access) -> i32 {
    match access {
        Access::Read => codes::IBV_WR_RDMA_READ,
        Access::Write => codes::IBV_WR_RDMA_WRITE,
    }
}

/// What one poll of a completion queue gave, asked for one completion.
#[derive(Debug, Clone, Copy, PartialEq, Eq)]
pub struct Poll {
    /// What `ibv_poll_cq` returned: how many completions it gave, or a
    /// negative error code.
    pub ret: i32,
    /// Whose completion it is, where it gave one.
    pub wr_id: u64,
    /// The completion's status.
    pub status: i32,
    /// The vendor's code for a failed completion.
    pub vendor_err: u32,
}

/// What to do after a poll.
#[derive(Debug, Clone, Copy, PartialEq, Eq, Structural)]
pub enum Progress {
    /// The access completed.
    Done,
    /// Poll again.
    Again,
}

/// A one-sided access that was requested of the device.
#[derive(Debug, Clone, Copy, PartialEq, Eq)]
pub struct Transfer {
    pub access: Access,
    pub request: WorkRequest,
}

impl Transfer {
    /// Judge what `ibv_post_send` returned for the request.
    pub fn posted(&self, ret: i32) -> (result: Result<(), Error>)
        ensures
            result is Ok <==> ret == 0,
            result matches Err(e) ==> calls::failed(e, "ibv_post_send"@, Some(ret)),
    {
        check("ibv_post_send", ret)
    }

    /// Whether `poll` gave the completion of this access.
    pub open spec fn completed_by(self, poll: Poll) -> bool {
        poll.ret == 1 && poll.wr_id == self.request.wr_id
    }

    /// Whether `poll` ends the wait for this access, before any
    /// deadline.
    pub open spec fn decided_by(self, poll: Poll) -> bool {
        poll.ret < 0 || self.completed_by(poll)
    }

    /// Judge one poll of the completion queue: `expired` says whether
    /// the access has waited long enough, and `status` names the
    /// completion's status. Completions of other requests (left by an
    /// access that timed out, say) are skipped.
    pub fn polled(&self, poll: Poll, expired: bool, status: String) -> (result: Result<
        Progress,
        Error,
    >)
        requires
            poll.ret > i32::MIN,
        ensures
            poll.ret < 0 ==> (result matches Err(e) && calls::failed(
                e,
                "ibv_poll_cq"@,
                Some((-poll.ret) as i32),
            )),
            self.completed_by(poll) && poll.status == codes::IBV_WC_SUCCESS ==> result == Ok::<
                Progress,
                Error,
            >(Progress::Done),
            self.completed_by(poll) && poll.status != codes::IBV_WC_SUCCESS ==> result == Err::<
                Progress,
                Error,
            >(
                Error::AccessFailed {
                    access: self.access,
                    status,
                    vendor_err: poll.vendor_err,
                },
            ),
            !self.decided_by(poll) && expired ==> result == Err::<Progress, Error>(
                Error::AccessTimedOut { access: self.access },
            ),
            !self.decided_by(poll) && !expired ==> result == Ok::<Progress, Error>(
                Progress::Again,
            ),
    {
        if poll.ret < 0 {
            check("ibv_poll_cq", -poll.ret)?;
        }
        if poll.ret == 1 && poll.wr_id == self.request.wr_id {
            if poll.status != codes::IBV_WC_SUCCESS {
                return Err(
                    Error::AccessFailed {
                        access: self.access,
                        status,
                        vendor_err: poll.vendor_err,
                    },
                );
            }
            return Ok(Progress::Done);
        }
        if expired {
            return Err(Error::AccessTimedOut { access: self.access });
        }
        Ok(Progress::Again)
    }
}

impl Connection {
    /// Whether an access of `len` bytes through the local region `mr`
    /// is sound; `None` if it is, and the error otherwise.
    pub open spec fn refusal(self, access: Access, mr: MemoryRegion, len: usize) -> Option<Error> {
        if len == 0 {
            Some(Error::NoBytes { access })
        } else if len > mr.size {
            Some(Error::ExceedsRegistration { access, len, registered: mr.size })
        } else if mr.pd != self.pd->0.pd {
            Some(Error::OtherDomain)
        } else {
            None
        }
    }

    /// The access of `len` bytes at `remote_addr`, keyed by `rkey`,
    /// from or into the start of `mr`. The device takes lengths modulo
    /// 2^32.
    pub open spec fn transfer(
        self,
        access: Access,
        mr: MemoryRegion,
        remote_addr: u64,
        rkey: u32,
        len: usize,
    ) -> Transfer {
        Transfer {
            access,
            request: WorkRequest {
                wr_id: self.next_wr_id,
                opcode: opcode(access),
                send_flags: codes::IBV_SEND_SIGNALED,
                local_addr: mr.addr,
                length: len as u32,
                lkey: mr.lkey,
                remote_addr,
                rkey,
            },
        }
    }

    /// Request an access, giving it the next work request id.
    fn request(
        &mut self,
        access: Access,
        mr: &MemoryRegion,
        remote_addr: u64,
        rkey: u32,
        len: usize,
    ) -> (result: Result<Transfer, Error>)
        requires
            0 < len <= mr.size ==> old(self).pd is Some,
            old(self).refusal(access, *mr, len) is None ==> old(self).next_wr_id < u64::MAX,
        ensures
            match old(self).refusal(access, *mr, len) {
                Some(e) => result == Err::<Transfer, Error>(e) && *final(self) == *old(self),
                None => {
                    &&& result == Ok::<Transfer, Error>(
                        old(self).transfer(access, *mr, remote_addr, rkey, len),
                    )
                    &&& *final(self) == (Connection {
                        next_wr_id: (old(self).next_wr_id + 1) as u64,
                        ..*old(self)
                    })
                },
            },
            result matches Ok(transfer) ==> {
                &&& transfer.access == access
                &&& transfer.request.wr_id == old(self).next_wr_id
                &&& transfer.request.local_addr == mr.addr
                &&& transfer.request.lkey == mr.lkey
                &&& transfer.request.remote_addr == remote_addr
                &&& transfer.request.rkey == rkey
                &&& transfer.request.length == len as u32
            },
    {
        if len == 0 {
            return Err(Error::NoBytes { access });
        }
        if len > mr.size {
            return Err(Error::ExceedsRegistration { access, len, registered: mr.size });
        }
        let pd: ProtectionDomain = self.pd.unwrap();
        if mr.pd != pd.raw() {
            return Err(Error::OtherDomain);
        }
        let wr_id: u64 = self.next_wr_id;
        self.next_wr_id = wr_id + 1;
        let opcode: i32 = match access {
            Access::Read => codes::IBV_WR_RDMA_READ,
            Access::Write => codes::IBV_WR_RDMA_WRITE,
        };
        Ok(
            Transfer {
                access,
                request: WorkRequest {
                    wr_id,
                    opcode,
                    send_flags: codes::IBV_SEND_SIGNALED,
                    local_addr: mr.addr,
                    length: len as u32,
                    lkey: mr.lkey,
                    remote_addr,
                    rkey,
                },
            },
        )
    }

    /// Read `len` bytes at `remote_addr` of the remote machine,
    /// accessed with `rkey`, into the first `len` bytes of `mr`, a
    /// region registered in this connection's protection domain.
    ///
    /// The access is then posted and its completion polled for, see
    /// [`Transfer`]. Out-of-bounds reads are detected by the remote
    /// machine and fail with a remote access error.
    pub fn read(
        &mut self,
        mr: &MemoryRegion,
        remote_addr: u64,
        rkey: u32,
        len: usize,
    ) -> (result: Result<Transfer, Error>)
        requires
            0 < len <= mr.size ==> old(self).pd is Some,
            old(self).refusal(Access::Read, *mr, len) is None ==> old(self).next_wr_id < u64::MAX,
        ensures
            match old(self).refusal(Access::Read, *mr, len) {
                Some(e) => result == Err::<Transfer, Error>(e) && *final(self) == *old(self),
                None => {
                    &&& result == Ok::<Transfer, Error>(
                        old(self).transfer(Access::Read, *mr, remote_addr, rkey, len),
                    )
                    &&& *final(self) == (Connection {
                        next_wr_id: (old(self).next_wr_id + 1) as u64,
                        ..*old(self)
                    })
                },
            },
            result matches Ok(transfer) ==> {
                &&& transfer.access == Access::Read
                &&& transfer.request.wr_id == old(self).next_wr_id
                &&& transfer.request.local_addr == mr.addr
                &&& transfer.request.lkey == mr.lkey
                &&& transfer.request.remote_addr == remote_addr
                &&& transfer.request.rkey == rkey
                &&& transfer.request.length == len as u32
            },
    {
        self.request(Access::Read, mr, remote_addr, rkey, len)
    }

    /// Write the first `len` bytes of `mr`, a region registered in this
    /// connection's protection domain, to `remote_addr` of the remote
    /// machine, accessed with `rkey`. Posted and polled for as a read.
    pub fn write(
        &mut self,
        mr: &MemoryRegion,
        remote_addr: u64,
        rkey: u32,
        len: usize,
    ) -> (result: Result<Transfer, Error>)
        requires
            0 < len <= mr.size ==> old(self).pd is Some,
            old(self).refusal(Access::Write, *mr, len) is None ==> old(self).next_wr_id < u64::MAX,
        ensures
            match old(self).refusal(Access::Write, *mr, len) {
                Some(e) => result == Err::<Transfer, Error>(e) && *final(self) == *old(self),
                None => {
                    &&& result == Ok::<Transfer, Error>(
                        old(self).transfer(Access::Write, *mr, remote_addr, rkey, len),
                    )
                    &&& *final(self) == (Connection {
                        next_wr_id: (old(self).next_wr_id + 1) as u64,
                        ..*old(self)
                    })
                },
            },
            result matches Ok(transfer) ==> {
                &&& transfer.access == Access::Write
                &&& transfer.request.wr_id == old(self).next_wr_id
                &&& transfer.request.local_addr == mr.addr
                &&& transfer.request.lkey == mr.lkey
                &&& transfer.request.remote_addr == remote_addr
                &&& transfer.request.rkey == rkey
                &&& transfer.request.length == len as u32
            },
    {
        self.request(Access::Write, mr, remote_addr, rkey, len)
    }

    /// The connection's protection domain: memory registered in it is
    /// accessible through this connection and any other connection
    /// created in the same domain.
    pub fn protection_domain(&self) -> (pd: ProtectionDomain)
        requires
            self.pd is Some,
        ensures
            Some(pd) == self.pd,
    {
        self.pd.unwrap()
    }

    /// Register `buffer` for RDMA access in this connection's
    /// protection domain, as [`ProtectionDomain::register`].
    pub fn register(&self, buffer: &[u8]) -> (result: Result<Registration, Error>)
        requires
            self.pd is Some,
        ensures
            buffer@.len() == 0 ==> result == Err::<Registration, Error>(Error::EmptyRegistration),
            buffer@.len() != 0 ==> (result matches Ok(r) && r == open_registration(
                self.pd->0.pd,
                r.addr,
                buffer.len(),
            ) && r.addr as nat % vstd::layout::align_of::<u8>() == 0 && r.addr + r.length
                <= usize::MAX),
            result matches Ok(r) ==> call_ensures(address_of::<u8>, (buffer,), r.addr),
    {
        self.protection_domain().register(buffer)
    }

    /// Register the memory at `addr`..`addr + size` in this
    /// connection's protection domain, as
    /// [`ProtectionDomain::register_addr`].
    pub fn register_addr(&self, addr: u64, size: usize) -> (result: Result<Registration, Error>)
        requires
            self.pd is Some,
        ensures
            size == 0 ==> result == Err::<Registration, Error>(Error::EmptyRegistration),
            size != 0 ==> result == Ok::<Registration, Error>(
                open_registration(self.pd->0.pd, addr, size),
            ),
    {
        self.protection_domain().register_addr(addr, size)
    }

    /// What giving the connection up takes, in order: the queue pair
    /// before the identifier it belongs to, and both before the
    /// completion queue and the event channel.
    pub open spec fn released(self, qp: Handle) -> Seq<Release> {
        let queue_pair = if self.id != 0 && qp != 0 {
            seq![
                Release::Disconnect { id: self.id },
                Release::DestroyQueuePair { id: self.id },
            ]
        } else {
            Seq::empty()
        };
        let identifier = if self.id != 0 {
            seq![Release::DestroyId { id: self.id }]
        } else {
            Seq::empty()
        };
        let queue = if self.cq != 0 {
            seq![Release::DestroyQueue { cq: self.cq }]
        } else {
            Seq::empty()
        };
        let channel = if self.event_channel != 0 {
            seq![Release::DestroyEventChannel { channel: self.event_channel }]
        } else {
            Seq::empty()
        };
        queue_pair + identifier + queue + channel
    }

    /// The calls that give the connection up, set up in full or in
    /// part; `qp` is the queue pair of its identifier, if it has one.
    /// The protection domain is given up after these, with its last
    /// user.
    pub fn release(&self, qp: Handle) -> (calls: Vec<Release>)
        ensures
            calls@ == self.released(qp),
    {
        let mut calls: Vec<Release> = Vec::new();
        if self.id != 0 {
            if qp != 0 {
                calls.push(Release::Disconnect { id: self.id });
                calls.push(Release::DestroyQueuePair { id: self.id });
            }
            calls.push(Release::DestroyId { id: self.id });
        }
        if self.cq != 0 {
            calls.push(Release::DestroyQueue { cq: self.cq });
        }
        if self.event_channel != 0 {
            calls.push(Release::DestroyEventChannel { channel: self.event_channel });
        }
        assert(calls@ =~= self.released(qp));
        calls
    }
}

} // verus!
