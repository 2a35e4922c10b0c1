//! Which inputs the library's calls take: every one that its callers can
//! come by, and not only those that are answered well.

use vstd::prelude::*;

use crate::meta::{read_frame, write_frame, Message};
use crate::pod::RemoteSafe;
use crate::providers::SharedMemoryRegionProvider;
use crate::rdma::calls::{Handle, Reply};
use crate::rdma::listener::{BindStep, Binding};
use crate::rdma::setup::{Setup, Step};
use crate::rdma::verbs::{Connection, MemoryRegion, Registration};
use crate::readers::{
    RemoteMemoryProvider, RemoteMemoryRegionMetadata, Update, UpdateReply, UpdateStep,
};
use crate::regions::RemoteMemoryRegion;
use crate::sessions::{Session, SessionReply, SessionStep};
use crate::shared::{Registrations, Shared, SharedTuple};
use crate::wire::Reader;

verus! {

/// Every access of bytes can be asked for, at any offset and of any
/// size, of a region that lies below the end of the address space.
pub proof fn law_byte_accesses_can_be_asked_for(
    region: &RemoteMemoryRegion,
    provider: &RemoteMemoryProvider,
    offset: u64,
    size: usize,
    target: &mut [u8],
    source: &[u8],
)
    requires
        provider.wf(),
        region.size < u64::MAX,
        region.remote_addr + region.size <= u64::MAX,
    ensures
        call_requires(RemoteMemoryRegion::read, (region, provider, offset, size)),
        call_requires(RemoteMemoryRegion::read_into, (region, provider, offset, size, target)),
        call_requires(RemoteMemoryRegion::write, (region, provider, offset, source)),
{
}

/// Every access of elements that have bytes can be asked for, whatever
/// the region is shared as, at any offset and of any number.
pub proof fn law_typed_accesses_can_be_asked_for<T: RemoteSafe>(
    region: &RemoteMemoryRegion,
    provider: &RemoteMemoryProvider,
    offset: u64,
    count: usize,
    target: &mut [T],
    source: &[T],
)
    requires
        provider.wf(),
        region.size < u64::MAX,
        region.remote_addr + region.size <= u64::MAX,
        0 < vstd::layout::size_of::<T>() <= usize::MAX,
    ensures
        call_requires(RemoteMemoryRegion::read_typed::<T>, (region, provider, offset, count)),
        call_requires(RemoteMemoryRegion::read_into_typed::<T>, (region, provider, offset, target)),
        call_requires(RemoteMemoryRegion::write_typed::<T>, (region, provider, offset, source)),
{
    let elem_size = vstd::layout::size_of::<T>() as int;
    let n = old(target)@.len() as int;
    let m = source@.len() as int;
    assert(offset * elem_size >= 0 && count * elem_size >= 0 && n * elem_size >= 0 && m
        * elem_size >= 0) by (nonlinear_arith)
        requires
            elem_size >= 0,
            n >= 0,
            m >= 0,
    ;
    assert((elem_size as usize) as int == elem_size);
}

/// Regions can be looked up, and updates started and given up, at any
/// time, and any two messages can be taken for an exchange.
pub proof fn law_readers_can_be_asked(
    provider: &RemoteMemoryProvider,
    changed: &mut RemoteMemoryProvider,
    metadata: &RemoteMemoryRegionMetadata,
    wanted: Option<u32>,
    group: u32,
    update: Update,
    catalog: Message,
    tuples: Message,
)
    requires
        provider.wf(),
        old(changed).wf(),
    ensures
        call_requires(RemoteMemoryProvider::get_remote_mr, (provider, metadata, wanted)),
        call_requires(RemoteMemoryProvider::slot, (provider, group)),
        call_requires(RemoteMemoryProvider::get_remote_mr_metadata, (provider,)),
        call_requires(RemoteMemoryProvider::next, (provider, &update)),
        call_requires(RemoteMemoryProvider::update, (changed, group)),
        call_requires(RemoteMemoryProvider::give_up, (changed, update)),
        call_requires(RemoteMemoryProvider::ingest, (changed, group, catalog, tuples)),
{
}

/// Every step of an update takes whatever comes of what it did: any
/// message where it receives, and any connection that is in a domain.
pub proof fn law_updates_take_every_reply(
    provider: &mut RemoteMemoryProvider,
    update: &mut Update,
    reply: UpdateReply,
)
    requires
        old(provider).wf(),
        match (old(update).step, reply) {
            (UpdateStep::Connect, UpdateReply::Opened) => true,
            (UpdateStep::Greet, UpdateReply::Sent) => true,
            (UpdateStep::AwaitWelcome, UpdateReply::Received { .. }) => true,
            (UpdateStep::JoinGroup, UpdateReply::Sent) => true,
            (UpdateStep::Rendezvous, UpdateReply::Connected { connection }) => connection.pd is Some,
            (UpdateStep::Request, UpdateReply::Sent) => true,
            (UpdateStep::AwaitCatalog, UpdateReply::Received { .. }) => true,
            (UpdateStep::AwaitTuples { .. }, UpdateReply::Received { .. }) => true,
            _ => false,
        },
    ensures
        call_requires(RemoteMemoryProvider::advance, (provider, update, reply)),
{
}

/// Buffers of every length, and of elements of every size but zero, can
/// be registered, as long as ids last.
pub proof fn law_every_buffer_can_be_registered<T: RemoteSafe>(
    provider: &mut SharedMemoryRegionProvider,
    name: &str,
    buffer: Vec<T>,
    id: u32,
    group: u32,
)
    requires
        old(provider).wf(),
        old(provider).shared.catalog@.len() < u32::MAX,
        vstd::layout::size_of::<T>() > 0,
    ensures
        call_requires(
            SharedMemoryRegionProvider::register_typed::<T>,
            (provider, name, buffer),
        ),
        call_requires(SharedMemoryRegionProvider::get_shared_mr, (&*old(provider), id, group)),
        call_requires(SharedMemoryRegionProvider::serve, (&*old(provider),)),
        call_requires(SharedMemoryRegionProvider::close, (provider,)),
{
}

/// Whatever a registration that was asked for gave can be taken.
pub proof fn law_pending_registrations_can_be_taken(
    shared: &mut Shared,
    id: u32,
    group: u32,
    registration: Registration,
    mr: Handle,
    lkey: u32,
    rkey: u32,
)
    requires
        old(shared).wf(),
        call_ensures(
            Shared::tuple_of,
            (&*old(shared), id, group),
            Ok(Some(SharedTuple::Pending(registration))),
        ),
    ensures
        call_requires(
            Shared::tuple_registered,
            (shared, id, group, registration, mr, lkey, rkey),
        ),
{
}

/// A pass can go on with whatever the registration it named gave.
pub proof fn law_passes_take_every_outcome(
    pass: &mut Registrations,
    shared: &mut Shared,
    id: u32,
    registration: Registration,
    mr: Handle,
    lkey: u32,
    rkey: u32,
)
    requires
        old(shared).wf(),
        call_ensures(
            Registrations::next,
            (&*old(pass), &*old(shared)),
            Some((id, registration)),
        ),
    ensures
        call_requires(Registrations::next, (&*old(pass), &*old(shared))),
        call_requires(
            Registrations::absorb,
            (pass, shared, id, registration, mr, lkey, rkey),
        ),
{
}

/// Every step of a session takes whatever comes of what it did: any
/// message where it receives, and any connection that is in a domain, in
/// the group's if the group has one.
pub proof fn law_sessions_take_every_reply(
    session: &mut Session,
    shared: &mut Shared,
    reply: SessionReply,
)
    requires
        old(shared).wf(),
        match (old(session).step, reply) {
            (SessionStep::AwaitGreeting, SessionReply::Received { .. }) => true,
            (SessionStep::Welcome { .. }, SessionReply::Sent) => true,
            (SessionStep::AwaitGroup, SessionReply::Received { .. }) => true,
            (SessionStep::Rendezvous { group }, SessionReply::Accepted { connection }) => {
                &&& connection.pd matches Some(pd)
                &&& pd.pd != 0
                &&& old(shared).groups@.contains_key(group) ==> pd == old(shared).groups@[group].pd
            },
            (SessionStep::Serve { .. }, SessionReply::Sent) => true,
            (SessionStep::AwaitUpdate { .. }, SessionReply::Received { .. }) => true,
            _ => false,
        },
    ensures
        call_requires(Session::advance, (session, shared, reply)),
{
}

/// Every message whose frame length can be computed can be written, and
/// any bytes can be read.
pub proof fn law_messages_can_be_written(
    stream: &mut Vec<u8>,
    msg: &Message,
    payload: Vec<u8>,
    countable: bool,
    reader: &mut Reader<'_>,
)
    requires
        call_ensures(Message::payload, (msg,), payload),
        call_ensures(Message::is_countable, (msg,), countable),
        old(reader).pos <= old(reader).buf@.len(),
    ensures
        countable <==> payload@.len() % 0x1_0000_0000 != 0xFFFF_FFFF,
        countable ==> call_requires(Message::encode, (msg,)),
        countable ==> call_requires(write_frame, (stream, msg)),
        call_requires(read_frame, (reader,)),
{
}

/// An established connection takes every access, whatever it is given.
pub proof fn law_connections_take_every_access(
    connection: &mut Connection,
    mr: &MemoryRegion,
    remote_addr: u64,
    rkey: u32,
    len: usize,
)
    requires
        old(connection).pd is Some,
        old(connection).next_wr_id < u64::MAX,
    ensures
        call_requires(Connection::read, (connection, mr, remote_addr, rkey, len)),
        call_requires(Connection::write, (connection, mr, remote_addr, rkey, len)),
{
}

/// Every step of a setup takes whatever its call gave.
pub proof fn law_setups_take_every_reply(setup: &mut Setup, reply: Reply)
    requires
        old(setup).wf(),
        match (old(setup).step, reply) {
            (Step::OpenChannel, Reply::Object(_)) => true,
            (Step::CreateId, Reply::Id { .. }) => true,
            (Step::ResolveAddr, Reply::Code(_)) => true,
            (Step::AwaitAddr, Reply::Event(_)) => true,
            (Step::ResolveRoute, Reply::Code(_)) => true,
            (Step::AwaitRoute, Reply::Event(_)) => true,
            (Step::AwaitRequest, Reply::Event(_)) => true,
            (Step::FindDevice, Reply::Object(_)) => true,
            (Step::AllocDomain, Reply::Object(_)) => true,
            (Step::CreateQueue, Reply::Object(_)) => true,
            (Step::CreateQueuePair, Reply::Code(_)) => true,
            (Step::Join, Reply::Code(_)) => true,
            (Step::AwaitEstablished, Reply::Event(_)) => true,
            _ => false,
        },
    ensures
        call_requires(Setup::next, (&*old(setup),)),
        call_requires(Setup::absorb, (setup, reply)),
{
}

/// Every step of a binding takes whatever its call gave.
pub proof fn law_bindings_take_every_reply(binding: &mut Binding, reply: Reply)
    requires
        match (old(binding).step, reply) {
            (BindStep::OpenChannel, Reply::Object(_)) => true,
            (BindStep::CreateId, Reply::Id { .. }) => true,
            (BindStep::BindAddr, Reply::Code(_)) => true,
            (BindStep::Listen, Reply::Code(_)) => true,
            _ => false,
        },
    ensures
        call_requires(Binding::absorb, (binding, reply)),
{
}

} // verus!
