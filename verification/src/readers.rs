//! Client side: handles to memory regions exported by a remote machine.
//!
//! [`RemoteMemoryProvider`] reaches a remote
//! [`SharedMemoryRegionProvider`](crate::SharedMemoryRegionProvider)
//! and hands out [`RemoteMemoryRegion`]s to read from and write to.
//! [`RemoteMemoryProvider::update`] runs a group's session over the
//! metadata channel: greeting, joining the group, connecting over RDMA
//! (which the remote accepts into the group's protection domain), and
//! receiving the region catalog and the group's tuples. The session is
//! run step by step: [`RemoteMemoryProvider::next`] names what to do on
//! the network, and [`RemoteMemoryProvider::advance`] takes what came
//! of it.

use std::collections::HashMap;

use vstd::prelude::*;

use crate::cache;
use crate::cache::{find_entry, ingest_regions, CachedRegion, CachedRegionView, RegionEntry};
use crate::error::{Error, Expected};
use crate::meta;
use crate::meta::{Message, MessageView, RegionDesc, RegionDescView, TupleDesc};
use crate::rdma::verbs::Connection;
use crate::regions::{GroupConnection, RemoteMemoryRegion};

verus! {

broadcast use vstd::std_specs::hash::group_hash_axioms;

/// Data used to reach a remote machine running a memory provider.
///
/// Built by the client and handed to [`RemoteMemoryProvider::new`].
#[derive(Debug, Clone, PartialEq, Eq, Hash)]
pub struct RemoteMemoryProviderAddr {
    /// Address of the remote machine (IP or hostname).
    pub address: String,
    /// RDMA port the remote memory provider serves memory on.
    pub rdma_port: u16,
    /// TCP port the remote uses for the metadata exchange.
    pub tcp_port: u16,
}

impl RemoteMemoryProviderAddr {
    /// Describe a remote memory provider by address and ports.
    pub fn new(address: &str, rdma_port: u16, tcp_port: u16) -> (addr: Self)
        ensures
            addr.address@ == address@,
            addr.rdma_port == rdma_port,
            addr.tcp_port == tcp_port,
    {
        RemoteMemoryProviderAddr { address: address.to_owned(), rdma_port, tcp_port }
    }
}

impl Default for RemoteMemoryProviderAddr {
    /// No address, and no ports.
    fn default() -> (addr: Self)
        ensures
            addr.address@ == Seq::<char>::empty(),
            addr.rdma_port == 0,
            addr.tcp_port == 0,
    {
        RemoteMemoryProviderAddr { address: String::new(), rdma_port: 0, tcp_port: 0 }
    }
}

/// Metadata describing a memory region exported by a remote machine.
///
/// Returned by [`RemoteMemoryProvider::get_remote_mr_metadata`]; pass it
/// back to [`RemoteMemoryProvider::get_remote_mr`] to obtain the active
/// region. The element layout is what the sharing side registered the
/// region as: a typed read whose `T` does not match it fails instead of
/// reading garbage.
#[derive(Debug, Clone, PartialEq, Eq, Hash)]
pub struct RemoteMemoryRegionMetadata {
    /// Human-readable name of the region.
    pub name: String,
    /// Identifier of the region on the remote machine.
    pub id: u32,
    /// Size of the region, in bytes.
    pub size: usize,
    /// `size_of` of the element type the region is shared as.
    pub elem_size: u32,
    /// `align_of` of the element type the region is shared as.
    pub elem_align: u32,
    /// `std::any::type_name` of the element type, for diagnostics.
    pub elem_type: String,
}

/// What a [`RemoteMemoryRegionMetadata`] says.
pub struct MetadataView {
    pub name: Seq<char>,
    pub id: u32,
    pub size: usize,
    pub elem_size: u32,
    pub elem_align: u32,
    pub elem_type: Seq<char>,
}

impl View for RemoteMemoryRegionMetadata {
    type V = MetadataView;

    open spec fn view(&self) -> MetadataView {
        MetadataView {
            name: self.name@,
            id: self.id,
            size: self.size,
            elem_size: self.elem_size,
            elem_align: self.elem_align,
            elem_type: self.elem_type@,
        }
    }
}

/// What a list of metadata says, one by one.
pub open spec fn metadata_view(metadata: Seq<RemoteMemoryRegionMetadata>) -> Seq<MetadataView> {
    metadata.map_values(|region: RemoteMemoryRegionMetadata| region@)
}

/// A region of the catalog, as the reader's metadata says it.
pub open spec fn metadata_of(region: RegionDescView) -> MetadataView {
    MetadataView {
        name: region.name,
        id: region.id,
        size: region.size as usize,
        elem_size: region.elem_size,
        elem_align: region.elem_align,
        elem_type: region.elem_type,
    }
}

impl RemoteMemoryRegionMetadata {
    fn of(region: &RegionDesc) -> (metadata: Self)
        ensures
            metadata@ == metadata_of(region@),
    {
        RemoteMemoryRegionMetadata {
            name: region.name.clone(),
            id: region.id,
            size: region.size as usize,
            elem_size: region.elem_size,
            elem_align: region.elem_align,
            elem_type: region.elem_type.clone(),
        }
    }

    fn copy(&self) -> (copy: Self)
        ensures
            copy@ == self@,
    {
        RemoteMemoryRegionMetadata {
            name: self.name.clone(),
            id: self.id,
            size: self.size,
            elem_size: self.elem_size,
            elem_align: self.elem_align,
            elem_type: self.elem_type.clone(),
        }
    }
}

/// The reader's session with one group of the remote: the metadata
/// channel (re-requesting the catalog and the tuples is its whole job)
/// and the group's RDMA connection, which the group's regions are
/// accessed through.
#[derive(Debug, PartialEq, Eq)]
pub struct GroupSession {
    /// Whether the metadata channel is open: it is opened by the
    /// group's first [`RemoteMemoryProvider::update`], and dropped when
    /// an exchange fails, so the next update opens a fresh session.
    pub channel: bool,
    /// The group's RDMA connection, established by the session's
    /// rendezvous.
    pub connection: GroupConnection,
}

/// Handle to the memory regions exported by a remote machine.
///
/// Constructed from a [`RemoteMemoryProviderAddr`]; [`Self::update`]
/// runs a group's session with the remote. The RDMA connection of the
/// group is established as part of it, so nothing connects until the
/// first update.
#[derive(Debug)]
pub struct RemoteMemoryProvider {
    /// Where to reach the remote machine.
    pub addr: RemoteMemoryProviderAddr,
    /// Sessions by group, established by [`Self::update`].
    pub sessions: HashMap<u32, GroupSession>,
    /// Catalog of the remote's regions, as advertised by the remote.
    pub metadata: Vec<RemoteMemoryRegionMetadata>,
    /// Active regions; a region may expose several groups.
    pub regions: Vec<RegionEntry>,
}

/// The next thing to do in an update.
#[derive(Debug, PartialEq, Eq)]
pub enum UpdateStep {
    /// Open the metadata channel.
    Connect,
    /// Greet the remote.
    Greet,
    /// Wait for the greeting's reply.
    AwaitWelcome,
    /// Ask to join the group.
    JoinGroup,
    /// Connect over RDMA.
    Rendezvous,
    /// Re-request the catalog and the tuples, over a channel that is
    /// already open.
    Request,
    /// Wait for the catalog.
    AwaitCatalog,
    /// Wait for the tuples, behind the catalog.
    AwaitTuples { catalog: Message },
    /// The update is over.
    Finished,
}

/// An update of one group's tuples, in progress.
#[derive(Debug, PartialEq, Eq)]
pub struct Update {
    pub group: u32,
    /// Whether the update runs a fresh session.
    pub fresh: bool,
    pub step: UpdateStep,
}

/// What to do on the network.
#[derive(Debug, PartialEq, Eq)]
pub enum UpdateCall {
    /// Open a metadata channel to this address.
    OpenChannel { address: String, port: u16 },
    /// Send this over the channel.
    Send { message: Message },
    /// Receive a message from the channel.
    Receive,
    /// Establish an RDMA connection to this address.
    ConnectRdma { address: String, port: u16 },
}

/// What came of an [`UpdateCall`] that did not fail.
#[derive(Debug, PartialEq, Eq)]
pub enum UpdateReply {
    /// The channel is open.
    Opened,
    /// The message is sent.
    Sent,
    /// This message arrived.
    Received { message: Message },
    /// This connection is established.
    Connected { connection: Connection },
}

impl Update {
    /// Whether `reply` is of the form that this step waits for.
    pub open spec fn awaits(self, reply: UpdateReply) -> bool {
        match self.step {
            UpdateStep::Connect => reply is Opened,
            UpdateStep::Greet => reply is Sent,
            UpdateStep::AwaitWelcome => reply is Received,
            UpdateStep::JoinGroup => reply is Sent,
            UpdateStep::Rendezvous => reply is Connected,
            UpdateStep::Request => reply is Sent,
            UpdateStep::AwaitCatalog => reply is Received,
            UpdateStep::AwaitTuples { .. } => reply is Received,
            UpdateStep::Finished => false,
        }
    }

    /// The step behind this one.
    pub open spec fn following(self, reply: UpdateReply) -> UpdateStep {
        match self.step {
            UpdateStep::Connect => UpdateStep::Greet,
            UpdateStep::Greet => UpdateStep::AwaitWelcome,
            UpdateStep::AwaitWelcome => UpdateStep::JoinGroup,
            UpdateStep::JoinGroup => UpdateStep::Rendezvous,
            UpdateStep::Rendezvous => UpdateStep::AwaitCatalog,
            UpdateStep::Request => UpdateStep::AwaitCatalog,
            UpdateStep::AwaitCatalog => UpdateStep::AwaitTuples { catalog: reply->message },
            UpdateStep::AwaitTuples { .. } => UpdateStep::Finished,
            UpdateStep::Finished => UpdateStep::Finished,
        }
    }
}

/// What the remote's reply to the greeting is answered: an error,
/// unless it speaks this library's version.
pub open spec fn welcome_refusal(reply: Message) -> Option<Error> {
    match reply {
        Message::Welcome { version } => if version == meta::PROTOCOL_VERSION {
            None
        } else {
            Some(Error::RemoteVersion { version })
        },
        got => Some(Error::UnexpectedMessage { expected: Expected::GreetingReply, got }),
    }
}

/// Why two messages are not the exchange of `group`'s session, if they
/// are not.
pub open spec fn exchange_refusal(
    group: u32,
    catalog: MessageView,
    tuples: MessageView,
) -> Option<Error> {
    match (catalog, tuples) {
        (MessageView::Metadata { .. }, MessageView::Tuples { group: served, .. }) => if served
            != group {
            Some(Error::WrongGroup { served, group })
        } else {
            None
        },
        _ => Some(Error::NotAnExchange),
    }
}

/// The first cached tuple of a group, or of any group.
pub open spec fn first_cached(
    cached: Seq<CachedRegionView>,
    group: Option<u32>,
) -> Option<CachedRegionView>
    decreases cached.len(),
{
    if cached.len() == 0 {
        None
    } else if group is None || cached[0].group == group->0 {
        Some(cached[0])
    } else {
        first_cached(cached.drop_first(), group)
    }
}

/// Judge the remote's reply to the greeting.
fn check_welcome(reply: Message) -> (result: Result<(), Error>)
    ensures
        match welcome_refusal(reply) {
            Some(e) => result == Err::<(), Error>(e),
            None => result == Ok::<(), Error>(()),
        },
{
    match reply {
        Message::Welcome { version } => {
            if version == meta::PROTOCOL_VERSION {
                Ok(())
            } else {
                Err(Error::RemoteVersion { version })
            }
        },
        got => Err(Error::UnexpectedMessage { expected: Expected::GreetingReply, got }),
    }
}

impl RemoteMemoryProvider {
    /// No region is in the cache twice, and the sessions' connections
    /// are established.
    pub open spec fn wf(self) -> bool {
        &&& cache::distinct_keys(self.regions@)
        &&& forall|group: u32| #[trigger]
            self.sessions@.contains_key(group) ==> self.sessions@[group].connection.wf()
    }

    /// The cached tuples, by region.
    pub open spec fn cached(self) -> Map<cache::Key, Seq<CachedRegionView>> {
        cache::entries_map(self.regions@)
    }

    /// The session with `group`; an unused one if there is none.
    pub open spec fn session(self, group: u32) -> GroupSession {
        if self.sessions@.contains_key(group) {
            self.sessions@[group]
        } else {
            GroupSession { channel: false, connection: GroupConnection { connection: None } }
        }
    }

    /// Prepare a provider for the remote machine described by `addr`.
    ///
    /// Nothing connects here: the first [`Self::update`] runs a
    /// session, the metadata exchange and the group's RDMA connection.
    pub fn new(addr: RemoteMemoryProviderAddr) -> (provider: Self)
        ensures
            provider.wf(),
            provider.addr == addr,
            provider.sessions@ == Map::<u32, GroupSession>::empty(),
            provider.metadata@ == Seq::<RemoteMemoryRegionMetadata>::empty(),
            provider.cached() == Map::<cache::Key, Seq<CachedRegionView>>::empty(),
    {
        RemoteMemoryProvider {
            addr,
            sessions: HashMap::new(),
            metadata: Vec::new(),
            regions: Vec::new(),
        }
    }

    /// Metadata of the remote memory regions known to this provider.
    pub fn get_remote_mr_metadata(&self) -> (metadata: Vec<RemoteMemoryRegionMetadata>)
        ensures
            metadata_view(metadata@) == metadata_view(self.metadata@),
    {
        let mut metadata: Vec<RemoteMemoryRegionMetadata> = Vec::new();
        let mut i: usize = 0;
        while i < self.metadata.len()
            invariant
                i <= self.metadata.len(),
                metadata@.len() == i,
                forall|j: int| 0 <= j < i ==> (#[trigger] metadata@[j])@ == self.metadata@[j]@,
            decreases self.metadata.len() - i,
        {
            metadata.push(self.metadata[i].copy());
            i += 1;
        }
        assert(metadata_view(metadata@) =~= metadata_view(self.metadata@));
        metadata
    }

    /// Refresh the region metadata from the remote machine, for the
    /// tuples of `group`.
    ///
    /// Runs (or reuses) the group's session over the metadata channel:
    /// a fresh session greets the remote, joins the group, and connects
    /// over RDMA (the remote accepts that connection into the group's
    /// protection domain), then receives the region catalog and the
    /// group's tuples, which fill [`Self::get_remote_mr_metadata`] and
    /// the regions [`Self::get_remote_mr`] hands out. A repeated call
    /// re-requests both over the open channel, picking up regions the
    /// remote registered since; if that exchange fails, the channel is
    /// dropped and the next call runs a fresh session.
    pub fn update(&mut self, group: u32) -> (update: Update)
        requires
            old(self).wf(),
        ensures
            final(self).wf(),
            final(self).addr == old(self).addr,
            final(self).metadata == old(self).metadata,
            final(self).regions == old(self).regions,
            final(self).sessions@ == old(self).sessions@.insert(group, old(self).session(group)),
            update == (Update {
                group,
                fresh: !old(self).session(group).channel,
                step: if old(self).session(group).channel {
                    UpdateStep::Request
                } else {
                    UpdateStep::Connect
                },
            }),
    {
        let open: bool = match self.sessions.get(&group) {
            Some(session) => session.channel,
            None => {
                self.sessions.insert(
                    group,
                    GroupSession { channel: false, connection: GroupConnection::empty() },
                );
                false
            },
        };
        assert(self.sessions@ =~= old(self).sessions@.insert(group, old(self).session(group)));
        if open {
            Update { group, fresh: false, step: UpdateStep::Request }
        } else {
            Update { group, fresh: true, step: UpdateStep::Connect }
        }
    }

    /// Whether `call` is what `update` does next, with this provider's
    /// remote.
    pub open spec fn calls(self, update: Update, call: UpdateCall) -> bool {
        match update.step {
            UpdateStep::Connect => call matches UpdateCall::OpenChannel { address, port }
                && address@ == self.addr.address@ && port == self.addr.tcp_port,
            UpdateStep::Greet => call matches UpdateCall::Send { message } && message@ == (
            MessageView::Hello { version: meta::PROTOCOL_VERSION }),
            UpdateStep::JoinGroup => call matches UpdateCall::Send { message } && message@ == (
            MessageView::WantGroup { group: update.group }),
            UpdateStep::Rendezvous => call matches UpdateCall::ConnectRdma { address, port }
                && address@ == self.addr.address@ && port == self.addr.rdma_port,
            UpdateStep::Request => call matches UpdateCall::Send { message } && message@
                == MessageView::Update,
            UpdateStep::AwaitWelcome
            | UpdateStep::AwaitCatalog
            | UpdateStep::AwaitTuples { .. } => call == UpdateCall::Receive,
            UpdateStep::Finished => false,
        }
    }

    /// What `update` does next; nothing once it is over.
    pub fn next(&self, update: &Update) -> (call: Option<UpdateCall>)
        ensures
            update.step is Finished <==> call is None,
            call matches Some(call) ==> self.calls(*update, call),
    {
        match update.step {
            UpdateStep::Connect => Some(
                UpdateCall::OpenChannel {
                    address: self.addr.address.clone(),
                    port: self.addr.tcp_port,
                },
            ),
            UpdateStep::Greet => Some(
                UpdateCall::Send { message: Message::Hello { version: meta::PROTOCOL_VERSION } },
            ),
            UpdateStep::JoinGroup => Some(
                UpdateCall::Send { message: Message::WantGroup { group: update.group } },
            ),
            UpdateStep::Rendezvous => Some(
                UpdateCall::ConnectRdma {
                    address: self.addr.address.clone(),
                    port: self.addr.rdma_port,
                },
            ),
            UpdateStep::Request => Some(UpdateCall::Send { message: Message::Update }),
            UpdateStep::AwaitWelcome
            | UpdateStep::AwaitCatalog
            | UpdateStep::AwaitTuples { .. } => Some(UpdateCall::Receive),
            UpdateStep::Finished => None,
        }
    }

    /// The provider behind an exchange of `group`'s session, which gave
    /// these messages: the catalog replaces the metadata, and the cache
    /// has exactly its regions.
    pub open spec fn has_ingested(
        self,
        before: RemoteMemoryProvider,
        group: u32,
        catalog: MessageView,
        tuples: MessageView,
    ) -> bool {
        &&& metadata_view(self.metadata@) == catalog->regions.map_values(
            |region: RegionDescView| metadata_of(region),
        )
        &&& self.cached() == cache::ingested(
            before.cached(),
            group,
            catalog->regions,
            tuples->tuples,
        )
    }

    /// Fill the caches from the exchange of `group`'s session.
    pub fn ingest(&mut self, group: u32, catalog: Message, tuples: Message) -> (result: Result<
        (),
        Error,
    >)
        requires
            old(self).wf(),
        ensures
            final(self).wf(),
            final(self).addr == old(self).addr,
            final(self).sessions == old(self).sessions,
            match exchange_refusal(group, catalog@, tuples@) {
                Some(e) => {
                    &&& result == Err::<(), Error>(e)
                    &&& *final(self) == *old(self)
                },
                None => {
                    &&& result == Ok::<(), Error>(())
                    &&& final(self).has_ingested(*old(self), group, catalog@, tuples@)
                },
            },
    {
        match (catalog, tuples) {
            (Message::Metadata { regions }, Message::Tuples { group: served, tuples }) => {
                if served != group {
                    return Err(Error::WrongGroup { served, group });
                }
                self.ingest_lists(group, &regions, &tuples);
                Ok(())
            },
            _ => Err(Error::NotAnExchange),
        }
    }

    /// Fill the caches from a catalog and the tuples of `group`.
    fn ingest_lists(&mut self, group: u32, regions: &Vec<RegionDesc>, tuples: &Vec<TupleDesc>)
        requires
            old(self).wf(),
        ensures
            final(self).wf(),
            final(self).addr == old(self).addr,
            final(self).sessions == old(self).sessions,
            final(self).has_ingested(
                *old(self),
                group,
                MessageView::Metadata { regions: meta::descs_view(regions@) },
                MessageView::Tuples { group, tuples: tuples@ },
            ),
    {
        // The catalog is complete: it replaces the cached metadata.
        let mut metadata: Vec<RemoteMemoryRegionMetadata> = Vec::new();
        let mut i: usize = 0;
        while i < regions.len()
            invariant
                i <= regions.len(),
                metadata@.len() == i,
                forall|j: int|
                    0 <= j < i ==> (#[trigger] metadata@[j])@ == metadata_of(regions@[j]@),
            decreases regions.len() - i,
        {
            metadata.push(RemoteMemoryRegionMetadata::of(&regions[i]));
            i += 1;
        }
        assert(metadata_view(metadata@) =~= meta::descs_view(regions@).map_values(
            |region: RegionDescView| metadata_of(region),
        ));
        self.metadata = metadata;
        // Regions gone from the catalog are gone from the cache.
        self.regions = ingest_regions(&self.regions, group, regions, tuples);
    }

    /// Replace the session with `group`.
    fn set_session(&mut self, group: u32, session: GroupSession)
        requires
            old(self).wf(),
            session.connection.wf(),
        ensures
            final(self).wf(),
            final(self).addr == old(self).addr,
            final(self).metadata == old(self).metadata,
            final(self).regions == old(self).regions,
            final(self).sessions@ == old(self).sessions@.insert(group, session),
    {
        self.sessions.insert(group, session);
    }

    /// Take the session with `group` out, to change it.
    fn take_session(&mut self, group: u32) -> (session: GroupSession)
        requires
            old(self).wf(),
        ensures
            final(self).wf(),
            final(self).addr == old(self).addr,
            final(self).metadata == old(self).metadata,
            final(self).regions == old(self).regions,
            final(self).sessions@ == old(self).sessions@.remove(group),
            session == old(self).session(group),
    {
        match self.sessions.remove(&group) {
            Some(session) => session,
            None => GroupSession { channel: false, connection: GroupConnection::empty() },
        }
    }

    /// Why `update` ends with an error when it gets `reply`, if it
    /// does.
    pub open spec fn refusal(self, update: Update, reply: UpdateReply) -> Option<Error> {
        match update.step {
            UpdateStep::AwaitWelcome => welcome_refusal(reply->message),
            UpdateStep::AwaitTuples { catalog } => exchange_refusal(
                update.group,
                catalog@,
                reply->message@,
            ),
            _ => None,
        }
    }

    /// The sessions behind a step of `update` that got `reply`: the
    /// rendezvous fills the group's connection, and the end of the
    /// exchange leaves the channel open, unless the exchange is refused:
    /// its channel is dropped.
    pub open spec fn sessions_after(self, update: Update, reply: UpdateReply) -> Map<
        u32,
        GroupSession,
    > {
        let session = self.session(update.group);
        match update.step {
            UpdateStep::Rendezvous => self.sessions@.insert(
                update.group,
                GroupSession {
                    connection: GroupConnection { connection: Some(reply->connection) },
                    ..session
                },
            ),
            UpdateStep::AwaitTuples { .. } => self.sessions@.insert(
                update.group,
                GroupSession { channel: self.refusal(update, reply) is None, ..session },
            ),
            _ => self.sessions@,
        }
    }

    /// Take what came of the call that [`Self::next`] named. An error
    /// ends the update.
    pub fn advance(&mut self, update: &mut Update, reply: UpdateReply) -> (result: Result<(), Error>)
        requires
            old(self).wf(),
            old(update).awaits(reply),
            reply matches UpdateReply::Connected { connection } ==> connection.pd is Some,
        ensures
            final(self).wf(),
            final(self).addr == old(self).addr,
            final(self).sessions@ == old(self).sessions_after(*old(update), reply),
            match old(self).refusal(*old(update), reply) {
                Some(e) => {
                    &&& result == Err::<(), Error>(e)
                    &&& *final(update) == (Update { step: UpdateStep::Finished, ..*old(update) })
                },
                None => {
                    &&& result == Ok::<(), Error>(())
                    &&& *final(update) == (Update {
                        step: old(update).following(reply),
                        ..*old(update)
                    })
                },
            },
            if result is Ok && old(update).step is AwaitTuples {
                final(self).has_ingested(
                    *old(self),
                    old(update).group,
                    old(update).step->catalog@,
                    reply->message@,
                )
            } else {
                final(self).metadata == old(self).metadata && final(self).regions == old(
                    self,
                ).regions
            },
    {
        let mut step: UpdateStep = UpdateStep::Finished;
        core::mem::swap(&mut step, &mut update.step);
        match (step, reply) {
            (UpdateStep::Connect, _) => {
                update.step = UpdateStep::Greet;
            },
            (UpdateStep::Greet, _) => {
                update.step = UpdateStep::AwaitWelcome;
            },
            (UpdateStep::AwaitWelcome, UpdateReply::Received { message }) => {
                check_welcome(message)?;
                update.step = UpdateStep::JoinGroup;
            },
            (UpdateStep::JoinGroup, _) => {
                update.step = UpdateStep::Rendezvous;
            },
            (UpdateStep::Rendezvous, UpdateReply::Connected { connection }) => {
                let mut session: GroupSession = self.take_session(update.group);
                session.connection.connection = Some(connection);
                self.set_session(update.group, session);
                assert(self.sessions@ =~= old(self).sessions_after(*old(update), reply));
                update.step = UpdateStep::AwaitCatalog;
            },
            (UpdateStep::Request, _) => {
                update.step = UpdateStep::AwaitCatalog;
            },
            (UpdateStep::AwaitCatalog, UpdateReply::Received { message }) => {
                update.step = UpdateStep::AwaitTuples { catalog: message };
            },
            (UpdateStep::AwaitTuples { catalog }, UpdateReply::Received { message }) => {
                let result: Result<(), Error> = self.ingest(update.group, catalog, message);
                let mut session: GroupSession = self.take_session(update.group);
                session.channel = result.is_ok();
                self.set_session(update.group, session);
                assert(self.sessions@ =~= old(self).sessions_after(*old(update), reply));
                return result;
            },
            _ => {},
        }
        Ok(())
    }

    /// Give `update` up, because a call on the network failed. A
    /// channel that was open before is dead (the remote went away or
    /// the exchange broke), so the next update opens a fresh session.
    pub fn give_up(&mut self, update: Update)
        requires
            old(self).wf(),
        ensures
            final(self).wf(),
            final(self).addr == old(self).addr,
            final(self).metadata == old(self).metadata,
            final(self).regions == old(self).regions,
            final(self).sessions@ == if update.fresh {
                old(self).sessions@
            } else {
                old(self).sessions@.insert(
                    update.group,
                    GroupSession { channel: false, ..old(self).session(update.group) },
                )
            },
    {
        if !update.fresh {
            let mut session: GroupSession = self.take_session(update.group);
            session.channel = false;
            self.set_session(update.group, session);
            assert(self.sessions@ =~= old(self).sessions@.insert(
                update.group,
                GroupSession { channel: false, ..old(self).session(update.group) },
            ));
        }
    }

    /// What is handed out for a region: a cached tuple.
    pub open spec fn hands_out(cached: CachedRegionView, region: RemoteMemoryRegion) -> bool {
        &&& region.remote_addr == cached.remote_addr
        &&& region.size == cached.size
        &&& region.rkey == cached.rkey
        &&& region.group == cached.group
        &&& region.elem_size == cached.elem_size
        &&& region.elem_align == cached.elem_align
        &&& region.elem_type@ == cached.elem_type
    }

    /// The slot of `group`'s RDMA connection, which the group's regions
    /// are accessed through: the session's when one exists, an empty one
    /// otherwise (accesses through it fail: an update of the group is
    /// needed first).
    pub fn slot(&self, group: u32) -> (slot: &GroupConnection)
        requires
            self.wf(),
        ensures
            slot.wf(),
            *slot == self.session(group).connection,
    {
        match self.sessions.get(&group) {
            Some(session) => &session.connection,
            None => &GroupConnection { connection: None },
        }
    }

    /// Look up a remote memory region by its metadata.
    ///
    /// `group` selects a specific group; `None` picks any available
    /// region (the first known one). The returned region reports the
    /// group id that was used, and accesses go through that group's
    /// RDMA connection, in its [`Self::slot`]: also through one that a
    /// later session of the group establishes.
    pub fn get_remote_mr(
        &self,
        metadata: &RemoteMemoryRegionMetadata,
        group: Option<u32>,
    ) -> (found: Option<RemoteMemoryRegion>)
        requires
            self.wf(),
        ensures
            match first_cached(
                cache::known(self.cached(), (metadata.name@, metadata.id)),
                group,
            ) {
                Some(cached) => found matches Some(region) && Self::hands_out(cached, region),
                None => found is None,
            },
    {
        let entry: &RegionEntry = match find_entry(&self.regions, &metadata.name, metadata.id) {
            Some(i) => &self.regions[i],
            None => {
                return None;
            },
        };
        let ghost all: Seq<CachedRegionView> = cache::cached_view(entry.cached@);
        let mut i: usize = 0;
        assert(all.skip(0) =~= all);
        while i < entry.cached.len()
            invariant
                i <= entry.cached.len(),
                all == cache::cached_view(entry.cached@),
                all == cache::known(self.cached(), (metadata.name@, metadata.id)),
                first_cached(all.skip(i as int), group) == first_cached(all, group),
            decreases entry.cached.len() - i,
        {
            let cached: &CachedRegion = &entry.cached[i];
            assert(all.skip(i as int)[0] == cached@);
            assert(all.skip(i as int).drop_first() =~= all.skip(i + 1));
            let chosen: bool = match group {
                Some(g) => cached.group == g,
                None => true,
            };
            if chosen {
                return Some(
                    RemoteMemoryRegion {
                        remote_addr: cached.remote_addr,
                        size: cached.size,
                        rkey: cached.rkey,
                        group: cached.group,
                        elem_size: cached.elem_size,
                        elem_align: cached.elem_align,
                        elem_type: cached.elem_type.clone(),
                    },
                );
            }
            i += 1;
        }
        None
    }
}

} // verus!
