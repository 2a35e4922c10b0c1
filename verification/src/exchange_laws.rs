//! What holds of the two sides together: they understand each other,
//! and a reader sees what the provider shares.

use vstd::prelude::*;

use crate::cache;
use crate::cache::{CachedRegionView, Key};
use crate::error::{Access, Error};
use crate::meta;
use crate::meta::{Message, MessageView, RegionDescView};
use crate::meta_laws;
use crate::pod::RemoteSafe;
use crate::provider_laws;
use crate::providers::SharedMemoryRegionProvider;
use crate::rdma::calls::Reply;
use crate::rdma::laws;
use crate::rdma::listener::Listener;
use crate::rdma::setup::Step;
use crate::reader_laws;
use crate::readers;
use crate::readers::{RemoteMemoryProvider, Update, UpdateCall};
use crate::region_laws;
use crate::regions::{GroupConnection, RemoteMemoryRegion};
use crate::sessions::{Session, SessionCall, SessionReply, SessionStep};
use crate::shared::{RegionInfo, Shared};

verus! {

/// The provider accepts a reader's greeting, and the reader the reply:
/// what one side sends is what the other waits for.
pub proof fn law_greetings_are_understood(
    reader: RemoteMemoryProvider,
    update: Update,
    call: UpdateCall,
    session: Session,
    reply: SessionCall,
)
    requires
        update.step is Greet,
        reader.calls(update, call),
        session.step == SessionStep::AwaitGreeting,
        ({
            let greeted = session.following(SessionReply::Received { message: call->message });
            Session { step: greeted }.calls(reply)
        }),
    ensures
        session.refusal(SessionReply::Received { message: call->message }) is None,
        readers::welcome_refusal(reply->message) is None,
{
    assert(call->message is Hello);
    assert(reply->message is Welcome);
}

/// A reader's group join is understood: the provider goes on to accept
/// the reader into the group the update is for.
pub proof fn law_joins_are_understood(
    reader: RemoteMemoryProvider,
    update: Update,
    call: UpdateCall,
    session: Session,
)
    requires
        update.step is JoinGroup,
        reader.calls(update, call),
        session.step == SessionStep::AwaitGroup,
    ensures
        session.refusal(SessionReply::Received { message: call->message }) is None,
        session.following(SessionReply::Received { message: call->message }) == (
        SessionStep::Rendezvous { group: update.group }),
{
    assert(call->message is WantGroup);
}

/// A reader's re-request is understood: the provider serves the
/// session's group again.
pub proof fn law_requests_are_understood(
    reader: RemoteMemoryProvider,
    update: Update,
    call: UpdateCall,
    session: Session,
    group: u32,
)
    requires
        update.step is Request,
        reader.calls(update, call),
        session.step == (SessionStep::AwaitUpdate { group }),
    ensures
        session.following(SessionReply::Received { message: call->message }) == (
        SessionStep::Serve { group }),
{
    assert(call->message is Update);
}

/// Neither side goes on with a peer of another protocol version.
pub proof fn law_other_versions_are_refused(version: u16, session: Session)
    requires
        version != meta::PROTOCOL_VERSION,
        session.step == SessionStep::AwaitGreeting,
    ensures
        session.refusal(SessionReply::Received { message: Message::Hello { version } }) == Some(
            Error::ReaderVersion { version },
        ),
        readers::welcome_refusal(Message::Welcome { version }) == Some(
            Error::RemoteVersion { version },
        ),
{
}

/// A reader that is accepted as [`Shared::rendezvous`] says is admitted
/// to its group: the connection is in the group's domain.
pub proof fn law_accepted_readers_are_admitted(
    shared: Shared,
    listener: Listener,
    group: u32,
    replies: Seq<Reply>,
)
    requires
        shared.wf(),
        ({
            let setup = listener.accepting(shared.group_domain(group));
            &&& laws::goes_through(setup, replies)
            &&& laws::after(setup, replies).step == Step::Established
        }),
    ensures
        shared.admits(
            group,
            laws::after(listener.accepting(shared.group_domain(group)), replies).connection,
        ),
{
    let setup = listener.accepting(shared.group_domain(group));
    if shared.groups@.contains_key(group) {
        assert(shared.groups@[group].wf());
        laws::law_accepted_connections_share_the_domain(
            setup,
            shared.groups@[group].pd,
            replies,
        );
    }
    laws::law_established_connections_are_complete(setup, replies);
}

/// The catalog of a provider tells its regions apart.
proof fn lemma_advertised_is_found(shared: Shared, n: nat, id: u32)
    requires
        shared.wf(),
        id < n <= shared.catalog@.len(),
    ensures
        cache::last_desc(
            shared.advertised().take(n as int),
            (shared.catalog@[id as int].name@, id),
        ) == Some(shared.catalog@[id as int].advertised(id)),
    decreases n,
{
    let catalog = shared.advertised().take(n as int);
    let key: Key = (shared.catalog@[id as int].name@, id);
    if id < n - 1 {
        lemma_advertised_is_found(shared, (n - 1) as nat, id);
        assert(catalog.drop_last() =~= shared.advertised().take(n - 1));
        assert(catalog.last().id == (n - 1) as u32);
    } else {
        assert(catalog.last() == shared.catalog@[id as int].advertised(id));
    }
}

/// What a provider serves reaches a reader byte by byte: the reader
/// receives the catalog, then the tuples of the group, and takes them.
pub proof fn law_exchanges_arrive(shared: Shared, group: u32, rest: Seq<u8>)
    requires
        ({
            let catalog = MessageView::Metadata { regions: shared.advertised() };
            let tuples = MessageView::Tuples {
                group,
                tuples: shared.served(group, shared.catalog@.len()),
            };
            catalog.sendable() && tuples.sendable()
        }),
    ensures
        ({
            let catalog = MessageView::Metadata { regions: shared.advertised() };
            let tuples = MessageView::Tuples {
                group,
                tuples: shared.served(group, shared.catalog@.len()),
            };
            let sent = catalog.frame() + (tuples.frame() + rest);
            &&& meta::received(sent) == Ok::<(MessageView, Seq<u8>), Error>(
                (catalog, tuples.frame() + rest),
            )
            &&& meta::received(tuples.frame() + rest) == Ok::<(MessageView, Seq<u8>), Error>(
                (tuples, rest),
            )
            &&& readers::exchange_refusal(group, catalog, tuples) is None
        }),
{
    let catalog = MessageView::Metadata { regions: shared.advertised() };
    let tuples = MessageView::Tuples {
        group,
        tuples: shared.served(group, shared.catalog@.len()),
    };
    meta_laws::law_frames_round_trip(catalog, tuples.frame() + rest);
    meta_laws::law_frames_round_trip(tuples, rest);
}

/// After an update a reader knows what the provider shares: its
/// metadata is the provider's catalog, region by region.
pub proof fn law_readers_know_the_catalog(
    shared: Shared,
    group: u32,
    before: RemoteMemoryProvider,
    after: RemoteMemoryProvider,
    id: u32,
)
    requires
        shared.wf(),
        id < shared.catalog@.len(),
        after.has_ingested(
            before,
            group,
            MessageView::Metadata { regions: shared.advertised() },
            MessageView::Tuples { group, tuples: shared.served(group, shared.catalog@.len()) },
        ),
    ensures
        after.metadata@.len() == shared.catalog@.len(),
        ({
            let info = shared.catalog@[id as int];
            let known = after.metadata@[id as int];
            &&& known.id == id
            &&& known.name@ == info.name@
            &&& known.size == info.size
            &&& known.elem_size == info.elem_size
            &&& known.elem_align == info.elem_align
            &&& known.elem_type@ == info.elem_type@
        }),
{
    let sent = shared.advertised().map_values(
        |region: RegionDescView| readers::metadata_of(region),
    );
    assert(readers::metadata_view(after.metadata@) == sent);
    assert(readers::metadata_view(after.metadata@).len() == sent.len());
    assert(readers::metadata_view(after.metadata@)[id as int] == after.metadata@[id as int]@);
    assert(sent[id as int] == readers::metadata_of(shared.catalog@[id as int].advertised(id)));
    assert((shared.catalog@[id as int].size as u64) as usize == shared.catalog@[id as int].size);
}

/// After an update, the region that a reader looks up by the catalog's
/// metadata is the provider's: its address and size, the rkey of the
/// group's registration, and the layout it is shared as.
pub proof fn law_readers_reach_the_shared_regions(
    shared: Shared,
    group: u32,
    before: Map<Key, Seq<CachedRegionView>>,
    id: u32,
)
    requires
        shared.wf(),
        id < shared.catalog@.len(),
        shared.registered(id, group) is Some,
    ensures
        ({
            let info = shared.catalog@[id as int];
            let after = cache::ingested(
                before,
                group,
                shared.advertised(),
                shared.served(group, shared.catalog@.len()),
            );
            readers::first_cached(cache::known(after, (info.name@, id)), Some(group)) == Some(
                CachedRegionView {
                    remote_addr: info.remote_addr,
                    size: info.size,
                    rkey: shared.registered(id, group)->0.rkey,
                    group,
                    elem_size: info.elem_size,
                    elem_align: info.elem_align,
                    elem_type: info.elem_type@,
                },
            )
        }),
{
    let info = shared.catalog@[id as int];
    let n = shared.catalog@.len();
    let key: Key = (info.name@, id);
    lemma_advertised_is_found(shared, n, id);
    assert(shared.advertised().take(n as int) =~= shared.advertised());
    reader_laws::law_updated_regions_are_found(
        before,
        group,
        shared.advertised(),
        shared.served(group, n),
        key,
    );
    provider_laws::law_served_tuples_are_the_groups(shared, group, n, id);
    assert(shared.is_grounded(id, group));
    assert((info.size as u64) as usize == info.size);
}

/// The elements of a region can be read and written as what they were
/// registered as: every run of them passes the reader's checks, read at
/// its first element's byte or written at its first element, once the
/// group is connected.
pub proof fn law_registered_elements_are_accessible<T: RemoteSafe>(
    info: RegionInfo,
    name: Seq<char>,
    len: nat,
    region: RemoteMemoryRegion,
    slot: GroupConnection,
    access: Access,
    index: nat,
    offset: u64,
    count: usize,
)
    requires
        SharedMemoryRegionProvider::catalogs::<T>(info, name, len),
        region.remote_addr == info.remote_addr,
        region.size == info.size,
        region.elem_size == info.elem_size,
        region.elem_align == info.elem_align,
        slot.connection is Some,
        vstd::layout::size_of::<T>() > 0,
        vstd::layout::size_of::<T>() <= usize::MAX,
        0 < vstd::layout::align_of::<T>() <= usize::MAX,
        vstd::layout::size_of::<T>() % vstd::layout::align_of::<T>() == 0,
        0 < count,
        index + count <= len,
        index * vstd::layout::size_of::<T>() <= u64::MAX,
        offset == match access {
            Access::Read => index * vstd::layout::size_of::<T>(),
            Access::Write => index,
        },
    ensures
        ({
            let elem_size = vstd::layout::size_of::<T>() as usize;
            let elem_align = vstd::layout::align_of::<T>() as usize;
            &&& region.is_shared_as(elem_size, elem_align)
            &&& region.can_hold::<T>(access, offset, count as nat)
            &&& region.typed_refusal(
                slot,
                access,
                offset,
                count,
                elem_size,
                elem_align,
            ) is None
        }),
{
    let elem_size = vstd::layout::size_of::<T>() as usize;
    let elem_align = vstd::layout::align_of::<T>() as usize;
    assert(0 < count * elem_size && index * elem_size + count * elem_size
        <= info.size) by (nonlinear_arith)
        requires
            info.size == len * elem_size,
            index + count <= len,
            0 < count,
            0 < elem_size,
    ;
    region_laws::law_elements_are_aligned(
        region,
        slot,
        access,
        index,
        offset,
        count,
        elem_size,
        elem_align,
    );
}

} // verus!
