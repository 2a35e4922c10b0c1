//! What the connections' functions give, said of the calls themselves:
//! what is asked of the device, and how its answers are judged.

use vstd::prelude::*;

use crate::error::{Access, Error};
use crate::rdma::calls::{
    check, check_ptr, conn_param, queue_pair, resolve_v4, Call, ConnParam, EventReply, Handle,
    QpInitAttr, Release, Reply, SockaddrIn, SocketAddr, SocketAddrV4,
};
use crate::rdma::listener::{BindStep, Binding, Listener};
use crate::rdma::setup::{Role, Setup, Step};
use crate::rdma::verbs::{
    address_of, Connection, MemoryRegion, Poll, Progress, ProtectionDomain, Registration, Transfer,
};

verus! {

/// A return value is an error unless it is zero, and a handle unless it
/// is not; the error names the call, and the value where there is one.
pub proof fn law_results_are_judged(
    call: &'static str,
    ret: i32,
    checked: Result<(), Error>,
    handle: Handle,
    found: Result<Handle, Error>,
)
    requires
        call_ensures(check, (call, ret), checked),
        call_ensures(check_ptr, (call, handle), found),
    ensures
        match checked {
            Ok(()) => ret == 0,
            Err(e) => ret != 0 && (e matches Error::CallFailed { call: c, code, .. } && c@ == call@
                && code == Some(ret)),
        },
        match found {
            Ok(h) => h == handle && handle != 0,
            Err(e) => handle == 0 && (e matches Error::CallFailed { call: c, code, .. } && c@
                == call@ && code is None),
        },
{
}

/// Memory is registered as it lies, in the domain asked, for local
/// writes and remote reads, writes and atomic operations; a registration
/// without bytes is refused.
pub proof fn law_memory_is_registered_as_it_lies(
    domain: &ProtectionDomain,
    addr: u64,
    size: usize,
    result: Result<Registration, Error>,
)
    requires
        call_ensures(ProtectionDomain::register_addr, (domain, addr, size), result),
    ensures
        match result {
            Ok(r) => size != 0 && r.pd == domain.pd && r.addr == addr && r.length == size
                && r.access == 15,
            Err(e) => size == 0 && e == Error::EmptyRegistration,
        },
{
}

/// A buffer is registered where it lies, whole.
pub proof fn law_buffers_are_registered_whole(
    domain: &ProtectionDomain,
    connection: &Connection,
    buffer: &[u8],
    result: Result<Registration, Error>,
    through: Result<Registration, Error>,
)
    requires
        call_ensures(ProtectionDomain::register, (domain, buffer), result),
        call_ensures(Connection::register, (connection, buffer), through),
        connection.pd is Some,
    ensures
        match result {
            Ok(r) => buffer@.len() != 0 && r.pd == domain.pd && call_ensures(
                address_of::<u8>,
                (buffer,),
                r.addr,
            ) && r.length == buffer@.len() && r.access == 15,
            Err(e) => buffer@.len() == 0 && e == Error::EmptyRegistration,
        },
        match through {
            Ok(r) => buffer@.len() != 0 && r.pd == connection.pd->0.pd && call_ensures(
                address_of::<u8>,
                (buffer,),
                r.addr,
            ) && r.length == buffer@.len() && r.access == 15,
            Err(e) => buffer@.len() == 0 && e == Error::EmptyRegistration,
        },
{
}

/// A registration that the device made is the region it was asked for,
/// with the keys it gave; its tuple is the region's address, size and
/// remote key.
pub proof fn law_made_registrations_are_the_region(
    registration: Registration,
    mr: Handle,
    lkey: u32,
    rkey: u32,
    result: Result<MemoryRegion, Error>,
    tuple: (u64, usize, u32),
)
    requires
        call_ensures(Registration::complete, (registration, mr, lkey, rkey), result),
        result matches Ok(region) ==> call_ensures(MemoryRegion::tuple, (&region,), tuple),
    ensures
        match result {
            Ok(region) => {
                &&& mr != 0
                &&& region.mr == mr
                &&& region.pd == registration.pd
                &&& region.addr == registration.addr
                &&& region.size == registration.length
                &&& region.lkey == lkey
                &&& region.rkey == rkey
                &&& tuple.0 == registration.addr
                &&& tuple.1 == registration.length
                &&& tuple.2 == rkey
            },
            Err(e) => mr == 0 && (e matches Error::CallFailed { call, code, .. } && call@
                == "ibv_reg_mr"@ && code is None),
        },
{
}

/// A read through a connection is refused without bytes, beyond the
/// local region, and for a region of another domain; otherwise it is
/// requested with the keys and addresses it was given, under the
/// connection's next id. (The device knows a read as opcode 4, and the
/// request to report its completion as flag 2.)
pub proof fn law_reads_request_what_they_are_given(
    connection: &mut Connection,
    mr: &MemoryRegion,
    remote_addr: u64,
    rkey: u32,
    len: usize,
    result: Result<Transfer, Error>,
)
    requires
        call_ensures(Connection::read, (connection, mr, remote_addr, rkey, len), result),
        old(connection).next_wr_id < u64::MAX,
    ensures
        match result {
            Ok(transfer) => {
                &&& 0 < len <= mr.size
                &&& mr.pd == old(connection).pd->0.pd
                &&& transfer.access == Access::Read
                &&& transfer.request.wr_id == old(connection).next_wr_id
                &&& transfer.request.opcode == 4
                &&& transfer.request.send_flags == 2
                &&& transfer.request.local_addr == mr.addr
                &&& len <= u32::MAX ==> transfer.request.length == len
                &&& transfer.request.lkey == mr.lkey
                &&& transfer.request.remote_addr == remote_addr
                &&& transfer.request.rkey == rkey
                &&& final(connection).next_wr_id == old(connection).next_wr_id + 1
            },
            Err(e) => {
                &&& *final(connection) == *old(connection)
                &&& if len == 0 {
                    e == (Error::NoBytes { access: Access::Read })
                } else if len > mr.size {
                    e == (Error::ExceedsRegistration {
                        access: Access::Read,
                        len,
                        registered: mr.size,
                    })
                } else {
                    mr.pd != old(connection).pd->0.pd && e == Error::OtherDomain
                }
            },
        },
        final(connection).id == old(connection).id,
        final(connection).cq == old(connection).cq,
        final(connection).pd == old(connection).pd,
        final(connection).event_channel == old(connection).event_channel,
{
}

/// A write through a connection is refused and requested as
/// [`law_reads_request_what_they_are_given`] says of a read. (The device
/// knows it as opcode 0.)
pub proof fn law_writes_request_what_they_are_given(
    connection: &mut Connection,
    mr: &MemoryRegion,
    remote_addr: u64,
    rkey: u32,
    len: usize,
    result: Result<Transfer, Error>,
)
    requires
        call_ensures(Connection::write, (connection, mr, remote_addr, rkey, len), result),
        old(connection).next_wr_id < u64::MAX,
    ensures
        match result {
            Ok(transfer) => {
                &&& 0 < len <= mr.size
                &&& mr.pd == old(connection).pd->0.pd
                &&& transfer.access == Access::Write
                &&& transfer.request.wr_id == old(connection).next_wr_id
                &&& transfer.request.opcode == 0
                &&& transfer.request.send_flags == 2
                &&& transfer.request.local_addr == mr.addr
                &&& len <= u32::MAX ==> transfer.request.length == len
                &&& transfer.request.lkey == mr.lkey
                &&& transfer.request.remote_addr == remote_addr
                &&& transfer.request.rkey == rkey
                &&& final(connection).next_wr_id == old(connection).next_wr_id + 1
            },
            Err(e) => {
                &&& *final(connection) == *old(connection)
                &&& if len == 0 {
                    e == (Error::NoBytes { access: Access::Write })
                } else if len > mr.size {
                    e == (Error::ExceedsRegistration {
                        access: Access::Write,
                        len,
                        registered: mr.size,
                    })
                } else {
                    mr.pd != old(connection).pd->0.pd && e == Error::OtherDomain
                }
            },
        },
        final(connection).id == old(connection).id,
        final(connection).cq == old(connection).cq,
        final(connection).pd == old(connection).pd,
        final(connection).event_channel == old(connection).event_channel,
{
}

/// An access is done when its own completion succeeds, and fails when
/// that fails, when polling fails, or when it has waited long enough;
/// completions of other requests are skipped.
pub proof fn law_completions_are_matched(
    transfer: &Transfer,
    poll: Poll,
    expired: bool,
    status: String,
    result: Result<Progress, Error>,
    ret: i32,
    posted: Result<(), Error>,
)
    requires
        call_ensures(Transfer::polled, (transfer, poll, expired, status), result),
        call_ensures(Transfer::posted, (transfer, ret), posted),
        poll.ret > i32::MIN,
    ensures
        ({
            let own = poll.ret == 1 && poll.wr_id == transfer.request.wr_id;
            if poll.ret < 0 {
                result matches Err(Error::CallFailed { call, code, .. }) && call@
                    == "ibv_poll_cq"@ && code == Some((-poll.ret) as i32)
            } else if own && poll.status == 0 {
                result == Ok::<Progress, Error>(Progress::Done)
            } else if own {
                result == Err::<Progress, Error>(
                    Error::AccessFailed {
                        access: transfer.access,
                        status,
                        vendor_err: poll.vendor_err,
                    },
                )
            } else if expired {
                result == Err::<Progress, Error>(
                    Error::AccessTimedOut { access: transfer.access },
                )
            } else {
                result == Ok::<Progress, Error>(Progress::Again)
            }
        }),
        match posted {
            Ok(()) => ret == 0,
            Err(e) => ret != 0 && (e matches Error::CallFailed { call, code, .. } && call@
                == "ibv_post_send"@ && code == Some(ret)),
        },
{
}

/// Giving a connection up gives back exactly what it holds, in order:
/// the queue pair, its identifier, the completion queue, the event
/// channel.
pub proof fn law_connections_are_released_in_order(
    connection: &Connection,
    qp: Handle,
    calls: Vec<Release>,
)
    requires
        call_ensures(Connection::release, (connection, qp), calls),
    ensures
        ({
            let id = connection.id;
            let pair: int = if id != 0 && qp != 0 {
                2
            } else {
                0
            };
            let identifier: int = if id != 0 {
                1
            } else {
                0
            };
            let queue: int = if connection.cq != 0 {
                1
            } else {
                0
            };
            let channel: int = if connection.event_channel != 0 {
                1
            } else {
                0
            };
            &&& calls@.len() == pair + identifier + queue + channel
            &&& pair == 2 ==> calls@[0] == (Release::Disconnect { id }) && calls@[1] == (
            Release::DestroyQueuePair { id })
            &&& identifier == 1 ==> calls@[pair] == (Release::DestroyId { id })
            &&& queue == 1 ==> calls@[pair + identifier] == (Release::DestroyQueue {
                cq: connection.cq,
            })
            &&& channel == 1 ==> calls@[pair + identifier + queue] == (
            Release::DestroyEventChannel { channel: connection.event_channel })
        }),
{
}

/// The address to use is the first that a name resolved to, which must
/// be an IPv4 one; on the wire its port is most significant byte first.
pub proof fn law_the_first_address_is_used(
    addrs: &[SocketAddr],
    result: Result<SocketAddrV4, Error>,
    sockaddr: SockaddrIn,
)
    requires
        call_ensures(resolve_v4, (addrs,), result),
        result matches Ok(addr) ==> call_ensures(SockaddrIn::from, (addr,), sockaddr),
    ensures
        match result {
            Ok(addr) => {
                &&& addrs@.len() > 0
                &&& addrs@[0] == SocketAddr::V4(addr)
                &&& sockaddr.sin_family == 2
                &&& sockaddr.sin_port@[0] * 256 + sockaddr.sin_port@[1] == addr.port
                &&& sockaddr.sin_addr == addr.ip
                &&& forall|i: int| 0 <= i < 8 ==> #[trigger] sockaddr.sin_zero@[i] == 0u8
            },
            Err(e) => if addrs@.len() == 0 {
                e == Error::UnresolvedAddress
            } else {
                addrs@[0] is V6 && e == Error::Ipv6Address
            },
        },
{
    if let Ok(addr) = result {
        assert(sockaddr.sin_port@[0] == (addr.port / 256) as u8);
        assert(sockaddr.sin_port@[1] == (addr.port % 256) as u8);
    }
}

/// The connection's parameters: three outstanding one-sided operations
/// each way, seven retries, no private data; a reliable queue pair (type
/// 2) of sixteen requests of one entry each, on one completion queue,
/// that reports every send.
pub proof fn law_connections_have_their_parameters(param: ConnParam, cq: Handle, attr: QpInitAttr)
    requires
        call_ensures(conn_param, (), param),
        call_ensures(queue_pair, (cq,), attr),
    ensures
        param.private_data_len == 0,
        param.responder_resources == 3,
        param.initiator_depth == 3,
        param.flow_control == 0,
        param.retry_count == 7,
        param.rnr_retry_count == 0,
        param.srq == 0,
        param.qp_num == 0,
        attr.send_cq == cq,
        attr.recv_cq == cq,
        attr.max_send_wr == 16,
        attr.max_recv_wr == 16,
        attr.max_send_sge == 1,
        attr.max_recv_sge == 1,
        attr.max_inline_data == 0,
        attr.qp_type == 2,
        attr.sq_sig_all == 1,
{
}

/// An event is taken if it is the one that is waited for, without a
/// status, and acknowledged; the first of these that fails is the error.
pub proof fn law_events_are_judged(
    event: EventReply,
    expected: i32,
    step: &'static str,
    waited: Result<(), Error>,
    requested: Result<Handle, Error>,
)
    requires
        call_ensures(EventReply::wait_event, (event, expected, step), waited),
        call_ensures(EventReply::connection_request, (event,), requested),
    ensures
        match waited {
            Ok(()) => event.ret == 0 && event.event == expected && event.status == 0 && event.ack
                == 0,
            Err(e) => if event.ret != 0 {
                e matches Error::CallFailed { call, code, .. } && call@ == step@ && code == Some(
                    event.ret,
                )
            } else if event.event != expected || event.status != 0 {
                e == (Error::UnexpectedEvent {
                    step,
                    expected: event.expected_name,
                    got: event.got_name,
                    status: event.status,
                })
            } else {
                event.ack != 0 && (e matches Error::CallFailed { call, code, .. } && call@
                    == "rdma_ack_cm_event"@ && code == Some(event.ack))
            },
        },
        match requested {
            Ok(id) => event.ret == 0 && event.event == 4 && event.status == 0 && event.ack == 0
                && id == event.id,
            Err(e) => if event.ret != 0 {
                e matches Error::CallFailed { call, code, .. } && call@ == "rdma_get_cm_event"@
                    && code == Some(event.ret)
            } else if event.event != 4 || event.status != 0 {
                e == (Error::NotAConnectionRequest { got: event.got_name, status: event.status })
            } else {
                event.ack != 0 && (e matches Error::CallFailed { call, code, .. } && call@
                    == "rdma_ack_cm_event"@ && code == Some(event.ack))
            },
        },
{
}

/// Connecting starts with nothing, towards the first address.
pub proof fn law_connecting_starts_with_nothing(
    addrs: &[SocketAddr],
    result: Result<Setup, Error>,
)
    requires
        call_ensures(Connection::connect, (addrs,), result),
    ensures
        match result {
            Ok(setup) => {
                &&& addrs@.len() > 0
                &&& addrs@[0] matches SocketAddr::V4(addr) && {
                    &&& setup.role matches Role::Connect { dst }
                    &&& dst.sin_family == 2
                    &&& dst.sin_port@[0] * 256 + dst.sin_port@[1] == addr.port
                    &&& dst.sin_addr == addr.ip
                }
                &&& setup.step == Step::OpenChannel
                &&& setup.events == 0
                &&& setup.domain is None
                &&& setup.connection.id == 0
                &&& setup.connection.cq == 0
                &&& setup.connection.pd is None
                &&& setup.connection.event_channel == 0
                &&& setup.connection.next_wr_id == 0
            },
            Err(e) => if addrs@.len() == 0 {
                e == Error::UnresolvedAddress
            } else {
                addrs@[0] is V6 && e == Error::Ipv6Address
            },
        },
{
    if let Ok(setup) = result {
        let dst = setup.role->dst;
        let addr = addrs@[0]->V4_0;
        assert(dst.sin_port@[0] == (addr.port / 256) as u8);
        assert(dst.sin_port@[1] == (addr.port % 256) as u8);
    }
}

/// What each step of a setup asks for: TCP-style identifiers (port space
/// 0x106), two seconds to resolve, sixteen completions, and in each
/// waiting step the event that ends it.
pub proof fn law_setup_steps_do_their_calls(setup: &Setup, call: Option<Call>)
    requires
        call_ensures(Setup::next, (setup,), call),
        setup.wf(),
    ensures
        ({
            let id = setup.connection.id;
            match setup.step {
                Step::OpenChannel => call == Some(Call::CreateEventChannel),
                Step::CreateId => call == Some(
                    Call::CreateId { channel: setup.events, port_space: 0x106 },
                ),
                Step::ResolveAddr => setup.role matches Role::Connect { dst } ==> call == Some(
                    Call::ResolveAddr { id, dst, timeout_ms: 2000 },
                ),
                Step::AwaitAddr => call == Some(
                    Call::GetEvent { channel: setup.events, expected: 0 },
                ),
                Step::ResolveRoute => call == Some(
                    Call::ResolveRoute { id, timeout_ms: 2000 },
                ),
                Step::AwaitRoute => call == Some(
                    Call::GetEvent { channel: setup.events, expected: 2 },
                ),
                Step::AwaitRequest => call == Some(
                    Call::GetEvent { channel: setup.events, expected: 4 },
                ),
                Step::FindDevice => call == Some(Call::DeviceOf { id }),
                Step::AllocDomain => call == Some(Call::AllocDomain { context: setup.context }),
                Step::CreateQueue => call == Some(
                    Call::CreateQueue { context: setup.context, size: 16 },
                ),
                Step::CreateQueuePair => call matches Some(
                    Call::CreateQueuePair { id: i, pd, attr },
                ) && i == id && pd == setup.domain->0.pd && attr.send_cq == setup.connection.cq
                    && attr.recv_cq == setup.connection.cq && attr.max_send_wr == 16
                    && attr.max_recv_wr == 16 && attr.max_send_sge == 1 && attr.max_recv_sge == 1
                    && attr.max_inline_data == 0 && attr.qp_type == 2 && attr.sq_sig_all == 1,
                Step::Join => match setup.role {
                    Role::Connect { .. } => call matches Some(Call::Connect { id: i, param }) && i
                        == id && param.responder_resources == 3 && param.initiator_depth == 3
                        && param.retry_count == 7 && param.private_data_len == 0,
                    Role::Accept => call matches Some(Call::Accept { id: i, param }) && i == id
                        && param.responder_resources == 3 && param.initiator_depth == 3
                        && param.retry_count == 7 && param.private_data_len == 0,
                },
                Step::AwaitEstablished => call == Some(
                    Call::GetEvent { channel: setup.events, expected: 9 },
                ),
                Step::Established => call is None,
            }
        }),
{
}

/// Where each step of a setup leads: what a call created becomes part of
/// the connection, the connection is in the domain that its queue pair
/// was created in, and a connection that arrives on another device than
/// a shared domain's is refused.
pub proof fn law_setup_steps_lead_on(setup: &mut Setup, reply: Reply, result: Result<(), Error>)
    requires
        call_ensures(Setup::absorb, (setup, reply), result),
        old(setup).wf(),
    ensures
        final(setup).role == old(setup).role,
        final(setup).connection.next_wr_id == old(setup).connection.next_wr_id,
        result is Err ==> final(setup).step == old(setup).step,
        !(old(setup).step is OpenChannel) ==> final(setup).events == old(setup).events
            && final(setup).connection.event_channel == old(setup).connection.event_channel,
        !(old(setup).step is CreateId)
            && !(old(setup).step is AwaitRequest)
            ==> final(setup).connection.id == old(setup).connection.id,
        !(old(setup).step is CreateQueue)
            ==> final(setup).connection.cq == old(setup).connection.cq,
        !(old(setup).step is CreateQueuePair)
            ==> final(setup).connection.pd == old(setup).connection.pd,
        !(old(setup).step is AllocDomain) ==> final(setup).domain == old(setup).domain,
        match (old(setup).step, reply) {
            (Step::OpenChannel, Reply::Object(channel)) => {
                &&& result is Ok <==> channel != 0
                &&& result is Ok ==> final(setup).step == Step::CreateId && final(setup).events
                    == channel && final(setup).connection.event_channel == channel
            },
            (Step::CreateId, Reply::Id { ret, id }) => {
                &&& result is Ok <==> ret == 0
                &&& final(setup).connection.id == id
                &&& result is Ok ==> final(setup).step == Step::ResolveAddr
            },
            (Step::ResolveAddr, Reply::Code(ret)) => {
                &&& result is Ok <==> ret == 0
                &&& result is Ok ==> final(setup).step == Step::AwaitAddr
            },
            (Step::AwaitAddr, Reply::Event(event)) => {
                &&& result is Ok <==> event.ret == 0 && event.event == 0 && event.status == 0
                    && event.ack == 0
                &&& result is Ok ==> final(setup).step == Step::ResolveRoute
            },
            (Step::ResolveRoute, Reply::Code(ret)) => {
                &&& result is Ok <==> ret == 0
                &&& result is Ok ==> final(setup).step == Step::AwaitRoute
            },
            (Step::AwaitRoute, Reply::Event(event)) => {
                &&& result is Ok <==> event.ret == 0 && event.event == 2 && event.status == 0
                    && event.ack == 0
                &&& result is Ok ==> final(setup).step == Step::FindDevice
            },
            (Step::AwaitRequest, Reply::Event(event)) => {
                &&& result is Ok <==> event.ret == 0 && event.event == 4 && event.status == 0
                    && event.ack == 0
                &&& result is Ok ==> final(setup).step == Step::FindDevice
                    && final(setup).connection.id == event.id
                &&& result is Err ==> final(setup).connection.id == old(setup).connection.id
            },
            (Step::FindDevice, Reply::Object(context)) => {
                &&& result is Ok <==> old(setup).domain is None || old(setup).domain->0.context
                    == context
                &&& result matches Err(e) ==> e == Error::OtherDevice
                &&& result is Ok ==> final(setup).context == context
                    && final(setup).step == if old(setup).domain is Some {
                    Step::CreateQueue
                } else {
                    Step::AllocDomain
                }
            },
            (Step::AllocDomain, Reply::Object(pd)) => {
                &&& result is Ok <==> pd != 0
                &&& result is Ok ==> final(setup).step == Step::CreateQueue && final(setup).domain
                    == Some(ProtectionDomain { context: old(setup).context, pd })
                &&& result is Err ==> final(setup).domain == old(setup).domain
            },
            (Step::CreateQueue, Reply::Object(cq)) => {
                &&& result is Ok <==> cq != 0
                &&& result is Ok ==> final(setup).step == Step::CreateQueuePair
                    && final(setup).connection.cq == cq
            },
            (Step::CreateQueuePair, Reply::Code(ret)) => {
                &&& result is Ok <==> ret == 0
                &&& result is Ok ==> final(setup).step == Step::Join
                    && final(setup).connection.pd == old(setup).domain
            },
            (Step::Join, Reply::Code(ret)) => {
                &&& result is Ok <==> ret == 0
                &&& result is Ok ==> final(setup).step == Step::AwaitEstablished
            },
            (Step::AwaitEstablished, Reply::Event(event)) => {
                &&& result is Ok <==> event.ret == 0 && event.event == 9 && event.status == 0
                    && event.ack == 0
                &&& result is Ok ==> final(setup).step == Step::Established
            },
            _ => true,
        },
{
}

/// The error of a setup's failed call names the call, and its return
/// value where it has one.
pub proof fn law_failed_setups_name_their_call(setup: &mut Setup, reply: Reply, e: Error)
    requires
        call_ensures(Setup::absorb, (setup, reply), Err(e)),
    ensures
        match (old(setup).step, reply) {
            (Step::OpenChannel, Reply::Object(_)) => e matches Error::CallFailed {
                call,
                code,
                ..
            } && call@ == "rdma_create_event_channel"@ && code is None,
            (Step::CreateId, Reply::Id { ret, .. }) => e matches Error::CallFailed { call, code, .. }
                && call@ == "rdma_create_id"@ && code == Some(ret),
            (Step::ResolveAddr, Reply::Code(ret)) => e matches Error::CallFailed { call, code, .. }
                && call@ == "rdma_resolve_addr"@ && code == Some(ret),
            (Step::ResolveRoute, Reply::Code(ret)) => e matches Error::CallFailed { call, code, .. }
                && call@ == "rdma_resolve_route"@ && code == Some(ret),
            (Step::AllocDomain, Reply::Object(_)) => e matches Error::CallFailed {
                call,
                code,
                ..
            } && call@ == "ibv_alloc_pd"@ && code is None,
            (Step::CreateQueue, Reply::Object(_)) => e matches Error::CallFailed {
                call,
                code,
                ..
            } && call@ == "ibv_create_cq"@ && code is None,
            (Step::CreateQueuePair, Reply::Code(ret)) => e matches Error::CallFailed {
                call,
                code,
                ..
            } && call@ == "rdma_create_qp"@ && code == Some(ret),
            (Step::Join, Reply::Code(ret)) => e matches Error::CallFailed { call, code, .. }
                && code == Some(ret) && call@ == match old(setup).role {
                Role::Connect { .. } => "rdma_connect"@,
                Role::Accept => "rdma_accept"@,
            },
            (Step::AwaitAddr, Reply::Event(event)) => if event.ret != 0 {
                e matches Error::CallFailed { call, code, .. } && call@ == "rdma_resolve_addr"@
                    && code
                    == Some(event.ret)
            } else if event.event != 0 || event.status != 0 {
                e matches Error::UnexpectedEvent { step, expected, got, status } && step@
                    == "rdma_resolve_addr"@ && expected == event.expected_name
                        && got == event.got_name
                    && status == event.status
            } else {
                e matches Error::CallFailed { call, code, .. } && call@ == "rdma_ack_cm_event"@
                    && code == Some(event.ack)
            },
            (Step::AwaitRoute, Reply::Event(event)) => if event.ret != 0 {
                e matches Error::CallFailed { call, code, .. } && call@ == "rdma_resolve_route"@
                    && code
                    == Some(event.ret)
            } else if event.event != 2 || event.status != 0 {
                e matches Error::UnexpectedEvent { step, expected, got, status } && step@
                    == "rdma_resolve_route"@ && expected == event.expected_name
                        && got == event.got_name
                    && status == event.status
            } else {
                e matches Error::CallFailed { call, code, .. } && call@ == "rdma_ack_cm_event"@
                    && code == Some(event.ack)
            },
            (Step::AwaitRequest, Reply::Event(event)) => if event.ret != 0 {
                e matches Error::CallFailed { call, code, .. } && call@ == "rdma_get_cm_event"@
                    && code == Some(event.ret)
            } else if event.event != 4 || event.status != 0 {
                e == (Error::NotAConnectionRequest { got: event.got_name, status: event.status })
            } else {
                e matches Error::CallFailed { call, code, .. } && call@ == "rdma_ack_cm_event"@
                    && code == Some(event.ack)
            },
            (Step::AwaitEstablished, Reply::Event(event)) => if event.ret != 0 {
                e matches Error::CallFailed { call, code, .. } && call@ == match old(setup).role {
                    Role::Connect { .. } => "rdma_connect"@,
                    Role::Accept => "rdma_accept"@,
                } && code
                    == Some(event.ret)
            } else if event.event != 9 || event.status != 0 {
                e matches Error::UnexpectedEvent { step, expected, got, status } && step@
                    == match old(setup).role {
                    Role::Connect { .. } => "rdma_connect"@,
                    Role::Accept => "rdma_accept"@,
                } && expected == event.expected_name && got == event.got_name
                    && status == event.status
            } else {
                e matches Error::CallFailed { call, code, .. } && call@ == "rdma_ack_cm_event"@
                    && code == Some(event.ack)
            },
            (Step::FindDevice, Reply::Object(_)) => e == Error::OtherDevice,
            _ => true,
        },
{
}

/// A binding asks for an event channel, an identifier, the address and
/// to listen, in this order, and goes on as each is given.
pub proof fn law_bindings_lead_on(
    binding: &mut Binding,
    call: Option<Call>,
    reply: Reply,
    result: Result<(), Error>,
)
    requires
        call_ensures(Binding::next, (&*old(binding),), call),
        call_ensures(Binding::absorb, (binding, reply), result),
    ensures
        final(binding).addr == old(binding).addr,
        result is Err ==> *final(binding) == *old(binding),
        match old(binding).step {
            BindStep::OpenChannel => {
                &&& call == Some(Call::CreateEventChannel)
                &&& reply matches Reply::Object(channel) ==> {
                    &&& result is Ok <==> channel != 0
                    &&& result is Ok ==> final(binding).step == BindStep::CreateId
                        && final(binding).event_channel == channel
                        && final(binding).id == old(binding).id
                    &&& result matches Err(e) ==> (e matches Error::CallFailed { call, code, .. }
                        && call@ == "rdma_create_event_channel"@ && code is None)
                }
            },
            BindStep::CreateId => {
                &&& call == Some(
                    Call::CreateId { channel: old(binding).event_channel, port_space: 0x106 },
                )
                &&& reply matches Reply::Id { ret, id } ==> {
                    &&& result is Ok <==> ret == 0
                    &&& result is Ok ==> final(binding).step == BindStep::BindAddr
                        && final(binding).id == id
                        && final(binding).event_channel == old(binding).event_channel
                    &&& result matches Err(e) ==> (e matches Error::CallFailed { call, code, .. }
                        && call@ == "rdma_create_id"@ && code == Some(ret))
                }
            },
            BindStep::BindAddr => {
                &&& call == Some(
                    Call::BindAddr { id: old(binding).id, addr: old(binding).addr },
                )
                &&& reply matches Reply::Code(ret) ==> {
                    &&& result is Ok <==> ret == 0
                    &&& result is Ok ==> final(binding).step == BindStep::Listen
                        && final(binding).id == old(binding).id
                        && final(binding).event_channel == old(binding).event_channel
                    &&& result matches Err(e) ==> (e matches Error::CallFailed { call, code, .. }
                        && call@ == "rdma_bind_addr"@ && code == Some(ret))
                }
            },
            BindStep::Listen => {
                &&& call == Some(Call::Listen { id: old(binding).id, backlog: 16 })
                &&& reply matches Reply::Code(ret) ==> {
                    &&& result is Ok <==> ret == 0
                    &&& result is Ok ==> final(binding).step == BindStep::Bound
                        && final(binding).id == old(binding).id
                        && final(binding).event_channel == old(binding).event_channel
                    &&& result matches Err(e) ==> (e matches Error::CallFailed { call, code, .. }
                        && call@ == "rdma_listen"@ && code == Some(ret))
                }
            },
            BindStep::Bound => call is None,
        },
{
}

/// A listener is bound at the first address, accepts on its own channel,
/// into the domain asked or a domain of its own, and is given up with
/// its identifier first.
pub proof fn law_listeners_accept_on_their_channel(
    addrs: &[SocketAddr],
    bound: Result<Binding, Error>,
    listener: &Listener,
    alone: Setup,
    pd: &ProtectionDomain,
    shared: Setup,
    calls: Vec<Release>,
)
    requires
        call_ensures(Listener::bind, (addrs,), bound),
        call_ensures(Listener::accept, (listener,), alone),
        call_ensures(Listener::accept_into, (listener, pd), shared),
        call_ensures(Listener::release, (listener,), calls),
    ensures
        match bound {
            Ok(binding) => {
                &&& addrs@.len() > 0
                &&& addrs@[0] matches SocketAddr::V4(addr) && {
                    &&& binding.addr.sin_family == 2
                    &&& binding.addr.sin_port@[0] * 256 + binding.addr.sin_port@[1] == addr.port
                    &&& binding.addr.sin_addr == addr.ip
                }
                &&& binding.step == BindStep::OpenChannel
            },
            Err(e) => if addrs@.len() == 0 {
                e == Error::UnresolvedAddress
            } else {
                addrs@[0] is V6 && e == Error::Ipv6Address
            },
        },
        alone.role == Role::Accept && shared.role == Role::Accept,
        alone.step == Step::AwaitRequest && shared.step == Step::AwaitRequest,
        alone.events == listener.event_channel && shared.events == listener.event_channel,
        alone.domain is None,
        shared.domain == Some(*pd),
        alone.connection.event_channel == 0 && shared.connection.event_channel == 0,
        calls@.len() == 2,
        calls@[0] == (Release::DestroyId { id: listener.id }),
        calls@[1] == (Release::DestroyEventChannel { channel: listener.event_channel }),
{
    if let Ok(binding) = bound {
        let addr = addrs@[0]->V4_0;
        assert(binding.addr.sin_port@[0] == (addr.port / 256) as u8);
        assert(binding.addr.sin_port@[1] == (addr.port % 256) as u8);
    }
}

/// Memory is registered through a connection in the connection's own
/// domain.
pub proof fn law_connections_register_in_their_domain(
    connection: &Connection,
    addr: u64,
    size: usize,
    result: Result<Registration, Error>,
)
    requires
        call_ensures(Connection::register_addr, (connection, addr, size), result),
    ensures
        match result {
            Ok(r) => size != 0 && r.pd == connection.pd->0.pd && r.addr == addr && r.length == size
                && r.access == 15,
            Err(e) => size == 0 && e == Error::EmptyRegistration,
        },
{
}

/// Giving a binding up gives back its identifier and its event channel,
/// once it has the identifier.
pub proof fn law_bindings_are_released(binding: &Binding, calls: Vec<Release>)
    requires
        call_ensures(Binding::release, (binding,), calls),
    ensures
        if binding.step == BindStep::OpenChannel || binding.step == BindStep::CreateId {
            calls@.len() == 0
        } else {
            &&& calls@.len() == 2
            &&& calls@[0] == (Release::DestroyId { id: binding.id })
            &&& calls@[1] == (Release::DestroyEventChannel { channel: binding.event_channel })
        },
{
}

} // verus!
