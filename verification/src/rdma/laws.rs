//! What holds of connections whatever the calls give.

use vstd::prelude::*;

use crate::error::Access;
use crate::rdma::calls::{Handle, Release, Reply};
use crate::rdma::setup::{Setup, Step};
use crate::rdma::verbs::{Connection, MemoryRegion, Poll, ProtectionDomain};

verus! {

/// Whether every call of a setup that starts as `setup` and gets
/// `replies` is answered, and accepted.
pub open spec fn goes_through(setup: Setup, replies: Seq<Reply>) -> bool
    decreases replies.len(),
{
    replies.len() == 0 || {
        &&& setup.call() is Some
        &&& setup.call()->0.answered_by(replies[0])
        &&& setup.accepts(replies[0])
        &&& goes_through(setup.advanced(replies[0]), replies.drop_first())
    }
}

/// Where a setup that gets `replies`, and accepts them, has come.
pub open spec fn after(setup: Setup, replies: Seq<Reply>) -> Setup
    decreases replies.len(),
{
    if replies.len() == 0 {
        setup
    } else {
        after(setup.advanced(replies[0]), replies.drop_first())
    }
}

/// Every accepted call keeps a setup well-formed: the connection has
/// what the calls so far created, and nothing else.
pub proof fn law_setups_stay_well_formed(setup: Setup, replies: Seq<Reply>)
    requires
        setup.wf(),
        goes_through(setup, replies),
    ensures
        after(setup, replies).wf(),
    decreases replies.len(),
{
    if replies.len() > 0 {
        law_setups_stay_well_formed(setup.advanced(replies[0]), replies.drop_first());
    }
}

/// An established connection has a protection domain and a completion
/// queue, and has made no request yet.
pub proof fn law_established_connections_are_complete(setup: Setup, replies: Seq<Reply>)
    requires
        setup.wf(),
        goes_through(setup, replies),
        after(setup, replies).call() is None,
    ensures
        after(setup, replies).step == Step::Established,
        after(setup, replies).connection.pd is Some,
        after(setup, replies).connection.pd->0.pd != 0,
        after(setup, replies).connection.cq != 0,
        after(setup, replies).connection.next_wr_id == 0,
{
    law_setups_stay_well_formed(setup, replies);
}

/// A connection accepted into a shared domain is created in that
/// domain, on the domain's device, and in no other.
pub proof fn law_accepted_connections_share_the_domain(
    setup: Setup,
    domain: ProtectionDomain,
    replies: Seq<Reply>,
)
    requires
        setup.wf(),
        setup.domain == Some(domain),
        goes_through(setup, replies),
    ensures
        after(setup, replies).domain == Some(domain),
        after(setup, replies).step == Step::Established ==> {
            &&& after(setup, replies).connection.pd == Some(domain)
            &&& after(setup, replies).context == domain.context
        },
    decreases replies.len(),
{
    law_setups_stay_well_formed(setup, replies);
    if replies.len() > 0 {
        law_accepted_connections_share_the_domain(
            setup.advanced(replies[0]),
            domain,
            replies.drop_first(),
        );
    }
}

/// A setup makes each call once, in a fixed order: the next step is
/// always further on, so a setup ends after at most twelve calls.
pub proof fn law_setups_end(setup: Setup, replies: Seq<Reply>)
    requires
        setup.wf(),
        goes_through(setup, replies),
    ensures
        replies.len() + Setup::rank(setup.step) <= Setup::rank(after(setup, replies).step),
        Setup::rank(after(setup, replies).step) <= 12,
    decreases replies.len(),
{
    if replies.len() > 0 {
        law_setups_end(setup.advanced(replies[0]), replies.drop_first());
    }
}

/// The connection behind `n` accesses that were requested.
pub open spec fn after_requests(connection: Connection, n: nat) -> Connection {
    Connection { next_wr_id: (connection.next_wr_id + n) as u64, ..connection }
}

/// Two accesses of one connection never share a work request id, so the
/// completion of one, however late, is never taken for the other's: the
/// later one skips it.
pub proof fn law_stale_completions_are_skipped(
    connection: Connection,
    between: nat,
    early: Access,
    early_mr: MemoryRegion,
    early_addr: u64,
    early_rkey: u32,
    early_len: usize,
    late: Access,
    late_mr: MemoryRegion,
    late_addr: u64,
    late_rkey: u32,
    late_len: usize,
    poll: Poll,
)
    requires
        connection.next_wr_id + 1 + between < u64::MAX,
        connection.transfer(early, early_mr, early_addr, early_rkey, early_len).completed_by(poll),
    ensures
        !after_requests(connection, 1 + between).transfer(
            late,
            late_mr,
            late_addr,
            late_rkey,
            late_len,
        ).decided_by(poll),
{
}

/// Giving a connection up, set up in full or in part, gives back what
/// it holds, each object once: the queue pair before its identifier,
/// and what it does not hold is left alone.
pub proof fn law_released_connections_leave_nothing(connection: Connection, qp: Handle)
    ensures
        ({
            let calls = connection.released(qp);
            let id = connection.id;
            let cq = connection.cq;
            let channel = connection.event_channel;
            &&& calls.no_duplicates()
            &&& calls.contains(Release::DestroyId { id }) <==> id != 0
            &&& calls.contains(Release::DestroyQueue { cq }) <==> cq != 0
            &&& calls.contains(Release::DestroyEventChannel { channel }) <==> channel != 0
            &&& id != 0 && qp != 0 ==> calls[0] == (Release::Disconnect { id }) && calls[1] == (
            Release::DestroyQueuePair { id }) && calls[2] == (Release::DestroyId { id })
            &&& id == 0 || qp == 0 ==> !calls.contains(Release::DestroyQueuePair { id })
        }),
{
    let calls = connection.released(qp);
    let id = connection.id;
    let cq = connection.cq;
    let channel = connection.event_channel;
    let p: int = if id != 0 && qp != 0 {
        2
    } else {
        0
    };
    let q: int = if id != 0 {
        p + 1
    } else {
        p
    };
    let c: int = if cq != 0 {
        q + 1
    } else {
        q
    };
    if id != 0 {
        assert(calls[p] == (Release::DestroyId { id }));
    }
    if cq != 0 {
        assert(calls[q] == (Release::DestroyQueue { cq }));
    }
    if channel != 0 {
        assert(calls[c] == (Release::DestroyEventChannel { channel }));
    }
}

} // verus!
