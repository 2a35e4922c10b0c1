//! Setting a connection up, call by call.
//!
//! A [`Setup`] names the next call to make ([`Setup::next`]) and takes
//! what the call gave ([`Setup::absorb`]), until the connection is
//! established or a call has failed. Either way the connection as far
//! as it was set up is what [`Connection::release`] gives up.

use vstd::prelude::*;

use crate::error::Error;
use crate::rdma::calls;
use crate::rdma::calls::{
    check, check_ptr, conn_param, queue_pair, resolve_v4, Call, Handle, Reply, SockaddrIn,
    SocketAddr,
};
use crate::rdma::codes;
use crate::rdma::verbs::{Connection, ProtectionDomain};

verus! {

/// Which side of a connection is set up.
#[derive(Debug, Clone, Copy, PartialEq, Eq)]
pub enum Role {
    /// The reader's: connect to the machine listening at `dst`.
    Connect { dst: SockaddrIn },
    /// The provider's: accept a connection request.
    Accept,
}

/// The next thing to do in a setup.
#[derive(Debug, Clone, Copy, PartialEq, Eq, Structural)]
pub enum Step {
    /// Open the connection's own event channel.
    OpenChannel,
    /// Create the communication identifier.
    CreateId,
    /// Resolve the destination address.
    ResolveAddr,
    /// Wait for the address.
    AwaitAddr,
    /// Resolve the route to it.
    ResolveRoute,
    /// Wait for the route.
    AwaitRoute,
    /// Wait for a connection request.
    AwaitRequest,
    /// Find the device the connection is on.
    FindDevice,
    /// Allocate a protection domain on the device.
    AllocDomain,
    /// Create the completion queue on the device.
    CreateQueue,
    /// Create the queue pair in the domain.
    CreateQueuePair,
    /// Connect, or accept.
    Join,
    /// Wait for the connection.
    AwaitEstablished,
    /// The connection is established.
    Established,
}

/// A connection being set up.
#[derive(Debug, PartialEq, Eq)]
pub struct Setup {
    pub role: Role,
    pub step: Step,
    /// The event channel that the setup's events arrive on.
    pub events: Handle,
    /// The device the connection is on, once found.
    pub context: Handle,
    /// The protection domain the connection is to be created in, once
    /// there is one.
    pub domain: Option<ProtectionDomain>,
    /// The connection, as far as it is set up.
    pub connection: Connection,
}

/// A connection of which nothing exists yet.
pub open spec fn nothing() -> Connection {
    Connection { id: 0, cq: 0, pd: None, event_channel: 0, next_wr_id: 0 }
}

/// The event that a waiting step waits for.
pub open spec fn awaited(step: Step) -> i32 {
    match step {
        Step::AwaitAddr => codes::RDMA_CM_EVENT_ADDR_RESOLVED,
        Step::AwaitRoute => codes::RDMA_CM_EVENT_ROUTE_RESOLVED,
        Step::AwaitRequest => codes::RDMA_CM_EVENT_CONNECT_REQUEST,
        _ => codes::RDMA_CM_EVENT_ESTABLISHED,
    }
}

/// The call that a role joins a connection with.
pub open spec fn join_name(role: Role) -> &'static str {
    match role {
        Role::Connect { .. } => "rdma_connect",
        Role::Accept => "rdma_accept",
    }
}

impl Setup {
    /// The call to make next; none once the connection is established.
    pub open spec fn call(self) -> Option<Call> {
        let id = self.connection.id;
        match self.step {
            Step::OpenChannel => Some(Call::CreateEventChannel),
            Step::CreateId => Some(
                Call::CreateId { channel: self.events, port_space: codes::RDMA_PS_TCP },
            ),
            Step::ResolveAddr => Some(
                Call::ResolveAddr {
                    id,
                    dst: self.role->dst,
                    timeout_ms: codes::RESOLVE_TIMEOUT_MS,
                },
            ),
            Step::ResolveRoute => Some(
                Call::ResolveRoute { id, timeout_ms: codes::RESOLVE_TIMEOUT_MS },
            ),
            Step::AwaitAddr | Step::AwaitRoute | Step::AwaitRequest | Step::AwaitEstablished => Some(
                Call::GetEvent { channel: self.events, expected: awaited(self.step) },
            ),
            Step::FindDevice => Some(Call::DeviceOf { id }),
            Step::AllocDomain => Some(Call::AllocDomain { context: self.context }),
            Step::CreateQueue => Some(
                Call::CreateQueue { context: self.context, size: codes::CQ_SIZE },
            ),
            Step::CreateQueuePair => Some(
                Call::CreateQueuePair {
                    id,
                    pd: self.domain->0.pd,
                    attr: calls::spec_queue_pair(self.connection.cq),
                },
            ),
            Step::Join => Some(
                match self.role {
                    Role::Connect { .. } => Call::Connect { id, param: calls::spec_conn_param() },
                    Role::Accept => Call::Accept { id, param: calls::spec_conn_param() },
                },
            ),
            Step::Established => None,
        }
    }

    /// Whether what the call gave lets the setup go on.
    pub open spec fn accepts(self, reply: Reply) -> bool {
        match (self.step, reply) {
            // A domain that was handed in belongs to one device.
            (Step::FindDevice, Reply::Object(context)) => self.domain is Some
                ==> self.domain->0.context == context,
            (_, Reply::Object(handle)) => handle != 0,
            (_, Reply::Code(ret)) => ret == 0,
            (_, Reply::Id { ret, .. }) => ret == 0,
            (_, Reply::Event(event)) => event.is_good(awaited(self.step)),
        }
    }

    /// Whether `e` is the error of what the call gave.
    pub open spec fn refuses(self, reply: Reply, e: Error) -> bool {
        match (self.step, reply) {
            (Step::OpenChannel, _) => calls::failed(e, "rdma_create_event_channel"@, None),
            (Step::CreateId, Reply::Id { ret, .. }) => calls::failed(
                e,
                "rdma_create_id"@,
                Some(ret),
            ),
            (Step::ResolveAddr, Reply::Code(ret)) => calls::failed(
                e,
                "rdma_resolve_addr"@,
                Some(ret),
            ),
            (Step::AwaitAddr, Reply::Event(event)) => event.wait_failed(
                awaited(self.step),
                "rdma_resolve_addr",
                e,
            ),
            (Step::ResolveRoute, Reply::Code(ret)) => calls::failed(
                e,
                "rdma_resolve_route"@,
                Some(ret),
            ),
            (Step::AwaitRoute, Reply::Event(event)) => event.wait_failed(
                awaited(self.step),
                "rdma_resolve_route",
                e,
            ),
            (Step::AwaitRequest, Reply::Event(event)) => event.request_failed(e),
            (Step::FindDevice, _) => e == Error::OtherDevice,
            (Step::AllocDomain, _) => calls::failed(e, "ibv_alloc_pd"@, None),
            (Step::CreateQueue, _) => calls::failed(e, "ibv_create_cq"@, None),
            (Step::CreateQueuePair, Reply::Code(ret)) => calls::failed(
                e,
                "rdma_create_qp"@,
                Some(ret),
            ),
            (Step::Join, Reply::Code(ret)) => calls::failed(
                e,
                join_name(self.role)@,
                Some(ret),
            ),
            (Step::AwaitEstablished, Reply::Event(event)) => event.wait_failed(
                awaited(self.step),
                join_name(self.role),
                e,
            ),
            _ => false,
        }
    }

    /// The step behind this one.
    pub open spec fn following(self) -> Step {
        match self.step {
            Step::OpenChannel => Step::CreateId,
            Step::CreateId => Step::ResolveAddr,
            Step::ResolveAddr => Step::AwaitAddr,
            Step::AwaitAddr => Step::ResolveRoute,
            Step::ResolveRoute => Step::AwaitRoute,
            Step::AwaitRoute => Step::FindDevice,
            Step::AwaitRequest => Step::FindDevice,
            Step::FindDevice => if self.domain is Some {
                Step::CreateQueue
            } else {
                Step::AllocDomain
            },
            Step::AllocDomain => Step::CreateQueue,
            Step::CreateQueue => Step::CreateQueuePair,
            Step::CreateQueuePair => Step::Join,
            Step::Join => Step::AwaitEstablished,
            Step::AwaitEstablished => Step::Established,
            Step::Established => Step::Established,
        }
    }

    /// The setup behind a call that gave `reply`, which it accepts:
    /// what the call created is part of it.
    pub open spec fn advanced(self, reply: Reply) -> Setup {
        let after = Setup { step: self.following(), ..self };
        match (self.step, reply) {
            (Step::OpenChannel, Reply::Object(channel)) => Setup {
                events: channel,
                connection: Connection { event_channel: channel, ..self.connection },
                ..after
            },
            (Step::CreateId, Reply::Id { id, .. }) => Setup {
                connection: Connection { id, ..self.connection },
                ..after
            },
            (Step::AwaitRequest, Reply::Event(event)) => Setup {
                connection: Connection { id: event.id, ..self.connection },
                ..after
            },
            (Step::FindDevice, Reply::Object(context)) => Setup { context, ..after },
            (Step::AllocDomain, Reply::Object(pd)) => Setup {
                domain: Some(ProtectionDomain { context: self.context, pd }),
                ..after
            },
            (Step::CreateQueue, Reply::Object(cq)) => Setup {
                connection: Connection { cq, ..self.connection },
                ..after
            },
            (Step::CreateQueuePair, _) => Setup {
                connection: Connection { pd: self.domain, ..self.connection },
                ..after
            },
            _ => after,
        }
    }

    /// The setup as a call that it does not accept leaves it: an
    /// identifier that was left behind is part of it, to be given up.
    pub open spec fn abandoned(self, reply: Reply) -> Setup {
        match (self.step, reply) {
            (Step::CreateId, Reply::Id { id, .. }) => Setup {
                connection: Connection { id, ..self.connection },
                ..self
            },
            _ => self,
        }
    }

    /// How far a setup has come.
    pub open spec fn rank(step: Step) -> int {
        match step {
            Step::OpenChannel => 0,
            Step::CreateId => 1,
            Step::ResolveAddr => 2,
            Step::AwaitAddr => 3,
            Step::ResolveRoute => 4,
            Step::AwaitRoute => 5,
            Step::AwaitRequest => 5,
            Step::FindDevice => 6,
            Step::AllocDomain => 7,
            Step::CreateQueue => 8,
            Step::CreateQueuePair => 9,
            Step::Join => 10,
            Step::AwaitEstablished => 11,
            Step::Established => 12,
        }
    }

    /// What holds of a setup at every step: the connection has what the
    /// steps so far created, and nothing else.
    pub open spec fn wf(self) -> bool {
        let reached = Self::rank(self.step);
        &&& self.connection.next_wr_id == 0
        &&& match self.role {
            Role::Connect { .. } => {
                &&& self.step != Step::AwaitRequest
                &&& self.connection.event_channel == self.events
                &&& reached > 0 ==> self.events != 0
                &&& reached <= 7 ==> self.domain is None
            },
            Role::Accept => reached >= 5 && self.step != Step::AwaitRoute
                && self.connection.event_channel == 0,
        }
        &&& self.domain is Some ==> self.domain->0.pd != 0
        &&& self.step == Step::AllocDomain ==> self.domain is None
        &&& reached >= 8 ==> self.domain is Some && self.domain->0.context == self.context
        &&& reached <= 8 ==> self.connection.cq == 0
        &&& reached > 8 ==> self.connection.cq != 0
        &&& self.connection.pd == if reached > 9 {
            self.domain
        } else {
            None
        }
    }

    /// The next call to make; none once the connection is established.
    pub fn next(&self) -> (call: Option<Call>)
        requires
            self.wf(),
        ensures
            call == self.call(),
    {
        let id: Handle = self.connection.id;
        match self.step {
            Step::OpenChannel => Some(Call::CreateEventChannel),
            Step::CreateId => Some(
                Call::CreateId { channel: self.events, port_space: codes::RDMA_PS_TCP },
            ),
            Step::ResolveAddr => match self.role {
                Role::Connect { dst } => Some(
                    Call::ResolveAddr { id, dst, timeout_ms: codes::RESOLVE_TIMEOUT_MS },
                ),
                Role::Accept => None,
            },
            Step::AwaitAddr => self.wait_for(codes::RDMA_CM_EVENT_ADDR_RESOLVED),
            Step::ResolveRoute => Some(
                Call::ResolveRoute { id, timeout_ms: codes::RESOLVE_TIMEOUT_MS },
            ),
            Step::AwaitRoute => self.wait_for(codes::RDMA_CM_EVENT_ROUTE_RESOLVED),
            Step::AwaitRequest => self.wait_for(codes::RDMA_CM_EVENT_CONNECT_REQUEST),
            Step::FindDevice => Some(Call::DeviceOf { id }),
            Step::AllocDomain => Some(Call::AllocDomain { context: self.context }),
            Step::CreateQueue => Some(
                Call::CreateQueue { context: self.context, size: codes::CQ_SIZE },
            ),
            Step::CreateQueuePair => {
                let domain: ProtectionDomain = self.domain.unwrap();
                Some(
                    Call::CreateQueuePair {
                        id,
                        pd: domain.raw(),
                        attr: queue_pair(self.connection.cq),
                    },
                )
            },
            Step::Join => match self.role {
                Role::Connect { .. } => Some(Call::Connect { id, param: conn_param() }),
                Role::Accept => Some(Call::Accept { id, param: conn_param() }),
            },
            Step::AwaitEstablished => self.wait_for(codes::RDMA_CM_EVENT_ESTABLISHED),
            Step::Established => None,
        }
    }

    fn wait_for(&self, expected: i32) -> (call: Option<Call>)
        ensures
            call == Some(Call::GetEvent { channel: self.events, expected }),
    {
        Some(Call::GetEvent { channel: self.events, expected })
    }

    fn join(&self) -> (name: &'static str)
        ensures
            name == join_name(self.role),
    {
        match self.role {
            Role::Connect { .. } => "rdma_connect",
            Role::Accept => "rdma_accept",
        }
    }

    /// Take what the call named by [`Setup::next`] gave.
    pub fn absorb(&mut self, reply: Reply) -> (result: Result<(), Error>)
        requires
            old(self).wf(),
            old(self).call() is Some,
            old(self).call()->0.answered_by(reply),
        ensures
            final(self).wf(),
            result is Ok <==> old(self).accepts(reply),
            result is Ok ==> *final(self) == old(self).advanced(reply),
            result matches Err(e) ==> old(self).refuses(reply, e) && *final(self) == old(
                self,
            ).abandoned(reply),
    {
        match (self.step, reply) {
            (Step::OpenChannel, Reply::Object(channel)) => {
                let channel: Handle = check_ptr("rdma_create_event_channel", channel)?;
                self.events = channel;
                self.connection.event_channel = channel;
                self.step = Step::CreateId;
            },
            (Step::CreateId, Reply::Id { ret, id }) => {
                self.connection.id = id;
                check("rdma_create_id", ret)?;
                self.step = Step::ResolveAddr;
            },
            (Step::ResolveAddr, Reply::Code(ret)) => {
                check("rdma_resolve_addr", ret)?;
                self.step = Step::AwaitAddr;
            },
            (Step::AwaitAddr, Reply::Event(event)) => {
                event.wait_event(codes::RDMA_CM_EVENT_ADDR_RESOLVED, "rdma_resolve_addr")?;
                self.step = Step::ResolveRoute;
            },
            (Step::ResolveRoute, Reply::Code(ret)) => {
                check("rdma_resolve_route", ret)?;
                self.step = Step::AwaitRoute;
            },
            (Step::AwaitRoute, Reply::Event(event)) => {
                event.wait_event(codes::RDMA_CM_EVENT_ROUTE_RESOLVED, "rdma_resolve_route")?;
                self.step = Step::FindDevice;
            },
            (Step::AwaitRequest, Reply::Event(event)) => {
                let child: Handle = event.connection_request()?;
                self.connection.id = child;
                self.step = Step::FindDevice;
            },
            (Step::FindDevice, Reply::Object(context)) => {
                match self.domain {
                    Some(pd) => {
                        if pd.context() != context {
                            return Err(Error::OtherDevice);
                        }
                        self.step = Step::CreateQueue;
                    },
                    None => {
                        self.step = Step::AllocDomain;
                    },
                }
                self.context = context;
            },
            (Step::AllocDomain, Reply::Object(pd)) => {
                let domain: ProtectionDomain = ProtectionDomain::allocated(self.context, pd)?;
                self.domain = Some(domain);
                self.step = Step::CreateQueue;
            },
            (Step::CreateQueue, Reply::Object(cq)) => {
                let cq: Handle = check_ptr("ibv_create_cq", cq)?;
                self.connection.cq = cq;
                self.step = Step::CreateQueuePair;
            },
            (Step::CreateQueuePair, Reply::Code(ret)) => {
                check("rdma_create_qp", ret)?;
                self.connection.pd = self.domain;
                self.step = Step::Join;
            },
            (Step::Join, Reply::Code(ret)) => {
                check(self.join(), ret)?;
                self.step = Step::AwaitEstablished;
            },
            (Step::AwaitEstablished, Reply::Event(event)) => {
                event.wait_event(codes::RDMA_CM_EVENT_ESTABLISHED, self.join())?;
                self.step = Step::Established;
            },
            _ => {},
        }
        Ok(())
    }

    /// The connection, as far as it is set up.
    pub fn into_connection(self) -> (connection: Connection)
        ensures
            connection == self.connection,
    {
        self.connection
    }
}

impl Connection {
    /// Connect to the remote machine listening at the first of `addrs`,
    /// which an address resolved to.
    ///
    /// The setup resolves the address and route, creates the connection
    /// resources in a protection domain of their own, and establishes
    /// the connection.
    pub fn connect(addrs: &[SocketAddr]) -> (result: Result<Setup, Error>)
        ensures
            match calls::resolved(addrs@) {
                Err(e) => result == Err::<Setup, Error>(e),
                Ok(v4) => {
                    &&& result matches Ok(setup)
                    &&& setup.wf()
                    &&& setup.role matches Role::Connect { dst }
                    &&& dst.stands_for(v4)
                    &&& setup == (Setup {
                        role: setup.role,
                        step: Step::OpenChannel,
                        events: 0,
                        context: 0,
                        domain: None,
                        connection: nothing(),
                    })
                },
            },
    {
        let dst: SockaddrIn = SockaddrIn::from(resolve_v4(addrs)?);
        Ok(
            Setup {
                role: Role::Connect { dst },
                step: Step::OpenChannel,
                events: 0,
                context: 0,
                domain: None,
                connection: Connection { id: 0, cq: 0, pd: None, event_channel: 0, next_wr_id: 0 },
            },
        )
    }
}

} // verus!
