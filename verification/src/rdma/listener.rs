//! Listening for connection requests.

use vstd::prelude::*;

use crate::error::Error;
use crate::rdma::calls;
use crate::rdma::calls::{
    check, check_ptr, resolve_v4, Call, Handle, Release, Reply, SockaddrIn, SocketAddr,
};
use crate::rdma::codes;
use crate::rdma::setup;
use crate::rdma::setup::{Role, Setup, Step};
use crate::rdma::verbs::{Connection, ProtectionDomain};

verus! {

/// A listening RDMA endpoint.
///
/// Bound to a local address and port, it accepts [`Connection`]s, one
/// per remote reader.
#[derive(Debug, PartialEq, Eq)]
pub struct Listener {
    pub id: Handle,
    pub event_channel: Handle,
}

/// The next thing to do in a binding.
#[derive(Debug, Clone, Copy, PartialEq, Eq, Structural)]
pub enum BindStep {
    OpenChannel,
    CreateId,
    BindAddr,
    Listen,
    Bound,
}

/// A listener being bound.
#[derive(Debug, PartialEq, Eq)]
pub struct Binding {
    /// The address to listen at.
    pub addr: SockaddrIn,
    pub step: BindStep,
    pub id: Handle,
    pub event_channel: Handle,
}

impl Binding {
    /// The call to make next; none once the listener is bound.
    pub open spec fn call(self) -> Option<Call> {
        match self.step {
            BindStep::OpenChannel => Some(Call::CreateEventChannel),
            BindStep::CreateId => Some(
                Call::CreateId { channel: self.event_channel, port_space: codes::RDMA_PS_TCP },
            ),
            BindStep::BindAddr => Some(Call::BindAddr { id: self.id, addr: self.addr }),
            BindStep::Listen => Some(
                Call::Listen { id: self.id, backlog: codes::LISTEN_BACKLOG },
            ),
            BindStep::Bound => None,
        }
    }

    /// Whether what the call gave lets the binding go on.
    pub open spec fn accepts(self, reply: Reply) -> bool {
        match reply {
            Reply::Object(handle) => handle != 0,
            Reply::Id { ret, .. } => ret == 0,
            Reply::Code(ret) => ret == 0,
            Reply::Event(_) => false,
        }
    }

    /// The name of the call of a step.
    pub open spec fn call_name(step: BindStep) -> Seq<char> {
        match step {
            BindStep::OpenChannel => "rdma_create_event_channel"@,
            BindStep::CreateId => "rdma_create_id"@,
            BindStep::BindAddr => "rdma_bind_addr"@,
            BindStep::Listen => "rdma_listen"@,
            BindStep::Bound => Seq::empty(),
        }
    }

    /// The code that a call returned, where it returns one.
    pub open spec fn returned(reply: Reply) -> Option<i32> {
        match reply {
            Reply::Code(ret) => Some(ret),
            Reply::Id { ret, .. } => Some(ret),
            _ => None,
        }
    }

    /// The binding behind a call that gave `reply`, which it accepts.
    pub open spec fn advanced(self, reply: Reply) -> Binding {
        match (self.step, reply) {
            (BindStep::OpenChannel, Reply::Object(channel)) => Binding {
                event_channel: channel,
                step: BindStep::CreateId,
                ..self
            },
            (BindStep::CreateId, Reply::Id { id, .. }) => Binding {
                id,
                step: BindStep::BindAddr,
                ..self
            },
            (BindStep::BindAddr, _) => Binding { step: BindStep::Listen, ..self },
            _ => Binding { step: BindStep::Bound, ..self },
        }
    }

    /// The next call to make; none once the listener is bound.
    pub fn next(&self) -> (call: Option<Call>)
        ensures
            call == self.call(),
    {
        match self.step {
            BindStep::OpenChannel => Some(Call::CreateEventChannel),
            BindStep::CreateId => Some(
                Call::CreateId { channel: self.event_channel, port_space: codes::RDMA_PS_TCP },
            ),
            BindStep::BindAddr => Some(Call::BindAddr { id: self.id, addr: self.addr }),
            BindStep::Listen => Some(
                Call::Listen { id: self.id, backlog: codes::LISTEN_BACKLOG },
            ),
            BindStep::Bound => None,
        }
    }

    /// Take what the call named by [`Binding::next`] gave.
    pub fn absorb(&mut self, reply: Reply) -> (result: Result<(), Error>)
        requires
            old(self).call() is Some,
            old(self).call()->0.answered_by(reply),
        ensures
            result is Ok <==> old(self).accepts(reply),
            result is Ok ==> *final(self) == old(self).advanced(reply),
            result matches Err(e) ==> *final(self) == *old(self) && calls::failed(
                e,
                Self::call_name(old(self).step),
                Self::returned(reply),
            ),
    {
        match (self.step, reply) {
            (BindStep::OpenChannel, Reply::Object(channel)) => {
                let channel: Handle = check_ptr("rdma_create_event_channel", channel)?;
                self.event_channel = channel;
                self.step = BindStep::CreateId;
            },
            (BindStep::CreateId, Reply::Id { ret, id }) => {
                check("rdma_create_id", ret)?;
                self.id = id;
                self.step = BindStep::BindAddr;
            },
            (BindStep::BindAddr, Reply::Code(ret)) => {
                check("rdma_bind_addr", ret)?;
                self.step = BindStep::Listen;
            },
            (BindStep::Listen, Reply::Code(ret)) => {
                check("rdma_listen", ret)?;
                self.step = BindStep::Bound;
            },
            _ => {},
        }
        Ok(())
    }

    /// What giving a failed binding up takes: once there is an
    /// identifier, it and its event channel.
    pub open spec fn released(self) -> Seq<Release> {
        match self.step {
            BindStep::OpenChannel | BindStep::CreateId => Seq::empty(),
            _ => seq![
                Release::DestroyId { id: self.id },
                Release::DestroyEventChannel { channel: self.event_channel },
            ],
        }
    }

    /// The calls that give a failed binding up. A channel whose
    /// identifier could not be created stays open.
    pub fn release(&self) -> (calls: Vec<Release>)
        ensures
            calls@ == self.released(),
    {
        let mut calls: Vec<Release> = Vec::new();
        match self.step {
            BindStep::OpenChannel | BindStep::CreateId => {},
            _ => {
                calls.push(Release::DestroyId { id: self.id });
                calls.push(Release::DestroyEventChannel { channel: self.event_channel });
            },
        }
        assert(calls@ =~= self.released());
        calls
    }

    /// The bound listener.
    pub fn into_listener(self) -> (listener: Listener)
        requires
            self.step == BindStep::Bound,
        ensures
            listener == (Listener { id: self.id, event_channel: self.event_channel }),
    {
        Listener { id: self.id, event_channel: self.event_channel }
    }
}

impl Listener {
    /// Bind to the first of `addrs`, which an address resolved to, and
    /// listen for RDMA connection requests.
    ///
    /// A specific address selects the RDMA device of that interface; a
    /// wildcard address listens across devices. Accepted connections
    /// create their resources on the device they arrive on.
    pub fn bind(addrs: &[SocketAddr]) -> (result: Result<Binding, Error>)
        ensures
            match calls::resolved(addrs@) {
                Err(e) => result == Err::<Binding, Error>(e),
                Ok(v4) => {
                    &&& result matches Ok(binding)
                    &&& binding.addr.stands_for(v4)
                    &&& binding.step == BindStep::OpenChannel
                    &&& binding.id == 0
                    &&& binding.event_channel == 0
                },
            },
    {
        let addr: SockaddrIn = SockaddrIn::from(resolve_v4(addrs)?);
        Ok(Binding { addr, step: BindStep::OpenChannel, id: 0, event_channel: 0 })
    }

    /// The setup that accepts the next connection request: in `domain`,
    /// or in a domain of its own.
    pub open spec fn accepting(self, domain: Option<ProtectionDomain>) -> Setup {
        Setup {
            role: Role::Accept,
            step: Step::AwaitRequest,
            events: self.event_channel,
            context: 0,
            domain,
            connection: setup::nothing(),
        }
    }

    fn accept_impl(&self, domain: Option<ProtectionDomain>) -> (setup: Setup)
        ensures
            setup == self.accepting(domain),
    {
        Setup {
            role: Role::Accept,
            step: Step::AwaitRequest,
            events: self.event_channel,
            context: 0,
            domain,
            connection: Connection { id: 0, cq: 0, pd: None, event_channel: 0, next_wr_id: 0 },
        }
    }

    /// Wait for a connection request, and accept it, creating the
    /// connection's own protection domain.
    ///
    /// The setup creates the connection resources on the requested
    /// device, then accepts. The established event of an accepted
    /// connection is reported on this listener's event channel.
    pub fn accept(&self) -> (setup: Setup)
        ensures
            setup == self.accepting(None),
            setup.wf(),
    {
        self.accept_impl(None)
    }

    /// Wait for a connection request, and accept it into the shared
    /// protection domain `pd`.
    ///
    /// The queue pair is created in `pd`, so the rkeys of the memory
    /// registered in it work through this connection too: this is how
    /// the connections of one group share access. Fails, releasing the
    /// connection, if it arrives on a different device than the one
    /// `pd` belongs to.
    pub fn accept_into(&self, pd: &ProtectionDomain) -> (setup: Setup)
        requires
            pd.pd != 0,
        ensures
            setup == self.accepting(Some(*pd)),
            setup.wf(),
    {
        self.accept_impl(Some(*pd))
    }

    /// What giving the listener up takes.
    pub open spec fn released(self) -> Seq<Release> {
        seq![
            Release::DestroyId { id: self.id },
            Release::DestroyEventChannel { channel: self.event_channel },
        ]
    }

    /// The calls that give the listener up.
    pub fn release(&self) -> (calls: Vec<Release>)
        ensures
            calls@ == self.released(),
    {
        let mut calls: Vec<Release> = Vec::new();
        calls.push(Release::DestroyId { id: self.id });
        calls.push(Release::DestroyEventChannel { channel: self.event_channel });
        assert(calls@ =~= self.released());
        calls
    }
}

} // verus!
