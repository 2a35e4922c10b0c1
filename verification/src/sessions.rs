//! A reader's session, on the provider's side.
//!
//! The reader greets, joins a group, and connects over RDMA, which is
//! accepted into the group's protection domain; then the catalog and
//! the group's tuples are served, and served again whenever the reader
//! asks, until it hangs up. The session is run step by step:
//! [`Session::next`] names what to do on the network, and
//! [`Session::advance`] takes what came of it.

use vstd::prelude::*;

use crate::error::{Error, Expected};
use crate::meta;
use crate::meta::{Message, MessageView};
use crate::rdma::verbs::Connection;
use crate::shared::Shared;

verus! {

/// The next thing to do in a session.
#[derive(Debug, Clone, Copy, PartialEq, Eq, Structural)]
pub enum SessionStep {
    /// Wait for the reader's greeting.
    AwaitGreeting,
    /// Reply to it.
    Welcome { version: u16 },
    /// Wait for the reader to join a group.
    AwaitGroup,
    /// Accept the reader's RDMA connection into the group's domain.
    Rendezvous { group: u32 },
    /// Serve the catalog and the group's tuples.
    Serve { group: u32 },
    /// Wait for the reader to ask for them again.
    AwaitUpdate { group: u32 },
    /// The session is over.
    Ended,
}

/// A reader's session.
#[derive(Debug, PartialEq, Eq)]
pub struct Session {
    pub step: SessionStep,
}

/// What to do on the network.
#[derive(Debug, PartialEq, Eq)]
pub enum SessionCall {
    /// Receive a message from the channel.
    Receive,
    /// Send this over the channel.
    Send { message: Message },
    /// Accept an RDMA connection, see
    /// [`Shared::rendezvous`](crate::shared::Shared::rendezvous).
    Accept { group: u32 },
    /// Create the group's tuples and send the two messages of
    /// [`Shared::catalog_and_tuples`](crate::shared::Shared::catalog_and_tuples).
    Serve { group: u32 },
}

/// What came of a [`SessionCall`] that did not fail.
#[derive(Debug, PartialEq, Eq)]
pub enum SessionReply {
    /// This message arrived.
    Received { message: Message },
    /// The message, or the exchange, is sent.
    Sent,
    /// This connection is established.
    Accepted { connection: Connection },
}

impl Session {
    /// Whether `reply` is of the form that this step waits for.
    pub open spec fn awaits(self, reply: SessionReply) -> bool {
        match self.step {
            SessionStep::AwaitGreeting => reply is Received,
            SessionStep::Welcome { .. } => reply is Sent,
            SessionStep::AwaitGroup => reply is Received,
            SessionStep::Rendezvous { .. } => reply is Accepted,
            SessionStep::Serve { .. } => reply is Sent,
            SessionStep::AwaitUpdate { .. } => reply is Received,
            SessionStep::Ended => false,
        }
    }

    /// Why the session ends with an error when it gets `reply`, if it
    /// does.
    pub open spec fn refusal(self, reply: SessionReply) -> Option<Error> {
        match self.step {
            SessionStep::AwaitGreeting => match reply->message {
                Message::Hello { version } => if version == meta::PROTOCOL_VERSION {
                    None
                } else {
                    Some(Error::ReaderVersion { version })
                },
                got => Some(Error::UnexpectedMessage { expected: Expected::Greeting, got }),
            },
            SessionStep::AwaitGroup => match reply->message {
                Message::WantGroup { .. } => None,
                got => Some(Error::UnexpectedMessage { expected: Expected::GroupJoin, got }),
            },
            _ => None,
        }
    }

    /// The step behind this one, which got `reply` without an error.
    /// Anything but a request for an update ends an open session.
    pub open spec fn following(self, reply: SessionReply) -> SessionStep {
        match self.step {
            SessionStep::AwaitGreeting => SessionStep::Welcome {
                version: reply->message->Hello_version,
            },
            SessionStep::Welcome { .. } => SessionStep::AwaitGroup,
            SessionStep::AwaitGroup => SessionStep::Rendezvous {
                group: reply->message->WantGroup_group,
            },
            SessionStep::Rendezvous { group } => SessionStep::Serve { group },
            SessionStep::Serve { group } => SessionStep::AwaitUpdate { group },
            SessionStep::AwaitUpdate { group } => if reply->message is Update {
                SessionStep::Serve { group }
            } else {
                SessionStep::Ended
            },
            SessionStep::Ended => SessionStep::Ended,
        }
    }

    /// Whether `call` is what the session does next.
    pub open spec fn calls(self, call: SessionCall) -> bool {
        match self.step {
            SessionStep::AwaitGreeting
            | SessionStep::AwaitGroup
            | SessionStep::AwaitUpdate { .. } => call == SessionCall::Receive,
            SessionStep::Welcome { version } => call matches SessionCall::Send { message }
                && message@ == (MessageView::Welcome { version }),
            SessionStep::Rendezvous { group } => call == (SessionCall::Accept { group }),
            SessionStep::Serve { group } => call == (SessionCall::Serve { group }),
            SessionStep::Ended => false,
        }
    }

    /// A session with a reader that has just connected.
    pub fn new() -> (session: Session)
        ensures
            session.step == SessionStep::AwaitGreeting,
    {
        Session { step: SessionStep::AwaitGreeting }
    }

    /// What the session does next; nothing once it is over.
    pub fn next(&self) -> (call: Option<SessionCall>)
        ensures
            self.step is Ended <==> call is None,
            call matches Some(call) ==> self.calls(call),
    {
        match self.step {
            SessionStep::AwaitGreeting
            | SessionStep::AwaitGroup
            | SessionStep::AwaitUpdate { .. } => Some(SessionCall::Receive),
            SessionStep::Welcome { version } => Some(
                SessionCall::Send { message: Message::Welcome { version } },
            ),
            SessionStep::Rendezvous { group } => Some(SessionCall::Accept { group }),
            SessionStep::Serve { group } => Some(SessionCall::Serve { group }),
            SessionStep::Ended => None,
        }
    }

    /// Take what came of the call that [`Self::next`] named. An error
    /// ends the session. An accepted connection joins its group.
    pub fn advance(&mut self, shared: &mut Shared, reply: SessionReply) -> (result: Result<
        (),
        Error,
    >)
        requires
            old(shared).wf(),
            old(self).awaits(reply),
            old(self).step matches SessionStep::Rendezvous { group } ==> old(shared).admits(
                group,
                reply->connection,
            ),
        ensures
            final(shared).wf(),
            match old(self).refusal(reply) {
                Some(e) => {
                    &&& result == Err::<(), Error>(e)
                    &&& final(self).step == SessionStep::Ended
                },
                None => {
                    &&& result == Ok::<(), Error>(())
                    &&& final(self).step == old(self).following(reply)
                },
            },
            final(shared).catalog == old(shared).catalog,
            final(shared).tuples == old(shared).tuples,
            match old(self).step {
                SessionStep::Rendezvous { group } => {
                    &&& final(shared).groups@.dom() == old(shared).groups@.dom().insert(group)
                    &&& forall|g: u32|
                        g != group && old(shared).groups@.contains_key(g) ==> (
                        #[trigger] final(shared).groups@[g]) == old(shared).groups@[g]
                    &&& final(shared).groups@[group].pd == old(shared).joined(
                        group,
                        reply->connection,
                    ).0
                    &&& final(shared).groups@[group].connections@ == old(shared).joined(
                        group,
                        reply->connection,
                    ).1
                },
                _ => *final(shared) == *old(shared),
            },
    {
        let step: SessionStep = self.step;
        self.step = SessionStep::Ended;
        match (step, reply) {
            (SessionStep::AwaitGreeting, SessionReply::Received { message }) => match message {
                Message::Hello { version } => {
                    if version != meta::PROTOCOL_VERSION {
                        return Err(Error::ReaderVersion { version });
                    }
                    self.step = SessionStep::Welcome { version };
                },
                got => {
                    return Err(Error::UnexpectedMessage { expected: Expected::Greeting, got });
                },
            },
            (SessionStep::Welcome { .. }, _) => {
                self.step = SessionStep::AwaitGroup;
            },
            (SessionStep::AwaitGroup, SessionReply::Received { message }) => match message {
                Message::WantGroup { group } => {
                    self.step = SessionStep::Rendezvous { group };
                },
                got => {
                    return Err(Error::UnexpectedMessage { expected: Expected::GroupJoin, got });
                },
            },
            (SessionStep::Rendezvous { group }, SessionReply::Accepted { connection }) => {
                shared.join(group, connection);
                self.step = SessionStep::Serve { group };
            },
            (SessionStep::Serve { group }, _) => {
                self.step = SessionStep::AwaitUpdate { group };
            },
            (SessionStep::AwaitUpdate { group }, SessionReply::Received { message }) => {
                if let Message::Update = message {
                    self.step = SessionStep::Serve { group };
                }
            },
            _ => {},
        }
        Ok(())
    }
}

} // verus!
