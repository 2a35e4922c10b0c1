//! Low-level RDMA commands.
//!
//! The primitive operations the rest of the library is built on:
//!
//! - connection creation, via [`Connection::connect`] (reader side) and
//!   [`Listener::bind`] + [`Listener::accept`] /
//!   [`Listener::accept_into`] (provider side; connections sharing a
//!   [`ProtectionDomain`] share the rkeys of the memory registered in
//!   it, which is how a group of readers gets shared access);
//! - tuple creation, via [`ProtectionDomain::register`] (or
//!   [`Connection::register`] on a connection's domain), which registers
//!   a local buffer for remote access and produces the (remote_addr,
//!   size, rkey) tuple remote readers need;
//! - one-sided accesses, via [`Connection::read`] and
//!   [`Connection::write`].
//!
//! Each operation is a sequence of calls into libibverbs and rdma_cm.
//! The calls are plain values here ([`Call`], [`Release`],
//! [`Registration`], [`WorkRequest`]), and so is what they give.

pub mod calls;
pub mod codes;
pub mod call_laws;
pub mod laws;
pub mod listener;
pub mod setup;
pub mod verbs;

pub use calls::{
    Call, ConnParam, EventReply, Handle, QpInitAttr, Release, Reply, SockaddrIn, SocketAddr,
    SocketAddrV4,
};
pub use listener::{Binding, Listener};
pub use setup::{Setup, Step};
pub use verbs::{
    Connection, MemoryRegion, Poll, Progress, ProtectionDomain, Registration, Transfer, WorkRequest,
};
