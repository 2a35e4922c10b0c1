//! The numbers of the verbs and connection manager interfaces.

use vstd::prelude::*;

verus! {

/// RDMA port space used by the connections: TCP-style, reliable.
pub const RDMA_PS_TCP: i32 = 0x0106;

/// Timeout of the address and route resolution, in milliseconds.
pub const RESOLVE_TIMEOUT_MS: i32 = 2000;

/// How long an access waits for its completion, in seconds.
pub const POLL_TIMEOUT_SECS: u64 = 10;

/// Depth of the per-connection completion queue; the queue pair is
/// created with as many work requests.
pub const CQ_SIZE: u32 = 16;

/// Connection requests the listener keeps pending.
pub const LISTEN_BACKLOG: i32 = 16;

/// Address family of a [`SockaddrIn`](crate::rdma::SockaddrIn).
pub const AF_INET: u16 = 2;

// Queue pair type and work request constants.
pub const IBV_QPT_RC: i32 = 2;

pub const IBV_WR_RDMA_WRITE: i32 = 0;

pub const IBV_WR_RDMA_READ: i32 = 4;

pub const IBV_SEND_SIGNALED: u32 = 2;

// Memory registration access flags: the remote reader may read and
// write, and future atomic operations are allowed.
pub const IBV_ACCESS_LOCAL_WRITE: u32 = 1;

pub const IBV_ACCESS_REMOTE_WRITE: u32 = 2;

pub const IBV_ACCESS_REMOTE_READ: u32 = 4;

pub const IBV_ACCESS_REMOTE_ATOMIC: u32 = 8;

pub const IBV_WC_SUCCESS: i32 = 0;

// Connection manager event codes.
pub const RDMA_CM_EVENT_ADDR_RESOLVED: i32 = 0;

pub const RDMA_CM_EVENT_ROUTE_RESOLVED: i32 = 2;

pub const RDMA_CM_EVENT_CONNECT_REQUEST: i32 = 4;

pub const RDMA_CM_EVENT_ESTABLISHED: i32 = 9;

} // verus!
