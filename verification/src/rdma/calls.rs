//! What the libraries' calls take and how their results are judged.

use vstd::prelude::*;

use crate::error::Error;
use crate::rdma::codes;

verus! {

/// A handle of the verbs libraries: the address of an object they own,
/// zero where there is none.
pub type Handle = usize;

/// An IPv4 socket address: the octets and the port.
#[derive(Debug, Clone, Copy, PartialEq, Eq)]
pub struct SocketAddrV4 {
    pub ip: [u8; 4],
    pub port: u16,
}

/// A socket address that a name resolved to.
#[derive(Debug, Clone, Copy, PartialEq, Eq)]
pub enum SocketAddr {
    V4(SocketAddrV4),
    V6,
}

/// An IPv4 socket address as the connection manager takes it (`struct
/// sockaddr_in`).
#[derive(Debug, Clone, Copy, PartialEq, Eq)]
pub struct SockaddrIn {
    pub sin_family: u16,
    /// Port, in network byte order.
    pub sin_port: [u8; 2],
    pub sin_addr: [u8; 4],
    pub sin_zero: [u8; 8],
}

/// Connection parameters (`struct rdma_conn_param`), without private
/// data.
#[derive(Debug, Clone, Copy, PartialEq, Eq)]
pub struct ConnParam {
    pub private_data_len: u8,
    pub responder_resources: u8,
    pub initiator_depth: u8,
    pub flow_control: u8,
    pub retry_count: u8,
    pub rnr_retry_count: u8,
    pub srq: u8,
    pub qp_num: u32,
}

/// Queue pair creation attributes (`struct ibv_qp_init_attr`).
#[derive(Debug, Clone, Copy, PartialEq, Eq)]
pub struct QpInitAttr {
    pub send_cq: Handle,
    pub recv_cq: Handle,
    pub max_send_wr: u32,
    pub max_recv_wr: u32,
    pub max_send_sge: u32,
    pub max_recv_sge: u32,
    pub max_inline_data: u32,
    pub qp_type: i32,
    pub sq_sig_all: i32,
}

/// One call into the libraries.
#[derive(Debug, Clone, Copy, PartialEq, Eq)]
pub enum Call {
    /// `rdma_create_event_channel`.
    CreateEventChannel,
    /// `rdma_create_id`.
    CreateId { channel: Handle, port_space: i32 },
    /// `rdma_bind_addr`.
    BindAddr { id: Handle, addr: SockaddrIn },
    /// `rdma_listen`.
    Listen { id: Handle, backlog: i32 },
    /// `rdma_resolve_addr`, from any source address.
    ResolveAddr { id: Handle, dst: SockaddrIn, timeout_ms: i32 },
    /// `rdma_resolve_route`.
    ResolveRoute { id: Handle, timeout_ms: i32 },
    /// `rdma_get_cm_event`, then `rdma_ack_cm_event` on what it got.
    GetEvent { channel: Handle, expected: i32 },
    /// The device of an identifier.
    DeviceOf { id: Handle },
    /// `ibv_alloc_pd`.
    AllocDomain { context: Handle },
    /// `ibv_create_cq`.
    CreateQueue { context: Handle, size: u32 },
    /// `rdma_create_qp`.
    CreateQueuePair { id: Handle, pd: Handle, attr: QpInitAttr },
    /// `rdma_connect`.
    Connect { id: Handle, param: ConnParam },
    /// `rdma_accept`.
    Accept { id: Handle, param: ConnParam },
}

/// What a [`Call::GetEvent`] gave. Where `ret` is not zero there is no
/// event, and the rest means nothing.
#[derive(Debug, PartialEq, Eq)]
pub struct EventReply {
    /// What `rdma_get_cm_event` returned.
    pub ret: i32,
    /// The identifier the event is about.
    pub id: Handle,
    /// The event's code.
    pub event: i32,
    /// The event's status.
    pub status: i32,
    /// What `rdma_ack_cm_event` returned.
    pub ack: i32,
    /// Name of the expected event, for error messages.
    pub expected_name: String,
    /// Name of the event, for error messages.
    pub got_name: String,
}

/// What a [`Call`] gave.
#[derive(Debug, PartialEq, Eq)]
pub enum Reply {
    /// The return value of a call that gives nothing else.
    Code(i32),
    /// The object that a call created or found.
    Object(Handle),
    /// The return value of `rdma_create_id`, and the identifier that it
    /// left.
    Id { ret: i32, id: Handle },
    /// What the event channel gave.
    Event(EventReply),
}

impl Call {
    /// Whether `reply` is of the form that this call gives.
    pub open spec fn answered_by(self, reply: Reply) -> bool {
        match self {
            Call::CreateEventChannel => reply is Object,
            Call::CreateId { .. } => reply is Id,
            Call::BindAddr { .. } => reply is Code,
            Call::Listen { .. } => reply is Code,
            Call::ResolveAddr { .. } => reply is Code,
            Call::ResolveRoute { .. } => reply is Code,
            Call::GetEvent { .. } => reply is Event,
            Call::DeviceOf { .. } => reply is Object,
            Call::AllocDomain { .. } => reply is Object,
            Call::CreateQueue { .. } => reply is Object,
            Call::CreateQueuePair { .. } => reply is Code,
            Call::Connect { .. } => reply is Code,
            Call::Accept { .. } => reply is Code,
        }
    }
}

/// One call that gives an object back to the libraries; what it returns
/// is ignored.
#[derive(Debug, Clone, Copy, PartialEq, Eq)]
pub enum Release {
    /// `rdma_disconnect`.
    Disconnect { id: Handle },
    /// `rdma_destroy_qp`.
    DestroyQueuePair { id: Handle },
    /// `rdma_destroy_id`.
    DestroyId { id: Handle },
    /// `ibv_destroy_cq`.
    DestroyQueue { cq: Handle },
    /// `rdma_destroy_event_channel`.
    DestroyEventChannel { channel: Handle },
    /// `ibv_dereg_mr`.
    Deregister { mr: Handle },
    /// `ibv_dealloc_pd`.
    DeallocDomain { pd: Handle },
}

/// The system's text for an error code, as
/// `std::io::Error::from_raw_os_error` displays it. The text is the
/// system's own, so nothing is claimed of it.
#[verifier::external_body]
fn os_error_text(code: i32) -> (text: String) {
    format!("{}", std::io::Error::from_raw_os_error(code))
}

/// The system's text for the last error of this thread, as
/// `std::io::Error::last_os_error` displays it. The text depends on
/// what the thread did before, so nothing is claimed of it.
#[verifier::external_body]
fn last_error_text() -> (text: String) {
    format!("{}", std::io::Error::last_os_error())
}

/// Whether `e` says that `call` failed with `code`, whatever the
/// system's words for the cause.
pub open spec fn failed(e: Error, call: Seq<char>, code: Option<i32>) -> bool {
    e matches Error::CallFailed { call: c, code: d, .. } && c@ == call && d == code
}

/// The error of a failed call.
pub fn call_failed(call: &'static str, code: Option<i32>, cause: String) -> (e: Error)
    ensures
        e == (Error::CallFailed { call, code, cause }),
{
    Error::CallFailed { call, code, cause }
}

/// Turn a non-zero return value into an error.
pub fn check(call: &'static str, ret: i32) -> (result: Result<(), Error>)
    ensures
        result is Ok <==> ret == 0,
        result matches Err(e) ==> failed(e, call@, Some(ret)),
{
    if ret == 0 {
        Ok(())
    } else {
        Err(call_failed(call, Some(ret), os_error_text(ret)))
    }
}

/// Turn a null handle into an error. Called right after the call that
/// gave the handle, whose cause the system still remembers.
pub fn check_ptr(call: &'static str, handle: Handle) -> (result: Result<Handle, Error>)
    ensures
        handle != 0 ==> result == Ok::<Handle, Error>(handle),
        handle == 0 ==> (result matches Err(e) && failed(e, call@, None)),
{
    if handle == 0 {
        Err(call_failed(call, None, last_error_text()))
    } else {
        Ok(handle)
    }
}

/// The IPv4 socket address among those a name resolved to: the first
/// of them.
pub open spec fn resolved(addrs: Seq<SocketAddr>) -> Result<SocketAddrV4, Error> {
    if addrs.len() == 0 {
        Err(Error::UnresolvedAddress)
    } else {
        match addrs[0] {
            SocketAddr::V4(v4) => Ok(v4),
            SocketAddr::V6 => Err(Error::Ipv6Address),
        }
    }
}

/// Pick the IPv4 socket address to use among those a name resolved to:
/// the first of them.
pub fn resolve_v4(addrs: &[SocketAddr]) -> (result: Result<SocketAddrV4, Error>)
    ensures
        result == resolved(addrs@),
{
    if addrs.len() == 0 {
        return Err(Error::UnresolvedAddress);
    }
    match addrs[0] {
        SocketAddr::V4(v4) => Ok(v4),
        SocketAddr::V6 => Err(Error::Ipv6Address),
    }
}

impl SockaddrIn {
    /// Whether this is `addr`, with the port most significant byte
    /// first.
    pub open spec fn stands_for(self, addr: SocketAddrV4) -> bool {
        &&& self.sin_family == codes::AF_INET
        &&& self.sin_port@ == seq![(addr.port / 256) as u8, (addr.port % 256) as u8]
        &&& self.sin_addr == addr.ip
        &&& self.sin_zero@ == seq![0u8, 0u8, 0u8, 0u8, 0u8, 0u8, 0u8, 0u8]
    }

    /// `addr` as the connection manager takes it.
    pub fn from(addr: SocketAddrV4) -> (sockaddr: SockaddrIn)
        ensures
            sockaddr.stands_for(addr),
    {
        let sockaddr: SockaddrIn = SockaddrIn {
            sin_family: codes::AF_INET,
            sin_port: [(addr.port / 256) as u8, (addr.port % 256) as u8],
            sin_addr: addr.ip,
            sin_zero: [0, 0, 0, 0, 0, 0, 0, 0],
        };
        assert(sockaddr.sin_port@ =~= seq![(addr.port / 256) as u8, (addr.port % 256) as u8]);
        assert(sockaddr.sin_zero@ =~= seq![0u8, 0u8, 0u8, 0u8, 0u8, 0u8, 0u8, 0u8]);
        sockaddr
    }
}

/// The connection parameters of every connection.
pub open spec fn spec_conn_param() -> ConnParam {
    ConnParam {
        private_data_len: 0,
        responder_resources: 3,
        initiator_depth: 3,
        flow_control: 0,
        retry_count: 7,
        rnr_retry_count: 0,
        srq: 0,
        qp_num: 0,
    }
}

/// Connection parameters: a few outstanding one-sided operations,
/// generous connect retries.
pub fn conn_param() -> (param: ConnParam)
    ensures
        param == spec_conn_param(),
{
    ConnParam {
        private_data_len: 0,
        responder_resources: 3,
        initiator_depth: 3,
        flow_control: 0,
        retry_count: 7,
        rnr_retry_count: 0,
        srq: 0,
        qp_num: 0,
    }
}

/// A reliable queue pair on the completion queue `cq`, signaling every
/// send.
pub open spec fn spec_queue_pair(cq: Handle) -> QpInitAttr {
    QpInitAttr {
        send_cq: cq,
        recv_cq: cq,
        max_send_wr: codes::CQ_SIZE,
        max_recv_wr: codes::CQ_SIZE,
        max_send_sge: 1,
        max_recv_sge: 1,
        max_inline_data: 0,
        qp_type: codes::IBV_QPT_RC,
        sq_sig_all: 1,
    }
}

/// A reliable queue pair on `cq`, signaling every send: each completion
/// is then always reported.
pub fn queue_pair(cq: Handle) -> (attr: QpInitAttr)
    ensures
        attr == spec_queue_pair(cq),
{
    QpInitAttr {
        send_cq: cq,
        recv_cq: cq,
        max_send_wr: codes::CQ_SIZE,
        max_recv_wr: codes::CQ_SIZE,
        max_send_sge: 1,
        max_recv_sge: 1,
        max_inline_data: 0,
        qp_type: codes::IBV_QPT_RC,
        sq_sig_all: 1,
    }
}

impl EventReply {
    /// Whether the channel gave the event `expected`, without trouble.
    pub open spec fn is_good(self, expected: i32) -> bool {
        self.ret == 0 && self.event == expected && self.status == 0 && self.ack == 0
    }

    /// Whether `e` is the error of waiting for another event in `step`.
    pub open spec fn wait_failed(self, expected: i32, step: &'static str, e: Error) -> bool {
        if self.ret != 0 {
            failed(e, step@, Some(self.ret))
        } else if self.event != expected || self.status != 0 {
            e == (Error::UnexpectedEvent {
                step,
                expected: self.expected_name,
                got: self.got_name,
                status: self.status,
            })
        } else {
            failed(e, "rdma_ack_cm_event"@, Some(self.ack))
        }
    }

    /// Whether `e` is the error of waiting for a connection request.
    pub open spec fn request_failed(self, e: Error) -> bool {
        if self.ret != 0 {
            failed(e, "rdma_get_cm_event"@, Some(self.ret))
        } else if self.event != codes::RDMA_CM_EVENT_CONNECT_REQUEST || self.status != 0 {
            e == (Error::NotAConnectionRequest { got: self.got_name, status: self.status })
        } else {
            failed(e, "rdma_ack_cm_event"@, Some(self.ack))
        }
    }

    /// Judge the event that came while `step` waited for `expected`.
    pub fn wait_event(self, expected: i32, step: &'static str) -> (result: Result<(), Error>)
        ensures
            result is Ok <==> self.is_good(expected),
            result matches Err(e) ==> self.wait_failed(expected, step, e),
    {
        check(step, self.ret)?;
        if self.event != expected || self.status != 0 {
            return Err(
                Error::UnexpectedEvent {
                    step,
                    expected: self.expected_name,
                    got: self.got_name,
                    status: self.status,
                },
            );
        }
        check("rdma_ack_cm_event", self.ack)
    }

    /// Judge the event that came while a listener waited for a
    /// connection request: the identifier of the requested connection.
    pub fn connection_request(self) -> (result: Result<Handle, Error>)
        ensures
            self.is_good(codes::RDMA_CM_EVENT_CONNECT_REQUEST) ==> result == Ok::<Handle, Error>(
                self.id,
            ),
            !self.is_good(codes::RDMA_CM_EVENT_CONNECT_REQUEST) ==> (result matches Err(e)
                && self.request_failed(e)),
    {
        check("rdma_get_cm_event", self.ret)?;
        if self.event != codes::RDMA_CM_EVENT_CONNECT_REQUEST || self.status != 0 {
            return Err(
                Error::NotAConnectionRequest { got: self.got_name, status: self.status },
            );
        }
        check("rdma_ack_cm_event", self.ack)?;
        Ok(self.id)
    }
}

} // verus!
