//! The errors of the library: what went wrong, as plain values, with
//! the kind and the text a caller reports.

use vstd::prelude::*;

use crate::meta;
use crate::meta::Message;
use crate::text;
use crate::text::{push_decimal, push_signed_decimal};

verus! {

/// The broad class of an [`Error`].
#[derive(Debug, Clone, Copy, PartialEq, Eq, Structural)]
pub enum ErrorKind {
    /// The caller asked for something that cannot be done.
    InvalidInput,
    /// The peer sent something that is not the protocol.
    InvalidData,
    /// A stream ended inside a message.
    UnexpectedEof,
    /// An operation took too long.
    TimedOut,
    /// The request is sound, but not implemented.
    Unsupported,
    /// Anything else: the peer's behavior, the device, the system.
    Other,
}

/// The direction of a one-sided access.
#[derive(Debug, Clone, Copy, PartialEq, Eq, Structural)]
pub enum Access {
    Read,
    Write,
}

/// The step of a session at which a message did not fit.
#[derive(Debug, Clone, Copy, PartialEq, Eq, Structural)]
pub enum Expected {
    /// The provider expects the reader's greeting.
    Greeting,
    /// The provider expects the reader to join a group.
    GroupJoin,
    /// The reader expects the reply to its greeting.
    GreetingReply,
}

/// What went wrong.
#[allow(inconsistent_fields)]
#[derive(Debug, Clone, PartialEq, Eq)]
pub enum Error {
    /// A message type code nobody assigned.
    UnknownMessageType { ty: u8 },
    /// A frame length of zero, or over the limit.
    FrameLengthOutOfRange { len: u32 },
    /// A count or a length reaches past the payload.
    PayloadEndsMidMessage,
    /// A string's bytes are not UTF-8.
    NotUtf8,
    /// The payload goes on behind the message.
    TrailingBytes,
    /// The stream ended inside a frame.
    StreamEnded,
    /// A read of more bytes than the destination holds.
    ExceedsBuffer { size: usize, buffer: usize },
    /// An access of bytes outside the region.
    ExceedsRegion { access: Access, size: usize, offset: u64, region: usize },
    /// An access of elements outside the region. A read's offset is in
    /// bytes, a write's in elements.
    ExceedsElements { access: Access, count: usize, offset: u64, elements: usize, elem_size: usize },
    /// An access of elements at an address their type cannot have. A
    /// read's offset is in bytes, a write's in elements.
    Misaligned { access: Access, offset: u64, align: usize },
    /// An access as elements of a layout the region is not shared as.
    LayoutMismatch {
        shared_type: String,
        shared_size: u32,
        shared_align: u32,
        elem_type: String,
        elem_size: usize,
        elem_align: usize,
    },
    /// An access through a group no session has connected.
    NotConnected,
    /// The remote's greeting reply names another protocol version.
    RemoteVersion { version: u16 },
    /// The reader's greeting names another protocol version.
    ReaderVersion { version: u16 },
    /// A message that does not fit the session's step.
    UnexpectedMessage { expected: Expected, got: Message },
    /// The reply of an exchange is not a catalog and a list of tuples.
    NotAnExchange,
    /// The tuples of an exchange are another group's.
    WrongGroup { served: u32, group: u32 },
    /// The provider is asked to serve twice.
    AlreadyServing,
    /// A call into the system failed: with this code, where it returned
    /// one, and for this cause, in the system's words.
    CallFailed { call: &'static str, code: Option<i32>, cause: String },
    /// An address that names no socket address.
    UnresolvedAddress,
    /// An address that names an IPv6 socket address first.
    Ipv6Address,
    /// A connection manager event other than the awaited one.
    UnexpectedEvent { step: &'static str, expected: String, got: String, status: i32 },
    /// A connection manager event other than a connection request.
    NotAConnectionRequest { got: String, status: i32 },
    /// A connection into a protection domain of another device.
    OtherDevice,
    /// A registration of no bytes.
    EmptyRegistration,
    /// An access of no bytes.
    NoBytes { access: Access },
    /// An access of more bytes than the local registration holds.
    ExceedsRegistration { access: Access, len: usize, registered: usize },
    /// A local registration in another protection domain.
    OtherDomain,
    /// The device reported a failed access.
    AccessFailed { access: Access, status: String, vendor_err: u32 },
    /// No completion arrived in time.
    AccessTimedOut { access: Access },
}

/// The verb of an access.
pub open spec fn access_word(access: Access) -> Seq<char> {
    match access {
        Access::Read => "read"@,
        Access::Write => "write"@,
    }
}

/// What the offset of a typed access counts, in words: reads count
/// bytes, writes count elements.
pub open spec fn offset_words(access: Access) -> Seq<char> {
    match access {
        Access::Read => " at offset "@,
        Access::Write => " at element offset "@,
    }
}

/// What a session's step expects, in words.
pub open spec fn expected_words(expected: Expected) -> Seq<char> {
    match expected {
        Expected::Greeting => "a greeting"@,
        Expected::GroupJoin => "a group join"@,
        Expected::GreetingReply => "a greeting reply"@,
    }
}

impl Access {
    /// The verb of the access.
    pub fn word(self) -> (word: &'static str)
        ensures
            word@ == access_word(self),
    {
        match self {
            Access::Read => "read",
            Access::Write => "write",
        }
    }

    /// What the offset of a typed access counts, in words.
    pub fn offset_words(self) -> (words: &'static str)
        ensures
            words@ == offset_words(self),
    {
        match self {
            Access::Read => " at offset ",
            Access::Write => " at element offset ",
        }
    }
}

impl Expected {
    /// What the step expects, in words.
    pub fn words(self) -> (words: &'static str)
        ensures
            words@ == expected_words(self),
    {
        match self {
            Expected::Greeting => "a greeting",
            Expected::GroupJoin => "a group join",
            Expected::GreetingReply => "a greeting reply",
        }
    }
}

impl Error {
    /// The class the error belongs to.
    pub open spec fn kind_spec(self) -> ErrorKind {
        match self {
            Error::UnknownMessageType { .. } => ErrorKind::InvalidData,
            Error::FrameLengthOutOfRange { .. } => ErrorKind::InvalidData,
            Error::PayloadEndsMidMessage => ErrorKind::InvalidData,
            Error::NotUtf8 => ErrorKind::InvalidData,
            Error::TrailingBytes => ErrorKind::InvalidData,
            Error::StreamEnded => ErrorKind::UnexpectedEof,
            Error::ExceedsBuffer { .. } => ErrorKind::InvalidInput,
            Error::ExceedsRegion { .. } => ErrorKind::InvalidInput,
            Error::ExceedsElements { .. } => ErrorKind::InvalidInput,
            Error::Misaligned { .. } => ErrorKind::InvalidInput,
            Error::LayoutMismatch { .. } => ErrorKind::InvalidInput,
            Error::AlreadyServing => ErrorKind::InvalidInput,
            Error::UnresolvedAddress => ErrorKind::InvalidInput,
            Error::EmptyRegistration => ErrorKind::InvalidInput,
            Error::NoBytes { .. } => ErrorKind::InvalidInput,
            Error::ExceedsRegistration { .. } => ErrorKind::InvalidInput,
            Error::OtherDomain => ErrorKind::InvalidInput,
            Error::Ipv6Address => ErrorKind::Unsupported,
            Error::AccessTimedOut { .. } => ErrorKind::TimedOut,
            Error::NotConnected => ErrorKind::Other,
            Error::RemoteVersion { .. } => ErrorKind::Other,
            Error::ReaderVersion { .. } => ErrorKind::Other,
            Error::UnexpectedMessage { .. } => ErrorKind::Other,
            Error::NotAnExchange => ErrorKind::Other,
            Error::WrongGroup { .. } => ErrorKind::Other,
            Error::CallFailed { .. } => ErrorKind::Other,
            Error::UnexpectedEvent { .. } => ErrorKind::Other,
            Error::NotAConnectionRequest { .. } => ErrorKind::Other,
            Error::OtherDevice => ErrorKind::Other,
            Error::AccessFailed { .. } => ErrorKind::Other,
        }
    }

    /// The class the error belongs to.
    pub fn kind(&self) -> (kind: ErrorKind)
        ensures
            kind == self.kind_spec(),
    {
        match self {
            Error::UnknownMessageType { .. }
            | Error::FrameLengthOutOfRange { .. }
            | Error::PayloadEndsMidMessage
            | Error::NotUtf8
            | Error::TrailingBytes => ErrorKind::InvalidData,
            Error::StreamEnded => ErrorKind::UnexpectedEof,
            Error::ExceedsBuffer { .. }
            | Error::ExceedsRegion { .. }
            | Error::ExceedsElements { .. }
            | Error::Misaligned { .. }
            | Error::LayoutMismatch { .. }
            | Error::AlreadyServing
            | Error::UnresolvedAddress
            | Error::EmptyRegistration
            | Error::NoBytes { .. }
            | Error::ExceedsRegistration { .. }
            | Error::OtherDomain => ErrorKind::InvalidInput,
            Error::Ipv6Address => ErrorKind::Unsupported,
            Error::AccessTimedOut { .. } => ErrorKind::TimedOut,
            _ => ErrorKind::Other,
        }
    }

    /// The error's text.
    pub open spec fn text(self) -> Seq<char> {
        match self {
            Error::UnknownMessageType { ty } => "unknown message type "@ + text::decimal(ty as nat),
            Error::FrameLengthOutOfRange { len } => "frame length "@ + text::decimal(len as nat)
                + " is out of range"@,
            Error::PayloadEndsMidMessage => "the payload ends mid-message"@,
            Error::NotUtf8 => "a string is not valid UTF-8"@,
            Error::TrailingBytes => "trailing bytes after the payload"@,
            Error::StreamEnded => "failed to fill whole buffer"@,
            Error::ExceedsBuffer { size, buffer } => "read of "@ + text::decimal(size as nat)
                + " bytes exceeds the buffer of "@ + text::decimal(buffer as nat) + " bytes"@,
            Error::ExceedsRegion { access, size, offset, region } => access_word(access) + " of "@
                + text::decimal(size as nat) + " bytes at offset "@ + text::decimal(offset as nat)
                + " exceeds the region of "@ + text::decimal(region as nat) + " bytes"@,
            Error::ExceedsElements { access, count, offset, elements, elem_size } => access_word(
                access,
            ) + " of "@ + text::decimal(count as nat) + " elements"@ + offset_words(access)
                + text::decimal(offset as nat) + " exceeds the region of "@ + text::decimal(elements as nat) + " elements of "@
                + text::decimal(elem_size as nat) + " bytes"@,
            Error::Misaligned { access, offset, align } => access_word(access) + offset_words(access)
                + text::decimal(offset as nat) + " is misaligned for elements of alignment "@
                + text::decimal(align as nat),
            Error::LayoutMismatch {
                shared_type,
                shared_size,
                shared_align,
                elem_type,
                elem_size,
                elem_align,
            } => "the region is shared as elements of "@ + shared_type@ + " (size "@
                + text::decimal(shared_size as nat) + ", alignment "@ + text::decimal(
                shared_align as nat,
            ) + "), not "@ + elem_type@ + " (size "@ + text::decimal(elem_size as nat)
                + ", alignment "@ + text::decimal(elem_align as nat) + ")"@,
            Error::NotConnected =>
                "the group has no RDMA connection: a successful update is required first"@,
            Error::RemoteVersion { version } => "the remote speaks protocol version "@
                + text::decimal(version as nat) + ", not "@ + text::decimal(
                meta::PROTOCOL_VERSION as nat,
            ),
            Error::ReaderVersion { version } => "the reader speaks protocol version "@
                + text::decimal(version as nat) + ", not "@ + text::decimal(
                meta::PROTOCOL_VERSION as nat,
            ),
            Error::UnexpectedMessage { expected, got } => "expected "@ + expected_words(expected)
                + ", got "@ + got@.shown(),
            Error::NotAnExchange =>
                "the remote replied with something other than the catalog and the tuples"@,
            Error::WrongGroup { served, group } => "the remote served group "@ + text::decimal(
                served as nat,
            ) + ", not "@ + text::decimal(group as nat),
            Error::AlreadyServing => "the provider is already serving"@,
            Error::CallFailed { call, cause, .. } => call@ + " failed: "@ + cause@,
            Error::UnresolvedAddress => "the address did not resolve to a socket address"@,
            Error::Ipv6Address => "IPv6 addresses are not supported yet"@,
            Error::UnexpectedEvent { step, expected, got, status } => step@ + ": expected "@
                + expected@ + ", got "@ + got@ + " (status "@ + text::signed_decimal(status as int)
                + ")"@,
            Error::NotAConnectionRequest { got, status } => "expected a connection request, got "@
                + got@ + " (status "@ + text::signed_decimal(status as int) + ")"@,
            Error::OtherDevice =>
                "rdma accept_into: the connection arrived on a different device than the protection domain"@,
            Error::EmptyRegistration => "cannot register an empty region"@,
            Error::NoBytes { access } => "cannot "@ + access_word(access) + " zero bytes"@,
            Error::ExceedsRegistration { access, len, registered } => access_word(access) + " of "@
                + text::decimal(len as nat) + " bytes exceeds the registered region of "@
                + text::decimal(registered as nat) + " bytes"@,
            Error::OtherDomain => "the memory region is registered in another protection domain"@,
            Error::AccessFailed { access, status, vendor_err } => "RDMA "@ + access_word(access)
                + " failed: "@ + status@ + " (vendor error "@ + text::decimal(vendor_err as nat)
                + ")"@,
            Error::AccessTimedOut { access } => "timed out waiting for the RDMA "@ + access_word(
                access,
            ) + " completion"@,
        }
    }

    /// The error's text, as a caller reports it.
    pub fn message(&self) -> (message: String)
        ensures
            message@ == self.text(),
    {
        match self {
            Error::UnknownMessageType { ty } => {
                let mut t: String = String::from_str("unknown message type ");
                push_decimal(&mut t, *ty as u64);
                t
            },
            Error::FrameLengthOutOfRange { len } => {
                let mut t: String = String::from_str("frame length ");
                push_decimal(&mut t, *len as u64);
                t.append(" is out of range");
                t
            },
            Error::PayloadEndsMidMessage => String::from_str("the payload ends mid-message"),
            Error::NotUtf8 => String::from_str("a string is not valid UTF-8"),
            Error::TrailingBytes => String::from_str("trailing bytes after the payload"),
            Error::StreamEnded => String::from_str("failed to fill whole buffer"),
            Error::ExceedsBuffer { size, buffer } => {
                let mut t: String = String::from_str("read of ");
                push_decimal(&mut t, *size as u64);
                t.append(" bytes exceeds the buffer of ");
                push_decimal(&mut t, *buffer as u64);
                t.append(" bytes");
                t
            },
            Error::ExceedsRegion { access, size, offset, region } => {
                let mut t: String = String::from_str(access.word());
                t.append(" of ");
                push_decimal(&mut t, *size as u64);
                t.append(" bytes at offset ");
                push_decimal(&mut t, *offset);
                t.append(" exceeds the region of ");
                push_decimal(&mut t, *region as u64);
                t.append(" bytes");
                t
            },
            Error::ExceedsElements { access, count, offset, elements, elem_size } => {
                let mut t: String = String::from_str(access.word());
                t.append(" of ");
                push_decimal(&mut t, *count as u64);
                t.append(" elements");
                t.append(access.offset_words());
                push_decimal(&mut t, *offset);
                t.append(" exceeds the region of ");
                push_decimal(&mut t, *elements as u64);
                t.append(" elements of ");
                push_decimal(&mut t, *elem_size as u64);
                t.append(" bytes");
                t
            },
            Error::Misaligned { access, offset, align } => {
                let mut t: String = String::from_str(access.word());
                t.append(access.offset_words());
                push_decimal(&mut t, *offset);
                t.append(" is misaligned for elements of alignment ");
                push_decimal(&mut t, *align as u64);
                t
            },
            Error::LayoutMismatch {
                shared_type,
                shared_size,
                shared_align,
                elem_type,
                elem_size,
                elem_align,
            } => {
                let mut t: String = String::from_str("the region is shared as elements of ");
                t.append(shared_type.as_str());
                t.append(" (size ");
                push_decimal(&mut t, *shared_size as u64);
                t.append(", alignment ");
                push_decimal(&mut t, *shared_align as u64);
                t.append("), not ");
                t.append(elem_type.as_str());
                t.append(" (size ");
                push_decimal(&mut t, *elem_size as u64);
                t.append(", alignment ");
                push_decimal(&mut t, *elem_align as u64);
                t.append(")");
                t
            },
            Error::NotConnected => String::from_str(
                "the group has no RDMA connection: a successful update is required first",
            ),
            Error::RemoteVersion { version } => {
                let mut t: String = String::from_str("the remote speaks protocol version ");
                push_decimal(&mut t, *version as u64);
                t.append(", not ");
                push_decimal(&mut t, meta::PROTOCOL_VERSION as u64);
                t
            },
            Error::ReaderVersion { version } => {
                let mut t: String = String::from_str("the reader speaks protocol version ");
                push_decimal(&mut t, *version as u64);
                t.append(", not ");
                push_decimal(&mut t, meta::PROTOCOL_VERSION as u64);
                t
            },
            Error::UnexpectedMessage { expected, got } => {
                let mut t: String = String::from_str("expected ");
                t.append(expected.words());
                t.append(", got ");
                got.show(&mut t);
                t
            },
            Error::NotAnExchange => String::from_str(
                "the remote replied with something other than the catalog and the tuples",
            ),
            Error::WrongGroup { served, group } => {
                let mut t: String = String::from_str("the remote served group ");
                push_decimal(&mut t, *served as u64);
                t.append(", not ");
                push_decimal(&mut t, *group as u64);
                t
            },
            Error::AlreadyServing => String::from_str("the provider is already serving"),
            Error::CallFailed { call, cause, .. } => {
                let mut t: String = String::from_str(call);
                t.append(" failed: ");
                t.append(cause.as_str());
                t
            },
            Error::UnresolvedAddress => String::from_str(
                "the address did not resolve to a socket address",
            ),
            Error::Ipv6Address => String::from_str("IPv6 addresses are not supported yet"),
            Error::UnexpectedEvent { step, expected, got, status } => {
                let mut t: String = String::from_str(step);
                t.append(": expected ");
                t.append(expected.as_str());
                t.append(", got ");
                t.append(got.as_str());
                t.append(" (status ");
                push_signed_decimal(&mut t, *status);
                t.append(")");
                t
            },
            Error::NotAConnectionRequest { got, status } => {
                let mut t: String = String::from_str("expected a connection request, got ");
                t.append(got.as_str());
                t.append(" (status ");
                push_signed_decimal(&mut t, *status);
                t.append(")");
                t
            },
            Error::OtherDevice => String::from_str(
                "rdma accept_into: the connection arrived on a different device than the protection domain",
            ),
            Error::EmptyRegistration => String::from_str("cannot register an empty region"),
            Error::NoBytes { access } => {
                let mut t: String = String::from_str("cannot ");
                t.append(access.word());
                t.append(" zero bytes");
                t
            },
            Error::ExceedsRegistration { access, len, registered } => {
                let mut t: String = String::from_str(access.word());
                t.append(" of ");
                push_decimal(&mut t, *len as u64);
                t.append(" bytes exceeds the registered region of ");
                push_decimal(&mut t, *registered as u64);
                t.append(" bytes");
                t
            },
            Error::OtherDomain => String::from_str(
                "the memory region is registered in another protection domain",
            ),
            Error::AccessFailed { access, status, vendor_err } => {
                let mut t: String = String::from_str("RDMA ");
                t.append(access.word());
                t.append(" failed: ");
                t.append(status.as_str());
                t.append(" (vendor error ");
                push_decimal(&mut t, *vendor_err as u64);
                t.append(")");
                t
            },
            Error::AccessTimedOut { access } => {
                let mut t: String = String::from_str("timed out waiting for the RDMA ");
                t.append(access.word());
                t.append(" completion");
                t
            },
        }
    }
}

} // verus!
