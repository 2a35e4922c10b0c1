//! What errors say, and how numbers are written in them.

use vstd::prelude::*;

use crate::error::{Access, Error, ErrorKind, Expected};
use crate::text;
use crate::text::{push_decimal, push_signed_decimal};

verus! {

/// The number that decimal digits stand for, most significant first.
pub open spec fn number_of(digits: Seq<char>) -> int
    decreases digits.len(),
{
    if digits.len() == 0 {
        0
    } else {
        10 * number_of(digits.drop_last()) + (digits.last() as int - '0' as int)
    }
}

/// One digit is one character, and the characters are in the digits'
/// order.
proof fn lemma_digit(d: nat)
    requires
        d < 10,
    ensures
        text::digit(d).len() == 1,
        text::digit(d)[0] as int == '0' as int + d,
{
    reveal_strlit("0");
    reveal_strlit("1");
    reveal_strlit("2");
    reveal_strlit("3");
    reveal_strlit("4");
    reveal_strlit("5");
    reveal_strlit("6");
    reveal_strlit("7");
    reveal_strlit("8");
    reveal_strlit("9");
}

proof fn lemma_decimal(n: nat)
    ensures
        text::decimal(n).len() > 0,
        number_of(text::decimal(n)) == n,
        forall|i: int|
            0 <= i < text::decimal(n).len() ==> '0' as int <= (
            #[trigger] text::decimal(n)[i]) as int <= '9' as int,
        n > 0 ==> text::decimal(n)[0] != '0',
        n == 0 ==> text::decimal(n).len() == 1,
    decreases n,
{
    reveal_with_fuel(number_of, 2);
    if n < 10 {
        lemma_digit(n);
        let s = text::decimal(n);
        assert(s.drop_last() =~= Seq::empty());
        assert(s.last() == s[0]);
    } else {
        lemma_decimal(n / 10);
        lemma_digit(n % 10);
        let front = text::decimal(n / 10);
        let s = text::decimal(n);
        assert(s.drop_last() =~= front);
        assert(s.last() == text::digit(n % 10)[0]);
        assert forall|i: int| 0 <= i < s.len() implies '0' as int <= (#[trigger] s[i]) as int
            <= '9' as int by {
            if i < front.len() {
                assert(s[i] == front[i]);
            }
        }
        assert(s[0] == front[0]);
    }
}

/// A number is written behind what there is, in decimal digits that
/// stand for it, without leading zeros.
pub proof fn law_numbers_are_written_in_decimal(text: &mut String, n: u64)
    requires
        call_ensures(push_decimal, (text, n), ()),
    ensures
        ({
            let old_len = old(text)@.len() as int;
            let digits = final(text)@.skip(old_len);
            &&& final(text)@.take(old_len) == old(text)@
            &&& digits.len() > 0
            &&& number_of(digits) == n
            &&& forall|i: int|
                0 <= i < digits.len() ==> '0' as int <= (#[trigger] digits[i]) as int
                    <= '9' as int
            &&& digits.len() > 1 ==> digits[0] != '0'
        }),
{
    lemma_decimal(n as nat);
    let old_len = old(text)@.len() as int;
    assert(final(text)@.take(old_len) =~= old(text)@);
    assert(final(text)@.skip(old_len) =~= text::decimal(n as nat));
}

/// A negative number is its magnitude behind a minus.
pub proof fn law_negative_numbers_have_a_minus(
    text: &mut String,
    n: i32,
    positive: &mut String,
    magnitude: u64,
)
    requires
        call_ensures(push_signed_decimal, (text, n), ()),
        call_ensures(push_decimal, (positive, magnitude), ()),
        old(text)@.len() == 0,
        old(positive)@.len() == 0,
        n >= 0 ==> magnitude == n,
        n < 0 ==> magnitude == -n,
    ensures
        n >= 0 ==> final(text)@ == final(positive)@,
        n < 0 ==> final(text)@.len() > 0 && final(text)@[0] == '-' && final(text)@.skip(1)
            == final(positive)@,
{
    reveal_strlit("-");
    assert(final(positive)@ =~= text::decimal(magnitude as nat));
    if n >= 0 {
        assert(final(text)@ =~= final(positive)@);
    } else {
        assert(final(text)@ =~= "-"@ + text::decimal(magnitude as nat));
        assert(final(text)@.skip(1) =~= final(positive)@);
    }
}

/// The class of every error: what the remote sent is invalid data, what
/// the caller asked for invalid input; a stream that ended, an access
/// that took too long and an address of the wrong kind have classes of
/// their own, and everything else is the peer's, the device's or the
/// system's.
pub proof fn law_errors_have_their_class(e: &Error, kind: ErrorKind)
    requires
        call_ensures(Error::kind, (e,), kind),
    ensures
        kind == ErrorKind::InvalidData <==> e is UnknownMessageType || e is FrameLengthOutOfRange
            || e is PayloadEndsMidMessage || e is NotUtf8 || e is TrailingBytes,
        kind == ErrorKind::UnexpectedEof <==> e is StreamEnded,
        kind == ErrorKind::InvalidInput <==> e is ExceedsBuffer || e is ExceedsRegion
            || e is ExceedsElements || e is Misaligned || e is LayoutMismatch
            || e is AlreadyServing || e is UnresolvedAddress || e is EmptyRegistration
            || e is NoBytes || e is ExceedsRegistration || e is OtherDomain,
        kind == ErrorKind::Unsupported <==> e is Ipv6Address,
        kind == ErrorKind::TimedOut <==> e is AccessTimedOut,
{
}

/// What every error says, its numbers in decimal.
pub proof fn law_errors_say_what_happened(e: &Error, message: String)
    requires
        call_ensures(Error::message, (e,), message),
    ensures
        message@ == match *e {
            Error::UnknownMessageType { ty } => "unknown message type "@ + text::decimal(ty as nat),
            Error::FrameLengthOutOfRange { len } => "frame length "@ + text::decimal(len as nat)
                + " is out of range"@,
            Error::PayloadEndsMidMessage => "the payload ends mid-message"@,
            Error::NotUtf8 => "a string is not valid UTF-8"@,
            Error::TrailingBytes => "trailing bytes after the payload"@,
            Error::StreamEnded => "failed to fill whole buffer"@,
            Error::ExceedsBuffer { size, buffer } => "read of "@ + text::decimal(size as nat)
                + " bytes exceeds the buffer of "@ + text::decimal(buffer as nat) + " bytes"@,
            Error::ExceedsRegion { access, size, offset, region } => {
                let word = match access {
                    Access::Read => "read"@,
                    Access::Write => "write"@,
                };
                word + " of "@
                + text::decimal(size as nat) + " bytes at offset "@ + text::decimal(offset as nat)
                + " exceeds the region of "@ + text::decimal(region as nat) + " bytes"@
            },
            Error::ExceedsElements { access, count, offset, elements, elem_size } => {
                let word = match access {
                    Access::Read => "read"@,
                    Access::Write => "write"@,
                };
                let unit = match access {
                    Access::Read => " at offset "@,
                    Access::Write => " at element offset "@,
                };
                word + " of "@ + text::decimal(count as nat) + " elements"@ + unit
                + text::decimal(offset as nat) + " exceeds the region of "@
                    + text::decimal(elements as nat) + " elements of "@
                + text::decimal(elem_size as nat) + " bytes"@
            },
            Error::Misaligned { access, offset, align } => {
                let word = match access {
                    Access::Read => "read"@,
                    Access::Write => "write"@,
                };
                let unit = match access {
                    Access::Read => " at offset "@,
                    Access::Write => " at element offset "@,
                };
                word + unit
                + text::decimal(offset as nat) + " is misaligned for elements of alignment "@
                + text::decimal(align as nat)
            },
            Error::LayoutMismatch {
                shared_type,
                shared_size,
                shared_align,
                elem_type,
                elem_size,
                elem_align,
            } => "the region is shared as elements of "@ + shared_type@ + " (size "@
                + text::decimal(shared_size as nat) + ", alignment "@ + text::decimal(
                shared_align as nat,
            ) + "), not "@ + elem_type@ + " (size "@ + text::decimal(elem_size as nat)
                + ", alignment "@ + text::decimal(elem_align as nat) + ")"@,
            Error::NotConnected => "the group has no RDMA connection: a successful update is required first"@,
            Error::RemoteVersion { version } => "the remote speaks protocol version "@
                + text::decimal(version as nat) + ", not "@ + "1"@,
            Error::ReaderVersion { version } => "the reader speaks protocol version "@
                + text::decimal(version as nat) + ", not "@ + "1"@,
            Error::UnexpectedMessage { expected, got } => {
                let wanted = match expected {
                    Expected::Greeting => "a greeting"@,
                    Expected::GroupJoin => "a group join"@,
                    Expected::GreetingReply => "a greeting reply"@,
                };
                "expected "@ + wanted
                + ", got "@ + got@.shown()
            },
            Error::NotAnExchange => "the remote replied with something other than the catalog and the tuples"@,
            Error::WrongGroup { served, group } => "the remote served group "@ + text::decimal(
                served as nat,
            ) + ", not "@ + text::decimal(group as nat),
            Error::AlreadyServing => "the provider is already serving"@,
            Error::CallFailed { call, cause, .. } => call@ + " failed: "@ + cause@,
            Error::UnresolvedAddress => "the address did not resolve to a socket address"@,
            Error::Ipv6Address => "IPv6 addresses are not supported yet"@,
            Error::UnexpectedEvent { step, expected, got, status } => step@ + ": expected "@
                + expected@ + ", got "@ + got@ + " (status "@ + text::signed_decimal(status as int)
                + ")"@,
            Error::NotAConnectionRequest { got, status } => "expected a connection request, got "@
                + got@ + " (status "@ + text::signed_decimal(status as int) + ")"@,
            Error::OtherDevice => "rdma accept_into: the connection arrived on a different device than the protection domain"@,
            Error::EmptyRegistration => "cannot register an empty region"@,
            Error::NoBytes { access } => {
                let word = match access {
                    Access::Read => "read"@,
                    Access::Write => "write"@,
                };
                "cannot "@ + word + " zero bytes"@
            },
            Error::ExceedsRegistration { access, len, registered } => {
                let word = match access {
                    Access::Read => "read"@,
                    Access::Write => "write"@,
                };
                word + " of "@
                + text::decimal(len as nat) + " bytes exceeds the registered region of "@
                + text::decimal(registered as nat) + " bytes"@
            },
            Error::OtherDomain => "the memory region is registered in another protection domain"@,
            Error::AccessFailed { access, status, vendor_err } => {
                let word = match access {
                    Access::Read => "read"@,
                    Access::Write => "write"@,
                };
                "RDMA "@ + word
                + " failed: "@ + status@ + " (vendor error "@ + text::decimal(vendor_err as nat)
                + ")"@
            },
            Error::AccessTimedOut { access } => {
                let word = match access {
                    Access::Read => "read"@,
                    Access::Write => "write"@,
                };
                "timed out waiting for the RDMA "@ + word + " completion"@
            },
        },
{
    assert(text::decimal(1) == "1"@);
}

} // verus!
