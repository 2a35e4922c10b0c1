//! What holds of the wire protocol as a whole: a message sent is the
//! message received, and nothing else is received.

use vstd::prelude::*;
use vstd::utf8::*;

use crate::error::Error;
use crate::meta;
use crate::meta::{MessageView, RegionDescView, TupleDesc};
use crate::wire;

verus! {

impl RegionDescView {
    /// The lengths of the region's strings fit their length fields.
    pub open spec fn fits(self) -> bool {
        &&& encode_utf8(self.name).len() <= u32::MAX
        &&& encode_utf8(self.elem_type).len() <= u32::MAX
    }
}

impl MessageView {
    /// Every count and length of the message fits its field.
    pub open spec fn fits(self) -> bool {
        match self {
            MessageView::Metadata { regions } => {
                &&& regions.len() <= u32::MAX
                &&& forall|i: int| 0 <= i < regions.len() ==> (#[trigger] regions[i]).fits()
            },
            MessageView::Tuples { group, tuples } => tuples.len() <= u32::MAX,
            _ => true,
        }
    }

    /// The message's frame is within the limit of a receiver.
    pub open spec fn sendable(self) -> bool {
        1 + self.payload().len() <= meta::MAX_FRAME
    }
}

proof fn lemma_next_region_of_wire(region: RegionDescView, rest: Seq<u8>)
    requires
        region.fits(),
    ensures
        meta::next_region(region.wire() + rest) == Ok::<(RegionDescView, Seq<u8>), Error>(
            (region, rest),
        ),
{
    wire::lemma_byte_ranges();
    let s6 = rest;
    let s5 = wire::str_wire(region.elem_type) + s6;
    let s4 = wire::le_bytes(region.elem_align as nat, 4) + s5;
    let s3 = wire::le_bytes(region.elem_size as nat, 4) + s4;
    let s2 = wire::le_bytes(region.size as nat, 8) + s3;
    let s1 = wire::str_wire(region.name) + s2;
    let s0 = wire::le_bytes(region.id as nat, 4) + s1;
    lemma_region_fields(region, rest, s0, s1, s2, s3, s4, s5);
    wire::lemma_next_number_of_bytes(region.id as nat, 4, s1);
    wire::lemma_next_string_of_wire(region.name, s2);
    wire::lemma_next_number_of_bytes(region.size as nat, 8, s3);
    wire::lemma_next_number_of_bytes(region.elem_size as nat, 4, s4);
    wire::lemma_next_number_of_bytes(region.elem_align as nat, 4, s5);
    wire::lemma_next_string_of_wire(region.elem_type, s6);
    assert(meta::next_region(s0) == Ok::<(RegionDescView, Seq<u8>), Error>((region, rest))) by {
        reveal(meta::next_region);
    }
}

/// Putting a field in front of an entry's remaining fields.
proof fn lemma_prepend(field: Seq<u8>, fields: Seq<u8>, rest: Seq<u8>)
    ensures
        (field + fields) + rest == field + (fields + rest),
{
    assert((field + fields) + rest =~= field + (fields + rest));
}

proof fn lemma_wire_of_next_region(s: Seq<u8>)
    requires
        meta::next_region(s) is Ok,
    ensures
        meta::next_region(s)->Ok_0.0.fits(),
        s == meta::next_region(s)->Ok_0.0.wire() + meta::next_region(s)->Ok_0.1,
{
    reveal(meta::next_region);
    wire::lemma_byte_ranges();
    let (region, rest) = meta::next_region(s)->Ok_0;
    let (id, s1) = wire::next_number(s, 4)->Ok_0;
    let (name, s2) = wire::next_string(s1)->Ok_0;
    let (size, s3) = wire::next_number(s2, 8)->Ok_0;
    let (elem_size, s4) = wire::next_number(s3, 4)->Ok_0;
    let (elem_align, s5) = wire::next_number(s4, 4)->Ok_0;
    wire::lemma_bytes_of_next_number(s, 4);
    wire::lemma_wire_of_next_string(s1);
    wire::lemma_bytes_of_next_number(s2, 8);
    wire::lemma_bytes_of_next_number(s3, 4);
    wire::lemma_bytes_of_next_number(s4, 4);
    wire::lemma_wire_of_next_string(s5);
    lemma_region_fields(region, rest, s, s1, s2, s3, s4, s5);
}

proof fn lemma_region_fields(
    region: RegionDescView,
    rest: Seq<u8>,
    s: Seq<u8>,
    s1: Seq<u8>,
    s2: Seq<u8>,
    s3: Seq<u8>,
    s4: Seq<u8>,
    s5: Seq<u8>,
)
    requires
        s == wire::le_bytes(region.id as nat, 4) + s1,
        s1 == wire::str_wire(region.name) + s2,
        s2 == wire::le_bytes(region.size as nat, 8) + s3,
        s3 == wire::le_bytes(region.elem_size as nat, 4) + s4,
        s4 == wire::le_bytes(region.elem_align as nat, 4) + s5,
        s5 == wire::str_wire(region.elem_type) + rest,
    ensures
        s == region.wire() + rest,
{
    let w5 = wire::str_wire(region.elem_type);
    let w4 = wire::le_bytes(region.elem_align as nat, 4) + w5;
    let w3 = wire::le_bytes(region.elem_size as nat, 4) + w4;
    let w2 = wire::le_bytes(region.size as nat, 8) + w3;
    let w1 = wire::str_wire(region.name) + w2;
    lemma_prepend(wire::le_bytes(region.elem_align as nat, 4), w5, rest);
    lemma_prepend(wire::le_bytes(region.elem_size as nat, 4), w4, rest);
    lemma_prepend(wire::le_bytes(region.size as nat, 8), w3, rest);
    lemma_prepend(wire::str_wire(region.name), w2, rest);
    lemma_prepend(wire::le_bytes(region.id as nat, 4), w1, rest);
}

proof fn lemma_next_tuple_of_wire(tuple: TupleDesc, rest: Seq<u8>)
    ensures
        meta::next_tuple(tuple.wire() + rest) == Ok::<(TupleDesc, Seq<u8>), Error>((tuple, rest)),
{
    reveal(meta::next_tuple);
    wire::lemma_byte_ranges();
    let s4 = rest;
    let s3 = wire::le_bytes(tuple.rkey as nat, 4) + s4;
    let s2 = wire::le_bytes(tuple.size as nat, 8) + s3;
    let s1 = wire::le_bytes(tuple.remote_addr as nat, 8) + s2;
    let s0 = wire::le_bytes(tuple.region_id as nat, 4) + s1;
    assert(tuple.wire() + rest =~= s0);
    wire::lemma_next_number_of_bytes(tuple.region_id as nat, 4, s1);
    wire::lemma_next_number_of_bytes(tuple.remote_addr as nat, 8, s2);
    wire::lemma_next_number_of_bytes(tuple.size as nat, 8, s3);
    wire::lemma_next_number_of_bytes(tuple.rkey as nat, 4, s4);
}

proof fn lemma_wire_of_next_tuple(s: Seq<u8>)
    requires
        meta::next_tuple(s) is Ok,
    ensures
        s == meta::next_tuple(s)->Ok_0.0.wire() + meta::next_tuple(s)->Ok_0.1,
{
    reveal(meta::next_tuple);
    wire::lemma_byte_ranges();
    let (tuple, rest) = meta::next_tuple(s)->Ok_0;
    let s1 = wire::next_number(s, 4)->Ok_0.1;
    let s2 = wire::next_number(s1, 8)->Ok_0.1;
    let s3 = wire::next_number(s2, 8)->Ok_0.1;
    wire::lemma_bytes_of_next_number(s, 4);
    wire::lemma_bytes_of_next_number(s1, 8);
    wire::lemma_bytes_of_next_number(s2, 8);
    wire::lemma_bytes_of_next_number(s3, 4);
    assert(s =~= tuple.wire() + rest);
}

proof fn lemma_next_regions_of_wire(regions: Seq<RegionDescView>, rest: Seq<u8>)
    requires
        forall|i: int| 0 <= i < regions.len() ==> (#[trigger] regions[i]).fits(),
    ensures
        meta::next_regions(meta::regions_wire(regions) + rest, regions.len()) == Ok::<
            (Seq<RegionDescView>, Seq<u8>),
            Error,
        >((regions, rest)),
    decreases regions.len(),
{
    if regions.len() == 0 {
        assert(meta::regions_wire(regions) + rest =~= rest);
        assert(regions =~= Seq::empty());
    } else {
        let tail = regions.drop_first();
        assert forall|i: int| 0 <= i < tail.len() implies (#[trigger] tail[i]).fits() by {
            assert(tail[i] == regions[i + 1]);
        }
        lemma_next_regions_of_wire(tail, rest);
        let behind = meta::regions_wire(tail) + rest;
        assert(meta::regions_wire(regions) + rest =~= regions[0].wire() + behind);
        lemma_next_region_of_wire(regions[0], behind);
        assert(seq![regions[0]] + tail =~= regions);
    }
}

proof fn lemma_wire_of_next_regions(s: Seq<u8>, count: nat)
    requires
        meta::next_regions(s, count) is Ok,
    ensures
        ({
            let (regions, rest) = meta::next_regions(s, count)->Ok_0;
            &&& regions.len() == count
            &&& forall|i: int| 0 <= i < regions.len() ==> (#[trigger] regions[i]).fits()
            &&& s == meta::regions_wire(regions) + rest
        }),
    decreases count,
{
    let (regions, rest) = meta::next_regions(s, count)->Ok_0;
    if count == 0 {
        assert(s =~= meta::regions_wire(regions) + rest);
    } else {
        lemma_wire_of_next_region(s);
        let (first, behind) = meta::next_region(s)->Ok_0;
        lemma_wire_of_next_regions(behind, (count - 1) as nat);
        let (others, _) = meta::next_regions(behind, (count - 1) as nat)->Ok_0;
        assert(regions.drop_first() =~= others);
        assert forall|i: int| 0 <= i < regions.len() implies (#[trigger] regions[i]).fits() by {
            if i > 0 {
                assert(regions[i] == others[i - 1]);
            }
        }
        assert(s =~= meta::regions_wire(regions) + rest);
    }
}

proof fn lemma_next_tuples_of_wire(tuples: Seq<TupleDesc>, rest: Seq<u8>)
    ensures
        meta::next_tuples(meta::tuples_wire(tuples) + rest, tuples.len()) == Ok::<
            (Seq<TupleDesc>, Seq<u8>),
            Error,
        >((tuples, rest)),
    decreases tuples.len(),
{
    if tuples.len() == 0 {
        assert(meta::tuples_wire(tuples) + rest =~= rest);
        assert(tuples =~= Seq::empty());
    } else {
        let tail = tuples.drop_first();
        lemma_next_tuples_of_wire(tail, rest);
        let behind = meta::tuples_wire(tail) + rest;
        assert(meta::tuples_wire(tuples) + rest =~= tuples[0].wire() + behind);
        lemma_next_tuple_of_wire(tuples[0], behind);
        assert(seq![tuples[0]] + tail =~= tuples);
    }
}

proof fn lemma_wire_of_next_tuples(s: Seq<u8>, count: nat)
    requires
        meta::next_tuples(s, count) is Ok,
    ensures
        ({
            let (tuples, rest) = meta::next_tuples(s, count)->Ok_0;
            &&& tuples.len() == count
            &&& s == meta::tuples_wire(tuples) + rest
        }),
    decreases count,
{
    let (tuples, rest) = meta::next_tuples(s, count)->Ok_0;
    if count == 0 {
        assert(s =~= meta::tuples_wire(tuples) + rest);
    } else {
        lemma_wire_of_next_tuple(s);
        let (first, behind) = meta::next_tuple(s)->Ok_0;
        lemma_wire_of_next_tuples(behind, (count - 1) as nat);
        let (others, _) = meta::next_tuples(behind, (count - 1) as nat)->Ok_0;
        assert(tuples.drop_first() =~= others);
        assert(s =~= meta::tuples_wire(tuples) + rest);
    }
}

/// A payload is read back as the message it was made from, up to
/// exactly its end, whatever follows it.
proof fn lemma_next_message_of_payload(msg: MessageView, rest: Seq<u8>)
    requires
        msg.fits(),
    ensures
        meta::next_message(msg.code(), msg.payload() + rest) == Ok::<
            (MessageView, Seq<u8>),
            Error,
        >((msg, rest)),
{
    wire::lemma_byte_ranges();
    match msg {
        MessageView::Hello { version } => {
            wire::lemma_next_number_of_bytes(version as nat, 2, rest);
        },
        MessageView::Welcome { version } => {
            wire::lemma_next_number_of_bytes(version as nat, 2, rest);
        },
        MessageView::WantGroup { group } => {
            wire::lemma_next_number_of_bytes(group as nat, 4, rest);
        },
        MessageView::Update => {
            assert(msg.payload() + rest =~= rest);
        },
        MessageView::Metadata { regions } => {
            let behind = meta::regions_wire(regions) + rest;
            assert(msg.payload() + rest =~= wire::le_bytes(regions.len(), 4) + behind);
            wire::lemma_next_number_of_bytes(regions.len(), 4, behind);
            lemma_next_regions_of_wire(regions, rest);
        },
        MessageView::Tuples { group, tuples } => {
            let list = meta::tuples_wire(tuples) + rest;
            let behind = wire::le_bytes(tuples.len(), 4) + list;
            assert(msg.payload() + rest =~= wire::le_bytes(group as nat, 4) + behind);
            wire::lemma_next_number_of_bytes(group as nat, 4, behind);
            wire::lemma_next_number_of_bytes(tuples.len(), 4, list);
            lemma_next_tuples_of_wire(tuples, rest);
        },
    }
}

/// Decoding undoes encoding: every message whose counts and lengths
/// fit their fields is decoded from its own type code and payload.
pub proof fn law_decoding_undoes_encoding(msg: MessageView)
    requires
        msg.fits(),
    ensures
        meta::decoded(msg.code(), msg.payload()) == Ok::<MessageView, Error>(msg),
{
    lemma_next_message_of_payload(msg, Seq::empty());
    assert(msg.payload() + Seq::empty() =~= msg.payload());
}

/// Encoding undoes decoding: a payload decodes to a message only if it
/// is, byte for byte, that message's payload, under its type code.
pub proof fn law_encoding_undoes_decoding(ty: u8, payload: Seq<u8>)
    requires
        meta::decoded(ty, payload) is Ok,
    ensures
        ({
            let msg = meta::decoded(ty, payload)->Ok_0;
            &&& msg.fits()
            &&& msg.code() == ty
            &&& msg.payload() == payload
        }),
{
    wire::lemma_byte_ranges();
    let msg = meta::decoded(ty, payload)->Ok_0;
    if ty == meta::MSG_HELLO || ty == meta::MSG_WELCOME {
        wire::lemma_bytes_of_next_number(payload, 2);
    } else if ty == meta::MSG_WANT_GROUP {
        wire::lemma_bytes_of_next_number(payload, 4);
    } else if ty == meta::MSG_METADATA {
        wire::lemma_bytes_of_next_number(payload, 4);
        let (count, behind) = wire::next_number(payload, 4)->Ok_0;
        lemma_wire_of_next_regions(behind, count);
    } else if ty == meta::MSG_TUPLES {
        wire::lemma_bytes_of_next_number(payload, 4);
        let (_, behind) = wire::next_number(payload, 4)->Ok_0;
        wire::lemma_bytes_of_next_number(behind, 4);
        let (count, list) = wire::next_number(behind, 4)->Ok_0;
        lemma_wire_of_next_tuples(list, count);
    }
    assert(msg.payload() =~= payload);
}

/// Bytes behind a message's payload are a protocol violation.
pub proof fn law_trailing_bytes_are_rejected(msg: MessageView, extra: Seq<u8>)
    requires
        msg.fits(),
        extra.len() > 0,
    ensures
        meta::decoded(msg.code(), msg.payload() + extra) == Err::<MessageView, Error>(
            Error::TrailingBytes,
        ),
{
    lemma_next_message_of_payload(msg, extra);
}

proof fn lemma_regions_fit(regions: Seq<RegionDescView>)
    ensures
        regions.len() <= meta::regions_wire(regions).len(),
        forall|i: int|
            0 <= i < regions.len() ==> encode_utf8((#[trigger] regions[i]).name).len()
                + encode_utf8(regions[i].elem_type).len() <= meta::regions_wire(regions).len(),
    decreases regions.len(),
{
    if regions.len() > 0 {
        let tail = regions.drop_first();
        lemma_regions_fit(tail);
        wire::lemma_le_bytes_len(regions[0].id as nat, 4);
        assert(regions[0].wire().len() >= 4 + encode_utf8(regions[0].name).len() + encode_utf8(
            regions[0].elem_type,
        ).len());
        assert forall|i: int| 0 <= i < regions.len() implies encode_utf8(
            (#[trigger] regions[i]).name,
        ).len() + encode_utf8(regions[i].elem_type).len() <= meta::regions_wire(regions).len() by {
            if i > 0 {
                assert(regions[i] == tail[i - 1]);
            }
        }
    }
}

proof fn lemma_tuples_fit(tuples: Seq<TupleDesc>)
    ensures
        tuples.len() <= meta::tuples_wire(tuples).len(),
    decreases tuples.len(),
{
    if tuples.len() > 0 {
        lemma_tuples_fit(tuples.drop_first());
        wire::lemma_le_bytes_len(tuples[0].region_id as nat, 4);
    }
}

/// A message within the frame limit has no count or length that does
/// not fit its field.
pub proof fn lemma_sendable_fits(msg: MessageView)
    requires
        msg.sendable(),
    ensures
        msg.fits(),
        msg.countable(),
{
    match msg {
        MessageView::Metadata { regions } => {
            lemma_regions_fit(regions);
        },
        MessageView::Tuples { group, tuples } => {
            lemma_tuples_fit(tuples);
        },
        _ => {},
    }
}

/// The header of a message's frame, and what follows it.
proof fn lemma_frame_parts(msg: MessageView, rest: Seq<u8>)
    requires
        1 + msg.payload().len() <= u32::MAX,
    ensures
        ({
            let s = msg.frame() + rest;
            &&& s.len() >= meta::HEADER_LEN
            &&& wire::le_value(s.take(meta::HEADER_LEN as int).take(4)) == 1 + msg.payload().len()
            &&& s.take(meta::HEADER_LEN as int)[4] == msg.code()
            &&& s.skip(meta::HEADER_LEN as int) == msg.payload() + rest
        }),
{
    let len = 1 + msg.payload().len();
    let s = msg.frame() + rest;
    wire::lemma_byte_ranges();
    wire::lemma_le_bytes_len(len, 4);
    wire::lemma_le_value_of_bytes(len, 4);
    assert(s.take(meta::HEADER_LEN as int).take(4) =~= wire::le_bytes(len, 4));
    assert(s.skip(meta::HEADER_LEN as int) =~= msg.payload() + rest);
}

/// What is sent is received: the frame of every message within the
/// frame limit is received as that message, and the stream continues
/// behind it.
pub proof fn law_frames_round_trip(msg: MessageView, rest: Seq<u8>)
    requires
        msg.sendable(),
    ensures
        meta::received(msg.frame() + rest) == Ok::<(MessageView, Seq<u8>), Error>((msg, rest)),
{
    lemma_sendable_fits(msg);
    lemma_frame_parts(msg, rest);
    let body = msg.payload() + rest;
    assert(body.take(msg.payload().len() as int) =~= msg.payload());
    assert(body.skip(msg.payload().len() as int) =~= rest);
    law_decoding_undoes_encoding(msg);
}

/// Only what was sent is received: where a message is received, the
/// stream starts with the frame of that message.
pub proof fn law_received_was_sent(s: Seq<u8>)
    requires
        meta::received(s) is Ok,
    ensures
        ({
            let (msg, rest) = meta::received(s)->Ok_0;
            &&& msg.sendable()
            &&& s == msg.frame() + rest
        }),
{
    let (msg, rest) = meta::received(s)->Ok_0;
    let head = s.take(meta::HEADER_LEN as int);
    let body = s.skip(meta::HEADER_LEN as int);
    let header = meta::announced(head)->Ok_0;
    law_encoding_undoes_decoding(header.ty, body.take(header.payload_len as int));
    wire::lemma_le_bytes_of_value(head.take(4));
    assert(s =~= msg.frame() + rest);
}

/// A stream that ends inside a frame, however early, is answered as
/// ended.
pub proof fn law_truncated_frames_end_the_stream(msg: MessageView, cut: nat)
    requires
        msg.sendable(),
        cut < msg.frame().len(),
    ensures
        meta::received(msg.frame().take(cut as int)) == Err::<(MessageView, Seq<u8>), Error>(
            Error::StreamEnded,
        ),
{
    let s = msg.frame().take(cut as int);
    wire::lemma_le_bytes_len(1 + msg.payload().len(), 4);
    if cut >= meta::HEADER_LEN {
        lemma_frame_parts(msg, Seq::empty());
        assert(msg.frame() + Seq::empty() =~= msg.frame());
        assert(s.take(meta::HEADER_LEN as int) =~= msg.frame().take(meta::HEADER_LEN as int));
    }
}

/// A frame over the limit is refused on its header alone.
pub proof fn law_oversized_frames_are_refused(msg: MessageView, rest: Seq<u8>)
    requires
        meta::MAX_FRAME < 1 + msg.payload().len() <= u32::MAX,
    ensures
        meta::received(msg.frame() + rest) == Err::<(MessageView, Seq<u8>), Error>(
            Error::FrameLengthOutOfRange { len: (1 + msg.payload().len()) as u32 },
        ),
{
    lemma_frame_parts(msg, rest);
}

} // verus!
