//! What the wire carries, byte by byte, said of the calls themselves.

use vstd::prelude::*;
use vstd::utf8::*;

use crate::error::Error;
use crate::meta;
use crate::meta::{
    decode, read_frame, read_header, write_frame, FrameHeader, Message, RegionDesc, RegionDescView,
    TupleDesc,
};
use crate::meta_laws;
use crate::text;
use crate::wire;
use crate::wire::{put_len, put_str, put_u16, put_u32, put_u64, Reader};

verus! {

/// The two bytes of `s` at `at`, least significant first.
pub open spec fn u16_at(s: Seq<u8>, at: int) -> int {
    s[at] + 0x100 * s[at + 1]
}

/// The four bytes of `s` at `at`, least significant first.
pub open spec fn u32_at(s: Seq<u8>, at: int) -> int {
    s[at] + 0x100 * s[at + 1] + 0x1_0000 * s[at + 2] + 0x100_0000 * s[at + 3]
}

/// The eight bytes of `s` at `at`, least significant first.
pub open spec fn u64_at(s: Seq<u8>, at: int) -> int {
    u32_at(s, at) + 0x1_0000_0000 * u32_at(s, at + 4)
}

proof fn lemma_value_2(s: Seq<u8>)
    requires
        s.len() == 2,
    ensures
        wire::le_value(s) == u16_at(s, 0),
{
    reveal_with_fuel(wire::le_value, 3);
    assert(s.drop_first()[0] == s[1]);
}

proof fn lemma_value_4(s: Seq<u8>)
    requires
        s.len() == 4,
    ensures
        wire::le_value(s) == u32_at(s, 0),
{
    reveal_with_fuel(wire::le_value, 5);
    let a = s.drop_first();
    let b = a.drop_first();
    let c = b.drop_first();
    assert(a[0] == s[1] && b[0] == s[2] && c[0] == s[3]);
    assert(c.drop_first().len() == 0);
}

proof fn lemma_value_8(s: Seq<u8>)
    requires
        s.len() == 8,
    ensures
        wire::le_value(s) == u64_at(s, 0),
{
    reveal_with_fuel(wire::le_value, 5);
    let a = s.drop_first();
    let b = a.drop_first();
    let c = b.drop_first();
    let d = c.drop_first();
    assert(a[0] == s[1] && b[0] == s[2] && c[0] == s[3]);
    lemma_value_4(d);
    assert(d[0] == s[4] && d[1] == s[5] && d[2] == s[6] && d[3] == s[7]);
}

/// A number's bytes are the number, least significant first.
proof fn lemma_bytes(v: nat)
    ensures
        wire::le_bytes(v, 2).len() == 2,
        wire::le_bytes(v, 4).len() == 4,
        wire::le_bytes(v, 8).len() == 8,
        v < 0x1_0000 ==> u16_at(wire::le_bytes(v, 2), 0) == v,
        v < 0x1_0000_0000 ==> u32_at(wire::le_bytes(v, 4), 0) == v,
        v < 0x1_0000_0000_0000_0000 ==> u64_at(wire::le_bytes(v, 8), 0) == v,
{
    wire::lemma_byte_ranges();
    wire::lemma_le_bytes_len(v, 2);
    wire::lemma_le_bytes_len(v, 4);
    wire::lemma_le_bytes_len(v, 8);
    lemma_value_2(wire::le_bytes(v, 2));
    lemma_value_4(wire::le_bytes(v, 4));
    lemma_value_8(wire::le_bytes(v, 8));
    if v < 0x1_0000 {
        wire::lemma_le_value_of_bytes(v, 2);
    }
    if v < 0x1_0000_0000 {
        wire::lemma_le_value_of_bytes(v, 4);
    }
    if v < 0x1_0000_0000_0000_0000 {
        wire::lemma_le_value_of_bytes(v, 8);
    }
}

/// Numbers are written behind what there is, least significant byte
/// first, in as many bytes as their type has.
pub proof fn law_numbers_are_written_little_endian(
    a: &mut Vec<u8>,
    x: u16,
    b: &mut Vec<u8>,
    y: u32,
    c: &mut Vec<u8>,
    z: u64,
    d: &mut Vec<u8>,
    len: usize,
)
    requires
        call_ensures(put_u16, (a, x), ()),
        call_ensures(put_u32, (b, y), ()),
        call_ensures(put_u64, (c, z), ()),
        call_ensures(put_len, (d, len), ()),
    ensures
        final(a)@.len() == old(a)@.len() + 2,
        final(a)@.take(old(a)@.len() as int) == old(a)@,
        u16_at(final(a)@, old(a)@.len() as int) == x,
        final(b)@.len() == old(b)@.len() + 4,
        final(b)@.take(old(b)@.len() as int) == old(b)@,
        u32_at(final(b)@, old(b)@.len() as int) == y,
        final(c)@.len() == old(c)@.len() + 8,
        final(c)@.take(old(c)@.len() as int) == old(c)@,
        u64_at(final(c)@, old(c)@.len() as int) == z,
        final(d)@.len() == old(d)@.len() + 4,
        final(d)@.take(old(d)@.len() as int) == old(d)@,
        len <= u32::MAX ==> u32_at(final(d)@, old(d)@.len() as int) == len,
{
    lemma_bytes(x as nat);
    lemma_bytes(y as nat);
    lemma_bytes(z as nat);
    lemma_bytes(len as nat);
    assert(final(a)@.take(old(a)@.len() as int) =~= old(a)@);
    assert(final(b)@.take(old(b)@.len() as int) =~= old(b)@);
    assert(final(c)@.take(old(c)@.len() as int) =~= old(c)@);
    assert(final(d)@.take(old(d)@.len() as int) =~= old(d)@);
}

/// A string is written as the length of its UTF-8 encoding and then the
/// encoding.
pub proof fn law_strings_follow_their_length(buf: &mut Vec<u8>, s: &str)
    requires
        call_ensures(put_str, (buf, s), ()),
    ensures
        final(buf)@.len() == old(buf)@.len() + 4 + encode_utf8(s@).len(),
        final(buf)@.take(old(buf)@.len() as int) == old(buf)@,
        encode_utf8(s@).len() <= u32::MAX ==> u32_at(final(buf)@, old(buf)@.len() as int)
            == encode_utf8(s@).len(),
        final(buf)@.skip(old(buf)@.len() as int + 4) == encode_utf8(s@),
{
    lemma_bytes(encode_utf8(s@).len());
    assert(final(buf)@.take(old(buf)@.len() as int) =~= old(buf)@);
    assert(final(buf)@.skip(old(buf)@.len() as int + 4) =~= encode_utf8(s@));
}

/// A number is read off the cursor, least significant byte first, and
/// the cursor moves past it; where too few bytes are left there is no
/// number, and the cursor stays.
pub proof fn law_numbers_are_read_little_endian(
    a: &mut Reader<'_>,
    x: Result<u16, Error>,
    b: &mut Reader<'_>,
    y: Result<u32, Error>,
    c: &mut Reader<'_>,
    z: Result<u64, Error>,
)
    requires
        call_ensures(Reader::u16, (a,), x),
        call_ensures(Reader::u32, (b,), y),
        call_ensures(Reader::u64, (c,), z),
        old(a).wf(),
        old(b).wf(),
        old(c).wf(),
    ensures
        match x {
            Ok(v) => old(a).pos + 2 <= old(a).buf@.len() && v == u16_at(
                old(a).buf@,
                old(a).pos as int,
            ) && final(a).pos == old(a).pos + 2,
            Err(e) => old(a).pos + 2 > old(a).buf@.len() && e == Error::PayloadEndsMidMessage
                && final(a).pos == old(a).pos,
        },
        match y {
            Ok(v) => old(b).pos + 4 <= old(b).buf@.len() && v == u32_at(
                old(b).buf@,
                old(b).pos as int,
            ) && final(b).pos == old(b).pos + 4,
            Err(e) => old(b).pos + 4 > old(b).buf@.len() && e == Error::PayloadEndsMidMessage
                && final(b).pos == old(b).pos,
        },
        match z {
            Ok(v) => old(c).pos + 8 <= old(c).buf@.len() && v == u64_at(
                old(c).buf@,
                old(c).pos as int,
            ) && final(c).pos == old(c).pos + 8,
            Err(e) => old(c).pos + 8 > old(c).buf@.len() && e == Error::PayloadEndsMidMessage
                && final(c).pos == old(c).pos,
        },
        final(a).buf@ == old(a).buf@,
        final(b).buf@ == old(b).buf@,
        final(c).buf@ == old(c).buf@,
{
    if x is Ok {
        lemma_value_2(old(a).rest().take(2));
    }
    if y is Ok {
        lemma_value_4(old(b).rest().take(4));
    }
    if z is Ok {
        lemma_value_8(old(c).rest().take(8));
    }
}

/// A string is read off the cursor: its length, and behind it as many
/// bytes, which must be UTF-8.
pub proof fn law_strings_are_read_behind_their_length(
    reader: &mut Reader<'_>,
    result: Result<String, Error>,
)
    requires
        call_ensures(Reader::string, (reader,), result),
        old(reader).wf(),
    ensures
        ({
            let buf = old(reader).buf@;
            let pos = old(reader).pos as int;
            let left = buf.len() - pos;
            let len = u32_at(buf, pos);
            &&& final(reader).buf@ == buf
            &&& if left < 4 {
                &&& result == Err::<String, Error>(Error::PayloadEndsMidMessage)
                &&& final(reader).pos == pos
            } else if left < 4 + len {
                &&& result == Err::<String, Error>(Error::PayloadEndsMidMessage)
                &&& final(reader).pos == pos + 4
            } else {
                let bytes = buf.subrange(pos + 4, pos + 4 + len);
                &&& final(reader).pos == pos + 4 + len
                &&& match result {
                    Ok(text) => valid_utf8(bytes) && encode_utf8(text@) == bytes,
                    Err(e) => !valid_utf8(bytes) && e == Error::NotUtf8,
                }
            }
        }),
{
    let buf = old(reader).buf@;
    let pos = old(reader).pos as int;
    let rest = old(reader).rest();
    if buf.len() - pos >= 4 {
        lemma_value_4(rest.take(4));
        let len = u32_at(buf, pos);
        if buf.len() - pos >= 4 + len {
            let bytes = buf.subrange(pos + 4, pos + 4 + len);
            assert(rest.skip(4).take(len) =~= bytes);
            if valid_utf8(bytes) {
                decode_utf8_encode_utf8(bytes);
            }
        }
    }
}

/// A message's frame: the length of what follows the length, the code of
/// the message's type, and the payload.
pub proof fn law_frames_announce_their_payload(msg: &Message, payload: Vec<u8>, frame: Vec<u8>)
    requires
        call_ensures(Message::payload, (msg,), payload),
        call_ensures(Message::encode, (msg,), frame),
    ensures
        frame@.len() == 5 + payload@.len(),
        payload@.len() < u32::MAX ==> u32_at(frame@, 0) == 1 + payload@.len(),
        frame@[4] == match *msg {
            Message::Hello { .. } => 1u8,
            Message::Welcome { .. } => 2u8,
            Message::WantGroup { .. } => 3u8,
            Message::Update => 4u8,
            Message::Metadata { .. } => 5u8,
            Message::Tuples { .. } => 6u8,
        },
        frame@.skip(5) == payload@,
{
    lemma_bytes(1 + payload@.len());
    assert(frame@.skip(5) =~= payload@);
}

/// The payloads of the greetings are their version, that of a group join
/// its group, and a request for an update has none.
pub proof fn law_short_payloads(msg: &Message, payload: Vec<u8>)
    requires
        call_ensures(Message::payload, (msg,), payload),
    ensures
        match *msg {
            Message::Hello { version } => payload@.len() == 2 && u16_at(payload@, 0) == version,
            Message::Welcome { version } => payload@.len() == 2 && u16_at(payload@, 0) == version,
            Message::WantGroup { group } => payload@.len() == 4 && u32_at(payload@, 0) == group,
            Message::Update => payload@.len() == 0,
            _ => true,
        },
{
    match *msg {
        Message::Hello { version } => lemma_bytes(version as nat),
        Message::Welcome { version } => lemma_bytes(version as nat),
        Message::WantGroup { group } => lemma_bytes(group as nat),
        _ => {},
    }
}

/// The bytes of a tuple, field by field.
proof fn lemma_tuple_bytes(tuple: TupleDesc)
    ensures
        tuple.wire().len() == 24,
        u32_at(tuple.wire(), 0) == tuple.region_id,
        u64_at(tuple.wire(), 4) == tuple.remote_addr,
        u64_at(tuple.wire(), 12) == tuple.size,
        u32_at(tuple.wire(), 20) == tuple.rkey,
{
    lemma_bytes(tuple.region_id as nat);
    lemma_bytes(tuple.remote_addr as nat);
    lemma_bytes(tuple.size as nat);
    lemma_bytes(tuple.rkey as nat);
}

/// The bytes of a list of tuples, tuple by tuple.
proof fn lemma_tuples_bytes(tuples: Seq<TupleDesc>)
    ensures
        meta::tuples_wire(tuples).len() == 24 * tuples.len(),
        forall|i: int|
            0 <= i < tuples.len() ==> {
                &&& u32_at(meta::tuples_wire(tuples), 24 * i) == (#[trigger] tuples[i]).region_id
                &&& u64_at(meta::tuples_wire(tuples), 24 * i + 4) == tuples[i].remote_addr
                &&& u64_at(meta::tuples_wire(tuples), 24 * i + 12) == tuples[i].size
                &&& u32_at(meta::tuples_wire(tuples), 24 * i + 20) == tuples[i].rkey
            },
    decreases tuples.len(),
{
    if tuples.len() > 0 {
        let tail = tuples.drop_first();
        let all = meta::tuples_wire(tuples);
        let rest = meta::tuples_wire(tail);
        lemma_tuples_bytes(tail);
        lemma_tuple_bytes(tuples[0]);
        assert(all.len() == 24 + rest.len());
        assert forall|i: int| 0 <= i < tuples.len() implies {
            &&& u32_at(all, 24 * i) == (#[trigger] tuples[i]).region_id
            &&& u64_at(all, 24 * i + 4) == tuples[i].remote_addr
            &&& u64_at(all, 24 * i + 12) == tuples[i].size
            &&& u32_at(all, 24 * i + 20) == tuples[i].rkey
        } by {
            if i > 0 {
                let at = 24 * (i - 1);
                assert(tail[i - 1] == tuples[i]);
                assert(at + 24 <= rest.len());
                assert(u32_at(all, 24 * i) == u32_at(rest, at));
                assert(u64_at(all, 24 * i + 4) == u64_at(rest, at + 4));
                assert(u64_at(all, 24 * i + 12) == u64_at(rest, at + 12));
                assert(u32_at(all, 24 * i + 20) == u32_at(rest, at + 20));
            }
        }
    }
}

/// The payload of a group's tuples: the group, their number, and behind
/// it each tuple's region, address, size and key.
pub proof fn law_tuple_payloads(group: u32, tuples: Vec<TupleDesc>, payload: Vec<u8>)
    requires
        call_ensures(Message::payload, (&Message::Tuples { group, tuples },), payload),
    ensures
        payload@.len() == 8 + 24 * tuples@.len(),
        u32_at(payload@, 0) == group,
        tuples@.len() <= u32::MAX ==> u32_at(payload@, 4) == tuples@.len(),
        forall|i: int|
            0 <= i < tuples@.len() ==> {
                &&& u32_at(payload@, 8 + 24 * i) == (#[trigger] tuples@[i]).region_id
                &&& u64_at(payload@, 8 + 24 * i + 4) == tuples@[i].remote_addr
                &&& u64_at(payload@, 8 + 24 * i + 12) == tuples@[i].size
                &&& u32_at(payload@, 8 + 24 * i + 20) == tuples@[i].rkey
            },
{
    lemma_bytes(group as nat);
    lemma_bytes(tuples@.len());
    lemma_tuples_bytes(tuples@);
    let list = meta::tuples_wire(tuples@);
    assert forall|i: int| 0 <= i < tuples@.len() implies {
        &&& u32_at(payload@, 8 + 24 * i) == (#[trigger] tuples@[i]).region_id
        &&& u64_at(payload@, 8 + 24 * i + 4) == tuples@[i].remote_addr
        &&& u64_at(payload@, 8 + 24 * i + 12) == tuples@[i].size
        &&& u32_at(payload@, 8 + 24 * i + 20) == tuples@[i].rkey
    } by {
        assert(u32_at(payload@, 8 + 24 * i) == u32_at(list, 24 * i));
        assert(u64_at(payload@, 8 + 24 * i + 4) == u64_at(list, 24 * i + 4));
        assert(u64_at(payload@, 8 + 24 * i + 12) == u64_at(list, 24 * i + 12));
        assert(u32_at(payload@, 8 + 24 * i + 20) == u32_at(list, 24 * i + 20));
    }
}

/// The payload of a catalog: the number of its regions, and behind it
/// the regions one after the other, each with its id, its name behind
/// the name's length, its size, its elements' size and alignment, and
/// their type's name behind that name's length. An empty catalog is its
/// number alone, and one more region is so many more bytes at the end.
pub proof fn law_catalog_payloads(
    front: Vec<RegionDesc>,
    before: Vec<u8>,
    all: Vec<RegionDesc>,
    region: RegionDesc,
    payload: Vec<u8>,
)
    requires
        call_ensures(Message::payload, (&Message::Metadata { regions: front },), before),
        call_ensures(Message::payload, (&Message::Metadata { regions: all },), payload),
        all@ == front@.push(region),
        encode_utf8(region.name@).len() <= u32::MAX,
        encode_utf8(region.elem_type@).len() <= u32::MAX,
    ensures
        before@.len() >= 4,
        front@.len() <= u32::MAX ==> u32_at(before@, 0) == front@.len(),
        front@.len() == 0 ==> before@.len() == 4,
        ({
            let name = encode_utf8(region.name@);
            let elem_type = encode_utf8(region.elem_type@);
            let at = before@.len() as int;
            let size_at = at + 8 + name.len();
            &&& payload@.len() == at + 28 + name.len() + elem_type.len()
            &&& payload@.subrange(4, at) == before@.skip(4)
            &&& u32_at(payload@, at) == region.id
            &&& u32_at(payload@, at + 4) == name.len()
            &&& payload@.subrange(at + 8, size_at) == name
            &&& u64_at(payload@, size_at) == region.size
            &&& u32_at(payload@, size_at + 8) == region.elem_size
            &&& u32_at(payload@, size_at + 12) == region.elem_align
            &&& u32_at(payload@, size_at + 16) == elem_type.len()
            &&& payload@.skip(size_at + 20) == elem_type
        }),
{
    let views = meta::descs_view(front@);
    assert(meta::descs_view(all@) =~= views.push(region@));
    meta::lemma_regions_wire_push(views, region@);
    lemma_bytes(front@.len());
    lemma_bytes(all@.len());
    lemma_region_bytes(region@);
    let name = encode_utf8(region.name@);
    let at = before@.len() as int;
    let n = name.len() as int;
    let size_at = at + 8 + name.len();
    let entry = region@.wire();
    lemma_appended(
        before@,
        payload@,
        wire::le_bytes(front@.len(), 4),
        wire::le_bytes(all@.len(), 4),
        meta::regions_wire(views),
        entry,
    );
    lemma_shifted(payload@, entry, at, 8, 8 + n);
    lemma_shifted(payload@, entry, at, 28 + n, entry.len() as int);
    assert(entry.subrange(28 + n, entry.len() as int) =~= entry.skip(28 + n));
    assert(payload@.subrange(size_at + 20, payload@.len() as int) =~= payload@.skip(
        size_at + 20,
    ));
    lemma_shifted_4(payload@, entry, at, 0);
    lemma_shifted_4(payload@, entry, at, 4);
    lemma_shifted_4(payload@, entry, at, 8 + n);
    lemma_shifted_4(payload@, entry, at, 12 + n);
    lemma_shifted_4(payload@, entry, at, 16 + n);
    lemma_shifted_4(payload@, entry, at, 20 + n);
    lemma_shifted_4(payload@, entry, at, 24 + n);
}

/// A list behind its number, and the same with one more entry.
proof fn lemma_appended(
    before: Seq<u8>,
    after: Seq<u8>,
    number: Seq<u8>,
    next_number: Seq<u8>,
    list: Seq<u8>,
    entry: Seq<u8>,
)
    requires
        number.len() == 4,
        next_number.len() == 4,
        before == number + list,
        after == next_number + (list + entry),
    ensures
        after.len() == before.len() + entry.len(),
        after.subrange(4, before.len() as int) == before.skip(4),
        after.skip(before.len() as int) == entry,
        u32_at(before, 0) == u32_at(number, 0),
{
    assert(after.subrange(4, before.len() as int) =~= before.skip(4));
    assert(after.skip(before.len() as int) =~= entry);
}

/// A run of bytes stands where the string it is part of stands.
proof fn lemma_shifted(s: Seq<u8>, part: Seq<u8>, start: int, from: int, to: int)
    requires
        0 <= start,
        0 <= from <= to <= part.len(),
        s.len() == start + part.len(),
        s.skip(start) =~= part,
    ensures
        s.subrange(start + from, start + to) == part.subrange(from, to),
{
    assert(part.subrange(from, to) =~= s.skip(start).subrange(from, to));
    assert(s.subrange(start + from, start + to) =~= s.skip(start).subrange(from, to));
}

/// The bytes of a region's entry, field by field.
proof fn lemma_region_bytes(region: RegionDescView)
    requires
        encode_utf8(region.name).len() <= u32::MAX,
        encode_utf8(region.elem_type).len() <= u32::MAX,
    ensures
        ({
            let name = encode_utf8(region.name);
            let elem_type = encode_utf8(region.elem_type);
            let entry = region.wire();
            let n = name.len() as int;
            &&& entry.len() == 28 + n + elem_type.len()
            &&& u32_at(entry, 0) == region.id
            &&& u32_at(entry, 4) == n
            &&& entry.subrange(8, 8 + n) == name
            &&& u64_at(entry, 8 + n) == region.size
            &&& u32_at(entry, 16 + n) == region.elem_size
            &&& u32_at(entry, 20 + n) == region.elem_align
            &&& u32_at(entry, 24 + n) == elem_type.len()
            &&& entry.skip(28 + n) == elem_type
        }),
{
    let name = encode_utf8(region.name);
    let elem_type = encode_utf8(region.elem_type);
    let n = name.len() as int;
    lemma_bytes(region.id as nat);
    lemma_bytes(name.len());
    lemma_bytes(region.size as nat);
    lemma_bytes(region.elem_size as nat);
    lemma_bytes(region.elem_align as nat);
    lemma_bytes(elem_type.len());
    let e5 = wire::str_wire(region.elem_type);
    let e4 = wire::le_bytes(region.elem_align as nat, 4) + e5;
    let e3 = wire::le_bytes(region.elem_size as nat, 4) + e4;
    let e2 = wire::le_bytes(region.size as nat, 8) + e3;
    let e1 = wire::str_wire(region.name) + e2;
    let entry = region.wire();
    assert(entry == wire::le_bytes(region.id as nat, 4) + e1);
    assert(e5.skip(4) =~= elem_type);
    lemma_front_4(e5, elem_type.len(), elem_type);
    lemma_shifted_4(e4, e5, 4, 0);
    lemma_shifted_4(e3, e4, 4, 0);
    lemma_shifted_4(e3, e4, 4, 4);
    assert(e1.skip(4 + n) =~= e2);
    lemma_shifted_4(e1, e2, 4 + n, 0);
    lemma_shifted_4(e1, e2, 4 + n, 4);
    lemma_shifted_4(e1, e2, 4 + n, 8);
    lemma_shifted_4(e1, e2, 4 + n, 12);
    lemma_shifted_4(e1, e2, 4 + n, 16);
    lemma_shifted_4(e2, e3, 8, 0);
    lemma_shifted_4(e2, e3, 8, 4);
    lemma_shifted_4(e2, e3, 8, 8);
    lemma_shifted_4(entry, e1, 4, 0);
    lemma_shifted_4(entry, e1, 4, 4 + n);
    lemma_shifted_4(entry, e1, 4, 8 + n);
    lemma_shifted_4(entry, e1, 4, 12 + n);
    lemma_shifted_4(entry, e1, 4, 16 + n);
    lemma_shifted_4(entry, e1, 4, 20 + n);
    assert(entry.subrange(8, 8 + n) =~= name);
    assert(entry.skip(28 + n) =~= elem_type);
}

/// Four bytes stand where the string they are part of stands.
proof fn lemma_shifted_4(s: Seq<u8>, part: Seq<u8>, start: int, at: int)
    requires
        0 <= start,
        0 <= at,
        at + 4 <= part.len(),
        s.len() == start + part.len(),
        s.skip(start) =~= part,
    ensures
        u32_at(s, start + at) == u32_at(part, at),
{
    assert(part[at] == s[start + at]);
    assert(part[at + 1] == s[start + at + 1]);
    assert(part[at + 2] == s[start + at + 2]);
    assert(part[at + 3] == s[start + at + 3]);
}

proof fn lemma_front_4(s: Seq<u8>, v: nat, rest: Seq<u8>)
    requires
        v < 0x1_0000_0000,
        s == wire::le_bytes(v, 4) + rest,
    ensures
        u32_at(s, 0) == v,
{
    lemma_bytes(v);
}

/// What is written is read back: behind whatever there was in the
/// stream, a message whose payload is below the limit of 2^20 bytes is
/// received as it was sent, and the reader stands behind it.
pub proof fn law_written_frames_are_read_back(
    stream: &mut Vec<u8>,
    msg: &Message,
    payload: Vec<u8>,
    reader: &mut Reader<'_>,
    result: Result<Message, Error>,
)
    requires
        call_ensures(Message::payload, (msg,), payload),
        payload@.len() < 0x10_0000,
        call_ensures(write_frame, (stream, msg), ()),
        old(reader).buf@ == final(stream)@,
        old(reader).pos == old(stream)@.len(),
        call_ensures(read_frame, (reader,), result),
    ensures
        result matches Ok(received) && received@ == msg@,
        final(reader).pos == final(stream)@.len(),
{
    let frame = msg@.frame();
    assert(old(reader).rest() =~= frame + Seq::empty());
    meta_laws::law_frames_round_trip(msg@, Seq::empty());
    assert(final(reader).rest().len() == 0);
}

/// A header announces as many bytes of payload as its length says, less
/// the type's; a length of zero or above 2^20 is refused.
pub proof fn law_headers_announce_their_payload(
    header: &[u8],
    result: Result<FrameHeader, Error>,
)
    requires
        header@.len() == 5,
        call_ensures(read_header, (header,), result),
    ensures
        match result {
            Ok(announced) => {
                &&& 1 <= u32_at(header@, 0) <= 0x10_0000
                &&& announced.payload_len == u32_at(header@, 0) - 1
                &&& announced.ty == header@[4]
            },
            Err(e) => {
                &&& u32_at(header@, 0) == 0 || u32_at(header@, 0) > 0x10_0000
                &&& e matches Error::FrameLengthOutOfRange { len }
                &&& len == u32_at(header@, 0)
            },
        },
{
    lemma_value_4(header@.take(4));
}

/// Payloads of a fixed size are taken at that size only; a list of
/// tuples must have as many as it says; every other type is unknown.
pub proof fn law_payloads_are_taken_whole(ty: u8, payload: &[u8], result: Result<Message, Error>)
    requires
        call_ensures(decode, (ty, payload), result),
    ensures
        ({
            let n = payload@.len();
            if ty == 1 || ty == 2 {
                if n < 2 {
                    result == Err::<Message, Error>(Error::PayloadEndsMidMessage)
                } else if n > 2 {
                    result == Err::<Message, Error>(Error::TrailingBytes)
                } else if ty == 1 {
                    result matches Ok(Message::Hello { version }) && version == u16_at(
                        payload@,
                        0,
                    )
                } else {
                    result matches Ok(Message::Welcome { version }) && version == u16_at(
                        payload@,
                        0,
                    )
                }
            } else if ty == 3 {
                if n < 4 {
                    result == Err::<Message, Error>(Error::PayloadEndsMidMessage)
                } else if n > 4 {
                    result == Err::<Message, Error>(Error::TrailingBytes)
                } else {
                    result matches Ok(Message::WantGroup { group }) && group == u32_at(payload@, 0)
                }
            } else if ty == 4 {
                if n > 0 {
                    result == Err::<Message, Error>(Error::TrailingBytes)
                } else {
                    result matches Ok(Message::Update)
                }
            } else if ty == 5 || ty == 6 {
                n < 4 ==> result == Err::<Message, Error>(Error::PayloadEndsMidMessage)
            } else {
                result == Err::<Message, Error>(Error::UnknownMessageType { ty })
            }
        }),
        result matches Ok(msg) ==> match msg {
            Message::Hello { .. } => ty == 1,
            Message::Welcome { .. } => ty == 2,
            Message::WantGroup { .. } => ty == 3,
            Message::Update => ty == 4,
            Message::Metadata { .. } => ty == 5,
            Message::Tuples { .. } => ty == 6,
        },
{
    let n = payload@.len();
    if (ty == 1 || ty == 2) && n >= 2 {
        lemma_value_2(payload@.take(2));
    }
    if (ty == 3 || ty == 5 || ty == 6) && n >= 4 {
        lemma_value_4(payload@.take(4));
    }
}

/// A message that was decoded is the message whose own payload the bytes
/// are, under its own type.
pub proof fn law_decoded_messages_encode_to_their_bytes(
    ty: u8,
    bytes: &[u8],
    msg: Message,
    payload: Vec<u8>,
    code: u8,
)
    requires
        call_ensures(decode, (ty, bytes), Ok(msg)),
        call_ensures(Message::payload, (&msg,), payload),
        call_ensures(Message::code, (&msg,), code),
    ensures
        payload@ == bytes@,
        code == ty,
{
    meta_laws::law_encoding_undoes_decoding(ty, bytes@);
}

/// A message whose counts and lengths fit their fields is decoded from
/// its own type and payload; more bytes behind it are refused.
pub proof fn law_payloads_decode_to_their_message(
    msg: &Message,
    code: u8,
    payload: &[u8],
    own: Vec<u8>,
    result: Result<Message, Error>,
)
    requires
        call_ensures(Message::code, (msg,), code),
        call_ensures(Message::payload, (msg,), own),
        own@.len() < 0x10_0000,
        own@.len() <= payload@.len(),
        payload@.take(own@.len() as int) == own@,
        call_ensures(decode, (code, payload), result),
    ensures
        payload@.len() == own@.len() ==> (result matches Ok(received) && received@ == msg@),
        payload@.len() > own@.len() ==> result == Err::<Message, Error>(Error::TrailingBytes),
{
    meta_laws::lemma_sendable_fits(msg@);
    let extra = payload@.skip(own@.len() as int);
    assert(payload@ =~= own@ + extra);
    if extra.len() == 0 {
        assert(payload@ =~= own@);
        meta_laws::law_decoding_undoes_encoding(msg@);
    } else {
        meta_laws::law_trailing_bytes_are_rejected(msg@, extra);
    }
}

/// Where the reader stands once a frame was read: where it stood, if no
/// whole header is left; behind the header, if its length is refused or
/// the payload is cut short, which ends the stream; behind the frame
/// otherwise.
pub proof fn law_frames_are_read_off(reader: &mut Reader<'_>, result: Result<Message, Error>)
    requires
        call_ensures(read_frame, (reader,), result),
        old(reader).wf(),
    ensures
        ({
            let buf = old(reader).buf@;
            let pos = old(reader).pos as int;
            let left = buf.len() - pos;
            let len = u32_at(buf, pos);
            &&& final(reader).buf@ == buf
            &&& if left < 5 {
                result == Err::<Message, Error>(Error::StreamEnded) && final(reader).pos == pos
            } else if len == 0 || len > 0x10_0000 {
                &&& result matches Err(Error::FrameLengthOutOfRange { len: refused })
                &&& refused == len
                &&& final(reader).pos == pos + 5
            } else if left < 4 + len {
                result == Err::<Message, Error>(Error::StreamEnded) && final(reader).pos == pos + 5
            } else {
                final(reader).pos == pos + 4 + len
            }
        }),
{
    let rest = old(reader).rest();
    let pos = old(reader).pos as int;
    assert(final(reader).rest().len() == old(reader).buf@.len() - final(reader).pos);
    if rest.len() >= 5 {
        let head = rest.take(5);
        lemma_value_4(head.take(4));
        assert(head.take(4)[0] == old(reader).buf@[pos]);
    }
}

/// A cursor starts at the front; taking bytes gives exactly those at the
/// cursor and moves past them, or moves nowhere where too few are left;
/// it is done at the end of its bytes.
pub proof fn law_bytes_are_taken_in_order(
    buf: &[u8],
    fresh: Reader<'_>,
    reader: &mut Reader<'_>,
    len: usize,
    taken: Result<&[u8], Error>,
    done: Result<(), Error>,
)
    requires
        call_ensures(Reader::new, (buf,), fresh),
        call_ensures(Reader::take, (reader, len), taken),
        call_ensures(Reader::done, (&*old(reader),), done),
        old(reader).wf(),
    ensures
        fresh.pos == 0,
        fresh.buf@ == buf@,
        final(reader).buf@ == old(reader).buf@,
        match taken {
            Ok(bytes) => {
                &&& old(reader).pos + len <= old(reader).buf@.len()
                &&& bytes@ == old(reader).buf@.subrange(
                    old(reader).pos as int,
                    old(reader).pos + len,
                )
                &&& final(reader).pos == old(reader).pos + len
            },
            Err(e) => {
                &&& old(reader).pos + len > old(reader).buf@.len()
                &&& e == Error::PayloadEndsMidMessage
                &&& final(reader).pos == old(reader).pos
            },
        },
        match done {
            Ok(()) => old(reader).pos == old(reader).buf@.len(),
            Err(e) => old(reader).pos < old(reader).buf@.len() && e == Error::TrailingBytes,
        },
{
    if let Ok(bytes) = taken {
        assert(bytes@ =~= old(reader).buf@.subrange(
            old(reader).pos as int,
            old(reader).pos + len,
        ));
    }
}

/// The text of a message names it, with its fields; lists are in
/// brackets, with a comma between two entries.
pub proof fn law_messages_show_their_fields(text: &mut String, msg: &Message)
    requires
        call_ensures(Message::show, (msg, text), ()),
    ensures
        final(text)@ == old(text)@ + match *msg {
            Message::Hello { version } => "Hello { version: "@ + text::decimal(version as nat)
                + " }"@,
            Message::Welcome { version } => "Welcome { version: "@ + text::decimal(version as nat)
                + " }"@,
            Message::WantGroup { group } => "WantGroup { group: "@ + text::decimal(group as nat)
                + " }"@,
            Message::Update => "Update"@,
            Message::Metadata { regions } => "Metadata { regions: ["@ + joined(
                Seq::new(regions@.len(), |i: int| shown_region(regions@[i])),
            ) + "] }"@,
            Message::Tuples { group, tuples } => "Tuples { group: "@ + text::decimal(group as nat)
                + ", tuples: ["@ + joined(
                Seq::new(tuples@.len(), |i: int| shown_tuple(tuples@[i])),
            ) + "] }"@,
        },
{
    match *msg {
        Message::Metadata { regions } => {
            let views = meta::descs_view(regions@);
            let items = views.map_values(|region: RegionDescView| region.shown());
            assert(items =~= Seq::new(regions@.len(), |i: int| shown_region(regions@[i])));
            lemma_joined(items);
        },
        Message::Tuples { group, tuples } => {
            let items = tuples@.map_values(|tuple: TupleDesc| tuple.shown());
            assert(items =~= Seq::new(tuples@.len(), |i: int| shown_tuple(tuples@[i])));
            lemma_joined(items);
        },
        _ => {},
    }
}

/// Texts one after the other, with a comma between two.
pub open spec fn joined(items: Seq<Seq<char>>) -> Seq<char>
    decreases items.len(),
{
    if items.len() == 0 {
        Seq::empty()
    } else {
        let front = joined(items.drop_last());
        front + if items.len() > 1 {
            ", "@
        } else {
            Seq::empty()
        } + items.last()
    }
}

proof fn lemma_joined(items: Seq<Seq<char>>)
    ensures
        joined(items) == meta::listed(items),
    decreases items.len(),
{
    reveal_with_fuel(joined, 2);
    if items.len() > 0 {
        lemma_joined(items.drop_last());
        if items.len() == 1 {
            assert(joined(items) =~= items[0]);
        }
    }
}

/// The text of a region's catalog entry.
pub open spec fn shown_region(region: RegionDesc) -> Seq<char> {
    "RegionDesc { id: "@ + text::decimal(region.id as nat) + ", name: "@ + text::debug_quoted(
        region.name@,
    ) + ", size: "@ + text::decimal(region.size as nat) + ", elem_size: "@ + text::decimal(
        region.elem_size as nat,
    ) + ", elem_align: "@ + text::decimal(region.elem_align as nat) + ", elem_type: "@
        + text::debug_quoted(region.elem_type@) + " }"@
}

/// The text of a tuple.
pub open spec fn shown_tuple(tuple: TupleDesc) -> Seq<char> {
    "TupleDesc { region_id: "@ + text::decimal(tuple.region_id as nat) + ", remote_addr: "@
        + text::decimal(tuple.remote_addr as nat) + ", size: "@ + text::decimal(tuple.size as nat)
        + ", rkey: "@ + text::decimal(tuple.rkey as nat) + " }"@
}

/// A number of a string that is cut: it is there, or cut itself.
proof fn lemma_number_cut(s: Seq<u8>, n: nat, k: int)
    requires
        wire::next_number(s, n) is Ok,
        0 <= k <= s.len(),
    ensures
        k < n ==> wire::next_number(s.take(k), n) == Err::<(nat, Seq<u8>), Error>(
            Error::PayloadEndsMidMessage,
        ),
        k >= n ==> wire::next_number(s.take(k), n) == Ok::<(nat, Seq<u8>), Error>(
            (wire::next_number(s, n)->Ok_0.0, wire::next_number(s, n)->Ok_0.1.take(k - n)),
        ),
        wire::next_number(s, n)->Ok_0.1.len() == s.len() - n,
{
    if k >= n {
        assert(s.take(k).take(n as int) =~= s.take(n as int));
        assert(s.take(k).skip(n as int) =~= s.skip(n as int).take(k - n));
    }
}

/// A text of a string that is cut: it is there, or cut itself.
proof fn lemma_string_cut(s: Seq<u8>, k: int)
    requires
        wire::next_string(s) is Ok,
        0 <= k <= s.len(),
    ensures
        ({
            let (text, rest) = wire::next_string(s)->Ok_0;
            let taken = s.len() - rest.len();
            &&& 0 <= taken
            &&& k < taken ==> wire::next_string(s.take(k)) == Err::<(Seq<char>, Seq<u8>), Error>(
                Error::PayloadEndsMidMessage,
            )
            &&& k >= taken ==> wire::next_string(s.take(k)) == Ok::<(Seq<char>, Seq<u8>), Error>(
                (text, rest.take(k - taken)),
            )
        }),
{
    lemma_number_cut(s, 4, k);
    let (len, behind) = wire::next_number(s, 4)->Ok_0;
    if k >= 4 + len {
        assert(behind.take(k - 4).take(len as int) =~= behind.take(len as int));
        assert(behind.take(k - 4).skip(len as int) =~= behind.skip(len as int).take(k - 4 - len));
    }
}

/// A region of a string that is cut: it is there, or cut itself.
proof fn lemma_region_cut(s: Seq<u8>, k: int)
    requires
        meta::next_region(s) is Ok,
        0 <= k <= s.len(),
    ensures
        ({
            let (region, rest) = meta::next_region(s)->Ok_0;
            let taken = s.len() - rest.len();
            &&& 0 <= taken
            &&& k < taken ==> meta::next_region(s.take(k)) == Err::<
                (RegionDescView, Seq<u8>),
                Error,
            >(Error::PayloadEndsMidMessage)
            &&& k >= taken ==> meta::next_region(s.take(k)) == Ok::<
                (RegionDescView, Seq<u8>),
                Error,
            >((region, rest.take(k - taken)))
        }),
{
    reveal(meta::next_region);
    lemma_number_cut(s, 4, k);
    let s1 = wire::next_number(s, 4)->Ok_0.1;
    let k1 = k - 4;
    if k1 >= 0 {
        lemma_string_cut(s1, k1);
    } else {
        lemma_string_cut(s1, 0);
    }
    let s2 = wire::next_string(s1)->Ok_0.1;
    let k2 = k1 - (s1.len() - s2.len());
    lemma_number_cut(s2, 8, if k2 >= 0 { k2 } else { 0 });
    let s3 = wire::next_number(s2, 8)->Ok_0.1;
    let k3 = k2 - 8;
    lemma_number_cut(s3, 4, if k3 >= 0 { k3 } else { 0 });
    let s4 = wire::next_number(s3, 4)->Ok_0.1;
    let k4 = k3 - 4;
    lemma_number_cut(s4, 4, if k4 >= 0 { k4 } else { 0 });
    let s5 = wire::next_number(s4, 4)->Ok_0.1;
    let k5 = k4 - 4;
    lemma_string_cut(s5, if k5 >= 0 { k5 } else { 0 });
}

/// A tuple of a string that is cut: it is there, or cut itself.
proof fn lemma_tuple_cut(s: Seq<u8>, k: int)
    requires
        meta::next_tuple(s) is Ok,
        0 <= k <= s.len(),
    ensures
        ({
            let (tuple, rest) = meta::next_tuple(s)->Ok_0;
            let taken = s.len() - rest.len();
            &&& 0 <= taken
            &&& k < taken ==> meta::next_tuple(s.take(k)) == Err::<(TupleDesc, Seq<u8>), Error>(
                Error::PayloadEndsMidMessage,
            )
            &&& k >= taken ==> meta::next_tuple(s.take(k)) == Ok::<(TupleDesc, Seq<u8>), Error>(
                (tuple, rest.take(k - taken)),
            )
        }),
{
    reveal(meta::next_tuple);
    lemma_number_cut(s, 4, k);
    let s1 = wire::next_number(s, 4)->Ok_0.1;
    let k1 = k - 4;
    lemma_number_cut(s1, 8, if k1 >= 0 { k1 } else { 0 });
    let s2 = wire::next_number(s1, 8)->Ok_0.1;
    let k2 = k1 - 8;
    lemma_number_cut(s2, 8, if k2 >= 0 { k2 } else { 0 });
    let s3 = wire::next_number(s2, 8)->Ok_0.1;
    let k3 = k2 - 8;
    lemma_number_cut(s3, 4, if k3 >= 0 { k3 } else { 0 });
}

/// A list of regions that is cut is refused as cut.
proof fn lemma_regions_cut(s: Seq<u8>, count: nat, k: int)
    requires
        meta::next_regions(s, count) is Ok,
        0 <= k < s.len() - meta::next_regions(s, count)->Ok_0.1.len(),
    ensures
        meta::next_regions(s.take(k), count) == Err::<(Seq<RegionDescView>, Seq<u8>), Error>(
            Error::PayloadEndsMidMessage,
        ),
    decreases count,
{
    if count > 0 {
        lemma_region_cut(s, k);
        let rest = meta::next_region(s)->Ok_0.1;
        let taken = s.len() - rest.len();
        if k >= taken {
            lemma_regions_cut(rest, (count - 1) as nat, k - taken);
        }
    }
}

/// A list of tuples that is cut is refused as cut.
proof fn lemma_tuples_cut(s: Seq<u8>, count: nat, k: int)
    requires
        meta::next_tuples(s, count) is Ok,
        0 <= k < s.len() - meta::next_tuples(s, count)->Ok_0.1.len(),
    ensures
        meta::next_tuples(s.take(k), count) == Err::<(Seq<TupleDesc>, Seq<u8>), Error>(
            Error::PayloadEndsMidMessage,
        ),
    decreases count,
{
    if count > 0 {
        lemma_tuple_cut(s, k);
        let rest = meta::next_tuple(s)->Ok_0.1;
        let taken = s.len() - rest.len();
        if k >= taken {
            lemma_tuples_cut(rest, (count - 1) as nat, k - taken);
        }
    }
}

/// A payload that is cut short, wherever, ends mid-message.
pub proof fn law_cut_payloads_end_mid_message(
    msg: &Message,
    code: u8,
    own: Vec<u8>,
    payload: &[u8],
    result: Result<Message, Error>,
)
    requires
        call_ensures(Message::code, (msg,), code),
        call_ensures(Message::payload, (msg,), own),
        own@.len() < 0x10_0000,
        payload@.len() < own@.len(),
        own@.take(payload@.len() as int) == payload@,
        call_ensures(decode, (code, payload), result),
    ensures
        result == Err::<Message, Error>(Error::PayloadEndsMidMessage),
{
    meta_laws::lemma_sendable_fits(msg@);
    meta_laws::law_decoding_undoes_encoding(msg@);
    let s = own@;
    let k = payload@.len() as int;
    match *msg {
        Message::Hello { .. } => lemma_number_cut(s, 2, k),
        Message::Welcome { .. } => lemma_number_cut(s, 2, k),
        Message::WantGroup { .. } => lemma_number_cut(s, 4, k),
        Message::Update => {},
        Message::Metadata { .. } => {
            lemma_number_cut(s, 4, k);
            let (count, rest) = wire::next_number(s, 4)->Ok_0;
            if k >= 4 {
                lemma_regions_cut(rest, count, k - 4);
            }
        },
        Message::Tuples { .. } => {
            lemma_number_cut(s, 4, k);
            let rest = wire::next_number(s, 4)->Ok_0.1;
            if k >= 4 {
                lemma_number_cut(rest, 4, k - 4);
                let (count, list) = wire::next_number(rest, 4)->Ok_0;
                if k >= 8 {
                    lemma_tuples_cut(list, count, k - 8);
                }
            }
        },
    }
}

} // verus!
