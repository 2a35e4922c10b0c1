//! The metadata exchange between the two sides of the library.
//!
//! The region catalog and the (remote_addr, size, rkey) tuples travel
//! over a plain TCP connection, the control plane, while the data
//! plane stays RDMA. This module owns the wire protocol: the framing
//! (`[len][type][payload]`, little-endian, capped by [`MAX_FRAME`]) and
//! the messages of the session conversation. It is deliberately free
//! of RDMA knowledge: the sessions of
//! [`SharedMemoryRegionProvider`](crate::SharedMemoryRegionProvider)
//! and [`RemoteMemoryProvider`](crate::RemoteMemoryProvider) drive it.
//!
//! A session: the reader connects, greets ([`Message::Hello`]), and
//! asks to join a group ([`Message::WantGroup`]), then connects over
//! RDMA, which the provider accepts into that group's protection
//! domain. The provider answers with the catalog
//! ([`Message::Metadata`]) and the group's tuples
//! ([`Message::Tuples`]). The connection stays open: a
//! [`Message::Update`] re-sends both, picking up regions registered
//! since.

use vstd::prelude::*;
use vstd::utf8::*;

use crate::error::Error;
use crate::text;
use crate::text::{push_decimal, push_quoted};
use crate::wire;
use crate::wire::{put_len, put_str, put_u16, put_u32, put_u64, Reader};

verus! {

/// The protocol version this library speaks; a mismatching greeting
/// ends the session.
pub const PROTOCOL_VERSION: u16 = 1;

/// Largest accepted frame length, the type byte and the payload.
/// Catalogs are small, so a length beyond this is a broken or hostile
/// peer, rejected before its payload is allocated.
pub const MAX_FRAME: usize = 0x10_0000;

// Message type codes on the wire; the gap before the next value is
// room for the future (revocation, errors, goodbye).
pub const MSG_HELLO: u8 = 1;

pub const MSG_WELCOME: u8 = 2;

pub const MSG_WANT_GROUP: u8 = 3;

pub const MSG_UPDATE: u8 = 4;

pub const MSG_METADATA: u8 = 5;

pub const MSG_TUPLES: u8 = 6;

/// One message of the metadata exchange.
#[derive(Debug, Clone, PartialEq, Eq)]
pub enum Message {
    /// Reader to provider: greet, announcing a protocol version.
    Hello { version: u16 },
    /// Provider to reader: the greeting's reply, echoing the version
    /// the provider speaks.
    Welcome { version: u16 },
    /// Reader to provider: join `group`, whose tuples the reader
    /// wants; the reader's RDMA connection follows immediately.
    WantGroup { group: u32 },
    /// Reader to provider: re-send the catalog and the session group's
    /// tuples.
    Update,
    /// Provider to reader: the region catalog, every registered
    /// region.
    Metadata { regions: Vec<RegionDesc> },
    /// Provider to reader: the tuples of `group`, one per region.
    Tuples { group: u32, tuples: Vec<TupleDesc> },
}

/// A region as advertised in the catalog.
///
/// The element layout (`elem_size`, `elem_align`) is the part a
/// reader can check a typed read against; `elem_type` names the type
/// the sharing side registered, for diagnostics only: type identity
/// across separately compiled applications cannot be verified.
#[derive(Debug, Clone, PartialEq, Eq)]
pub struct RegionDesc {
    /// Identifier of the region on the sharing machine.
    pub id: u32,
    /// Human-readable name of the region; need not be unique.
    pub name: String,
    /// Size of the region's buffer, in bytes.
    pub size: u64,
    /// `size_of` of the element type the region is shared as.
    pub elem_size: u32,
    /// `align_of` of the element type the region is shared as.
    pub elem_align: u32,
    /// `std::any::type_name` of the element type, for diagnostics.
    pub elem_type: String,
}

/// One (remote_addr, size, rkey) tuple, of the region `region_id`.
#[derive(Debug, Clone, Copy, PartialEq, Eq)]
pub struct TupleDesc {
    /// The region the tuple reaches.
    pub region_id: u32,
    /// Address of the region in the sharing machine's address space.
    pub remote_addr: u64,
    /// Size of the registered memory, in bytes.
    pub size: u64,
    /// Remote key required to access the region with RDMA.
    pub rkey: u32,
}

/// What a [`RegionDesc`] says.
pub struct RegionDescView {
    pub id: u32,
    pub name: Seq<char>,
    pub size: u64,
    pub elem_size: u32,
    pub elem_align: u32,
    pub elem_type: Seq<char>,
}

/// What a [`Message`] says.
pub enum MessageView {
    Hello { version: u16 },
    Welcome { version: u16 },
    WantGroup { group: u32 },
    Update,
    Metadata { regions: Seq<RegionDescView> },
    Tuples { group: u32, tuples: Seq<TupleDesc> },
}

impl View for RegionDesc {
    type V = RegionDescView;

    open spec fn view(&self) -> RegionDescView {
        RegionDescView {
            id: self.id,
            name: self.name@,
            size: self.size,
            elem_size: self.elem_size,
            elem_align: self.elem_align,
            elem_type: self.elem_type@,
        }
    }
}

/// What a catalog says, region by region.
pub open spec fn descs_view(regions: Seq<RegionDesc>) -> Seq<RegionDescView> {
    regions.map_values(|region: RegionDesc| region@)
}

impl View for Message {
    type V = MessageView;

    open spec fn view(&self) -> MessageView {
        match *self {
            Message::Hello { version } => MessageView::Hello { version },
            Message::Welcome { version } => MessageView::Welcome { version },
            Message::WantGroup { group } => MessageView::WantGroup { group },
            Message::Update => MessageView::Update,
            Message::Metadata { regions } => MessageView::Metadata { regions: descs_view(regions@) },
            Message::Tuples { group, tuples } => MessageView::Tuples { group, tuples: tuples@ },
        }
    }
}

impl RegionDescView {
    /// The region's entry in a catalog on the wire.
    pub open spec fn wire(self) -> Seq<u8> {
        wire::le_bytes(self.id as nat, 4) + (wire::str_wire(self.name) + (wire::le_bytes(
            self.size as nat,
            8,
        ) + (wire::le_bytes(self.elem_size as nat, 4) + (wire::le_bytes(self.elem_align as nat, 4)
            + wire::str_wire(self.elem_type)))))
    }
}

impl TupleDesc {
    /// The tuple's entry in a list of tuples on the wire.
    pub open spec fn wire(self) -> Seq<u8> {
        wire::le_bytes(self.region_id as nat, 4) + (wire::le_bytes(self.remote_addr as nat, 8) + (
        wire::le_bytes(self.size as nat, 8) + wire::le_bytes(self.rkey as nat, 4)))
    }
}

/// The entries of a catalog on the wire, one after the other.
pub open spec fn regions_wire(regions: Seq<RegionDescView>) -> Seq<u8>
    decreases regions.len(),
{
    if regions.len() == 0 {
        Seq::empty()
    } else {
        regions[0].wire() + regions_wire(regions.drop_first())
    }
}

/// The entries of a list of tuples on the wire, one after the other.
pub open spec fn tuples_wire(tuples: Seq<TupleDesc>) -> Seq<u8>
    decreases tuples.len(),
{
    if tuples.len() == 0 {
        Seq::empty()
    } else {
        tuples[0].wire() + tuples_wire(tuples.drop_first())
    }
}

impl MessageView {
    /// The message's type code.
    pub open spec fn code(self) -> u8 {
        match self {
            MessageView::Hello { .. } => MSG_HELLO,
            MessageView::Welcome { .. } => MSG_WELCOME,
            MessageView::WantGroup { .. } => MSG_WANT_GROUP,
            MessageView::Update => MSG_UPDATE,
            MessageView::Metadata { .. } => MSG_METADATA,
            MessageView::Tuples { .. } => MSG_TUPLES,
        }
    }

    /// The message's payload: its fields in order, lists behind their
    /// length.
    pub open spec fn payload(self) -> Seq<u8> {
        match self {
            MessageView::Hello { version } => wire::le_bytes(version as nat, 2),
            MessageView::Welcome { version } => wire::le_bytes(version as nat, 2),
            MessageView::WantGroup { group } => wire::le_bytes(group as nat, 4),
            MessageView::Update => Seq::empty(),
            MessageView::Metadata { regions } => wire::le_bytes(regions.len(), 4) + regions_wire(
                regions,
            ),
            MessageView::Tuples { group, tuples } => wire::le_bytes(group as nat, 4) + (
            wire::le_bytes(tuples.len(), 4) + tuples_wire(tuples)),
        }
    }

    /// The message's frame: the length of what follows the length, the
    /// type code, and the payload.
    pub open spec fn frame(self) -> Seq<u8> {
        wire::le_bytes(1 + self.payload().len(), 4) + (seq![self.code()] + self.payload())
    }

    /// The frame's length can be computed: its 32-bit sum does not
    /// overflow.
    pub open spec fn countable(self) -> bool {
        self.payload().len() % 0x1_0000_0000 != 0xFFFF_FFFF
    }
}

impl RegionDescView {
    /// The region as the standard library's derived `Debug` shows it.
    pub open spec fn shown(self) -> Seq<char> {
        "RegionDesc { id: "@ + text::decimal(self.id as nat) + ", name: "@ + text::debug_quoted(
            self.name,
        ) + ", size: "@ + text::decimal(self.size as nat) + ", elem_size: "@ + text::decimal(
            self.elem_size as nat,
        ) + ", elem_align: "@ + text::decimal(self.elem_align as nat) + ", elem_type: "@
            + text::debug_quoted(self.elem_type) + " }"@
    }
}

impl TupleDesc {
    /// The tuple as the standard library's derived `Debug` shows it.
    pub open spec fn shown(self) -> Seq<char> {
        "TupleDesc { region_id: "@ + text::decimal(self.region_id as nat) + ", remote_addr: "@
            + text::decimal(self.remote_addr as nat) + ", size: "@ + text::decimal(
            self.size as nat,
        ) + ", rkey: "@ + text::decimal(self.rkey as nat) + " }"@
    }
}

/// `items`, separated by commas.
pub open spec fn listed(items: Seq<Seq<char>>) -> Seq<char>
    decreases items.len(),
{
    if items.len() == 0 {
        Seq::empty()
    } else if items.len() == 1 {
        items[0]
    } else {
        listed(items.drop_last()) + ", "@ + items.last()
    }
}

impl MessageView {
    /// The message as the standard library's derived `Debug` shows it.
    pub open spec fn shown(self) -> Seq<char> {
        match self {
            MessageView::Hello { version } => "Hello { version: "@ + text::decimal(version as nat)
                + " }"@,
            MessageView::Welcome { version } => "Welcome { version: "@ + text::decimal(
                version as nat,
            ) + " }"@,
            MessageView::WantGroup { group } => "WantGroup { group: "@ + text::decimal(
                group as nat,
            ) + " }"@,
            MessageView::Update => "Update"@,
            MessageView::Metadata { regions } => "Metadata { regions: ["@ + listed(
                regions.map_values(|region: RegionDescView| region.shown()),
            ) + "] }"@,
            MessageView::Tuples { group, tuples } => "Tuples { group: "@ + text::decimal(
                group as nat,
            ) + ", tuples: ["@ + listed(tuples.map_values(|tuple: TupleDesc| tuple.shown()))
                + "] }"@,
        }
    }
}

/// Append `item` to a list that has `before` so far.
proof fn lemma_listed_push(before: Seq<Seq<char>>, item: Seq<char>)
    ensures
        before.len() == 0 ==> listed(before.push(item)) == item,
        before.len() > 0 ==> listed(before.push(item)) == listed(before) + ", "@ + item,
{
    assert(before.push(item).drop_last() =~= before);
}

impl RegionDesc {
    /// Append the region's text.
    fn show(&self, t: &mut String)
        ensures
            final(t)@ == old(t)@ + self@.shown(),
    {
        t.append("RegionDesc { id: ");
        push_decimal(t, self.id as u64);
        t.append(", name: ");
        push_quoted(t, self.name.as_str());
        t.append(", size: ");
        push_decimal(t, self.size);
        t.append(", elem_size: ");
        push_decimal(t, self.elem_size as u64);
        t.append(", elem_align: ");
        push_decimal(t, self.elem_align as u64);
        t.append(", elem_type: ");
        push_quoted(t, self.elem_type.as_str());
        t.append(" }");
        assert(final(t)@ =~= old(t)@ + self@.shown());
    }
}

impl TupleDesc {
    /// Append the tuple's text.
    fn show(&self, t: &mut String)
        ensures
            final(t)@ == old(t)@ + self.shown(),
    {
        t.append("TupleDesc { region_id: ");
        push_decimal(t, self.region_id as u64);
        t.append(", remote_addr: ");
        push_decimal(t, self.remote_addr);
        t.append(", size: ");
        push_decimal(t, self.size);
        t.append(", rkey: ");
        push_decimal(t, self.rkey as u64);
        t.append(" }");
        assert(final(t)@ =~= old(t)@ + self.shown());
    }
}

impl Message {
    /// Append the message's text.
    pub fn show(&self, t: &mut String)
        ensures
            final(t)@ == old(t)@ + self@.shown(),
    {
        match self {
            Message::Hello { version } => {
                t.append("Hello { version: ");
                push_decimal(t, *version as u64);
                t.append(" }");
            },
            Message::Welcome { version } => {
                t.append("Welcome { version: ");
                push_decimal(t, *version as u64);
                t.append(" }");
            },
            Message::WantGroup { group } => {
                t.append("WantGroup { group: ");
                push_decimal(t, *group as u64);
                t.append(" }");
            },
            Message::Update => {
                t.append("Update");
            },
            Message::Metadata { regions } => {
                t.append("Metadata { regions: [");
                let ghost start: Seq<char> = t@;
                let ghost items: Seq<Seq<char>> = descs_view(regions@).map_values(
                    |region: RegionDescView| region.shown(),
                );
                let mut i: usize = 0;
                assert(start + listed(items.take(0)) =~= start);
                while i < regions.len()
                    invariant
                        i <= regions.len(),
                        items == descs_view(regions@).map_values(
                            |region: RegionDescView| region.shown(),
                        ),
                        t@ == start + listed(items.take(i as int)),
                    decreases regions.len() - i,
                {
                    let ghost before: Seq<Seq<char>> = items.take(i as int);
                    if i > 0 {
                        t.append(", ");
                    }
                    regions[i].show(t);
                    proof {
                        lemma_listed_push(before, items[i as int]);
                        assert(items.take(i + 1) =~= before.push(items[i as int]));
                        assert(t@ =~= start + listed(items.take(i + 1)));
                    }
                    i += 1;
                }
                assert(items.take(i as int) =~= items);
                t.append("] }");
            },
            Message::Tuples { group, tuples } => {
                t.append("Tuples { group: ");
                push_decimal(t, *group as u64);
                t.append(", tuples: [");
                let ghost start: Seq<char> = t@;
                let ghost items: Seq<Seq<char>> = tuples@.map_values(
                    |tuple: TupleDesc| tuple.shown(),
                );
                let mut i: usize = 0;
                assert(start + listed(items.take(0)) =~= start);
                while i < tuples.len()
                    invariant
                        i <= tuples.len(),
                        items == tuples@.map_values(|tuple: TupleDesc| tuple.shown()),
                        t@ == start + listed(items.take(i as int)),
                    decreases tuples.len() - i,
                {
                    let ghost before: Seq<Seq<char>> = items.take(i as int);
                    if i > 0 {
                        t.append(", ");
                    }
                    tuples[i].show(t);
                    proof {
                        lemma_listed_push(before, items[i as int]);
                        assert(items.take(i + 1) =~= before.push(items[i as int]));
                        assert(t@ =~= start + listed(items.take(i + 1)));
                    }
                    i += 1;
                }
                assert(items.take(i as int) =~= items);
                t.append("] }");
            },
        }
        assert(final(t)@ =~= old(t)@ + self@.shown());
    }
}

pub proof fn lemma_regions_wire_push(regions: Seq<RegionDescView>, region: RegionDescView)
    ensures
        regions_wire(regions.push(region)) == regions_wire(regions) + region.wire(),
    decreases regions.len(),
{
    if regions.len() == 0 {
        assert(regions.push(region).drop_first() =~= regions);
        assert(regions_wire(regions.push(region)) =~= regions_wire(regions) + region.wire());
    } else {
        let tail = regions.drop_first();
        lemma_regions_wire_push(tail, region);
        assert(regions.push(region).drop_first() =~= tail.push(region));
        assert(regions_wire(regions.push(region)) =~= regions_wire(regions) + region.wire());
    }
}

pub proof fn lemma_tuples_wire_push(tuples: Seq<TupleDesc>, tuple: TupleDesc)
    ensures
        tuples_wire(tuples.push(tuple)) == tuples_wire(tuples) + tuple.wire(),
    decreases tuples.len(),
{
    if tuples.len() == 0 {
        assert(tuples.push(tuple).drop_first() =~= tuples);
        assert(tuples_wire(tuples.push(tuple)) =~= tuples_wire(tuples) + tuple.wire());
    } else {
        let tail = tuples.drop_first();
        lemma_tuples_wire_push(tail, tuple);
        assert(tuples.push(tuple).drop_first() =~= tail.push(tuple));
        assert(tuples_wire(tuples.push(tuple)) =~= tuples_wire(tuples) + tuple.wire());
    }
}

/// Append a region's catalog entry.
fn put_region(buf: &mut Vec<u8>, region: &RegionDesc)
    ensures
        final(buf)@ == old(buf)@ + region@.wire(),
{
    put_u32(buf, region.id);
    put_str(buf, region.name.as_str());
    put_u64(buf, region.size);
    put_u32(buf, region.elem_size);
    put_u32(buf, region.elem_align);
    put_str(buf, region.elem_type.as_str());
    assert(final(buf)@ =~= old(buf)@ + region@.wire());
}

/// Append a tuple's entry.
fn put_tuple(buf: &mut Vec<u8>, tuple: &TupleDesc)
    ensures
        final(buf)@ == old(buf)@ + tuple.wire(),
{
    put_u32(buf, tuple.region_id);
    put_u64(buf, tuple.remote_addr);
    put_u64(buf, tuple.size);
    put_u32(buf, tuple.rkey);
    assert(final(buf)@ =~= old(buf)@ + tuple.wire());
}

impl Message {
    /// The message's type code.
    pub fn code(&self) -> (ty: u8)
        ensures
            ty == self@.code(),
    {
        match self {
            Message::Hello { .. } => MSG_HELLO,
            Message::Welcome { .. } => MSG_WELCOME,
            Message::WantGroup { .. } => MSG_WANT_GROUP,
            Message::Update => MSG_UPDATE,
            Message::Metadata { .. } => MSG_METADATA,
            Message::Tuples { .. } => MSG_TUPLES,
        }
    }

    /// The message's payload, all integers little-endian.
    pub fn payload(&self) -> (payload: Vec<u8>)
        ensures
            payload@ == self@.payload(),
    {
        let mut payload: Vec<u8> = Vec::new();
        match self {
            Message::Hello { version } => {
                put_u16(&mut payload, *version);
            },
            Message::Welcome { version } => {
                put_u16(&mut payload, *version);
            },
            Message::WantGroup { group } => {
                put_u32(&mut payload, *group);
            },
            Message::Update => {},
            Message::Metadata { regions } => {
                put_len(&mut payload, regions.len());
                let mut i: usize = 0;
                assert(descs_view(regions@).take(0) =~= Seq::empty());
                while i < regions.len()
                    invariant
                        i <= regions.len(),
                        payload@ == wire::le_bytes(regions@.len(), 4) + regions_wire(
                            descs_view(regions@).take(i as int),
                        ),
                    decreases regions.len() - i,
                {
                    put_region(&mut payload, &regions[i]);
                    proof {
                        let before = descs_view(regions@).take(i as int);
                        lemma_regions_wire_push(before, regions[i as int]@);
                        assert(descs_view(regions@).take(i + 1) =~= before.push(
                            regions[i as int]@,
                        ));
                    }
                    i += 1;
                }
                assert(descs_view(regions@).take(i as int) =~= descs_view(regions@));
            },
            Message::Tuples { group, tuples } => {
                put_u32(&mut payload, *group);
                put_len(&mut payload, tuples.len());
                let mut i: usize = 0;
                assert(tuples@.take(0) =~= Seq::empty());
                while i < tuples.len()
                    invariant
                        i <= tuples.len(),
                        payload@ == wire::le_bytes(*group as nat, 4) + (wire::le_bytes(
                            tuples@.len(),
                            4,
                        ) + tuples_wire(tuples@.take(i as int))),
                    decreases tuples.len() - i,
                {
                    put_tuple(&mut payload, &tuples[i]);
                    proof {
                        let before = tuples@.take(i as int);
                        lemma_tuples_wire_push(before, tuples[i as int]);
                        assert(tuples@.take(i + 1) =~= before.push(tuples[i as int]));
                    }
                    i += 1;
                }
                assert(tuples@.take(i as int) =~= tuples@);
            },
        }
        assert(payload@ =~= self@.payload());
        payload
    }

    /// Whether the message's frame length can be computed, which takes
    /// a payload of four gigabytes to fail.
    pub fn is_countable(&self) -> (countable: bool)
        ensures
            countable == self@.countable(),
    {
        let len: u64 = self.payload().len() as u64;
        len % 0x1_0000_0000 != 0xFFFF_FFFF
    }

    /// The message as one framed wire image: `[len][type][payload]`,
    /// `len` counting the type byte, all integers little-endian.
    pub fn encode(&self) -> (frame: Vec<u8>)
        requires
            self@.countable(),
        ensures
            frame@ == self@.frame(),
    {
        let payload: Vec<u8> = self.payload();
        let mut frame: Vec<u8> = Vec::new();
        let wide: u64 = payload.len() as u64;
        let ghost counted: nat = 1 + payload@.len();
        assert(wide as u32 == wide % 0x1_0000_0000) by (bit_vector);
        proof {
            wire::lemma_le_bytes_mod_u32(counted);
            assert(counted % 0x1_0000_0000 == 1 + wide % 0x1_0000_0000);
        }
        put_u32(&mut frame, 1 + wide as u32);
        frame.push(self.code());
        frame.extend_from_slice(payload.as_slice());
        assert(frame@ =~= self@.frame());
        frame
    }
}

/// The next region of a catalog.
#[verifier::opaque]
pub open spec fn next_region(s: Seq<u8>) -> wire::Parsed<RegionDescView> {
    match wire::next_number(s, 4) {
        Err(e) => Err(e),
        Ok((id, s)) => match wire::next_string(s) {
            Err(e) => Err(e),
            Ok((name, s)) => match wire::next_number(s, 8) {
                Err(e) => Err(e),
                Ok((size, s)) => match wire::next_number(s, 4) {
                    Err(e) => Err(e),
                    Ok((elem_size, s)) => match wire::next_number(s, 4) {
                        Err(e) => Err(e),
                        Ok((elem_align, s)) => match wire::next_string(s) {
                            Err(e) => Err(e),
                            Ok((elem_type, s)) => Ok(
                                (
                                    RegionDescView {
                                        id: id as u32,
                                        name,
                                        size: size as u64,
                                        elem_size: elem_size as u32,
                                        elem_align: elem_align as u32,
                                        elem_type,
                                    },
                                    s,
                                ),
                            ),
                        },
                    },
                },
            },
        },
    }
}

/// The next `count` regions of a catalog.
pub open spec fn next_regions(s: Seq<u8>, count: nat) -> wire::Parsed<Seq<RegionDescView>>
    decreases count,
{
    if count == 0 {
        Ok((Seq::empty(), s))
    } else {
        match next_region(s) {
            Err(e) => Err(e),
            Ok((first, s)) => match next_regions(s, (count - 1) as nat) {
                Err(e) => Err(e),
                Ok((others, s)) => Ok((seq![first] + others, s)),
            },
        }
    }
}

/// The next tuple of a list of tuples.
#[verifier::opaque]
pub open spec fn next_tuple(s: Seq<u8>) -> wire::Parsed<TupleDesc> {
    match wire::next_number(s, 4) {
        Err(e) => Err(e),
        Ok((region_id, s)) => match wire::next_number(s, 8) {
            Err(e) => Err(e),
            Ok((remote_addr, s)) => match wire::next_number(s, 8) {
                Err(e) => Err(e),
                Ok((size, s)) => match wire::next_number(s, 4) {
                    Err(e) => Err(e),
                    Ok((rkey, s)) => Ok(
                        (
                            TupleDesc {
                                region_id: region_id as u32,
                                remote_addr: remote_addr as u64,
                                size: size as u64,
                                rkey: rkey as u32,
                            },
                            s,
                        ),
                    ),
                },
            },
        },
    }
}

/// The next `count` tuples of a list of tuples.
pub open spec fn next_tuples(s: Seq<u8>, count: nat) -> wire::Parsed<Seq<TupleDesc>>
    decreases count,
{
    if count == 0 {
        Ok((Seq::empty(), s))
    } else {
        match next_tuple(s) {
            Err(e) => Err(e),
            Ok((first, s)) => match next_tuples(s, (count - 1) as nat) {
                Err(e) => Err(e),
                Ok((others, s)) => Ok((seq![first] + others, s)),
            },
        }
    }
}

/// The message of type `ty` at the front of `s`.
pub open spec fn next_message(ty: u8, s: Seq<u8>) -> wire::Parsed<MessageView> {
    if ty == MSG_HELLO {
        match wire::next_number(s, 2) {
            Err(e) => Err(e),
            Ok((version, s)) => Ok((MessageView::Hello { version: version as u16 }, s)),
        }
    } else if ty == MSG_WELCOME {
        match wire::next_number(s, 2) {
            Err(e) => Err(e),
            Ok((version, s)) => Ok((MessageView::Welcome { version: version as u16 }, s)),
        }
    } else if ty == MSG_WANT_GROUP {
        match wire::next_number(s, 4) {
            Err(e) => Err(e),
            Ok((group, s)) => Ok((MessageView::WantGroup { group: group as u32 }, s)),
        }
    } else if ty == MSG_UPDATE {
        Ok((MessageView::Update, s))
    } else if ty == MSG_METADATA {
        match wire::next_number(s, 4) {
            Err(e) => Err(e),
            Ok((count, s)) => match next_regions(s, count) {
                Err(e) => Err(e),
                Ok((regions, s)) => Ok((MessageView::Metadata { regions }, s)),
            },
        }
    } else if ty == MSG_TUPLES {
        match wire::next_number(s, 4) {
            Err(e) => Err(e),
            Ok((group, s)) => match wire::next_number(s, 4) {
                Err(e) => Err(e),
                Ok((count, s)) => match next_tuples(s, count) {
                    Err(e) => Err(e),
                    Ok((tuples, s)) => Ok((MessageView::Tuples { group: group as u32, tuples }, s)),
                },
            },
        }
    } else {
        Err(Error::UnknownMessageType { ty })
    }
}

/// The message of type `ty` that `payload` is, byte for byte, or the
/// first violation found reading it front to back.
pub open spec fn decoded(ty: u8, payload: Seq<u8>) -> Result<MessageView, Error> {
    match next_message(ty, payload) {
        Err(e) => Err(e),
        Ok((msg, rest)) => if rest.len() == 0 {
            Ok(msg)
        } else {
            Err(Error::TrailingBytes)
        },
    }
}

/// Read the next region of a catalog.
fn read_region(r: &mut Reader<'_>) -> (region: Result<RegionDesc, Error>)
    requires
        old(r).wf(),
    ensures
        final(r).wf(),
        match next_region(old(r).rest()) {
            Ok((v, rest)) => region matches Ok(w) && w@ == v && final(r).rest() == rest,
            Err(e) => region == Err::<RegionDesc, Error>(e),
        },
{
    reveal(next_region);
    let id: u32 = r.u32()?;
    let name: String = r.string()?;
    let size: u64 = r.u64()?;
    let elem_size: u32 = r.u32()?;
    let elem_align: u32 = r.u32()?;
    let elem_type: String = r.string()?;
    Ok(RegionDesc { id, name, size, elem_size, elem_align, elem_type })
}

/// Read the next tuple of a list of tuples.
fn read_tuple(r: &mut Reader<'_>) -> (tuple: Result<TupleDesc, Error>)
    requires
        old(r).wf(),
    ensures
        final(r).wf(),
        match next_tuple(old(r).rest()) {
            Ok((v, rest)) => tuple matches Ok(w) && w == v && final(r).rest() == rest,
            Err(e) => tuple == Err::<TupleDesc, Error>(e),
        },
{
    reveal(next_tuple);
    let region_id: u32 = r.u32()?;
    let remote_addr: u64 = r.u64()?;
    let size: u64 = r.u64()?;
    let rkey: u32 = r.u32()?;
    Ok(TupleDesc { region_id, remote_addr, size, rkey })
}

/// Read the next `count` regions of a catalog.
fn read_regions(r: &mut Reader<'_>, count: u32) -> (regions: Result<Vec<RegionDesc>, Error>)
    requires
        old(r).wf(),
    ensures
        final(r).wf(),
        match next_regions(old(r).rest(), count as nat) {
            Ok((v, rest)) => regions matches Ok(w) && descs_view(w@) == v && final(r).rest()
                == rest,
            Err(e) => regions == Err::<Vec<RegionDesc>, Error>(e),
        },
{
    let ghost start: Seq<u8> = r.rest();
    let mut regions: Vec<RegionDesc> = Vec::new();
    let mut i: u32 = 0;
    proof {
        if let Ok((v, _)) = next_regions(start, count as nat) {
            assert(descs_view(regions@) + v =~= v);
        }
    }
    while i < count
        invariant
            i <= count,
            r.wf(),
            start == old(r).rest(),
            match next_regions(r.rest(), (count - i) as nat) {
                Ok((v, rest)) => next_regions(start, count as nat) == Ok::<
                    (Seq<RegionDescView>, Seq<u8>),
                    Error,
                >((descs_view(regions@) + v, rest)),
                Err(e) => next_regions(start, count as nat) == Err::<
                    (Seq<RegionDescView>, Seq<u8>),
                    Error,
                >(e),
            },
        decreases count - i,
    {
        let ghost before: Seq<RegionDescView> = descs_view(regions@);
        let region: RegionDesc = read_region(r)?;
        let ghost first: RegionDescView = region@;
        regions.push(region);
        i += 1;
        proof {
            if let Ok((v, _)) = next_regions(r.rest(), (count - i) as nat) {
                assert(before + (seq![first] + v) =~= descs_view(regions@) + v);
            }
        }
    }
    assert(descs_view(regions@) + Seq::empty() =~= descs_view(regions@));
    Ok(regions)
}

/// Read the next `count` tuples of a list of tuples.
fn read_tuples(r: &mut Reader<'_>, count: u32) -> (tuples: Result<Vec<TupleDesc>, Error>)
    requires
        old(r).wf(),
    ensures
        final(r).wf(),
        match next_tuples(old(r).rest(), count as nat) {
            Ok((v, rest)) => tuples matches Ok(w) && w@ == v && final(r).rest() == rest,
            Err(e) => tuples == Err::<Vec<TupleDesc>, Error>(e),
        },
{
    let ghost start: Seq<u8> = r.rest();
    let mut tuples: Vec<TupleDesc> = Vec::new();
    let mut i: u32 = 0;
    proof {
        if let Ok((v, _)) = next_tuples(start, count as nat) {
            assert(tuples@ + v =~= v);
        }
    }
    while i < count
        invariant
            i <= count,
            r.wf(),
            start == old(r).rest(),
            match next_tuples(r.rest(), (count - i) as nat) {
                Ok((v, rest)) => next_tuples(start, count as nat) == Ok::<
                    (Seq<TupleDesc>, Seq<u8>),
                    Error,
                >((tuples@ + v, rest)),
                Err(e) => next_tuples(start, count as nat) == Err::<
                    (Seq<TupleDesc>, Seq<u8>),
                    Error,
                >(e),
            },
        decreases count - i,
    {
        let ghost before: Seq<TupleDesc> = tuples@;
        let tuple: TupleDesc = read_tuple(r)?;
        tuples.push(tuple);
        i += 1;
        proof {
            if let Ok((v, _)) = next_tuples(r.rest(), (count - i) as nat) {
                assert(before + (seq![tuple] + v) =~= tuples@ + v);
            }
        }
    }
    assert(tuples@ + Seq::empty() =~= tuples@);
    Ok(tuples)
}

/// Decode the message of type `ty` from its `payload`.
///
/// The payload must be consumed exactly: leftover bytes are a
/// protocol violation, as are counts and lengths reaching past the
/// payload (read eagerly, so a bogus count fails on its first element
/// instead of allocating for it).
pub fn decode(ty: u8, payload: &[u8]) -> (r: Result<Message, Error>)
    ensures
        match decoded(ty, payload@) {
            Ok(msg) => r matches Ok(m) && m@ == msg,
            Err(e) => r == Err::<Message, Error>(e),
        },
{
    let mut r: Reader<'_> = Reader::new(payload);
    let msg: Message = match ty {
        MSG_HELLO => Message::Hello { version: r.u16()? },
        MSG_WELCOME => Message::Welcome { version: r.u16()? },
        MSG_WANT_GROUP => Message::WantGroup { group: r.u32()? },
        MSG_UPDATE => Message::Update,
        MSG_METADATA => {
            let count: u32 = r.u32()?;
            let regions: Vec<RegionDesc> = read_regions(&mut r, count)?;
            Message::Metadata { regions }
        },
        MSG_TUPLES => {
            let group: u32 = r.u32()?;
            let count: u32 = r.u32()?;
            let tuples: Vec<TupleDesc> = read_tuples(&mut r, count)?;
            Message::Tuples { group, tuples }
        },
        _ => return Err(Error::UnknownMessageType { ty }),
    };
    r.done()?;
    Ok(msg)
}

/// How many bytes a frame's header has: the length and the type code.
pub const HEADER_LEN: usize = 5;

/// What a frame's header announces.
#[derive(Debug, Clone, Copy, PartialEq, Eq)]
pub struct FrameHeader {
    /// The message's type code.
    pub ty: u8,
    /// How many bytes of payload follow the header.
    pub payload_len: usize,
}

/// What the header `s`, of five bytes, announces.
pub open spec fn announced(s: Seq<u8>) -> Result<FrameHeader, Error> {
    let len = wire::le_value(s.take(4));
    if 0 < len <= MAX_FRAME {
        Ok(FrameHeader { ty: s[4], payload_len: (len - 1) as usize })
    } else {
        Err(Error::FrameLengthOutOfRange { len: len as u32 })
    }
}

/// The message of the frame at the front of `s`, and the bytes behind
/// the frame.
pub open spec fn received(s: Seq<u8>) -> wire::Parsed<MessageView> {
    if s.len() < HEADER_LEN {
        Err(Error::StreamEnded)
    } else {
        match announced(s.take(HEADER_LEN as int)) {
            Err(e) => Err(e),
            Ok(header) => {
                let body = s.skip(HEADER_LEN as int);
                if body.len() < header.payload_len {
                    Err(Error::StreamEnded)
                } else {
                    match decoded(header.ty, body.take(header.payload_len as int)) {
                        Err(e) => Err(e),
                        Ok(msg) => Ok((msg, body.skip(header.payload_len as int))),
                    }
                }
            },
        }
    }
}

/// What is left of `s` once a frame was read off its front, whatever
/// came of it: everything where there is no whole header; what follows
/// the header where its length is refused or the payload is missing;
/// what follows the frame otherwise.
pub open spec fn left(s: Seq<u8>) -> Seq<u8> {
    if s.len() < HEADER_LEN {
        s
    } else {
        let body = s.skip(HEADER_LEN as int);
        match announced(s.take(HEADER_LEN as int)) {
            Ok(header) => if body.len() < header.payload_len {
                body
            } else {
                body.skip(header.payload_len as int)
            },
            Err(_) => body,
        }
    }
}

/// Read a frame's header: a length out of range is a broken or hostile
/// peer, rejected before its payload is allocated.
pub fn read_header(header: &[u8]) -> (r: Result<FrameHeader, Error>)
    requires
        header@.len() == HEADER_LEN,
    ensures
        r == announced(header@),
{
    let mut fields: Reader<'_> = Reader::new(header);
    proof {
        wire::lemma_byte_ranges();
        wire::lemma_le_value_bound(header@.take(4));
    }
    let len: u32 = fields.u32()?;
    if len == 0 || len as usize > MAX_FRAME {
        return Err(Error::FrameLengthOutOfRange { len });
    }
    Ok(FrameHeader { ty: header[4], payload_len: len as usize - 1 })
}

/// Read one frame from `stream` and decode it.
pub fn read_frame(stream: &mut Reader<'_>) -> (r: Result<Message, Error>)
    requires
        old(stream).wf(),
    ensures
        final(stream).wf(),
        final(stream).buf@ == old(stream).buf@,
        final(stream).rest() == left(old(stream).rest()),
        match received(old(stream).rest()) {
            Ok((msg, rest)) => r matches Ok(m) && m@ == msg && final(stream).rest() == rest,
            Err(e) => r == Err::<Message, Error>(e),
        },
{
    let header: FrameHeader = match stream.take(HEADER_LEN) {
        Ok(bytes) => read_header(bytes)?,
        Err(_) => return Err(Error::StreamEnded),
    };
    match stream.take(header.payload_len) {
        Ok(payload) => decode(header.ty, payload),
        Err(_) => Err(Error::StreamEnded),
    }
}

/// Encode `msg` and append its frame to `stream`.
pub fn write_frame(stream: &mut Vec<u8>, msg: &Message)
    requires
        msg@.countable(),
    ensures
        final(stream)@ == old(stream)@ + msg@.frame(),
{
    let frame: Vec<u8> = msg.encode();
    stream.extend_from_slice(frame.as_slice());
    assert(final(stream)@ =~= old(stream)@ + msg@.frame());
}

} // verus!
