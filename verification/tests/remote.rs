use rdmalib::cache::{CachedRegion, RegionEntry};
use rdmalib::error::{Access, Error, ErrorKind, Expected};
use rdmalib::meta::{Message, RegionDesc, TupleDesc};
use rdmalib::rdma::verbs::Connection;
use rdmalib::rdma::ProtectionDomain;
use rdmalib::readers::{GroupSession, Update, UpdateCall, UpdateReply, UpdateStep};
use rdmalib::regions::{element_offset, GroupConnection};
use rdmalib::{
    RemoteMemoryProvider, RemoteMemoryProviderAddr, RemoteMemoryRegion,
    RemoteMemoryRegionMetadata,
};

fn metadata(name: &str, id: u32, size: usize) -> RemoteMemoryRegionMetadata {
    RemoteMemoryRegionMetadata {
        name: name.into(),
        id,
        size,
        elem_size: 1,
        elem_align: 1,
        elem_type: "u8".into(),
    }
}

/// A region of 4096 bytes at 0x1000, of group 0, shared as elements of
/// the given layout.
fn region(elem_size: u32, elem_align: u32, elem_type: &str) -> RemoteMemoryRegion {
    RemoteMemoryRegion {
        remote_addr: 0x1000,
        size: 4096,
        rkey: 1,
        group: 0,
        elem_size,
        elem_align,
        elem_type: elem_type.into(),
    }
}

/// A provider with no session behind it: reads through it fail for want
/// of the group's RDMA connection, not for bad input.
fn unconnected() -> RemoteMemoryProvider {
    RemoteMemoryProvider::new(RemoteMemoryProviderAddr::default())
}

/// A provider whose group 0 is connected.
fn connected() -> RemoteMemoryProvider {
    let mut provider = unconnected();
    provider.sessions.insert(
        0,
        GroupSession {
            channel: true,
            connection: GroupConnection {
                connection: Some(connection(40)),
            },
        },
    );
    provider
}

fn connection(pd: usize) -> Connection {
    Connection {
        id: 1,
        cq: 2,
        pd: Some(ProtectionDomain { context: 7, pd }),
        event_channel: 3,
        next_wr_id: 0,
    }
}

fn desc(id: u32, name: &str, size: u64) -> RegionDesc {
    RegionDesc {
        id,
        name: name.into(),
        size,
        elem_size: 8,
        elem_align: 8,
        elem_type: "u64".into(),
    }
}

fn tuple(region_id: u32, remote_addr: u64, size: u64, rkey: u32) -> TupleDesc {
    TupleDesc {
        region_id,
        remote_addr,
        size,
        rkey,
    }
}

#[test]
fn provider_starts_empty() {
    let mut provider = RemoteMemoryProvider::new(RemoteMemoryProviderAddr::default());
    assert!(provider.get_remote_mr_metadata().is_empty());
    assert!(provider.get_remote_mr(&metadata("missing", 0, 0), None).is_none());
    // Nothing connects until an update, and an update starts by
    // connecting: without a reachable remote it is given up.
    let update = provider.update(0);
    assert_eq!(
        provider.next(&update),
        Some(UpdateCall::OpenChannel {
            address: String::new(),
            port: 0
        })
    );
    provider.give_up(update);
    assert!(provider.get_remote_mr_metadata().is_empty());
}

#[test]
fn lookup_by_metadata_and_group() {
    let mut provider = RemoteMemoryProvider::new(RemoteMemoryProviderAddr::default());
    let heap = metadata("heap", 7, 12288);
    provider.metadata.push(heap.clone());
    provider.regions.push(RegionEntry {
        name: heap.name.clone(),
        id: heap.id,
        cached: vec![
            CachedRegion {
                remote_addr: 0x1000,
                size: 4096,
                rkey: 1,
                group: 0,
                elem_size: 1,
                elem_align: 1,
                elem_type: "u8".into(),
            },
            CachedRegion {
                remote_addr: 0x2000,
                size: 8192,
                rkey: 2,
                group: 3,
                elem_size: 8,
                elem_align: 8,
                elem_type: "u64".into(),
            },
        ],
    });

    let any = provider.get_remote_mr(&heap, None).unwrap();
    assert_eq!(any.group, 0);

    let grouped = provider.get_remote_mr(&heap, Some(3)).unwrap();
    assert_eq!(
        (grouped.remote_addr, grouped.size, grouped.rkey, grouped.group),
        (0x2000, 8192, 2, 3)
    );
    assert_eq!((grouped.elem_size, grouped.elem_align), (8, 8));

    assert!(provider.get_remote_mr(&heap, Some(7)).is_none());
    // Same name, different id: a different region.
    assert!(provider.get_remote_mr(&metadata("heap", 8, 12288), None).is_none());
    assert_eq!(provider.get_remote_mr_metadata(), vec![heap]);
}

#[test]
fn read_bounds_are_checked_before_connecting() {
    let region = region(1, 1, "u8");
    let provider = unconnected();
    let mut buf = [0u8; 8];

    // Beyond the region's end.
    assert!(region.read_into(&provider, 4090, 8, &mut buf).is_err());
    // Larger than the destination buffer.
    assert!(region.read_into(&provider, 0, 16, &mut buf).is_err());
    // The allocating read checks the region bounds too. All of these
    // fail before any connection is attempted.
    assert!(region.read(&provider, 4090, 8).is_err());
}

#[test]
fn typed_read_bounds_and_alignment_are_checked_before_connecting() {
    let region = region(4, 4, "u32");
    let provider = unconnected();

    // 8 bytes of u32s at offset 4090 exceed the 4096-byte region.
    assert_eq!(
        region.read_typed::<u32>(&provider, 4090, 2).unwrap_err().kind(),
        ErrorKind::InvalidInput
    );
    // Offset 2 is misaligned for u32 elements at a 0x1000 region.
    assert_eq!(
        region.read_typed::<u32>(&provider, 2, 1).unwrap_err().kind(),
        ErrorKind::InvalidInput
    );
    // A whole-buffer typed read of 2048 u32s exceeds the region.
    let mut buf = [0u32; 2048];
    assert_eq!(
        region.read_into_typed(&provider, 0, &mut buf).unwrap_err().kind(),
        ErrorKind::InvalidInput
    );

    // In bounds, aligned, and of the registered element layout — this
    // one fails later, for want of the group's connection: there is
    // no RDMA stack here and no session has run, but the error is no
    // longer an input error.
    assert_ne!(
        region.read_typed::<u32>(&provider, 0, 4).unwrap_err().kind(),
        ErrorKind::InvalidInput
    );
}

#[test]
fn typed_mismatch_with_the_registered_layout_is_rejected() {
    // A region shared as u64s.
    let region = region(8, 8, "u64");
    let provider = unconnected();

    // A u32 view of it: layout mismatch, rejected before any read is
    // attempted — with both type names in the error.
    let err = region.read_typed::<u32>(&provider, 0, 2).unwrap_err();
    assert_eq!(err.kind(), ErrorKind::InvalidInput);
    let msg = err.message();
    assert!(msg.contains("u64"), "{msg}");
    assert!(msg.contains("u32"), "{msg}");

    let mut buf = [0u32; 2];
    assert_eq!(
        region.read_into_typed(&provider, 0, &mut buf).unwrap_err().kind(),
        ErrorKind::InvalidInput
    );
    // The matching type still passes the layout check.
    assert_ne!(
        region.read_typed::<u64>(&provider, 0, 1).unwrap_err().kind(),
        ErrorKind::InvalidInput
    );
}

#[test]
fn refused_accesses_say_why() {
    let provider = connected();
    let bytes = region(1, 1, "u8");
    let mut buf = [0u8; 8];
    assert_eq!(
        bytes.read_into(&provider, 0, 16, &mut buf).unwrap_err().message(),
        "read of 16 bytes exceeds the buffer of 8 bytes"
    );
    assert_eq!(
        bytes.read(&provider, 4090, 8).unwrap_err().message(),
        "read of 8 bytes at offset 4090 exceeds the region of 4096 bytes"
    );
    assert_eq!(
        bytes.write(&provider, u64::MAX, &buf).unwrap_err(),
        Error::ExceedsRegion {
            access: Access::Write,
            size: 8,
            offset: u64::MAX,
            region: 4096
        }
    );
    assert_eq!(
        bytes.write(&provider, 4089, &buf).unwrap_err().message(),
        "write of 8 bytes at offset 4089 exceeds the region of 4096 bytes"
    );
    assert_eq!(bytes.read(&provider, 0, 0).unwrap_err(), Error::EmptyRegistration);

    let words = region(4, 4, "u32");
    assert_eq!(
        words.read_typed::<u32>(&provider, 4092, 2).unwrap_err().message(),
        "read of 2 elements at offset 4092 exceeds the region of 1024 elements of 4 bytes"
    );
    assert_eq!(
        words.read_typed::<u32>(&provider, 6, 1).unwrap_err().message(),
        "read at offset 6 is misaligned for elements of alignment 4"
    );
    // The last element, and nothing behind it.
    assert!(words.write_typed::<u32>(&provider, 1023, &[1]).is_ok());
    assert_eq!(
        words.write_typed::<u32>(&provider, 1024, &[1]).unwrap_err().message(),
        "write of 1 elements at element offset 1024 exceeds the region of 1024 elements of 4 bytes"
    );
    assert_eq!(
        words.write_typed::<u32>(&provider, u64::MAX, &[1]).unwrap_err(),
        Error::ExceedsElements {
            access: Access::Write,
            count: 1,
            offset: u64::MAX,
            elements: 1024,
            elem_size: 4
        }
    );
    // Elements are misaligned where the region's base is.
    let mut askew = region(4, 4, "u32");
    askew.remote_addr = 0x1002;
    assert_eq!(
        askew.write_typed::<u32>(&provider, 5, &[1]).unwrap_err().message(),
        "write at element offset 5 is misaligned for elements of alignment 4"
    );
    assert_eq!(
        words.write_typed::<u64>(&provider, 0, &[1]).unwrap_err().message(),
        "the region is shared as elements of u32 (size 4, alignment 4), not u64 (size 8, alignment 8)"
    );
    let lost = bytes.read(&unconnected(), 0, 1).unwrap_err();
    assert_eq!(lost, Error::NotConnected);
    assert_eq!(lost.kind(), ErrorKind::Other);
    assert_eq!(
        lost.message(),
        "the group has no RDMA connection: a successful update is required first"
    );
}

#[test]
fn accesses_are_planned_within_the_region() {
    let provider = connected();
    let bytes = region(1, 1, "u8");
    // The last byte, and nothing behind it.
    let (buffer, plan) = bytes.read(&provider, 4095, 1).unwrap();
    assert_eq!(buffer, vec![0]);
    assert_eq!(plan.access, Access::Read);
    assert_eq!((plan.remote_addr, plan.rkey, plan.len), (0x1FFF, 1, 1));
    assert_eq!(plan.registration.addr, buffer.as_ptr() as u64);
    assert_eq!(
        (plan.registration.pd, plan.registration.length, plan.registration.access),
        (40, 1, 15)
    );
    assert!(bytes.read(&provider, 4096, 1).is_err());

    let data = [1u8, 2, 3];
    let plan = bytes.write(&provider, 10, &data).unwrap();
    assert_eq!(plan.access, Access::Write);
    assert_eq!((plan.remote_addr, plan.len), (0x100A, 3));
    assert_eq!(plan.registration.addr, data.as_ptr() as u64);

    let mut buf = [9u8; 8];
    let at = buf.as_ptr() as u64;
    let plan = bytes.read_into(&provider, 3, 5, &mut buf).unwrap();
    assert_eq!((plan.registration.addr, plan.registration.length), (at, 5));
    assert_eq!((plan.remote_addr, plan.len), (0x1003, 5));
    // The device fills the buffer, not the plan.
    assert_eq!(buf, [9; 8]);
}

#[test]
fn typed_accesses_are_planned_at_element_offsets() {
    let provider = connected();
    let words = region(8, 8, "u64");
    assert_eq!(element_offset::<u64>(3), 24);
    assert_eq!(element_offset::<u8>(3), 3);
    assert_eq!(element_offset::<u64>(u64::MAX), u64::MAX);

    let (buffer, plan) = words.read_typed::<u64>(&provider, element_offset::<u64>(3), 2).unwrap();
    assert_eq!(buffer, vec![0, 0]);
    assert_eq!((plan.remote_addr, plan.len), (0x1018, 16));
    assert_eq!(plan.registration.addr, buffer.as_ptr() as u64);
    // Aligned elements keep to word boundaries.
    assert_eq!((plan.remote_addr % 8, plan.len % 8), (0, 0));

    // Writes count elements.
    let plan = words.write_typed::<u64>(&provider, 2, &[5, 6]).unwrap();
    assert_eq!((plan.remote_addr, plan.len), (0x1010, 16));
    let plan = words.write_typed::<u64>(&provider, 511, &[5]).unwrap();
    assert_eq!((plan.access, plan.remote_addr, plan.len), (Access::Write, 0x1FF8, 8));

    let mut buf = [1u64; 4];
    let plan = words.read_into_typed(&provider, 8, &mut buf).unwrap();
    assert_eq!((plan.remote_addr, plan.len), (0x1008, 32));
    assert_eq!(buf, [1; 4]);
    assert!(words.read_into_typed::<u64>(&provider, 0, &mut []).is_err());
}

#[test]
fn typed_writes_count_elements() {
    let provider = unconnected();
    let words = region(4, 4, "u32");
    // Element 2 is in the region, and aligned: what is missing is the
    // connection.
    assert_eq!(
        words.write_typed::<u32>(&provider, 2, &[1]).unwrap_err(),
        Error::NotConnected
    );
    // Element 2000 is behind the region's 1024 elements.
    assert_eq!(
        words.write_typed::<u32>(&provider, 2000, &[1]).unwrap_err().kind(),
        ErrorKind::InvalidInput
    );
}

#[test]
fn addresses_describe_the_remote() {
    let addr = RemoteMemoryProviderAddr::new("node1", 18515, 9917);
    assert_eq!(
        (addr.address.as_str(), addr.rdma_port, addr.tcp_port),
        ("node1", 18515, 9917)
    );
    let none = RemoteMemoryProviderAddr::default();
    assert_eq!((none.address.as_str(), none.rdma_port, none.tcp_port), ("", 0, 0));
}

#[test]
fn a_fresh_session_is_run_step_by_step() {
    let mut provider =
        RemoteMemoryProvider::new(RemoteMemoryProviderAddr::new("node1", 18515, 9917));
    let mut update = provider.update(4);
    assert!(update.fresh);
    assert_eq!(
        provider.next(&update),
        Some(UpdateCall::OpenChannel {
            address: "node1".into(),
            port: 9917
        })
    );
    provider.advance(&mut update, UpdateReply::Opened).unwrap();
    assert_eq!(
        provider.next(&update),
        Some(UpdateCall::Send {
            message: Message::Hello { version: 1 }
        })
    );
    provider.advance(&mut update, UpdateReply::Sent).unwrap();
    assert_eq!(provider.next(&update), Some(UpdateCall::Receive));
    let message = Message::Welcome { version: 1 };
    provider
        .advance(&mut update, UpdateReply::Received { message })
        .unwrap();
    assert_eq!(
        provider.next(&update),
        Some(UpdateCall::Send {
            message: Message::WantGroup { group: 4 }
        })
    );
    provider.advance(&mut update, UpdateReply::Sent).unwrap();
    assert_eq!(
        provider.next(&update),
        Some(UpdateCall::ConnectRdma {
            address: "node1".into(),
            port: 18515
        })
    );
    let connection = connection(40);
    provider
        .advance(&mut update, UpdateReply::Connected { connection })
        .unwrap();
    assert_eq!(provider.next(&update), Some(UpdateCall::Receive));
    let message = Message::Metadata {
        regions: vec![desc(7, "heap", 64)],
    };
    provider
        .advance(&mut update, UpdateReply::Received { message })
        .unwrap();
    assert_eq!(provider.next(&update), Some(UpdateCall::Receive));
    // The channel counts as open once the exchange is complete.
    assert!(!provider.sessions[&4].channel);
    let message = Message::Tuples {
        group: 4,
        tuples: vec![tuple(7, 0x5000, 64, 9)],
    };
    provider
        .advance(&mut update, UpdateReply::Received { message })
        .unwrap();
    assert_eq!(provider.next(&update), None);
    assert_eq!(update.step, UpdateStep::Finished);
    assert!(provider.sessions[&4].channel);

    let known = provider.get_remote_mr_metadata();
    assert_eq!(known.len(), 1);
    assert_eq!((known[0].name.as_str(), known[0].id, known[0].size), ("heap", 7, 64));
    let region = provider.get_remote_mr(&known[0], Some(4)).unwrap();
    assert_eq!((region.remote_addr, region.size, region.rkey), (0x5000, 64, 9));
    assert_eq!(provider.slot(4).get(), Ok(&self::connection(40)));
    let (_, plan) = region.read(&provider, 0, 64).unwrap();
    assert_eq!(plan.registration.pd, 40);

    // The next update goes over the open channel.
    let update = provider.update(4);
    assert!(!update.fresh);
    assert_eq!(
        provider.next(&update),
        Some(UpdateCall::Send {
            message: Message::Update
        })
    );
    // Where that exchange fails, the one behind it is fresh; what is
    // known stays known.
    provider.give_up(update);
    assert!(provider.update(4).fresh);
    assert_eq!(provider.get_remote_mr_metadata(), known);
    assert!(provider.sessions[&4].connection.connection.is_some());
}

#[test]
fn greetings_are_checked() {
    let mut provider = RemoteMemoryProvider::new(RemoteMemoryProviderAddr::default());
    for (message, error, text) in [
        (
            Message::Welcome { version: 2 },
            Error::RemoteVersion { version: 2 },
            "the remote speaks protocol version 2, not 1",
        ),
        (
            Message::Update,
            Error::UnexpectedMessage {
                expected: Expected::GreetingReply,
                got: Message::Update,
            },
            "expected a greeting reply, got Update",
        ),
    ] {
        let mut update = provider.update(0);
        provider.advance(&mut update, UpdateReply::Opened).unwrap();
        provider.advance(&mut update, UpdateReply::Sent).unwrap();
        let err = provider
            .advance(&mut update, UpdateReply::Received { message })
            .unwrap_err();
        assert_eq!(err, error);
        assert_eq!(err.kind(), ErrorKind::Other);
        assert_eq!(err.message(), text);
        assert_eq!(provider.next(&update), None);
        assert!(!provider.sessions[&0].channel);
    }
}

#[test]
fn broken_exchanges_are_refused_and_change_nothing() {
    let mut provider = RemoteMemoryProvider::new(RemoteMemoryProviderAddr::default());
    let catalog = |name: &str| Message::Metadata {
        regions: vec![desc(0, name, 8)],
    };
    let tuples = |group| Message::Tuples {
        group,
        tuples: vec![tuple(0, 0x10, 8, 1)],
    };
    provider.ingest(1, catalog("kept"), tuples(1)).unwrap();

    let err = provider.ingest(1, catalog("other"), tuples(2)).unwrap_err();
    assert_eq!(err, Error::WrongGroup { served: 2, group: 1 });
    assert_eq!(err.message(), "the remote served group 2, not 1");
    for (first, second) in [
        (tuples(1), catalog("other")),
        (Message::Update, tuples(1)),
        (catalog("other"), Message::Update),
    ] {
        let err = provider.ingest(1, first, second).unwrap_err();
        assert_eq!(err, Error::NotAnExchange);
        assert_eq!(
            err.message(),
            "the remote replied with something other than the catalog and the tuples"
        );
    }
    assert_eq!(provider.get_remote_mr_metadata()[0].name, "kept");
    assert_eq!(provider.regions.len(), 1);
}

/// Run the update's exchange, which gets these messages, from the step
/// behind the rendezvous or the re-request.
fn finish(
    provider: &mut RemoteMemoryProvider,
    update: &mut Update,
    catalog: Message,
    tuples: Message,
) -> Result<(), Error> {
    let message = catalog;
    provider.advance(update, UpdateReply::Received { message }).unwrap();
    let message = tuples;
    provider.advance(update, UpdateReply::Received { message })
}

/// Run a fresh session up to its exchange, connecting in `pd`.
fn rendezvous(provider: &mut RemoteMemoryProvider, group: u32, pd: usize) -> Update {
    let mut update = provider.update(group);
    assert!(update.fresh);
    provider.advance(&mut update, UpdateReply::Opened).unwrap();
    provider.advance(&mut update, UpdateReply::Sent).unwrap();
    let message = Message::Welcome { version: 1 };
    provider
        .advance(&mut update, UpdateReply::Received { message })
        .unwrap();
    provider.advance(&mut update, UpdateReply::Sent).unwrap();
    let connection = connection(pd);
    provider
        .advance(&mut update, UpdateReply::Connected { connection })
        .unwrap();
    update
}

#[test]
fn refused_exchanges_drop_the_channel() {
    let mut provider = RemoteMemoryProvider::new(RemoteMemoryProviderAddr::default());
    let catalog = |name: &str| Message::Metadata {
        regions: vec![desc(0, name, 8)],
    };
    let tuples = |group| Message::Tuples {
        group,
        tuples: vec![tuple(0, 0x10, 8, 1)],
    };

    // A fresh session whose exchange is another group's.
    let mut update = rendezvous(&mut provider, 1, 40);
    assert_eq!(
        finish(&mut provider, &mut update, catalog("a"), tuples(2)),
        Err(Error::WrongGroup { served: 2, group: 1 })
    );
    assert_eq!(provider.next(&update), None);
    assert!(!provider.sessions[&1].channel);
    assert!(provider.sessions[&1].connection.connection.is_some());

    // The next session is fresh, and taken.
    let mut update = rendezvous(&mut provider, 1, 40);
    finish(&mut provider, &mut update, catalog("a"), tuples(1)).unwrap();
    assert!(provider.sessions[&1].channel);

    for (first, second, error) in [
        (
            catalog("b"),
            tuples(2),
            Error::WrongGroup { served: 2, group: 1 },
        ),
        // A stream out of step.
        (tuples(1), catalog("b"), Error::NotAnExchange),
    ] {
        // A re-request that is refused changes nothing that is known,
        // and the session behind it greets again.
        let mut update = provider.update(1);
        assert!(!update.fresh);
        provider.advance(&mut update, UpdateReply::Sent).unwrap();
        assert_eq!(finish(&mut provider, &mut update, first, second), Err(error));
        assert!(!provider.sessions[&1].channel);
        assert!(provider.sessions[&1].connection.connection.is_some());
        assert_eq!(provider.get_remote_mr_metadata()[0].name, "a");
        assert_eq!(provider.regions[0].name, "a");
        let mut update = rendezvous(&mut provider, 1, 40);
        finish(&mut provider, &mut update, catalog("a"), tuples(1)).unwrap();
    }
}

#[test]
fn regions_follow_the_connection_of_their_group() {
    let mut provider = RemoteMemoryProvider::new(RemoteMemoryProviderAddr::default());
    let catalog = || Message::Metadata {
        regions: vec![desc(0, "a", 8)],
    };
    let tuples = || Message::Tuples {
        group: 1,
        tuples: vec![tuple(0, 0x10, 8, 1)],
    };
    let mut update = rendezvous(&mut provider, 1, 40);
    finish(&mut provider, &mut update, catalog(), tuples()).unwrap();
    let known = provider.get_remote_mr_metadata();
    let region = provider.get_remote_mr(&known[0], None).unwrap();
    let (_, plan) = region.read(&provider, 0, 8).unwrap();
    assert_eq!(plan.registration.pd, 40);

    // The channel fails, and the next session connects in another
    // domain: the region goes through it.
    let update = provider.update(1);
    provider.give_up(update);
    let mut update = rendezvous(&mut provider, 1, 41);
    finish(&mut provider, &mut update, catalog(), tuples()).unwrap();
    let (_, plan) = region.read(&provider, 0, 8).unwrap();
    assert_eq!(plan.registration.pd, 41);
    let mr = plan.registration.complete(9, 5, 6).unwrap();
    let slot = &mut provider.sessions.get_mut(&1).unwrap().connection;
    assert!(slot
        .get_mut()
        .unwrap()
        .read(&mr, plan.remote_addr, plan.rkey, plan.len)
        .is_ok());

    // A group without a session has no connection.
    let mut lone = region.clone();
    lone.group = 9;
    assert_eq!(lone.read(&provider, 0, 8).unwrap_err(), Error::NotConnected);
    assert_eq!(provider.slot(9), &GroupConnection::empty());
}

#[test]
fn nothing_is_allocated_for_refused_reads() {
    let provider = connected();
    let bytes = region(1, 1, "u8");
    assert_eq!(
        bytes.read(&provider, 0, usize::MAX).unwrap_err().kind(),
        ErrorKind::InvalidInput
    );
    let words = region(8, 8, "u64");
    assert_eq!(
        words.read_typed::<u64>(&provider, 0, usize::MAX).unwrap_err(),
        Error::ExceedsElements {
            access: Access::Read,
            count: usize::MAX,
            offset: 0,
            elements: 512,
            elem_size: 8
        }
    );
    assert_eq!(
        words.read_typed::<u64>(&provider, 1, 1).unwrap_err().kind(),
        ErrorKind::InvalidInput
    );
    // The layout comes first.
    assert!(matches!(
        words.read_typed::<u8>(&provider, 0, usize::MAX).unwrap_err(),
        Error::LayoutMismatch { .. }
    ));
}

#[test]
fn updates_replace_the_catalog_and_keep_other_groups() {
    let mut provider = RemoteMemoryProvider::new(RemoteMemoryProviderAddr::default());
    let catalog = |descs: Vec<RegionDesc>| Message::Metadata { regions: descs };
    let tuples = |group, tuples| Message::Tuples { group, tuples };

    provider
        .ingest(
            0,
            catalog(vec![desc(0, "a", 8), desc(1, "b", 8)]),
            tuples(0, vec![tuple(0, 0x10, 8, 1), tuple(1, 0x20, 8, 2)]),
        )
        .unwrap();
    provider
        .ingest(
            3,
            catalog(vec![desc(0, "a", 8), desc(1, "b", 8)]),
            tuples(3, vec![tuple(0, 0x10, 8, 30)]),
        )
        .unwrap();
    let a = provider.get_remote_mr_metadata()[0].clone();
    let b = provider.get_remote_mr_metadata()[1].clone();
    // Any group: the first one known.
    assert_eq!(provider.get_remote_mr(&a, None).unwrap().rkey, 1);
    assert_eq!(provider.get_remote_mr(&a, Some(3)).unwrap().rkey, 30);
    assert!(provider.get_remote_mr(&b, Some(3)).is_none());
    assert_eq!(provider.get_remote_mr(&b, Some(0)).unwrap().rkey, 2);

    // Group 0 again: its tuples are replaced, group 3's stay; the
    // region that left the catalog is gone.
    provider
        .ingest(
            0,
            catalog(vec![desc(0, "a", 8)]),
            tuples(0, vec![tuple(0, 0x90, 8, 7)]),
        )
        .unwrap();
    assert_eq!(provider.get_remote_mr_metadata(), vec![a.clone()]);
    assert_eq!(provider.get_remote_mr(&a, Some(0)).unwrap().remote_addr, 0x90);
    // Group 0's tuple now stands behind group 3's.
    assert_eq!(provider.get_remote_mr(&a, None).unwrap().group, 3);
    assert!(provider.get_remote_mr(&b, None).is_none());
    // Ingesting the same exchange twice changes nothing.
    let before = format!("{:?}", provider.regions);
    provider
        .ingest(
            0,
            catalog(vec![desc(0, "a", 8)]),
            tuples(0, vec![tuple(0, 0x90, 8, 7)]),
        )
        .unwrap();
    assert_eq!(format!("{:?}", provider.regions), before);
    // A region without a tuple is known, and not reachable.
    provider
        .ingest(0, catalog(vec![desc(0, "a", 8)]), tuples(0, Vec::new()))
        .unwrap();
    assert!(provider.get_remote_mr(&a, Some(0)).is_none());
    assert_eq!(provider.get_remote_mr(&a, None).unwrap().group, 3);
}

#[test]
fn of_repeated_tuples_and_regions_the_last_counts() {
    let mut provider = RemoteMemoryProvider::new(RemoteMemoryProviderAddr::default());
    let mut again = desc(0, "a", 8);
    again.elem_type = "i64".into();
    provider
        .ingest(
            0,
            Message::Metadata {
                regions: vec![desc(0, "a", 8), again],
            },
            Message::Tuples {
                group: 0,
                tuples: vec![tuple(0, 1, 8, 1), tuple(0, 2, 8, 2)],
            },
        )
        .unwrap();
    let known = provider.get_remote_mr_metadata();
    assert_eq!(known.len(), 2);
    let region = provider.get_remote_mr(&known[0], None).unwrap();
    assert_eq!((region.rkey, region.elem_type.as_str()), (2, "i64"));
    assert_eq!(provider.regions.len(), 1);
    assert_eq!(provider.regions[0].cached.len(), 1);
}

#[test]
fn empty_slots_have_no_connection() {
    let mut slot = GroupConnection::empty();
    assert_eq!(slot.get().unwrap_err(), Error::NotConnected);
    assert_eq!(slot.get_mut().unwrap_err(), Error::NotConnected);
    slot.connection = Some(connection(40));
    slot.get_mut().unwrap().next_wr_id = 5;
    assert_eq!(slot.get().unwrap().next_wr_id, 5);
}
