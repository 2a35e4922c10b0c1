use rdmalib::error::{Error, ErrorKind};
use rdmalib::meta::{Message, RegionDesc, TupleDesc};
use rdmalib::rdma::verbs::Connection;
use rdmalib::rdma::{Listener, ProtectionDomain, Registration};
use rdmalib::shared::{RegionInfo, Registrations, Shared, SharedTuple};
use rdmalib::{
    RemoteSafe, SharedMemoryRegionMetadata, SharedMemoryRegionProvider,
    SharedMemoryRegionProviderAddr,
};

fn provider() -> SharedMemoryRegionProvider {
    SharedMemoryRegionProvider::new(SharedMemoryRegionProviderAddr::new(18515, 9125))
}

#[derive(Clone, Copy, Debug, PartialEq)]
struct Reading {
    timestamp: u64,
    value: f32,
    flags: u32,
}

impl RemoteSafe for Reading {
    fn zeroed() -> Self {
        Reading {
            timestamp: 0,
            value: 0.0,
            flags: 0,
        }
    }

    fn elem_type() -> String {
        "shared::Reading".into()
    }
}

/// A connection in the domain `pd` of the device 7.
fn connection(pd: usize) -> Connection {
    Connection {
        id: 1,
        cq: 2,
        pd: Some(ProtectionDomain { context: 7, pd }),
        event_channel: 0,
        next_wr_id: 0,
    }
}

/// Create the pending tuples of `group`, with the registrations that a
/// device would give: handle, lkey and rkey from the region's id.
fn create_tuples(shared: &mut Shared, group: u32) {
    let mut pass = Registrations::new(group);
    while let Some((id, registration)) = pass.next(shared) {
        pass.absorb(shared, id, registration, 100 + id as usize, 200 + id, 300 + id)
            .unwrap();
    }
}

#[test]
fn register_assigns_sequential_ids() {
    let mut provider = provider();
    let a = provider.register(SharedMemoryRegionMetadata::new("heap", vec![0; 4]));
    let b = provider.register_typed("counters", vec![0u32; 4]);
    // Same name, distinct ids — the id sequence is shared by the byte
    // and the typed entry points.
    assert_eq!((a.id(), b.id()), (0, 1));
}

#[test]
fn tuples_need_an_accepted_group() {
    let mut provider = provider();
    let handle = provider.register(SharedMemoryRegionMetadata::new("heap", vec![0u8; 4096]));

    // No reader has been accepted into group 0, so no group exists
    // yet: no tuple is served.
    assert!(provider.get_shared_mr(handle.id(), 0).unwrap().is_none());
    assert!(provider.get_shared_mr(99, 0).unwrap().is_none());
}

#[test]
fn buffer_read_write_via_handle() {
    let mut provider = provider();
    let mut handle = provider.register(SharedMemoryRegionMetadata::new("heap", vec![1, 2, 3, 4]));

    assert_eq!(*handle.borrow(), [1, 2, 3, 4]);
    handle.borrow_mut()[0] = 9;
    assert_eq!(*handle.borrow(), [9, 2, 3, 4]);
}

#[test]
fn provider_usable_while_buffer_borrowed() {
    let mut provider = provider();
    let mut a = provider.register(SharedMemoryRegionMetadata::new("a", vec![0; 8]));

    let buf = a.borrow_mut();
    buf[0] = 1;
    // Tuples are served without touching the buffers — their address
    // and size were captured at registration — so the provider keeps
    // working while the application holds a mutable borrow: it
    // registers regions and serves tuple lookups. (No reader has been
    // accepted, so no tuple is available yet.)
    let b = provider.register(SharedMemoryRegionMetadata::new("b", vec![0; 8]));
    assert!(provider.get_shared_mr(b.id(), 0).unwrap().is_none());
    assert_eq!(*b.borrow(), [0; 8]);
    buf[1] = 2;

    assert_eq!(a.borrow()[0], 1);
    assert_eq!(a.borrow()[1], 2);
}

#[test]
fn typed_regions_are_shared_without_copying() {
    let mut provider = provider();
    let readings = vec![
        Reading {
            timestamp: 1,
            value: 1.5,
            flags: 0,
        },
        Reading {
            timestamp: 2,
            value: 2.5,
            flags: 8,
        },
    ];
    let expected = readings.clone();
    let before = readings.as_ptr();

    let mut handle = provider.register_typed("readings", readings);

    // The Vec was moved, not copied: the same heap allocation.
    assert_eq!(handle.borrow().as_ptr(), before);
    assert_eq!(handle.borrow(), expected.as_slice());

    handle.borrow_mut()[1].value = 9.0;
    assert_eq!(handle.borrow()[1].value, 9.0);

    // Whatever is written, the buffer keeps its length and its place.
    handle.borrow_mut().fill(Reading::zeroed());
    assert_eq!(handle.borrow().len(), 2);
    assert_eq!(handle.borrow().as_ptr(), before);
}

#[test]
fn typed_regions_serve_tuples_like_byte_regions() {
    let mut provider = provider();
    let handle = provider.register_typed::<u32>("counters", vec![7, 7, 7, 7]);

    // Tuples are built from the captured byte address and size, so a
    // 16-byte Vec of four u32s is served exactly like a byte region.
    // (No reader has been accepted into group 0, so no tuple exists.)
    assert!(provider.get_shared_mr(handle.id(), 0).unwrap().is_none());
}

#[test]
fn the_catalog_captures_address_size_and_layout() {
    let mut provider = provider();
    let readings = vec![Reading::zeroed(); 3];
    let at = readings.as_ptr() as u64;
    let handle = provider.register_typed("readings", readings);
    let info = &provider.shared.catalog[handle.id() as usize];
    assert_eq!(info.name, "readings");
    assert_eq!(info.remote_addr, at);
    assert_eq!(info.size, 48);
    assert_eq!((info.elem_size, info.elem_align), (16, 8));
    assert_eq!(info.elem_type, "shared::Reading");
}

#[test]
fn a_provider_is_served_once_on_every_interface() {
    let mut provider = provider();
    let endpoints = provider.serve().unwrap();
    assert_eq!((endpoints.tcp.ip, endpoints.tcp.port), ([0; 4], 9125));
    assert_eq!((endpoints.rdma.ip, endpoints.rdma.port), ([0; 4], 18515));
    // Nothing is bound yet: serving can be tried again.
    assert!(provider.serve().is_ok());
    provider.bound();
    let err = provider.serve().unwrap_err();
    assert_eq!(err, Error::AlreadyServing);
    assert_eq!(err.kind(), ErrorKind::InvalidInput);
    assert_eq!(err.message(), "the provider is already serving");
}

#[test]
fn tuples_are_created_once_per_region_and_group() {
    let mut provider = provider();
    let handle = provider.register(SharedMemoryRegionMetadata::new("heap", vec![0u8; 64]));
    let at = handle.borrow().as_ptr() as u64;
    provider.shared.join(3, connection(40));

    // The first request asks for a registration in the group's domain.
    let expected = Registration {
        pd: 40,
        addr: at,
        length: 64,
        access: 15,
    };
    assert_eq!(
        provider.get_shared_mr(0, 3),
        Ok(Some(SharedTuple::Pending(expected)))
    );
    // A failed registration is an error, and changes nothing.
    let err = provider
        .shared
        .tuple_registered(0, 3, expected, 0, 0, 0)
        .unwrap_err();
    assert!(err.message().starts_with("ibv_reg_mr failed: "), "{}", err.message());
    assert_eq!(
        provider.get_shared_mr(0, 3),
        Ok(Some(SharedTuple::Pending(expected)))
    );
    // Once registered, every request finds the same tuple.
    assert_eq!(
        provider.shared.tuple_registered(0, 3, expected, 9, 5, 6),
        Ok((at, 64, 6))
    );
    let ready = Ok(Some(SharedTuple::Ready(at, 64, 6)));
    assert_eq!(provider.get_shared_mr(0, 3), ready);
    provider.register(SharedMemoryRegionMetadata::new("more", vec![0u8; 8]));
    provider.shared.join(3, connection(40));
    provider.shared.join(4, connection(41));
    assert_eq!(provider.get_shared_mr(0, 3), ready);
    // Another group has a registration of its own.
    assert_eq!(
        provider.get_shared_mr(0, 4),
        Ok(Some(SharedTuple::Pending(Registration { pd: 41, ..expected })))
    );
    // Closing gives the tuples up.
    provider.close();
    assert_eq!(
        provider.get_shared_mr(0, 3),
        Ok(Some(SharedTuple::Pending(expected)))
    );
}

#[test]
fn regions_without_bytes_have_no_tuple() {
    let mut provider = provider();
    provider.register(SharedMemoryRegionMetadata::new("empty", Vec::new()));
    provider.shared.join(0, connection(40));
    let err = provider.get_shared_mr(0, 0).unwrap_err();
    assert_eq!(err, Error::EmptyRegistration);
    assert_eq!(err.message(), "cannot register an empty region");
    assert_eq!(Registrations::new(0).next(&provider.shared), None);
    let (catalog, tuples) = provider.shared.catalog_and_tuples(0);
    assert_eq!(
        catalog,
        Message::Metadata {
            regions: vec![RegionDesc {
                id: 0,
                name: "empty".into(),
                size: 0,
                elem_size: 1,
                elem_align: 1,
                elem_type: "u8".into(),
            }]
        }
    );
    assert_eq!(
        tuples,
        Message::Tuples {
            group: 0,
            tuples: Vec::new()
        }
    );
}

#[test]
fn every_region_is_served_with_its_tuple() {
    let mut provider = provider();
    let a = provider.register(SharedMemoryRegionMetadata::new("a", vec![0u8; 16]));
    let b = provider.register_typed("b", vec![0u64; 2]);
    provider.shared.join(5, connection(40));
    create_tuples(&mut provider.shared, 5);
    assert_eq!(Registrations::new(5).next(&provider.shared), None);

    let (catalog, tuples) = provider.shared.catalog_and_tuples(5);
    let desc = |id, name: &str, elem: u32, elem_type: &str| RegionDesc {
        id,
        name: name.into(),
        size: 16,
        elem_size: elem,
        elem_align: elem,
        elem_type: elem_type.into(),
    };
    assert_eq!(
        catalog,
        Message::Metadata {
            regions: vec![desc(0, "a", 1, "u8"), desc(1, "b", 8, "u64")]
        }
    );
    let tuple = |id: u32, remote_addr| TupleDesc {
        region_id: id,
        remote_addr,
        size: 16,
        rkey: 300 + id,
    };
    assert_eq!(
        tuples,
        Message::Tuples {
            group: 5,
            tuples: vec![
                tuple(0, a.borrow().as_ptr() as u64),
                tuple(1, b.borrow().as_ptr() as u64)
            ]
        }
    );
    // A group nobody joined has the catalog, and no tuples.
    let (_, none) = provider.shared.catalog_and_tuples(6);
    assert_eq!(
        none,
        Message::Tuples {
            group: 6,
            tuples: Vec::new()
        }
    );
}

#[test]
fn the_first_reader_of_a_group_fixes_its_domain() {
    let mut shared = Shared::new();
    let listener = Listener {
        id: 11,
        event_channel: 12,
    };
    // Nobody yet: the connection brings a domain of its own.
    assert_eq!(shared.rendezvous(&listener, 0).domain, None);
    shared.join(0, connection(40));
    let domain = ProtectionDomain { context: 7, pd: 40 };
    assert_eq!(shared.groups[&0].pd, domain);
    // From then on readers are accepted into it.
    assert_eq!(shared.rendezvous(&listener, 0).domain, Some(domain));
    shared.join(0, connection(40));
    assert_eq!(shared.groups[&0].connections.len(), 2);
    assert_eq!(shared.rendezvous(&listener, 1).domain, None);
}

#[test]
fn a_failed_registration_keeps_no_other_from_being_served() {
    let mut provider = provider();
    provider.register_at::<u8>("a", 16, 0x1000);
    provider.register_at::<u8>("b", 0, 0x2000);
    provider.register_at::<u8>("c", 16, 0x3000);
    provider.register_at::<u8>("d", 16, 0x4000);
    let shared = &mut provider.shared;
    shared.join(5, connection(40));

    // Each region with bytes is asked for once, the failed one too.
    let mut pass = Registrations::new(5);
    let mut asked = Vec::new();
    while let Some((id, registration)) = pass.next(shared) {
        assert_eq!((registration.pd, registration.length), (40, 16));
        asked.push(id);
        let mr = if id == 2 { 0 } else { 100 + id as usize };
        let result = pass.absorb(shared, id, registration, mr, 200 + id, 300 + id);
        assert_eq!(result.is_ok(), id != 2);
        assert_eq!(pass, Registrations { group: 5, from: id + 1 });
    }
    assert_eq!(asked, vec![0, 2, 3]);
    let (_, tuples) = shared.catalog_and_tuples(5);
    let tuple = |region_id, remote_addr, rkey| TupleDesc {
        region_id,
        remote_addr,
        size: 16,
        rkey,
    };
    assert_eq!(
        tuples,
        Message::Tuples {
            group: 5,
            tuples: vec![tuple(0, 0x1000, 300), tuple(3, 0x4000, 303)]
        }
    );
    // The next pass asks for what is still missing, and for no more.
    let (id, registration) = Registrations::new(5).next(shared).unwrap();
    assert_eq!((id, registration.addr), (2, 0x3000));
    assert_eq!(Registrations { group: 5, from: 3 }.next(shared), None);
    assert_eq!(Registrations::new(6).next(shared), None);
}

#[test]
fn regions_are_cataloged_at_their_address() {
    let mut provider = provider();
    assert_eq!(provider.register_at::<u64>("words", 3, 0x7008), 0);
    assert_eq!(provider.register_at::<u16>("none", 0, 0), 1);
    assert_eq!(
        provider.shared.catalog[0],
        RegionInfo {
            name: "words".into(),
            remote_addr: 0x7008,
            size: 24,
            elem_size: 8,
            elem_align: 8,
            elem_type: "u64".into(),
        }
    );
    assert_eq!(provider.shared.catalog[1].size, 0);
    // A buffer is cataloged at its own address.
    let handle = provider.register_typed("counters", vec![1u32, 2]);
    let info = &provider.shared.catalog[2];
    assert_eq!(info.remote_addr, handle.borrow().as_ptr() as u64);
    assert_eq!((info.size, info.elem_size), (8, 4));
}
