use rdmalib::error::{Access, Error, ErrorKind};
use rdmalib::rdma::calls::{check, check_ptr, conn_param, resolve_v4};
use rdmalib::rdma::setup::Role;
use rdmalib::rdma::{
    Binding, Call, Connection, EventReply, Listener, MemoryRegion, Poll, Progress,
    ProtectionDomain, Registration, Release, Reply, Setup, SocketAddr, SocketAddrV4, Step,
};

const ADDR: SocketAddrV4 = SocketAddrV4 {
    ip: [10, 0, 0, 1],
    port: 18515,
};

fn event(event: i32) -> EventReply {
    EventReply {
        ret: 0,
        id: 77,
        event,
        status: 0,
        ack: 0,
        expected_name: "EXPECTED".into(),
        got_name: "GOT".into(),
    }
}

fn established() -> Connection {
    Connection {
        id: 1,
        cq: 2,
        pd: Some(ProtectionDomain { context: 7, pd: 40 }),
        event_channel: 3,
        next_wr_id: 0,
    }
}

fn registered(pd: usize, size: usize) -> MemoryRegion {
    MemoryRegion {
        mr: 9,
        pd,
        addr: 0x4000,
        size,
        lkey: 5,
        rkey: 6,
    }
}

/// Run `setup`, answering each call as a device without trouble would.
fn run(setup: &mut Setup) -> Vec<Call> {
    let mut calls = Vec::new();
    while let Some(call) = setup.next() {
        let reply = match call {
            Call::CreateEventChannel => Reply::Object(3),
            Call::CreateId { .. } => Reply::Id { ret: 0, id: 1 },
            Call::GetEvent { expected, .. } => Reply::Event(event(expected)),
            Call::DeviceOf { .. } => Reply::Object(7),
            Call::AllocDomain { .. } => Reply::Object(40),
            Call::CreateQueue { .. } => Reply::Object(2),
            _ => Reply::Code(0),
        };
        setup.absorb(reply).unwrap();
        calls.push(call);
    }
    calls
}

#[test]
fn the_first_resolved_address_counts() {
    assert_eq!(resolve_v4(&[]), Err(Error::UnresolvedAddress));
    assert_eq!(resolve_v4(&[SocketAddr::V4(ADDR), SocketAddr::V6]), Ok(ADDR));
    let err = resolve_v4(&[SocketAddr::V6, SocketAddr::V4(ADDR)]).unwrap_err();
    assert_eq!(err, Error::Ipv6Address);
    assert_eq!(err.kind(), ErrorKind::Unsupported);
    assert_eq!(err.message(), "IPv6 addresses are not supported yet");
    let err = Listener::bind(&[]).unwrap_err();
    assert_eq!(err.kind(), ErrorKind::InvalidInput);
    assert_eq!(err.message(), "the address did not resolve to a socket address");
}

#[test]
fn failed_calls_are_named() {
    assert_eq!(check("a_call", 0), Ok(()));
    let err = check("a_call", 2).unwrap_err();
    assert_eq!(err.kind(), ErrorKind::Other);
    assert_eq!(
        err.message(),
        format!("a_call failed: {}", std::io::Error::from_raw_os_error(2))
    );
    assert!(matches!(
        check("a_call", 2),
        Err(Error::CallFailed {
            call: "a_call",
            code: Some(2),
            ..
        })
    ));
    assert_ne!(check("a_call", 13).unwrap_err().message(), err.message().as_str());
    assert_eq!(check_ptr("b_call", 5), Ok(5));
    assert!(matches!(
        check_ptr("b_call", 0),
        Err(Error::CallFailed { code: None, .. })
    ));
    let text = check_ptr("b_call", 0).unwrap_err().message();
    assert!(text.starts_with("b_call failed: "), "{text}");
    assert!(text.len() > "b_call failed: ".len(), "{text}");
}

#[test]
fn connecting_makes_each_call_in_order() {
    let mut setup = Connection::connect(&[SocketAddr::V4(ADDR)]).unwrap();
    let dst = match setup.role {
        Role::Connect { dst } => dst,
        Role::Accept => panic!("connecting"),
    };
    assert_eq!(dst.sin_family, 2);
    assert_eq!(dst.sin_port, 18515u16.to_be_bytes());
    assert_eq!(dst.sin_addr, [10, 0, 0, 1]);
    assert_eq!(dst.sin_zero, [0; 8]);

    let calls = run(&mut setup);
    assert_eq!(calls[0], Call::CreateEventChannel);
    assert_eq!(
        calls[1],
        Call::CreateId {
            channel: 3,
            port_space: 0x0106
        }
    );
    assert_eq!(
        calls[2],
        Call::ResolveAddr {
            id: 1,
            dst,
            timeout_ms: 2000
        }
    );
    assert_eq!(calls[3], Call::GetEvent { channel: 3, expected: 0 });
    assert_eq!(
        calls[4],
        Call::ResolveRoute {
            id: 1,
            timeout_ms: 2000
        }
    );
    assert_eq!(calls[5], Call::GetEvent { channel: 3, expected: 2 });
    assert_eq!(calls[6], Call::DeviceOf { id: 1 });
    assert_eq!(calls[7], Call::AllocDomain { context: 7 });
    assert_eq!(calls[8], Call::CreateQueue { context: 7, size: 16 });
    match calls[9] {
        Call::CreateQueuePair { id, pd, attr } => {
            assert_eq!((id, pd), (1, 40));
            assert_eq!((attr.send_cq, attr.recv_cq), (2, 2));
            assert_eq!((attr.max_send_wr, attr.max_recv_wr), (16, 16));
            assert_eq!((attr.max_send_sge, attr.max_recv_sge), (1, 1));
            assert_eq!((attr.max_inline_data, attr.qp_type, attr.sq_sig_all), (0, 2, 1));
        }
        other => panic!("{other:?}"),
    }
    assert_eq!(
        calls[10],
        Call::Connect {
            id: 1,
            param: conn_param()
        }
    );
    assert_eq!(calls[11], Call::GetEvent { channel: 3, expected: 9 });
    assert_eq!(calls.len(), 12);
    assert_eq!(setup.into_connection(), established());
    let param = conn_param();
    assert_eq!((param.responder_resources, param.initiator_depth), (3, 3));
    assert_eq!((param.retry_count, param.rnr_retry_count), (7, 0));
}

#[test]
fn accepting_brings_a_domain_or_shares_one() {
    let listener = Listener {
        id: 11,
        event_channel: 12,
    };
    let mut setup = listener.accept();
    let calls = run(&mut setup);
    assert_eq!(calls[0], Call::GetEvent { channel: 12, expected: 4 });
    assert_eq!(calls[1], Call::DeviceOf { id: 77 });
    assert_eq!(calls[2], Call::AllocDomain { context: 7 });
    assert_eq!(
        calls[5],
        Call::Accept {
            id: 77,
            param: conn_param()
        }
    );
    assert_eq!(calls[6], Call::GetEvent { channel: 12, expected: 9 });
    assert_eq!(calls.len(), 7);
    let connection = setup.into_connection();
    // The listener's channel is not the connection's to destroy.
    assert_eq!((connection.id, connection.event_channel), (77, 0));
    assert_eq!(connection.pd, Some(ProtectionDomain { context: 7, pd: 40 }));

    let shared = ProtectionDomain { context: 7, pd: 41 };
    let mut setup = listener.accept_into(&shared);
    let calls = run(&mut setup);
    assert_eq!(calls.len(), 6);
    assert_eq!(setup.into_connection().protection_domain(), shared);
}

#[test]
fn a_domain_of_another_device_is_refused() {
    let listener = Listener {
        id: 11,
        event_channel: 12,
    };
    let mut setup = listener.accept_into(&ProtectionDomain { context: 8, pd: 41 });
    setup.absorb(Reply::Event(event(4))).unwrap();
    let err = setup.absorb(Reply::Object(7)).unwrap_err();
    assert_eq!(err, Error::OtherDevice);
    assert_eq!(
        err.message(),
        "rdma accept_into: the connection arrived on a different device than the protection domain"
    );
    // The rejected connection is released.
    assert_eq!(
        setup.into_connection().release(0),
        vec![Release::DestroyId { id: 77 }]
    );
}

#[test]
fn unexpected_events_end_a_setup() {
    let listener = Listener {
        id: 11,
        event_channel: 12,
    };
    let mut wrong = event(9);
    wrong.status = -3;
    let err = listener.accept().absorb(Reply::Event(wrong)).unwrap_err();
    assert_eq!(
        err,
        Error::NotAConnectionRequest {
            got: "GOT".into(),
            status: -3
        }
    );
    assert_eq!(
        err.message(),
        "expected a connection request, got GOT (status -3)"
    );

    let at = |step: Step| {
        let mut setup = Connection::connect(&[SocketAddr::V4(ADDR)]).unwrap();
        setup.absorb(Reply::Object(3)).unwrap();
        setup.absorb(Reply::Id { ret: 0, id: 1 }).unwrap();
        setup.absorb(Reply::Code(0)).unwrap();
        assert_eq!(setup.step, step);
        setup
    };
    let err = at(Step::AwaitAddr).absorb(Reply::Event(event(1))).unwrap_err();
    assert_eq!(
        err,
        Error::UnexpectedEvent {
            step: "rdma_resolve_addr",
            expected: "EXPECTED".into(),
            got: "GOT".into(),
            status: 0
        }
    );
    assert_eq!(
        err.message(),
        "rdma_resolve_addr: expected EXPECTED, got GOT (status 0)"
    );
    // The right event with a failed status, a failed wait, and a failed
    // acknowledgement.
    let mut failed = event(0);
    failed.status = 5;
    let err = at(Step::AwaitAddr).absorb(Reply::Event(failed)).unwrap_err();
    assert_eq!(
        err.message(),
        "rdma_resolve_addr: expected EXPECTED, got GOT (status 5)"
    );
    let mut lost = event(0);
    lost.ret = 1;
    let text = at(Step::AwaitAddr).absorb(Reply::Event(lost)).unwrap_err().message();
    assert!(text.starts_with("rdma_resolve_addr failed: "), "{text}");
    let mut unacked = event(0);
    unacked.ack = 1;
    let text = at(Step::AwaitAddr).absorb(Reply::Event(unacked)).unwrap_err().message();
    assert!(text.starts_with("rdma_ack_cm_event failed: "), "{text}");
}

#[test]
fn every_failing_call_is_named_and_leaves_what_to_release() {
    let names = [
        "rdma_create_event_channel",
        "rdma_create_id",
        "rdma_resolve_addr",
        "rdma_resolve_addr",
        "rdma_resolve_route",
        "rdma_resolve_route",
        "",
        "ibv_alloc_pd",
        "ibv_create_cq",
        "rdma_create_qp",
        "rdma_connect",
        "rdma_connect",
    ];
    for (failing, name) in names.iter().enumerate() {
        if name.is_empty() {
            continue;
        }
        let mut setup = Connection::connect(&[SocketAddr::V4(ADDR)]).unwrap();
        let mut index = 0;
        while let Some(call) = setup.next() {
            let fails = index == failing;
            let code = if fails { 1 } else { 0 };
            let object = |handle| if fails { 0 } else { handle };
            let reply = match call {
                Call::CreateEventChannel => Reply::Object(object(3)),
                Call::CreateId { .. } => Reply::Id {
                    ret: code,
                    id: object(1),
                },
                Call::GetEvent { expected, .. } => {
                    let mut got = event(expected);
                    got.ret = code;
                    Reply::Event(got)
                }
                Call::DeviceOf { .. } => Reply::Object(7),
                Call::AllocDomain { .. } => Reply::Object(object(40)),
                Call::CreateQueue { .. } => Reply::Object(object(2)),
                _ => Reply::Code(code),
            };
            match setup.absorb(reply) {
                Ok(()) => index += 1,
                Err(e) => {
                    assert!(e.message().starts_with(&format!("{name} failed: ")));
                    break;
                }
            }
        }
        assert_eq!(index, failing);
        let qp = if failing > 9 { 5 } else { 0 };
        let mut expected = Vec::new();
        if failing > 9 {
            expected.push(Release::Disconnect { id: 1 });
            expected.push(Release::DestroyQueuePair { id: 1 });
        }
        if failing > 1 {
            expected.push(Release::DestroyId { id: 1 });
        }
        if failing > 8 {
            expected.push(Release::DestroyQueue { cq: 2 });
        }
        if failing > 0 {
            expected.push(Release::DestroyEventChannel { channel: 3 });
        }
        assert_eq!(setup.into_connection().release(qp), expected);
    }
}

#[test]
fn listeners_are_bound_call_by_call() {
    let bind = |replies: Vec<Reply>| -> (Binding, Vec<Call>, Option<Error>) {
        let mut binding = Listener::bind(&[SocketAddr::V4(ADDR)]).unwrap();
        let mut calls = Vec::new();
        for reply in replies {
            calls.push(binding.next().unwrap());
            if let Err(e) = binding.absorb(reply) {
                return (binding, calls, Some(e));
            }
        }
        (binding, calls, None)
    };
    let (binding, calls, error) = bind(vec![
        Reply::Object(3),
        Reply::Id { ret: 0, id: 1 },
        Reply::Code(0),
        Reply::Code(0),
    ]);
    assert_eq!(error, None);
    assert_eq!(binding.next(), None);
    assert_eq!(calls[2], Call::BindAddr { id: 1, addr: binding.addr });
    assert_eq!(calls[3], Call::Listen { id: 1, backlog: 16 });
    let listener = binding.into_listener();
    assert_eq!((listener.id, listener.event_channel), (1, 3));
    let both = vec![
        Release::DestroyId { id: 1 },
        Release::DestroyEventChannel { channel: 3 },
    ];
    assert_eq!(listener.release(), both);

    for (replies, name, releases) in [
        (vec![Reply::Object(0)], "rdma_create_event_channel", Vec::new()),
        (
            vec![Reply::Object(3), Reply::Id { ret: 1, id: 0 }],
            "rdma_create_id",
            Vec::new(),
        ),
        (
            vec![Reply::Object(3), Reply::Id { ret: 0, id: 1 }, Reply::Code(1)],
            "rdma_bind_addr",
            both.clone(),
        ),
        (
            vec![
                Reply::Object(3),
                Reply::Id { ret: 0, id: 1 },
                Reply::Code(0),
                Reply::Code(1),
            ],
            "rdma_listen",
            both.clone(),
        ),
    ] {
        let (binding, _, error) = bind(replies);
        let text = error.unwrap().message();
        assert!(text.starts_with(&format!("{name} failed: ")), "{text}");
        assert_eq!(binding.release(), releases);
    }
}

#[test]
fn registrations_are_open_to_remote_access() {
    let pd = ProtectionDomain { context: 7, pd: 40 };
    assert_eq!(pd.register_addr(0x4000, 0), Err(Error::EmptyRegistration));
    let registration = Registration {
        pd: 40,
        addr: 0x4000,
        length: 64,
        access: 15,
    };
    assert_eq!(pd.register_addr(0x4000, 64), Ok(registration));
    assert_eq!(established().register_addr(0x4000, 64), Ok(registration));
    let buffer = vec![0u8; 12];
    let of_buffer = pd.register(&buffer).unwrap();
    assert_eq!((of_buffer.addr, of_buffer.length), (buffer.as_ptr() as u64, 12));
    assert_eq!(established().register(&buffer), Ok(of_buffer));
    assert_eq!(pd.register(&[]), Err(Error::EmptyRegistration));

    let region = registration.complete(9, 5, 6).unwrap();
    assert_eq!(region, registered(40, 64));
    assert_eq!((region.addr(), region.size()), (0x4000, 64));
    assert_eq!((region.lkey(), region.rkey()), (5, 6));
    assert_eq!(region.tuple(), (0x4000, 64, 6));
    assert_eq!(region.release(), Release::Deregister { mr: 9 });
    assert_eq!(pd.release(), Release::DeallocDomain { pd: 40 });
    assert!(registration.complete(0, 5, 6).is_err());
}

#[test]
fn accesses_become_work_requests() {
    let mut connection = established();
    let mr = registered(40, 64);
    let read = connection.read(&mr, 0x9000, 77, 64).unwrap();
    assert_eq!(read.access, Access::Read);
    assert_eq!(
        (read.request.wr_id, read.request.opcode, read.request.send_flags),
        (0, 4, 2)
    );
    assert_eq!(
        (read.request.local_addr, read.request.length, read.request.lkey),
        (0x4000, 64, 5)
    );
    assert_eq!((read.request.remote_addr, read.request.rkey), (0x9000, 77));
    let write = connection.write(&mr, 0x9000, 77, 1).unwrap();
    assert_eq!((write.request.wr_id, write.request.opcode), (1, 0));
    assert_eq!(write.request.length, 1);
    assert_eq!(connection.next_wr_id, 2);
}

#[test]
fn unsound_accesses_are_refused() {
    let mut connection = established();
    let mr = registered(40, 64);
    let err = connection.read(&mr, 0, 0, 0).unwrap_err();
    assert_eq!(err.message(), "cannot read zero bytes");
    let err = connection.write(&mr, 0, 0, 0).unwrap_err();
    assert_eq!(err.message(), "cannot write zero bytes");
    let err = connection.read(&mr, 0, 0, 65).unwrap_err();
    assert_eq!(
        err.message(),
        "read of 65 bytes exceeds the registered region of 64 bytes"
    );
    let err = connection.read(&registered(41, 64), 0, 0, 1).unwrap_err();
    assert_eq!(err, Error::OtherDomain);
    assert_eq!(err.kind(), ErrorKind::InvalidInput);
    assert_eq!(
        err.message(),
        "the memory region is registered in another protection domain"
    );
    // No work request id was spent.
    assert_eq!(connection.next_wr_id, 0);
}

#[test]
fn completions_are_matched_and_stale_ones_skipped() {
    let mut connection = established();
    let mr = registered(40, 64);
    let early = connection.read(&mr, 0, 0, 1).unwrap();
    let late = connection.read(&mr, 0, 0, 1).unwrap();
    let poll = |ret, wr_id, status| Poll {
        ret,
        wr_id,
        status,
        vendor_err: 129,
    };
    let status = || String::from("remote access error");

    assert_eq!(early.posted(0), Ok(()));
    let text = early.posted(12).unwrap_err().message();
    assert!(text.starts_with("ibv_post_send failed: "), "{text}");

    // Nothing yet, and a completion of the other request.
    assert_eq!(late.polled(poll(0, 1, 0), false, status()), Ok(Progress::Again));
    assert_eq!(late.polled(poll(1, 0, 0), false, status()), Ok(Progress::Again));
    assert_eq!(late.polled(poll(1, 0, 10), false, status()), Ok(Progress::Again));
    assert_eq!(late.polled(poll(1, 1, 0), false, status()), Ok(Progress::Done));
    // The completion counts even if it comes late.
    assert_eq!(late.polled(poll(1, 1, 0), true, status()), Ok(Progress::Done));
    let err = late.polled(poll(1, 1, 10), false, status()).unwrap_err();
    assert_eq!(
        err.message(),
        "RDMA read failed: remote access error (vendor error 129)"
    );
    let err = late.polled(poll(1, 0, 0), true, status()).unwrap_err();
    assert_eq!(err.kind(), ErrorKind::TimedOut);
    assert_eq!(
        err.message(),
        "timed out waiting for the RDMA read completion"
    );
    let text = late.polled(poll(-5, 1, 0), false, status()).unwrap_err().message();
    assert!(text.starts_with("ibv_poll_cq failed: "), "{text}");
}
