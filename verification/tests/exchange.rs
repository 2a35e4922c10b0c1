//! The two sides together: a provider's session with a reader, message
//! by message through the wire, and the accesses behind it on memory
//! that stands for the remote machine's.

use rdmalib::error::{Access, Error, Expected};
use rdmalib::meta::{read_frame, write_frame, Message};
use rdmalib::rdma::verbs::Connection;
use rdmalib::rdma::{ProtectionDomain, Transfer};
use rdmalib::readers::{Update, UpdateCall, UpdateReply};
use rdmalib::regions::AccessPlan;
use rdmalib::sessions::{Session, SessionCall, SessionReply, SessionStep};
use rdmalib::shared::{Registrations, Shared};
use rdmalib::wire::Reader;
use rdmalib::{
    RemoteMemoryProvider, RemoteMemoryProviderAddr, SharedMemoryRegionMetadata,
    SharedMemoryRegionProvider, SharedMemoryRegionProviderAddr,
};

fn connection(pd: usize) -> Connection {
    Connection {
        id: 1,
        cq: 2,
        pd: Some(ProtectionDomain { context: 7, pd }),
        event_channel: 0,
        next_wr_id: 0,
    }
}

/// A message through the wire.
fn over_the_wire(message: &Message) -> Message {
    let mut stream = Vec::new();
    write_frame(&mut stream, message);
    read_frame(&mut Reader::new(&stream)).unwrap()
}

/// Create the tuples of `group`, as a device would.
fn create_tuples(shared: &mut Shared, group: u32) {
    let mut pass = Registrations::new(group);
    while let Some((id, registration)) = pass.next(shared) {
        pass.absorb(shared, id, registration, 100 + id as usize, 200 + id, 300 + id)
            .unwrap();
    }
}

/// Run the provider's side until it waits for a message, collecting
/// what it sends.
fn serve(session: &mut Session, shared: &mut Shared, sent: &mut Vec<Message>) {
    loop {
        let reply = match session.next() {
            None | Some(SessionCall::Receive) => return,
            Some(SessionCall::Send { message }) => {
                sent.push(message);
                SessionReply::Sent
            }
            Some(SessionCall::Accept { .. }) => SessionReply::Accepted {
                connection: connection(40),
            },
            Some(SessionCall::Serve { group }) => {
                create_tuples(shared, group);
                let (catalog, tuples) = shared.catalog_and_tuples(group);
                sent.push(catalog);
                sent.push(tuples);
                SessionReply::Sent
            }
        };
        session.advance(shared, reply).unwrap();
    }
}

/// Run an update of the reader against the provider's session.
fn exchange(
    reader: &mut RemoteMemoryProvider,
    update: &mut Update,
    session: &mut Session,
    shared: &mut Shared,
) {
    let mut arrived: Vec<Message> = Vec::new();
    while let Some(call) = reader.next(update) {
        let reply = match call {
            UpdateCall::OpenChannel { .. } => UpdateReply::Opened,
            UpdateCall::Send { message } => {
                let message = over_the_wire(&message);
                session
                    .advance(shared, SessionReply::Received { message })
                    .unwrap();
                serve(session, shared, &mut arrived);
                UpdateReply::Sent
            }
            UpdateCall::Receive => UpdateReply::Received {
                message: over_the_wire(&arrived.remove(0)),
            },
            UpdateCall::ConnectRdma { .. } => UpdateReply::Connected {
                connection: connection(50),
            },
        };
        reader.advance(update, reply).unwrap();
    }
    assert!(arrived.is_empty());
}

#[test]
fn a_reader_sees_what_a_provider_shares() {
    let mut owner = SharedMemoryRegionProvider::new(SharedMemoryRegionProviderAddr::new(
        18515, 9917,
    ));
    let handle = owner.register_typed("readings", vec![42u64, 43, 44]);
    let mut reader = RemoteMemoryProvider::new(RemoteMemoryProviderAddr::new(
        "localhost", 18515, 9917,
    ));
    let mut session = Session::new();
    let mut update = reader.update(0);
    exchange(&mut reader, &mut update, &mut session, &mut owner.shared);
    assert_eq!(session.step, SessionStep::AwaitUpdate { group: 0 });

    let catalog = reader.get_remote_mr_metadata();
    assert_eq!(catalog.len(), 1);
    assert_eq!((catalog[0].name.as_str(), catalog[0].id), ("readings", handle.id()));
    assert_eq!(
        (catalog[0].elem_size, catalog[0].elem_align, catalog[0].elem_type.as_str()),
        (8, 8, "u64")
    );
    let region = reader.get_remote_mr(&catalog[0], Some(0)).unwrap();
    assert_eq!(region.remote_addr, handle.borrow().as_ptr() as u64);
    assert_eq!((region.size, region.rkey), (24, 300));
    let (buffer, plan) = region.read_typed::<u64>(&reader, 0, 3).unwrap();
    assert_eq!(buffer.len(), 3);
    assert_eq!((plan.remote_addr, plan.len), (region.remote_addr, 24));
    assert!(region.read_typed::<u32>(&reader, 0, 2).is_err());

    // A region registered after the session started is picked up by
    // the next update, over the open channel.
    let late = owner.register_typed("counters", vec![7u32, 8]);
    let mut update = reader.update(0);
    assert!(!update.fresh);
    exchange(&mut reader, &mut update, &mut session, &mut owner.shared);
    let catalog = reader.get_remote_mr_metadata();
    assert_eq!(catalog.len(), 2);
    let late_meta = catalog.iter().find(|m| m.id == late.id()).unwrap();
    let late_region = reader.get_remote_mr(late_meta, Some(0)).unwrap();
    assert_eq!(late_region.remote_addr, late.borrow().as_ptr() as u64);
    assert!(late_region.read_typed::<u32>(&reader, 4, 1).is_ok());
    // The first region's tuple is the same as before.
    assert_eq!(reader.get_remote_mr(&catalog[0], Some(0)).unwrap(), region);
}

#[test]
fn sessions_refuse_what_does_not_fit() {
    let mut shared = Shared::new();
    for (message, error, text) in [
        (
            Message::Hello { version: 2 },
            Error::ReaderVersion { version: 2 },
            "the reader speaks protocol version 2, not 1",
        ),
        (
            Message::WantGroup { group: 1 },
            Error::UnexpectedMessage {
                expected: Expected::Greeting,
                got: Message::WantGroup { group: 1 },
            },
            "expected a greeting, got WantGroup { group: 1 }",
        ),
    ] {
        let mut session = Session::new();
        let err = session
            .advance(&mut shared, SessionReply::Received { message })
            .unwrap_err();
        assert_eq!(err, error);
        assert_eq!(err.message(), text);
        assert_eq!(session.next(), None);
    }
    let mut session = Session {
        step: SessionStep::AwaitGroup,
    };
    let message = Message::Hello { version: 1 };
    let err = session
        .advance(&mut shared, SessionReply::Received { message })
        .unwrap_err();
    assert_eq!(err.message(), "expected a group join, got Hello { version: 1 }");

    // An open session ends quietly at anything but a re-request.
    let mut session = Session {
        step: SessionStep::AwaitUpdate { group: 3 },
    };
    let message = Message::Update;
    session
        .advance(&mut shared, SessionReply::Received { message })
        .unwrap();
    assert_eq!(session.next(), Some(SessionCall::Serve { group: 3 }));
    session.advance(&mut shared, SessionReply::Sent).unwrap();
    let message = Message::Hello { version: 1 };
    session
        .advance(&mut shared, SessionReply::Received { message })
        .unwrap();
    assert_eq!(session.step, SessionStep::Ended);
}

#[test]
fn sessions_go_through_their_steps() {
    let mut shared = Shared::new();
    let mut session = Session::new();
    assert_eq!(session.next(), Some(SessionCall::Receive));
    let message = Message::Hello { version: 1 };
    session
        .advance(&mut shared, SessionReply::Received { message })
        .unwrap();
    assert_eq!(
        session.next(),
        Some(SessionCall::Send {
            message: Message::Welcome { version: 1 }
        })
    );
    session.advance(&mut shared, SessionReply::Sent).unwrap();
    assert_eq!(session.next(), Some(SessionCall::Receive));
    let message = Message::WantGroup { group: 6 };
    session
        .advance(&mut shared, SessionReply::Received { message })
        .unwrap();
    assert_eq!(session.next(), Some(SessionCall::Accept { group: 6 }));
    let connection = connection(40);
    session
        .advance(&mut shared, SessionReply::Accepted { connection })
        .unwrap();
    assert_eq!(shared.groups[&6].connections.len(), 1);
    assert_eq!(session.next(), Some(SessionCall::Serve { group: 6 }));
    session.advance(&mut shared, SessionReply::Sent).unwrap();
    assert_eq!(session.next(), Some(SessionCall::Receive));
}

/// Carry a plan for group 2 out between two memories, each a run of
/// bytes from an address on: the local buffer, and the remote region.
fn carry_out(
    reader: &mut RemoteMemoryProvider,
    plan: &AccessPlan,
    local: &mut [u8],
    remote: (u64, &mut [u8]),
) {
    let mr = plan.registration.complete(9, 5, 6).unwrap();
    let slot = &mut reader.sessions.get_mut(&2).unwrap().connection;
    let connection = slot.get_mut().unwrap();
    let transfer: Transfer = match plan.access {
        Access::Read => connection.read(&mr, plan.remote_addr, plan.rkey, plan.len),
        Access::Write => connection.write(&mr, plan.remote_addr, plan.rkey, plan.len),
    }
    .unwrap();
    let at = (transfer.request.remote_addr - remote.0) as usize;
    let len = transfer.request.length as usize;
    match transfer.access {
        Access::Read => local[..len].copy_from_slice(&remote.1[at..at + len]),
        Access::Write => remote.1[at..at + len].copy_from_slice(&local[..len]),
    }
}

#[test]
fn reads_give_back_what_was_written() {
    let mut owner =
        SharedMemoryRegionProvider::new(SharedMemoryRegionProviderAddr::new(18515, 9917));
    let mut handle = owner.register(SharedMemoryRegionMetadata::new(
        "raw",
        (0..64u8).collect::<Vec<u8>>(),
    ));
    let mut reader = RemoteMemoryProvider::new(RemoteMemoryProviderAddr::default());
    let mut update = reader.update(2);
    exchange(
        &mut reader,
        &mut update,
        &mut Session::new(),
        &mut owner.shared,
    );
    let known = reader.get_remote_mr_metadata();
    let region = reader.get_remote_mr(&known[0], None).unwrap();
    let base = region.remote_addr;
    assert_eq!(reader.slot(2).get().unwrap().next_wr_id, 0);

    let (mut buffer, plan) = region.read(&reader, 16, 8).unwrap();
    carry_out(&mut reader, &plan, &mut buffer, (base, handle.borrow_mut()));
    assert_eq!(buffer, (16..24u8).collect::<Vec<u8>>());

    let mut data = [201u8, 202, 203];
    let plan = region.write(&reader, 5, &data).unwrap();
    carry_out(&mut reader, &plan, &mut data, (base, handle.borrow_mut()));
    assert_eq!(handle.borrow()[4..9], [4, 201, 202, 203, 8]);

    let mut back = [0u8; 5];
    let plan = region.read_into(&reader, 5, 3, &mut back).unwrap();
    carry_out(&mut reader, &plan, &mut back, (base, handle.borrow_mut()));
    assert_eq!(back, [201, 202, 203, 0, 0]);
    assert_eq!(reader.slot(2).get().unwrap().next_wr_id, 3);
}
