use rdmalib::error::ErrorKind;
use rdmalib::meta::{
    decode, read_frame, read_header, write_frame, Message, RegionDesc, TupleDesc,
    PROTOCOL_VERSION,
};
use rdmalib::wire::Reader;
use rdmalib::Error;

fn round_trip(msg: Message) {
    let bytes = msg.encode();
    let back = read_frame(&mut Reader::new(&bytes)).unwrap();
    assert_eq!(back, msg);
}

/// A hand-built frame, for feeding the decoder hostile input.
fn frame(len: u32, ty: u8, payload: &[u8]) -> Vec<u8> {
    let mut buf = Vec::new();
    buf.extend_from_slice(&len.to_le_bytes());
    buf.push(ty);
    buf.extend_from_slice(payload);
    buf
}

fn read(bytes: &[u8]) -> Result<Message, Error> {
    read_frame(&mut Reader::new(bytes))
}

#[test]
fn every_message_round_trips() {
    round_trip(Message::Hello {
        version: PROTOCOL_VERSION,
    });
    round_trip(Message::Welcome { version: 1 });
    round_trip(Message::WantGroup { group: 7 });
    round_trip(Message::Update);
    round_trip(Message::Metadata {
        regions: vec![
            RegionDesc {
                id: 0,
                name: "heap".into(),
                size: 4096,
                elem_size: 1,
                elem_align: 1,
                elem_type: "u8".into(),
            },
            RegionDesc {
                id: 1,
                name: String::new(),
                size: u64::from(u32::MAX) * 3,
                elem_size: 16,
                elem_align: 8,
                elem_type: "app::Reading".into(),
            },
        ],
    });
    round_trip(Message::Tuples {
        group: 7,
        tuples: vec![TupleDesc {
            region_id: 1,
            remote_addr: 0x2000,
            size: 8192,
            rkey: 0xAB,
        }],
    });
}

#[test]
fn frame_layout_is_pinned() {
    // Hello{version: 1}: [len=3][type 1][01 00].
    assert_eq!(
        Message::Hello { version: 1 }.encode(),
        vec![3, 0, 0, 0, 1, 1, 0]
    );

    // The type codes and, for the empty composites, the minimal
    // payload sizes: the count field of Metadata, group plus count of
    // Tuples.
    let cases = [
        (Message::Hello { version: 1 }, 3u32, 1u8),
        (Message::Welcome { version: 1 }, 3, 2),
        (Message::WantGroup { group: 0 }, 5, 3),
        (Message::Update, 1, 4),
        (
            Message::Metadata {
                regions: Vec::new(),
            },
            5,
            5,
        ),
        (
            Message::Tuples {
                group: 0,
                tuples: Vec::new(),
            },
            9,
            6,
        ),
    ];
    for (msg, len, ty) in cases {
        let bytes = msg.encode();
        let got_len = u32::from_le_bytes([bytes[0], bytes[1], bytes[2], bytes[3]]);
        assert_eq!((got_len, bytes[4]), (len, ty), "{msg:?}");
    }
}

#[test]
fn truncated_streams_end_with_unexpected_eof() {
    let full = Message::Hello { version: 1 }.encode();
    for cut in 0..full.len() {
        assert_eq!(
            read(&full[..cut]).unwrap_err().kind(),
            ErrorKind::UnexpectedEof,
            "cut at {cut}"
        );
    }
    // A header promising more than the stream holds.
    assert_eq!(
        read(&frame(3, 1, &[1])).unwrap_err().kind(),
        ErrorKind::UnexpectedEof
    );
}

#[test]
fn out_of_range_frame_lengths_are_rejected() {
    for len in [0u32, (1 << 20) + 1, u32::MAX] {
        let err = read(&frame(len, 1, &[1, 0])).unwrap_err();
        assert_eq!(err.kind(), ErrorKind::InvalidData, "len {len}");
    }
    // The cap itself passes the length check; its payload then simply
    // fails to arrive.
    assert_eq!(
        read(&frame(1 << 20, 1, &[])).unwrap_err().kind(),
        ErrorKind::UnexpectedEof
    );
}

#[test]
fn unknown_message_types_are_rejected() {
    assert_eq!(
        read(&frame(1, 9, &[])).unwrap_err().kind(),
        ErrorKind::InvalidData
    );
}

#[test]
fn trailing_payload_bytes_are_rejected() {
    // Hello's payload is two bytes; a third is a violation.
    assert_eq!(
        decode(1, &[1, 0, 0]).unwrap_err().kind(),
        ErrorKind::InvalidData
    );
}

#[test]
fn bogus_lengths_fail_fast() {
    // A region count of 2^32 - 1 with no entries behind it: the first
    // entry must fail instead of anything being allocated for the
    // count.
    assert_eq!(
        read(&frame(5, 5, &u32::MAX.to_le_bytes()))
            .unwrap_err()
            .kind(),
        ErrorKind::InvalidData
    );

    // A name length reaching far past the payload.
    let mut payload = Vec::new();
    payload.extend_from_slice(&1u32.to_le_bytes()); // region count
    payload.extend_from_slice(&1u32.to_le_bytes()); // id
    payload.extend_from_slice(&0x4000_0000u32.to_le_bytes()); // name length
    assert_eq!(
        read(&frame(1 + payload.len() as u32, 5, &payload))
            .unwrap_err()
            .kind(),
        ErrorKind::InvalidData
    );

    // A name that is not UTF-8.
    let mut payload = Vec::new();
    payload.extend_from_slice(&1u32.to_le_bytes()); // region count
    payload.extend_from_slice(&1u32.to_le_bytes()); // id
    payload.extend_from_slice(&1u32.to_le_bytes()); // name length
    payload.push(0xFF);
    assert_eq!(
        read(&frame(1 + payload.len() as u32, 5, &payload))
            .unwrap_err()
            .kind(),
        ErrorKind::InvalidData
    );
}

#[test]
fn composite_frames_are_laid_out_field_by_field() {
    let catalog = Message::Metadata {
        regions: vec![RegionDesc {
            id: 0x0102_0304,
            name: "hé".into(),
            size: 0x0A0B,
            elem_size: 4,
            elem_align: 2,
            elem_type: "x".into(),
        }],
    };
    let expected: Vec<u8> = vec![
        37, 0, 0, 0, 5, // length and type
        1, 0, 0, 0, // one region
        4, 3, 2, 1, // id
        3, 0, 0, 0, b'h', 0xC3, 0xA9, // name
        0x0B, 0x0A, 0, 0, 0, 0, 0, 0, // size
        4, 0, 0, 0, // element size
        2, 0, 0, 0, // element alignment
        1, 0, 0, 0, b'x', // element type
    ];
    assert_eq!(catalog.encode(), expected);

    let tuples = Message::Tuples {
        group: 2,
        tuples: vec![TupleDesc {
            region_id: 1,
            remote_addr: 0x1122,
            size: 3,
            rkey: 0xFF,
        }],
    };
    let expected: Vec<u8> = vec![
        33, 0, 0, 0, 6, // length and type
        2, 0, 0, 0, // group
        1, 0, 0, 0, // one tuple
        1, 0, 0, 0, // region
        0x22, 0x11, 0, 0, 0, 0, 0, 0, // address
        3, 0, 0, 0, 0, 0, 0, 0, // size
        0xFF, 0, 0, 0, // rkey
    ];
    assert_eq!(tuples.encode(), expected);
}

#[test]
fn each_violation_has_its_error() {
    assert_eq!(read(&frame(1, 9, &[])), Err(Error::UnknownMessageType { ty: 9 }));
    assert_eq!(
        read(&frame(0, 1, &[])),
        Err(Error::FrameLengthOutOfRange { len: 0 })
    );
    assert_eq!(
        read_header(&[1, 0, 0x10, 0, 1]),
        Err(Error::FrameLengthOutOfRange { len: 0x10_0001 })
    );
    assert_eq!(decode(1, &[1]), Err(Error::PayloadEndsMidMessage));
    assert_eq!(decode(1, &[1, 0, 0]), Err(Error::TrailingBytes));
    assert_eq!(decode(4, &[0]), Err(Error::TrailingBytes));
    assert_eq!(read(&[]), Err(Error::StreamEnded));
    let mut payload = Vec::new();
    payload.extend_from_slice(&1u32.to_le_bytes());
    payload.extend_from_slice(&1u32.to_le_bytes());
    payload.extend_from_slice(&1u32.to_le_bytes());
    payload.push(0xFF);
    assert_eq!(decode(5, &payload), Err(Error::NotUtf8));
}

#[test]
fn frames_follow_each_other_in_a_stream() {
    let mut stream = Vec::new();
    write_frame(&mut stream, &Message::WantGroup { group: 3 });
    write_frame(&mut stream, &Message::Update);
    let mut reader = Reader::new(&stream);
    assert_eq!(read_frame(&mut reader), Ok(Message::WantGroup { group: 3 }));
    assert_eq!(read_frame(&mut reader), Ok(Message::Update));
    assert_eq!(read_frame(&mut reader), Err(Error::StreamEnded));
}

#[test]
fn a_refused_frame_leaves_the_stream_behind_it() {
    let next = Message::Update.encode();
    let left = |bytes: Vec<u8>| -> usize {
        let mut stream = Reader::new(&bytes);
        assert!(read_frame(&mut stream).is_err());
        bytes.len() - stream.pos
    };
    // No whole header: nothing was read off.
    assert_eq!(left(vec![1, 0, 0, 0]), 4);
    // A refused length: only the header was.
    let mut bytes = frame(0, 1, &[]);
    bytes.extend_from_slice(&next);
    assert_eq!(left(bytes), next.len());
    // A missing payload: what there is of it is left.
    assert_eq!(left(frame(9, 1, &[1, 0])), 2);
    // A payload that is no message: the frame was.
    let mut bytes = frame(4, 1, &[1, 0, 0]);
    bytes.extend_from_slice(&next);
    let mut stream = Reader::new(&bytes);
    assert_eq!(read_frame(&mut stream), Err(Error::TrailingBytes));
    assert_eq!(read_frame(&mut stream), Ok(Message::Update));
}

#[test]
fn taking_bytes_moves_the_cursor() {
    let bytes = [1u8, 2, 3];
    let mut reader = Reader::new(&bytes);
    assert_eq!(reader.take(2), Ok(&bytes[..2]));
    assert_eq!((reader.pos, reader.buf), (2, &bytes[..]));
    assert_eq!(reader.take(usize::MAX), Err(Error::PayloadEndsMidMessage));
    assert_eq!(reader.pos, 2);
}

#[test]
fn the_cursor_stands_where_reading_ended() {
    // Numbers: behind the number, or where it should have been.
    let bytes = [1u8, 0, 2, 0, 0, 0, 3, 0, 0, 0, 0, 0, 0, 0, 9];
    let mut reader = Reader::new(&bytes);
    assert_eq!((reader.u16(), reader.pos), (Ok(1), 2));
    assert_eq!((reader.u32(), reader.pos), (Ok(2), 6));
    assert_eq!((reader.u64(), reader.pos), (Ok(3), 14));
    assert_eq!((reader.u16(), reader.pos), (Err(Error::PayloadEndsMidMessage), 14));
    assert_eq!((reader.u32(), reader.pos), (Err(Error::PayloadEndsMidMessage), 14));
    assert_eq!((reader.u64(), reader.pos), (Err(Error::PayloadEndsMidMessage), 14));
    assert_eq!(reader.buf, &bytes[..]);

    // Strings: a whole one, a length cut short, a text cut short, a
    // text that is not UTF-8.
    let mut reader = Reader::new(&[2, 0, 0, 0, b'h', b'i', 7]);
    assert_eq!((reader.string(), reader.pos), (Ok("hi".into()), 6));
    assert_eq!((reader.string(), reader.pos), (Err(Error::PayloadEndsMidMessage), 6));
    let mut reader = Reader::new(&[2, 0, 0, 0, b'h']);
    assert_eq!((reader.string(), reader.pos), (Err(Error::PayloadEndsMidMessage), 4));
    let mut reader = Reader::new(&[1, 0, 0, 0, 0xFF, 7]);
    assert_eq!((reader.string(), reader.pos), (Err(Error::NotUtf8), 5));
}

#[test]
fn names_beyond_ascii_round_trip() {
    round_trip(Message::Metadata {
        regions: vec![RegionDesc {
            id: 3,
            name: "größe \u{1F600}".into(),
            size: 1,
            elem_size: 1,
            elem_align: 1,
            elem_type: "λ".into(),
        }],
    });
}

#[test]
fn encoding_undoes_decoding() {
    let payload = [7, 0, 0, 0, 0, 0, 0, 0];
    let msg = decode(6, &payload).unwrap();
    assert_eq!(
        msg,
        Message::Tuples {
            group: 7,
            tuples: Vec::new()
        }
    );
    assert_eq!(&msg.encode()[5..], &payload);
    assert_eq!(msg.encode()[4], 6);
}

#[test]
fn oversized_frames_are_refused_by_the_receiver() {
    let catalog = Message::Metadata {
        regions: vec![RegionDesc {
            id: 0,
            name: "n".repeat(0x10_0000),
            size: 0,
            elem_size: 1,
            elem_align: 1,
            elem_type: String::new(),
        }],
    };
    let bytes = catalog.encode();
    let len = (bytes.len() - 4) as u32;
    assert_eq!(read(&bytes), Err(Error::FrameLengthOutOfRange { len }));
}

#[test]
fn messages_are_shown_like_their_debug_rendering() {
    let messages = [
        Message::Hello { version: 1 },
        Message::Welcome { version: 65535 },
        Message::WantGroup { group: 10 },
        Message::Update,
        Message::Metadata { regions: Vec::new() },
        Message::Metadata {
            regions: vec![
                RegionDesc {
                    id: 0,
                    name: "a \"quoted\"\nname".into(),
                    size: 4096,
                    elem_size: 1,
                    elem_align: 1,
                    elem_type: "u8".into(),
                },
                RegionDesc {
                    id: 1,
                    name: "né\u{7f}".into(),
                    size: 0,
                    elem_size: 100,
                    elem_align: 4,
                    elem_type: String::new(),
                },
            ],
        },
        Message::Tuples {
            group: 7,
            tuples: vec![
                TupleDesc {
                    region_id: 1,
                    remote_addr: u64::MAX,
                    size: 8192,
                    rkey: 0xAB,
                },
                TupleDesc {
                    region_id: 2,
                    remote_addr: 0,
                    size: 1,
                    rkey: 0,
                },
            ],
        },
    ];
    for msg in messages {
        let mut shown = String::new();
        msg.show(&mut shown);
        assert_eq!(shown, format!("{msg:?}"));
    }
}
