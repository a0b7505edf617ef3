use wclip::bytes::{order_of_one, push_word, read_word, ByteOrder};
use wclip::connection::{
    endpoint, harvest, rights_payload, Connection, ControlRecord, DisplayEnv, Endpoint, Packet,
    Received, RightsTag, Sent, Transmission,
};
use wclip::error::{Error, Kind};
use wclip::wire::{ArgReader, Msg, DISPLAY_ID};

const TAG: RightsTag = RightsTag { level: 1, kind: 1 };

fn data(bytes: &[u8]) -> Received {
    Received::Data {
        bytes: bytes.to_vec(),
        records: Vec::new(),
    }
}

#[test]
fn words_are_spelled_in_either_order() {
    let mut out = Vec::new();
    push_word(ByteOrder::Little, &mut out, 0x0102_0304);
    push_word(ByteOrder::Big, &mut out, 0x0102_0304);
    assert_eq!(out, [4, 3, 2, 1, 1, 2, 3, 4]);
    assert_eq!(read_word(ByteOrder::Little, &out, 0), 0x0102_0304);
    assert_eq!(read_word(ByteOrder::Big, &out, 4), 0x0102_0304);
    assert_eq!(read_word(ByteOrder::Little, &out, 4), 0x0403_0201);
}

#[test]
fn the_native_order_is_the_one_of_the_machine() {
    for v in [0u32, 1, 0xff, 0x1234_5678, u32::MAX] {
        let mut out = Vec::new();
        push_word(ByteOrder::native(), &mut out, v);
        assert_eq!(out, v.to_ne_bytes());
        assert_eq!(read_word(ByteOrder::native(), &out, 0), v);
    }
    assert_eq!(order_of_one([1, 0, 0, 0]), ByteOrder::Little);
    assert_eq!(order_of_one([0, 0, 0, 1]), ByteOrder::Big);
    assert_eq!(Connection::new().order(), ByteOrder::native());
}

#[test]
fn requests_are_framed() {
    let mut conn = Connection::in_order(ByteOrder::Big);
    let msg = Msg::in_order(ByteOrder::Big, 3, 7)
        .uint(1)
        .string("abc")
        .string("")
        .object(0)
        .new_id(9)
        .fd(5)
        .fd(6);
    conn.send(msg).unwrap();
    let packet = conn.take_packet().unwrap();
    assert_eq!(
        packet.bytes,
        [
            0, 0, 0, 3, // sender
            0, 36, 0, 7, // size and opcode
            0, 0, 0, 1, // uint
            0, 0, 0, 4, b'a', b'b', b'c', 0, // string
            0, 0, 0, 1, 0, 0, 0, 0, // empty string
            0, 0, 0, 0, // null object
            0, 0, 0, 9, // new id
        ]
    );
    assert_eq!(packet.fds, [5, 6]);
    assert!(conn.take_packet().is_none());
}

#[test]
fn strings_are_padded() {
    for s in ["", "a", "ab", "abc", "abcd", "\u{e9}", "a\0b"] {
        let mut conn = Connection::new();
        conn.send(Msg::new(2, 0).string(s)).unwrap();
        let packet = conn.take_packet().unwrap();
        assert_eq!(packet.bytes.len(), 8 + 4 + (s.len() + 1).div_ceil(4) * 4);
        let mut r = ArgReader::new(&packet.bytes[8..]);
        assert!(r.has_string());
        assert_eq!(r.string().as_deref(), Some(s));
        assert!(!r.has_uint());
    }
}

#[test]
fn arguments_are_read_back() {
    let (order, _, _, body, _) = Msg::in_order(ByteOrder::Little, 1, 1)
        .uint(u32::MAX)
        .string("text/plain")
        .new_id(0xff00_0001)
        .into_parts();
    let mut r = ArgReader::in_order(order, &body);
    assert!(r.has_uint());
    assert_eq!(r.uint(), u32::MAX);
    assert_eq!(r.string().unwrap(), "text/plain");
    assert_eq!(r.object(), 0xff00_0001);
    assert!(!r.has_uint());
    assert!(!r.has_string());
}

#[test]
fn the_null_string_is_none() {
    let mut r = ArgReader::in_order(ByteOrder::Big, &[0, 0, 0, 0, 0, 0, 0, 8]);
    assert_eq!(r.string(), None);
    assert_eq!(r.new_id(), 8);
}

#[test]
fn invalid_text_is_repaired() {
    let mut r = ArgReader::in_order(ByteOrder::Big, &[0, 0, 0, 4, b'a', 0xff, b'b', 0]);
    assert_eq!(r.string().unwrap(), "a\u{fffd}b");
}

#[test]
fn a_string_may_lack_its_terminator_but_no_text() {
    // The text is all there; the terminator and the padding are cut off.
    let mut r = ArgReader::in_order(ByteOrder::Big, &[0, 0, 0, 3, b'a', b'b']);
    assert!(r.has_string());
    assert_eq!(r.string().unwrap(), "ab");
    assert!(!r.has_uint());
    let r = ArgReader::in_order(ByteOrder::Big, &[0, 0, 0, 4, b'a', b'b']);
    assert!(!r.has_string());
    let r = ArgReader::in_order(ByteOrder::Big, &[0xff, 0xff, 0xff, 0xff, b'a']);
    assert!(!r.has_string());
    let r = ArgReader::in_order(ByteOrder::Big, &[0, 0, 0]);
    assert!(!r.has_string() && !r.has_uint());
}

#[test]
fn ids_start_behind_the_display() {
    let mut conn = Connection::new();
    assert_eq!(DISPLAY_ID, 1);
    assert_eq!(conn.alloc_id(), 2);
    assert_eq!(conn.alloc_id(), 3);
}

#[test]
fn a_message_that_is_too_large_is_not_queued() {
    let mut conn = Connection::new();
    // 8 + 4 + 65520 bytes, the largest message of whole words.
    let fits = "x".repeat(65519);
    let over = "x".repeat(65520);
    assert!(matches!(
        conn.send(Msg::new(2, 0).string(&over)),
        Err(Error::TooLarge)
    ));
    assert!(conn.take_packet().is_none());
    conn.send(Msg::new(2, 0).string(&fits)).unwrap();
    assert_eq!(conn.take_packet().unwrap().bytes.len(), 65532);
}

#[test]
fn events_are_cut_from_any_pieces() {
    let mut peer = Connection::new();
    peer.send(Msg::new(2, 3).uint(4)).unwrap();
    peer.send(Msg::new(5, 6)).unwrap();
    peer.send(Msg::new(7, 8).string("x")).unwrap();
    let mut stream = Vec::new();
    while let Some(packet) = peer.take_packet() {
        stream.extend(packet.bytes);
    }
    for size in 1..=stream.len() {
        let mut conn = Connection::new();
        let mut seen = Vec::new();
        for piece in stream.chunks(size) {
            conn.recv(TAG, data(piece)).unwrap();
            while let Some(m) = conn.next_message().unwrap() {
                seen.push((m.sender, m.opcode, m.args.len()));
            }
        }
        assert_eq!(seen, [(2, 3, 4), (5, 6, 0), (7, 8, 8)]);
    }
}

#[test]
fn a_bad_header_is_refused() {
    let mut conn = Connection::in_order(ByteOrder::Big);
    conn.recv(TAG, data(&[0, 0, 0, 2, 0, 7, 0])).unwrap();
    assert!(conn.next_message().unwrap().is_none());
    conn.recv(TAG, data(&[0])).unwrap();
    assert!(matches!(conn.next_message(), Err(Error::BadHeader)));
    assert!(matches!(conn.next_message(), Err(Error::BadHeader)));
}

#[test]
fn receiving_may_fail() {
    let mut conn = Connection::new();
    conn.recv(TAG, Received::Failed { interrupted: true }).unwrap();
    assert!(matches!(
        conn.recv(TAG, Received::Failed { interrupted: false }),
        Err(Error::Io)
    ));
    assert!(matches!(conn.recv(TAG, data(&[])), Err(Error::Closed)));
}

#[test]
fn descriptors_are_harvested_in_order() {
    let order = ByteOrder::native();
    let record = |level, kind, fds: &[i32]| ControlRecord {
        level,
        kind,
        payload: rights_payload(order, fds),
    };
    let mut short = record(1, 1, &[13, 14]);
    short.payload.pop();
    let records = vec![
        record(1, 1, &[10, 11]),
        record(1, 2, &[99]),
        record(2, 1, &[99]),
        record(1, 1, &[-12]),
        short,
    ];
    assert_eq!(harvest(order, TAG, &records), [10, 11, -12, 13]);

    let mut conn = Connection::new();
    let got = Received::Data {
        bytes: vec![0],
        records,
    };
    conn.recv(TAG, got).unwrap();
    assert_eq!(conn.take_fd(), Some(10));
    assert_eq!(conn.take_fd(), Some(11));
    assert_eq!(conn.take_fd(), Some(-12));
    assert_eq!(conn.take_fd(), Some(13));
    assert_eq!(conn.take_fd(), None);
}

#[test]
fn the_payload_of_descriptors_is_native_words() {
    let mut expected = 3i32.to_ne_bytes().to_vec();
    expected.extend((-1i32).to_ne_bytes());
    assert_eq!(rights_payload(ByteOrder::native(), &[3, -1]), expected);
    assert!(rights_payload(ByteOrder::native(), &[]).is_empty());
}

#[test]
fn a_packet_goes_out_piece_by_piece() {
    let packet = Packet {
        bytes: vec![1, 2, 3, 4, 5],
        fds: vec![8],
    };
    let mut t = Transmission::new(packet);
    let mut peer = Vec::new();
    let mut carried = 0;
    for outcome in [
        Sent::Failed { interrupted: true },
        Sent::Accepted(2),
        Sent::Failed { interrupted: true },
        Sent::Accepted(0),
        Sent::Accepted(3),
    ] {
        if let Sent::Accepted(n) = outcome {
            peer.extend_from_slice(&t.remaining()[..n]);
            carried += t.attached().len();
        }
        t.advance(outcome).unwrap();
    }
    assert_eq!(peer, [1, 2, 3, 4, 5]);
    assert_eq!(carried, 1);
    assert!(t.remaining().is_empty());
    assert!(t.attached().is_empty());
}

#[test]
fn sending_may_fail() {
    let packet = Packet {
        bytes: vec![1],
        fds: vec![8],
    };
    let mut t = Transmission::new(packet);
    assert_eq!(t.attached(), [8]);
    let r = t.advance(Sent::Failed { interrupted: false });
    assert!(matches!(r, Err(Error::Io)));
    assert_eq!(t.remaining(), [1]);
}

fn env(socket: Option<&str>, display: Option<&str>, dir: bool) -> DisplayEnv {
    DisplayEnv {
        wayland_socket: socket.map(str::to_string),
        wayland_display: display.map(str::to_string),
        has_runtime_dir: dir,
    }
}

#[test]
fn the_compositor_is_found() {
    let at = |d, e: &DisplayEnv| match endpoint(d, e) {
        Ok(Endpoint::Inherited(fd)) => format!("fd {fd}"),
        Ok(Endpoint::Absolute(path)) => format!("at {path}"),
        Ok(Endpoint::InRuntimeDir(name)) => format!("in {name}"),
        Err(e) => e.message(),
    };
    assert_eq!(at(Some("x"), &env(Some("7"), Some("y"), false)), "fd 7");
    assert_eq!(at(Some("x"), &env(Some("+7"), None, true)), "fd 7");
    assert_eq!(at(Some("x"), &env(Some("seven"), Some("y"), true)), "in x");
    assert_eq!(at(None, &env(None, Some("wayland-1"), true)), "in wayland-1");
    assert_eq!(at(None, &env(None, None, true)), "in wayland-0");
    assert_eq!(at(None, &env(None, Some("/run/w"), false)), "at /run/w");
    assert_eq!(at(Some("/x"), &env(Some(""), Some("y"), false)), "at /x");
    assert_eq!(at(None, &env(None, None, false)), "XDG_RUNTIME_DIR is not set");
}

#[test]
fn errors_have_a_class_and_a_line() {
    let all = [
        (Error::TooLarge, Kind::InvalidInput, "message too large"),
        (Error::BadHeader, Kind::InvalidData, "malformed Wayland message header"),
        (Error::Malformed, Kind::InvalidData, "malformed Wayland event"),
        (
            Error::Closed,
            Kind::UnexpectedEof,
            "the Wayland connection was closed by the compositor",
        ),
        (Error::Io, Kind::Other, "input/output error"),
        (Error::NoRuntimeDir, Kind::NotFound, "XDG_RUNTIME_DIR is not set"),
        (Error::NoSeat, Kind::Unsupported, "the compositor exposes no wl_seat"),
        (
            Error::NoManager,
            Kind::Unsupported,
            "the compositor does not support the wlr-data-control or ext-data-control protocol",
        ),
        (
            Error::NoPrimary,
            Kind::Other,
            "the compositor does not support the primary selection",
        ),
        (Error::NoData, Kind::Other, "the selection offers no data"),
        (
            Error::NoTarget("a".to_string()),
            Kind::Other,
            "the selection does not offer the target 'a'",
        ),
        (
            Error::Protocol {
                object: 10,
                code: u32::MAX,
                text: String::new(),
            },
            Kind::Other,
            "Wayland protocol error from object 10 (code 4294967295): ",
        ),
    ];
    for (e, kind, message) in all {
        assert_eq!(e.kind(), kind);
        assert_eq!(e.message(), message);
    }
}
