//! Roundtrips against an in-process mock compositor.
//!
//! The compositor uses the same wire encoding and decoding, and descriptors
//! pass through control messages in both directions. Pipes are numbered
//! buffers.

use std::collections::HashMap;

use wclip::args::Args;
use wclip::bytes::ByteOrder;
use wclip::connection::{rights_payload, Connection, ControlRecord, Packet, Received, RightsTag};
use wclip::copy;
use wclip::error::Error;
use wclip::paste;
use wclip::proto::{self, Effect, Progress, Roundtrip, State};
use wclip::wire::{ArgReader, Msg, DISPLAY_ID};

const TAG: RightsTag = RightsTag { level: 1, kind: 1 };

fn arrival(packet: Packet) -> Received {
    let records = vec![ControlRecord {
        level: TAG.level,
        kind: TAG.kind,
        payload: rights_payload(ByteOrder::native(), &packet.fds),
    }];
    Received::Data {
        bytes: packet.bytes,
        records,
    }
}

/// Moves everything that waits in `from` into `to`.
fn transfer(from: &mut Connection, to: &mut Connection) {
    while let Some(packet) = from.take_packet() {
        to.recv(TAG, arrival(packet)).unwrap();
    }
}

struct Compositor {
    conn: Connection,
    globals: Vec<(u32, &'static str, u32)>,
    /// Whether there is a selection, and the types that it offers.
    selected: bool,
    mimes: Vec<&'static str>,
    payload: Vec<u8>,
    registry: u32,
    manager: u32,
    device: u32,
    offer: u32,
    source: u32,
    offered: Vec<String>,
    bound: Vec<(u32, String, u32)>,
    primary: Option<bool>,
    syncs: u32,
    /// After this many syncs a client asks the source to send.
    paste_after: u32,
    pipes: HashMap<i32, Vec<u8>>,
}

impl Compositor {
    fn new() -> Compositor {
        Compositor {
            conn: Connection::new(),
            globals: vec![(1, "ext_data_control_manager_v1", 1), (2, "wl_seat", 1)],
            selected: false,
            mimes: Vec::new(),
            payload: Vec::new(),
            registry: 0,
            manager: 0,
            device: 0,
            offer: 0,
            source: 0,
            offered: Vec::new(),
            bound: Vec::new(),
            primary: None,
            syncs: 0,
            paste_after: u32::MAX,
            pipes: HashMap::new(),
        }
    }

    fn run(&mut self) {
        while let Some(m) = self.conn.next_message().unwrap() {
            let mut r = ArgReader::new(&m.args);
            match (m.sender, m.opcode) {
                (DISPLAY_ID, 1) => {
                    self.registry = r.new_id();
                    for (name, interface, version) in self.globals.clone() {
                        let msg = Msg::new(self.registry, 0)
                            .uint(name)
                            .string(interface)
                            .uint(version);
                        self.conn.send(msg).unwrap();
                    }
                }
                (DISPLAY_ID, 0) => {
                    let callback = r.new_id();
                    self.conn.send(Msg::new(callback, 0).uint(0)).unwrap();
                    self.syncs += 1;
                    if self.syncs == self.paste_after {
                        self.pipes.insert(9, Vec::new());
                        let msg = Msg::new(self.source, 0).string("text/plain").fd(9);
                        self.conn.send(msg).unwrap();
                    }
                }
                (id, 0) if id == self.registry => {
                    let name = r.uint();
                    let interface = r.string().unwrap();
                    let version = r.uint();
                    let id = r.new_id();
                    if interface != "wl_seat" {
                        self.manager = id;
                    }
                    self.bound.push((name, interface, version));
                }
                (id, 1) if id == self.manager => {
                    self.device = r.new_id();
                    if self.selected {
                        self.offer = 0xff00_0001;
                        let offer = self.offer;
                        let device = self.device;
                        self.conn.send(Msg::new(device, 0).new_id(offer)).unwrap();
                        for mime in self.mimes.clone() {
                            self.conn.send(Msg::new(offer, 0).string(mime)).unwrap();
                        }
                        self.conn.send(Msg::new(device, 1).object(offer)).unwrap();
                    }
                }
                (id, 0) if id == self.manager => self.source = r.new_id(),
                (id, 0) if id == self.offer => {
                    let _mime = r.string();
                    let fd = self.conn.take_fd().expect("receive carried no fd");
                    self.pipes.insert(fd, self.payload.clone());
                }
                (id, 0) if id == self.source => self.offered.push(r.string().unwrap()),
                (id, opcode) if id == self.device => self.primary = Some(opcode == 2),
                _ => {}
            }
        }
    }
}

/// Runs a roundtrip to its end.
fn finish(rt: Roundtrip, client: &mut Connection, st: &mut State, server: &mut Compositor) {
    loop {
        transfer(client, &mut server.conn);
        server.run();
        transfer(&mut server.conn, client);
        match rt.step(client, st).unwrap() {
            Progress::Done => return,
            Progress::Handled(effect) => assert_eq!(effect, Effect::Nothing),
            Progress::NeedInput => panic!("the compositor did not answer"),
        }
    }
}

#[test]
fn paste_roundtrip_delivers_selection() {
    let mut server = Compositor::new();
    server.selected = true;
    server.mimes = vec!["text/plain;charset=utf-8", "text/plain"];
    server.payload = b"clipboard contents\n".to_vec();
    let expected = server.payload.clone();

    let mut conn = Connection::new();
    let mut st = State::new();
    let rt = proto::setup(&mut conn, &mut st);
    finish(rt, &mut conn, &mut st, &mut server);
    proto::bind_globals(&mut conn, &mut st).unwrap();
    assert!(st.primary_supported(), "ext-data-control offers primary");
    let rt = proto::roundtrip(&mut conn);
    finish(rt, &mut conn, &mut st, &mut server);

    let offer = st.selection.expect("a selection should be present");
    assert_eq!(
        st.offer_mimes(offer),
        ["text/plain;charset=utf-8", "text/plain"]
    );

    proto::receive(&mut conn, offer, "text/plain;charset=utf-8", 7).unwrap();
    transfer(&mut conn, &mut server.conn);
    server.run();
    let data = server.pipes.remove(&7).unwrap();
    assert_eq!(data, expected);
}

#[test]
fn copy_roundtrip_serves_data() {
    let mut server = Compositor::new();
    server.paste_after = 2;

    let mut conn = Connection::new();
    let mut st = State::new();
    let rt = proto::setup(&mut conn, &mut st);
    finish(rt, &mut conn, &mut st, &mut server);
    proto::bind_globals(&mut conn, &mut st).unwrap();

    let mimes = vec!["text/plain".to_string()];
    let rt = proto::set_selection(&mut conn, &mut st, &mimes, false).unwrap();
    finish(rt, &mut conn, &mut st, &mut server);
    assert!(!st.cancelled);
    assert_eq!(server.offered, ["text/plain"]);
    assert_eq!(server.primary, Some(false));

    st.data = b"hello from wclip".to_vec();
    loop {
        match proto::serve(&mut conn, &mut st).unwrap() {
            Progress::Handled(Effect::Deliver(fd)) => {
                server.pipes.get_mut(&fd).unwrap().extend(&st.data);
                // cancelled: stop serving
                server.conn.send(Msg::new(server.source, 1)).unwrap();
                transfer(&mut server.conn, &mut conn);
            }
            Progress::Handled(Effect::Nothing) => {}
            Progress::NeedInput => panic!("the compositor did not ask"),
            Progress::Done => break,
        }
    }
    assert!(st.cancelled);

    let received = server.pipes.remove(&9).unwrap();
    assert_eq!(received, b"hello from wclip");
}

fn parse(argv: &[&str]) -> Args {
    let argv: Vec<String> = argv.iter().map(|s| s.to_string()).collect();
    Args::parse(&argv).unwrap()
}

/// What a whole paste prints.
fn run_paste(argv: &[&str], server: &mut Compositor) -> Result<Vec<u8>, Error> {
    let mut job = paste::Paste::start(Connection::new(), &parse(argv));
    loop {
        let mut step = job.step();
        while let Some(packet) = job.take_packet() {
            server.conn.recv(TAG, arrival(packet)).unwrap();
        }
        if let Ok(paste::Step::OpenPipe) = step {
            step = job.pipe_opened(5);
            while let Some(packet) = job.take_packet() {
                server.conn.recv(TAG, arrival(packet)).unwrap();
            }
        }
        match step? {
            paste::Step::Receive => {
                server.run();
                while let Some(packet) = server.conn.take_packet() {
                    job.recv(TAG, arrival(packet)).unwrap();
                }
            }
            paste::Step::Continue => {}
            paste::Step::OpenPipe => unreachable!(),
            paste::Step::ReadPipe => {
                server.run();
                let data = server.pipes.remove(&5).unwrap();
                return Ok(job.data_read(data));
            }
            paste::Step::Print(bytes) => return Ok(bytes),
            paste::Step::Done => return Ok(Vec::new()),
        }
    }
}

fn offering(mimes: &[&'static str]) -> Compositor {
    let mut server = Compositor::new();
    server.selected = true;
    server.mimes = mimes.to_vec();
    server.payload = b"clipboard contents\n".to_vec();
    server
}

#[test]
fn paste_prints_the_clipboard() {
    let mut server = offering(&["text/plain"]);
    let out = run_paste(&["-o", "-sel", "c"], &mut server).unwrap();
    assert_eq!(out, b"clipboard contents\n");
    let mut server = offering(&["text/plain"]);
    let out = run_paste(&["-o", "-sel", "c", "-r"], &mut server).unwrap();
    assert_eq!(out, b"clipboard contents");
}

#[test]
fn paste_lists_targets() {
    let mut server = offering(&["text/html", "image/png"]);
    let out = run_paste(&["-o", "-sel", "c", "-t", "TARGETS"], &mut server).unwrap();
    assert_eq!(out, b"text/html\nimage/png\n");
}

#[test]
fn paste_of_an_empty_selection_prints_nothing() {
    // Only the regular selection is set; the default is the primary one.
    let mut server = offering(&["text/plain"]);
    assert_eq!(run_paste(&["-o"], &mut server).unwrap(), b"");
    let mut server = Compositor::new();
    assert_eq!(run_paste(&["-o", "-sel", "c"], &mut server).unwrap(), b"");
}

#[test]
fn paste_refuses_a_missing_target() {
    let mut server = offering(&["text/plain"]);
    let e = run_paste(&["-o", "-sel", "c", "-t", "image/png"], &mut server)
        .err()
        .unwrap();
    assert_eq!(
        e.message(),
        "the selection does not offer the target 'image/png'"
    );
}

#[test]
fn paste_refuses_an_offer_without_types() {
    let mut server = offering(&[]);
    let e = run_paste(&["-o", "-sel", "c"], &mut server).err().unwrap();
    assert!(matches!(e, Error::NoData));
    // It can be listed all the same.
    let mut server = offering(&[]);
    let out = run_paste(&["-o", "-sel", "c", "-t", "TARGETS"], &mut server).unwrap();
    assert_eq!(out, b"");
}

#[test]
fn unsupported_compositors_are_refused() {
    let mut server = Compositor::new();
    server.globals = vec![(2, "wl_seat", 1)];
    let e = run_paste(&["-o"], &mut server).err().unwrap();
    assert_eq!(
        e.message(),
        "the compositor does not support the wlr-data-control or ext-data-control protocol"
    );
    let mut server = Compositor::new();
    server.globals = vec![(1, "ext_data_control_manager_v1", 1)];
    let e = run_paste(&["-o"], &mut server).err().unwrap();
    assert_eq!(e.message(), "the compositor exposes no wl_seat");
    let mut server = Compositor::new();
    server.globals = vec![(1, "zwlr_data_control_manager_v1", 1), (2, "wl_seat", 1)];
    let e = run_paste(&["-o"], &mut server).err().unwrap();
    assert_eq!(
        e.message(),
        "the compositor does not support the primary selection"
    );
    // Without the primary selection the same compositor is fine.
    let mut server = offering(&["text/plain"]);
    server.globals = vec![(1, "zwlr_data_control_manager_v1", 1), (2, "wl_seat", 1)];
    assert!(run_paste(&["-o", "-sel", "c"], &mut server).is_ok());
}

#[test]
fn the_preferred_manager_is_bound() {
    let mut server = offering(&["text/plain"]);
    server.globals = vec![
        (4, "zwlr_data_control_manager_v1", 9),
        (5, "wl_seat", 7),
        (6, "ext_data_control_manager_v1", 3),
        (7, "wl_seat", 7),
        (8, "ext_data_control_manager_v1", 3),
    ];
    run_paste(&["-o", "-sel", "c"], &mut server).unwrap();
    assert_eq!(
        server.bound,
        [
            (5, "wl_seat".to_string(), 1),
            (6, "ext_data_control_manager_v1".to_string(), 1)
        ]
    );
    let mut server = offering(&["text/plain"]);
    server.globals = vec![(4, "zwlr_data_control_manager_v1", 9), (5, "wl_seat", 7)];
    run_paste(&["-o", "-sel", "c"], &mut server).unwrap();
    assert_eq!(server.bound[1], (4, "zwlr_data_control_manager_v1".to_string(), 2));
}

/// What a copy did: what went into each pipe, and whether it detached.
fn run_copy(
    argv: &[&str],
    data: &[u8],
    requests: u32,
    server: &mut Compositor,
) -> Result<(Vec<Vec<u8>>, bool), Error> {
    let mut job = copy::Copy::start(Connection::new(), &parse(argv), data.to_vec());
    let mut delivered = Vec::new();
    let mut detached = false;
    let mut asked = 0;
    loop {
        let step = job.step();
        while let Some(packet) = job.take_packet() {
            server.conn.recv(TAG, arrival(packet)).unwrap();
        }
        match step? {
            copy::Step::Receive => {
                server.run();
                if server.syncs == 2 {
                    let msg = if asked < requests {
                        Msg::new(server.source, 0).string("text/plain").fd(20 + asked as i32)
                    } else {
                        Msg::new(server.source, 1)
                    };
                    asked += 1;
                    server.conn.send(msg).unwrap();
                }
                while let Some(packet) = server.conn.take_packet() {
                    job.recv(TAG, arrival(packet)).unwrap();
                }
            }
            copy::Step::Continue => {}
            copy::Step::Deliver(fd) => {
                assert_eq!(fd, 20 + delivered.len() as i32);
                delivered.push(job.served_data().to_vec());
            }
            copy::Step::Detach => detached = true,
            copy::Step::Done => return Ok((delivered, detached)),
        }
    }
}

#[test]
fn copy_serves_until_cancelled() {
    let mut server = Compositor::new();
    let (delivered, detached) = run_copy(&[], b"data", 3, &mut server).unwrap();
    assert_eq!(delivered, [b"data", b"data", b"data"]);
    assert!(detached);
    assert_eq!(server.primary, Some(true));
    assert_eq!(
        server.offered,
        ["text/plain;charset=utf-8", "text/plain", "TEXT", "STRING", "UTF8_STRING"]
    );
}

#[test]
fn copy_stops_after_its_loops() {
    let mut server = Compositor::new();
    let argv = ["-l", "2", "-sel", "c", "-t", "image/png", "-foreground"];
    let (delivered, detached) = run_copy(&argv, b"png", 9, &mut server).unwrap();
    assert_eq!(delivered, [b"png", b"png"]);
    assert!(!detached);
    assert_eq!(server.primary, Some(false));
    assert_eq!(server.offered, ["image/png"]);
}

#[test]
fn copy_that_is_replaced_at_once_serves_nothing() {
    let mut server = Compositor::new();
    let mut job = copy::Copy::start(Connection::new(), &parse(&[]), b"x".to_vec());
    loop {
        let step = job.step().unwrap();
        while let Some(packet) = job.take_packet() {
            server.conn.recv(TAG, arrival(packet)).unwrap();
        }
        match step {
            copy::Step::Receive => {
                if server.syncs == 1 {
                    // The source of a fresh client has id 7.
                    server.conn.send(Msg::new(7, 1)).unwrap();
                }
                server.run();
                while let Some(packet) = server.conn.take_packet() {
                    job.recv(TAG, arrival(packet)).unwrap();
                }
            }
            copy::Step::Continue => {}
            copy::Step::Deliver(_) | copy::Step::Detach => unreachable!(),
            copy::Step::Done => break,
        }
    }
    assert_eq!(server.source, 7);
}

/// What a copy writes to which descriptor, and whether it detached, when
/// `early` requests come before the answer to the roundtrip that installs the
/// selection, and one after each that was received since.
fn run_early(argv: &[&str], early: i32) -> (Vec<(i32, Vec<u8>)>, bool) {
    let mut server = Compositor::new();
    let mut job = copy::Copy::start(Connection::new(), &parse(argv), b"x".to_vec());
    let mut delivered = Vec::new();
    let mut detached = false;
    let mut asked = 0;
    loop {
        let step = job.step().unwrap();
        while let Some(packet) = job.take_packet() {
            server.conn.recv(TAG, arrival(packet)).unwrap();
        }
        match step {
            copy::Step::Receive => {
                let count = match server.syncs {
                    0 => 0,
                    1 => early,
                    _ => 1,
                };
                for _ in 0..count {
                    // The source of a fresh client has id 7.
                    asked += 1;
                    let msg = Msg::new(7, 0).string("text/plain").fd(asked);
                    server.conn.send(msg).unwrap();
                }
                server.run();
                while let Some(packet) = server.conn.take_packet() {
                    job.recv(TAG, arrival(packet)).unwrap();
                }
            }
            copy::Step::Continue => {}
            copy::Step::Deliver(fd) => delivered.push((fd, job.served_data().to_vec())),
            copy::Step::Detach => detached = true,
            copy::Step::Done => return (delivered, detached),
        }
    }
}

#[test]
fn an_early_request_gets_the_data_and_counts() {
    let (delivered, detached) = run_early(&["-l", "2"], 1);
    assert_eq!(delivered, [(1, b"x".to_vec()), (2, b"x".to_vec())]);
    assert!(detached);
    let (delivered, detached) = run_early(&["-l", "3", "-foreground"], 2);
    assert_eq!(
        delivered,
        [(1, b"x".to_vec()), (2, b"x".to_vec()), (3, b"x".to_vec())]
    );
    assert!(!detached);
}

#[test]
fn early_requests_may_exhaust_the_loops() {
    for early in 1..4 {
        let (delivered, detached) = run_early(&["-l", "1"], early);
        assert_eq!(delivered, [(1, b"x".to_vec())]);
        assert!(!detached);
    }
}

/// Sends a row of messages from the compositor to a client.
fn deliver(msgs: Vec<Msg>, mut take: impl FnMut(Received)) {
    let mut peer = Connection::new();
    for msg in msgs {
        peer.send(msg).unwrap();
    }
    while let Some(packet) = peer.take_packet() {
        take(arrival(packet));
    }
}

/// The globals, and the answer to the first roundtrip of a fresh client.
fn greeting() -> Vec<Msg> {
    vec![
        Msg::new(2, 0).uint(1).string("ext_data_control_manager_v1").uint(1),
        Msg::new(2, 0).uint(2).string("wl_seat").uint(1),
        Msg::new(3, 0).uint(0),
    ]
}

#[test]
fn other_events_do_not_disturb_the_service() {
    let mut job = copy::Copy::start(Connection::new(), &parse(&["-l", "4"]), b"x".to_vec());
    // Device 6, source 7, callback 8.
    let ask = |fd| Msg::new(7, 0).string("text/plain").fd(fd);
    let mut msgs = greeting();
    msgs.extend([
        Msg::new(6, 0).new_id(0xff00_0001),
        ask(20),
        Msg::new(0xff00_0001, 0).string("TEXT"),
        Msg::new(6, 1).object(0xff00_0001),
        Msg::new(8, 0).uint(0),
        Msg::new(1, 1).uint(8),
        ask(21),
        Msg::new(6, 3).object(0),
        Msg::new(7, 0).string("no descriptor left"),
        Msg::new(6, 0).new_id(0xff00_0002),
    ]);
    deliver(msgs, |got| job.recv(TAG, got).unwrap());
    let mut delivered = Vec::new();
    let mut detached = 0;
    loop {
        match job.step().unwrap() {
            copy::Step::Continue => {}
            copy::Step::Deliver(fd) => delivered.push((fd, job.served_data().to_vec())),
            copy::Step::Detach => detached += 1,
            copy::Step::Receive => break,
            copy::Step::Done => unreachable!(),
        }
    }
    assert_eq!(delivered, [(20, b"x".to_vec()), (21, b"x".to_vec())]);
    assert_eq!(detached, 1);
    // The request without a descriptor counted: one more is the fourth.
    deliver(vec![ask(22), ask(23)], |got| job.recv(TAG, got).unwrap());
    assert_eq!(job.step().unwrap(), copy::Step::Deliver(22));
    assert_eq!(job.step().unwrap(), copy::Step::Done);
}

#[test]
fn both_selections_may_be_announced() {
    // Device 6, callback 7.
    let (a, b) = (0xff00_0001, 0xff00_0002);
    let run = |argv: &[&str]| {
        let mut job = paste::Paste::start(Connection::new(), &parse(argv));
        let mut msgs = greeting();
        msgs.extend([
            Msg::new(6, 0).new_id(a),
            Msg::new(6, 0).new_id(b),
            Msg::new(b, 0).string("image/png"),
            Msg::new(a, 0).string("text/html"),
            Msg::new(6, 3).object(b),
            Msg::new(b, 0).string("image/gif"),
            Msg::new(6, 1).object(a),
            Msg::new(7, 0).uint(0),
        ]);
        deliver(msgs, |got| job.recv(TAG, got).unwrap());
        loop {
            match job.step().unwrap() {
                paste::Step::Continue => {}
                paste::Step::Print(bytes) => return bytes,
                _ => unreachable!(),
            }
        }
    };
    assert_eq!(run(&["-o", "-t", "TARGETS"]), b"image/png\nimage/gif\n");
    assert_eq!(run(&["-o", "-sel", "c", "-t", "TARGETS"]), b"text/html\n");
}

#[test]
fn a_type_that_is_too_long_is_refused() {
    let mut server = Compositor::new();
    let long = "x".repeat(70000);
    let e = run_copy(&["-t", &long], b"", 0, &mut server).err().unwrap();
    assert_eq!(e.message(), "message too large");
    // What came before it was sent.
    assert_eq!(server.bound.len(), 0);
    server.run();
    assert_eq!(server.bound.len(), 2);
    assert_eq!(server.source, 7);
    assert!(server.offered.is_empty());
}

#[test]
fn a_protocol_error_is_reported() {
    let mut conn = Connection::new();
    let mut peer = Connection::new();
    let mut st = State::new();
    let rt = proto::setup(&mut conn, &mut st);
    let msg = Msg::new(DISPLAY_ID, 0).uint(5).uint(42).string("bad thing");
    peer.send(msg).unwrap();
    transfer(&mut peer, &mut conn);
    let e = rt.step(&mut conn, &mut st).err().unwrap();
    assert_eq!(
        e.message(),
        "Wayland protocol error from object 5 (code 42): bad thing"
    );
    assert!(matches!(rt.step(&mut conn, &mut st), Ok(Progress::NeedInput)));
}
