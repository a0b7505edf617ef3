use wclip::bytes::ByteOrder;
use wclip::connection::{Connection, ControlRecord, Received, RightsTag};
use wclip::error::Error;
use wclip::proto::{
    dispatch, handle_event, handle_global, read_event, serve, setup, Effect, Event, Progress,
    State,
};
use wclip::wire::{Message, Msg};

const TAG: RightsTag = RightsTag { level: 1, kind: 1 };

fn message(msg: Msg) -> Message {
    let (_, sender, opcode, args, _) = msg.into_parts();
    Message {
        sender,
        opcode,
        args,
    }
}

/// A state in the middle of a session.
fn session() -> State {
    let mut st = State::new();
    st.registry_id = 2;
    st.device_id = 6;
    st.source_id = 7;
    st
}

fn read(st: &State, msg: Msg) -> Option<Event> {
    read_event(ByteOrder::native(), st, &message(msg))
}

#[test]
fn a_new_state_is_empty() {
    let st = State::new();
    assert_eq!((st.manager_id, st.device_id, st.source_id), (0, 0, 0));
    assert_eq!((st.selection, st.primary_selection), (None, None));
    assert!(st.data.is_empty());
    assert_eq!(st.loops, 0);
    assert!(!st.finished && !st.cancelled);
    assert!(!st.primary_supported());
    assert!(st.offer_mimes(3).is_empty());
}

#[test]
fn the_primary_selection_depends_on_the_protocol() {
    let with = |interface, version| {
        let mut st = State::new();
        handle_global(&mut st, 1, interface, version);
        st.primary_supported()
    };
    assert!(with("ext_data_control_manager_v1", 1));
    assert!(!with("zwlr_data_control_manager_v1", 1));
    assert!(with("zwlr_data_control_manager_v1", 2));
    assert!(!with("wl_seat", 9));
    assert!(!with("wl_compositor", 9));
}

#[test]
fn ext_wins_in_any_order() {
    let ext = (4, "ext_data_control_manager_v1", 5);
    let wlr = (3, "zwlr_data_control_manager_v1", 5);
    for globals in [[ext, wlr], [wlr, ext]] {
        let mut st = State::new();
        for (name, interface, version) in globals {
            handle_global(&mut st, name, interface, version);
        }
        let m = st.manager.as_ref().unwrap();
        assert_eq!((m.name, m.version), (4, 1));
        assert_eq!(m.interface, "ext_data_control_manager_v1");
    }
    let mut st = State::new();
    handle_global(&mut st, 3, wlr.1, 1);
    handle_global(&mut st, 9, wlr.1, 2);
    handle_global(&mut st, 5, "wl_seat", 1);
    handle_global(&mut st, 6, "wl_seat", 1);
    let m = st.manager.as_ref().unwrap();
    assert_eq!((m.name, m.version), (3, 1));
    assert_eq!(st.seat_global, Some(5));
}

#[test]
fn events_are_told_apart_by_sender_and_opcode() {
    let mut st = session();
    st.offers.insert(50, Vec::new());
    assert!(matches!(read(&st, Msg::new(1, 1).uint(9)), Some(Event::Ignored)));
    assert!(matches!(read(&st, Msg::new(2, 1).uint(9)), Some(Event::Ignored)));
    assert!(matches!(read(&st, Msg::new(6, 0).uint(9)), Some(Event::NewOffer(9))));
    assert!(matches!(read(&st, Msg::new(6, 1).uint(9)), Some(Event::Selection(9))));
    assert!(matches!(read(&st, Msg::new(6, 2)), Some(Event::DeviceFinished)));
    assert!(matches!(read(&st, Msg::new(6, 3).uint(9)), Some(Event::PrimarySelection(9))));
    assert!(matches!(read(&st, Msg::new(6, 4)), Some(Event::Ignored)));
    assert!(matches!(read(&st, Msg::new(7, 0).string("x")), Some(Event::PasteRequest)));
    assert!(matches!(read(&st, Msg::new(7, 1)), Some(Event::Cancelled)));
    assert!(matches!(read(&st, Msg::new(7, 2)), Some(Event::Ignored)));
    assert!(matches!(read(&st, Msg::new(50, 1)), Some(Event::Ignored)));
    assert!(matches!(read(&st, Msg::new(50, 0).uint(0)), Some(Event::Ignored)));
    assert!(matches!(read(&st, Msg::new(51, 0)), Some(Event::Ignored)));
    match read(&st, Msg::new(50, 0).string("text/html")) {
        Some(Event::Mime { offer, mime }) => assert_eq!((offer, mime.as_str()), (50, "text/html")),
        _ => panic!(),
    }
    match read(&st, Msg::new(2, 0).uint(3).string("wl_shm").uint(4)) {
        Some(Event::Global {
            name,
            interface,
            version,
        }) => assert_eq!((name, interface.as_str(), version), (3, "wl_shm", 4)),
        _ => panic!(),
    }
    match read(&st, Msg::new(1, 0).uint(3).uint(4).uint(0)) {
        Some(Event::Fault { object, code, text }) => {
            assert_eq!((object, code, text.as_str()), (3, 4, ""))
        }
        _ => panic!(),
    }
    // Before the device and the source exist, nothing comes from them.
    let st = State::new();
    assert!(matches!(read(&st, Msg::new(6, 0)), Some(Event::Ignored)));
}

#[test]
fn short_events_are_noticed() {
    let mut st = session();
    st.offers.insert(50, Vec::new());
    for msg in [
        Msg::new(1, 0),
        Msg::new(1, 0).uint(3),
        Msg::new(1, 0).uint(3).uint(4),
        Msg::new(1, 0).uint(3).uint(4).uint(9),
        Msg::new(2, 0),
        Msg::new(2, 0).uint(3),
        Msg::new(2, 0).uint(3).string("wl_seat"),
        Msg::new(6, 0),
        Msg::new(6, 1),
        Msg::new(6, 3),
        Msg::new(7, 0),
        Msg::new(50, 0),
    ] {
        assert!(read(&st, msg).is_none());
    }
}

#[test]
fn a_short_event_stops_the_loop() {
    let mut conn = Connection::new();
    let mut peer = Connection::new();
    let mut st = State::new();
    let rt = setup(&mut conn, &mut st);
    peer.send(Msg::new(1, 0).uint(3)).unwrap();
    let got = Received::Data {
        bytes: peer.take_packet().unwrap().bytes,
        records: Vec::new(),
    };
    conn.recv(TAG, got).unwrap();
    assert!(matches!(rt.step(&mut conn, &mut st), Err(Error::Malformed)));
}

#[test]
fn offers_keep_their_types_in_order() {
    let mut conn = Connection::new();
    let mut st = session();
    for msg in [
        Msg::new(6, 0).uint(50),
        Msg::new(6, 0).uint(51),
        Msg::new(50, 0).string("b"),
        Msg::new(51, 0).string("c"),
        Msg::new(50, 0).string("a"),
        Msg::new(50, 0).string("b"),
        Msg::new(6, 1).uint(50),
        Msg::new(6, 3).uint(51),
    ] {
        assert_eq!(dispatch(&mut conn, &mut st, &message(msg)).unwrap(), Effect::Nothing);
    }
    assert_eq!(st.offer_mimes(50), ["b", "a", "b"]);
    assert_eq!(st.offer_mimes(51), ["c"]);
    assert_eq!((st.selection, st.primary_selection), (Some(50), Some(51)));
    // An offer that is announced again starts over; object 0 is no offer.
    dispatch(&mut conn, &mut st, &message(Msg::new(6, 0).uint(50))).unwrap();
    dispatch(&mut conn, &mut st, &message(Msg::new(6, 1).uint(0))).unwrap();
    assert!(st.offer_mimes(50).is_empty());
    assert_eq!((st.selection, st.primary_selection), (None, Some(51)));
    assert!(conn.take_packet().is_none());
}

#[test]
fn requests_are_served_oldest_descriptor_first() {
    let mut conn = Connection::new();
    let records = vec![ControlRecord {
        level: 1,
        kind: 1,
        payload: wclip::connection::rights_payload(conn.order(), &[30, 31]),
    }];
    let got = Received::Data {
        bytes: vec![0],
        records,
    };
    conn.recv(TAG, got).unwrap();
    let mut st = session();
    let mut ask = || handle_event(&mut conn, &mut st, Event::PasteRequest).unwrap();
    assert_eq!(ask(), Effect::Deliver(30));
    assert_eq!(ask(), Effect::Deliver(31));
    assert_eq!(ask(), Effect::Nothing);
    assert_eq!(st.served, 3);
    assert!(!st.finished);
}

#[test]
fn loops_limit_the_service() {
    let mut conn = Connection::new();
    let mut st = session();
    st.loops = 3;
    for served in 1..=3 {
        assert!(!st.finished);
        handle_event(&mut conn, &mut st, Event::PasteRequest).unwrap();
        assert_eq!(st.served, served);
    }
    assert!(st.finished && !st.cancelled);
    assert!(matches!(serve(&mut conn, &mut st), Ok(Progress::Done)));
    // No limit, even where the counter starts over.
    let mut st = session();
    st.served = u32::MAX;
    handle_event(&mut conn, &mut st, Event::PasteRequest).unwrap();
    assert_eq!(st.served, 0);
    assert!(!st.finished);
    assert!(matches!(serve(&mut conn, &mut st), Ok(Progress::NeedInput)));
}

#[test]
fn losing_the_selection_ends_the_service() {
    let mut conn = Connection::new();
    let mut st = session();
    handle_event(&mut conn, &mut st, Event::Cancelled).unwrap();
    assert!(st.cancelled && st.finished);
    let mut st = session();
    handle_event(&mut conn, &mut st, Event::DeviceFinished).unwrap();
    assert!(!st.cancelled && st.finished);
}
