//! What the events of a compositor do.
//!
//! The laws start from messages as a compositor writes them, with opcodes and
//! the ids of the protocol as numbers, and end at what the client knows or does
//! afterwards.

use crate::bytes;
use crate::bytes::ByteOrder;
use crate::connection;
use crate::connection::ConnectionView;
use crate::error::ErrorView;
use crate::proto;
use crate::proto::Effect;
use crate::proto::EventView;
use crate::proto::ManagerView;
use crate::proto::Progress;
use crate::proto::StateView;
use crate::wire;
use crate::wire::MessageView;
use vstd::prelude::*;

verus! {

broadcast use crate::bytes::word_len;

// What a message means.

proof fn one_word(order: ByteOrder, w: u32)
    ensures
        ({
            let r = wire::ArgView::start(order, bytes::word(order, w));
            r.has_uint() && r.uint() == w
        }),
{
    let a = bytes::word(order, w);
    wire::uint_roundtrip(order, Seq::empty(), w, Seq::empty());
    assert(Seq::<u8>::empty() + a + Seq::<u8>::empty() =~= a);
}

proof fn one_text(order: ByteOrder, s: Seq<char>)
    requires
        vstd::utf8::encode_utf8(s).len() + 1 <= u32::MAX,
    ensures
        ({
            let r = wire::ArgView::start(order, wire::string_field(order, s));
            r.has_string() && r.string() == Some(s)
        }),
{
    let a = wire::string_field(order, s);
    wire::string_roundtrip(order, Seq::empty(), s, Seq::empty());
    assert(Seq::<u8>::empty() + a + Seq::<u8>::empty() =~= a);
}

proof fn null_text(order: ByteOrder)
    ensures
        ({
            let r = wire::ArgView::start(order, bytes::word(order, 0));
            r.has_string() && r.string() is None
        }),
{
    one_word(order, 0);
}

/// Opcode 0 of the display, object 1, is a protocol error, with the object, the
/// code and the text that it came with; the text may be null, which is empty.
/// Nothing else that the display sends matters.
pub proof fn the_display_reports_errors(
    order: ByteOrder,
    st: StateView,
    object: u32,
    code: u32,
    text: Seq<char>,
    opcode: u16,
    args: Seq<u8>,
)
    requires
        vstd::utf8::encode_utf8(text).len() + 1 <= u32::MAX,
    ensures
        ({
            let head = bytes::word(order, object) + bytes::word(order, code);
            let msg = |args: Seq<u8>| MessageView { sender: 1, opcode: 0, args };
            &&& proto::event_of(order, st, msg(head + wire::string_field(order, text))) == Some(
                EventView::Fault { object, code, text },
            )
            &&& proto::event_of(order, st, msg(head + bytes::word(order, 0))) == Some(
                EventView::Fault { object, code, text: Seq::empty() },
            )
            &&& args.len() < 12 ==> proto::event_of(order, st, msg(args)) is None
        }),
        opcode != 0 ==> proto::event_of(order, st, MessageView { sender: 1, opcode, args }) == Some(
            EventView::Ignored,
        ),
{
    let a = bytes::word(order, object);
    let b = bytes::word(order, code);
    let c = wire::string_field(order, text);
    let z = bytes::word(order, 0);
    wire::uint_roundtrip(order, Seq::empty(), object, b + c);
    assert(Seq::<u8>::empty() + a + (b + c) =~= a + b + c);
    wire::uint_roundtrip(order, a, code, c);
    wire::string_roundtrip(order, a + b, text, Seq::empty());
    assert(a + b + c + Seq::<u8>::empty() =~= a + b + c);
    wire::uint_roundtrip(order, Seq::empty(), object, b + z);
    assert(Seq::<u8>::empty() + a + (b + z) =~= a + b + z);
    wire::uint_roundtrip(order, a, code, z);
    wire::uint_roundtrip(order, a + b, 0, Seq::empty());
    assert(a + b + z + Seq::<u8>::empty() =~= a + b + z);
}

/// Opcode 0 of the registry announces a global by name, interface and version.
/// Nothing else that the registry sends matters.
pub proof fn the_registry_announces_globals(
    order: ByteOrder,
    st: StateView,
    name: u32,
    interface: Seq<char>,
    version: u32,
    opcode: u16,
    args: Seq<u8>,
)
    requires
        st.registry_id != 1,
        vstd::utf8::encode_utf8(interface).len() + 1 <= u32::MAX,
    ensures
        ({
            let msg = |args: Seq<u8>| MessageView { sender: st.registry_id, opcode: 0, args };
            &&& proto::event_of(
                order,
                st,
                msg(
                    bytes::word(order, name) + wire::string_field(order, interface) + bytes::word(
                        order,
                        version,
                    ),
                ),
            ) == Some(EventView::Global { name, interface, version })
            &&& args.len() < 12 ==> proto::event_of(order, st, msg(args)) is None
        }),
        opcode != 0 ==> proto::event_of(
            order,
            st,
            MessageView { sender: st.registry_id, opcode, args },
        ) == Some(EventView::Ignored),
{
    crate::laws::global_is_understood(order, st, name, interface, version);
}

/// The device says by opcode 0 that there is an offer, by 1 which offer is the
/// selection, by 3 which one is the primary selection, and by 2 that it is
/// gone.
pub proof fn the_device_announces_offers(
    order: ByteOrder,
    st: StateView,
    id: u32,
    opcode: u16,
    args: Seq<u8>,
)
    requires
        st.device_id > 1,
        st.device_id != st.registry_id,
    ensures
        ({
            let msg = |opcode: u16, args: Seq<u8>|
                MessageView { sender: st.device_id, opcode, args };
            let w = bytes::word(order, id);
            &&& proto::event_of(order, st, msg(0, w)) == Some(EventView::NewOffer(id))
            &&& proto::event_of(order, st, msg(1, w)) == Some(EventView::Selection(id))
            &&& proto::event_of(order, st, msg(3, w)) == Some(EventView::PrimarySelection(id))
            &&& proto::event_of(order, st, msg(2, args)) == Some(EventView::DeviceFinished)
            &&& opcode > 3 ==> proto::event_of(order, st, msg(opcode, args)) == Some(
                EventView::Ignored,
            )
            &&& opcode <= 3 && opcode != 2 && args.len() < 4 ==> proto::event_of(
                order,
                st,
                msg(opcode, args),
            ) is None
        }),
{
    one_word(order, id);
}

/// The source says by opcode 0 that a client wants to paste, in whatever type,
/// and by 1 that the selection was taken over.
pub proof fn the_source_passes_requests_on(
    order: ByteOrder,
    st: StateView,
    mime: Seq<char>,
    opcode: u16,
    args: Seq<u8>,
)
    requires
        st.source_id > 1,
        st.source_id != st.registry_id,
        st.source_id != st.device_id,
        vstd::utf8::encode_utf8(mime).len() + 1 <= u32::MAX,
    ensures
        ({
            let msg = |opcode: u16, args: Seq<u8>|
                MessageView { sender: st.source_id, opcode, args };
            &&& proto::event_of(order, st, msg(0, wire::string_field(order, mime))) == Some(
                EventView::PasteRequest,
            )
            &&& proto::event_of(order, st, msg(0, bytes::word(order, 0))) == Some(
                EventView::PasteRequest,
            )
            &&& proto::event_of(order, st, msg(1, args)) == Some(EventView::Cancelled)
            &&& opcode > 1 ==> proto::event_of(order, st, msg(opcode, args)) == Some(
                EventView::Ignored,
            )
            &&& args.len() < 4 ==> proto::event_of(order, st, msg(0, args)) is None
        }),
{
    one_text(order, mime);
    null_text(order);
}

/// A known offer says by opcode 0 that it has a type; a null type is none.
/// Nothing comes from offers, or from any other object, that are not known.
pub proof fn offers_advertise_types(
    order: ByteOrder,
    st: StateView,
    offer: u32,
    mime: Seq<char>,
    opcode: u16,
    args: Seq<u8>,
)
    requires
        offer > 1,
        offer != st.registry_id,
        offer != st.device_id,
        offer != st.source_id,
        vstd::utf8::encode_utf8(mime).len() + 1 <= u32::MAX,
    ensures
        ({
            let msg = |opcode: u16, args: Seq<u8>| MessageView { sender: offer, opcode, args };
            &&& st.offers.contains_key(offer) ==> {
                &&& proto::event_of(order, st, msg(0, wire::string_field(order, mime))) == Some(
                    EventView::Mime { offer, mime },
                )
                &&& proto::event_of(order, st, msg(0, bytes::word(order, 0))) == Some(
                    EventView::Ignored,
                )
                &&& args.len() < 4 ==> proto::event_of(order, st, msg(0, args)) is None
                &&& opcode != 0 ==> proto::event_of(order, st, msg(opcode, args)) == Some(
                    EventView::Ignored,
                )
            }
            &&& !st.offers.contains_key(offer) ==> proto::event_of(order, st, msg(opcode, args))
                == Some(EventView::Ignored)
        }),
{
    one_text(order, mime);
    null_text(order);
}

// What an event changes.

/// No event changes the objects of the session, the data that is served, or how
/// often it is to be served; and each event changes nothing but its own part of
/// what the client knows.
pub proof fn each_event_has_its_own_part(st: StateView, event: EventView)
    ensures
        ({
            let after = st.after(event);
            &&& after.registry_id == st.registry_id
            &&& after.manager_id == st.manager_id
            &&& after.device_id == st.device_id
            &&& after.source_id == st.source_id
            &&& after.data == st.data
            &&& after.loops == st.loops
            &&& !(event is Global) ==> after.manager == st.manager && after.seat_global
                == st.seat_global
            &&& !(event is NewOffer) && !(event is Mime) ==> after.offers == st.offers
            &&& !(event is Selection) ==> after.selection == st.selection
            &&& !(event is PrimarySelection) ==> after.primary_selection == st.primary_selection
            &&& !(event is PasteRequest) ==> after.served == st.served
            &&& !(event is Cancelled) ==> after.cancelled == st.cancelled
            &&& !(event is Cancelled) && !(event is DeviceFinished) && !(event is PasteRequest)
                ==> after.finished == st.finished
        }),
{
}

/// What each event makes of its part.
pub proof fn each_event_leaves_its_mark(st: StateView, id: u32, mime: Seq<char>)
    ensures
        st.after(EventView::Selection(id)).selection == (if id == 0 {
            None
        } else {
            Some(id)
        }),
        st.after(EventView::PrimarySelection(id)).primary_selection == (if id == 0 {
            None
        } else {
            Some(id)
        }),
        st.after(EventView::Cancelled).cancelled,
        st.after(EventView::Cancelled).finished,
        st.after(EventView::DeviceFinished).finished,
        st.served < u32::MAX ==> st.after(EventView::PasteRequest).served == st.served + 1,
        st.served < u32::MAX ==> st.after(EventView::PasteRequest).finished == (st.finished || (
        st.loops != 0 && st.served + 1 >= st.loops)),
        st.after(EventView::NewOffer(id)).offer_mimes(id) == Seq::<Seq<char>>::empty(),
        st.after(EventView::Mime { offer: id, mime }).offer_mimes(id) == st.offer_mimes(id).push(
            mime,
        ),
        forall|other: u32|
            other != id ==> #[trigger] st.after(EventView::NewOffer(id)).offer_mimes(other)
                == st.offer_mimes(other),
        forall|other: u32|
            other != id ==> #[trigger] st.after(
                EventView::Mime { offer: id, mime },
            ).offer_mimes(other) == st.offer_mimes(other),
        st.after(EventView::NewOffer(id)).offers.contains_key(id),
        st.limit_reached() <==> st.loops != 0 && st.served >= st.loops,
{
}

/// The seat is the first global of interface `wl_seat`; it is remembered by its
/// name.
pub proof fn the_seat_is_remembered(st: StateView, name: u32, version: u32)
    ensures
        st.seat_global is None ==> st.with_global(name, "wl_seat"@, version) == (StateView {
            seat_global: Some(name),
            ..st
        }),
        st.seat_global is Some ==> st.with_global(name, "wl_seat"@, version) == st,
{
}

proof fn interface_texts()
    ensures
        "wl_seat"@ != "ext_data_control_manager_v1"@,
        "wl_seat"@ != "zwlr_data_control_manager_v1"@,
        "ext_data_control_manager_v1"@ != "zwlr_data_control_manager_v1"@,
{
    reveal_strlit("wl_seat");
    reveal_strlit("ext_data_control_manager_v1");
    reveal_strlit("zwlr_data_control_manager_v1");
    assert("wl_seat"@.len() == 7);
    assert("ext_data_control_manager_v1"@.len() == 27);
    assert("zwlr_data_control_manager_v1"@.len() == 28);
}

/// Whether the manager that is remembered is this one.
pub open spec fn remembers(
    st: StateView,
    name: u32,
    interface: Seq<char>,
    version: u32,
) -> bool {
    st.manager matches Some(m) && m.name == name && m.interface == interface && m.version == version
}

/// A manager of the ext protocol is remembered by name, at version 1 at most,
/// unless one of that protocol is already; a manager of the wlr protocol at
/// version 2 at most, unless there is any manager already. Either leaves all
/// else as it was, and a global of any other interface leaves everything so.
pub proof fn managers_are_remembered(st: StateView, name: u32, version: u32, other: Seq<char>)
    requires
        st.wf(),
    ensures
        ({
            let ext = "ext_data_control_manager_v1"@;
            let wlr = "zwlr_data_control_manager_v1"@;
            let v1 = if version <= 1 {
                version
            } else {
                1
            };
            let v2 = if version <= 2 {
                version
            } else {
                2
            };
            let has_ext = st.manager matches Some(m) && m.interface == ext;
            let with_ext = st.with_global(name, ext, version);
            let with_wlr = st.with_global(name, wlr, version);
            &&& has_ext ==> with_ext == st
            &&& !has_ext ==> remembers(with_ext, name, ext, v1)
            &&& st.manager is Some ==> with_wlr == st
            &&& st.manager is None ==> remembers(with_wlr, name, wlr, v2)
            &&& with_ext == (StateView { manager: with_ext.manager, ..st })
            &&& with_wlr == (StateView { manager: with_wlr.manager, ..st })
            &&& with_ext.wf() && with_wlr.wf()
            &&& other != ext && other != wlr && other != "wl_seat"@ ==> st.with_global(
                name,
                other,
                version,
            ) == st
        }),
{
    interface_texts();
}

/// The primary selection comes with any manager of the ext protocol, and with
/// one of the wlr protocol from version 2 on.
pub proof fn primary_comes_with_the_protocol(st: StateView, m: ManagerView)
    requires
        st.manager == Some(m),
    ensures
        m.interface == "ext_data_control_manager_v1"@ ==> st.primary_supported(),
        m.interface == "zwlr_data_control_manager_v1"@ ==> (st.primary_supported() <==> m.version
            >= 2),
{
    interface_texts();
}

/// Without a manager there is no primary selection, and an offer that is not
/// known has no types.
pub proof fn nothing_comes_from_nothing(st: StateView, offer: u32)
    ensures
        st.manager is None ==> !st.primary_supported(),
        !st.offers.contains_key(offer) ==> st.offer_mimes(offer) == Seq::<Seq<char>>::empty(),
        st.offers.contains_key(offer) ==> st.offer_mimes(offer) == st.offers[offer],
        StateView::initial().offers == Map::<u32, Seq<Seq<char>>>::empty(),
{
}

// What the client does.

/// A protocol error is handed on with all that it says; any other event
/// succeeds, and its state is what follows. Only a paste request takes a
/// descriptor, the oldest, which is then to be written to.
pub proof fn events_are_carried_out(conn: ConnectionView, st: StateView, event: EventView)
    ensures
        ({
            let done = proto::handled(conn, st, event);
            &&& event matches EventView::Fault { object, code, text } ==> {
                &&& done.result == Err::<Effect, ErrorView>(
                    ErrorView::Protocol { object, code, text },
                )
                &&& done.conn == conn && done.st == st
            }
            &&& !(event is Fault) ==> done.result is Ok && done.st == st.after(event)
            &&& event is PasteRequest && conn.fds.len() > 0 ==> {
                &&& done.result == Ok::<Effect, ErrorView>(Effect::Deliver(conn.fds[0]))
                &&& done.conn == (ConnectionView { fds: conn.fds.drop_first(), ..conn })
            }
            &&& !(event is Fault) && !(event is PasteRequest && conn.fds.len() > 0) ==> {
                &&& done.result == Ok::<Effect, ErrorView>(Effect::Nothing)
                &&& done.conn == conn
            }
        }),
{
    if conn.fds.len() > 0 {
        assert(conn.fds.skip(1) =~= conn.fds.drop_first());
    }
}

/// One step of the event loop: without a whole message it waits, over a bad
/// header it fails, and otherwise it takes one message off. The answer that is
/// waited for ends the wait and does nothing else; a message too short for what
/// it is fails; any other does what it means.
pub proof fn the_loop_takes_one_message(
    conn: ConnectionView,
    st: StateView,
    callback: Option<u32>,
    sender: u32,
    opcode: u16,
    args: Seq<u8>,
    rest: Seq<u8>,
)
    ensures
        ({
            let p = proto::pumped(conn, st, callback);
            let left = ConnectionView { input: rest, ..conn };
            let msg = MessageView { sender, opcode, args };
            let framed = 8 + args.len() <= 65535 && conn.input == connection::frame(
                conn.order,
                sender,
                opcode,
                args,
            ) + rest;
            &&& connection::front(conn.order, conn.input) is Partial ==> p.conn == conn && p.st == st
                && p.result == Ok::<Progress, ErrorView>(Progress::NeedInput)
            &&& connection::front(conn.order, conn.input) is Bad ==> p.conn == conn && p.st == st
                && p.result == Err::<Progress, ErrorView>(ErrorView::BadHeader)
            &&& framed && callback == Some(sender) && opcode == 0 ==> p.conn == left && p.st == st
                && p.result == Ok::<Progress, ErrorView>(Progress::Done)
            &&& framed && !(callback == Some(sender) && opcode == 0) ==> match proto::event_of(
                conn.order,
                st,
                msg,
            ) {
                None => p.conn == left && p.st == st && p.result == Err::<Progress, ErrorView>(
                    ErrorView::Malformed,
                ),
                Some(event) => {
                    let done = proto::handled(left, st, event);
                    &&& p.conn == done.conn
                    &&& p.st == done.st
                    &&& done.result matches Ok(effect) ==> p.result == Ok::<Progress, ErrorView>(
                        Progress::Handled(effect),
                    )
                    &&& done.result matches Err(e) ==> p.result == Err::<Progress, ErrorView>(e)
                },
            }
            &&& st.finished ==> proto::serving(conn, st).conn == conn && proto::serving(conn, st).st
                == st && proto::serving(conn, st).result == Ok::<Progress, ErrorView>(
                Progress::Done,
            )
            &&& !st.finished ==> proto::serving(conn, st) == proto::pumped(conn, st, None)
        }),
{
    if 8 + args.len() <= 65535 && conn.input == connection::frame(conn.order, sender, opcode, args)
        + rest {
        connection::frame_roundtrip(conn.order, sender, opcode, args, rest);
    }
}

} // verus!
