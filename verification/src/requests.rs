//! What the requests say to whoever reads them.
//!
//! The laws read the packets that wait to be sent the way a compositor does:
//! they take the message out of the packet and its arguments out of the message,
//! and say which object is addressed, by which opcode, and which ids, names and
//! types are found. Opcodes and the ids of the protocol are written as numbers.

use crate::args::ArgsView;
use crate::args::Selection;
use crate::bytes;
use crate::bytes::ByteOrder;
use crate::connection;
use crate::connection::ConnectionView;
use crate::connection::Front;
use crate::connection::PacketView;
use crate::copy;
use crate::copy::CopyView;
use crate::error::ErrorView;
use crate::layout;
use crate::paste;
use crate::paste::PasteView;
use crate::proto;
use crate::proto::ManagerView;
use crate::proto::StateView;
use crate::wire;
use crate::wire::ArgView;
use crate::wire::MessageView;
use crate::wire::MsgView;
use vstd::prelude::*;

verus! {

broadcast use crate::bytes::word_len;

// Reading a packet.

/// The message in a packet that holds one and nothing behind it.
pub open spec fn message_in(order: ByteOrder, packet: PacketView) -> Option<MessageView> {
    match connection::front(order, packet.bytes) {
        Front::Event(msg, rest) => if rest.len() == 0 {
            Some(msg)
        } else {
            None
        },
        _ => None,
    }
}

/// A packet that says one word to an object.
pub open spec fn says_word(
    order: ByteOrder,
    packet: PacketView,
    to: u32,
    opcode: u16,
    word: u32,
) -> bool {
    &&& packet.fds.len() == 0
    &&& message_in(order, packet) matches Some(msg)
    &&& msg.sender == to
    &&& msg.opcode == opcode
    &&& ({
        let r = ArgView::start(order, msg.args);
        r.has_uint() && r.uint() == word && r.after_uint().pos == msg.args.len()
    })
}

/// A packet that says two words to an object.
pub open spec fn says_words(
    order: ByteOrder,
    packet: PacketView,
    to: u32,
    opcode: u16,
    first: u32,
    second: u32,
) -> bool {
    &&& packet.fds.len() == 0
    &&& message_in(order, packet) matches Some(msg)
    &&& msg.sender == to
    &&& msg.opcode == opcode
    &&& ({
        let r = ArgView::start(order, msg.args);
        &&& r.has_uint() && r.uint() == first
        &&& r.after_uint().has_uint() && r.after_uint().uint() == second
        &&& r.after_uint().after_uint().pos == msg.args.len()
    })
}

/// A packet that says a text to an object, and passes descriptors.
pub open spec fn says_text(
    order: ByteOrder,
    packet: PacketView,
    to: u32,
    opcode: u16,
    text: Seq<char>,
    fds: Seq<i32>,
) -> bool {
    &&& packet.fds == fds
    &&& message_in(order, packet) matches Some(msg)
    &&& msg.sender == to
    &&& msg.opcode == opcode
    &&& ({
        let r = ArgView::start(order, msg.args);
        r.has_string() && r.string() == Some(text) && r.after_string().pos == msg.args.len()
    })
}

/// A packet that binds a global: its name, interface and version, and the id
/// that it gets.
pub open spec fn says_bind(
    order: ByteOrder,
    packet: PacketView,
    registry: u32,
    name: u32,
    interface: Seq<char>,
    version: u32,
    id: u32,
) -> bool {
    &&& packet.fds.len() == 0
    &&& message_in(order, packet) matches Some(msg)
    &&& msg.sender == registry
    &&& msg.opcode == 0
    &&& ({
        let r = ArgView::start(order, msg.args);
        let behind_name = r.after_uint();
        let behind_interface = behind_name.after_string();
        let behind_version = behind_interface.after_uint();
        &&& r.has_uint() && r.uint() == name
        &&& behind_name.has_string() && behind_name.string() == Some(interface)
        &&& behind_interface.has_uint() && behind_interface.uint() == version
        &&& behind_version.has_uint() && behind_version.uint() == id
        &&& behind_version.after_uint().pos == msg.args.len()
    })
}

/// Whether a text is short enough for a message of its own.
pub open spec fn is_short(text: Seq<char>) -> bool {
    8 + wire::string_field(ByteOrder::Little, text).len() <= 65535
}

proof fn short_in_any_order(order: ByteOrder, text: Seq<char>)
    ensures
        wire::string_field(order, text).len() == wire::string_field(
            ByteOrder::Little,
            text,
        ).len(),
        wire::string_field(order, text).len() >= vstd::utf8::encode_utf8(text).len() + 5,
        wire::string_field(order, text).len() <= vstd::utf8::encode_utf8(text).len() + 8,
{
}

proof fn in_packet(msg: MsgView)
    requires
        8 + msg.body.len() <= 65535,
    ensures
        message_in(msg.order, connection::packet_of(msg)) == Some(
            MessageView { sender: msg.sender, opcode: msg.opcode, args: msg.body },
        ),
        connection::packet_of(msg).fds == msg.fds,
{
    layout::packets_hold_their_request(msg);
}

proof fn word_in_packet(order: ByteOrder, to: u32, opcode: u16, word: u32)
    ensures
        says_word(
            order,
            connection::packet_of(proto::request(order, to, opcode, bytes::word(order, word))),
            to,
            opcode,
            word,
        ),
{
    let body = bytes::word(order, word);
    in_packet(proto::request(order, to, opcode, body));
    wire::uint_roundtrip(order, Seq::empty(), word, Seq::empty());
    assert(Seq::<u8>::empty() + body + Seq::<u8>::empty() =~= body);
}

proof fn words_in_packet(order: ByteOrder, to: u32, opcode: u16, first: u32, second: u32)
    ensures
        says_words(
            order,
            connection::packet_of(
                proto::request(
                    order,
                    to,
                    opcode,
                    bytes::word(order, first) + bytes::word(order, second),
                ),
            ),
            to,
            opcode,
            first,
            second,
        ),
{
    let a = bytes::word(order, first);
    let b = bytes::word(order, second);
    in_packet(proto::request(order, to, opcode, a + b));
    wire::uint_roundtrip(order, Seq::empty(), first, b);
    assert(Seq::<u8>::empty() + a + b =~= a + b);
    wire::uint_roundtrip(order, a, second, Seq::empty());
    assert(a + b + Seq::<u8>::empty() =~= a + b);
}

proof fn text_in_packet(order: ByteOrder, to: u32, opcode: u16, text: Seq<char>, fds: Seq<i32>)
    requires
        is_short(text),
    ensures
        says_text(
            order,
            connection::packet_of(
                (MsgView {
                    order,
                    sender: to,
                    opcode,
                    body: wire::string_field(order, text),
                    fds,
                }),
            ),
            to,
            opcode,
            text,
            fds,
        ),
{
    let body = wire::string_field(order, text);
    short_in_any_order(order, text);
    in_packet(MsgView { order, sender: to, opcode, body, fds });
    wire::string_roundtrip(order, Seq::empty(), text, Seq::empty());
    assert(Seq::<u8>::empty() + body + Seq::<u8>::empty() =~= body);
    assert(Seq::<u8>::empty() + body =~= body);
}

// Single requests.

/// A sync goes to the display and names the callback that is to answer; it is
/// how a roundtrip begins.
pub proof fn sync_names_its_callback(order: ByteOrder, callback: u32)
    ensures
        says_word(order, connection::packet_of(proto::sync(order, callback)), 1, 0, callback),
{
    word_in_packet(order, 1, 0, callback);
}

/// The registry is asked of the display, under the id that it is to get.
pub proof fn the_registry_is_asked_for(order: ByteOrder, registry: u32)
    ensures
        says_word(
            order,
            connection::packet_of(proto::get_registry(order, registry)),
            1,
            1,
            registry,
        ),
{
    word_in_packet(order, 1, 1, registry);
}

/// A bind request names the global and the id that it is to get.
pub proof fn a_bind_names_its_global(
    order: ByteOrder,
    registry: u32,
    name: u32,
    interface: Seq<char>,
    version: u32,
    id: u32,
)
    requires
        vstd::utf8::encode_utf8(interface).len() <= 65000,
    ensures
        says_bind(
            order,
            connection::packet_of(proto::bind(order, registry, name, interface, version, id)),
            registry,
            name,
            interface,
            version,
            id,
        ),
{
    let a = bytes::word(order, name);
    let b = wire::string_field(order, interface);
    let c = bytes::word(order, version);
    let d = bytes::word(order, id);
    let body = a + b + c + d;
    short_in_any_order(order, interface);
    in_packet(proto::bind(order, registry, name, interface, version, id));
    wire::uint_roundtrip(order, Seq::empty(), name, b + c + d);
    assert(Seq::<u8>::empty() + a + (b + c + d) =~= body);
    assert(Seq::<u8>::empty() + a =~= a);
    wire::string_roundtrip(order, a, interface, c + d);
    assert(a + b + (c + d) =~= body);
    wire::uint_roundtrip(order, a + b, version, d);
    wire::uint_roundtrip(order, a + b + c, id, Seq::empty());
    assert(a + b + c + d + Seq::<u8>::empty() =~= body);
}

/// A device is asked of the manager, under the id that it is to get and for the
/// seat that is given.
pub proof fn a_device_is_asked_for(order: ByteOrder, manager: u32, device: u32, seat: u32)
    ensures
        says_words(
            order,
            connection::packet_of(proto::get_device(order, manager, device, seat)),
            manager,
            1,
            device,
            seat,
        ),
{
    words_in_packet(order, manager, 1, device, seat);
}

/// A source is asked of the manager, under the id that it is to get.
pub proof fn a_source_is_asked_for(order: ByteOrder, manager: u32, source: u32)
    ensures
        says_word(
            order,
            connection::packet_of(proto::create_source(order, manager, source)),
            manager,
            0,
            source,
        ),
{
    word_in_packet(order, manager, 0, source);
}

/// Each type is offered to the source in a message of its own, in order.
pub proof fn each_type_is_offered(order: ByteOrder, source: u32, mimes: Seq<Seq<char>>, i: int)
    requires
        0 <= i < mimes.len(),
        is_short(mimes[i]),
    ensures
        proto::source_offers(order, source, mimes).len() == mimes.len(),
        says_text(
            order,
            connection::packet_of(proto::source_offers(order, source, mimes)[i]),
            source,
            0,
            mimes[i],
            Seq::empty(),
        ),
{
    text_in_packet(order, source, 0, mimes[i], Seq::empty());
}

/// What is installed on the device is the source, as the primary selection or
/// as the regular one.
pub proof fn the_source_is_installed(order: ByteOrder, device: u32, source: u32, primary: bool)
    ensures
        says_word(
            order,
            connection::packet_of(proto::install_source(order, device, source, primary)),
            device,
            if primary {
                2
            } else {
                0
            },
            source,
        ),
{
    word_in_packet(
        order,
        device,
        if primary {
            2
        } else {
            0
        },
        source,
    );
}

/// The data is asked of the offer in the type that is given, and the one
/// descriptor that goes along is the one to write to.
pub proof fn the_type_is_requested(order: ByteOrder, offer: u32, mime: Seq<char>, fd: i32)
    requires
        is_short(mime),
    ensures
        says_text(
            order,
            connection::packet_of(proto::receive_offer(order, offer, mime, fd)),
            offer,
            0,
            mime,
            seq![fd],
        ),
{
    text_in_packet(order, offer, 0, mime, seq![fd]);
}

/// A type is requested unless it is too long for a message, and then nothing is
/// sent.
pub proof fn a_request_is_queued_if_it_fits(
    conn: ConnectionView,
    offer: u32,
    mime: Seq<char>,
    fd: i32,
)
    ensures
        ({
            let (after, fit) = conn.sent(proto::receive_offer(conn.order, offer, mime, fd));
            &&& fit <==> is_short(mime)
            &&& !fit ==> after == conn
            &&& fit ==> {
                &&& after == (ConnectionView { outbox: after.outbox, ..conn })
                &&& after.outbox.len() == conn.outbox.len() + 1
                &&& after.outbox.drop_last() == conn.outbox
                &&& says_text(conn.order, after.outbox.last(), offer, 0, mime, seq![fd])
            }
        }),
{
    short_in_any_order(conn.order, mime);
    let msg = proto::receive_offer(conn.order, offer, mime, fd);
    if is_short(mime) {
        the_type_is_requested(conn.order, offer, mime, fd);
        assert(conn.sent(msg).0.outbox.drop_last() =~= conn.outbox);
    }
}

// Binding.

/// Binding sends three requests and nothing else. The first gives an id to the
/// seat, the second one to the manager that was found, and the third asks that
/// manager for a device on that seat. What is remembered are the ids that were
/// sent; all three differ and are fresh.
pub proof fn binding_ties_the_objects_together(
    conn: ConnectionView,
    st: StateView,
    manager: ManagerView,
    seat: u32,
)
    requires
        conn.next_id + 3 <= u32::MAX,
        vstd::utf8::encode_utf8(manager.interface).len() <= 65000,
    ensures
        ({
            let (after, st_after) = proto::bound(conn, st, manager, seat);
            let n = conn.outbox.len() as int;
            let seat_id = conn.next_id;
            &&& after.outbox.len() == n + 3
            &&& after.outbox.take(n) == conn.outbox
            &&& says_bind(conn.order, after.outbox[n], st.registry_id, seat, "wl_seat"@, 1, seat_id)
            &&& says_bind(
                conn.order,
                after.outbox[n + 1],
                st.registry_id,
                manager.name,
                manager.interface,
                manager.version,
                st_after.manager_id,
            )
            &&& says_words(
                conn.order,
                after.outbox[n + 2],
                st_after.manager_id,
                1,
                st_after.device_id,
                seat_id,
            )
            &&& conn.next_id <= seat_id < st_after.manager_id < st_after.device_id < after.next_id
            &&& after.next_id == conn.next_id + 3
            &&& after == (ConnectionView {
                outbox: after.outbox,
                next_id: after.next_id,
                ..conn
            })
            &&& st_after == (StateView {
                manager_id: st_after.manager_id,
                device_id: st_after.device_id,
                ..st
            })
        }),
{
    let (after, st_after) = proto::bound(conn, st, manager, seat);
    reveal_strlit("wl_seat");
    vstd::utf8::is_ascii_chars_encode_utf8("wl_seat"@);
    a_bind_names_its_global(conn.order, st.registry_id, seat, "wl_seat"@, 1, conn.next_id);
    a_bind_names_its_global(
        conn.order,
        st.registry_id,
        manager.name,
        manager.interface,
        manager.version,
        (conn.next_id + 1) as u32,
    );
    a_device_is_asked_for(
        conn.order,
        (conn.next_id + 1) as u32,
        (conn.next_id + 2) as u32,
        conn.next_id,
    );
    assert(after.outbox.take(conn.outbox.len() as int) =~= conn.outbox);
}

// Installing.

/// Requests that all fit wait in line, in order.
pub proof fn fitting_requests_are_queued(conn: ConnectionView, msgs: Seq<MsgView>)
    requires
        forall|i: int| 0 <= i < msgs.len() ==> 8 + (#[trigger] msgs[i]).body.len() <= 65535,
    ensures
        proto::sent_all(conn, msgs).1,
        proto::sent_all(conn, msgs).0 == (ConnectionView {
            outbox: conn.outbox + Seq::new(
                msgs.len(),
                |i: int| connection::packet_of(msgs[i]),
            ),
            ..conn
        }),
    decreases msgs.len(),
{
    let packets = Seq::new(msgs.len(), |i: int| connection::packet_of(msgs[i]));
    if msgs.len() > 0 {
        let init = msgs.drop_last();
        assert forall|i: int| 0 <= i < init.len() implies 8 + (#[trigger] init[i]).body.len()
            <= 65535 by {
            assert(init[i] == msgs[i]);
        }
        fitting_requests_are_queued(conn, init);
        assert(8 + msgs[msgs.len() - 1].body.len() <= 65535);
        assert(proto::sent_all(conn, msgs).0.outbox =~= conn.outbox + packets);
    } else {
        assert(conn.outbox + packets =~= conn.outbox);
    }
}

/// Of a row of requests those before the first that is too large wait in line,
/// and none behind it.
pub proof fn nothing_follows_an_oversized_request(conn: ConnectionView, msgs: Seq<MsgView>, i: int)
    requires
        0 <= i < msgs.len(),
        8 + msgs[i].body.len() > 65535,
        forall|j: int| 0 <= j < i ==> 8 + (#[trigger] msgs[j]).body.len() <= 65535,
    ensures
        !proto::sent_all(conn, msgs).1,
        proto::sent_all(conn, msgs).0 == (ConnectionView {
            outbox: conn.outbox + Seq::new(i as nat, |j: int| connection::packet_of(msgs[j])),
            ..conn
        }),
    decreases msgs.len(),
{
    let init = msgs.drop_last();
    let packets = Seq::new(i as nat, |j: int| connection::packet_of(msgs[j]));
    assert forall|j: int| 0 <= j < i implies 8 + (#[trigger] init[j]).body.len() <= 65535 by {
        assert(init[j] == msgs[j]);
    }
    if i == msgs.len() - 1 {
        fitting_requests_are_queued(conn, init);
        assert(Seq::new(init.len(), |j: int| connection::packet_of(init[j])) =~= packets);
    } else {
        assert(init[i] == msgs[i]);
        nothing_follows_an_oversized_request(conn, init, i);
        assert(Seq::new(i as nat, |j: int| connection::packet_of(init[j])) =~= packets);
    }
}

/// Taking a selection sends four things: a source is asked of the manager, each
/// type is offered on that source, that same source is installed on the device,
/// and the display is asked to answer. The source has a fresh id.
pub proof fn selecting_installs_its_own_source(
    conn: ConnectionView,
    st: StateView,
    mimes: Seq<Seq<char>>,
    primary: bool,
)
    requires
        conn.next_id + 2 <= u32::MAX,
        forall|i: int| 0 <= i < mimes.len() ==> is_short(#[trigger] mimes[i]),
    ensures
        ({
            let (after, fit) = proto::selected(conn, st, mimes, primary);
            let n = conn.outbox.len() as int;
            let k = mimes.len() as int;
            let source = conn.next_id;
            &&& fit
            &&& after.outbox.len() == n + k + 3
            &&& after.outbox.take(n) == conn.outbox
            &&& says_word(conn.order, after.outbox[n], st.manager_id, 0, source)
            &&& forall|i: int|
                0 <= i < k ==> says_text(
                    conn.order,
                    after.outbox[n + 1 + i],
                    source,
                    0,
                    #[trigger] mimes[i],
                    Seq::empty(),
                )
            &&& says_word(
                conn.order,
                after.outbox[n + k + 1],
                st.device_id,
                if primary {
                    2
                } else {
                    0
                },
                source,
            )
            &&& says_word(conn.order, after.outbox[n + k + 2], 1, 0, (source + 1) as u32)
            &&& after == (ConnectionView {
                outbox: after.outbox,
                next_id: (conn.next_id + 2) as u32,
                ..conn
            })
        }),
{
    let order = conn.order;
    let source = conn.next_id;
    let n = conn.outbox.len() as int;
    let created = conn.allocated().queued(
        connection::packet_of(proto::create_source(order, st.manager_id, source)),
    );
    let offers = proto::source_offers(order, source, mimes);
    assert forall|i: int| 0 <= i < offers.len() implies 8 + (#[trigger] offers[i]).body.len()
        <= 65535 by {
        assert(is_short(mimes[i]));
        short_in_any_order(order, mimes[i]);
    }
    fitting_requests_are_queued(created, offers);
    a_source_is_asked_for(order, st.manager_id, source);
    the_source_is_installed(order, st.device_id, source, primary);
    sync_names_its_callback(order, (source + 1) as u32);
    let after = proto::selected(conn, st, mimes, primary).0;
    assert(after.outbox.take(n) =~= conn.outbox);
    assert forall|i: int| 0 <= i < mimes.len() implies says_text(
        order,
        after.outbox[n + 1 + i],
        source,
        0,
        #[trigger] mimes[i],
        Seq::empty(),
    ) by {
        each_type_is_offered(order, source, mimes, i);
        assert(after.outbox[n + 1 + i] == connection::packet_of(offers[i]));
    }
}

/// A type that is too long for a message keeps the selection from being taken:
/// the source is asked for and the types before are offered, but nothing is
/// installed.
pub proof fn an_oversized_type_is_not_offered(
    conn: ConnectionView,
    st: StateView,
    mimes: Seq<Seq<char>>,
    primary: bool,
    i: int,
)
    requires
        0 <= i < mimes.len(),
        !is_short(mimes[i]),
        forall|j: int| 0 <= j < i ==> is_short(#[trigger] mimes[j]),
    ensures
        !proto::selected(conn, st, mimes, primary).1,
        proto::selected(conn, st, mimes, primary).0.outbox.len() == conn.outbox.len() + 1 + i,
{
    let order = conn.order;
    let source = conn.next_id;
    let created = conn.allocated().queued(
        connection::packet_of(proto::create_source(order, st.manager_id, source)),
    );
    let offers = proto::source_offers(order, source, mimes);
    short_in_any_order(order, mimes[i]);
    assert forall|j: int| 0 <= j < i implies 8 + (#[trigger] offers[j]).body.len() <= 65535 by {
        assert(is_short(mimes[j]));
        short_in_any_order(order, mimes[j]);
    }
    nothing_follows_an_oversized_request(created, offers, i);
}

// Whole conversations.

/// A copy starts with what it was given: it serves exactly that data, as often
/// as the arguments say, as the types and on the selection that they name. Its
/// first two requests ask for the registry and for an answer; it waits for that
/// answer, and for nothing else.
pub proof fn a_copy_starts_with_what_it_was_given(
    conn: ConnectionView,
    args: ArgsView,
    data: Seq<u8>,
)
    requires
        conn.next_id + 2 <= u32::MAX,
    ensures
        ({
            let c = copy::copy_started(conn, args, data);
            let n = conn.outbox.len() as int;
            &&& c.data == data
            &&& c.st.data == data
            &&& c.loops == args.loops
            &&& c.st.loops == args.loops
            &&& c.st.served == 0
            &&& !c.st.finished && !c.st.cancelled
            &&& c.foreground == args.foreground
            &&& c.primary <==> args.selection == Selection::Primary
            &&& args.target matches Some(t) ==> c.mimes == seq![t]
            &&& args.target is None ==> c.mimes == seq![
                "text/plain;charset=utf-8"@,
                "text/plain"@,
                "TEXT"@,
                "STRING"@,
                "UTF8_STRING"@,
            ]
            &&& c.st.manager is None && c.st.seat_global is None
            &&& c.st.device_id == 0 && c.st.source_id == 0 && c.st.manager_id == 0
            &&& c.st.offers == Map::<u32, Seq<Seq<char>>>::empty()
            &&& c.st.selection is None && c.st.primary_selection is None
            &&& c.conn.outbox.len() == n + 2
            &&& c.conn.outbox.take(n) == conn.outbox
            &&& says_word(conn.order, c.conn.outbox[n], 1, 1, c.st.registry_id)
            &&& c.stage matches copy::Stage::Globals(rt) && says_word(
                conn.order,
                c.conn.outbox[n + 1],
                1,
                0,
                rt.callback,
            ) && conn.next_id <= c.st.registry_id < rt.callback < c.conn.next_id
            &&& c.conn.input == conn.input && c.conn.fds == conn.fds && c.conn.order == conn.order
        }),
{
    the_registry_is_asked_for(conn.order, conn.next_id);
    sync_names_its_callback(conn.order, (conn.next_id + 1) as u32);
    let c = copy::copy_started(conn, args, data);
    assert(args.target is None ==> c.mimes =~= seq![
        "text/plain;charset=utf-8"@,
        "text/plain"@,
        "TEXT"@,
        "STRING"@,
        "UTF8_STRING"@,
    ]);
    assert(c.conn.outbox.take(conn.outbox.len() as int) =~= conn.outbox);
}

/// A paste starts with what it was given, and with the same two requests.
pub proof fn a_paste_starts_with_what_it_was_given(conn: ConnectionView, args: ArgsView)
    requires
        conn.next_id + 2 <= u32::MAX,
    ensures
        ({
            let p = paste::paste_started(conn, args);
            let n = conn.outbox.len() as int;
            &&& p.target == args.target
            &&& p.rmlastnl == args.rmlastnl
            &&& p.primary <==> args.selection == Selection::Primary
            &&& p.st.manager is None && p.st.seat_global is None
            &&& p.st.device_id == 0 && p.st.source_id == 0 && p.st.manager_id == 0
            &&& p.st.offers == Map::<u32, Seq<Seq<char>>>::empty()
            &&& p.st.selection is None && p.st.primary_selection is None
            &&& p.conn.outbox.len() == n + 2
            &&& p.conn.outbox.take(n) == conn.outbox
            &&& says_word(conn.order, p.conn.outbox[n], 1, 1, p.st.registry_id)
            &&& p.stage matches paste::StageView::Globals(rt) && says_word(
                conn.order,
                p.conn.outbox[n + 1],
                1,
                0,
                rt.callback,
            ) && conn.next_id <= p.st.registry_id < rt.callback < p.conn.next_id
            &&& p.conn.input == conn.input && p.conn.fds == conn.fds && p.conn.order == conn.order
        }),
{
    the_registry_is_asked_for(conn.order, conn.next_id);
    sync_names_its_callback(conn.order, (conn.next_id + 1) as u32);
    let p = paste::paste_started(conn, args);
    assert(p.conn.outbox.take(conn.outbox.len() as int) =~= conn.outbox);
}

/// Once the globals are known, a copy binds them and takes its selection: what
/// it sends are the three requests of binding, a source asked of the manager
/// that was bound, each of its types offered on that source, and that source
/// installed on the device that was asked for. It then waits for the answer
/// that it asked for last, with its data untouched.
pub proof fn a_copy_installs_its_source(c: CopyView, manager: ManagerView, seat: u32)
    requires
        c.st.manager == Some(manager),
        c.st.seat_global == Some(seat),
        c.primary ==> c.st.primary_supported(),
        c.conn.next_id + 5 <= u32::MAX,
        vstd::utf8::encode_utf8(manager.interface).len() <= 65000,
        forall|i: int| 0 <= i < c.mimes.len() ==> is_short(#[trigger] c.mimes[i]),
    ensures
        ({
            let end = c.install().copy;
            let order = c.conn.order;
            let n = c.conn.outbox.len() as int;
            let k = c.mimes.len() as int;
            let seat_id = c.conn.next_id;
            let out = end.conn.outbox;
            &&& c.install().result == Ok::<copy::Step, ErrorView>(copy::Step::Continue)
            &&& out.len() == n + k + 6
            &&& out.take(n) == c.conn.outbox
            &&& says_bind(order, out[n], c.st.registry_id, seat, "wl_seat"@, 1, seat_id)
            &&& says_bind(
                order,
                out[n + 1],
                c.st.registry_id,
                manager.name,
                manager.interface,
                manager.version,
                end.st.manager_id,
            )
            &&& says_words(order, out[n + 2], end.st.manager_id, 1, end.st.device_id, seat_id)
            &&& says_word(order, out[n + 3], end.st.manager_id, 0, end.st.source_id)
            &&& forall|i: int|
                0 <= i < k ==> says_text(
                    order,
                    out[n + 4 + i],
                    end.st.source_id,
                    0,
                    #[trigger] c.mimes[i],
                    Seq::empty(),
                )
            &&& says_word(
                order,
                out[n + 4 + k],
                end.st.device_id,
                if c.primary {
                    2
                } else {
                    0
                },
                end.st.source_id,
            )
            &&& end.stage matches copy::Stage::Installing(rt) && says_word(
                order,
                out[n + 5 + k],
                1,
                0,
                rt.callback,
            ) && end.st.source_id < rt.callback
            &&& c.conn.next_id <= seat_id < end.st.manager_id < end.st.device_id
                < end.st.source_id
            &&& end.data == c.data && end.st.data == c.st.data
            &&& end.loops == c.loops && end.st.loops == c.st.loops
            &&& end.foreground == c.foreground && end.primary == c.primary
        }),
{
    let (conn, st) = proto::bound(c.conn, c.st, manager, seat);
    binding_ties_the_objects_together(c.conn, c.st, manager, seat);
    selecting_installs_its_own_source(conn, st, c.mimes, c.primary);
    let out = c.install().copy.conn.outbox;
    let n = c.conn.outbox.len() as int;
    assert(out.take(n + 3) == conn.outbox);
    assert(out[n] == out.take(n + 3)[n]);
    assert(out[n + 1] == out.take(n + 3)[n + 1]);
    assert(out[n + 2] == out.take(n + 3)[n + 2]);
    assert(out.take(n) =~= conn.outbox.take(n));
}

/// Once the globals are known, a paste binds them and asks for an answer, by
/// which it will know the offers.
pub proof fn a_paste_binds_its_device(p: PasteView, manager: ManagerView, seat: u32)
    requires
        p.st.manager == Some(manager),
        p.st.seat_global == Some(seat),
        p.primary ==> p.st.primary_supported(),
        p.conn.next_id + 4 <= u32::MAX,
        vstd::utf8::encode_utf8(manager.interface).len() <= 65000,
    ensures
        ({
            let end = p.bind().paste;
            let order = p.conn.order;
            let n = p.conn.outbox.len() as int;
            let seat_id = p.conn.next_id;
            let out = end.conn.outbox;
            &&& p.bind().result == Ok::<paste::StepView, ErrorView>(paste::StepView::Continue)
            &&& out.len() == n + 4
            &&& out.take(n) == p.conn.outbox
            &&& says_bind(order, out[n], p.st.registry_id, seat, "wl_seat"@, 1, seat_id)
            &&& says_bind(
                order,
                out[n + 1],
                p.st.registry_id,
                manager.name,
                manager.interface,
                manager.version,
                end.st.manager_id,
            )
            &&& says_words(order, out[n + 2], end.st.manager_id, 1, end.st.device_id, seat_id)
            &&& end.stage matches paste::StageView::Offers(rt) && says_word(
                order,
                out[n + 3],
                1,
                0,
                rt.callback,
            ) && end.st.device_id < rt.callback
            &&& end.target == p.target && end.primary == p.primary && end.rmlastnl == p.rmlastnl
            &&& end.st == (StateView {
                manager_id: end.st.manager_id,
                device_id: end.st.device_id,
                ..p.st
            })
        }),
{
    let (conn, st) = proto::bound(p.conn, p.st, manager, seat);
    binding_ties_the_objects_together(p.conn, p.st, manager, seat);
    sync_names_its_callback(conn.order, conn.next_id);
    let out = p.bind().paste.conn.outbox;
    let n = p.conn.outbox.len() as int;
    assert(out.take(n) =~= conn.outbox.take(n));
}

} // verus!
