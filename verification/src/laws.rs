//! What holds of the client as a whole.

use crate::args;
use crate::args::ArgsView;
use crate::args::Selection;
use crate::bytes;
use crate::bytes::ByteOrder;
use crate::connection;
use crate::connection::ConnectionView;
use crate::connection::Front;
use crate::copy;
use crate::copy::CopyView;
use crate::error::ErrorView;
use crate::paste;
use crate::paste::PasteView;
use crate::proto;
use crate::proto::Effect;
use crate::proto::EventView;
use crate::proto::ManagerView;
use crate::proto::Progress;
use crate::proto::StateView;
use crate::text;
use crate::wire;
use crate::wire::ArgView;
use crate::wire::MessageView;
use vstd::prelude::*;

verus! {

broadcast use crate::bytes::word_len;

// Globals.

/// A registry global.
pub struct Global {
    pub name: u32,
    pub interface: Seq<char>,
    pub version: u32,
}

/// The state once a row of globals was recorded.
pub open spec fn with_globals(st: StateView, globals: Seq<Global>) -> StateView
    decreases globals.len(),
{
    if globals.len() == 0 {
        st
    } else {
        let g = globals.last();
        with_globals(st, globals.drop_last()).with_global(g.name, g.interface, g.version)
    }
}

/// The manager that a global amounts to.
pub open spec fn manager_in(g: Global) -> Option<ManagerView> {
    proto::manager_of(g.name, g.interface, g.version)
}

/// Whether a global is an ext manager.
pub open spec fn is_ext(g: Global) -> bool {
    g.interface == proto::EXT_MANAGER@
}

/// Whether a global is a wlr manager.
pub open spec fn is_wlr(g: Global) -> bool {
    g.interface == proto::WLR_MANAGER@
}

/// Whether a global is a seat.
pub open spec fn is_seat(g: Global) -> bool {
    g.interface == proto::SEAT@
}

proof fn interfaces_differ()
    ensures
        proto::EXT_MANAGER@ != proto::WLR_MANAGER@,
        proto::EXT_MANAGER@ != proto::SEAT@,
        proto::WLR_MANAGER@ != proto::SEAT@,
{
    reveal_strlit("wl_seat");
    reveal_strlit("ext_data_control_manager_v1");
    reveal_strlit("zwlr_data_control_manager_v1");
    assert(proto::SEAT@.len() == 7);
    assert(proto::EXT_MANAGER@.len() == 27);
    assert(proto::WLR_MANAGER@.len() == 28);
}

/// Without an ext manager, none of its rank is recorded.
proof fn rank_without_ext(st: StateView, globals: Seq<Global>)
    requires
        st.manager is None,
        forall|i: int| 0 <= i < globals.len() ==> !is_ext(#[trigger] globals[i]),
    ensures
        with_globals(st, globals).manager matches Some(m) ==> m.rank == 1,
    decreases globals.len(),
{
    if globals.len() > 0 {
        assert forall|i: int| 0 <= i < globals.len() - 1 implies !is_ext(
            #[trigger] globals.drop_last()[i],
        ) by {
            assert(globals.drop_last()[i] == globals[i]);
        }
        rank_without_ext(st, globals.drop_last());
        assert(!is_ext(globals[globals.len() - 1]));
    }
}

/// `ext-data-control` is preferred: if it is advertised at all, the first such
/// manager is the one that is used, whatever else is advertised before or
/// after.
pub proof fn ext_is_preferred(st: StateView, globals: Seq<Global>, i: int)
    requires
        st.manager is None,
        0 <= i < globals.len(),
        is_ext(globals[i]),
        forall|j: int| 0 <= j < i ==> !is_ext(#[trigger] globals[j]),
    ensures
        with_globals(st, globals).manager == manager_in(globals[i]),
        with_globals(st, globals).primary_supported(),
    decreases globals.len(),
{
    interfaces_differ();
    let init = globals.drop_last();
    if i == globals.len() - 1 {
        assert forall|j: int| 0 <= j < init.len() implies !is_ext(#[trigger] init[j]) by {
            assert(init[j] == globals[j]);
        }
        rank_without_ext(st, init);
    } else {
        assert(init[i] == globals[i]);
        assert forall|j: int| 0 <= j < i implies !is_ext(#[trigger] init[j]) by {
            assert(init[j] == globals[j]);
        }
        ext_is_preferred(st, init, i);
    }
}

/// `wlr-data-control` is the fallback: where no ext manager is advertised, the
/// first wlr manager is used; it has the primary selection from version 2 on.
pub proof fn wlr_is_the_fallback(st: StateView, globals: Seq<Global>, i: int)
    requires
        st.manager is None,
        0 <= i < globals.len(),
        is_wlr(globals[i]),
        forall|j: int| 0 <= j < i ==> !is_wlr(#[trigger] globals[j]),
        forall|j: int| 0 <= j < globals.len() ==> !is_ext(#[trigger] globals[j]),
    ensures
        with_globals(st, globals).manager == manager_in(globals[i]),
        with_globals(st, globals).primary_supported() == (globals[i].version >= 2),
    decreases globals.len(),
{
    interfaces_differ();
    let init = globals.drop_last();
    assert(!is_ext(globals[globals.len() - 1]));
    assert forall|j: int| 0 <= j < init.len() implies !is_ext(#[trigger] init[j]) by {
        assert(init[j] == globals[j]);
    }
    assert forall|j: int| 0 <= j < i implies !is_wlr(#[trigger] init[j]) by {
        assert(init[j] == globals[j]);
    }
    if i == globals.len() - 1 {
        no_manager_without_one(st, init);
    } else {
        assert(init[i] == globals[i]);
        wlr_is_the_fallback(st, init, i);
    }
}

/// Where neither is advertised, there is no manager, and no primary selection.
pub proof fn no_manager_without_one(st: StateView, globals: Seq<Global>)
    requires
        st.manager is None,
        forall|j: int|
            0 <= j < globals.len() ==> !is_ext(#[trigger] globals[j]) && !is_wlr(globals[j]),
    ensures
        with_globals(st, globals).manager is None,
        !with_globals(st, globals).primary_supported(),
    decreases globals.len(),
{
    if globals.len() > 0 {
        let init = globals.drop_last();
        assert forall|j: int| 0 <= j < init.len() implies !is_ext(#[trigger] init[j]) && !is_wlr(
            init[j],
        ) by {
            assert(init[j] == globals[j]);
        }
        no_manager_without_one(st, init);
        assert(!is_ext(globals[globals.len() - 1]));
    }
}

/// The first seat that is advertised is the one that is used.
pub proof fn first_seat_is_used(st: StateView, globals: Seq<Global>, i: int)
    requires
        st.seat_global is None,
        0 <= i < globals.len(),
        is_seat(globals[i]),
        forall|j: int| 0 <= j < i ==> !is_seat(#[trigger] globals[j]),
    ensures
        with_globals(st, globals).seat_global == Some(globals[i].name),
    decreases globals.len(),
{
    let init = globals.drop_last();
    assert forall|j: int| 0 <= j < i implies !is_seat(#[trigger] init[j]) by {
        assert(init[j] == globals[j]);
    }
    if i == globals.len() - 1 {
        no_seat_without_one(st, init);
    } else {
        assert(init[i] == globals[i]);
        first_seat_is_used(st, init, i);
    }
}

/// Where no seat is advertised, there is none.
pub proof fn no_seat_without_one(st: StateView, globals: Seq<Global>)
    requires
        st.seat_global is None,
        forall|j: int| 0 <= j < globals.len() ==> !is_seat(#[trigger] globals[j]),
    ensures
        with_globals(st, globals).seat_global is None,
    decreases globals.len(),
{
    if globals.len() > 0 {
        let init = globals.drop_last();
        assert forall|j: int| 0 <= j < init.len() implies !is_seat(#[trigger] init[j]) by {
            assert(init[j] == globals[j]);
        }
        no_seat_without_one(st, init);
        assert(!is_seat(globals[globals.len() - 1]));
    }
}

// Events.

/// The state after a row of events.
pub open spec fn after_all(st: StateView, events: Seq<EventView>) -> StateView
    decreases events.len(),
{
    if events.len() == 0 {
        st
    } else {
        after_all(st, events.drop_last()).after(events.last())
    }
}

/// How many paste requests are among the events.
pub open spec fn pastes(events: Seq<EventView>) -> nat
    decreases events.len(),
{
    if events.len() == 0 {
        0
    } else {
        pastes(events.drop_last()) + if events.last() is PasteRequest {
            1nat
        } else {
            0nat
        }
    }
}

/// Whether one of the events ends the service by itself: the selection is
/// taken over, or the device is gone.
pub open spec fn ends(events: Seq<EventView>) -> bool
    decreases events.len(),
{
    events.len() > 0 && (ends(events.drop_last()) || events.last() is Cancelled
        || events.last() is DeviceFinished)
}

/// A loop count of N is reached with the N-th paste request and not before;
/// apart from that only the loss of the selection ends the service.
pub proof fn serves_n_then_stops(st: StateView, events: Seq<EventView>)
    requires
        st.loops != 0,
        !st.finished,
        st.served + pastes(events) <= u32::MAX,
    ensures
        after_all(st, events).loops == st.loops,
        after_all(st, events).served == st.served + pastes(events),
        after_all(st, events).finished == (ends(events) || (pastes(events) > 0 && st.served
            + pastes(events) >= st.loops)),
    decreases events.len(),
{
    if events.len() > 0 {
        serves_n_then_stops(st, events.drop_last());
    }
}

/// A loop count of zero is no limit: only the loss of the selection ends the
/// service.
pub proof fn serves_without_limit(st: StateView, events: Seq<EventView>)
    requires
        st.loops == 0,
        !st.finished,
    ensures
        after_all(st, events).loops == 0,
        after_all(st, events).finished == ends(events),
    decreases events.len(),
{
    if events.len() > 0 {
        serves_without_limit(st, events.drop_last());
    }
}

/// The data that is served stays what it was, whatever happens.
pub proof fn served_data_stays(st: StateView, events: Seq<EventView>)
    ensures
        after_all(st, events).data == st.data,
    decreases events.len(),
{
    if events.len() > 0 {
        served_data_stays(st, events.drop_last());
    }
}

/// A selection that was taken over is not served any more.
pub proof fn cancelled_is_finished(st: StateView, events: Seq<EventView>)
    requires
        st.cancelled ==> st.finished,
    ensures
        after_all(st, events).cancelled ==> after_all(st, events).finished,
    decreases events.len(),
{
    if events.len() > 0 {
        cancelled_is_finished(st, events.drop_last());
    }
}

/// Once the service is over, it stays over.
pub proof fn finished_stays(st: StateView, events: Seq<EventView>)
    requires
        st.finished,
    ensures
        after_all(st, events).finished,
    decreases events.len(),
{
    if events.len() > 0 {
        finished_stays(st, events.drop_last());
    }
}

/// A new offer followed by its types.
pub open spec fn offering(offer: u32, mimes: Seq<Seq<char>>) -> Seq<EventView> {
    seq![EventView::NewOffer(offer)] + Seq::new(
        mimes.len(),
        |i: int| EventView::Mime { offer, mime: mimes[i] },
    )
}

/// An offer has the types that were advertised for it, in that order; the
/// other offers keep theirs.
pub proof fn offer_keeps_its_types(st: StateView, offer: u32, mimes: Seq<Seq<char>>, other: u32)
    ensures
        after_all(st, offering(offer, mimes)).offer_mimes(offer) == mimes,
        other != offer ==> after_all(st, offering(offer, mimes)).offer_mimes(other)
            == st.offer_mimes(other),
    decreases mimes.len(),
{
    let events = offering(offer, mimes);
    if mimes.len() == 0 {
        assert(events.drop_last() =~= Seq::empty());
        assert(events.last() == EventView::NewOffer(offer));
        assert(after_all(st, events.drop_last()) == st);
        assert(mimes =~= Seq::empty());
    } else {
        assert(events.drop_last() =~= offering(offer, mimes.drop_last()));
        assert(events.last() == EventView::Mime { offer, mime: mimes.last() });
        offer_keeps_its_types(st, offer, mimes.drop_last(), other);
        assert(mimes.drop_last().push(mimes.last()) =~= mimes);
    }
}

/// What was announced last is the selection; an announcement of no offer
/// empties it.
pub proof fn last_selection_counts(st: StateView, events: Seq<EventView>, id: u32)
    ensures
        after_all(st, events.push(EventView::Selection(id))).selection == (if id == 0 {
            None::<u32>
        } else {
            Some(id)
        }),
        after_all(st, events.push(EventView::PrimarySelection(id))).primary_selection == (if id
            == 0 {
            None::<u32>
        } else {
            Some(id)
        }),
{
    assert(events.push(EventView::Selection(id)).drop_last() =~= events);
    assert(events.push(EventView::PrimarySelection(id)).drop_last() =~= events);
}

// The event loop.

/// Handling an event queues no request and gives away no object id.
pub proof fn events_send_nothing(conn: ConnectionView, st: StateView, callback: Option<u32>)
    ensures
        proto::pumped(conn, st, callback).conn.outbox == conn.outbox,
        proto::pumped(conn, st, callback).conn.next_id == conn.next_id,
        proto::pumped(conn, st, callback).conn.order == conn.order,
{
}

/// A roundtrip ends with the `done` of its own callback and with nothing else.
pub proof fn roundtrip_ends_with_its_callback(conn: ConnectionView, st: StateView, callback: u32)
    ensures
        proto::pumped(conn, st, Some(callback)).result == Ok::<Progress, ErrorView>(Progress::Done)
            <==> (connection::front(conn.order, conn.input) matches Front::Event(msg, _)
            && msg.sender == callback && msg.opcode == proto::CALLBACK_DONE),
{
}

/// Serving ends when the state says so, and with nothing else.
pub proof fn serving_ends_when_finished(conn: ConnectionView, st: StateView)
    ensures
        proto::serving(conn, st).result == Ok::<Progress, ErrorView>(Progress::Done)
            <==> st.finished,
{
}

/// Data is delivered to the oldest descriptor that came in, each descriptor is
/// used once, and only for an installed source.
pub proof fn delivers_to_the_oldest_descriptor(
    conn: ConnectionView,
    st: StateView,
    callback: Option<u32>,
    fd: i32,
)
    requires
        proto::pumped(conn, st, callback).result == Ok::<Progress, ErrorView>(
            Progress::Handled(Effect::Deliver(fd)),
        ),
    ensures
        st.source_id != 0,
        conn.fds.len() > 0,
        fd == conn.fds[0],
        proto::pumped(conn, st, callback).conn.fds == conn.fds.skip(1),
{
}

/// A paste request without a descriptor delivers nothing, and counts.
pub proof fn request_without_descriptor_counts(conn: ConnectionView, st: StateView)
    requires
        conn.fds.len() == 0,
    ensures
        proto::handled(conn, st, EventView::PasteRequest).result == Ok::<Effect, ErrorView>(
            Effect::Nothing,
        ),
        proto::handled(conn, st, EventView::PasteRequest).st == st.after_paste(),
{
}

/// The bytes of a row of messages.
pub open spec fn stream(order: ByteOrder, msgs: Seq<MessageView>) -> Seq<u8>
    decreases msgs.len(),
{
    if msgs.len() == 0 {
        Seq::empty()
    } else {
        connection::frame(order, msgs[0].sender, msgs[0].opcode, msgs[0].args) + stream(
            order,
            msgs.skip(1),
        )
    }
}

/// Whether a message fits a frame, can be read, and reports no error.
pub open spec fn sound(order: ByteOrder, st: StateView, msg: MessageView) -> bool {
    &&& 8 + msg.args.len() <= 0xffff
    &&& proto::event_of(order, st, msg) matches Some(event) && !(event is Fault)
}

/// Whether each message in turn is sound in the state that it meets.
pub open spec fn all_sound(order: ByteOrder, st: StateView, msgs: Seq<MessageView>) -> bool
    decreases msgs.len(),
{
    msgs.len() > 0 ==> sound(order, st, msgs[0]) && all_sound(
        order,
        after_message(order, st, msgs[0]),
        msgs.skip(1),
    )
}

/// The state after a message.
pub open spec fn after_message(order: ByteOrder, st: StateView, msg: MessageView) -> StateView {
    st.after(proto::event_of(order, st, msg).unwrap())
}

/// The state after a row of messages.
pub open spec fn after_messages(order: ByteOrder, st: StateView, msgs: Seq<MessageView>) -> StateView
    decreases msgs.len(),
{
    if msgs.len() == 0 {
        st
    } else {
        after_messages(order, after_message(order, st, msgs[0]), msgs.skip(1))
    }
}

/// Where a roundtrip comes to rest over the bytes that are there.
pub open spec fn until_callback(conn: ConnectionView, st: StateView, callback: u32) -> proto::Pumped
    decreases conn.input.len(),
{
    let p = proto::pumped(conn, st, Some(callback));
    if p.result matches Ok(Progress::Handled(_)) {
        until_callback(p.conn, p.st, callback)
    } else {
        p
    }
}

/// Where serving comes to rest over the bytes that are there.
pub open spec fn until_finished(conn: ConnectionView, st: StateView) -> proto::Pumped
    decreases conn.input.len(),
{
    let p = proto::serving(conn, st);
    if p.result matches Ok(Progress::Handled(_)) {
        until_finished(p.conn, p.st)
    } else {
        p
    }
}

/// One step takes one message off the stream and does what it means.
proof fn step_takes_one_message(
    conn: ConnectionView,
    st: StateView,
    callback: Option<u32>,
    msgs: Seq<MessageView>,
    rest: Seq<u8>,
)
    requires
        msgs.len() > 0,
        conn.input == stream(conn.order, msgs) + rest,
        sound(conn.order, st, msgs[0]),
        !(callback == Some(msgs[0].sender) && msgs[0].opcode == proto::CALLBACK_DONE),
    ensures
        ({
            let p = proto::pumped(conn, st, callback);
            &&& p.result matches Ok(Progress::Handled(_))
            &&& p.st == after_message(conn.order, st, msgs[0])
            &&& p.st.source_id == st.source_id
            &&& p.conn == (ConnectionView {
                input: stream(conn.order, msgs.skip(1)) + rest,
                fds: p.conn.fds,
                ..conn
            })
            &&& st.source_id == 0 ==> p.conn.fds == conn.fds
        }),
{
    let msg = msgs[0];
    let behind = stream(conn.order, msgs.skip(1)) + rest;
    connection::frame_roundtrip(conn.order, msg.sender, msg.opcode, msg.args, behind);
    assert(connection::frame(conn.order, msg.sender, msg.opcode, msg.args) + behind
        =~= conn.input);
}

/// A roundtrip handles every event that precedes its callback, in order, and
/// none behind it. Nothing is sent meanwhile, and no descriptor is used unless
/// there is a source.
pub proof fn roundtrip_handles_what_precedes(
    conn: ConnectionView,
    st: StateView,
    callback: u32,
    msgs: Seq<MessageView>,
    serial: Seq<u8>,
    rest: Seq<u8>,
)
    requires
        all_sound(conn.order, st, msgs),
        forall|i: int|
            0 <= i < msgs.len() ==> !((#[trigger] msgs[i]).sender == callback && msgs[i].opcode
                == proto::CALLBACK_DONE),
        8 + serial.len() <= 0xffff,
        conn.input == stream(conn.order, msgs) + (connection::frame(
            conn.order,
            callback,
            proto::CALLBACK_DONE,
            serial,
        ) + rest),
    ensures
        until_callback(conn, st, callback).result == Ok::<Progress, ErrorView>(Progress::Done),
        until_callback(conn, st, callback).st == after_messages(conn.order, st, msgs),
        until_callback(conn, st, callback).conn == (ConnectionView {
            input: rest,
            fds: until_callback(conn, st, callback).conn.fds,
            ..conn
        }),
        st.source_id == 0 ==> until_callback(conn, st, callback).conn.fds == conn.fds,
    decreases msgs.len(),
{
    let done = connection::frame(conn.order, callback, proto::CALLBACK_DONE, serial) + rest;
    if msgs.len() == 0 {
        connection::frame_roundtrip(conn.order, callback, proto::CALLBACK_DONE, serial, rest);
        assert(conn.input =~= done);
    } else {
        assert(!(msgs[0].sender == callback && msgs[0].opcode == proto::CALLBACK_DONE));
        step_takes_one_message(conn, st, Some(callback), msgs, done);
        let p = proto::pumped(conn, st, Some(callback));
        assert forall|i: int| 0 <= i < msgs.skip(1).len() implies !((
        #[trigger] msgs.skip(1)[i]).sender == callback && msgs.skip(1)[i].opcode
            == proto::CALLBACK_DONE) by {
            assert(msgs.skip(1)[i] == msgs[i + 1]);
        }
        assert(p.conn.input.len() < conn.input.len());
        roundtrip_handles_what_precedes(p.conn, p.st, callback, msgs.skip(1), serial, rest);
    }
}

/// Serving handles every event up to the one that ends the service, in order,
/// and none behind it.
pub proof fn serving_handles_until_the_end(
    conn: ConnectionView,
    st: StateView,
    msgs: Seq<MessageView>,
    rest: Seq<u8>,
)
    requires
        all_sound(conn.order, st, msgs),
        forall|i: int|
            0 <= i < msgs.len() ==> !(#[trigger] after_messages(
                conn.order,
                st,
                msgs.take(i),
            )).finished,
        after_messages(conn.order, st, msgs).finished,
        conn.input == stream(conn.order, msgs) + rest,
    ensures
        until_finished(conn, st).result == Ok::<Progress, ErrorView>(Progress::Done),
        until_finished(conn, st).st == after_messages(conn.order, st, msgs),
        until_finished(conn, st).conn.input == rest,
    decreases msgs.len(),
{
    if msgs.len() == 0 {
        assert(conn.input =~= rest);
    } else {
        assert(msgs.take(0).len() == 0);
        assert(!after_messages(conn.order, st, msgs.take(0)).finished);
        step_takes_one_message(conn, st, None, msgs, rest);
        let p = proto::serving(conn, st);
        let tail = msgs.skip(1);
        assert forall|i: int| 0 <= i < tail.len() implies !(#[trigger] after_messages(
            conn.order,
            p.st,
            tail.take(i),
        )).finished by {
            assert(!after_messages(conn.order, st, msgs.take(i + 1)).finished);
            assert(msgs.take(i + 1)[0] == msgs[0]);
            assert(msgs.take(i + 1).skip(1) =~= tail.take(i));
        }
        assert(p.conn.input.len() < conn.input.len());
        serving_handles_until_the_end(p.conn, p.st, tail, rest);
    }
}

// What is written is read back.

/// A global that a compositor announces is understood.
pub proof fn global_is_understood(
    order: ByteOrder,
    st: StateView,
    name: u32,
    interface: Seq<char>,
    version: u32,
)
    requires
        st.registry_id != wire::DISPLAY_ID,
        vstd::utf8::encode_utf8(interface).len() + 1 <= u32::MAX,
    ensures
        proto::event_of(
            order,
            st,
            MessageView {
                sender: st.registry_id,
                opcode: proto::REGISTRY_GLOBAL,
                args: bytes::word(order, name) + wire::string_field(order, interface)
                    + bytes::word(order, version),
            },
        ) == Some(EventView::Global { name, interface, version }),
{
    let a = bytes::word(order, name);
    let b = wire::string_field(order, interface);
    let c = bytes::word(order, version);
    let args = a + b + c;
    wire::uint_roundtrip(order, Seq::empty(), name, b + c);
    assert(Seq::<u8>::empty() + a + (b + c) =~= args);
    wire::string_roundtrip(order, a, interface, c);
    wire::uint_roundtrip(order, a + b, version, Seq::empty());
    assert(a + b + c + Seq::<u8>::empty() =~= args);
    assert(Seq::<u8>::empty() + a =~= a);
}

/// A type that an offer advertises is understood.
pub proof fn mime_is_understood(order: ByteOrder, st: StateView, offer: u32, mime: Seq<char>)
    requires
        st.offers.contains_key(offer),
        offer != wire::DISPLAY_ID,
        offer != st.registry_id,
        offer != st.device_id,
        offer != st.source_id,
        vstd::utf8::encode_utf8(mime).len() + 1 <= u32::MAX,
    ensures
        proto::event_of(
            order,
            st,
            MessageView {
                sender: offer,
                opcode: proto::OFFER_OFFER,
                args: wire::string_field(order, mime),
            },
        ) == Some(EventView::Mime { offer, mime }),
{
    let a = wire::string_field(order, mime);
    wire::string_roundtrip(order, Seq::empty(), mime, Seq::empty());
    assert(Seq::<u8>::empty() + a + Seq::<u8>::empty() =~= a);
}

/// What the device announces is understood.
pub proof fn device_is_understood(order: ByteOrder, st: StateView, id: u32)
    requires
        st.has_device(),
    ensures
        ({
            let msg = |opcode: u16|
                MessageView { sender: st.device_id, opcode, args: bytes::word(order, id) };
            &&& proto::event_of(order, st, msg(proto::DEVICE_DATA_OFFER)) == Some(
                EventView::NewOffer(id),
            )
            &&& proto::event_of(order, st, msg(proto::DEVICE_SELECTION)) == Some(
                EventView::Selection(id),
            )
            &&& proto::event_of(order, st, msg(proto::DEVICE_PRIMARY_SELECTION)) == Some(
                EventView::PrimarySelection(id),
            )
        }),
{
    let a = bytes::word(order, id);
    wire::uint_roundtrip(order, Seq::empty(), id, Seq::empty());
    assert(Seq::<u8>::empty() + a + Seq::<u8>::empty() =~= a);
}

/// A bind request is read back as name, interface, version and id.
pub proof fn bind_is_read_back(
    order: ByteOrder,
    registry: u32,
    name: u32,
    interface: Seq<char>,
    version: u32,
    id: u32,
)
    requires
        vstd::utf8::encode_utf8(interface).len() + 1 <= u32::MAX,
    ensures
        ({
            let r = ArgView::start(
                order,
                proto::bind(order, registry, name, interface, version, id).body,
            );
            &&& r.has_uint() && r.uint() == name
            &&& r.after_uint().has_string() && r.after_uint().string() == Some(interface)
            &&& r.after_uint().after_string().has_uint()
            &&& r.after_uint().after_string().uint() == version
            &&& r.after_uint().after_string().after_uint().has_uint()
            &&& r.after_uint().after_string().after_uint().uint() == id
        }),
{
    let a = bytes::word(order, name);
    let b = wire::string_field(order, interface);
    let c = bytes::word(order, version);
    let d = bytes::word(order, id);
    let body = a + b + c + d;
    wire::uint_roundtrip(order, Seq::empty(), name, b + c + d);
    assert(Seq::<u8>::empty() + a + (b + c + d) =~= body);
    wire::string_roundtrip(order, a, interface, c + d);
    assert(a + b + (c + d) =~= body);
    wire::uint_roundtrip(order, a + b, version, d);
    wire::uint_roundtrip(order, a + b + c, id, Seq::empty());
    assert(a + b + c + d + Seq::<u8>::empty() =~= body);
}

// The conversation as a whole.

/// Whether a message fits a frame.
pub open spec fn fits(msg: MessageView) -> bool {
    8 + msg.args.len() <= 0xffff
}

/// The state after two rows of messages.
proof fn after_both(order: ByteOrder, st: StateView, a: Seq<MessageView>, b: Seq<MessageView>)
    ensures
        after_messages(order, st, a + b) == after_messages(order, after_messages(order, st, a), b),
        all_sound(order, st, a) && all_sound(order, after_messages(order, st, a), b) ==> all_sound(
            order,
            st,
            a + b,
        ),
    decreases a.len(),
{
    if a.len() == 0 {
        assert(a + b =~= b);
    } else {
        assert((a + b)[0] == a[0]);
        assert((a + b).skip(1) =~= a.skip(1) + b);
        after_both(order, after_message(order, st, a[0]), a.skip(1), b);
    }
}

/// The messages by which a compositor announces globals.
pub open spec fn global_messages(
    order: ByteOrder,
    registry: u32,
    globals: Seq<Global>,
) -> Seq<MessageView> {
    Seq::new(
        globals.len(),
        |i: int|
            MessageView {
                sender: registry,
                opcode: proto::REGISTRY_GLOBAL,
                args: bytes::word(order, globals[i].name) + wire::string_field(
                    order,
                    globals[i].interface,
                ) + bytes::word(order, globals[i].version),
            },
    )
}

proof fn with_globals_from_the_front(st: StateView, globals: Seq<Global>)
    requires
        globals.len() > 0,
    ensures
        with_globals(st, globals) == with_globals(
            st.with_global(globals[0].name, globals[0].interface, globals[0].version),
            globals.skip(1),
        ),
    decreases globals.len(),
{
    let g = globals[0];
    let next = st.with_global(g.name, g.interface, g.version);
    if globals.len() == 1 {
        assert(with_globals(st, globals.drop_last()) == st);
        assert(with_globals(next, globals.skip(1)) == next);
    } else {
        with_globals_from_the_front(st, globals.drop_last());
        assert(globals.drop_last().skip(1) =~= globals.skip(1).drop_last());
    }
}

proof fn global_messages_are_sound(order: ByteOrder, st: StateView, globals: Seq<Global>)
    requires
        st.registry_id != wire::DISPLAY_ID,
        forall|i: int|
            0 <= i < globals.len() ==> fits(
                #[trigger] global_messages(order, st.registry_id, globals)[i],
            ),
    ensures
        all_sound(order, st, global_messages(order, st.registry_id, globals)),
        after_messages(order, st, global_messages(order, st.registry_id, globals)) == with_globals(
            st,
            globals,
        ),
    decreases globals.len(),
{
    let msgs = global_messages(order, st.registry_id, globals);
    if globals.len() > 0 {
        let g = globals[0];
        let next = st.with_global(g.name, g.interface, g.version);
        let tail = global_messages(order, st.registry_id, globals.skip(1));
        assert(fits(msgs[0]));
        global_is_understood(order, st, g.name, g.interface, g.version);
        assert(msgs.skip(1) =~= tail);
        assert forall|i: int| 0 <= i < globals.skip(1).len() implies fits(#[trigger] tail[i]) by {
            assert(tail[i] == msgs[i + 1]);
        }
        global_messages_are_sound(order, next, globals.skip(1));
        with_globals_from_the_front(st, globals);
    }
}

/// The globals that a compositor announces before it answers a roundtrip are
/// recorded when the roundtrip ends, in the order in which they came.
pub proof fn announced_globals_are_recorded(
    conn: ConnectionView,
    st: StateView,
    callback: u32,
    globals: Seq<Global>,
    serial: Seq<u8>,
    rest: Seq<u8>,
)
    requires
        st.registry_id != wire::DISPLAY_ID,
        st.registry_id != callback,
        forall|i: int|
            0 <= i < globals.len() ==> fits(
                #[trigger] global_messages(conn.order, st.registry_id, globals)[i],
            ),
        8 + serial.len() <= 0xffff,
        conn.input == stream(conn.order, global_messages(conn.order, st.registry_id, globals)) + (
        connection::frame(conn.order, callback, proto::CALLBACK_DONE, serial) + rest),
    ensures
        until_callback(conn, st, callback).result == Ok::<Progress, ErrorView>(Progress::Done),
        until_callback(conn, st, callback).st == with_globals(st, globals),
        until_callback(conn, st, callback).conn.input == rest,
        st.source_id == 0 ==> until_callback(conn, st, callback).conn == (ConnectionView {
            input: rest,
            ..conn
        }),
{
    global_messages_are_sound(conn.order, st, globals);
    roundtrip_handles_what_precedes(
        conn,
        st,
        callback,
        global_messages(conn.order, st.registry_id, globals),
        serial,
        rest,
    );
}

/// Whether a row of messages holds no `done` of the callback.
pub open spec fn without_callback(msgs: Seq<MessageView>, callback: u32) -> bool {
    forall|i: int|
        0 <= i < msgs.len() ==> !((#[trigger] msgs[i]).sender == callback && msgs[i].opcode
            == proto::CALLBACK_DONE)
}

/// Where a paste comes to rest while it waits for the globals, or leaves for
/// the next stage.
pub open spec fn paste_globals_run(p: PasteView) -> paste::Stepped
    decreases p.conn.input.len(),
{
    let s = p.stepped();
    if p.stage is Globals && s.paste.stage is Globals && s.result == Ok::<
        paste::StepView,
        ErrorView,
    >(paste::StepView::Continue) {
        paste_globals_run(s.paste)
    } else {
        s
    }
}

/// Where a copy comes to rest while it waits for the globals, or leaves for the
/// next stage.
pub open spec fn copy_globals_run(c: CopyView) -> copy::Stepped
    decreases c.conn.input.len(),
{
    let s = c.stepped();
    if c.stage is Globals && s.copy.stage is Globals && s.result == Ok::<copy::Step, ErrorView>(
        copy::Step::Continue,
    ) {
        copy_globals_run(s.copy)
    } else {
        s
    }
}

proof fn paste_globals_run_binds(p: PasteView, rt: proto::Roundtrip)
    requires
        p.stage == paste::StageView::Globals(rt),
        until_callback(p.conn, p.st, rt.callback).result == Ok::<Progress, ErrorView>(
            Progress::Done,
        ),
    ensures
        ({
            let end = until_callback(p.conn, p.st, rt.callback);
            paste_globals_run(p) == PasteView { conn: end.conn, st: end.st, ..p }.bind()
        }),
    decreases p.conn.input.len(),
{
    let done = proto::pumped(p.conn, p.st, Some(rt.callback));
    if done.result matches Ok(Progress::Handled(_)) {
        let next = p.stepped().paste;
        assert(next.conn.input.len() < p.conn.input.len());
        paste_globals_run_binds(next, rt);
    }
}

proof fn copy_globals_run_installs(c: CopyView, rt: proto::Roundtrip)
    requires
        c.stage == copy::Stage::Globals(rt),
        c.st.source_id == 0,
        until_callback(c.conn, c.st, rt.callback).result == Ok::<Progress, ErrorView>(
            Progress::Done,
        ),
    ensures
        ({
            let end = until_callback(c.conn, c.st, rt.callback);
            copy_globals_run(c) == CopyView { conn: end.conn, st: end.st, ..c }.install()
        }),
    decreases c.conn.input.len(),
{
    let done = proto::pumped(c.conn, c.st, Some(rt.callback));
    if done.result matches Ok(Progress::Handled(_)) {
        let next = c.stepped().copy;
        assert(next.conn.input.len() < c.conn.input.len());
        copy_globals_run_installs(next, rt);
    }
}

/// A paste handles what comes before the answer to its first roundtrip, and
/// then binds among the globals that are known by that.
pub proof fn paste_binds_after_its_roundtrip(
    p: PasteView,
    rt: proto::Roundtrip,
    msgs: Seq<MessageView>,
    serial: Seq<u8>,
    rest: Seq<u8>,
)
    requires
        p.wf(),
        p.stage == paste::StageView::Globals(rt),
        all_sound(p.conn.order, p.st, msgs),
        without_callback(msgs, rt.callback),
        8 + serial.len() <= 0xffff,
        p.conn.input == stream(p.conn.order, msgs) + (connection::frame(
            p.conn.order,
            rt.callback,
            proto::CALLBACK_DONE,
            serial,
        ) + rest),
    ensures
        paste_globals_run(p) == (PasteView {
            conn: ConnectionView { input: rest, ..p.conn },
            st: after_messages(p.conn.order, p.st, msgs),
            ..p
        }).bind(),
{
    roundtrip_handles_what_precedes(p.conn, p.st, rt.callback, msgs, serial, rest);
    paste_globals_run_binds(p, rt);
}

/// A copy handles what comes before the answer to its first roundtrip, and then
/// binds and installs among the globals that are known by that.
pub proof fn copy_installs_after_its_roundtrip(
    c: CopyView,
    rt: proto::Roundtrip,
    msgs: Seq<MessageView>,
    serial: Seq<u8>,
    rest: Seq<u8>,
)
    requires
        c.wf(),
        c.stage == copy::Stage::Globals(rt),
        all_sound(c.conn.order, c.st, msgs),
        without_callback(msgs, rt.callback),
        8 + serial.len() <= 0xffff,
        c.conn.input == stream(c.conn.order, msgs) + (connection::frame(
            c.conn.order,
            rt.callback,
            proto::CALLBACK_DONE,
            serial,
        ) + rest),
    ensures
        copy_globals_run(c) == (CopyView {
            conn: ConnectionView { input: rest, ..c.conn },
            st: after_messages(c.conn.order, c.st, msgs),
            ..c
        }).install(),
{
    roundtrip_handles_what_precedes(c.conn, c.st, rt.callback, msgs, serial, rest);
    copy_globals_run_installs(c, rt);
}

/// What a compositor sends that announces globals and then answers a roundtrip.
pub open spec fn announcement(
    order: ByteOrder,
    registry: u32,
    globals: Seq<Global>,
    callback: u32,
    serial: Seq<u8>,
) -> Seq<u8> {
    stream(order, global_messages(order, registry, globals)) + connection::frame(
        order,
        callback,
        proto::CALLBACK_DONE,
        serial,
    )
}

/// A paste from its start: once its first requests were sent and the compositor
/// has announced its globals, it binds the seat and the manager among them.
pub proof fn paste_binds_what_is_announced(
    conn: ConnectionView,
    args: ArgsView,
    globals: Seq<Global>,
    serial: Seq<u8>,
)
    requires
        wire::DISPLAY_ID < conn.next_id,
        conn.next_id + 6 <= u32::MAX,
        forall|i: int|
            0 <= i < globals.len() ==> fits(
                #[trigger] global_messages(conn.order, conn.next_id, globals)[i],
            ),
        8 + serial.len() <= 0xffff,
    ensures
        ({
            let p = paste::paste_started(conn, args);
            let idle = ConnectionView { input: Seq::empty(), outbox: Seq::empty(), ..p.conn };
            let input = announcement(
                conn.order,
                conn.next_id,
                globals,
                (conn.next_id + 1) as u32,
                serial,
            );
            paste_globals_run(PasteView { conn: ConnectionView { input, ..idle }, ..p })
                == PasteView { conn: idle, st: with_globals(p.st, globals), ..p }.bind()
        }),
{
    let s = paste::paste_started(conn, args);
    let rt = proto::Roundtrip { callback: (conn.next_id + 1) as u32 };
    let idle = ConnectionView { input: Seq::empty(), outbox: Seq::empty(), ..s.conn };
    let input = announcement(conn.order, conn.next_id, globals, rt.callback, serial);
    let p = PasteView { conn: ConnectionView { input, ..idle }, ..s };
    let msgs = global_messages(conn.order, conn.next_id, globals);
    global_messages_are_sound(conn.order, s.st, globals);
    assert(input =~= stream(conn.order, msgs) + (connection::frame(
        conn.order,
        rt.callback,
        proto::CALLBACK_DONE,
        serial,
    ) + Seq::<u8>::empty()));
    paste_binds_after_its_roundtrip(p, rt, msgs, serial, Seq::empty());
}

/// A copy from its start: once its first requests were sent and the compositor
/// has announced its globals, it binds the seat and the manager among them and
/// installs its selection.
pub proof fn copy_installs_what_is_announced(
    conn: ConnectionView,
    args: ArgsView,
    data: Seq<u8>,
    globals: Seq<Global>,
    serial: Seq<u8>,
)
    requires
        wire::DISPLAY_ID < conn.next_id,
        conn.next_id + 7 <= u32::MAX,
        forall|i: int|
            0 <= i < globals.len() ==> fits(
                #[trigger] global_messages(conn.order, conn.next_id, globals)[i],
            ),
        8 + serial.len() <= 0xffff,
    ensures
        ({
            let c = copy::copy_started(conn, args, data);
            let idle = ConnectionView { input: Seq::empty(), outbox: Seq::empty(), ..c.conn };
            let input = announcement(
                conn.order,
                conn.next_id,
                globals,
                (conn.next_id + 1) as u32,
                serial,
            );
            copy_globals_run(CopyView { conn: ConnectionView { input, ..idle }, ..c })
                == CopyView { conn: idle, st: with_globals(c.st, globals), ..c }.install()
        }),
{
    let s = copy::copy_started(conn, args, data);
    let rt = proto::Roundtrip { callback: (conn.next_id + 1) as u32 };
    let idle = ConnectionView { input: Seq::empty(), outbox: Seq::empty(), ..s.conn };
    let input = announcement(conn.order, conn.next_id, globals, rt.callback, serial);
    let c = CopyView { conn: ConnectionView { input, ..idle }, ..s };
    let msgs = global_messages(conn.order, conn.next_id, globals);
    global_messages_are_sound(conn.order, s.st, globals);
    assert(input =~= stream(conn.order, msgs) + (connection::frame(
        conn.order,
        rt.callback,
        proto::CALLBACK_DONE,
        serial,
    ) + Seq::<u8>::empty()));
    copy_installs_after_its_roundtrip(c, rt, msgs, serial, Seq::empty());
}

/// The messages by which an offer advertises its types.
pub open spec fn mime_messages(
    order: ByteOrder,
    offer: u32,
    mimes: Seq<Seq<char>>,
) -> Seq<MessageView> {
    Seq::new(
        mimes.len(),
        |i: int|
            MessageView {
                sender: offer,
                opcode: proto::OFFER_OFFER,
                args: wire::string_field(order, mimes[i]),
            },
    )
}

/// The messages by which a device announces an offer as its selection.
pub open spec fn selection_messages(
    order: ByteOrder,
    device: u32,
    offer: u32,
    mimes: Seq<Seq<char>>,
    primary: bool,
) -> Seq<MessageView> {
    let args = bytes::word(order, offer);
    seq![MessageView { sender: device, opcode: proto::DEVICE_DATA_OFFER, args }] + mime_messages(
        order,
        offer,
        mimes,
    ) + seq![
        MessageView {
            sender: device,
            opcode: if primary {
                proto::DEVICE_PRIMARY_SELECTION
            } else {
                proto::DEVICE_SELECTION
            },
            args,
        },
    ]
}

/// Whether an object id is none that the client uses for something else.
pub open spec fn is_offer_id(st: StateView, offer: u32) -> bool {
    &&& offer != 0
    &&& offer != wire::DISPLAY_ID
    &&& offer != st.registry_id
    &&& offer != st.device_id
    &&& offer != st.source_id
}

proof fn mime_messages_are_sound(
    order: ByteOrder,
    st: StateView,
    offer: u32,
    mimes: Seq<Seq<char>>,
)
    requires
        is_offer_id(st, offer),
        st.offers.contains_key(offer),
        forall|i: int|
            0 <= i < mimes.len() ==> fits(#[trigger] mime_messages(order, offer, mimes)[i]),
    ensures
        all_sound(order, st, mime_messages(order, offer, mimes)),
        after_messages(order, st, mime_messages(order, offer, mimes)) == (StateView {
            offers: st.offers.insert(offer, st.offers[offer] + mimes),
            ..st
        }),
    decreases mimes.len(),
{
    let msgs = mime_messages(order, offer, mimes);
    let all = st.offers.insert(offer, st.offers[offer] + mimes);
    if mimes.len() == 0 {
        assert(st.offers[offer] + mimes =~= st.offers[offer]);
        assert(all =~= st.offers);
    } else {
        let next = st.after(EventView::Mime { offer, mime: mimes[0] });
        let tail = mime_messages(order, offer, mimes.skip(1));
        assert(fits(msgs[0]));
        mime_is_understood(order, st, offer, mimes[0]);
        assert(msgs.skip(1) =~= tail);
        assert forall|i: int| 0 <= i < mimes.skip(1).len() implies fits(#[trigger] tail[i]) by {
            assert(tail[i] == msgs[i + 1]);
        }
        mime_messages_are_sound(order, next, offer, mimes.skip(1));
        assert(next.offers[offer] + mimes.skip(1) =~= st.offers[offer] + mimes);
        assert(next.offers.insert(offer, next.offers[offer] + mimes.skip(1)) =~= all);
    }
}

proof fn selection_messages_are_sound(
    order: ByteOrder,
    st: StateView,
    offer: u32,
    mimes: Seq<Seq<char>>,
    primary: bool,
)
    requires
        st.has_device(),
        is_offer_id(st, offer),
        forall|i: int|
            0 <= i < mimes.len() ==> fits(#[trigger] mime_messages(order, offer, mimes)[i]),
    ensures
        all_sound(order, st, selection_messages(order, st.device_id, offer, mimes, primary)),
        ({
            let after = after_messages(
                order,
                st,
                selection_messages(order, st.device_id, offer, mimes, primary),
            );
            &&& after.offer_mimes(offer) == mimes
            &&& primary ==> after.primary_selection == Some(offer)
            &&& !primary ==> after.selection == Some(offer)
        }),
{
    let all = selection_messages(order, st.device_id, offer, mimes, primary);
    let head = seq![all[0]];
    let middle = mime_messages(order, offer, mimes);
    let last = seq![all.last()];
    assert(all =~= head + middle + last);

    device_is_understood(order, st, offer);
    let announced = st.after(EventView::NewOffer(offer));
    assert(head[0].args == bytes::word(order, offer));
    assert(after_message(order, st, head[0]) == announced);
    assert(head.skip(1).len() == 0);
    assert(after_messages(order, announced, head.skip(1)) == announced);
    assert(all_sound(order, announced, head.skip(1)));
    assert(after_messages(order, st, head) == announced);

    mime_messages_are_sound(order, announced, offer, mimes);
    assert(announced.offers[offer] + mimes =~= mimes);
    let typed = after_messages(order, announced, middle);
    after_both(order, st, head, middle);

    device_is_understood(order, typed, offer);
    assert(last[0].args == bytes::word(order, offer));
    assert(last.skip(1).len() == 0);
    let done = after_message(order, typed, last[0]);
    assert(after_messages(order, done, last.skip(1)) == done);
    assert(all_sound(order, done, last.skip(1)));
    after_both(order, st, head + middle, last);
}

/// Where a paste comes to rest while it waits for the offers.
pub open spec fn offers_run(p: PasteView) -> paste::Stepped
    decreases p.conn.input.len(),
{
    let s = p.stepped();
    if p.stage is Offers && s.result == Ok::<paste::StepView, ErrorView>(paste::StepView::Continue) {
        offers_run(s.paste)
    } else {
        s
    }
}

proof fn offers_run_chooses(p: PasteView, rt: proto::Roundtrip)
    requires
        p.stage == paste::StageView::Offers(rt),
        until_callback(p.conn, p.st, rt.callback).result == Ok::<Progress, ErrorView>(
            Progress::Done,
        ),
    ensures
        ({
            let end = until_callback(p.conn, p.st, rt.callback);
            offers_run(p) == PasteView { conn: end.conn, st: end.st, ..p }.choose_type()
        }),
    decreases p.conn.input.len(),
{
    let done = proto::pumped(p.conn, p.st, Some(rt.callback));
    if done.result matches Ok(Progress::Handled(_)) {
        let next = p.stepped().paste;
        assert(next.conn.input.len() < p.conn.input.len());
        offers_run_chooses(next, rt);
    }
}

/// A paste handles what comes before the answer to its second roundtrip, in
/// whatever order offers and selections are announced, and then chooses from
/// what is known by that.
pub proof fn paste_chooses_after_its_roundtrip(
    p: PasteView,
    rt: proto::Roundtrip,
    msgs: Seq<MessageView>,
    serial: Seq<u8>,
    rest: Seq<u8>,
)
    requires
        p.wf(),
        p.stage == paste::StageView::Offers(rt),
        all_sound(p.conn.order, p.st, msgs),
        without_callback(msgs, rt.callback),
        8 + serial.len() <= 0xffff,
        p.conn.input == stream(p.conn.order, msgs) + (connection::frame(
            p.conn.order,
            rt.callback,
            proto::CALLBACK_DONE,
            serial,
        ) + rest),
    ensures
        offers_run(p) == (PasteView {
            conn: ConnectionView { input: rest, ..p.conn },
            st: after_messages(p.conn.order, p.st, msgs),
            ..p
        }).choose_type(),
{
    roundtrip_handles_what_precedes(p.conn, p.st, rt.callback, msgs, serial, rest);
    offers_run_chooses(p, rt);
}

/// What the compositor announces as the selection is what a paste lists or
/// requests: `TARGETS` lists the announced types, else the best of them is
/// requested from the announced offer, and where none will do, the paste is
/// refused.
pub proof fn paste_takes_what_is_announced(
    p: PasteView,
    rt: proto::Roundtrip,
    offer: u32,
    mimes: Seq<Seq<char>>,
    serial: Seq<u8>,
    rest: Seq<u8>,
)
    requires
        p.wf(),
        p.stage == paste::StageView::Offers(rt),
        is_offer_id(p.st, offer),
        offer != rt.callback,
        forall|i: int|
            0 <= i < mimes.len() ==> fits(#[trigger] mime_messages(p.conn.order, offer, mimes)[i]),
        8 + serial.len() <= 0xffff,
        p.conn.input == stream(
            p.conn.order,
            selection_messages(p.conn.order, p.st.device_id, offer, mimes, p.primary),
        ) + (connection::frame(p.conn.order, rt.callback, proto::CALLBACK_DONE, serial) + rest),
    ensures
        p.target == Some(paste::TARGETS@) ==> offers_run(p).result == Ok::<
            paste::StepView,
            ErrorView,
        >(paste::StepView::Print(paste::listing(mimes))),
        p.target != Some(paste::TARGETS@) ==> match paste::picked(p.target, mimes) {
            Some(mime) => {
                &&& offers_run(p).result == Ok::<paste::StepView, ErrorView>(
                    paste::StepView::OpenPipe,
                )
                &&& offers_run(p).paste.stage == (paste::StageView::Pipe { offer, mime })
            },
            None => offers_run(p).result == Err::<paste::StepView, ErrorView>(
                match p.target {
                    Some(t) => ErrorView::NoTarget(t),
                    None => ErrorView::NoData,
                },
            ),
        },
{
    let msgs = selection_messages(p.conn.order, p.st.device_id, offer, mimes, p.primary);
    selection_messages_are_sound(p.conn.order, p.st, offer, mimes, p.primary);
    assert forall|i: int| 0 <= i < msgs.len() implies !((#[trigger] msgs[i]).sender == rt.callback
        && msgs[i].opcode == proto::CALLBACK_DONE) by {
        assert(msgs[i].sender == p.st.device_id || msgs[i].sender == offer);
    }
    paste_chooses_after_its_roundtrip(p, rt, msgs, serial, rest);
}

/// The messages by which clients ask a source for its data.
pub open spec fn request_messages(
    order: ByteOrder,
    source: u32,
    mimes: Seq<Seq<char>>,
) -> Seq<MessageView> {
    Seq::new(
        mimes.len(),
        |i: int|
            MessageView {
                sender: source,
                opcode: proto::SOURCE_SEND,
                args: wire::string_field(order, mimes[i]),
            },
    )
}

/// Whether a copy has a source that clients can paste from.
pub open spec fn can_serve(c: CopyView) -> bool {
    c.stage is Installing || c.stage is Serving
}

/// What a copy writes to which descriptor from the moment its source exists,
/// and where it comes to rest.
#[verifier::opaque]
pub open spec fn serve_run(c: CopyView) -> (Seq<(i32, Seq<u8>)>, copy::Stepped)
    decreases c.conn.input.len(),
{
    let s = c.stepped();
    if can_serve(c) {
        match s.result {
            Ok(copy::Step::Deliver(fd)) => {
                let (later, end) = serve_run(s.copy);
                (seq![(fd, s.copy.st.data)] + later, end)
            },
            Ok(copy::Step::Continue) | Ok(copy::Step::Detach) => serve_run(s.copy),
            _ => (Seq::empty(), s),
        }
    } else {
        (Seq::empty(), s)
    }
}

/// How many of `n` requests are answered.
pub open spec fn answered(c: CopyView, n: nat) -> nat {
    if c.loops == 0 || c.st.served + n < c.loops {
        n
    } else {
        (c.loops - c.st.served) as nat
    }
}

/// The step at which a copy rests once `n` requests came.
pub open spec fn rest_after(c: CopyView, n: nat) -> copy::Step {
    if c.loops != 0 && c.st.served + n >= c.loops {
        copy::Step::Done
    } else {
        copy::Step::Receive
    }
}

/// The copy once one paste request was answered.
pub open spec fn after_request(c: CopyView, rest: Seq<u8>) -> CopyView {
    CopyView {
        conn: ConnectionView { input: rest, fds: c.conn.fds.skip(1), ..c.conn },
        st: c.st.after_paste(),
        ..c
    }
}

/// One paste request is answered.
proof fn request_is_answered(c: CopyView, mime: Seq<char>, rest: Seq<u8>)
    requires
        c.wf(),
        can_serve(c),
        !c.st.finished,
        c.conn.fds.len() > 0,
        8 + wire::string_field(c.conn.order, mime).len() <= 0xffff,
        c.conn.input == connection::frame(
            c.conn.order,
            c.st.source_id,
            proto::SOURCE_SEND,
            wire::string_field(c.conn.order, mime),
        ) + rest,
    ensures
        ({
            let (later, end) = serve_run(after_request(c, rest));
            serve_run(c) == (seq![(c.conn.fds[0], c.data)] + later, end)
        }),
        after_request(c, rest).wf(),
        after_request(c, rest).st.finished == after_request(c, rest).st.limit_reached(),
{
    let args = wire::string_field(c.conn.order, mime);
    wire::string_roundtrip(c.conn.order, Seq::empty(), mime, Seq::empty());
    assert(Seq::<u8>::empty() + args + Seq::<u8>::empty() =~= args);
    connection::frame_roundtrip(c.conn.order, c.st.source_id, proto::SOURCE_SEND, args, rest);
    assert(c.stepped().copy == after_request(c, rest));
    reveal(serve_run);
}

/// Whether the service of a copy is over.
pub open spec fn service_over(c: CopyView) -> bool {
    if c.stage is Serving {
        c.st.finished
    } else {
        c.st.limit_reached()
    }
}

/// A copy rests where its service is over, or where no bytes are left.
proof fn service_rests(c: CopyView)
    requires
        can_serve(c),
        service_over(c) || c.conn.input.len() == 0,
    ensures
        serve_run(c).0 == Seq::<(i32, Seq<u8>)>::empty(),
        serve_run(c).1.result == Ok::<copy::Step, ErrorView>(
            if service_over(c) {
                copy::Step::Done
            } else {
                copy::Step::Receive
            },
        ),
{
    reveal(serve_run);
}

/// Every paste request is answered, in order, each over the descriptor that
/// came with it, with the data that was given to copy, whether the selection
/// is being installed or is served already. With a loop count of N this goes
/// on until N requests were answered, and then the copy is over; with a count
/// of zero it goes on as long as requests come.
pub proof fn requests_are_answered(c: CopyView, mimes: Seq<Seq<char>>)
    requires
        c.wf(),
        can_serve(c),
        !c.st.finished,
        mimes.len() <= c.conn.fds.len(),
        forall|i: int|
            0 <= i < mimes.len() ==> fits(
                #[trigger] request_messages(c.conn.order, c.st.source_id, mimes)[i],
            ),
        c.conn.input == stream(
            c.conn.order,
            request_messages(c.conn.order, c.st.source_id, mimes),
        ),
    ensures
        ({
            let (written, end) = serve_run(c);
            &&& written == Seq::new(
                answered(c, mimes.len()),
                |i: int| (c.conn.fds[i], c.data),
            )
            &&& end.result == Ok::<copy::Step, ErrorView>(rest_after(c, mimes.len()))
        }),
    decreases mimes.len(),
{
    let order = c.conn.order;
    let msgs = request_messages(order, c.st.source_id, mimes);
    let expected = Seq::new(answered(c, mimes.len()), |i: int| (c.conn.fds[i], c.data));
    if mimes.len() == 0 {
        service_rests(c);
    } else {
        let tail = request_messages(order, c.st.source_id, mimes.skip(1));
        let next = after_request(c, stream(order, tail));
        assert(fits(msgs[0]));
        assert(msgs.skip(1) =~= tail);
        request_is_answered(c, mimes[0], stream(order, tail));
        if next.st.finished {
            service_rests(next);
        } else {
            assert forall|i: int| 0 <= i < mimes.skip(1).len() implies fits(
                #[trigger] tail[i],
            ) by {
                assert(tail[i] == msgs[i + 1]);
            }
            requests_are_answered(next, mimes.skip(1));
        }
    }
    assert(serve_run(c).0 =~= expected);
}

/// With the callback of its roundtrip a copy goes over to serving, unless
/// another client has taken the selection over.
proof fn callback_ends_installing(
    c: CopyView,
    rt: proto::Roundtrip,
    serial: Seq<u8>,
    rest: Seq<u8>,
)
    requires
        c.stage == copy::Stage::Installing(rt),
        !c.st.limit_reached(),
        8 + serial.len() <= 0xffff,
        c.conn.input == connection::frame(
            c.conn.order,
            rt.callback,
            proto::CALLBACK_DONE,
            serial,
        ) + rest,
    ensures
        c.st.cancelled ==> serve_run(c).0 == Seq::<(i32, Seq<u8>)>::empty() && serve_run(
            c,
        ).1.result == Ok::<copy::Step, ErrorView>(copy::Step::Done),
        !c.st.cancelled ==> serve_run(c) == serve_run(
            (CopyView {
                conn: ConnectionView { input: rest, ..c.conn },
                stage: copy::Stage::Serving,
                ..c
            }),
        ),
{
    connection::frame_roundtrip(c.conn.order, rt.callback, proto::CALLBACK_DONE, serial, rest);
    reveal(serve_run);
}

/// It makes no difference to a paste request whether it comes before or after
/// the callback that ends the installation: either way it is answered with the
/// data that was given to copy, and either way it counts.
pub proof fn early_requests_are_answered_too(
    c: CopyView,
    rt: proto::Roundtrip,
    early: Seq<Seq<char>>,
    late: Seq<Seq<char>>,
    serial: Seq<u8>,
)
    requires
        c.wf(),
        c.stage == copy::Stage::Installing(rt),
        !c.st.finished,
        early.len() + late.len() <= c.conn.fds.len(),
        forall|i: int|
            0 <= i < early.len() ==> fits(
                #[trigger] request_messages(c.conn.order, c.st.source_id, early)[i],
            ),
        forall|i: int|
            0 <= i < late.len() ==> fits(
                #[trigger] request_messages(c.conn.order, c.st.source_id, late)[i],
            ),
        8 + serial.len() <= 0xffff,
        c.conn.input == stream(
            c.conn.order,
            request_messages(c.conn.order, c.st.source_id, early),
        ) + (connection::frame(c.conn.order, rt.callback, proto::CALLBACK_DONE, serial) + stream(
            c.conn.order,
            request_messages(c.conn.order, c.st.source_id, late),
        )),
    ensures
        ({
            let (written, end) = serve_run(c);
            &&& written == Seq::new(
                answered(c, early.len() + late.len()),
                |i: int| (c.conn.fds[i], c.data),
            )
            &&& end.result == Ok::<copy::Step, ErrorView>(rest_after(c, early.len() + late.len()))
        }),
    decreases early.len(),
{
    let order = c.conn.order;
    let msgs = request_messages(order, c.st.source_id, early);
    let behind = stream(order, request_messages(order, c.st.source_id, late));
    let done = connection::frame(order, rt.callback, proto::CALLBACK_DONE, serial) + behind;
    let expected = Seq::new(
        answered(c, early.len() + late.len()),
        |i: int| (c.conn.fds[i], c.data),
    );
    if early.len() == 0 {
        assert(c.conn.input =~= done);
        callback_ends_installing(c, rt, serial, behind);
        let serving = CopyView {
            conn: ConnectionView { input: behind, ..c.conn },
            stage: copy::Stage::Serving,
            ..c
        };
        requests_are_answered(serving, late);
    } else {
        let tail = request_messages(order, c.st.source_id, early.skip(1));
        let rest = stream(order, tail) + done;
        let next = after_request(c, rest);
        assert(fits(msgs[0]));
        assert(msgs.skip(1) =~= tail);
        assert(c.conn.input =~= connection::frame(
            order,
            c.st.source_id,
            proto::SOURCE_SEND,
            wire::string_field(order, early[0]),
        ) + rest);
        request_is_answered(c, early[0], rest);
        if next.st.finished {
            service_rests(next);
        } else {
            assert forall|i: int| 0 <= i < early.skip(1).len() implies fits(
                #[trigger] tail[i],
            ) by {
                assert(tail[i] == msgs[i + 1]);
            }
            early_requests_are_answered_too(next, rt, early.skip(1), late, serial);
        }
    }
    assert(serve_run(c).0 =~= expected);
}

/// Whether a message is a paste request that finds a descriptor.
pub open spec fn is_answered(c: CopyView, msg: MessageView) -> bool {
    proto::event_of(c.conn.order, c.st, msg) == Some(EventView::PasteRequest) && c.conn.fds.len()
        > 0
}

/// The copy once a message was handled, with `rest` left to read.
pub open spec fn after_event(c: CopyView, msg: MessageView, rest: Seq<u8>) -> CopyView {
    let fds = if is_answered(c, msg) {
        c.conn.fds.skip(1)
    } else {
        c.conn.fds
    };
    CopyView {
        conn: ConnectionView { input: rest, fds, ..c.conn },
        st: after_message(c.conn.order, c.st, msg),
        ..c
    }
}

/// The descriptors of those paste requests in a row of messages that find one,
/// in turn and until the service is over, and the copy after them.
pub open spec fn row_served(c: CopyView, msgs: Seq<MessageView>, rest: Seq<u8>) -> (
    Seq<i32>,
    CopyView,
)
    decreases msgs.len(),
{
    if msgs.len() == 0 || service_over(c) {
        (Seq::empty(), c)
    } else {
        let next = after_event(c, msgs[0], stream(c.conn.order, msgs.skip(1)) + rest);
        let (later, end) = row_served(next, msgs.skip(1), rest);
        if is_answered(c, msgs[0]) {
            (seq![c.conn.fds[0]] + later, end)
        } else {
            (later, end)
        }
    }
}

/// Each descriptor with the data that is written to it.
pub open spec fn with_data(fds: Seq<i32>, data: Seq<u8>) -> Seq<(i32, Seq<u8>)> {
    Seq::new(fds.len(), |i: int| (fds[i], data))
}

/// One message is handled: a paste request that finds a descriptor is answered
/// with the data, and nothing else is.
proof fn message_is_served(c: CopyView, msg: MessageView, rest: Seq<u8>)
    requires
        c.wf(),
        can_serve(c),
        !service_over(c),
        sound(c.conn.order, c.st, msg),
        c.stage matches copy::Stage::Installing(rt) ==> !(msg.sender == rt.callback && msg.opcode
            == proto::CALLBACK_DONE),
        c.conn.input == connection::frame(c.conn.order, msg.sender, msg.opcode, msg.args) + rest,
    ensures
        after_event(c, msg, rest).wf(),
        ({
            let (later, end) = serve_run(after_event(c, msg, rest));
            serve_run(c) == (
                if is_answered(c, msg) {
                    seq![(c.conn.fds[0], c.data)] + later
                } else {
                    later
                },
                end,
            )
        }),
{
    connection::frame_roundtrip(c.conn.order, msg.sender, msg.opcode, msg.args, rest);
    assert(c.stepped().copy == after_event(c, msg, rest));
    reveal(serve_run);
}

/// Whatever events come in between, each paste request in turn that finds a
/// descriptor has the data that was given to copy written to it, until the
/// service is over; nothing else is written. With a loop count no more are
/// answered than are left of it. Where no bytes follow, the copy is done if the
/// service is over, and else waits for more.
pub proof fn any_events_are_served(c: CopyView, msgs: Seq<MessageView>, rest: Seq<u8>)
    requires
        c.wf(),
        can_serve(c),
        all_sound(c.conn.order, c.st, msgs),
        c.stage matches copy::Stage::Installing(rt) ==> without_callback(msgs, rt.callback),
        c.conn.input == stream(c.conn.order, msgs) + rest,
    ensures
        ({
            let (fds, end) = row_served(c, msgs, rest);
            let (later, last) = serve_run(end);
            &&& serve_run(c) == (with_data(fds, c.data) + later, last)
            &&& end.wf()
            &&& end == (CopyView { conn: end.conn, st: end.st, ..c })
            &&& end.conn == (ConnectionView { input: end.conn.input, fds: end.conn.fds, ..c.conn })
            &&& fds.len() <= c.conn.fds.len()
            &&& fds == c.conn.fds.take(fds.len() as int)
            &&& end.conn.fds == c.conn.fds.skip(fds.len() as int)
            &&& !service_over(end) ==> end.st == after_messages(c.conn.order, c.st, msgs)
                && end.conn.input == rest
            &&& c.loops != 0 && !service_over(c) ==> c.st.served + fds.len() <= c.loops
            &&& service_over(end) || rest.len() == 0 ==> {
                &&& serve_run(c).0 == with_data(fds, c.data)
                &&& serve_run(c).1.result == Ok::<copy::Step, ErrorView>(
                    if service_over(end) {
                        copy::Step::Done
                    } else {
                        copy::Step::Receive
                    },
                )
            }
        }),
    decreases msgs.len(),
{
    let order = c.conn.order;
    let (fds, end) = row_served(c, msgs, rest);
    if msgs.len() == 0 || service_over(c) {
        assert(with_data(fds, c.data) + serve_run(c).0 =~= serve_run(c).0);
        assert(c.conn.fds.take(0) =~= fds);
        assert(c.conn.fds.skip(0) =~= c.conn.fds);
        if msgs.len() == 0 {
            assert(c.conn.input =~= rest);
        }
    } else {
        let tail = msgs.skip(1);
        let behind = stream(order, tail) + rest;
        let next = after_event(c, msgs[0], behind);
        assert(c.conn.input =~= connection::frame(
            order,
            msgs[0].sender,
            msgs[0].opcode,
            msgs[0].args,
        ) + behind);
        if c.stage is Installing {
            let callback = c.stage->Installing_0.callback;
            assert(!(msgs[0].sender == callback && msgs[0].opcode == proto::CALLBACK_DONE));
            assert forall|i: int| 0 <= i < tail.len() implies !((#[trigger] tail[i]).sender
                == callback && tail[i].opcode == proto::CALLBACK_DONE) by {
                assert(tail[i] == msgs[i + 1]);
            }
        }
        message_is_served(c, msgs[0], behind);
        any_events_are_served(next, tail, rest);
        let (fds_later, _) = row_served(next, tail, rest);
        if is_answered(c, msgs[0]) {
            assert(fds == seq![c.conn.fds[0]] + fds_later);
            assert(with_data(fds, c.data) =~= seq![(c.conn.fds[0], c.data)] + with_data(
                fds_later,
                c.data,
            ));
            assert(fds =~= c.conn.fds.take(fds.len() as int));
            assert(end.conn.fds =~= c.conn.fds.skip(fds.len() as int));
            assert(seq![(c.conn.fds[0], c.data)] + (with_data(fds_later, c.data) + serve_run(end).0)
                =~= with_data(fds, c.data) + serve_run(end).0);
        }
    }
    if service_over(end) || rest.len() == 0 {
        service_rests(end);
        assert(with_data(fds, c.data) + Seq::<(i32, Seq<u8>)>::empty() =~= with_data(fds, c.data));
    }
}

/// The same across the callback that ends the installation: unless the loop
/// count is reached before it, or another client has taken the selection over
/// by then, serving goes on behind it with what is left.
pub proof fn any_events_are_served_from_the_start(
    c: CopyView,
    rt: proto::Roundtrip,
    early: Seq<MessageView>,
    late: Seq<MessageView>,
    serial: Seq<u8>,
)
    requires
        c.wf(),
        c.stage == copy::Stage::Installing(rt),
        all_sound(c.conn.order, c.st, early),
        without_callback(early, rt.callback),
        all_sound(c.conn.order, after_messages(c.conn.order, c.st, early), late),
        8 + serial.len() <= 0xffff,
        c.conn.input == stream(c.conn.order, early) + (connection::frame(
            c.conn.order,
            rt.callback,
            proto::CALLBACK_DONE,
            serial,
        ) + stream(c.conn.order, late)),
    ensures
        ({
            let behind = stream(c.conn.order, late);
            let (first, mid) = row_served(
                c,
                early,
                connection::frame(c.conn.order, rt.callback, proto::CALLBACK_DONE, serial) + behind,
            );
            let serving = CopyView {
                conn: ConnectionView { input: behind, ..mid.conn },
                stage: copy::Stage::Serving,
                ..mid
            };
            let (second, end) = row_served(serving, late, Seq::empty());
            if mid.st.limit_reached() || mid.st.cancelled {
                &&& serve_run(c).0 == with_data(first, c.data)
                &&& serve_run(c).1.result == Ok::<copy::Step, ErrorView>(copy::Step::Done)
            } else {
                &&& serve_run(c).0 == with_data(first + second, c.data)
                &&& serve_run(c).1.result == Ok::<copy::Step, ErrorView>(
                    if end.st.finished {
                        copy::Step::Done
                    } else {
                        copy::Step::Receive
                    },
                )
            }
        }),
{
    let order = c.conn.order;
    let behind = stream(order, late);
    let done = connection::frame(order, rt.callback, proto::CALLBACK_DONE, serial) + behind;
    any_events_are_served(c, early, done);
    let (first, mid) = row_served(c, early, done);
    if !mid.st.limit_reached() {
        callback_ends_installing(mid, rt, serial, behind);
        let serving = CopyView {
            conn: ConnectionView { input: behind, ..mid.conn },
            stage: copy::Stage::Serving,
            ..mid
        };
        if mid.st.cancelled {
            assert(with_data(first, c.data) + serve_run(mid).0 =~= with_data(first, c.data));
        } else {
            assert(serving.conn.input =~= behind + Seq::<u8>::empty());
            any_events_are_served(serving, late, Seq::empty());
            let (second, end) = row_served(serving, late, Seq::empty());
            assert(with_data(first, c.data) + with_data(second, c.data) =~= with_data(
                first + second,
                c.data,
            ));
        }
    }
}

// Copying.

/// A pasting client gets what was given to copy, whenever it asks.
pub proof fn what_is_pasted_was_copied(c: CopyView, fd: i32)
    requires
        c.wf(),
        c.stepped().result == Ok::<copy::Step, ErrorView>(copy::Step::Deliver(fd)),
    ensures
        c.stepped().copy.st.data == c.data,
        c.conn.fds.len() > 0 && fd == c.conn.fds[0],
{
}

/// Serving goes on until the loop count is reached or the selection is lost.
pub proof fn copy_serves_until_finished(c: CopyView)
    requires
        c.stage is Serving,
    ensures
        c.stepped().result == Ok::<copy::Step, ErrorView>(copy::Step::Done) <==> c.st.finished,
{
}

/// While the selection is being installed, a copy is over where the loop count
/// is reached already, or where another client has taken the selection over by
/// the time of the callback.
pub proof fn installing_may_end_the_copy(c: CopyView, rt: proto::Roundtrip)
    requires
        c.stage == copy::Stage::Installing(rt),
    ensures
        c.stepped().result == Ok::<copy::Step, ErrorView>(copy::Step::Done) <==> (
        c.st.limit_reached() || (c.st.cancelled && proto::pumped(
            c.conn,
            c.st,
            Some(rt.callback),
        ).result == Ok::<Progress, ErrorView>(Progress::Done))),
{
}

/// A copy goes to the background once, between installing and serving, and
/// only where it is not to stay in the foreground; it never goes back to
/// installing.
pub proof fn copy_detaches_before_serving(c: CopyView)
    ensures
        c.stepped().result == Ok::<copy::Step, ErrorView>(copy::Step::Detach) ==> {
            &&& !c.foreground
            &&& c.stage is Installing
            &&& c.stepped().copy.stage is Serving
        },
        c.stage is Installing && c.stepped().copy.stage is Serving ==> c.stepped().result == Ok::<
            copy::Step,
            ErrorView,
        >(
            if c.foreground {
                copy::Step::Continue
            } else {
                copy::Step::Detach
            },
        ),
        c.stage is Serving ==> c.stepped().copy.stage is Serving || c.stepped().copy.stage is Finished,
        c.stage is Finished ==> c.stepped().copy.stage is Finished,
{
}

/// A compositor without a data-control protocol is refused with a clear error,
/// and nothing more is sent to it.
pub proof fn copy_refuses_unsupported_compositor(c: CopyView, rt: proto::Roundtrip)
    requires
        c.stage == copy::Stage::Globals(rt),
        c.st.manager is None,
        proto::pumped(c.conn, c.st, Some(rt.callback)).result == Ok::<Progress, ErrorView>(
            Progress::Done,
        ),
    ensures
        c.stepped().result == Err::<copy::Step, ErrorView>(ErrorView::NoManager),
        c.stepped().copy.conn.outbox == c.conn.outbox,
        c.stepped().copy.stage is Finished,
{
}

/// The primary selection is refused where the compositor has none, and no
/// source is created.
pub proof fn copy_refuses_missing_primary(c: CopyView, rt: proto::Roundtrip)
    requires
        c.stage == copy::Stage::Globals(rt),
        c.primary,
        c.st.manager is Some,
        c.st.seat_global is Some,
        !c.st.primary_supported(),
        proto::pumped(c.conn, c.st, Some(rt.callback)).result == Ok::<Progress, ErrorView>(
            Progress::Done,
        ),
    ensures
        c.stepped().result == Err::<copy::Step, ErrorView>(ErrorView::NoPrimary),
        c.stepped().copy.st.source_id == c.st.source_id,
        c.stepped().copy.stage is Finished,
{
}

/// Exactly one trailing newline is stripped, and nothing else.
pub proof fn one_newline_is_stripped(data: Seq<u8>)
    ensures
        copy::stripped(data.push(copy::NEWLINE), true) == data,
        copy::stripped(data, false) == data,
        (data.len() == 0 || data.last() != copy::NEWLINE) ==> copy::stripped(data, true) == data,
{
    assert(data.push(copy::NEWLINE).drop_last() =~= data);
}

// Pasting.

/// The type that is requested is one that is offered; with an explicit target
/// it is that target.
pub proof fn picked_is_offered(target: Option<Seq<char>>, mimes: Seq<Seq<char>>)
    ensures
        paste::picked(target, mimes) matches Some(mime) ==> mimes.contains(mime),
        target matches Some(t) ==> (paste::picked(target, mimes) is Some <==> mimes.contains(t)),
        target matches Some(t) ==> (paste::picked(target, mimes) matches Some(mime) ==> mime == t),
        target is None ==> (paste::picked(target, mimes) is Some <==> mimes.len() > 0),
{
    best_is_offered(paste::paste_prefs(), mimes);
    first_text_is_offered(mimes);
    if mimes.len() > 0 {
        assert(mimes.contains(mimes[0]));
    }
}

proof fn best_is_offered(prefs: Seq<Seq<char>>, mimes: Seq<Seq<char>>)
    ensures
        paste::best(prefs, mimes) matches Some(mime) ==> mimes.contains(mime),
    decreases prefs.len(),
{
    if prefs.len() > 0 {
        best_is_offered(prefs.skip(1), mimes);
    }
}

proof fn first_text_is_offered(mimes: Seq<Seq<char>>)
    ensures
        paste::first_text(mimes) matches Some(mime) ==> mimes.contains(mime) && text::begins_with(
            mime,
            "text/"@,
        ),
    decreases mimes.len(),
{
    if mimes.len() > 0 {
        first_text_is_offered(mimes.skip(1));
        assert(mimes.contains(mimes[0]));
        if paste::first_text(mimes.skip(1)) is Some {
            let m = paste::first_text(mimes.skip(1)).unwrap();
            let i = choose|i: int| 0 <= i < mimes.skip(1).len() && mimes.skip(1)[i] == m;
            if mimes.skip(1).contains(m) {
                assert(mimes[i + 1] == m);
            }
        }
    }
}

/// No preferred type is passed over: what is requested without a target comes
/// no later in the preference order than any preferred type that is offered.
pub proof fn preference_is_kept(mimes: Seq<Seq<char>>, i: int)
    requires
        0 <= i < paste::paste_prefs().len(),
        mimes.contains(paste::paste_prefs()[i]),
    ensures
        paste::picked(None, mimes) matches Some(mime) && exists|j: int|
            0 <= j <= i && mime == #[trigger] paste::paste_prefs()[j],
{
    best_comes_first(paste::paste_prefs(), mimes, i);
}

proof fn best_comes_first(prefs: Seq<Seq<char>>, mimes: Seq<Seq<char>>, i: int)
    requires
        0 <= i < prefs.len(),
        mimes.contains(prefs[i]),
    ensures
        paste::best(prefs, mimes) matches Some(mime) && exists|j: int|
            0 <= j <= i && mime == #[trigger] prefs[j],
    decreases prefs.len(),
{
    if mimes.contains(prefs[0]) {
        assert(paste::best(prefs, mimes) == Some(prefs[0]));
    } else {
        assert(prefs.skip(1)[i - 1] == prefs[i]);
        best_comes_first(prefs.skip(1), mimes, i - 1);
        let mime = paste::best(prefs.skip(1), mimes).unwrap();
        let j = choose|j: int| 0 <= j <= i - 1 && mime == #[trigger] prefs.skip(1)[j];
        assert(prefs[j + 1] == mime);
    }
}

/// Any text type is preferred to one that is no text.
pub proof fn text_is_preferred(mimes: Seq<Seq<char>>, i: int)
    requires
        0 <= i < mimes.len(),
        text::begins_with(mimes[i], "text/"@),
    ensures
        paste::picked(None, mimes) matches Some(mime) && (text::begins_with(mime, "text/"@)
            || paste::paste_prefs().contains(mime)),
{
    first_text_exists(mimes, i);
    first_text_is_offered(mimes);
    best_is_preferred(paste::paste_prefs(), mimes);
}

proof fn first_text_exists(mimes: Seq<Seq<char>>, i: int)
    requires
        0 <= i < mimes.len(),
        text::begins_with(mimes[i], "text/"@),
    ensures
        paste::first_text(mimes) is Some,
    decreases mimes.len(),
{
    if !text::begins_with(mimes[0], "text/"@) {
        assert(mimes.skip(1)[i - 1] == mimes[i]);
        first_text_exists(mimes.skip(1), i - 1);
    }
}

proof fn best_is_preferred(prefs: Seq<Seq<char>>, mimes: Seq<Seq<char>>)
    ensures
        paste::best(prefs, mimes) matches Some(mime) ==> prefs.contains(mime),
    decreases prefs.len(),
{
    if prefs.len() > 0 {
        assert(prefs.contains(prefs[0]));
        best_is_preferred(prefs.skip(1), mimes);
        if paste::best(prefs.skip(1), mimes) is Some {
            let m = paste::best(prefs.skip(1), mimes).unwrap();
            let i = choose|i: int| 0 <= i < prefs.skip(1).len() && prefs.skip(1)[i] == m;
            if prefs.skip(1).contains(m) {
                assert(prefs[i + 1] == m);
            }
        }
    }
}

/// An empty selection prints nothing and requests nothing.
pub proof fn empty_selection_prints_nothing(p: PasteView, rt: proto::Roundtrip)
    requires
        p.stage == paste::StageView::Offers(rt),
        p.offer() is None,
        proto::pumped(p.conn, p.st, Some(rt.callback)).result == Ok::<Progress, ErrorView>(
            Progress::Done,
        ),
    ensures
        p.stepped().result == Ok::<paste::StepView, ErrorView>(paste::StepView::Done),
        p.stepped().paste.stage is Finished,
        p.stepped().paste.conn.outbox == p.conn.outbox,
{
}

/// The `TARGETS` pseudo-target lists the types that the selection offers and
/// requests nothing.
pub proof fn targets_are_listed(p: PasteView, rt: proto::Roundtrip, offer: u32)
    requires
        p.stage == paste::StageView::Offers(rt),
        p.offer() == Some(offer),
        p.target == Some(paste::TARGETS@),
        proto::pumped(p.conn, p.st, Some(rt.callback)).result == Ok::<Progress, ErrorView>(
            Progress::Done,
        ),
    ensures
        p.stepped().result == Ok::<paste::StepView, ErrorView>(
            paste::StepView::Print(paste::listing(p.st.offer_mimes(offer))),
        ),
        p.stepped().paste.stage is Finished,
        p.stepped().paste.conn.outbox == p.conn.outbox,
{
}

/// A target that the selection does not offer is refused, and nothing is
/// requested.
pub proof fn missing_target_is_refused(
    p: PasteView,
    rt: proto::Roundtrip,
    offer: u32,
    target: Seq<char>,
)
    requires
        p.stage == paste::StageView::Offers(rt),
        p.offer() == Some(offer),
        p.target == Some(target),
        target != paste::TARGETS@,
        !p.st.offer_mimes(offer).contains(target),
        proto::pumped(p.conn, p.st, Some(rt.callback)).result == Ok::<Progress, ErrorView>(
            Progress::Done,
        ),
    ensures
        p.stepped().result == Err::<paste::StepView, ErrorView>(ErrorView::NoTarget(target)),
        p.stepped().paste.stage is Finished,
        p.stepped().paste.conn.outbox == p.conn.outbox,
{
}

/// A compositor without a data-control protocol is refused with a clear error,
/// and nothing more is sent to it.
pub proof fn paste_refuses_unsupported_compositor(p: PasteView, rt: proto::Roundtrip)
    requires
        p.stage == paste::StageView::Globals(rt),
        p.st.manager is None,
        proto::pumped(p.conn, p.st, Some(rt.callback)).result == Ok::<Progress, ErrorView>(
            Progress::Done,
        ),
    ensures
        p.stepped().result == Err::<paste::StepView, ErrorView>(ErrorView::NoManager),
        p.stepped().paste.conn.outbox == p.conn.outbox,
        p.stepped().paste.stage is Finished,
{
}

/// The primary selection is refused where the compositor has none.
pub proof fn paste_refuses_missing_primary(p: PasteView, rt: proto::Roundtrip)
    requires
        p.stage == paste::StageView::Globals(rt),
        p.primary,
        p.st.manager is Some,
        p.st.seat_global is Some,
        !p.st.primary_supported(),
        proto::pumped(p.conn, p.st, Some(rt.callback)).result == Ok::<Progress, ErrorView>(
            Progress::Done,
        ),
    ensures
        p.stepped().result == Err::<paste::StepView, ErrorView>(ErrorView::NoPrimary),
        p.stepped().paste.stage is Finished,
{
}

// Arguments.

/// `-opt=value` and `-opt value` are the same, for every option that takes a
/// value and however many dashes lead.
pub proof fn attached_value_is_separate_value(
    args: ArgsView,
    arg: Seq<char>,
    value: Seq<char>,
    rest: Seq<Seq<char>>,
)
    requires
        !args::is_file(arg),
        args::attached(arg) is None,
        args::opt_of(args::name_of(arg)) matches Some(opt) && args::takes_value(opt),
    ensures
        args::parsed(args, seq![arg + seq!['='] + value] + rest) == args::parsed(
            args,
            seq![arg, value] + rest,
        ),
{
    let glued = arg + seq!['='] + value;
    let one = seq![glued] + rest;
    let two = seq![arg, value] + rest;
    option_names_are_not_empty();
    assert(args::bare(arg).len() > 0) by {
        if args::bare(arg).len() == 0 {
            assert(args::name_of(arg) =~= Seq::empty());
        }
    }
    name_len_bound(args::bare(arg));
    bare_of_longer(arg, seq!['='] + value);
    assert(arg + (seq!['='] + value) =~= glued);
    name_ends_at_equals(args::bare(arg), value);
    assert(args::bare(glued) == args::bare(arg) + (seq!['='] + value));
    assert(args::bare(arg) + (seq!['='] + value) =~= args::bare(arg) + seq!['='] + value);
    assert(args::name_of(glued) =~= args::name_of(arg));
    assert(args::bare(glued).skip(args::bare(arg).len() as int + 1) =~= value);
    assert(args::attached(glued) == Some(value));
    reveal_strlit("-");
    assert(glued[0] == arg[0]);
    assert(glued.len() >= 2);
    assert(!args::is_file(glued));
    assert(one[0] == glued);
    assert(two[0] == arg && two[1] == value);
    assert(one.skip(1) =~= rest);
    assert(two.skip(2) =~= rest);
}

/// More leading dashes make no difference to an option.
pub proof fn dashes_do_not_matter(args: ArgsView, arg: Seq<char>, rest: Seq<Seq<char>>)
    requires
        !args::is_file(arg),
        args::opt_of(args::name_of(arg)) is Some,
    ensures
        args::parsed(args, seq![seq!['-'] + arg] + rest) == args::parsed(args, seq![arg] + rest),
{
    let longer = seq!['-'] + arg;
    let one = seq![longer] + rest;
    let two = seq![arg] + rest;
    assert(longer.drop_first() =~= arg);
    assert(args::bare(longer) == args::bare(arg));
    reveal_strlit("-");
    assert(longer.len() >= 2);
    assert(one[0] == longer && two[0] == arg);
    assert(one.skip(1) =~= rest);
    assert(two.skip(1) =~= rest);
    if one.len() > 1 {
        assert(one[1] == rest[0] && two[1] == rest[0]);
        assert(one.skip(2) =~= rest.skip(1));
        assert(two.skip(2) =~= rest.skip(1));
    }
}

/// Positional arguments are kept as files, in order, a lone `-` among them.
pub proof fn files_are_kept_in_order(args: ArgsView, files: Seq<Seq<char>>)
    requires
        forall|i: int| 0 <= i < files.len() ==> args::is_file(#[trigger] files[i]),
    ensures
        args::parsed(args, files) == Ok::<ArgsView, Seq<char>>(
            ArgsView { files: args.files + files, ..args },
        ),
    decreases files.len(),
{
    if files.len() > 0 {
        assert(args::is_file(files[0]));
        let next = ArgsView { files: args.files.push(files[0]), ..args };
        assert forall|i: int| 0 <= i < files.skip(1).len() implies args::is_file(
            #[trigger] files.skip(1)[i],
        ) by {
            assert(files.skip(1)[i] == files[i + 1]);
        }
        files_are_kept_in_order(next, files.skip(1));
        assert(next.files + files.skip(1) =~= args.files + files);
    } else {
        assert(args.files + files =~= args.files);
    }
}

/// Selection names are taken without regard to case; an unknown name is quoted
/// as it was given.
pub proof fn case_does_not_matter(a: Seq<char>, b: Seq<char>)
    requires
        args::lowered(a) == args::lowered(b),
    ensures
        args::selection_of(a) == args::selection_of(b) || (args::selection_of(a) == Err::<
            Selection,
            Seq<char>,
        >("unknown selection '"@ + a + "'"@) && args::selection_of(b) == Err::<
            Selection,
            Seq<char>,
        >("unknown selection '"@ + b + "'"@)),
{
}

/// Every abbreviation of a selection name stands for that selection.
pub proof fn abbreviations_are_accepted(n: int)
    ensures
        1 <= n <= "primary"@.len() ==> args::selection_of("primary"@.take(n)) == Ok::<
            Selection,
            Seq<char>,
        >(Selection::Primary),
        1 <= n <= "clipboard"@.len() ==> args::selection_of("clipboard"@.take(n)) == Ok::<
            Selection,
            Seq<char>,
        >(Selection::Clipboard),
{
    reveal_strlit("primary");
    reveal_strlit("clipboard");
    if 1 <= n <= "primary"@.len() {
        let v = "primary"@.take(n);
        assert(args::lowered(v) =~= v);
    }
    if 1 <= n <= "clipboard"@.len() {
        let v = "clipboard"@.take(n);
        assert(args::lowered(v) =~= v);
        assert(v[0] == 'c');
        if text::begins_with("primary"@, v) {
            assert("primary"@.take(n)[0] == 'p');
        }
    }
}

proof fn option_names_are_not_empty()
    ensures
        args::opt_of(Seq::empty()) is None,
{
    reveal_strlit("i");
    reveal_strlit("in");
    reveal_strlit("o");
    reveal_strlit("out");
    reveal_strlit("sel");
    reveal_strlit("selection");
    reveal_strlit("t");
    reveal_strlit("tar");
    reveal_strlit("target");
    reveal_strlit("l");
    reveal_strlit("loops");
    reveal_strlit("r");
    reveal_strlit("rmlastnl");
    reveal_strlit("f");
    reveal_strlit("filter");
    reveal_strlit("fg");
    reveal_strlit("foreground");
    reveal_strlit("quiet");
    reveal_strlit("d");
    reveal_strlit("display");
    reveal_strlit("h");
    reveal_strlit("help");
    reveal_strlit("version");
    reveal_strlit("noutf8");
    reveal_strlit("verbose");
    reveal_strlit("silent");
    let none = Seq::<char>::empty();
    assert(none.len() == 0);
    assert("i"@.len() == 1 && "in"@.len() == 2 && "o"@.len() == 1 && "out"@.len() == 3);
    assert("sel"@.len() == 3 && "selection"@.len() == 9 && "t"@.len() == 1);
    assert("tar"@.len() == 3 && "target"@.len() == 6 && "l"@.len() == 1 && "loops"@.len() == 5);
    assert("r"@.len() == 1 && "rmlastnl"@.len() == 8 && "f"@.len() == 1 && "filter"@.len() == 6);
    assert("fg"@.len() == 2 && "foreground"@.len() == 10 && "quiet"@.len() == 5);
    assert("d"@.len() == 1 && "display"@.len() == 7 && "h"@.len() == 1 && "help"@.len() == 4);
    assert("version"@.len() == 7 && "noutf8"@.len() == 6 && "verbose"@.len() == 7);
    assert("silent"@.len() == 6);
}

pub(crate) proof fn name_len_bound(s: Seq<char>)
    ensures
        args::name_len(s) <= s.len(),
    decreases s.len(),
{
    if s.len() > 0 && s[0] != '=' {
        name_len_bound(s.drop_first());
    }
}

/// Leading dashes end where they ended, whatever follows.
proof fn bare_of_longer(arg: Seq<char>, tail: Seq<char>)
    requires
        args::bare(arg).len() > 0,
    ensures
        args::bare(arg + tail) == args::bare(arg) + tail,
    decreases arg.len(),
{
    if arg[0] == '-' {
        assert((arg + tail).drop_first() =~= arg.drop_first() + tail);
        bare_of_longer(arg.drop_first(), tail);
    }
}

/// A name without `=` ends where the first `=` is put.
pub(crate) proof fn name_ends_at_equals(name: Seq<char>, value: Seq<char>)
    requires
        args::name_len(name) == name.len(),
    ensures
        args::name_len(name + seq!['='] + value) == name.len(),
    decreases name.len(),
{
    let s = name + seq!['='] + value;
    if name.len() > 0 {
        name_len_bound(name.drop_first());
        assert(s.drop_first() =~= name.drop_first() + seq!['='] + value);
        name_ends_at_equals(name.drop_first(), value);
    } else {
        assert(s[0] == '=');
    }
}

} // verus!
