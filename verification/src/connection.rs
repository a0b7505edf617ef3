//! A connection to the compositor, without the socket.
//!
//! A [`Connection`] frames requests into [`Packet`]s that wait to be sent, cuts
//! received bytes into events, and keeps the descriptors that came with them.
//! [`Transmission`] is the progress of one packet through a socket that takes
//! it piece by piece.

use crate::bytes;
use crate::bytes::push_word;
use crate::bytes::read_word;
use crate::bytes::ByteOrder;
use crate::error::Error;
use crate::text;
use crate::text::parse_i32;
use crate::text::starts_with_char;
use crate::wire::Message;
use crate::wire::MessageView;
use crate::wire::Msg;
use crate::wire::MsgView;
use std::collections::VecDeque;
use vstd::prelude::*;
use vstd::slice::slice_subrange;

verus! {

broadcast use crate::bytes::word_len;

/// Bytes of a message header.
pub const HEADER_SIZE: usize = 8;

/// The largest size that a header can announce.
pub const MAX_SIZE: usize = 0xffff;

// Framing.

/// The bytes of a whole message.
pub open spec fn frame(order: ByteOrder, sender: u32, opcode: u16, body: Seq<u8>) -> Seq<u8> {
    bytes::word(order, sender) + bytes::word(
        order,
        ((8 + body.len()) * 0x1_0000 + opcode) as u32,
    ) + body
}

/// What stands at the front of received bytes.
pub enum Front {
    /// Not all of a message.
    Partial,
    /// A header that announces less than itself.
    Bad,
    /// A message, and the bytes behind it.
    Event(MessageView, Seq<u8>),
}

/// The front of `input`.
pub open spec fn front(order: ByteOrder, input: Seq<u8>) -> Front {
    let sender = bytes::unword(order, input.subrange(0, 4));
    let packed = bytes::unword(order, input.subrange(4, 8));
    let size = packed as int / 0x1_0000;
    if input.len() < 8 {
        Front::Partial
    } else if size < 8 {
        Front::Bad
    } else if input.len() < size {
        Front::Partial
    } else {
        Front::Event(
            MessageView {
                sender,
                opcode: (packed % 0x1_0000) as u16,
                args: input.subrange(8, size),
            },
            input.skip(size),
        )
    }
}

/// A message that was framed is received as it was sent, whatever follows it.
pub proof fn frame_roundtrip(
    order: ByteOrder,
    sender: u32,
    opcode: u16,
    body: Seq<u8>,
    rest: Seq<u8>,
)
    requires
        8 + body.len() <= 0xffff,
    ensures
        front(order, frame(order, sender, opcode, body) + rest) == Front::Event(
            MessageView { sender, opcode, args: body },
            rest,
        ),
{
    let packed = ((8 + body.len()) * 0x1_0000 + opcode) as u32;
    let input = frame(order, sender, opcode, body) + rest;
    bytes::word_roundtrip(order, sender);
    bytes::word_roundtrip(order, packed);
    assert(input.subrange(0, 4) =~= bytes::word(order, sender));
    assert(input.subrange(4, 8) =~= bytes::word(order, packed));
    assert(packed as int / 0x1_0000 == 8 + body.len());
    assert(packed % 0x1_0000 == opcode);
    assert(input.subrange(8, 8 + body.len() as int) =~= body);
    assert(input.skip(8 + body.len() as int) =~= rest);
}

/// However the stream is cut, the same messages come out: what stands at the
/// front of a stream is not changed by the bytes that arrive later.
pub proof fn front_is_stable(order: ByteOrder, input: Seq<u8>, more: Seq<u8>)
    ensures
        front(order, input) matches Front::Event(msg, rest) ==> front(order, input + more)
            == Front::Event(msg, rest + more),
        front(order, input) is Bad ==> front(order, input + more) is Bad,
{
    if input.len() >= 8 {
        let size = bytes::unword(order, input.subrange(4, 8)) as int / 0x1_0000;
        assert((input + more).subrange(0, 4) =~= input.subrange(0, 4));
        assert((input + more).subrange(4, 8) =~= input.subrange(4, 8));
        if 8 <= size <= input.len() {
            assert((input + more).subrange(8, size) =~= input.subrange(8, size));
            assert((input + more).skip(size) =~= input.skip(size) + more);
        }
    }
}

/// All messages of a stream, and the bytes that are left over.
pub open spec fn messages(order: ByteOrder, input: Seq<u8>) -> (Seq<MessageView>, Seq<u8>)
    decreases input.len(),
{
    match front(order, input) {
        Front::Event(msg, rest) => {
            let (msgs, left) = messages(order, rest);
            (seq![msg] + msgs, left)
        },
        _ => (Seq::empty(), input),
    }
}

/// A stream that is taken in by pieces gives the messages that it gives as a
/// whole.
pub proof fn pieces_make_the_stream(order: ByteOrder, piece: Seq<u8>, more: Seq<u8>)
    ensures
        ({
            let (msgs, left) = messages(order, piece);
            let (later, end) = messages(order, left + more);
            messages(order, piece + more) == (msgs + later, end)
        }),
    decreases piece.len(),
{
    front_is_stable(order, piece, more);
    match front(order, piece) {
        Front::Event(msg, rest) => {
            pieces_make_the_stream(order, rest, more);
            let (msgs, left) = messages(order, rest);
            let (later, end) = messages(order, left + more);
            assert(seq![msg] + msgs + later =~= seq![msg] + (msgs + later));
        },
        _ => {
            let (later, end) = messages(order, piece + more);
            assert(Seq::<MessageView>::empty() + later =~= later);
        },
    }
}

/// What a [`Packet`] holds.
#[verifier::ext_equal]
pub struct PacketView {
    pub bytes: Seq<u8>,
    pub fds: Seq<i32>,
}

/// A framed request, with the descriptors that go with it.
pub struct Packet {
    pub bytes: Vec<u8>,
    pub fds: Vec<i32>,
}

impl View for Packet {
    type V = PacketView;

    open spec fn view(&self) -> PacketView {
        PacketView { bytes: self.bytes@, fds: self.fds@ }
    }
}

/// The packet that carries a request.
pub open spec fn packet_of(msg: MsgView) -> PacketView {
    PacketView { bytes: frame(msg.order, msg.sender, msg.opcode, msg.body), fds: msg.fds }
}

// Descriptors in ancillary data.

/// One control message, as the operating system delivered it.
pub struct ControlRecord {
    pub level: i32,
    pub kind: i32,
    pub payload: Vec<u8>,
}

/// The level and the kind that mark a control message of descriptors.
#[derive(Clone, Copy)]
pub struct RightsTag {
    pub level: i32,
    pub kind: i32,
}

/// The payload of a control message that passes `fds`.
pub open spec fn rights(order: ByteOrder, fds: Seq<i32>) -> Seq<u8>
    decreases fds.len(),
{
    if fds.len() == 0 {
        Seq::empty()
    } else {
        rights(order, fds.drop_last()) + bytes::word(order, fds.last() as u32)
    }
}

/// The descriptors in a payload: one for each whole word.
pub open spec fn rights_fds(order: ByteOrder, payload: Seq<u8>) -> Seq<i32> {
    Seq::new(
        payload.len() / 4,
        |i: int| bytes::unword(order, payload.subrange(4 * i, 4 * i + 4)) as i32,
    )
}

/// The descriptors of all control messages that carry the tag, in order.
pub open spec fn harvested(order: ByteOrder, tag: RightsTag, records: Seq<ControlRecord>) -> Seq<i32>
    decreases records.len(),
{
    if records.len() == 0 {
        Seq::empty()
    } else {
        let record = records.last();
        harvested(order, tag, records.drop_last()) + if record.level == tag.level && record.kind
            == tag.kind {
            rights_fds(order, record.payload@)
        } else {
            Seq::empty()
        }
    }
}

/// The payload of a control message that passes `fds`.
pub fn rights_payload(order: ByteOrder, fds: &[i32]) -> (payload: Vec<u8>)
    ensures
        payload@ == rights(order, fds@),
{
    let mut payload: Vec<u8> = Vec::new();
    let mut i: usize = 0;
    while i < fds.len()
        invariant
            i <= fds@.len(),
            payload@ == rights(order, fds@.take(i as int)),
        decreases fds@.len() - i,
    {
        assert(fds@.take(i + 1).drop_last() =~= fds@.take(i as int));
        push_word(order, &mut payload, fds[i] as u32);
        i += 1;
    }
    assert(fds@.take(i as int) =~= fds@);
    payload
}

/// Takes the descriptors out of the control messages that carry the tag.
pub fn harvest(order: ByteOrder, tag: RightsTag, records: &[ControlRecord]) -> (fds: Vec<i32>)
    ensures
        fds@ == harvested(order, tag, records@),
{
    let mut fds: Vec<i32> = Vec::new();
    let mut i: usize = 0;
    while i < records.len()
        invariant
            i <= records@.len(),
            fds@ == harvested(order, tag, records@.take(i as int)),
        decreases records@.len() - i,
    {
        let record: &ControlRecord = &records[i];
        assert(records@.take(i + 1).drop_last() =~= records@.take(i as int));
        let ghost before = fds@;
        if record.level == tag.level && record.kind == tag.kind {
            let payload: &[u8] = record.payload.as_slice();
            let count: usize = payload.len() / 4;
            let mut k: usize = 0;
            while k < count
                invariant
                    k <= count,
                    count == payload@.len() / 4,
                    fds@ == before + rights_fds(order, payload@).take(k as int),
                decreases count - k,
            {
                assert(4 * k + 4 <= payload.len());
                let v: u32 = read_word(order, payload, 4 * k);
                fds.push(v as i32);
                assert(rights_fds(order, payload@).take(k + 1) =~= rights_fds(
                    order,
                    payload@,
                ).take(k as int).push(v as i32));
                k += 1;
            }
            assert(rights_fds(order, payload@).take(k as int) =~= rights_fds(order, payload@));
        }
        assert(fds@ =~= harvested(order, tag, records@.take(i + 1)));
        i += 1;
    }
    assert(records@.take(i as int) =~= records@);
    fds
}

/// The descriptors that a payload was made of come out of it.
pub proof fn rights_roundtrip(order: ByteOrder, fds: Seq<i32>)
    ensures
        rights(order, fds).len() == 4 * fds.len(),
        rights_fds(order, rights(order, fds)) == fds,
    decreases fds.len(),
{
    let payload = rights(order, fds);
    if fds.len() > 0 {
        let init = rights(order, fds.drop_last());
        let w = fds.last() as u32;
        rights_roundtrip(order, fds.drop_last());
        bytes::word_roundtrip(order, w);
        fd_word_roundtrip(fds.last());
        assert forall|i: int| 0 <= i < fds.len() implies rights_fds(order, payload)[i] == fds[i] by {
            if i < fds.len() - 1 {
                assert(payload.subrange(4 * i, 4 * i + 4) =~= init.subrange(4 * i, 4 * i + 4));
                assert(rights_fds(order, init)[i] == fds.drop_last()[i]);
            } else {
                assert(payload.subrange(4 * i, 4 * i + 4) =~= bytes::word(order, w));
            }
        }
    }
    assert(rights_fds(order, payload) =~= fds);
}

proof fn fd_word_roundtrip(fd: i32)
    ensures
        (fd as u32) as i32 == fd,
{
    assert((fd as u32) as i32 == fd) by (bit_vector);
}

// The connection.

/// What a [`Connection`] holds.
#[verifier::ext_equal]
pub struct ConnectionView {
    pub order: ByteOrder,
    /// Bytes received and not yet cut into events.
    pub input: Seq<u8>,
    /// Descriptors received and not yet taken.
    pub fds: Seq<i32>,
    /// The id that the next object gets.
    pub next_id: u32,
    /// Packets that wait to be sent, oldest first.
    pub outbox: Seq<PacketView>,
}

impl ConnectionView {
    /// The connection with one more packet to send.
    pub open spec fn queued(self, packet: PacketView) -> ConnectionView {
        ConnectionView { outbox: self.outbox.push(packet), ..self }
    }

    /// What a request does to the connection, and whether it fits.
    pub open spec fn sent(self, msg: MsgView) -> (ConnectionView, bool) {
        if 8 + msg.body.len() <= 0xffff {
            (self.queued(packet_of(msg)), true)
        } else {
            (self, false)
        }
    }

    /// The connection with its next id given away.
    pub open spec fn allocated(self) -> ConnectionView {
        ConnectionView { next_id: (self.next_id + 1) as u32, ..self }
    }
}

/// What one attempt to receive gave.
pub enum Received {
    /// Bytes, and the control messages that came with them.
    Data { bytes: Vec<u8>, records: Vec<ControlRecord> },
    /// The call failed, or was cut short by a signal.
    Failed { interrupted: bool },
}

/// What one attempt to receive leads to: an interrupted one changes nothing,
/// no bytes mean that the compositor closed the connection, and bytes are kept
/// together with the descriptors that came with them.
pub open spec fn received(
    before: ConnectionView,
    tag: RightsTag,
    got: Received,
    after: ConnectionView,
    r: Result<(), Error>,
) -> bool {
    match got {
        Received::Failed { interrupted } => after == before && r == (if interrupted {
            Ok::<(), Error>(())
        } else {
            Err::<(), Error>(Error::Io)
        }),
        Received::Data { bytes, records } => if bytes@.len() == 0 {
            after == before && r == Err::<(), Error>(Error::Closed)
        } else {
            after == (ConnectionView {
                input: before.input + bytes@,
                fds: before.fds + harvested(before.order, tag, records@),
                ..before
            }) && r is Ok
        },
    }
}

/// A connection to the Wayland compositor.
pub struct Connection {
    order: ByteOrder,
    read_buf: Vec<u8>,
    fds_in: VecDeque<i32>,
    ids: IdSource,
    outbox: VecDeque<Packet>,
}

/// Where client-side object ids come from. They start at 2: id 1 is always
/// `wl_display`.
struct IdSource {
    next: u32,
}

impl IdSource {
    #[verifier::type_invariant]
    spec fn inv(self) -> bool {
        self.next >= 2
    }

    fn fresh(&mut self) -> (id: u32)
        requires
            old(self).next < u32::MAX,
        ensures
            id == old(self).next,
            final(self).next == id + 1,
            id >= 2,
    {
        proof {
            use_type_invariant(&*self);
        }
        let id: u32 = self.next;
        self.next = id + 1;
        id
    }
}

impl View for Connection {
    type V = ConnectionView;

    closed spec fn view(&self) -> ConnectionView {
        ConnectionView {
            order: self.order,
            input: self.read_buf@,
            fds: self.fds_in@,
            next_id: self.ids.next,
            outbox: self.outbox@.map_values(|p: Packet| p@),
        }
    }
}

impl Connection {
    /// A fresh connection in host byte order.
    pub fn new() -> (conn: Connection)
        ensures
            conn@ == (ConnectionView {
                order: bytes::host_order(),
                input: Seq::empty(),
                fds: Seq::empty(),
                next_id: 2,
                outbox: Seq::empty(),
            }),
    {
        Connection::in_order(ByteOrder::native())
    }

    /// A fresh connection in the given byte order.
    pub fn in_order(order: ByteOrder) -> (conn: Connection)
        ensures
            conn@ == (ConnectionView {
                order,
                input: Seq::empty(),
                fds: Seq::empty(),
                next_id: 2,
                outbox: Seq::empty(),
            }),
    {
        let conn: Connection = Connection {
            order,
            read_buf: Vec::new(),
            fds_in: VecDeque::new(),
            ids: IdSource { next: 2 },
            outbox: VecDeque::new(),
        };
        assert(conn@.outbox =~= Seq::empty());
        conn
    }

    /// The byte order of the connection.
    pub fn order(&self) -> (order: ByteOrder)
        ensures
            order == self@.order,
    {
        self.order
    }

    /// Allocate a fresh client-side object id.
    pub fn alloc_id(&mut self) -> (id: u32)
        requires
            old(self)@.next_id < u32::MAX,
        ensures
            id == old(self)@.next_id,
            id >= 2,
            final(self)@ == old(self)@.allocated(),
    {
        self.ids.fresh()
    }

    /// Pull the next file descriptor delivered alongside events, if any.
    pub fn take_fd(&mut self) -> (fd: Option<i32>)
        ensures
            old(self)@.fds.len() == 0 ==> fd is None && final(self)@ == old(self)@,
            old(self)@.fds.len() > 0 ==> fd == Some(old(self)@.fds[0]) && final(self)@ == (
            ConnectionView { fds: old(self)@.fds.skip(1), ..old(self)@ }),
    {
        let fd: Option<i32> = self.fds_in.pop_front();
        assert(old(self)@.fds.len() > 0 ==> self@.fds =~= old(self)@.fds.skip(1));
        fd
    }

    /// Serialize a request and queue it for sending.
    pub fn send(&mut self, msg: Msg) -> (r: Result<(), Error>)
        ensures
            8 + msg@.body.len() <= 0xffff ==> r is Ok && final(self)@ == old(self)@.queued(
                packet_of(msg@),
            ) && packet_of(msg@).bytes.len() % 4 == 0,
            8 + msg@.body.len() > 0xffff ==> r == Err::<(), Error>(Error::TooLarge) && final(self)@
                == old(self)@,
    {
        let (order, sender, opcode, body, fds): (ByteOrder, u32, u16, Vec<u8>, Vec<i32>) =
            msg.into_parts();
        if body.len() > MAX_SIZE - HEADER_SIZE {
            return Err(Error::TooLarge);
        }
        let total: usize = HEADER_SIZE + body.len();
        let mut bytes: Vec<u8> = Vec::with_capacity(total);
        push_word(order, &mut bytes, sender);
        push_word(order, &mut bytes, (total as u32) * 0x1_0000 + opcode as u32);
        bytes.extend_from_slice(body.as_slice());
        assert(bytes@ =~= frame(order, sender, opcode, msg@.body));
        self.outbox.push_back(Packet { bytes, fds });
        assert(self@.outbox =~= old(self)@.outbox.push(packet_of(msg@)));
        Ok(())
    }

    /// The oldest packet that waits to be sent.
    pub fn take_packet(&mut self) -> (packet: Option<Packet>)
        ensures
            old(self)@.outbox.len() == 0 ==> packet is None && final(self)@ == old(self)@,
            old(self)@.outbox.len() > 0 ==> packet is Some && packet.unwrap()@ == old(
                self,
            )@.outbox[0] && final(self)@ == (ConnectionView {
                outbox: old(self)@.outbox.skip(1),
                ..old(self)@
            }),
    {
        let packet: Option<Packet> = self.outbox.pop_front();
        assert(old(self)@.outbox.len() > 0 ==> self@.outbox =~= old(self)@.outbox.skip(1));
        assert(old(self)@.outbox.len() == 0 ==> self@.outbox =~= old(self)@.outbox);
        packet
    }

    /// Cuts the next event out of the received bytes; `None` asks for more.
    pub fn next_message(&mut self) -> (r: Result<Option<Message>, Error>)
        ensures
            match front(old(self)@.order, old(self)@.input) {
                Front::Partial => r matches Ok(m) && m is None && final(self)@ == old(self)@,
                Front::Bad => r == Err::<Option<Message>, Error>(Error::BadHeader) && final(self)@
                    == old(self)@,
                Front::Event(msg, rest) => r matches Ok(m) && m is Some && m.unwrap()@ == msg
                    && final(self)@ == (ConnectionView { input: rest, ..old(self)@ }),
            },
    {
        let len: usize = self.read_buf.len();
        if len < HEADER_SIZE {
            return Ok(None);
        }
        let sender: u32 = read_word(self.order, self.read_buf.as_slice(), 0);
        let packed: u32 = read_word(self.order, self.read_buf.as_slice(), 4);
        let opcode: u16 = (packed % 0x1_0000) as u16;
        let size: usize = (packed / 0x1_0000) as usize;
        if size < HEADER_SIZE {
            return Err(Error::BadHeader);
        }
        if len < size {
            return Ok(None);
        }
        let mut args: Vec<u8> = Vec::new();
        args.extend_from_slice(slice_subrange(self.read_buf.as_slice(), HEADER_SIZE, size));
        let rest: Vec<u8> = self.read_buf.split_off(size);
        self.read_buf = rest;
        assert(args@ =~= old(self)@.input.subrange(8, size as int));
        assert(self@.input =~= old(self)@.input.skip(size as int));
        Ok(Some(Message { sender, opcode, args }))
    }

    /// Takes in what one attempt to receive gave.
    pub fn recv(&mut self, tag: RightsTag, got: Received) -> (r: Result<(), Error>)
        ensures
            received(old(self)@, tag, got, final(self)@, r),
    {
        match got {
            Received::Failed { interrupted } => if interrupted {
                Ok(())
            } else {
                Err(Error::Io)
            },
            Received::Data { bytes, records } => {
                if bytes.len() == 0 {
                    return Err(Error::Closed);
                }
                let fds: Vec<i32> = harvest(self.order, tag, records.as_slice());
                let mut i: usize = 0;
                while i < fds.len()
                    invariant
                        i <= fds@.len(),
                        self.order == old(self).order,
                        self.read_buf == old(self).read_buf,
                        self.ids == old(self).ids,
                        self.outbox == old(self).outbox,
                        self.fds_in@ == old(self).fds_in@ + fds@.take(i as int),
                    decreases fds@.len() - i,
                {
                    self.fds_in.push_back(fds[i]);
                    assert(fds@.take(i + 1) =~= fds@.take(i as int).push(fds@[i as int]));
                    i += 1;
                }
                assert(fds@.take(i as int) =~= fds@);
                self.read_buf.extend_from_slice(bytes.as_slice());
                assert(self@.input =~= old(self)@.input + bytes@);
                Ok(())
            },
        }
    }
}

// Sending a packet.

/// What one attempt to send gave.
#[derive(Clone, Copy)]
pub enum Sent {
    /// So many bytes were accepted.
    Accepted(usize),
    /// The call failed, or was cut short by a signal.
    Failed { interrupted: bool },
}

/// What a [`Transmission`] holds.
#[verifier::ext_equal]
pub struct TransmissionView {
    pub packet: PacketView,
    /// Bytes that were accepted so far.
    pub sent: int,
}

impl TransmissionView {
    /// The bytes that were not accepted yet.
    pub open spec fn remaining(self) -> Seq<u8> {
        self.packet.bytes.skip(self.sent)
    }

    /// The descriptors that the next attempt carries: they ride along until the
    /// first byte was accepted, and never after.
    pub open spec fn attached(self) -> Seq<i32> {
        if self.sent == 0 {
            self.packet.fds
        } else {
            Seq::empty()
        }
    }

    /// The transmission once `n` more bytes were accepted.
    pub open spec fn accepted(self, n: nat) -> TransmissionView {
        TransmissionView { sent: self.sent + n, ..self }
    }
}

/// What the peer got by a row of attempts that accepted so many bytes each.
pub open spec fn delivered(t: TransmissionView, takes: Seq<nat>) -> Seq<u8>
    decreases takes.len(),
{
    if takes.len() == 0 {
        Seq::empty()
    } else {
        t.remaining().take(takes[0] as int) + delivered(t.accepted(takes[0]), takes.skip(1))
    }
}

/// How many bytes a row of attempts accepted.
pub open spec fn total(takes: Seq<nat>) -> nat
    decreases takes.len(),
{
    if takes.len() == 0 {
        0
    } else {
        takes[0] + total(takes.skip(1))
    }
}

/// However the socket takes a packet, the peer gets the bytes that it has
/// accepted, in order and once; all of them once none remain.
pub proof fn nothing_lost_or_repeated(t: TransmissionView, takes: Seq<nat>)
    requires
        0 <= t.sent,
        t.sent + total(takes) <= t.packet.bytes.len(),
    ensures
        delivered(t, takes) == t.remaining().take(total(takes) as int),
        t.sent + total(takes) == t.packet.bytes.len() ==> delivered(t, takes) == t.remaining(),
    decreases takes.len(),
{
    if takes.len() > 0 {
        nothing_lost_or_repeated(t.accepted(takes[0]), takes.skip(1));
    }
    assert(delivered(t, takes) =~= t.remaining().take(total(takes) as int));
}

/// The peer gets the descriptors of a packet with its first byte, and no
/// attempt after that carries them again.
pub proof fn descriptors_ride_once(t: TransmissionView, n: nat)
    requires
        t.sent == 0,
        n > 0,
    ensures
        t.attached() == t.packet.fds,
        t.accepted(n).attached().len() == 0,
        t.accepted(0) == t,
{
}

/// A packet on its way through the socket.
pub struct Transmission {
    packet: Packet,
    sent: usize,
}

impl View for Transmission {
    type V = TransmissionView;

    closed spec fn view(&self) -> TransmissionView {
        TransmissionView { packet: self.packet@, sent: self.sent as int }
    }
}

impl Transmission {
    #[verifier::type_invariant]
    closed spec fn inv(self) -> bool {
        self.sent <= self.packet.bytes@.len()
    }

    /// A packet of which nothing was sent.
    pub fn new(packet: Packet) -> (t: Transmission)
        ensures
            t@ == (TransmissionView { packet: packet@, sent: 0 }),
    {
        Transmission { packet, sent: 0 }
    }

    /// The bytes to offer next; none are left when the packet is through.
    pub fn remaining(&self) -> (bytes: &[u8])
        ensures
            bytes@ == self@.remaining(),
            self@.sent + bytes@.len() == self@.packet.bytes.len(),
    {
        proof {
            use_type_invariant(self);
        }
        let bytes: &[u8] = slice_subrange(
            self.packet.bytes.as_slice(),
            self.sent,
            self.packet.bytes.len(),
        );
        assert(bytes@ =~= self@.remaining());
        bytes
    }

    /// The descriptors to attach to the next attempt.
    pub fn attached(&self) -> (fds: &[i32])
        ensures
            fds@ == self@.attached(),
    {
        let fds: &[i32] = if self.sent == 0 {
            self.packet.fds.as_slice()
        } else {
            &[]
        };
        assert(fds@ =~= self@.attached());
        fds
    }

    /// Takes note of what one attempt gave.
    pub fn advance(&mut self, outcome: Sent) -> (r: Result<(), Error>)
        requires
            outcome matches Sent::Accepted(n) ==> n + old(self)@.sent <= old(
                self,
            )@.packet.bytes.len(),
        ensures
            match outcome {
                Sent::Accepted(n) => r is Ok && final(self)@ == old(self)@.accepted(n as nat),
                Sent::Failed { interrupted } => final(self)@ == old(self)@ && r == (
                if interrupted {
                    Ok::<(), Error>(())
                } else {
                    Err::<(), Error>(Error::Io)
                }),
            },
    {
        match outcome {
            Sent::Accepted(n) => {
                assert(self.sent + n <= self.packet.bytes.len());
                self.sent = self.sent + n;
                Ok(())
            },
            Sent::Failed { interrupted } => if interrupted {
                Ok(())
            } else {
                Err(Error::Io)
            },
        }
    }
}

// Where the compositor is.

/// What the environment says about the compositor.
pub struct DisplayEnv {
    /// `WAYLAND_SOCKET`: the number of an inherited descriptor.
    pub wayland_socket: Option<String>,
    /// `WAYLAND_DISPLAY`: the name of the display.
    pub wayland_display: Option<String>,
    /// Whether `XDG_RUNTIME_DIR` is set.
    pub has_runtime_dir: bool,
}

/// Where to connect to.
pub enum Endpoint {
    /// A descriptor that the parent process handed down.
    Inherited(i32),
    /// A path from the root.
    Absolute(String),
    /// A name in the runtime directory.
    InRuntimeDir(String),
}

/// What an [`Endpoint`] holds.
pub enum EndpointView {
    Inherited(i32),
    Absolute(Seq<char>),
    InRuntimeDir(Seq<char>),
}

impl View for Endpoint {
    type V = EndpointView;

    open spec fn view(&self) -> EndpointView {
        match self {
            Endpoint::Inherited(fd) => EndpointView::Inherited(*fd),
            Endpoint::Absolute(path) => EndpointView::Absolute(path@),
            Endpoint::InRuntimeDir(name) => EndpointView::InRuntimeDir(name@),
        }
    }
}

/// The inherited descriptor, if its number can be read.
pub open spec fn inherited_fd(env: DisplayEnv) -> Option<i32> {
    match env.wayland_socket {
        Some(s) => text::i32_of(s@),
        None => None,
    }
}

/// The name of the display.
pub open spec fn display_name(display: Option<&str>, env: DisplayEnv) -> Seq<char> {
    match (display, env.wayland_display) {
        (Some(name), _) => name@,
        (None, Some(name)) => name@,
        (None, None) => "wayland-0"@,
    }
}

/// Where to connect to. An inherited descriptor takes priority, then the
/// display by name, which defaults to `wayland-0`; an absolute name is used
/// verbatim, any other one is resolved against the runtime directory.
pub fn endpoint(display: Option<&str>, env: &DisplayEnv) -> (r: Result<Endpoint, Error>)
    ensures
        ({
            let name = display_name(display, *env);
            match inherited_fd(*env) {
                Some(fd) => r matches Ok(e) && e@ == EndpointView::Inherited(fd),
                None => if name.len() > 0 && name[0] == '/' {
                    r matches Ok(e) && e@ == EndpointView::Absolute(name)
                } else if env.has_runtime_dir {
                    r matches Ok(e) && e@ == EndpointView::InRuntimeDir(name)
                } else {
                    r == Err::<Endpoint, Error>(Error::NoRuntimeDir)
                },
            }
        }),
{
    if let Some(s) = &env.wayland_socket {
        if let Some(fd) = parse_i32(s.as_str()) {
            return Ok(Endpoint::Inherited(fd));
        }
    }
    let name: String = match display {
        Some(name) => name.to_owned(),
        None => match &env.wayland_display {
            Some(name) => name.clone(),
            None => "wayland-0".to_owned(),
        },
    };
    if starts_with_char(name.as_str(), '/') {
        Ok(Endpoint::Absolute(name))
    } else if env.has_runtime_dir {
        Ok(Endpoint::InRuntimeDir(name))
    } else {
        Err(Error::NoRuntimeDir)
    }
}

} // verus!
