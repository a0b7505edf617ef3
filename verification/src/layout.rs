//! What the byte formats look like, byte by byte.
//!
//! Each law says of a piece of data what an observer finds in it who knows
//! nothing but positions and numbers: which bytes stand where, what they add up
//! to, and what is left of a stream once a piece was taken off.

use crate::bytes;
use crate::bytes::ByteOrder;
use crate::connection;
use crate::connection::ConnectionView;
use crate::connection::ControlRecord;
use crate::connection::DisplayEnv;
use crate::connection::Front;
use crate::connection::PacketView;
use crate::connection::Received;
use crate::connection::RightsTag;
use crate::connection::TransmissionView;
use crate::error::Error;
use crate::error::ErrorView;
use crate::error::Kind;
use crate::text;
use crate::wire;
use crate::wire::ArgView;
use crate::wire::MessageView;
use crate::wire::MsgView;
use vstd::prelude::*;

verus! {

broadcast use crate::bytes::word_len;

// Words.

/// The bytes of a word add up to it: the first byte counts least in the one
/// order, and most in the other.
pub proof fn bytes_add_up_to_the_word(v: u32)
    ensures
        ({
            let w = bytes::word(ByteOrder::Little, v);
            w.len() == 4 && v == w[0] + 256 * w[1] + 65536 * w[2] + 16777216 * w[3]
        }),
        ({
            let w = bytes::word(ByteOrder::Big, v);
            w.len() == 4 && v == 16777216 * w[0] + 65536 * w[1] + 256 * w[2] + w[3]
        }),
{
    reveal(bytes::word);
}

/// Four bytes are read as what they add up to.
pub proof fn bytes_are_read_as_their_sum(b: Seq<u8>)
    requires
        b.len() == 4,
    ensures
        bytes::unword(ByteOrder::Little, b) == b[0] + 256 * b[1] + 65536 * b[2] + 16777216 * b[3],
        bytes::unword(ByteOrder::Big, b) == 16777216 * b[0] + 65536 * b[1] + 256 * b[2] + b[3],
{
    reveal(bytes::unword);
}

proof fn digits_of_a_sum(a: u8, b: u8, c: u8, d: u8, v: u32)
    requires
        v == a + 256 * b + 65536 * c + 16777216 * d,
    ensures
        bytes::byte_of(v, 0) == a,
        bytes::byte_of(v, 1) == b,
        bytes::byte_of(v, 2) == c,
        bytes::byte_of(v, 3) == d,
{
    assert(v / 256 == b + 256 * c + 65536 * d);
    assert(v / 65536 == c + 256 * d);
    assert(v / 16777216 == d);
}

/// Every four bytes are the spelling of the word that they are read as.
pub proof fn every_spelling_is_of_its_word(order: ByteOrder, b: Seq<u8>)
    requires
        b.len() == 4,
    ensures
        bytes::word(order, bytes::unword(order, b)) == b,
{
    bytes_are_read_as_their_sum(b);
    reveal(bytes::word);
    let v = bytes::unword(order, b);
    match order {
        ByteOrder::Little => digits_of_a_sum(b[0], b[1], b[2], b[3], v),
        ByteOrder::Big => digits_of_a_sum(b[3], b[2], b[1], b[0], v),
    }
    assert(bytes::word(order, v) =~= b);
}

/// The order of the host is the one of the hardware.
pub proof fn host_order_is_the_hardware_order()
    ensures
        bytes::host_order() is Little <==> vstd::endian::endianness() is Little,
{
}

// Strings as arguments.

/// A string argument is a whole number of words: the first counts the text and
/// one byte more, the text follows in UTF-8, and nothing but zeros follow it, at
/// least one and at most four.
pub proof fn string_arguments_are_laid_out(order: ByteOrder, s: Seq<char>)
    requires
        vstd::utf8::encode_utf8(s).len() + 1 <= u32::MAX,
    ensures
        ({
            let f = wire::string_field(order, s);
            let n = vstd::utf8::encode_utf8(s).len() as int;
            &&& f.len() % 4 == 0
            &&& n + 5 <= f.len() <= n + 8
            &&& bytes::unword(order, f.subrange(0, 4)) == n + 1
            &&& f.subrange(4, 4 + n) == vstd::utf8::encode_utf8(s)
            &&& forall|i: int| 4 + n <= i < f.len() ==> #[trigger] f[i] == 0
        }),
{
    let f = wire::string_field(order, s);
    let text = vstd::utf8::encode_utf8(s);
    let len = (text.len() + 1) as u32;
    bytes::word_roundtrip(order, len);
    assert(f.subrange(0, 4) =~= bytes::word(order, len));
    assert(f.subrange(4, 4 + text.len() as int) =~= text);
}

/// A word is read from the four bytes at the reader, which moves behind them.
pub proof fn words_are_read_in_place(r: ArgView)
    requires
        0 <= r.pos,
    ensures
        r.has_uint() <==> r.pos + 4 <= r.buf.len(),
        r.has_uint() ==> bytes::word(r.order, r.uint()) == r.buf.subrange(r.pos, r.pos + 4),
        r.after_uint() == (ArgView { order: r.order, buf: r.buf, pos: r.pos + 4 }),
{
    if r.has_uint() {
        every_spelling_is_of_its_word(r.order, r.buf.subrange(r.pos, r.pos + 4));
    }
}

/// A string is read from a length word and the bytes behind it: length 0 is the
/// null string; else the text is one byte shorter than the length, and all of
/// it has to be there. The reader moves to the next word boundary counted from
/// the length word, if the buffer goes that far.
pub proof fn strings_are_read_in_place(r: ArgView)
    requires
        0 <= r.pos,
        r.has_uint(),
    ensures
        ({
            let n = r.uint() as int;
            let bytes = r.buf.subrange(r.pos + 4, r.pos + 4 + n - 1);
            &&& n == 0 ==> r.has_string() && r.string() is None && r.after_string().pos == r.pos + 4
            &&& n > 0 ==> (r.has_string() <==> r.pos + 4 + n - 1 <= r.buf.len())
            &&& n > 0 ==> r.string() is Some
            &&& n > 0 && vstd::utf8::valid_utf8(bytes) ==> vstd::utf8::encode_utf8(
                r.string().unwrap(),
            ) == bytes
            &&& r.after_string().order == r.order && r.after_string().buf == r.buf
            &&& r.has_string() && r.after_string().pos < r.buf.len() ==> {
                &&& (r.after_string().pos - r.pos) % 4 == 0
                &&& r.pos + 4 + n <= r.after_string().pos < r.pos + 4 + n + 4
            }
            &&& r.after_string().pos <= r.buf.len()
        }),
{
    let n = r.uint() as int;
    let bytes = r.buf.subrange(r.pos + 4, r.pos + 4 + n - 1);
    if n > 0 && vstd::utf8::valid_utf8(bytes) {
        vstd::utf8::decode_utf8_encode_utf8(bytes);
    }
}

// Messages.

/// A framed message is the sender, then a word with the size of the whole in
/// its upper half and the opcode in its lower half, then the body.
pub proof fn frames_are_laid_out(order: ByteOrder, sender: u32, opcode: u16, body: Seq<u8>)
    requires
        8 + body.len() <= 65535,
    ensures
        ({
            let f = connection::frame(order, sender, opcode, body);
            let second = bytes::unword(order, f.subrange(4, 8));
            &&& f.len() == 8 + body.len()
            &&& bytes::unword(order, f.subrange(0, 4)) == sender
            &&& second / 65536 == f.len()
            &&& second % 65536 == opcode
            &&& f.skip(8) == body
        }),
{
    let f = connection::frame(order, sender, opcode, body);
    let packed = ((8 + body.len()) * 0x1_0000 + opcode) as u32;
    bytes::word_roundtrip(order, sender);
    bytes::word_roundtrip(order, packed);
    assert(f.subrange(0, 4) =~= bytes::word(order, sender));
    assert(f.subrange(4, 8) =~= bytes::word(order, packed));
    assert(f.skip(8) =~= body);
}

/// What is cut off the front of a stream is a frame of it, and what is left is
/// the rest. A message is cut off as soon as all of it is there, and a stream is
/// given up only over a header that announces fewer bytes than its own eight.
pub proof fn streams_are_cut_without_loss(order: ByteOrder, input: Seq<u8>)
    ensures
        connection::front(order, input) matches Front::Event(msg, rest) ==> connection::frame(
            order,
            msg.sender,
            msg.opcode,
            msg.args,
        ) + rest == input && 8 + msg.args.len() <= 65535,
        input.len() < 8 ==> connection::front(order, input) is Partial,
        input.len() >= 8 ==> ({
            let size = bytes::unword(order, input.subrange(4, 8)) as int / 65536;
            &&& connection::front(order, input) is Bad <==> size < 8
            &&& connection::front(order, input) is Partial <==> size >= 8 && size > input.len()
            &&& connection::front(order, input) matches Front::Event(msg, _) ==> 8 + msg.args.len()
                == size
        }),
{
    if input.len() >= 8 {
        let packed = bytes::unword(order, input.subrange(4, 8));
        let size = packed as int / 65536;
        every_spelling_is_of_its_word(order, input.subrange(0, 4));
        every_spelling_is_of_its_word(order, input.subrange(4, 8));
        if 8 <= size <= input.len() {
            let args = input.subrange(8, size);
            let opcode = (packed % 0x1_0000) as u16;
            let sender = bytes::unword(order, input.subrange(0, 4));
            assert(((8 + args.len()) * 0x1_0000 + opcode) as u32 == packed);
            assert(connection::frame(order, sender, opcode, args) + input.skip(size) =~= input);
        }
    }
}

/// The packet of a request holds its frame and its descriptors.
pub proof fn packets_hold_their_request(msg: MsgView)
    requires
        8 + msg.body.len() <= 65535,
    ensures
        connection::front(msg.order, connection::packet_of(msg).bytes) == Front::Event(
            MessageView { sender: msg.sender, opcode: msg.opcode, args: msg.body },
            Seq::empty(),
        ),
        connection::packet_of(msg).fds == msg.fds,
{
    let bytes = connection::packet_of(msg).bytes;
    connection::frame_roundtrip(msg.order, msg.sender, msg.opcode, msg.body, Seq::empty());
    assert(bytes + Seq::<u8>::empty() =~= bytes);
}

// Descriptors.

/// Each descriptor takes four bytes of a payload, in order.
pub proof fn descriptors_are_laid_out(order: ByteOrder, fds: Seq<i32>, i: int)
    requires
        0 <= i < fds.len(),
    ensures
        connection::rights(order, fds).len() == 4 * fds.len(),
        connection::rights(order, fds).subrange(4 * i, 4 * i + 4) == bytes::word(
            order,
            fds[i] as u32,
        ),
    decreases fds.len(),
{
    connection::rights_roundtrip(order, fds);
    connection::rights_roundtrip(order, fds.drop_last());
    let payload = connection::rights(order, fds);
    if i < fds.len() - 1 {
        descriptors_are_laid_out(order, fds.drop_last(), i);
        assert(payload.subrange(4 * i, 4 * i + 4) =~= connection::rights(
            order,
            fds.drop_last(),
        ).subrange(4 * i, 4 * i + 4));
    } else {
        assert(payload.subrange(4 * i, 4 * i + 4) =~= bytes::word(order, fds[i] as u32));
    }
}

/// Of the control messages, those that carry the tag give up their descriptors,
/// one for each whole word and in the order in which they came; the others give
/// up none.
pub proof fn only_tagged_records_are_harvested(
    order: ByteOrder,
    tag: RightsTag,
    records: Seq<ControlRecord>,
    record: ControlRecord,
    fds: Seq<i32>,
)
    ensures
        connection::harvested(order, tag, Seq::empty()) == Seq::<i32>::empty(),
        record.level != tag.level || record.kind != tag.kind ==> connection::harvested(
            order,
            tag,
            records.push(record),
        ) == connection::harvested(order, tag, records),
        record.level == tag.level && record.kind == tag.kind && record.payload@
            == connection::rights(order, fds) ==> connection::harvested(
            order,
            tag,
            records.push(record),
        ) == connection::harvested(order, tag, records) + fds,
        record.level == tag.level && record.kind == tag.kind ==> connection::harvested(
            order,
            tag,
            records.push(record),
        ).len() == connection::harvested(order, tag, records).len() + record.payload@.len() / 4,
{
    assert(records.push(record).drop_last() =~= records);
    connection::rights_roundtrip(order, fds);
    assert(connection::harvested(order, tag, records) + Seq::<i32>::empty()
        =~= connection::harvested(order, tag, records));
}

/// The descriptors of a control message are its whole words, from the first on.
pub proof fn whole_words_are_descriptors(order: ByteOrder, payload: Seq<u8>, i: int)
    requires
        0 <= i < payload.len() / 4,
    ensures
        connection::rights_fds(order, payload).len() == payload.len() / 4,
        bytes::word(order, connection::rights_fds(order, payload)[i] as u32) == payload.subrange(
            4 * i,
            4 * i + 4,
        ),
{
    let w = bytes::unword(order, payload.subrange(4 * i, 4 * i + 4));
    every_spelling_is_of_its_word(order, payload.subrange(4 * i, 4 * i + 4));
    assert((w as i32) as u32 == w) by (bit_vector);
}

/// Bytes that were received wait behind those that wait already, and so do the
/// descriptors of the control messages that came with them.
pub proof fn what_is_received_waits_in_line(
    before: ConnectionView,
    tag: RightsTag,
    bytes: Vec<u8>,
    records: Vec<ControlRecord>,
    after: ConnectionView,
    r: Result<(), Error>,
)
    requires
        bytes@.len() > 0,
        connection::received(before, tag, Received::Data { bytes, records }, after, r),
    ensures
        r is Ok,
        after == (ConnectionView {
            input: before.input + bytes@,
            fds: before.fds + connection::harvested(before.order, tag, records@),
            ..before
        }),
{
}

/// What was sent in one packet is there after it was received: the bytes behind
/// those that waited, the descriptors behind those that waited.
pub proof fn what_was_sent_is_received(
    before: ConnectionView,
    tag: RightsTag,
    bytes: Vec<u8>,
    records: Vec<ControlRecord>,
    fds: Seq<i32>,
    after: ConnectionView,
    r: Result<(), Error>,
)
    requires
        bytes@.len() > 0,
        records@.len() == 1,
        records@[0].level == tag.level,
        records@[0].kind == tag.kind,
        records@[0].payload@ == connection::rights(before.order, fds),
        connection::received(before, tag, Received::Data { bytes, records }, after, r),
    ensures
        r is Ok,
        after.input == before.input + bytes@,
        after.fds == before.fds + fds,
        after.order == before.order,
        after.next_id == before.next_id,
        after.outbox == before.outbox,
{
    only_tagged_records_are_harvested(
        before.order,
        tag,
        Seq::empty(),
        records@[0],
        fds,
    );
    assert(records@ =~= Seq::empty().push(records@[0]));
    assert(Seq::<i32>::empty() + fds =~= fds);
}

/// An attempt to receive that gives nothing changes nothing: an interrupted one
/// is no failure, one that the system refused is, and one without bytes means
/// that the connection was closed.
pub proof fn nothing_received_changes_nothing(
    before: ConnectionView,
    tag: RightsTag,
    got: Received,
    after: ConnectionView,
    r: Result<(), Error>,
)
    requires
        connection::received(before, tag, got, after, r),
        got matches Received::Data { bytes, .. } ==> bytes@.len() == 0,
    ensures
        after == before,
        r is Ok <==> (got matches Received::Failed { interrupted } && interrupted),
        got is Data ==> r == Err::<(), Error>(Error::Closed),
        (got matches Received::Failed { interrupted } && !interrupted) ==> r == Err::<(), Error>(
            Error::Io,
        ),
{
}

/// A fresh id is the one that was next, and leaves all else as it was.
pub proof fn ids_count_up(conn: ConnectionView)
    requires
        conn.next_id < u32::MAX,
    ensures
        conn.allocated().next_id == conn.next_id + 1,
        conn.allocated() == (ConnectionView { next_id: conn.allocated().next_id, ..conn }),
{
}

/// A packet waits behind those that wait already. A request is refused exactly
/// where it needs more than 65535 bytes, and then nothing is queued.
pub proof fn packets_wait_in_line(conn: ConnectionView, packet: PacketView, msg: MsgView)
    ensures
        conn.queued(packet) == (ConnectionView { outbox: conn.outbox + seq![packet], ..conn }),
        conn.sent(msg).1 <==> 8 + msg.body.len() <= 65535,
        conn.sent(msg).1 ==> conn.sent(msg).0 == (ConnectionView {
            outbox: conn.outbox + seq![connection::packet_of(msg)],
            ..conn
        }),
        !conn.sent(msg).1 ==> conn.sent(msg).0 == conn,
{
    assert(conn.outbox.push(packet) =~= conn.outbox + seq![packet]);
    assert(conn.outbox.push(connection::packet_of(msg)) =~= conn.outbox + seq![
        connection::packet_of(msg),
    ]);
}

/// A packet arrives whole, however the socket takes it, and with its first byte
/// come its descriptors, which never come again.
pub proof fn packets_arrive_whole(packet: PacketView, takes: Seq<nat>, sent: int)
    requires
        connection::total(takes) == packet.bytes.len(),
    ensures
        connection::delivered(TransmissionView { packet, sent: 0 }, takes) == packet.bytes,
        (TransmissionView { packet, sent: 0 }).attached() == packet.fds,
        sent > 0 ==> (TransmissionView { packet, sent }).attached() == Seq::<i32>::empty(),
{
    let t = TransmissionView { packet, sent: 0 };
    connection::nothing_lost_or_repeated(t, takes);
    assert(t.remaining() =~= packet.bytes);
}

// Where the compositor is.

/// A display that is named beats the one of the environment, and without either
/// it is `wayland-0`. A descriptor is inherited where the environment spells a
/// number for it, with or without a sign.
pub proof fn the_display_is_resolved(name: &str, env: DisplayEnv, n: nat)
    ensures
        connection::display_name(Some(name), env) == name@,
        env.wayland_display matches Some(d) ==> connection::display_name(None, env) == d@,
        env.wayland_display is None ==> connection::display_name(None, env) == "wayland-0"@,
        env.wayland_socket is None ==> connection::inherited_fd(env) is None,
        (env.wayland_socket matches Some(s) && s@ == text::decimal(n)) ==> (
        connection::inherited_fd(env) == (if n <= i32::MAX {
            Some(n as i32)
        } else {
            None
        })),
        (env.wayland_socket matches Some(s) && s@.len() == 0) ==> connection::inherited_fd(
            env,
        ) is None,
{
    numbers_are_read_back(n);
}

// Numbers.

/// A number in decimal: a single digit stands for itself, and each further one
/// multiplies by ten what stands before it.
pub proof fn decimal_is_positional(n: nat, d: nat)
    requires
        d < 10,
    ensures
        text::decimal(d) == seq![('0' as u32 + d) as char],
        n > 0 ==> text::decimal(10 * n + d) == text::decimal(n).push(('0' as u32 + d) as char),
        text::digits_value(text::decimal(n)) == n,
        text::is_digits(text::decimal(n)),
        n > 0 ==> text::decimal(n)[0] != '0',
{
    decimal_spells(n);
    if n > 0 {
        let m = 10 * n + d;
        assert(m / 10 == n && m % 10 == d);
    }
}

proof fn decimal_spells(n: nat)
    ensures
        text::digits_value(text::decimal(n)) == n,
        text::is_digits(text::decimal(n)),
        n > 0 ==> text::decimal(n)[0] != '0',
    decreases n,
{
    let s = text::decimal(n);
    if n < 10 {
        assert(s.drop_last() =~= Seq::empty());
        assert(text::digits_value(s.drop_last()) == 0);
        assert(s.last() == text::digit(n));
    } else {
        decimal_spells(n / 10);
        assert(s.drop_last() =~= text::decimal(n / 10));
        assert(s.last() == text::digit(n % 10));
        assert forall|i: int| 0 <= i < s.len() implies text::is_digit(#[trigger] s[i]) by {
            if i < s.len() - 1 {
                assert(s[i] == text::decimal(n / 10)[i]);
            }
        }
        assert(s[0] == text::decimal(n / 10)[0]);
    }
}

/// A number in decimal is read back, with a plus sign before it or without one,
/// as far as it fits; after a minus sign its negative is.
pub proof fn numbers_are_read_back(n: nat)
    ensures
        ({
            let plain = text::decimal(n);
            let unsigned = if n <= u32::MAX {
                Some(n as u32)
            } else {
                None
            };
            let signed = if n <= i32::MAX {
                Some(n as i32)
            } else {
                None
            };
            let negative = if n <= 2147483648 {
                Some((-(n as int)) as i32)
            } else {
                None
            };
            &&& text::u32_of(plain) == unsigned
            &&& text::u32_of(seq!['+'] + plain) == unsigned
            &&& text::u32_of(seq!['-'] + plain) is None
            &&& text::i32_of(plain) == signed
            &&& text::i32_of(seq!['+'] + plain) == signed
            &&& text::i32_of(seq!['-'] + plain) == negative
        }),
{
    let plain = text::decimal(n);
    decimal_spells(n);
    assert(text::is_digit(plain[0]));
    assert((seq!['+'] + plain).skip(1) =~= plain);
    assert((seq!['-'] + plain).skip(1) =~= plain);
    assert((seq!['-'] + plain)[0] == '-');
    assert((seq!['+'] + plain)[0] == '+');
}

/// Nothing is read as a number that holds anything but digits behind its sign,
/// or no digit at all.
pub proof fn only_digits_are_numbers(s: Seq<char>, i: int)
    ensures
        s.len() == 0 ==> text::u32_of(s) is None && text::i32_of(s) is None,
        s == seq!['+'] || s == seq!['-'] ==> text::u32_of(s) is None && text::i32_of(s) is None,
        0 < i < s.len() && !('0' <= s[i] <= '9') ==> text::u32_of(s) is None && text::i32_of(
            s,
        ) is None,
        s.len() > 0 && !('0' <= s[0] <= '9') && s[0] != '+' ==> text::u32_of(s) is None,
        s.len() > 0 && !('0' <= s[0] <= '9') && s[0] != '+' && s[0] != '-' ==> text::i32_of(
            s,
        ) is None,
{
    if 0 < i < s.len() && !('0' <= s[i] <= '9') {
        assert(s.skip(1)[i - 1] == s[i]);
        assert(!text::is_digit(s.skip(1)[i - 1]));
        assert(!text::is_digit(s[i]));
    }
    if s.len() > 0 {
        assert(text::is_digit(s[0]) == ('0' <= s[0] <= '9'));
        assert(!text::is_digit('-') && !text::is_digit('+'));
    }
}

/// Leading zeros count for nothing, and each digit for ten times what it would
/// count for without the one behind it.
pub proof fn digits_count_by_place(s: Seq<char>, c: char)
    requires
        '0' <= c <= '9',
    ensures
        text::digits_value(Seq::empty()) == 0,
        text::digits_value(s.push(c)) == 10 * text::digits_value(s) + (c as int - '0' as int),
{
    assert(s.push(c).drop_last() =~= s);
}

/// A text begins with a prefix exactly where it is that prefix and something
/// more.
pub proof fn prefixes_are_followed(s: Seq<char>, prefix: Seq<char>, tail: Seq<char>)
    ensures
        text::begins_with(prefix + tail, prefix),
        text::begins_with(s, prefix) ==> s == prefix + s.skip(prefix.len() as int),
{
    assert((prefix + tail).take(prefix.len() as int) =~= prefix);
    if text::begins_with(s, prefix) {
        assert(s =~= s.take(prefix.len() as int) + s.skip(prefix.len() as int));
    }
}

/// Strings are shown one by one, in place and character by character, and so is
/// a string that may be missing or may be an error.
pub proof fn strings_are_shown_in_place(
    s: Seq<String>,
    i: int,
    t: String,
    u: &str,
    chosen: crate::args::Selection,
)
    ensures
        text::texts(s).len() == s.len(),
        0 <= i < s.len() ==> text::texts(s)[i] == s[i]@,
        text::optional(Some(t)) == Some(t@),
        text::optional(None) is None,
        text::optional_str(Some(u)) == Some(u@),
        text::optional_str(None) is None,
        text::outcome(Err::<crate::args::Selection, String>(t)) == Err::<
            crate::args::Selection,
            Seq<char>,
        >(t@),
        text::outcome(Ok::<crate::args::Selection, String>(chosen)) == Ok::<
            crate::args::Selection,
            Seq<char>,
        >(chosen),
{
}

/// An event is shown as what was read, or as missing where nothing was.
pub proof fn events_are_shown_as_they_are(e: crate::proto::Event)
    ensures
        crate::proto::event_view(Some(e)) == Some(e@),
        crate::proto::event_view(None) is None,
        e matches crate::proto::Event::NewOffer(id) ==> e@ == crate::proto::EventView::NewOffer(id),
        e matches crate::proto::Event::Selection(id) ==> e@ == crate::proto::EventView::Selection(
            id,
        ),
        e matches crate::proto::Event::PrimarySelection(id) ==> e@
            == crate::proto::EventView::PrimarySelection(id),
        e matches crate::proto::Event::Mime { offer, mime } ==> e@ == (
        crate::proto::EventView::Mime { offer, mime: mime@ }),
        e matches crate::proto::Event::Global { name, interface, version } ==> e@ == (
        crate::proto::EventView::Global { name, interface: interface@, version }),
        e matches crate::proto::Event::Fault { object, code, text } ==> e@ == (
        crate::proto::EventView::Fault { object, code, text: text@ }),
        e is DeviceFinished <==> e@ is DeviceFinished,
        e is PasteRequest <==> e@ is PasteRequest,
        e is Cancelled <==> e@ is Cancelled,
        e is Ignored <==> e@ is Ignored,
{
}

// Values and what is said of them.

/// What the contracts say of the settings is what the settings hold.
pub proof fn settings_are_shown_as_they_are(a: crate::args::Args)
    ensures
        a@.mode == a.mode,
        a@.selection == a.selection,
        a@.loops == a.loops,
        a@.rmlastnl == a.rmlastnl,
        a@.filter == a.filter,
        a@.foreground == a.foreground,
        a@.show_help == a.show_help,
        a@.show_version == a.show_version,
        a.target matches Some(t) ==> a@.target == Some(t@),
        a.target is None ==> a@.target is None,
        a.display matches Some(d) ==> a@.display == Some(d@),
        a.display is None ==> a@.display is None,
        a@.files == text::texts(a.files@),
{
}

/// What the contracts say of the state of a session is what it holds.
pub proof fn the_state_is_shown_as_it_is(st: crate::proto::State, offer: u32)
    ensures
        st@.registry_id == st.registry_id,
        st@.seat_global == st.seat_global,
        st@.manager_id == st.manager_id,
        st@.device_id == st.device_id,
        st@.source_id == st.source_id,
        st@.selection == st.selection,
        st@.primary_selection == st.primary_selection,
        st@.data == st.data@,
        st@.loops == st.loops,
        st@.served == st.served,
        st@.finished == st.finished,
        st@.cancelled == st.cancelled,
        st.manager is None <==> st@.manager is None,
        st.manager matches Some(m) ==> {
            &&& st@.manager.unwrap().name == m.name
            &&& st@.manager.unwrap().interface == m.interface@
            &&& st@.manager.unwrap().version == m.version
            &&& st@.manager.unwrap().rank == m.rank
        },
        st@.offers.contains_key(offer) <==> st.offers@.contains_key(offer),
        st.offers@.contains_key(offer) ==> st@.offers[offer] == text::texts(
            st.offers@[offer]@,
        ),
{
}

/// What the contracts say of messages, packets and steps is what they hold.
pub proof fn values_are_shown_as_they_are(
    m: wire::Message,
    p: connection::Packet,
    e: connection::Endpoint,
    s: crate::copy::Source,
    t: crate::paste::Step,
    x: Error,
)
    ensures
        m@ == (MessageView { sender: m.sender, opcode: m.opcode, args: m.args@ }),
        p@ == (PacketView { bytes: p.bytes@, fds: p.fds@ }),
        e matches connection::Endpoint::Inherited(fd) ==> e@
            == connection::EndpointView::Inherited(fd),
        e matches connection::Endpoint::Absolute(n) ==> e@ == connection::EndpointView::Absolute(
            n@,
        ),
        e matches connection::Endpoint::InRuntimeDir(n) ==> e@
            == connection::EndpointView::InRuntimeDir(n@),
        s is Stdin ==> s@ is Stdin,
        s matches crate::copy::Source::File(n) ==> s@ == crate::copy::SourceView::File(n@),
        t matches crate::paste::Step::Print(b) ==> t@ == crate::paste::StepView::Print(b@),
        t is Receive <==> t@ is Receive,
        t is Continue <==> t@ is Continue,
        t is OpenPipe <==> t@ is OpenPipe,
        t is ReadPipe <==> t@ is ReadPipe,
        t is Done <==> t@ is Done,
        x is TooLarge <==> x@ is TooLarge,
        x is BadHeader <==> x@ is BadHeader,
        x is Malformed <==> x@ is Malformed,
        x is Closed <==> x@ is Closed,
        x is Io <==> x@ is Io,
        x is NoRuntimeDir <==> x@ is NoRuntimeDir,
        x is NoManager <==> x@ is NoManager,
        x is NoSeat <==> x@ is NoSeat,
        x is NoPrimary <==> x@ is NoPrimary,
        x is NoData <==> x@ is NoData,
        x matches Error::NoTarget(n) ==> x@ == ErrorView::NoTarget(n@),
        x matches Error::Protocol { object, code, text } ==> x@ == (ErrorView::Protocol {
            object,
            code,
            text: text@,
        }),
{
}

// What the user is told.

/// A result is as described only where both succeed with the same, or both fail
/// in the same way.
pub proof fn results_are_as_described(
    r: Result<crate::proto::Progress, Error>,
    d: Result<crate::proto::Progress, ErrorView>,
    s: Result<crate::paste::Step, Error>,
    e: Result<crate::paste::StepView, ErrorView>,
)
    ensures
        crate::proto::gives(r, d) <==> {
            ||| r is Ok && d is Ok && r->Ok_0 == d->Ok_0
            ||| r is Err && d is Err && r->Err_0@ == d->Err_0
        },
        crate::paste::gives(s, e) <==> {
            ||| s is Ok && e is Ok && s->Ok_0@ == e->Ok_0
            ||| s is Err && e is Err && s->Err_0@ == e->Err_0
        },
{
}

/// The line for a failure quotes what failed: the text and the numbers of a
/// protocol error, the target that is not offered.
pub proof fn messages_quote_their_cause(object: u32, code: u32, cause: Seq<char>)
    ensures
        (ErrorView::Protocol { object, code, text: cause }).message()
            == "Wayland protocol error from object "@ + text::decimal(object as nat) + " (code "@
            + text::decimal(code as nat) + "): "@ + cause,
        ErrorView::NoTarget(cause).message() == "the selection does not offer the target '"@ + cause
            + "'"@,
        ErrorView::NoManager.message()
            == "the compositor does not support the wlr-data-control or ext-data-control protocol"@,
        ErrorView::NoSeat.message() == "the compositor exposes no wl_seat"@,
        ErrorView::NoPrimary.message() == "the compositor does not support the primary selection"@,
        ErrorView::NoData.message() == "the selection offers no data"@,
        ErrorView::TooLarge.message() == "message too large"@,
        ErrorView::BadHeader.message() == "malformed Wayland message header"@,
        ErrorView::NoRuntimeDir.message() == "XDG_RUNTIME_DIR is not set"@,
        ErrorView::Closed.message() == "the Wayland connection was closed by the compositor"@,
        ErrorView::NoManager.kind() == Kind::Unsupported,
        ErrorView::NoSeat.kind() == Kind::Unsupported,
        ErrorView::TooLarge.kind() == Kind::InvalidInput,
        ErrorView::BadHeader.kind() == Kind::InvalidData,
        ErrorView::Closed.kind() == Kind::UnexpectedEof,
        ErrorView::NoRuntimeDir.kind() == Kind::NotFound,
        ErrorView::NoPrimary.kind() == Kind::Other,
        ErrorView::NoData.kind() == Kind::Other,
        ErrorView::NoTarget(cause).kind() == Kind::Other,
        ErrorView::Io.kind() == Kind::Other,
        ErrorView::Malformed.kind() == Kind::InvalidData,
        (ErrorView::Protocol { object, code, text: cause }).kind() == Kind::Other,
{
}

} // verus!
