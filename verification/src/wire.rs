//! Wayland wire protocol.
//!
//! Messages are a sequence of 32-bit words in host byte order. Every message
//! starts with an 8-byte header: the sender object id, then a word that packs
//! the total size in bytes (header counted) in its upper half and the opcode in
//! its lower half. Arguments follow, each padded to a 32-bit boundary. File
//! descriptors travel out of band, in the ancillary data of the socket.
//!
//! Here are the two ends of that format: [`Msg`] writes the arguments of a
//! request, [`ArgReader`] reads those of an event. Headers are put on and taken
//! off by the [connection](crate::connection).

use crate::bytes;
use crate::bytes::push_word;
use crate::bytes::read_word;
use crate::bytes::ByteOrder;
use vstd::prelude::*;
use vstd::slice::slice_subrange;

verus! {

broadcast use crate::bytes::word_len;

/// The `wl_display` object always has id 1.
pub const DISPLAY_ID: u32 = 1;

// Requests.

/// What a [`Msg`] holds.
#[verifier::ext_equal]
pub struct MsgView {
    pub order: ByteOrder,
    pub sender: u32,
    pub opcode: u16,
    pub body: Seq<u8>,
    pub fds: Seq<i32>,
}

/// `n` zero bytes.
pub open spec fn zeros(n: nat) -> Seq<u8> {
    Seq::new(n, |i: int| 0u8)
}

/// How many bytes are missing from `n` to the next 32-bit boundary.
pub open spec fn padding(n: nat) -> nat {
    ((4 - n % 4) % 4) as nat
}

/// A string argument: the length with the terminating NUL counted, the text,
/// the NUL, and zeros up to a 32-bit boundary.
pub open spec fn string_field(order: ByteOrder, s: Seq<char>) -> Seq<u8> {
    let text = vstd::utf8::encode_utf8(s);
    bytes::word(order, ((text.len() + 1) % 0x1_0000_0000) as u32) + text + zeros(
        1 + padding(text.len() + 1),
    )
}

/// A request being assembled for transmission to the compositor.
pub struct Msg {
    order: ByteOrder,
    sender: u32,
    opcode: u16,
    body: Vec<u8>,
    fds: Vec<i32>,
}

impl View for Msg {
    type V = MsgView;

    closed spec fn view(&self) -> MsgView {
        MsgView {
            order: self.order,
            sender: self.sender,
            opcode: self.opcode,
            body: self.body@,
            fds: self.fds@,
        }
    }
}

impl Msg {
    #[verifier::type_invariant]
    closed spec fn inv(self) -> bool {
        self.body@.len() % 4 == 0
    }

    /// An empty request in host byte order.
    pub fn new(sender: u32, opcode: u16) -> (msg: Msg)
        ensures
            msg@ == (MsgView {
                order: bytes::host_order(),
                sender,
                opcode,
                body: Seq::empty(),
                fds: Seq::empty(),
            }),
    {
        Msg::in_order(ByteOrder::native(), sender, opcode)
    }

    /// An empty request in the given byte order.
    pub fn in_order(order: ByteOrder, sender: u32, opcode: u16) -> (msg: Msg)
        ensures
            msg@ == (MsgView { order, sender, opcode, body: Seq::empty(), fds: Seq::empty() }),
    {
        let msg: Msg = Msg { order, sender, opcode, body: Vec::new(), fds: Vec::new() };
        assert(msg@ =~= (MsgView { order, sender, opcode, body: Seq::empty(), fds: Seq::empty() }));
        msg
    }

    pub fn uint(self, v: u32) -> (msg: Msg)
        ensures
            msg@ == (MsgView { body: self@.body + bytes::word(self@.order, v), ..self@ }),
    {
        proof {
            use_type_invariant(&self);
        }
        let mut body: Vec<u8> = self.body;
        push_word(self.order, &mut body, v);
        Msg { order: self.order, sender: self.sender, opcode: self.opcode, body, fds: self.fds }
    }

    /// An object reference argument; `0` encodes a null object.
    pub fn object(self, id: u32) -> (msg: Msg)
        ensures
            msg@ == (MsgView { body: self@.body + bytes::word(self@.order, id), ..self@ }),
    {
        self.uint(id)
    }

    /// A `new_id` argument for an object the client is creating.
    pub fn new_id(self, id: u32) -> (msg: Msg)
        ensures
            msg@ == (MsgView { body: self@.body + bytes::word(self@.order, id), ..self@ }),
    {
        self.uint(id)
    }

    pub fn string(self, s: &str) -> (msg: Msg)
        ensures
            msg@ == (MsgView { body: self@.body + string_field(self@.order, s@), ..self@ }),
    {
        proof {
            use_type_invariant(&self);
        }
        let ghost before = self@.body;
        let order: ByteOrder = self.order;
        let mut body: Vec<u8> = self.body;
        let text: &[u8] = s.as_bytes();
        // Length is prefixed and includes the trailing NUL terminator.
        let len: u32 = (text.len() as u32).wrapping_add(1);
        proof {
            length_word(text.len());
        }
        push_word(order, &mut body, len);
        body.extend_from_slice(text);
        body.push(0);
        let ghost unpadded = body@;
        let ghost mut pad: nat = 0;
        while body.len() % 4 != 0
            invariant
                body@ == unpadded + zeros(pad),
                pad <= padding(unpadded.len()),
            decreases padding(unpadded.len()) - pad,
        {
            body.push(0);
            proof {
                pad = pad + 1;
                assert(body@ =~= unpadded + zeros(pad));
            }
        }
        proof {
            assert(pad == padding(unpadded.len()));
            assert(unpadded.len() == before.len() + 4 + text@.len() + 1);
            assert(padding(unpadded.len()) == padding(text@.len() + 1));
            assert(zeros(1 + pad) =~= zeros(1) + zeros(pad));
            assert(body@ =~= before + string_field(order, s@));
        }
        Msg { order, sender: self.sender, opcode: self.opcode, body, fds: self.fds }
    }

    /// Attach a file descriptor; it is sent in ancillary data, not the body.
    pub fn fd(self, fd: i32) -> (msg: Msg)
        ensures
            msg@ == (MsgView { fds: self@.fds.push(fd), ..self@ }),
    {
        proof {
            use_type_invariant(&self);
        }
        let mut fds: Vec<i32> = self.fds;
        fds.push(fd);
        Msg { order: self.order, sender: self.sender, opcode: self.opcode, body: self.body, fds }
    }

    /// Takes the request apart: byte order, sender, opcode, body, descriptors.
    pub fn into_parts(self) -> (parts: (ByteOrder, u32, u16, Vec<u8>, Vec<i32>))
        ensures
            parts.0 == self@.order,
            parts.1 == self@.sender,
            parts.2 == self@.opcode,
            parts.3@ == self@.body,
            parts.4@ == self@.fds,
            self@.body.len() % 4 == 0,
    {
        proof {
            use_type_invariant(&self);
        }
        (self.order, self.sender, self.opcode, self.body, self.fds)
    }
}

/// Rounding up to a whole number of words adds the padding.
proof fn padded_len(n: nat)
    ensures
        (n + 3) / 4 * 4 == n + padding(n),
{
}

/// The length word counts one byte more than the text, modulo its width.
proof fn length_word(n: usize)
    ensures
        (n as u32 + 1) % 0x1_0000_0000 == (n + 1) % 0x1_0000_0000,
{
    assert((n as u32) as u64 == (n as u64) % 0x1_0000_0000u64) by (bit_vector);
}

// Events.

/// A decoded event received from the compositor.
pub struct Message {
    pub sender: u32,
    pub opcode: u16,
    pub args: Vec<u8>,
}

/// What a [`Message`] holds.
#[verifier::ext_equal]
pub struct MessageView {
    pub sender: u32,
    pub opcode: u16,
    pub args: Seq<u8>,
}

impl View for Message {
    type V = MessageView;

    open spec fn view(&self) -> MessageView {
        MessageView { sender: self.sender, opcode: self.opcode, args: self.args@ }
    }
}

/// What a lossy decoder makes of bytes that are not UTF-8.
pub uninterp spec fn utf8_repaired(bytes: Seq<u8>) -> Seq<char>;

/// The text of a string argument.
pub open spec fn lossy_text(bytes: Seq<u8>) -> Seq<char> {
    if vstd::utf8::valid_utf8(bytes) {
        vstd::utf8::decode_utf8(bytes)
    } else {
        utf8_repaired(bytes)
    }
}

/// Calls `String::from_utf8_lossy`. Valid UTF-8 is decoded as it stands; of
/// other bytes nothing is said but that the text depends on them alone.
#[verifier::external_body]
fn decode_lossy(bytes: &[u8]) -> (text: String)
    ensures
        text@ == (if vstd::utf8::valid_utf8(bytes@) {
            vstd::utf8::decode_utf8(bytes@)
        } else {
            utf8_repaired(bytes@)
        }),
{
    String::from_utf8_lossy(bytes).into_owned()
}

/// What an [`ArgReader`] holds.
#[verifier::ext_equal]
pub struct ArgView {
    pub order: ByteOrder,
    pub buf: Seq<u8>,
    pub pos: int,
}

impl ArgView {
    /// The arguments of an event, from the first one on.
    pub open spec fn start(order: ByteOrder, buf: Seq<u8>) -> ArgView {
        ArgView { order, buf, pos: 0 }
    }

    /// Whether a word is left.
    pub open spec fn has_uint(self) -> bool {
        self.pos + 4 <= self.buf.len()
    }

    /// The next word.
    pub open spec fn uint(self) -> u32 {
        bytes::unword(self.order, self.buf.subrange(self.pos, self.pos + 4))
    }

    /// The reader behind the next word.
    pub open spec fn after_uint(self) -> ArgView {
        ArgView { pos: self.pos + 4, ..self }
    }

    /// Whether a string is left: its length word, and all of its text.
    pub open spec fn has_string(self) -> bool {
        self.has_uint() && self.pos + 4 + self.uint() <= self.buf.len() + 1
    }

    /// The next string; `None` is the null string, of length 0.
    pub open spec fn string(self) -> Option<Seq<char>> {
        if self.uint() == 0 {
            None
        } else {
            Some(lossy_text(self.buf.subrange(self.pos + 4, self.pos + 4 + self.uint() - 1)))
        }
    }

    /// The reader behind the next string and its padding, or at the end of the
    /// buffer where the padding is cut short.
    pub open spec fn after_string(self) -> ArgView {
        let end = self.pos + 4 + self.uint() + padding(self.uint() as nat);
        ArgView {
            pos: if end <= self.buf.len() {
                end
            } else {
                self.buf.len() as int
            },
            ..self
        }
    }
}

/// Sequentially decodes the argument bytes of a received [`Message`].
pub struct ArgReader<'a> {
    order: ByteOrder,
    buf: &'a [u8],
    pos: usize,
}

impl<'a> View for ArgReader<'a> {
    type V = ArgView;

    closed spec fn view(&self) -> ArgView {
        ArgView { order: self.order, buf: self.buf@, pos: self.pos as int }
    }
}

impl<'a> ArgReader<'a> {
    #[verifier::type_invariant]
    closed spec fn inv(self) -> bool {
        self.pos <= self.buf@.len()
    }

    /// A reader in host byte order.
    pub fn new(buf: &'a [u8]) -> (r: Self)
        ensures
            r@ == ArgView::start(bytes::host_order(), buf@),
    {
        ArgReader::in_order(ByteOrder::native(), buf)
    }

    /// A reader in the given byte order.
    pub fn in_order(order: ByteOrder, buf: &'a [u8]) -> (r: Self)
        ensures
            r@ == ArgView::start(order, buf@),
    {
        ArgReader { order, buf, pos: 0 }
    }

    /// Whether a word is left.
    pub fn has_uint(&self) -> (yes: bool)
        ensures
            yes == self@.has_uint(),
    {
        proof {
            use_type_invariant(self);
        }
        self.buf.len() - self.pos >= 4
    }

    /// Whether a string is left.
    pub fn has_string(&self) -> (yes: bool)
        ensures
            yes == self@.has_string(),
    {
        proof {
            use_type_invariant(self);
        }
        if self.buf.len() - self.pos < 4 {
            return false;
        }
        let len: usize = read_word(self.order, self.buf, self.pos) as usize;
        len == 0 || len - 1 <= self.buf.len() - self.pos - 4
    }

    pub fn uint(&mut self) -> (v: u32)
        requires
            old(self)@.has_uint(),
        ensures
            v == old(self)@.uint(),
            final(self)@ == old(self)@.after_uint(),
    {
        proof {
            use_type_invariant(&*self);
        }
        let v: u32 = read_word(self.order, self.buf, self.pos);
        assert(self.pos + 4 <= self.buf.len());
        self.pos = self.pos + 4;
        v
    }

    /// An object reference; `0` means null.
    pub fn object(&mut self) -> (id: u32)
        requires
            old(self)@.has_uint(),
        ensures
            id == old(self)@.uint(),
            final(self)@ == old(self)@.after_uint(),
    {
        self.uint()
    }

    /// A `new_id` the compositor has allocated (server-side ids are high).
    pub fn new_id(&mut self) -> (id: u32)
        requires
            old(self)@.has_uint(),
        ensures
            id == old(self)@.uint(),
            final(self)@ == old(self)@.after_uint(),
    {
        self.uint()
    }

    /// A string argument; returns `None` for the null string (length 0).
    pub fn string(&mut self) -> (s: Option<String>)
        requires
            old(self)@.has_string(),
        ensures
            s is Some == old(self)@.string() is Some,
            s matches Some(text) ==> Some(text@) == old(self)@.string(),
            final(self)@ == old(self)@.after_string(),
    {
        let ghost before = self@;
        let len: usize = self.uint() as usize;
        proof {
            use_type_invariant(&*self);
            assert(self.pos == before.pos + 4 && self.buf@ == before.buf);
            assert(len == before.uint());
        }
        if len == 0 {
            return None;
        }
        assert(self.pos + (len - 1) <= self.buf.len());
        // `len` counts the NUL terminator; the text is the first len-1 bytes.
        let text: String = decode_lossy(slice_subrange(self.buf, self.pos, self.pos + (len - 1)));
        let padded: usize = (len + 3) / 4 * 4;
        proof {
            padded_len(len as nat);
            assert(text@ == lossy_text(
                before.buf.subrange(before.pos + 4, before.pos + 4 + before.uint() - 1),
            ));
        }
        if padded <= self.buf.len() - self.pos {
            self.pos = self.pos + padded;
        } else {
            self.pos = self.buf.len();
        }
        Some(text)
    }
}

// What was written is read back.

/// A word that a request holds is read back where it stands.
pub proof fn uint_roundtrip(order: ByteOrder, before: Seq<u8>, v: u32, behind: Seq<u8>)
    ensures
        ({
            let r = ArgView {
                order,
                buf: before + bytes::word(order, v) + behind,
                pos: before.len() as int,
            };
            &&& r.has_uint()
            &&& r.uint() == v
            &&& r.after_uint().pos == (before + bytes::word(order, v)).len()
        }),
{
    let buf = before + bytes::word(order, v) + behind;
    bytes::word_roundtrip(order, v);
    assert(buf.subrange(before.len() as int, before.len() as int + 4) =~= bytes::word(order, v));
}

/// A string that a request holds is read back where it stands, with the reader
/// behind its padding. The text has to be short enough for its length word.
pub proof fn string_roundtrip(order: ByteOrder, before: Seq<u8>, s: Seq<char>, behind: Seq<u8>)
    requires
        vstd::utf8::encode_utf8(s).len() + 1 <= u32::MAX,
    ensures
        ({
            let r = ArgView {
                order,
                buf: before + string_field(order, s) + behind,
                pos: before.len() as int,
            };
            &&& r.has_string()
            &&& r.string() == Some(s)
            &&& r.after_string().pos == (before + string_field(order, s)).len()
        }),
{
    let text = vstd::utf8::encode_utf8(s);
    let len = (text.len() + 1) as u32;
    let buf = before + string_field(order, s) + behind;
    let r = ArgView { order, buf, pos: before.len() as int };
    let start = before.len() as int;
    bytes::word_roundtrip(order, len);
    assert(buf.subrange(start, start + 4) =~= bytes::word(order, len));
    assert(r.uint() == len);
    assert(buf.subrange(start + 4, start + 4 + len - 1) =~= text);
    vstd::utf8::encode_utf8_valid_utf8(s);
    vstd::utf8::encode_utf8_decode_utf8(s);
}

} // verus!
