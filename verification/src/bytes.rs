//! Words in host byte order.
//!
//! The wire format and the descriptor payload of a control message are both
//! sequences of 32-bit words in the byte order of the machine. The order is a
//! plain value here, so that everything below it is a function of its
//! arguments.

use vstd::prelude::*;

verus! {

/// Order of the four bytes of a word.
#[derive(Clone, Copy, PartialEq, Eq, Structural, Debug)]
pub enum ByteOrder {
    Little,
    Big,
}

/// The `i`-th byte of `v`, counted from the least significant one.
pub open spec fn byte_of(v: u32, i: int) -> u8 {
    if i == 0 {
        (v % 0x100) as u8
    } else if i == 1 {
        ((v / 0x100) % 0x100) as u8
    } else if i == 2 {
        ((v / 0x1_0000) % 0x100) as u8
    } else {
        (v / 0x100_0000) as u8
    }
}

/// The four bytes of a word.
#[verifier::opaque]
pub open spec fn word(order: ByteOrder, v: u32) -> Seq<u8> {
    match order {
        ByteOrder::Little => seq![byte_of(v, 0), byte_of(v, 1), byte_of(v, 2), byte_of(v, 3)],
        ByteOrder::Big => seq![byte_of(v, 3), byte_of(v, 2), byte_of(v, 1), byte_of(v, 0)],
    }
}

/// The word that four bytes spell.
#[verifier::opaque]
pub open spec fn unword(order: ByteOrder, b: Seq<u8>) -> u32
    recommends
        b.len() == 4,
{
    match order {
        ByteOrder::Little => (b[0] + 0x100 * b[1] + 0x1_0000 * b[2] + 0x100_0000 * b[3]) as u32,
        ByteOrder::Big => (b[3] + 0x100 * b[2] + 0x1_0000 * b[1] + 0x100_0000 * b[0]) as u32,
    }
}

/// A word is four bytes.
pub broadcast proof fn word_len(order: ByteOrder, v: u32)
    ensures
        #[trigger] word(order, v).len() == 4,
{
    reveal(word);
}

/// Reading a word back gives what was written.
pub proof fn word_roundtrip(order: ByteOrder, v: u32)
    ensures
        unword(order, word(order, v)) == v,
{
    reveal(word);
    reveal(unword);
}

/// The byte order of the machine that runs the program.
pub open spec fn host_order() -> ByteOrder {
    match vstd::endian::endianness() {
        vstd::endian::Endian::Little => ByteOrder::Little,
        vstd::endian::Endian::Big => ByteOrder::Big,
    }
}

/// Calls `u32::to_ne_bytes`. The four bytes are those of `v` in the byte order
/// of the machine.
#[verifier::external_body]
fn native_bytes(v: u32) -> (b: [u8; 4])
    ensures
        b@ == word(host_order(), v),
{
    v.to_ne_bytes()
}

/// The order in which `probe` spells the number one.
pub fn order_of_one(probe: [u8; 4]) -> (order: ByteOrder)
    requires
        probe@ == word(ByteOrder::Little, 1) || probe@ == word(ByteOrder::Big, 1),
    ensures
        probe@ == word(order, 1),
{
    proof {
        reveal(word);
    }
    if probe[0] == 1 {
        assert(word(ByteOrder::Big, 1)[0] == 0);
        ByteOrder::Little
    } else {
        assert(word(ByteOrder::Little, 1)[0] == 1);
        ByteOrder::Big
    }
}

impl ByteOrder {
    /// The byte order of the machine. It is the same wherever it is asked for;
    /// which of the two it is depends on the machine, so no clause says.
    pub fn native() -> (order: ByteOrder)
        ensures
            order == host_order(),
    {
        let order: ByteOrder = order_of_one(native_bytes(1));
        proof {
            reveal(word);
            assert(word(ByteOrder::Little, 1)[0] == 1);
            assert(word(ByteOrder::Big, 1)[0] == 0);
        }
        order
    }
}

/// Appends a word.
pub fn push_word(order: ByteOrder, out: &mut Vec<u8>, v: u32)
    ensures
        final(out)@ == old(out)@ + word(order, v),
{
    proof {
        reveal(word);
    }
    let b0: u8 = (v % 0x100) as u8;
    let b1: u8 = ((v / 0x100) % 0x100) as u8;
    let b2: u8 = ((v / 0x1_0000) % 0x100) as u8;
    let b3: u8 = (v / 0x100_0000) as u8;
    match order {
        ByteOrder::Little => {
            out.push(b0);
            out.push(b1);
            out.push(b2);
            out.push(b3);
        },
        ByteOrder::Big => {
            out.push(b3);
            out.push(b2);
            out.push(b1);
            out.push(b0);
        },
    }
    assert(out@ =~= old(out)@ + word(order, v));
}

/// Reads the word at `pos`.
pub fn read_word(order: ByteOrder, buf: &[u8], pos: usize) -> (v: u32)
    requires
        pos + 4 <= buf@.len(),
    ensures
        v == unword(order, buf@.subrange(pos as int, pos + 4)),
{
    proof {
        reveal(unword);
    }
    let a: u32 = buf[pos] as u32;
    let b: u32 = buf[pos + 1] as u32;
    let c: u32 = buf[pos + 2] as u32;
    let d: u32 = buf[pos + 3] as u32;
    match order {
        ByteOrder::Little => a + 0x100 * b + 0x1_0000 * c + 0x100_0000 * d,
        ByteOrder::Big => d + 0x100 * c + 0x1_0000 * b + 0x100_0000 * a,
    }
}

} // verus!
