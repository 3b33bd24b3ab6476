//! The binary packet before encryption: length, padding length, payload and
//! padding.

use vstd::prelude::*;
use crate::wire::{put_bytes, put_u32, u32_be};

verus! {

/// The least padding that a packet can carry.
pub const MIN_PADDING: usize = 4;

/// The most padding that a packet can carry.
pub const MAX_PADDING: usize = 255;

/// The largest packet length that is accepted unless the caller says
/// otherwise.
pub const MAX_PACKET_LENGTH: u32 = 35000;

/// The number of bytes that alignment counts for a payload of `n` bytes
/// without its padding: the padding length byte and the payload, and the
/// length field too unless it stays in clear (`etm`).
pub open spec fn aligned_part(etm: bool, n: nat) -> nat {
    if etm {
        n + 1
    } else {
        n + 5
    }
}

/// Whether `pad` bytes of padding are acceptable after a payload of `n` bytes:
/// at least 4, at most 255, and filling the last block.
pub open spec fn padding_ok(block: nat, etm: bool, n: nat, pad: nat) -> bool {
    MIN_PADDING <= pad <= MAX_PADDING && (aligned_part(etm, n) + pad) % block == 0
}

/// The least acceptable padding after a payload of `n` bytes.
pub open spec fn padding_len(block: nat, etm: bool, n: nat) -> nat {
    let fill = (block - aligned_part(etm, n) % block) as nat;
    if fill < MIN_PADDING {
        fill + block
    } else {
        fill
    }
}

/// The value of the length field of a packet.
pub open spec fn packet_length(n: nat, pad: nat) -> nat {
    1 + n + pad
}

/// The packet that carries `payload` with `padding`.
pub open spec fn packet_bytes(payload: Seq<u8>, padding: Seq<u8>) -> Seq<u8> {
    u32_be(packet_length(payload.len(), padding.len()) as u32) + seq![padding.len() as u8] + payload
        + padding
}

/// The payload of a packet whose bytes after the length field are `body`;
/// `None` where the padding length is under 4 or more than the packet holds.
pub open spec fn payload_of(body: Seq<u8>) -> Option<Seq<u8>> {
    if body.len() >= 1 && body[0] >= MIN_PADDING && body[0] + 1 <= body.len() {
        Some(body.subrange(1, body.len() - body[0]))
    } else {
        None
    }
}

/// The least padding is acceptable padding.
pub proof fn lemma_padding_len_ok(block: nat, etm: bool, n: nat)
    requires
        block == 8 || block == 16,
    ensures
        padding_ok(block, etm, n, padding_len(block, etm, n)),
{
    let a = aligned_part(etm, n);
    if block == 8 {
        let fill = (8 - a % 8) as nat;
        assert((a + fill) % 8 == 0);
        assert((a + fill + 8) % 8 == 0);
    } else {
        let fill = (16 - a % 16) as nat;
        assert((a + fill) % 16 == 0);
        assert((a + fill + 16) % 16 == 0);
    }
}

/// A packet's body gives back its payload.
pub proof fn lemma_payload_of_packet(payload: Seq<u8>, padding: Seq<u8>)
    requires
        MIN_PADDING <= padding.len() <= MAX_PADDING,
    ensures
        packet_bytes(payload, padding).len() == 5 + payload.len() + padding.len(),
        payload_of(packet_bytes(payload, padding).skip(4)) == Some(payload),
{
    let body = packet_bytes(payload, padding).skip(4);
    crate::wire::lemma_u32_round_trip(packet_length(payload.len(), padding.len()) as u32);
    assert(body =~= seq![padding.len() as u8] + payload + padding);
    assert(body.subrange(1, body.len() - body[0]) =~= payload);
}

/// The least acceptable padding after a payload of `n` bytes.
pub fn padding_for(block: usize, etm: bool, n: usize) -> (r: usize)
    requires
        block == 8 || block == 16,
        n <= u32::MAX,
    ensures
        r == padding_len(block as nat, etm, n as nat),
        padding_ok(block as nat, etm, n as nat, r as nat),
{
    proof {
        lemma_padding_len_ok(block as nat, etm, n as nat);
    }
    let a: u64 = if etm {
        n as u64 + 1
    } else {
        n as u64 + 5
    };
    let fill: usize = block - (a % (block as u64)) as usize;
    if fill < MIN_PADDING {
        fill + block
    } else {
        fill
    }
}

/// The packet that carries `payload` with `padding`.
pub fn build_packet(payload: &[u8], padding: &[u8]) -> (r: Vec<u8>)
    requires
        padding@.len() <= MAX_PADDING,
        packet_length(payload@.len(), padding@.len()) <= u32::MAX,
    ensures
        r@ == packet_bytes(payload@, padding@),
{
    let mut r: Vec<u8> = Vec::new();
    put_u32(&mut r, (1 + payload.len() + padding.len()) as u32);
    r.push(padding.len() as u8);
    put_bytes(&mut r, payload);
    put_bytes(&mut r, padding);
    assert(r@ =~= packet_bytes(payload@, padding@));
    r
}

} // verus!
