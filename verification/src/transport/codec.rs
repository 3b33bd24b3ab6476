//! The packet codec: from a payload to the bytes of a frame on the wire, and
//! back.

use vstd::prelude::*;
use crate::crypto::{mac, random_bytes, tag};
use crate::error::Error;
use crate::transport::crypt::{advance, next_iv, open, opened, reversible, seal, sealed};
use crate::transport::packet::{
    build_packet, packet_bytes, packet_length, padding_for, padding_len, padding_ok, payload_of,
    lemma_payload_of_packet, MIN_PADDING,
};
use crate::transport::{Direction, Transport};
use crate::wire::{
    copy_range, lemma_u32_from_prefix, lemma_u32_round_trip, put_bytes, put_u32, u32_be, u32_from_be,
};

verus! {

/// Whether a payload of `n` bytes with `pad` bytes of padding makes a packet
/// of the direction `d` whose length field stays within `cap`.
pub open spec fn fits(d: Direction, n: nat, pad: nat, cap: nat) -> bool {
    padding_ok(d.block(), d.hmac.spec_etm(), n, pad) && packet_length(n, pad) <= cap
}

/// The encrypted form of `packet`, with the initialisation vector that it
/// leaves behind. Where the tag covers the encrypted packet, the length field
/// stays in clear; else the first block is encrypted apart from the rest, as
/// the receiver has to read the length from it before it knows the rest.
pub open spec fn sealed_packet(d: Direction, packet: Seq<u8>) -> (Seq<u8>, Seq<u8>) {
    if d.hmac.spec_etm() {
        let body = sealed(d.cipher, d.key, d.iv, packet.skip(4));
        (packet.take(4) + body, next_iv(d.cipher, d.iv, body))
    } else {
        let block = d.block() as int;
        let head = sealed(d.cipher, d.key, d.iv, packet.take(block));
        let iv = next_iv(d.cipher, d.iv, head);
        let rest = sealed(d.cipher, d.key, iv, packet.skip(block));
        (head + rest, next_iv(d.cipher, iv, rest))
    }
}

/// The clear form of the encrypted packet `ciphertext`, with the
/// initialisation vector that it leaves behind.
pub open spec fn opened_packet(d: Direction, ciphertext: Seq<u8>) -> (Seq<u8>, Seq<u8>) {
    if d.hmac.spec_etm() {
        let body = ciphertext.skip(4);
        (ciphertext.take(4) + opened(d.cipher, d.key, d.iv, body), next_iv(d.cipher, d.iv, body))
    } else {
        let block = d.block() as int;
        let head = ciphertext.take(block);
        let iv = next_iv(d.cipher, d.iv, head);
        let rest = ciphertext.skip(block);
        (
            opened(d.cipher, d.key, d.iv, head) + opened(d.cipher, d.key, iv, rest),
            next_iv(d.cipher, iv, rest),
        )
    }
}

/// What the tag of a packet covers: the sequence number, then the encrypted
/// packet or the clear one, as the algorithm has it.
pub open spec fn authenticated(d: Direction, packet: Seq<u8>, ciphertext: Seq<u8>) -> Seq<u8> {
    u32_be(d.seq) + if d.hmac.spec_etm() {
        ciphertext
    } else {
        packet
    }
}

/// The tag of `packet`, whose encrypted form is `ciphertext`.
pub open spec fn packet_tag(d: Direction, packet: Seq<u8>, ciphertext: Seq<u8>) -> Seq<u8> {
    tag(d.hmac, d.mac_key, authenticated(d, packet, ciphertext))
}

/// The frame that carries `payload` with `padding` in the direction `d`: the
/// encrypted packet, then its tag.
pub open spec fn frame(d: Direction, payload: Seq<u8>, padding: Seq<u8>) -> Seq<u8> {
    let packet = packet_bytes(payload, padding);
    let ciphertext = sealed_packet(d, packet).0;
    ciphertext + packet_tag(d, packet, ciphertext)
}

/// The direction `d` after the frame that carries `payload` with `padding`.
pub open spec fn after_frame(d: Direction, payload: Seq<u8>, padding: Seq<u8>) -> Direction {
    d.step(sealed_packet(d, packet_bytes(payload, padding)).1)
}

/// Whether the packet length `len` is acceptable: at least 5, at most `cap`,
/// and such that what is encrypted is a whole number of blocks.
pub open spec fn length_ok(d: Direction, len: nat, cap: nat) -> bool {
    &&& 5 <= len <= cap
    &&& (if d.hmac.spec_etm() {
        len
    } else {
        len + 4
    }) % d.block() == 0
}

/// The packet length that the frame at the start of `buf` announces; `None`
/// where `buf` is too short to tell.
pub open spec fn announced(d: Direction, buf: Seq<u8>) -> Option<nat> {
    if d.hmac.spec_etm() {
        if buf.len() >= 4 {
            Some(u32_from_be(buf) as nat)
        } else {
            None
        }
    } else {
        if buf.len() >= d.block() {
            Some(u32_from_be(opened(d.cipher, d.key, d.iv, buf.take(d.block() as int))) as nat)
        } else {
            None
        }
    }
}

/// What decoding makes of the bytes `buf` in the direction `d`: the payload of
/// the frame at the start of `buf`, the size of that frame, and the direction
/// after it; or the reason why there is none.
pub open spec fn parsed(d: Direction, buf: Seq<u8>, cap: nat) -> Result<
    (Seq<u8>, nat, Direction),
    Error,
> {
    let mac_len = d.hmac.spec_size();
    match announced(d, buf) {
        None => Err(Error::ShortRead),
        Some(len) => {
            if !length_ok(d, len, cap) {
                Err(Error::InvalidLength)
            } else if buf.len() < 4 + len + mac_len {
                Err(Error::ShortRead)
            } else {
                let end = 4 + len as int;
                let ciphertext = buf.take(end);
                let (packet, iv) = opened_packet(d, ciphertext);
                if packet_tag(d, packet, ciphertext) != buf.subrange(end, end + mac_len) {
                    Err(Error::BadMac)
                } else {
                    match payload_of(packet.skip(4)) {
                        None => Err(Error::InvalidLength),
                        Some(payload) => if d.compress.is_supported() {
                            Ok((payload, 4 + len + mac_len, d.step(iv)))
                        } else {
                            Err(Error::Decompress)
                        },
                    }
                }
            }
        },
    }
}

/// Whether every frame that differs from `f` in its tag alone is refused as
/// not authentic.
pub open spec fn tamper_evident(d: Direction, f: Seq<u8>, cap: nat) -> bool {
    forall|forged: Seq<u8>|
        #![trigger parsed(d, forged, cap)]
        {
            let n = f.len() - d.hmac.spec_size();
            forged.len() == f.len() && forged != f && forged.take(n) == f.take(n)
        } ==> parsed(d, forged, cap) == Err::<(Seq<u8>, nat, Direction), Error>(Error::BadMac)
}

/// Whether each piece of `packet` that is encrypted on its own keeps its
/// length and is given back by decryption.
pub open spec fn reversible_packet(d: Direction, packet: Seq<u8>) -> bool {
    if d.hmac.spec_etm() {
        reversible(d.cipher, d.key, d.iv, packet.skip(4))
    } else {
        let block = d.block() as int;
        let head = packet.take(block);
        let iv = next_iv(d.cipher, d.iv, sealed(d.cipher, d.key, d.iv, head));
        reversible(d.cipher, d.key, d.iv, head) && reversible(d.cipher, d.key, iv, packet.skip(block))
    }
}

proof fn lemma_blocks(block: int, total: int)
    requires
        block == 8 || block == 16,
        total % block == 0,
        total >= 1,
    ensures
        total >= block,
        (total - block) % block == 0,
        block % block == 0,
{
    if block == 8 {
        assert(total % 8 == 0);
        assert((total - 8) % 8 == 0);
    } else {
        assert(total % 16 == 0);
        assert((total - 16) % 16 == 0);
    }
}

proof fn lemma_opened_sealed(d: Direction, payload: Seq<u8>, padding: Seq<u8>, cap: nat)
    requires
        fits(d, payload.len(), padding.len(), cap),
        cap <= u32::MAX,
        reversible_packet(d, packet_bytes(payload, padding)),
    ensures
        ({
            let packet = packet_bytes(payload, padding);
            let (ciphertext, iv) = sealed_packet(d, packet);
            &&& packet.len() == 4 + packet_length(payload.len(), padding.len())
            &&& ciphertext.len() == packet.len()
            &&& packet.len() >= d.block()
            &&& opened_packet(d, ciphertext) == (packet, iv)
            &&& forall|rest: Seq<u8>| #[trigger]
                announced(d, ciphertext + rest) == Some(
                    packet_length(payload.len(), padding.len()),
                )
            &&& length_ok(d, packet_length(payload.len(), padding.len()), cap)
        }),
{
    let packet = packet_bytes(payload, padding);
    let len = packet_length(payload.len(), padding.len());
    let (ciphertext, iv) = sealed_packet(d, packet);
    let block = d.block() as int;
    lemma_payload_of_packet(payload, padding);
    lemma_u32_round_trip(len as u32);
    assert(packet.take(4) =~= u32_be(len as u32));
    assert(u32_be(len as u32).take(4) =~= u32_be(len as u32));
    lemma_u32_from_prefix(packet, u32_be(len as u32));
    assert(block == 8 || block == 16);
    if !d.hmac.spec_etm() {
        lemma_blocks(block, packet.len() as int);
    }
    if d.hmac.spec_etm() {
        let body = sealed(d.cipher, d.key, d.iv, packet.skip(4));
        assert(ciphertext.skip(4) =~= body);
        assert(ciphertext.take(4) =~= packet.take(4));
        assert(packet.take(4) + packet.skip(4) =~= packet);
        assert forall|rest: Seq<u8>| #[trigger]
            announced(d, ciphertext + rest) == Some(len) by {
            assert((ciphertext + rest).take(4) =~= packet.take(4));
            lemma_u32_from_prefix(ciphertext + rest, packet);
        }
    } else {
        let head = sealed(d.cipher, d.key, d.iv, packet.take(block));
        assert(ciphertext.take(block) =~= head);
        assert(ciphertext.skip(block) =~= sealed(
            d.cipher,
            d.key,
            next_iv(d.cipher, d.iv, head),
            packet.skip(block),
        ));
        assert(packet.take(block) + packet.skip(block) =~= packet);
        assert(packet.take(block).take(4) =~= packet.take(4));
        lemma_u32_from_prefix(packet.take(block), packet);
        assert forall|rest: Seq<u8>| #[trigger]
            announced(d, ciphertext + rest) == Some(len) by {
            assert((ciphertext + rest).take(block) =~= head);
        }
    }
}

proof fn lemma_parsed_frame(
    d: Direction,
    payload: Seq<u8>,
    padding: Seq<u8>,
    cap: nat,
    t: Seq<u8>,
)
    requires
        fits(d, payload.len(), padding.len(), cap),
        cap <= u32::MAX,
        reversible_packet(d, packet_bytes(payload, padding)),
        t.len() == d.hmac.spec_size(),
    ensures
        ({
            let packet = packet_bytes(payload, padding);
            let (ciphertext, iv) = sealed_packet(d, packet);
            parsed(d, ciphertext + t, cap) == if t != packet_tag(d, packet, ciphertext) {
                Err::<(Seq<u8>, nat, Direction), Error>(Error::BadMac)
            } else if d.compress.is_supported() {
                Ok((payload, (ciphertext + t).len(), d.step(iv)))
            } else {
                Err(Error::Decompress)
            }
        }),
{
    let packet = packet_bytes(payload, padding);
    let len = packet_length(payload.len(), padding.len());
    let (ciphertext, iv) = sealed_packet(d, packet);
    let buf = ciphertext + t;
    lemma_opened_sealed(d, payload, padding, cap);
    lemma_payload_of_packet(payload, padding);
    assert(announced(d, ciphertext + t) == Some(len));
    assert(buf.take(4 + len as int) =~= ciphertext);
    assert(buf.subrange(4 + len as int, 4 + len as int + t.len()) =~= t);
}

/// Whether two byte strings are the same, in time that depends on their
/// lengths alone.
pub fn same_bytes(a: &[u8], b: &[u8]) -> (r: bool)
    ensures
        r == (a@ == b@),
{
    if a.len() != b.len() {
        return false;
    }
    let mut diff: u8 = 0;
    let mut i: usize = 0;
    assert(a@.take(0) =~= b@.take(0));
    while i < a.len()
        invariant
            a@.len() == b@.len(),
            i <= a@.len(),
            (diff == 0) == (a@.take(i as int) == b@.take(i as int)),
        decreases a@.len() - i,
    {
        let x = a[i];
        let y = b[i];
        let ghost before = diff;
        diff = diff | (x ^ y);
        proof {
            assert((before | (x ^ y)) == 0 <==> (before == 0 && x == y)) by (bit_vector);
            assert(a@.take(i + 1) =~= a@.take(i as int).push(x));
            assert(b@.take(i + 1) =~= b@.take(i as int).push(y));
            if a@.take(i + 1) == b@.take(i + 1) {
                assert(a@.take(i + 1)[i as int] == b@.take(i + 1)[i as int]);
                assert(a@.take(i as int) =~= a@.take(i + 1).take(i as int));
                assert(b@.take(i as int) =~= b@.take(i + 1).take(i as int));
            }
        }
        i += 1;
    }
    assert(a@.take(i as int) =~= a@);
    assert(b@.take(i as int) =~= b@);
    diff == 0
}

/// The encrypted form of `packet`, with the initialisation vector that it
/// leaves behind.
fn seal_packet(tx: &Transport, packet: &[u8]) -> (r: (Vec<u8>, Vec<u8>))
    requires
        tx@.wf(),
        packet@.len() >= 9,
        (if tx@.hmac.spec_etm() {
            packet@.len() - 4
        } else {
            packet@.len() as int
        }) % (tx@.block() as int) == 0,
    ensures
        (r.0@, r.1@) == sealed_packet(tx@, packet@),
        r.0@.len() == packet@.len(),
        r.1@.len() == tx@.iv.len(),
        reversible_packet(tx@, packet@),
{
    let block = tx.cipher.block_size();
    let mut ciphertext: Vec<u8> = Vec::new();
    proof {
        if !tx@.hmac.spec_etm() {
            lemma_blocks(block as int, packet@.len() as int);
        }
    }
    if tx.hmac.etm() {
        let clear = copy_range(packet, 0, 4);
        let text = copy_range(packet, 4, packet.len());
        assert(text@ =~= packet@.skip(4));
        assert(clear@ =~= packet@.take(4));
        let body = seal(tx.cipher, tx.key.as_slice(), tx.iv.as_slice(), text.as_slice());
        put_bytes(&mut ciphertext, clear.as_slice());
        put_bytes(&mut ciphertext, body.as_slice());
        let iv = advance(tx.cipher, tx.iv.as_slice(), body.as_slice());
        (ciphertext, iv)
    } else {
        let first = copy_range(packet, 0, block);
        let second = copy_range(packet, block, packet.len());
        assert(first@ =~= packet@.take(block as int));
        assert(second@ =~= packet@.skip(block as int));
        let head = seal(tx.cipher, tx.key.as_slice(), tx.iv.as_slice(), first.as_slice());
        let iv1 = advance(tx.cipher, tx.iv.as_slice(), head.as_slice());
        let rest = seal(tx.cipher, tx.key.as_slice(), iv1.as_slice(), second.as_slice());
        put_bytes(&mut ciphertext, head.as_slice());
        put_bytes(&mut ciphertext, rest.as_slice());
        let iv = advance(tx.cipher, iv1.as_slice(), rest.as_slice());
        (ciphertext, iv)
    }
}

/// The clear form of the encrypted packet `ciphertext`, whose first block or
/// length field is already known as `head`, with the initialisation vector
/// that it leaves behind.
fn open_packet(rx: &Transport, ciphertext: &[u8], head: &[u8]) -> (r: (Vec<u8>, Vec<u8>))
    requires
        rx@.wf(),
        ciphertext@.len() >= 9,
        (if rx@.hmac.spec_etm() {
            ciphertext@.len() - 4
        } else {
            ciphertext@.len() as int
        }) % (rx@.block() as int) == 0,
        head@ == if rx@.hmac.spec_etm() {
            ciphertext@.take(4)
        } else {
            opened(rx@.cipher, rx@.key, rx@.iv, ciphertext@.take(rx@.block() as int))
        },
        head@.len() == if rx@.hmac.spec_etm() {
            4
        } else {
            rx@.block()
        },
    ensures
        (r.0@, r.1@) == opened_packet(rx@, ciphertext@),
        r.0@.len() == ciphertext@.len(),
        r.1@.len() == rx@.iv.len(),
{
    let block = rx.cipher.block_size();
    let mut packet: Vec<u8> = Vec::new();
    proof {
        if !rx@.hmac.spec_etm() {
            lemma_blocks(block as int, ciphertext@.len() as int);
        }
    }
    put_bytes(&mut packet, head);
    if rx.hmac.etm() {
        let body = copy_range(ciphertext, 4, ciphertext.len());
        assert(body@ =~= ciphertext@.skip(4));
        let text = open(rx.cipher, rx.key.as_slice(), rx.iv.as_slice(), body.as_slice());
        put_bytes(&mut packet, text.as_slice());
        let iv = advance(rx.cipher, rx.iv.as_slice(), body.as_slice());
        (packet, iv)
    } else {
        let first = copy_range(ciphertext, 0, block);
        let second = copy_range(ciphertext, block, ciphertext.len());
        assert(first@ =~= ciphertext@.take(block as int));
        assert(second@ =~= ciphertext@.skip(block as int));
        let iv1 = advance(rx.cipher, rx.iv.as_slice(), first.as_slice());
        let text = open(rx.cipher, rx.key.as_slice(), iv1.as_slice(), second.as_slice());
        put_bytes(&mut packet, text.as_slice());
        let iv = advance(rx.cipher, iv1.as_slice(), second.as_slice());
        (packet, iv)
    }
}

/// The tag of `packet`, whose encrypted form is `ciphertext`.
fn tag_packet(t: &Transport, packet: &[u8], ciphertext: &[u8]) -> (r: Vec<u8>)
    ensures
        r@ == packet_tag(t@, packet@, ciphertext@),
        r@.len() == t@.hmac.spec_size(),
{
    let mut covered: Vec<u8> = Vec::new();
    put_u32(&mut covered, t.seq);
    if t.hmac.etm() {
        put_bytes(&mut covered, ciphertext);
    } else {
        put_bytes(&mut covered, packet);
    }
    assert(covered@ =~= authenticated(t@, packet@, ciphertext@));
    mac(t.hmac, t.mac_key.as_slice(), covered.as_slice())
}

/// The frame that carries `payload` with the padding `padding`, where the two
/// make an acceptable packet; the direction moves on by one packet. Decoding
/// the frame under the same keys, vector and sequence number gives `payload`
/// back, and refuses every frame that differs from it in the tag alone.
pub fn encode_padded(payload: &[u8], padding: &[u8], tx: &mut Transport, cap: u32) -> (r: Result<
    Vec<u8>,
    Error,
>)
    requires
        old(tx)@.wf(),
        old(tx)@.compress.is_supported(),
    ensures
        final(tx)@.wf(),
        match r {
            Ok(f) => {
                &&& fits(old(tx)@, payload@.len(), padding@.len(), cap as nat)
                &&& f@ == frame(old(tx)@, payload@, padding@)
                &&& final(tx)@ == after_frame(old(tx)@, payload@, padding@)
                &&& parsed(old(tx)@, f@, cap as nat) == Ok::<(Seq<u8>, nat, Direction), Error>(
                    (payload@, f@.len(), final(tx)@),
                )
                &&& tamper_evident(old(tx)@, f@, cap as nat)
            },
            Err(e) => {
                &&& e == Error::InvalidLength
                &&& !fits(old(tx)@, payload@.len(), padding@.len(), cap as nat)
                &&& *final(tx) == *old(tx)
            },
        },
{
    let block = tx.cipher.block_size();
    let etm = tx.hmac.etm();
    let ghost d = tx@;
    if padding.len() < MIN_PADDING || padding.len() > 255 || payload.len() > cap as usize {
        return Err(Error::InvalidLength);
    }
    let length: u64 = 1 + payload.len() as u64 + padding.len() as u64;
    let aligned: u64 = if etm {
        length
    } else {
        length + 4
    };
    if length > cap as u64 || aligned % (block as u64) != 0 {
        return Err(Error::InvalidLength);
    }
    let data = tx.compress.compress(copy_range(payload, 0, payload.len()));
    assert(data@ =~= payload@);
    let packet = build_packet(data.as_slice(), padding);
    proof {
        lemma_payload_of_packet(payload@, padding@);
    }
    let (ciphertext, iv) = seal_packet(tx, packet.as_slice());
    let t = tag_packet(tx, packet.as_slice(), ciphertext.as_slice());
    let mut f = ciphertext;
    put_bytes(&mut f, t.as_slice());
    tx.iv = iv;
    tx.seq = tx.seq.wrapping_add(1);
    proof {
        let cap = cap as nat;
        assert(tx@ == after_frame(d, payload@, padding@));
        lemma_parsed_frame(d, payload@, padding@, cap, t@);
        let n = f@.len() - d.hmac.spec_size();
        assert(f@.take(n) =~= sealed_packet(d, packet@).0);
        assert forall|forged: Seq<u8>|
            forged.len() == f@.len() && forged != f@ && forged.take(n) == f@.take(
                n,
            ) implies #[trigger] parsed(d, forged, cap) == Err::<(Seq<u8>, nat, Direction), Error>(
            Error::BadMac,
        ) by {
            let other = forged.skip(n);
            assert(forged =~= forged.take(n) + other);
            assert(f@ =~= f@.take(n) + t@);
            lemma_parsed_frame(d, payload@, padding@, cap, other);
        }
    }
    Ok(f)
}

/// The frame that carries `payload`, with the least acceptable padding, drawn
/// at random; the direction moves on by one packet. Fails with
/// `InvalidLength`, and leaves the direction as it is, where the packet would
/// be longer than `cap`.
pub fn encode(payload: &[u8], tx: &mut Transport, cap: u32) -> (r: Result<Vec<u8>, Error>)
    requires
        old(tx)@.wf(),
        old(tx)@.compress.is_supported(),
    ensures
        final(tx)@.wf(),
        match r {
            Ok(f) => exists|padding: Seq<u8>|
                {
                    &&& padding.len() == padding_len(
                        old(tx)@.block(),
                        old(tx)@.hmac.spec_etm(),
                        payload@.len(),
                    )
                    &&& packet_length(payload@.len(), padding.len()) <= cap
                    &&& f@ == #[trigger] frame(old(tx)@, payload@, padding)
                    &&& final(tx)@ == after_frame(old(tx)@, payload@, padding)
                    &&& parsed(old(tx)@, f@, cap as nat) == Ok::<(Seq<u8>, nat, Direction), Error>(
                        (payload@, f@.len(), final(tx)@),
                    )
                    &&& tamper_evident(old(tx)@, f@, cap as nat)
                },
            Err(e) => {
                &&& e == Error::InvalidLength
                &&& packet_length(
                    payload@.len(),
                    padding_len(old(tx)@.block(), old(tx)@.hmac.spec_etm(), payload@.len()),
                ) > cap
                &&& *final(tx) == *old(tx)
            },
        },
{
    if payload.len() > cap as usize {
        return Err(Error::InvalidLength);
    }
    let pad = padding_for(tx.cipher.block_size(), tx.hmac.etm(), payload.len());
    let padding = random_bytes(pad);
    let r = encode_padded(payload, padding.as_slice(), tx, cap);
    proof {
        if r is Ok {
            assert(r->Ok_0@ == frame(old(tx)@, payload@, padding@));
        }
    }
    r
}

/// The payload of the frame at the start of `buf`, with the size of that
/// frame; the direction moves on by one packet. On an error the direction
/// stays as it is: `ShortRead` where `buf` ends before the frame does,
/// `InvalidLength` where the announced length or the padding length is not
/// acceptable, `BadMac` where the tag is not that of the packet, `Decompress`
/// where the payload cannot be decompressed.
pub fn decode(buf: &[u8], rx: &mut Transport, cap: u32) -> (r: Result<(Vec<u8>, usize), Error>)
    requires
        old(rx)@.wf(),
    ensures
        final(rx)@.wf(),
        match parsed(old(rx)@, buf@, cap as nat) {
            Ok((payload, size, after)) => {
                &&& r is Ok
                &&& r->Ok_0.0@ == payload
                &&& r->Ok_0.1 == size
                &&& final(rx)@ == after
            },
            Err(e) => r == Err::<(Vec<u8>, usize), Error>(e) && *final(rx) == *old(rx),
        },
{
    let block = rx.cipher.block_size();
    let mac_len = rx.hmac.size();
    let etm = rx.hmac.etm();
    let ghost d = rx@;
    let mut head: Vec<u8> = Vec::new();
    if etm {
        if buf.len() < 4 {
            return Err(Error::ShortRead);
        }
        head = copy_range(buf, 0, 4);
        assert(head@ =~= buf@.take(4));
    } else {
        if buf.len() < block {
            return Err(Error::ShortRead);
        }
        head = open(
            rx.cipher,
            rx.key.as_slice(),
            rx.iv.as_slice(),
            copy_range(buf, 0, block).as_slice(),
        );
        assert(buf@.subrange(0, block as int) =~= buf@.take(block as int));
    }
    let len: u32 = crate::wire::u32_at(head.as_slice(), 0);
    proof {
        assert(head@.skip(0) =~= head@);
        if etm {
            lemma_u32_from_prefix(head@, buf@);
        }
    }
    assert(announced(d, buf@) == Some(len as nat));
    let aligned: u64 = if etm {
        len as u64
    } else {
        len as u64 + 4
    };
    if len < 5 || len > cap || aligned % (block as u64) != 0 {
        return Err(Error::InvalidLength);
    }
    let end: u64 = 4 + len as u64;
    let total: u64 = end + mac_len as u64;
    if (buf.len() as u64) < total {
        return Err(Error::ShortRead);
    }
    let end = end as usize;
    let total = total as usize;
    let ciphertext = copy_range(buf, 0, end);
    assert(ciphertext@ =~= buf@.take(end as int));
    assert(ciphertext@.take(block as int) =~= buf@.take(block as int));
    assert(ciphertext@.take(4) =~= buf@.take(4));
    let (packet, iv) = open_packet(rx, ciphertext.as_slice(), head.as_slice());
    let t = tag_packet(rx, packet.as_slice(), ciphertext.as_slice());
    if !same_bytes(t.as_slice(), copy_range(buf, end, total).as_slice()) {
        return Err(Error::BadMac);
    }
    assert(packet@.len() == end);
    let pad = packet[4] as usize;
    if pad < MIN_PADDING || pad + 5 > packet.len() {
        return Err(Error::InvalidLength);
    }
    if !(rx.compress == crate::algorithm::Compress::Null) {
        return Err(Error::Decompress);
    }
    let data = copy_range(packet.as_slice(), 5, packet.len() - pad);
    assert(data@ =~= packet@.skip(4).subrange(1, packet@.skip(4).len() - pad));
    let payload = rx.compress.decompress(data);
    rx.iv = iv;
    rx.seq = rx.seq.wrapping_add(1);
    Ok((payload, total))
}

} // verus!
