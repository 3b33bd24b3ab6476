//! The exchange over a group that the server proposes: the sizes that the
//! client asks for, the group that the server answers with, and the messages
//! that carry them.

use vstd::prelude::*;
use crate::kex::group::{Group, GroupView};
use crate::wire::{
    leading_zeros, lemma_take_string, lemma_take_u32, lemma_take_u8, mpint_body, mpint_body_of,
    put_string, put_u32, string_bytes, take_string, take_u32, take_u8, u32_be, Reader,
};

verus! {

/// The number of the message by which the client asks for a group.
pub const GEX_REQUEST: u8 = 34;

/// The number of the message by which the server proposes a group.
pub const GEX_GROUP: u8 = 31;

/// The number of the message that carries the client's public key.
pub const GEX_INIT: u8 = 32;

/// The number of the message that carries the server's answer.
pub const GEX_REPLY: u8 = 33;

/// The size in bits of the group that the server proposes.
pub const OFFERED_BITS: u32 = 2048;

/// The largest group in bits that the client accepts.
pub const MAX_BITS: u32 = 8192;

/// The sizes in bits of the group that a client asks for.
#[derive(Debug, Clone, Copy, PartialEq, Eq, Structural)]
pub struct Sizes {
    /// The least size that the client accepts.
    pub min: u32,
    /// The size that the client prefers.
    pub preferred: u32,
    /// The largest size that the client accepts.
    pub max: u32,
}

impl Sizes {
    /// The sizes that a client asks for: a group of 2048 bits at least, and
    /// of 8192 bits at most.
    pub open spec fn standard() -> Sizes {
        Sizes { min: OFFERED_BITS, preferred: OFFERED_BITS, max: MAX_BITS }
    }

    /// The sizes that a client asks for.
    pub fn new() -> (r: Sizes)
        ensures
            r == Sizes::standard(),
    {
        Sizes { min: OFFERED_BITS, preferred: OFFERED_BITS, max: MAX_BITS }
    }

    /// The sizes as they stand in the request and in the exchange hash.
    pub open spec fn bytes(self) -> Seq<u8> {
        u32_be(self.min) + (u32_be(self.preferred) + u32_be(self.max))
    }
}

/// The payload of the request for a group of the sizes `sizes`.
pub open spec fn request_payload(sizes: Sizes) -> Seq<u8> {
    seq![GEX_REQUEST] + sizes.bytes()
}

/// The sizes that the payload `b` asks for, if it is a request for a group.
pub open spec fn requested(b: Seq<u8>) -> Option<Sizes> {
    match take_u8(b) {
        Some((number, b)) if number == GEX_REQUEST => match take_u32(b) {
            Some((min, b)) => match take_u32(b) {
                Some((preferred, b)) => match take_u32(b) {
                    Some((max, _)) => Some(Sizes { min, preferred, max }),
                    None => None,
                },
                None => None,
            },
            None => None,
        },
        _ => None,
    }
}

/// A request that was written reads back as itself.
pub proof fn lemma_requested(sizes: Sizes)
    ensures
        requested(request_payload(sizes)) == Some(sizes),
{
    let empty = Seq::<u8>::empty();
    lemma_take_u8(GEX_REQUEST, sizes.bytes());
    lemma_take_u32(sizes.min, u32_be(sizes.preferred) + u32_be(sizes.max));
    lemma_take_u32(sizes.preferred, u32_be(sizes.max));
    assert(u32_be(sizes.max) + empty =~= u32_be(sizes.max));
    lemma_take_u32(sizes.max, empty);
}

/// The payload of the request for a group of the sizes `sizes`.
pub fn request(sizes: Sizes) -> (r: Vec<u8>)
    ensures
        r@ == request_payload(sizes),
{
    let mut r: Vec<u8> = Vec::new();
    r.push(GEX_REQUEST);
    put_u32(&mut r, sizes.min);
    put_u32(&mut r, sizes.preferred);
    put_u32(&mut r, sizes.max);
    assert(r@ =~= request_payload(sizes));
    r
}

/// The sizes that the payload `payload` asks for, if it is a request for a
/// group.
pub fn parse_request(payload: &[u8]) -> (r: Option<Sizes>)
    ensures
        r == requested(payload@),
{
    let mut reader = Reader::new(payload);
    match reader.read_u8() {
        Some(number) => if number != GEX_REQUEST {
            return None;
        },
        None => {
            return None;
        },
    }
    let min = match reader.read_u32() {
        Some(v) => v,
        None => {
            return None;
        },
    };
    let preferred = match reader.read_u32() {
        Some(v) => v,
        None => {
            return None;
        },
    };
    let max = match reader.read_u32() {
        Some(v) => v,
        None => {
            return None;
        },
    };
    Some(Sizes { min, preferred, max })
}

/// The payload that proposes the group whose prime and generator have the
/// `mpint` bodies `prime` and `generator`.
pub open spec fn group_payload(prime: Seq<u8>, generator: Seq<u8>) -> Seq<u8> {
    seq![GEX_GROUP] + (string_bytes(prime) + string_bytes(generator))
}

/// The `mpint` bodies of the prime and the generator that the payload `b`
/// proposes, if it proposes a group.
pub open spec fn proposed(b: Seq<u8>) -> Option<(Seq<u8>, Seq<u8>)> {
    match take_u8(b) {
        Some((number, b)) if number == GEX_GROUP => match take_string(b) {
            Some((prime, b)) => match take_string(b) {
                Some((generator, _)) => Some((prime, generator)),
                None => None,
            },
            None => None,
        },
        _ => None,
    }
}

/// A proposal that was written reads back as itself.
pub proof fn lemma_proposed(prime: Seq<u8>, generator: Seq<u8>)
    requires
        prime.len() <= u32::MAX,
        generator.len() <= u32::MAX,
    ensures
        proposed(group_payload(prime, generator)) == Some((prime, generator)),
{
    let empty = Seq::<u8>::empty();
    lemma_take_u8(GEX_GROUP, string_bytes(prime) + string_bytes(generator));
    lemma_take_string(prime, string_bytes(generator));
    assert(string_bytes(generator) + empty =~= string_bytes(generator));
    lemma_take_string(generator, empty);
}

/// The payload that proposes the group `group`, with the `mpint` bodies of
/// its prime and generator.
pub fn propose(group: &Group) -> (r: (Vec<u8>, Vec<u8>, Vec<u8>))
    requires
        group.prime@.len() < u32::MAX,
        group.generator@.len() < u32::MAX,
    ensures
        r.1@ == mpint_body(group.prime@),
        r.2@ == mpint_body(group.generator@),
        r.0@ == group_payload(r.1@, r.2@),
        r.1@.len() <= u32::MAX,
        r.2@.len() <= u32::MAX,
{
    let prime = mpint_body_of(group.prime.as_slice());
    let generator = mpint_body_of(group.generator.as_slice());
    let mut r: Vec<u8> = Vec::new();
    r.push(GEX_GROUP);
    put_string(&mut r, prime.as_slice());
    put_string(&mut r, generator.as_slice());
    assert(r@ =~= group_payload(prime@, generator@));
    (r, prime, generator)
}

/// The `mpint` bodies of the prime and the generator that the payload
/// proposes, if it proposes a group.
pub fn parse_group(payload: &[u8]) -> (r: Option<(Vec<u8>, Vec<u8>)>)
    ensures
        match proposed(payload@) {
            Some((prime, generator)) => r matches Some(got) && got.0@ == prime && got.1@
                == generator,
            None => r is None,
        },
{
    let mut reader = Reader::new(payload);
    match reader.read_u8() {
        Some(number) => if number != GEX_GROUP {
            return None;
        },
        None => {
            return None;
        },
    }
    let prime = match reader.read_string() {
        Some(v) => v,
        None => {
            return None;
        },
    };
    let generator = match reader.read_string() {
        Some(v) => v,
        None => {
            return None;
        },
    };
    Some((prime, generator))
}

/// The client's public key that the payload `b` carries, if it is the message
/// for it.
pub open spec fn carried_init(b: Seq<u8>) -> Option<Seq<u8>> {
    match take_u8(b) {
        Some((number, b)) if number == GEX_INIT => match take_string(b) {
            Some((e, _)) => Some(e),
            None => None,
        },
        _ => None,
    }
}

/// The client's public key that the payload carries, if it is the message for
/// it.
pub fn parse_init(payload: &[u8]) -> (r: Option<Vec<u8>>)
    ensures
        crate::crypto::seq_of(r) == carried_init(payload@),
{
    let mut reader = Reader::new(payload);
    match reader.read_u8() {
        Some(number) => if number != GEX_INIT {
            return None;
        },
        None => {
            return None;
        },
    }
    reader.read_string()
}

/// The host key, the server's public key and the signature that the payload
/// `b` carries, if it is the server's answer.
pub open spec fn carried_reply(b: Seq<u8>) -> Option<(Seq<u8>, Seq<u8>, Seq<u8>)> {
    match take_u8(b) {
        Some((number, b)) if number == GEX_REPLY => match take_string(b) {
            Some((host_key, b)) => match take_string(b) {
                Some((f, b)) => match take_string(b) {
                    Some((signature, _)) => Some((host_key, f, signature)),
                    None => None,
                },
                None => None,
            },
            None => None,
        },
        _ => None,
    }
}

/// The host key, the server's public key and the signature that the payload
/// carries, if it is the server's answer.
pub fn parse_reply(payload: &[u8]) -> (r: Option<(Vec<u8>, Vec<u8>, Vec<u8>)>)
    ensures
        match carried_reply(payload@) {
            Some((host_key, f, signature)) => r matches Some(got) && got.0@ == host_key && got.1@
                == f && got.2@ == signature,
            None => r is None,
        },
{
    let mut reader = Reader::new(payload);
    match reader.read_u8() {
        Some(number) => if number != GEX_REPLY {
            return None;
        },
        None => {
            return None;
        },
    }
    let host_key = match reader.read_string() {
        Some(v) => v,
        None => {
            return None;
        },
    };
    let f = match reader.read_string() {
        Some(v) => v,
        None => {
            return None;
        },
    };
    let signature = match reader.read_string() {
        Some(v) => v,
        None => {
            return None;
        },
    };
    Some((host_key, f, signature))
}

/// The number of bits of the byte `x`, without leading zero bits.
pub open spec fn byte_bits(x: u8) -> nat {
    if x >= 128 {
        8
    } else if x >= 64 {
        7
    } else if x >= 32 {
        6
    } else if x >= 16 {
        5
    } else if x >= 8 {
        4
    } else if x >= 4 {
        3
    } else if x >= 2 {
        2
    } else if x >= 1 {
        1
    } else {
        0
    }
}

/// The number of bits of the number with the digits `b`, without leading
/// zero bits.
pub open spec fn bit_length(b: Seq<u8>) -> nat {
    let digits = b.skip(leading_zeros(b) as int);
    if digits.len() == 0 {
        0
    } else {
        ((digits.len() - 1) * 8 + byte_bits(digits[0])) as nat
    }
}

/// The number of bits of the number with the digits `b`; `None` where they
/// are more than a `u32` can hold.
pub fn bits(b: &[u8]) -> (r: Option<u32>)
    ensures
        match r {
            Some(n) => n == bit_length(b@),
            None => bit_length(b@) > u32::MAX,
        },
{
    let mut i: usize = 0;
    assert(b@.skip(0) =~= b@);
    while i < b.len() && b[i] == 0
        invariant
            i <= b@.len(),
            leading_zeros(b@) == i + leading_zeros(b@.skip(i as int)),
        decreases b@.len() - i,
    {
        assert(b@.skip(i as int).skip(1) =~= b@.skip(i + 1));
        i += 1;
    }
    if i == b.len() {
        return Some(0);
    }
    let x = b[i];
    assert(b@.skip(i as int)[0] == x);
    assert(leading_zeros(b@) == i);
    let first: u32 = if x >= 128 {
        8
    } else if x >= 64 {
        7
    } else if x >= 32 {
        6
    } else if x >= 16 {
        5
    } else if x >= 8 {
        4
    } else if x >= 4 {
        3
    } else if x >= 2 {
        2
    } else {
        1
    };
    let rest = b.len() - i - 1;
    proof {
        let digits = b@.skip(leading_zeros(b@) as int);
        assert(digits.len() == rest + 1);
        assert(digits[0] == x);
        assert(first == byte_bits(x));
        assert(bit_length(b@) == rest * 8 + first);
    }
    if rest > 0x2000_0000 {
        return None;
    }
    let n: u64 = rest as u64 * 8 + first as u64;
    if n > u32::MAX as u64 {
        None
    } else {
        Some(n as u32)
    }
}

/// The group that a client which asked for the sizes `sizes` takes from the
/// proposal of the prime `prime` and the generator `generator`, given as
/// `mpint` bodies; `None` where it does not take the proposal. Neither number
/// may be negative, the prime must be odd and of a size that the client
/// accepts, and the generator must be in range.
pub open spec fn accepted(sizes: Sizes, prime: Seq<u8>, generator: Seq<u8>) -> Option<GroupView> {
    let group = GroupView { prime, generator };
    if prime.len() > 0 && prime[0] < 0x80 && prime.last() % 2 == 1 && sizes.min <= bit_length(prime)
        <= sizes.max && generator.len() > 0 && generator[0] < 0x80 && group.in_range(generator) {
        Some(group)
    } else {
        None
    }
}

/// The group that a client which asked for the sizes `sizes` takes from the
/// proposal of the prime `prime` and the generator `generator`.
pub fn accept(sizes: Sizes, prime: Vec<u8>, generator: Vec<u8>) -> (r: Option<Group>)
    ensures
        match accepted(sizes, prime@, generator@) {
            Some(g) => r is Some && r->0@ == g && g.wf(),
            None => r is None,
        },
{
    if prime.len() == 0 || prime[0] >= 0x80 || prime[prime.len() - 1] % 2 != 1 {
        return None;
    }
    if generator.len() == 0 || generator[0] >= 0x80 {
        return None;
    }
    match bits(prime.as_slice()) {
        Some(n) => if n < sizes.min || n > sizes.max {
            return None;
        },
        None => {
            return None;
        },
    }
    let group = Group { prime, generator };
    if group.is_in_range(group.generator.as_slice()) {
        Some(group)
    } else {
        None
    }
}

/// The group that a server proposes to a client which asks for the sizes
/// `sizes`: group 14, where the client accepts its size; else none.
pub open spec fn offered(sizes: Sizes) -> Option<GroupView> {
    if sizes.min <= OFFERED_BITS <= sizes.max {
        Some(GroupView::fourteen())
    } else {
        None
    }
}

/// The group that a server proposes to a client which asks for the sizes
/// `sizes`.
pub fn offer(sizes: Sizes) -> (r: Option<Group>)
    ensures
        match offered(sizes) {
            Some(g) => r is Some && r->0@ == g && g.wf(),
            None => r is None,
        },
{
    if sizes.min <= OFFERED_BITS && OFFERED_BITS <= sizes.max {
        Some(Group::fourteen())
    } else {
        None
    }
}

/// What the exchange over a proposed group adds to the exchange hash before
/// the public keys: the sizes that the client asked for, then the prime and
/// the generator as `mpint`s.
pub open spec fn prelude(sizes: Sizes, prime: Seq<u8>, generator: Seq<u8>) -> Seq<u8> {
    sizes.bytes() + (string_bytes(prime) + string_bytes(generator))
}

/// What the exchange over a proposed group adds to the exchange hash.
pub fn prelude_of(sizes: Sizes, prime: &[u8], generator: &[u8]) -> (r: Vec<u8>)
    requires
        prime@.len() <= u32::MAX,
        generator@.len() <= u32::MAX,
    ensures
        r@ == prelude(sizes, prime@, generator@),
{
    let mut r: Vec<u8> = Vec::new();
    put_u32(&mut r, sizes.min);
    put_u32(&mut r, sizes.preferred);
    put_u32(&mut r, sizes.max);
    put_string(&mut r, prime);
    put_string(&mut r, generator);
    assert(r@ =~= prelude(sizes, prime@, generator@));
    r
}

} // verus!
