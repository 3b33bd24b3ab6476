//! The groups in which keys are exchanged: what an ephemeral secret gives as
//! a public key, and what it gives with the other side's public key as the
//! shared secret.

use vstd::prelude::*;
use crate::algorithm::Kex;
use crate::crypto::{
    be_digits, be_value, less, modpow, nistp256_agree, nistp256_point, nistp256_public,
    nistp256_shared, nistp384_agree, nistp384_point, nistp384_public, nistp384_shared,
    nistp521_agree, nistp521_point, nistp521_public, nistp521_shared, random_bytes, seq_of, x25519,
    x25519_product,
};
use crate::wire::{copy_range, mpint_body, mpint_body_of};

verus! {

/// The prime of the 2048-bit group 14, most significant byte first.
pub const GROUP14: [u8; 256] = [
    0xff, 0xff, 0xff, 0xff, 0xff, 0xff, 0xff, 0xff, 0xc9, 0x0f, 0xda, 0xa2, 0x21, 0x68, 0xc2, 0x34,
    0xc4, 0xc6, 0x62, 0x8b, 0x80, 0xdc, 0x1c, 0xd1, 0x29, 0x02, 0x4e, 0x08, 0x8a, 0x67, 0xcc, 0x74,
    0x02, 0x0b, 0xbe, 0xa6, 0x3b, 0x13, 0x9b, 0x22, 0x51, 0x4a, 0x08, 0x79, 0x8e, 0x34, 0x04, 0xdd,
    0xef, 0x95, 0x19, 0xb3, 0xcd, 0x3a, 0x43, 0x1b, 0x30, 0x2b, 0x0a, 0x6d, 0xf2, 0x5f, 0x14, 0x37,
    0x4f, 0xe1, 0x35, 0x6d, 0x6d, 0x51, 0xc2, 0x45, 0xe4, 0x85, 0xb5, 0x76, 0x62, 0x5e, 0x7e, 0xc6,
    0xf4, 0x4c, 0x42, 0xe9, 0xa6, 0x37, 0xed, 0x6b, 0x0b, 0xff, 0x5c, 0xb6, 0xf4, 0x06, 0xb7, 0xed,
    0xee, 0x38, 0x6b, 0xfb, 0x5a, 0x89, 0x9f, 0xa5, 0xae, 0x9f, 0x24, 0x11, 0x7c, 0x4b, 0x1f, 0xe6,
    0x49, 0x28, 0x66, 0x51, 0xec, 0xe4, 0x5b, 0x3d, 0xc2, 0x00, 0x7c, 0xb8, 0xa1, 0x63, 0xbf, 0x05,
    0x98, 0xda, 0x48, 0x36, 0x1c, 0x55, 0xd3, 0x9a, 0x69, 0x16, 0x3f, 0xa8, 0xfd, 0x24, 0xcf, 0x5f,
    0x83, 0x65, 0x5d, 0x23, 0xdc, 0xa3, 0xad, 0x96, 0x1c, 0x62, 0xf3, 0x56, 0x20, 0x85, 0x52, 0xbb,
    0x9e, 0xd5, 0x29, 0x07, 0x70, 0x96, 0x96, 0x6d, 0x67, 0x0c, 0x35, 0x4e, 0x4a, 0xbc, 0x98, 0x04,
    0xf1, 0x74, 0x6c, 0x08, 0xca, 0x18, 0x21, 0x7c, 0x32, 0x90, 0x5e, 0x46, 0x2e, 0x36, 0xce, 0x3b,
    0xe3, 0x9e, 0x77, 0x2c, 0x18, 0x0e, 0x86, 0x03, 0x9b, 0x27, 0x83, 0xa2, 0xec, 0x07, 0xa2, 0x8f,
    0xb5, 0xc5, 0x5d, 0xf0, 0x6f, 0x4c, 0x52, 0xc9, 0xde, 0x2b, 0xcb, 0xf6, 0x95, 0x58, 0x17, 0x18,
    0x39, 0x95, 0x49, 0x7c, 0xea, 0x95, 0x6a, 0xe5, 0x15, 0xd2, 0x26, 0x18, 0x98, 0xfa, 0x05, 0x10,
    0x15, 0x72, 0x8e, 0x5a, 0x8a, 0xac, 0xaa, 0x68, 0xff, 0xff, 0xff, 0xff, 0xff, 0xff, 0xff, 0xff,
];

/// The size in bytes of a secret and of a public key of Curve25519.
pub const KEY_SIZE: usize = 32;

/// The first byte of an elliptic curve point in uncompressed form.
pub const UNCOMPRESSED: u8 = 4;

/// The base point of Curve25519: 9, then zeros.
pub open spec fn base_point() -> Seq<u8> {
    Seq::new(KEY_SIZE as nat, |i: int| if i == 0 { 9u8 } else { 0u8 })
}

/// Whether every byte of `b` is zero.
pub open spec fn all_zero(b: Seq<u8>) -> bool {
    forall|i: int| 0 <= i < b.len() ==> b[i] == 0
}

/// A group of numbers modulo a prime, in which keys are exchanged.
#[derive(Debug, Clone, PartialEq, Eq)]
pub struct Group {
    /// The digits of the prime, most significant first.
    pub prime: Vec<u8>,
    /// The digits of the generator, most significant first.
    pub generator: Vec<u8>,
}

/// A group as contracts see it.
pub struct GroupView {
    /// The digits of the prime, most significant first.
    pub prime: Seq<u8>,
    /// The digits of the generator, most significant first.
    pub generator: Seq<u8>,
}

impl View for Group {
    type V = GroupView;

    open spec fn view(&self) -> GroupView {
        GroupView { prime: self.prime@, generator: self.generator@ }
    }
}

impl GroupView {
    /// Whether the modulus is odd, as a prime of this size is.
    pub open spec fn wf(self) -> bool {
        self.prime.len() > 0 && self.prime.last() % 2 == 1
    }

    /// The modulus as a number.
    pub open spec fn modulus(self) -> nat {
        be_value(self.prime)
    }

    /// The digits of `base` to the power of `exponent` in the group.
    pub open spec fn power(self, base: Seq<u8>, exponent: Seq<u8>) -> Seq<u8> {
        be_digits(
            (vstd::arithmetic::power::pow(be_value(base) as int, be_value(exponent)) % (
            self.modulus() as int)) as nat,
        )
    }

    /// Whether the number with the digits `v` may be exchanged in the group:
    /// it is more than 1 and less than the modulus less 1.
    pub open spec fn in_range(self, v: Seq<u8>) -> bool {
        1 < be_value(v) < self.modulus() - 1
    }

    /// The public key that goes with the secret `secret`: the generator to the
    /// power of the secret, as the body of an `mpint`, unless that is out of
    /// range.
    pub open spec fn public(self, secret: Seq<u8>) -> Option<Seq<u8>> {
        let e = self.power(self.generator, secret);
        if self.in_range(e) {
            Some(mpint_body(e))
        } else {
            None
        }
    }

    /// The shared secret of the secret `secret` and the other side's number
    /// `peer`, which must not be negative and must be in range: that number to
    /// the power of the secret.
    pub open spec fn shared(self, secret: Seq<u8>, peer: Seq<u8>) -> Option<Seq<u8>> {
        if peer.len() > 0 && peer[0] < 0x80 && self.in_range(peer) {
            Some(self.power(peer, secret))
        } else {
            None
        }
    }

    /// Group 14: its prime of 2048 bits, and the generator 2.
    pub open spec fn fourteen() -> GroupView {
        GroupView { prime: GROUP14@, generator: seq![2u8] }
    }
}

impl Group {
    /// Group 14.
    pub fn fourteen() -> (r: Group)
        ensures
            r@ == GroupView::fourteen(),
            r@.wf(),
    {
        let prime = copy_range(GROUP14.as_slice(), 0, 256);
        assert(prime@ =~= GROUP14@);
        let generator: Vec<u8> = vec![2u8];
        assert(generator@ =~= seq![2u8]);
        assert(GROUP14@.last() == 0xff);
        Group { prime, generator }
    }

    /// A copy of the group.
    pub fn copy(&self) -> (r: Group)
        ensures
            r@ == self@,
    {
        let prime = copy_range(self.prime.as_slice(), 0, self.prime.len());
        let generator = copy_range(self.generator.as_slice(), 0, self.generator.len());
        assert(prime@ =~= self.prime@);
        assert(generator@ =~= self.generator@);
        Group { prime, generator }
    }

    /// Whether the number with the digits `v` may be exchanged in the group.
    pub fn is_in_range(&self, v: &[u8]) -> (r: bool)
        requires
            self@.wf(),
        ensures
            r == self@.in_range(v@),
    {
        let n = self.prime.len();
        let mut less_one = copy_range(self.prime.as_slice(), 0, n);
        assert(less_one@ =~= self.prime@);
        let last = self.prime[n - 1];
        less_one.set(n - 1, last - 1);
        assert(less_one@.drop_last() =~= self.prime@.drop_last());
        let one: Vec<u8> = vec![1u8];
        assert(one@.drop_last() =~= Seq::<u8>::empty());
        assert(be_value(Seq::<u8>::empty()) == 0);
        assert(be_value(one@) == be_value(one@.drop_last()) * 256 + 1);
        less(one.as_slice(), v) && less(v, less_one.as_slice())
    }

    /// The digits of `base` to the power of `exponent` in the group.
    pub fn raise(&self, base: &[u8], exponent: &[u8]) -> (r: Vec<u8>)
        requires
            self@.wf(),
        ensures
            r@ == self@.power(base@, exponent@),
    {
        modpow(base, exponent, self.prime.as_slice())
    }

    /// The public key that goes with the secret `secret`.
    pub fn public_key(&self, secret: &[u8]) -> (r: Option<Vec<u8>>)
        requires
            self@.wf(),
        ensures
            seq_of(r) == self@.public(secret@),
    {
        let e = self.raise(self.generator.as_slice(), secret);
        if self.is_in_range(e.as_slice()) {
            Some(mpint_body_of(e.as_slice()))
        } else {
            None
        }
    }

    /// The shared secret of the secret `secret` and the other side's number.
    pub fn shared_secret(&self, secret: &[u8], peer: &[u8]) -> (r: Option<Vec<u8>>)
        requires
            self@.wf(),
        ensures
            seq_of(r) == self@.shared(secret@, peer@),
    {
        if peer.len() > 0 && peer[0] < 0x80 && self.is_in_range(peer) {
            Some(self.raise(peer, secret))
        } else {
            None
        }
    }
}

/// The size in bytes of an ephemeral secret for the exchange `kex`.
pub open spec fn secret_size(kex: Kex) -> nat {
    match kex {
        Kex::Curve25519Sha256 | Kex::Curve25519Sha256Libssh | Kex::EcdhSha2Nistp256 => 32,
        Kex::EcdhSha2Nistp384 => 48,
        Kex::EcdhSha2Nistp521 => 66,
        Kex::DiffieHellmanGroup14Sha256 | Kex::DiffieHellmanGroup14Sha1
        | Kex::DiffieHellmanGroupExchangeSha256 => 64,
    }
}

/// The public key that goes with the ephemeral secret `secret` in the
/// exchange `kex`, as it stands in a message; `None` where the secret gives
/// none. Over Curve25519 it is the product of the secret and the base point.
/// Over a NIST curve it is the point of the secret, in uncompressed form. In
/// group 14 it is the public key of that group. The exchange over a group that
/// the server proposes has no public key before the group is known.
pub open spec fn public_of(kex: Kex, secret: Seq<u8>) -> Option<Seq<u8>> {
    match kex {
        Kex::Curve25519Sha256 | Kex::Curve25519Sha256Libssh => if secret.len() == KEY_SIZE {
            Some(x25519_product(secret, base_point()))
        } else {
            None
        },
        Kex::EcdhSha2Nistp256 => nistp256_point(secret),
        Kex::EcdhSha2Nistp384 => nistp384_point(secret),
        Kex::EcdhSha2Nistp521 => nistp521_point(secret),
        Kex::DiffieHellmanGroup14Sha256 | Kex::DiffieHellmanGroup14Sha1
            => GroupView::fourteen().public(secret),
        Kex::DiffieHellmanGroupExchangeSha256 => None,
    }
}

/// The shared secret that the ephemeral secret `secret` and the other side's
/// public key `peer` give in the exchange `kex`, as the magnitude of a number;
/// `None` where they give none. Over Curve25519 it is the product of the
/// secret and the peer's point, unless that is zero. Over a NIST curve the
/// peer's point must be in uncompressed form. In group 14 it is the shared
/// secret of that group.
pub open spec fn shared_of(kex: Kex, secret: Seq<u8>, peer: Seq<u8>) -> Option<Seq<u8>> {
    match kex {
        Kex::Curve25519Sha256 | Kex::Curve25519Sha256Libssh => if secret.len() == KEY_SIZE
            && peer.len() == KEY_SIZE && !all_zero(x25519_product(secret, peer)) {
            Some(x25519_product(secret, peer))
        } else {
            None
        },
        Kex::EcdhSha2Nistp256 => if peer.len() > 0 && peer[0] == UNCOMPRESSED {
            nistp256_shared(secret, peer)
        } else {
            None
        },
        Kex::EcdhSha2Nistp384 => if peer.len() > 0 && peer[0] == UNCOMPRESSED {
            nistp384_shared(secret, peer)
        } else {
            None
        },
        Kex::EcdhSha2Nistp521 => if peer.len() > 0 && peer[0] == UNCOMPRESSED {
            nistp521_shared(secret, peer)
        } else {
            None
        },
        Kex::DiffieHellmanGroup14Sha256 | Kex::DiffieHellmanGroup14Sha1
            => GroupView::fourteen().shared(secret, peer),
        Kex::DiffieHellmanGroupExchangeSha256 => None,
    }
}

/// The base point of Curve25519.
fn base() -> (r: Vec<u8>)
    ensures
        r@ == base_point(),
{
    let mut r: Vec<u8> = Vec::new();
    r.push(9);
    while r.len() < KEY_SIZE
        invariant
            1 <= r@.len() <= KEY_SIZE,
            r@[0] == 9,
            forall|i: int| 1 <= i < r@.len() ==> r@[i] == 0,
        decreases KEY_SIZE - r@.len(),
    {
        r.push(0);
    }
    assert(r@ =~= base_point());
    r
}

/// Whether every byte of `b` is zero, in time that depends on its length
/// alone.
pub fn is_zero(b: &[u8]) -> (r: bool)
    ensures
        r == all_zero(b@),
{
    let mut acc: u8 = 0;
    let mut i: usize = 0;
    while i < b.len()
        invariant
            i <= b@.len(),
            (acc == 0) == all_zero(b@.take(i as int)),
        decreases b@.len() - i,
    {
        let x = b[i];
        let ghost before = acc;
        acc = acc | x;
        proof {
            assert((before | x) == 0 <==> (before == 0 && x == 0)) by (bit_vector);
            let shorter = b@.take(i as int);
            let longer = b@.take(i + 1);
            assert(longer =~= shorter.push(x));
            if all_zero(longer) {
                assert(longer[i as int] == 0);
                assert forall|j: int| 0 <= j < shorter.len() implies shorter[j] == 0 by {
                    assert(longer[j] == 0);
                }
            }
        }
        i += 1;
    }
    assert(b@.take(i as int) =~= b@);
    acc == 0
}

/// The public key that goes with the ephemeral secret `secret` in the
/// exchange `kex`.
pub fn public_key(kex: Kex, secret: &[u8]) -> (r: Option<Vec<u8>>)
    ensures
        seq_of(r) == public_of(kex, secret@),
{
    match kex {
        Kex::Curve25519Sha256 | Kex::Curve25519Sha256Libssh => if secret.len() == KEY_SIZE {
            Some(x25519(secret, base().as_slice()))
        } else {
            None
        },
        Kex::EcdhSha2Nistp256 => nistp256_public(secret),
        Kex::EcdhSha2Nistp384 => nistp384_public(secret),
        Kex::EcdhSha2Nistp521 => nistp521_public(secret),
        Kex::DiffieHellmanGroup14Sha256 | Kex::DiffieHellmanGroup14Sha1
            => Group::fourteen().public_key(secret),
        Kex::DiffieHellmanGroupExchangeSha256 => None,
    }
}

/// The shared secret that `secret` and the other side's public key give in
/// the exchange `kex`.
pub fn shared_secret(kex: Kex, secret: &[u8], peer: &[u8]) -> (r: Option<Vec<u8>>)
    ensures
        seq_of(r) == shared_of(kex, secret@, peer@),
{
    match kex {
        Kex::Curve25519Sha256 | Kex::Curve25519Sha256Libssh => {
            if secret.len() != KEY_SIZE || peer.len() != KEY_SIZE {
                return None;
            }
            let k = x25519(secret, peer);
            if is_zero(k.as_slice()) {
                None
            } else {
                Some(k)
            }
        },
        Kex::EcdhSha2Nistp256 => if peer.len() > 0 && peer[0] == UNCOMPRESSED {
            nistp256_agree(secret, peer)
        } else {
            None
        },
        Kex::EcdhSha2Nistp384 => if peer.len() > 0 && peer[0] == UNCOMPRESSED {
            nistp384_agree(secret, peer)
        } else {
            None
        },
        Kex::EcdhSha2Nistp521 => if peer.len() > 0 && peer[0] == UNCOMPRESSED {
            nistp521_agree(secret, peer)
        } else {
            None
        },
        Kex::DiffieHellmanGroup14Sha256 | Kex::DiffieHellmanGroup14Sha1
            => Group::fourteen().shared_secret(secret, peer),
        Kex::DiffieHellmanGroupExchangeSha256 => None,
    }
}

/// A fresh ephemeral secret for the exchange `kex`. Over the curve NIST P-521,
/// whose numbers have 521 bits, the first byte keeps its last bit alone.
pub fn ephemeral_secret(kex: Kex) -> (r: Vec<u8>)
    ensures
        r@.len() == secret_size(kex),
        kex == Kex::EcdhSha2Nistp521 ==> r@[0] <= 1,
{
    let size: usize = match kex {
        Kex::Curve25519Sha256 | Kex::Curve25519Sha256Libssh | Kex::EcdhSha2Nistp256 => 32,
        Kex::EcdhSha2Nistp384 => 48,
        Kex::EcdhSha2Nistp521 => 66,
        Kex::DiffieHellmanGroup14Sha256 | Kex::DiffieHellmanGroup14Sha1
        | Kex::DiffieHellmanGroupExchangeSha256 => 64,
    };
    let mut r = random_bytes(size);
    if kex == Kex::EcdhSha2Nistp521 {
        let first = r[0];
        let kept = first & 1;
        assert(kept <= 1) by (bit_vector)
            requires
                kept == first & 1,
        ;
        r.set(0, kept);
    }
    r
}

} // verus!
