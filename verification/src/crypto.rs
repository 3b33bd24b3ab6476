//! The cryptographic primitives, which this library calls and does not
//! compute.
//!
//! Every function of this module that is marked `external_body` is believed,
//! not proved: its contract restates what the called crate documents. What a
//! primitive computes is given a name, an uninterpreted function of the
//! arguments, so that the code around it can say which call produced which
//! bytes.

use vstd::prelude::*;
use hmac::Mac;
use rand::RngCore;
use sha2::Digest;
use signature::{Signer, Verifier};
use crate::algorithm::{Algorithm, Cipher};
use crate::algorithm::cipher::Mode;
use crate::algorithm::kex::KexHash;
use crate::transport::hmac::HmacAlg;

verus! {

/// The SHA-1 digest of `data`.
pub uninterp spec fn sha1_digest(data: Seq<u8>) -> Seq<u8>;

/// The SHA-256 digest of `data`.
pub uninterp spec fn sha256_digest(data: Seq<u8>) -> Seq<u8>;

/// The SHA-384 digest of `data`.
pub uninterp spec fn sha384_digest(data: Seq<u8>) -> Seq<u8>;

/// The SHA-512 digest of `data`.
pub uninterp spec fn sha512_digest(data: Seq<u8>) -> Seq<u8>;

/// The HMAC-MD5 tag of `data` under `key`.
pub uninterp spec fn hmac_md5_tag(key: Seq<u8>, data: Seq<u8>) -> Seq<u8>;

/// The HMAC-SHA-1 tag of `data` under `key`.
pub uninterp spec fn hmac_sha1_tag(key: Seq<u8>, data: Seq<u8>) -> Seq<u8>;

/// The HMAC-SHA-256 tag of `data` under `key`.
pub uninterp spec fn hmac_sha256_tag(key: Seq<u8>, data: Seq<u8>) -> Seq<u8>;

/// The HMAC-SHA-512 tag of `data` under `key`.
pub uninterp spec fn hmac_sha512_tag(key: Seq<u8>, data: Seq<u8>) -> Seq<u8>;

/// What the cipher named `cipher` makes of `data` under `key`, starting from
/// the initialisation vector `iv`.
pub uninterp spec fn encrypted(cipher: Seq<char>, key: Seq<u8>, iv: Seq<u8>, data: Seq<u8>) -> Seq<
    u8,
>;

/// What the cipher named `cipher` recovers from `data` under `key`, starting
/// from the initialisation vector `iv`.
pub uninterp spec fn decrypted(cipher: Seq<char>, key: Seq<u8>, iv: Seq<u8>, data: Seq<u8>) -> Seq<
    u8,
>;

/// The X25519 function of RFC 7748 on the scalar `k` and the point `u`.
pub uninterp spec fn x25519_product(k: Seq<u8>, u: Seq<u8>) -> Seq<u8>;

/// The public point, in uncompressed form, of the secret scalar `secret` on
/// the curve NIST P-256; `None` where `secret` is no scalar of the curve.
pub uninterp spec fn nistp256_point(secret: Seq<u8>) -> Option<Seq<u8>>;

/// The shared secret of the scalar `secret` and the point `peer` on the curve
/// NIST P-256; `None` where one of them is not of the curve.
pub uninterp spec fn nistp256_shared(secret: Seq<u8>, peer: Seq<u8>) -> Option<Seq<u8>>;

/// The public point, in uncompressed form, of the secret scalar `secret` on
/// the curve NIST P-384; `None` where `secret` is no scalar of the curve.
pub uninterp spec fn nistp384_point(secret: Seq<u8>) -> Option<Seq<u8>>;

/// The shared secret of the scalar `secret` and the point `peer` on the curve
/// NIST P-384; `None` where one of them is not of the curve.
pub uninterp spec fn nistp384_shared(secret: Seq<u8>, peer: Seq<u8>) -> Option<Seq<u8>>;

/// The public point, in uncompressed form, of the secret scalar `secret` on
/// the curve NIST P-521; `None` where `secret` is no scalar of the curve.
pub uninterp spec fn nistp521_point(secret: Seq<u8>) -> Option<Seq<u8>>;

/// The shared secret of the scalar `secret` and the point `peer` on the curve
/// NIST P-521; `None` where one of them is not of the curve.
pub uninterp spec fn nistp521_shared(secret: Seq<u8>, peer: Seq<u8>) -> Option<Seq<u8>>;

/// The bytes of a byte string that may be there.
pub open spec fn seq_of(o: Option<Vec<u8>>) -> Option<Seq<u8>> {
    match o {
        Some(v) => Some(v@),
        None => None,
    }
}

/// The number whose big-endian digits to the base 256 are `b`.
pub open spec fn be_value(b: Seq<u8>) -> nat
    decreases b.len(),
{
    if b.len() == 0 {
        0
    } else {
        be_value(b.drop_last()) * 256 + b.last() as nat
    }
}

/// The big-endian digits of `v` to the base 256, without a leading zero; the
/// one digit 0 for zero.
pub open spec fn be_digits(v: nat) -> Seq<u8>
    decreases v,
{
    if v < 256 {
        seq![v as u8]
    } else {
        be_digits(v / 256).push((v % 256) as u8)
    }
}

/// Whether `signature` is a signature of `message` by the key whose public
/// half is `key`, both in their wire encoding.
pub uninterp spec fn signature_valid(key: Seq<u8>, message: Seq<u8>, signature: Seq<u8>) -> bool;

/// `RngCore::fill_bytes` of the `rand` crate on the thread-local generator:
/// `n` bytes, of which nothing is known but their number.
#[verifier::external_body]
pub(crate) fn random_bytes(n: usize) -> (r: Vec<u8>)
    ensures
        r@.len() == n,
{
    let mut buf = vec![0u8; n];
    rand::thread_rng().fill_bytes(&mut buf);
    buf
}

/// `Digest::digest` of `sha1::Sha1`: the digest is a function of the data, 20
/// bytes long.
#[verifier::external_body]
pub(crate) fn sha1(data: &[u8]) -> (r: Vec<u8>)
    ensures
        r@ == sha1_digest(data@),
        r@.len() == 20,
{
    sha1::Sha1::digest(data).to_vec()
}

/// `Digest::digest` of `sha2::Sha256`: the digest is a function of the data,
/// 32 bytes long.
#[verifier::external_body]
pub(crate) fn sha256(data: &[u8]) -> (r: Vec<u8>)
    ensures
        r@ == sha256_digest(data@),
        r@.len() == 32,
{
    sha2::Sha256::digest(data).to_vec()
}

/// `Digest::digest` of `sha2::Sha384`: the digest is a function of the data,
/// 48 bytes long.
#[verifier::external_body]
pub(crate) fn sha384(data: &[u8]) -> (r: Vec<u8>)
    ensures
        r@ == sha384_digest(data@),
        r@.len() == 48,
{
    sha2::Sha384::digest(data).to_vec()
}

/// `Digest::digest` of `sha2::Sha512`: the digest is a function of the data,
/// 64 bytes long.
#[verifier::external_body]
pub(crate) fn sha512(data: &[u8]) -> (r: Vec<u8>)
    ensures
        r@ == sha512_digest(data@),
        r@.len() == 64,
{
    sha2::Sha512::digest(data).to_vec()
}

/// `Mac::finalize` of `hmac::Hmac<md5::Md5>` after one `update`: the tag is a
/// function of key and data, 16 bytes long. A key of any length is taken.
#[verifier::external_body]
pub(crate) fn hmac_md5(key: &[u8], data: &[u8]) -> (r: Vec<u8>)
    ensures
        r@ == hmac_md5_tag(key@, data@),
        r@.len() == 16,
{
    let mut mac = <hmac::Hmac<md5::Md5> as Mac>::new_from_slice(key).expect("any key length");
    mac.update(data);
    mac.finalize().into_bytes().to_vec()
}

/// `Mac::finalize` of `hmac::Hmac<sha1::Sha1>` after one `update`: the tag is
/// a function of key and data, 20 bytes long. A key of any length is taken.
#[verifier::external_body]
pub(crate) fn hmac_sha1(key: &[u8], data: &[u8]) -> (r: Vec<u8>)
    ensures
        r@ == hmac_sha1_tag(key@, data@),
        r@.len() == 20,
{
    let mut mac = <hmac::Hmac<sha1::Sha1> as Mac>::new_from_slice(key).expect("any key length");
    mac.update(data);
    mac.finalize().into_bytes().to_vec()
}

/// `Mac::finalize` of `hmac::Hmac<sha2::Sha256>` after one `update`: the tag
/// is a function of key and data, 32 bytes long. A key of any length is taken.
#[verifier::external_body]
pub(crate) fn hmac_sha256(key: &[u8], data: &[u8]) -> (r: Vec<u8>)
    ensures
        r@ == hmac_sha256_tag(key@, data@),
        r@.len() == 32,
{
    let mut mac = <hmac::Hmac<sha2::Sha256> as Mac>::new_from_slice(key).expect("any key length");
    mac.update(data);
    mac.finalize().into_bytes().to_vec()
}

/// `Mac::finalize` of `hmac::Hmac<sha2::Sha512>` after one `update`: the tag
/// is a function of key and data, 64 bytes long. A key of any length is taken.
#[verifier::external_body]
pub(crate) fn hmac_sha512(key: &[u8], data: &[u8]) -> (r: Vec<u8>)
    ensures
        r@ == hmac_sha512_tag(key@, data@),
        r@.len() == 64,
{
    let mut mac = <hmac::Hmac<sha2::Sha512> as Mac>::new_from_slice(key).expect("any key length");
    mac.update(data);
    mac.finalize().into_bytes().to_vec()
}

/// Whether the cipher named `cipher` takes a key of `key` bytes, an
/// initialisation vector of `iv` bytes and `data` bytes of input: the name is
/// that of a cipher other than `none`, key and vector have the cipher's sizes,
/// and but for counter mode the input is a whole number of blocks.
pub open spec fn cipher_takes(cipher: Seq<char>, key: nat, iv: nat, data: nat) -> bool {
    exists|c: Cipher|
        {
            &&& #[trigger] c.spec_name() == cipher
            &&& c != Cipher::Null
            &&& key == c.spec_key_size()
            &&& iv == c.spec_iv_size()
            &&& (c.spec_mode() == Mode::Counter || data % c.spec_block_size() == 0)
        }
}

/// `Cipher::encrypt` of the `ssh-key` crate, on a cipher made by
/// `Cipher::new` from its name. Whenever the cipher takes these sizes, the
/// output is there, is a function of name, key, vector and input, and is as
/// long as the input; and `Cipher::decrypt` undoes it: on the output, with the
/// same name, key and vector, it gives the input. Of other names and sizes
/// nothing is said. The call keeps no state: `iv` is where the cipher starts.
#[verifier::external_body]
pub(crate) fn cipher_encrypt(cipher: &str, key: &[u8], iv: &[u8], data: &[u8]) -> (r: Option<
    Vec<u8>,
>)
    ensures
        cipher_takes(cipher@, key@.len(), iv@.len(), data@.len()) ==> {
            &&& r is Some
            &&& r->0@ == encrypted(cipher@, key@, iv@, data@)
            &&& r->0@.len() == data@.len()
            &&& decrypted(cipher@, key@, iv@, r->0@) == data@
        },
{
    let mut buf = data.to_vec();
    match ssh_key::Cipher::new(cipher) {
        Ok(c) => c.encrypt(key, iv, &mut buf).ok().map(|_| buf),
        Err(_) => None,
    }
}

/// `Cipher::decrypt` of the `ssh-key` crate, on a cipher made by
/// `Cipher::new` from its name. Whenever the cipher takes these sizes, the
/// output is there, is a function of name, key, vector and input, and is as
/// long as the input. Of other names and sizes nothing is said.
#[verifier::external_body]
pub(crate) fn cipher_decrypt(cipher: &str, key: &[u8], iv: &[u8], data: &[u8]) -> (r: Option<
    Vec<u8>,
>)
    ensures
        cipher_takes(cipher@, key@.len(), iv@.len(), data@.len()) ==> {
            &&& r is Some
            &&& r->0@ == decrypted(cipher@, key@, iv@, data@)
            &&& r->0@.len() == data@.len()
        },
{
    let mut buf = data.to_vec();
    match ssh_key::Cipher::new(cipher) {
        Ok(c) => c.decrypt(key, iv, &mut buf, None).ok().map(|_| buf),
        Err(_) => None,
    }
}

/// `x25519` of the `x25519-dalek` crate, the byte-oriented function of RFC
/// 7748: 32 bytes that are a function of scalar and point.
#[verifier::external_body]
pub(crate) fn x25519(k: &[u8], u: &[u8]) -> (r: Vec<u8>)
    requires
        k@.len() == 32,
        u@.len() == 32,
    ensures
        r@ == x25519_product(k@, u@),
        r@.len() == 32,
{
    let mut scalar = [0u8; 32];
    let mut point = [0u8; 32];
    scalar.copy_from_slice(k);
    point.copy_from_slice(u);
    x25519_dalek::x25519(scalar, point).to_vec()
}

/// `PublicKey::to_sec1_bytes` of the `p256` crate, on the public key of a
/// secret key read by `SecretKey::from_slice`: whether there is a point, and
/// which, is a function of the secret.
#[verifier::external_body]
pub(crate) fn nistp256_public(secret: &[u8]) -> (r: Option<Vec<u8>>)
    ensures
        seq_of(r) == nistp256_point(secret@),
{
    let key = p256::SecretKey::from_slice(secret).ok()?;
    Some(key.public_key().to_sec1_bytes().to_vec())
}

/// `ecdh::diffie_hellman` of the `p256` crate, on a secret key read by
/// `SecretKey::from_slice` and a public key read by
/// `PublicKey::from_sec1_bytes`: whether there is a shared secret, and which,
/// is a function of the two.
#[verifier::external_body]
pub(crate) fn nistp256_agree(secret: &[u8], peer: &[u8]) -> (r: Option<Vec<u8>>)
    ensures
        seq_of(r) == nistp256_shared(secret@, peer@),
{
    let key = p256::SecretKey::from_slice(secret).ok()?;
    let point = p256::PublicKey::from_sec1_bytes(peer).ok()?;
    let shared = p256::ecdh::diffie_hellman(key.to_nonzero_scalar(), point.as_affine());
    Some(shared.raw_secret_bytes().to_vec())
}

/// `PublicKey::to_sec1_bytes` of the `p384` crate, on the public key of a
/// secret key read by `SecretKey::from_slice`: whether there is a point, and
/// which, is a function of the secret.
#[verifier::external_body]
pub(crate) fn nistp384_public(secret: &[u8]) -> (r: Option<Vec<u8>>)
    ensures
        seq_of(r) == nistp384_point(secret@),
{
    let key = p384::SecretKey::from_slice(secret).ok()?;
    Some(key.public_key().to_sec1_bytes().to_vec())
}

/// `ecdh::diffie_hellman` of the `p384` crate, on a secret key read by
/// `SecretKey::from_slice` and a public key read by
/// `PublicKey::from_sec1_bytes`: whether there is a shared secret, and which,
/// is a function of the two.
#[verifier::external_body]
pub(crate) fn nistp384_agree(secret: &[u8], peer: &[u8]) -> (r: Option<Vec<u8>>)
    ensures
        seq_of(r) == nistp384_shared(secret@, peer@),
{
    let key = p384::SecretKey::from_slice(secret).ok()?;
    let point = p384::PublicKey::from_sec1_bytes(peer).ok()?;
    let shared = p384::ecdh::diffie_hellman(key.to_nonzero_scalar(), point.as_affine());
    Some(shared.raw_secret_bytes().to_vec())
}

/// `PublicKey::to_sec1_bytes` of the `p521` crate, on the public key of a
/// secret key read by `SecretKey::from_slice`: whether there is a point, and
/// which, is a function of the secret.
#[verifier::external_body]
pub(crate) fn nistp521_public(secret: &[u8]) -> (r: Option<Vec<u8>>)
    ensures
        seq_of(r) == nistp521_point(secret@),
{
    let key = p521::SecretKey::from_slice(secret).ok()?;
    Some(key.public_key().to_sec1_bytes().to_vec())
}

/// `ecdh::diffie_hellman` of the `p521` crate, on a secret key read by
/// `SecretKey::from_slice` and a public key read by
/// `PublicKey::from_sec1_bytes`: whether there is a shared secret, and which,
/// is a function of the two.
#[verifier::external_body]
pub(crate) fn nistp521_agree(secret: &[u8], peer: &[u8]) -> (r: Option<Vec<u8>>)
    ensures
        seq_of(r) == nistp521_shared(secret@, peer@),
{
    let key = p521::SecretKey::from_slice(secret).ok()?;
    let point = p521::PublicKey::from_sec1_bytes(peer).ok()?;
    let shared = p521::ecdh::diffie_hellman(key.to_nonzero_scalar(), point.as_affine());
    Some(shared.raw_secret_bytes().to_vec())
}

/// `BigUint::modpow` of the `num-bigint` crate, on numbers read by
/// `BigUint::from_bytes_be` and written by `BigUint::to_bytes_be`: the digits
/// of the power of the base to the exponent, modulo the modulus, which must
/// not be zero.
#[verifier::external_body]
pub(crate) fn modpow(base: &[u8], exponent: &[u8], modulus: &[u8]) -> (r: Vec<u8>)
    requires
        be_value(modulus@) > 0,
    ensures
        r@ == be_digits(
            (vstd::arithmetic::power::pow(be_value(base@) as int, be_value(exponent@)) % (
            be_value(modulus@) as int)) as nat,
        ),
{
    let base = num_bigint::BigUint::from_bytes_be(base);
    let exponent = num_bigint::BigUint::from_bytes_be(exponent);
    base.modpow(&exponent, &num_bigint::BigUint::from_bytes_be(modulus)).to_bytes_be()
}

/// The order of `num_bigint::BigUint`, on numbers read by
/// `BigUint::from_bytes_be`: whether the first number is less than the
/// second.
#[verifier::external_body]
pub(crate) fn less(a: &[u8], b: &[u8]) -> (r: bool)
    ensures
        r == (be_value(a@) < be_value(b@)),
{
    num_bigint::BigUint::from_bytes_be(a) < num_bigint::BigUint::from_bytes_be(b)
}

/// `Verifier::verify` of `ssh_key::public::KeyData` on a key read by
/// `PublicKey::from_bytes` and a signature read by `Signature::try_from`:
/// whether all three succeed is a function of key, message and signature.
#[verifier::external_body]
pub(crate) fn verify_signature(key: &[u8], message: &[u8], signature: &[u8]) -> (r: bool)
    ensures
        r == signature_valid(key@, message@, signature@),
{
    match (ssh_key::PublicKey::from_bytes(key), ssh_key::Signature::try_from(signature)) {
        (Ok(k), Ok(s)) => k.key_data().verify(message, &s).is_ok(),
        _ => false,
    }
}

/// `Signer::try_sign` of `ssh_key::PrivateKey` on a key read by
/// `PrivateKey::from_bytes`, the signature in its wire encoding. Nothing is
/// promised of it: some algorithms draw randomness, and the key may not parse.
#[verifier::external_body]
pub(crate) fn sign(private_key: &[u8], message: &[u8]) -> (r: Option<Vec<u8>>) {
    let key = ssh_key::PrivateKey::from_bytes(private_key).ok()?;
    let signature = key.try_sign(message).ok()?;
    Vec::<u8>::try_from(signature).ok()
}

/// The digest of `data` under the hash function `alg`.
pub open spec fn digest(alg: KexHash, data: Seq<u8>) -> Seq<u8> {
    match alg {
        KexHash::Sha1 => sha1_digest(data),
        KexHash::Sha256 => sha256_digest(data),
        KexHash::Sha384 => sha384_digest(data),
        KexHash::Sha512 => sha512_digest(data),
    }
}

/// The digest of `data` under the hash function `alg`.
pub fn hash(alg: KexHash, data: &[u8]) -> (r: Vec<u8>)
    ensures
        r@ == digest(alg, data@),
        r@.len() == alg.spec_size(),
{
    match alg {
        KexHash::Sha1 => sha1(data),
        KexHash::Sha256 => sha256(data),
        KexHash::Sha384 => sha384(data),
        KexHash::Sha512 => sha512(data),
    }
}

/// The authentication tag of `data` under `key`; the empty tag without an
/// algorithm.
pub open spec fn tag(alg: HmacAlg, key: Seq<u8>, data: Seq<u8>) -> Seq<u8> {
    match alg {
        HmacAlg::HmacSha512ETM | HmacAlg::HmacSha512 => hmac_sha512_tag(key, data),
        HmacAlg::HmacSha256ETM | HmacAlg::HmacSha256 => hmac_sha256_tag(key, data),
        HmacAlg::HmacSha1ETM | HmacAlg::HmacSha1 => hmac_sha1_tag(key, data),
        HmacAlg::HmacMd5ETM | HmacAlg::HmacMd5 => hmac_md5_tag(key, data),
        HmacAlg::Null => Seq::empty(),
    }
}

/// The authentication tag of `data` under `key`; the empty tag without an
/// algorithm.
pub fn mac(alg: HmacAlg, key: &[u8], data: &[u8]) -> (r: Vec<u8>)
    ensures
        r@ == tag(alg, key@, data@),
        r@.len() == alg.spec_size(),
{
    match alg {
        HmacAlg::HmacSha512ETM | HmacAlg::HmacSha512 => hmac_sha512(key, data),
        HmacAlg::HmacSha256ETM | HmacAlg::HmacSha256 => hmac_sha256(key, data),
        HmacAlg::HmacSha1ETM | HmacAlg::HmacSha1 => hmac_sha1(key, data),
        HmacAlg::HmacMd5ETM | HmacAlg::HmacMd5 => hmac_md5(key, data),
        HmacAlg::Null => Vec::new(),
    }
}

} // verus!
