//! Client-side configuration of the session.

use vstd::prelude::*;
use vstd::string::*;
use crate::algorithm::key::{EcdsaCurve, HashAlg, Key};
use crate::algorithm::{Cipher, Compress, Kex};
use crate::crypto::random_bytes;
use crate::error::Error;
use crate::kex::negotiate::{negotiate, negotiated, Negotiated};
use crate::kexinit::{KexInit, COOKIE_SIZE};
use crate::session::id::Id;
use crate::session::rekey::Limits;
use crate::session::server::{
    default_ciphers, default_compressions, default_kexs, default_macs, proposal, propose,
};
use crate::transport::hmac::HmacAlg;

verus! {

/// A client-side session configuration.
#[derive(Debug, Clone, PartialEq, Eq)]
pub struct Client {
    /// The identification of this client.
    pub id: Id,
    /// Timeout for sending and receiving packets, in seconds.
    pub timeout: u64,
    /// The algorithms enabled for this client session.
    pub algorithms: Algorithms,
    /// When the keys are exchanged anew.
    pub rekey: Limits,
}

/// The software version by which a client identifies itself by default.
pub open spec fn default_software() -> Seq<u8> {
    "assh@client:0.1.0".spec_bytes()
}

/// The timeout for sending and receiving packets by default, in seconds.
pub const DEFAULT_TIMEOUT: u64 = 3;

impl Default for Client {
    fn default() -> (r: Self)
        ensures
            r.id.softwareversion@ == default_software(),
            r.id.comments is None,
            r.timeout == DEFAULT_TIMEOUT,
            r.algorithms.kexs@ == default_kexs(),
            r.algorithms.keys@ == default_keys(),
            r.algorithms.ciphers@ == default_ciphers(),
            r.algorithms.macs@ == default_macs(),
            r.algorithms.compressions@ == default_compressions(),
            r.rekey == Limits::standard(),
    {
        let name = "assh@client:0.1.0".as_bytes();
        let softwareversion = crate::wire::copy_range(name, 0, name.len());
        assert(softwareversion@ =~= name@);
        Client {
            id: Id::v2(softwareversion, None),
            timeout: DEFAULT_TIMEOUT,
            algorithms: Algorithms::default(),
            rekey: Limits::default(),
        }
    }
}

/// Algorithms for a client-side session.
#[derive(Debug, Clone, PartialEq, Eq)]
pub struct Algorithms {
    /// Enabled algorithms for key exchange.
    pub kexs: Vec<Kex>,
    /// Enabled algorithms for server key signature.
    pub keys: Vec<Key>,
    /// Enabled algorithms for encryption and decryption.
    pub ciphers: Vec<Cipher>,
    /// Enabled algorithms for message authentication.
    pub macs: Vec<HmacAlg>,
    /// Enabled algorithms for compression.
    pub compressions: Vec<Compress>,
}

/// The host key algorithms that a client accepts by default, most preferred
/// first.
pub open spec fn default_keys() -> Seq<Key> {
    seq![
        Key::Ed25519,
        Key::Ecdsa { curve: EcdsaCurve::NistP384 },
        Key::Ecdsa { curve: EcdsaCurve::NistP256 },
        Key::Rsa { hash: Some(HashAlg::Sha512) },
        Key::Rsa { hash: Some(HashAlg::Sha256) },
        Key::Rsa { hash: None },
        Key::Dsa,
    ]
}

impl Default for Algorithms {
    fn default() -> (r: Self)
        ensures
            r.kexs@ == default_kexs(),
            r.keys@ == default_keys(),
            r.ciphers@ == default_ciphers(),
            r.macs@ == default_macs(),
            r.compressions@ == default_compressions(),
    {
        let crate::session::server::Algorithms { kexs, ciphers, macs, compressions } =
            crate::session::server::Algorithms::default();
        Algorithms {
            kexs,
            keys: vec![
                Key::Ed25519,
                Key::Ecdsa { curve: EcdsaCurve::NistP384 },
                Key::Ecdsa { curve: EcdsaCurve::NistP256 },
                Key::Rsa { hash: Some(HashAlg::Sha512) },
                Key::Rsa { hash: Some(HashAlg::Sha256) },
                Key::Rsa { hash: None },
                Key::Dsa,
            ],
            ciphers,
            macs,
            compressions,
        }
    }
}

impl Client {
    /// The identification of this client.
    pub fn id(&self) -> (r: &Id)
        ensures
            *r == self.id,
    {
        &self.id
    }

    /// Timeout for sending and receiving packets, in seconds.
    pub fn timeout(&self) -> (r: u64)
        ensures
            r == self.timeout,
    {
        self.timeout
    }

    /// The proposal of this client: its algorithms, with a cookie drawn at
    /// random.
    pub fn kexinit(&self) -> (r: KexInit)
        ensures
            r@.cookie.len() == COOKIE_SIZE,
            r@ == proposal(
                r@.cookie,
                self.algorithms.kexs@,
                self.algorithms.keys@,
                self.algorithms.ciphers@,
                self.algorithms.macs@,
                self.algorithms.compressions@,
            ),
    {
        propose(
            random_bytes(COOKIE_SIZE),
            &self.algorithms.kexs,
            &self.algorithms.keys,
            &self.algorithms.ciphers,
            &self.algorithms.macs,
            &self.algorithms.compressions,
        )
    }

    /// The algorithms that this client's proposal and the server's give: what
    /// the key exchange then runs with.
    pub fn exchange(&self, kexinit: &KexInit, peerkexinit: &KexInit) -> (r: Result<Negotiated, Error>)
        ensures
            r == negotiated(kexinit@, peerkexinit@),
    {
        negotiate(kexinit, peerkexinit)
    }
}

} // verus!
