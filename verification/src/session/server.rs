//! Server-side configuration of the session.

use vstd::prelude::*;
use crate::algorithm::key::Key;
use crate::algorithm::{name_list, names, Algorithm, Cipher, Compress, Kex};
use crate::crypto::random_bytes;
use crate::kex::ecdh::HostKey;
use crate::kexinit::{KexInit, KexInitView, COOKIE_SIZE};
use crate::namelist::join;
use crate::session::id::Id;
use crate::session::rekey::Limits;
use crate::transport::hmac::HmacAlg;

verus! {

/// Algorithms for a server-side session.
#[derive(Debug, Clone, PartialEq, Eq)]
pub struct Algorithms {
    /// Enabled algorithms for key exchange.
    pub kexs: Vec<Kex>,
    /// Enabled algorithms for encryption and decryption.
    pub ciphers: Vec<Cipher>,
    /// Enabled algorithms for message authentication.
    pub macs: Vec<HmacAlg>,
    /// Enabled algorithms for compression.
    pub compressions: Vec<Compress>,
}

/// The key exchange algorithms that are enabled by default, most preferred
/// first.
pub open spec fn default_kexs() -> Seq<Kex> {
    seq![
        Kex::Curve25519Sha256,
        Kex::Curve25519Sha256Libssh,
        Kex::EcdhSha2Nistp256,
        Kex::EcdhSha2Nistp384,
        Kex::EcdhSha2Nistp521,
        Kex::DiffieHellmanGroup14Sha256,
        Kex::DiffieHellmanGroup14Sha1,
        Kex::DiffieHellmanGroupExchangeSha256,
    ]
}

/// The encryption algorithms that are enabled by default, most preferred
/// first.
pub open spec fn default_ciphers() -> Seq<Cipher> {
    seq![
        Cipher::Aes256Ctr,
        Cipher::Aes192Ctr,
        Cipher::Aes128Ctr,
        Cipher::Aes256Cbc,
        Cipher::Aes192Cbc,
        Cipher::Aes128Cbc,
        Cipher::TDesCbc,
    ]
}

/// The message authentication algorithms that are enabled by default, most
/// preferred first.
pub open spec fn default_macs() -> Seq<HmacAlg> {
    seq![
        HmacAlg::HmacSha512ETM,
        HmacAlg::HmacSha256ETM,
        HmacAlg::HmacSha512,
        HmacAlg::HmacSha256,
        HmacAlg::HmacSha1ETM,
        HmacAlg::HmacSha1,
        HmacAlg::HmacMd5ETM,
        HmacAlg::HmacMd5,
    ]
}

/// The compression algorithms that are enabled by default.
pub open spec fn default_compressions() -> Seq<Compress> {
    seq![Compress::Null]
}

impl Default for Algorithms {
    fn default() -> (r: Self)
        ensures
            r.kexs@ == default_kexs(),
            r.ciphers@ == default_ciphers(),
            r.macs@ == default_macs(),
            r.compressions@ == default_compressions(),
    {
        Algorithms {
            kexs: vec![
                Kex::Curve25519Sha256,
                Kex::Curve25519Sha256Libssh,
                Kex::EcdhSha2Nistp256,
                Kex::EcdhSha2Nistp384,
                Kex::EcdhSha2Nistp521,
                Kex::DiffieHellmanGroup14Sha256,
                Kex::DiffieHellmanGroup14Sha1,
                Kex::DiffieHellmanGroupExchangeSha256,
            ],
            ciphers: vec![
                Cipher::Aes256Ctr,
                Cipher::Aes192Ctr,
                Cipher::Aes128Ctr,
                Cipher::Aes256Cbc,
                Cipher::Aes192Cbc,
                Cipher::Aes128Cbc,
                Cipher::TDesCbc,
            ],
            macs: vec![
                HmacAlg::HmacSha512ETM,
                HmacAlg::HmacSha256ETM,
                HmacAlg::HmacSha512,
                HmacAlg::HmacSha256,
                HmacAlg::HmacSha1ETM,
                HmacAlg::HmacSha1,
                HmacAlg::HmacMd5ETM,
                HmacAlg::HmacMd5,
            ],
            compressions: vec![Compress::Null],
        }
    }
}

/// The proposal that offers the given algorithms in both directions, and no
/// language, with the cookie `cookie`; no guessed packet follows.
pub open spec fn proposal(
    cookie: Seq<u8>,
    kexs: Seq<Kex>,
    keys: Seq<Key>,
    ciphers: Seq<Cipher>,
    macs: Seq<HmacAlg>,
    compressions: Seq<Compress>,
) -> KexInitView {
    KexInitView {
        cookie,
        kex_algorithms: join(names(kexs)),
        server_host_key_algorithms: join(names(keys)),
        encryption_algorithms_client_to_server: join(names(ciphers)),
        encryption_algorithms_server_to_client: join(names(ciphers)),
        mac_algorithms_client_to_server: join(names(macs)),
        mac_algorithms_server_to_client: join(names(macs)),
        compression_algorithms_client_to_server: join(names(compressions)),
        compression_algorithms_server_to_client: join(names(compressions)),
        languages_client_to_server: Seq::empty(),
        languages_server_to_client: Seq::empty(),
        first_kex_packet_follows: false,
        reserved: 0,
    }
}

/// The proposal that offers the given algorithms in both directions, with the
/// cookie `cookie`.
pub fn propose(
    cookie: Vec<u8>,
    kexs: &Vec<Kex>,
    keys: &Vec<Key>,
    ciphers: &Vec<Cipher>,
    macs: &Vec<HmacAlg>,
    compressions: &Vec<Compress>,
) -> (r: KexInit)
    ensures
        r@ == proposal(cookie@, kexs@, keys@, ciphers@, macs@, compressions@),
{
    KexInit {
        cookie,
        kex_algorithms: name_list(kexs),
        server_host_key_algorithms: name_list(keys),
        encryption_algorithms_client_to_server: name_list(ciphers),
        encryption_algorithms_server_to_client: name_list(ciphers),
        mac_algorithms_client_to_server: name_list(macs),
        mac_algorithms_server_to_client: name_list(macs),
        compression_algorithms_client_to_server: name_list(compressions),
        compression_algorithms_server_to_client: name_list(compressions),
        languages_client_to_server: Vec::new(),
        languages_server_to_client: Vec::new(),
        first_kex_packet_follows: false,
        reserved: 0,
    }
}

/// A server-side session configuration.
pub struct Server {
    /// The identification of this server.
    pub id: Id,
    /// Timeout for sending and receiving packets, in seconds.
    pub timeout: u64,
    /// The host keys, each with the algorithm it signs by.
    pub keys: Vec<(Key, HostKey)>,
    /// The algorithms enabled for this server session.
    pub algorithms: Algorithms,
    /// When the keys are exchanged anew.
    pub rekey: Limits,
}

/// The algorithms of the host keys `keys`, in order.
pub open spec fn key_algorithms(keys: Seq<(Key, HostKey)>) -> Seq<Key> {
    keys.map_values(|k: (Key, HostKey)| k.0)
}

impl Server {
    /// The identification of this server.
    pub fn id(&self) -> (r: &Id)
        ensures
            *r == self.id,
    {
        &self.id
    }

    /// Timeout for sending and receiving packets, in seconds.
    pub fn timeout(&self) -> (r: u64)
        ensures
            r == self.timeout,
    {
        self.timeout
    }

    /// The algorithms of the host keys, in order.
    pub fn key_algorithms(&self) -> (r: Vec<Key>)
        ensures
            r@ == key_algorithms(self.keys@),
    {
        let mut r: Vec<Key> = Vec::new();
        let mut i: usize = 0;
        while i < self.keys.len()
            invariant
                i <= self.keys@.len(),
                r@ == key_algorithms(self.keys@.take(i as int)),
            decreases self.keys@.len() - i,
        {
            r.push(self.keys[i].0);
            assert(key_algorithms(self.keys@.take(i + 1)) =~= key_algorithms(
                self.keys@.take(i as int),
            ).push(self.keys@[i as int].0));
            i += 1;
        }
        assert(self.keys@.take(i as int) =~= self.keys@);
        r
    }

    /// The proposal of this server: its algorithms and those of its host keys,
    /// with a cookie drawn at random.
    pub fn kexinit(&self) -> (r: KexInit)
        ensures
            r@.cookie.len() == COOKIE_SIZE,
            r@ == proposal(
                r@.cookie,
                self.algorithms.kexs@,
                key_algorithms(self.keys@),
                self.algorithms.ciphers@,
                self.algorithms.macs@,
                self.algorithms.compressions@,
            ),
    {
        propose(
            random_bytes(COOKIE_SIZE),
            &self.algorithms.kexs,
            &self.key_algorithms(),
            &self.algorithms.ciphers,
            &self.algorithms.macs,
            &self.algorithms.compressions,
        )
    }

    /// The host key that signs by the algorithm `key`: the first one of that
    /// algorithm.
    pub fn host_key(&self, key: Key) -> (r: Option<&HostKey>)
        ensures
            match r {
                Some(k) => exists|i: int|
                    0 <= i < self.keys@.len() && (#[trigger] self.keys@[i]).0 == key && *k
                        == self.keys@[i].1 && forall|j: int|
                        0 <= j < i ==> (#[trigger] self.keys@[j]).0 != key,
                None => forall|i: int| 0 <= i < self.keys@.len() ==> (#[trigger] self.keys@[i]).0 != key,
            },
    {
        let mut i: usize = 0;
        while i < self.keys.len()
            invariant
                i <= self.keys@.len(),
                forall|j: int| 0 <= j < i ==> (#[trigger] self.keys@[j]).0 != key,
            decreases self.keys@.len() - i,
        {
            if self.keys[i].0.same(&key) {
                return Some(&self.keys[i].1);
            }
            i += 1;
        }
        None
    }
}

} // verus!
