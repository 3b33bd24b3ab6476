//! Key exchange algorithms.

use vstd::prelude::*;
use vstd::string::*;

verus! {

/// A hash function.
#[derive(Debug, Clone, Copy, PartialEq, Eq, Structural)]
pub enum KexHash {
    /// SHA-1.
    Sha1,
    /// SHA-256.
    Sha256,
    /// SHA-384.
    Sha384,
    /// SHA-512.
    Sha512,
}

impl KexHash {
    /// The size in bytes of a digest.
    pub open spec fn spec_size(self) -> nat {
        match self {
            KexHash::Sha1 => 20,
            KexHash::Sha256 => 32,
            KexHash::Sha384 => 48,
            KexHash::Sha512 => 64,
        }
    }

    /// The size in bytes of a digest.
    pub fn size(&self) -> (r: usize)
        ensures
            r == self.spec_size(),
    {
        match self {
            KexHash::Sha1 => 20,
            KexHash::Sha256 => 32,
            KexHash::Sha384 => 48,
            KexHash::Sha512 => 64,
        }
    }
}

/// A key exchange algorithm.
#[derive(Debug, Clone, Copy, PartialEq, Eq, Structural)]
pub enum Kex {
    /// Curve25519 with SHA-256.
    Curve25519Sha256,
    /// Curve25519 with SHA-256, under its older name.
    Curve25519Sha256Libssh,
    /// Elliptic curve Diffie-Hellman over NIST P-256.
    EcdhSha2Nistp256,
    /// Elliptic curve Diffie-Hellman over NIST P-384.
    EcdhSha2Nistp384,
    /// Elliptic curve Diffie-Hellman over NIST P-521.
    EcdhSha2Nistp521,
    /// Diffie-Hellman over the 2048-bit group 14, with SHA-256.
    DiffieHellmanGroup14Sha256,
    /// Diffie-Hellman over the 2048-bit group 14, with SHA-1.
    DiffieHellmanGroup14Sha1,
    /// Diffie-Hellman over a group that the server proposes, with SHA-256.
    DiffieHellmanGroupExchangeSha256,
}

impl crate::algorithm::Algorithm for Kex {
    open spec fn name_bytes(self) -> Seq<u8> {
        match self {
            Kex::Curve25519Sha256 => "curve25519-sha256".spec_bytes(),
            Kex::Curve25519Sha256Libssh => "curve25519-sha256@libssh.org".spec_bytes(),
            Kex::EcdhSha2Nistp256 => "ecdh-sha2-nistp256".spec_bytes(),
            Kex::EcdhSha2Nistp384 => "ecdh-sha2-nistp384".spec_bytes(),
            Kex::EcdhSha2Nistp521 => "ecdh-sha2-nistp521".spec_bytes(),
            Kex::DiffieHellmanGroup14Sha256 => "diffie-hellman-group14-sha256".spec_bytes(),
            Kex::DiffieHellmanGroup14Sha1 => "diffie-hellman-group14-sha1".spec_bytes(),
            Kex::DiffieHellmanGroupExchangeSha256 => "diffie-hellman-group-exchange-sha256".spec_bytes(),
        }
    }

    open spec fn spec_name(self) -> Seq<char> {
        match self {
            Kex::Curve25519Sha256 => "curve25519-sha256"@,
            Kex::Curve25519Sha256Libssh => "curve25519-sha256@libssh.org"@,
            Kex::EcdhSha2Nistp256 => "ecdh-sha2-nistp256"@,
            Kex::EcdhSha2Nistp384 => "ecdh-sha2-nistp384"@,
            Kex::EcdhSha2Nistp521 => "ecdh-sha2-nistp521"@,
            Kex::DiffieHellmanGroup14Sha256 => "diffie-hellman-group14-sha256"@,
            Kex::DiffieHellmanGroup14Sha1 => "diffie-hellman-group14-sha1"@,
            Kex::DiffieHellmanGroupExchangeSha256 => "diffie-hellman-group-exchange-sha256"@,
        }
    }

    open spec fn known() -> Seq<Self> {
        seq![
            Kex::Curve25519Sha256,
            Kex::Curve25519Sha256Libssh,
            Kex::EcdhSha2Nistp256,
            Kex::EcdhSha2Nistp384,
            Kex::EcdhSha2Nistp521,
            Kex::DiffieHellmanGroup14Sha256,
            Kex::DiffieHellmanGroup14Sha1,
            Kex::DiffieHellmanGroupExchangeSha256,
        ]
    }

    fn name(&self) -> (r: &'static str) {
        match self {
            Kex::Curve25519Sha256 => "curve25519-sha256",
            Kex::Curve25519Sha256Libssh => "curve25519-sha256@libssh.org",
            Kex::EcdhSha2Nistp256 => "ecdh-sha2-nistp256",
            Kex::EcdhSha2Nistp384 => "ecdh-sha2-nistp384",
            Kex::EcdhSha2Nistp521 => "ecdh-sha2-nistp521",
            Kex::DiffieHellmanGroup14Sha256 => "diffie-hellman-group14-sha256",
            Kex::DiffieHellmanGroup14Sha1 => "diffie-hellman-group14-sha1",
            Kex::DiffieHellmanGroupExchangeSha256 => "diffie-hellman-group-exchange-sha256",
        }
    }

    fn all() -> (r: Vec<Self>) {
        vec![
            Kex::Curve25519Sha256,
            Kex::Curve25519Sha256Libssh,
            Kex::EcdhSha2Nistp256,
            Kex::EcdhSha2Nistp384,
            Kex::EcdhSha2Nistp521,
            Kex::DiffieHellmanGroup14Sha256,
            Kex::DiffieHellmanGroup14Sha1,
            Kex::DiffieHellmanGroupExchangeSha256,
        ]
    }

    proof fn lemma_names(a: Self, b: Self) {
        reveal_strlit("curve25519-sha256");
        is_ascii_spec_bytes("curve25519-sha256");
        reveal_strlit("curve25519-sha256@libssh.org");
        is_ascii_spec_bytes("curve25519-sha256@libssh.org");
        reveal_strlit("ecdh-sha2-nistp256");
        is_ascii_spec_bytes("ecdh-sha2-nistp256");
        reveal_strlit("ecdh-sha2-nistp384");
        is_ascii_spec_bytes("ecdh-sha2-nistp384");
        reveal_strlit("ecdh-sha2-nistp521");
        is_ascii_spec_bytes("ecdh-sha2-nistp521");
        reveal_strlit("diffie-hellman-group14-sha256");
        is_ascii_spec_bytes("diffie-hellman-group14-sha256");
        reveal_strlit("diffie-hellman-group14-sha1");
        is_ascii_spec_bytes("diffie-hellman-group14-sha1");
        reveal_strlit("diffie-hellman-group-exchange-sha256");
        is_ascii_spec_bytes("diffie-hellman-group-exchange-sha256");
        assert("ecdh-sha2-nistp256".spec_bytes()[15] != "ecdh-sha2-nistp384".spec_bytes()[15]);
        assert("ecdh-sha2-nistp256".spec_bytes()[15] != "ecdh-sha2-nistp521".spec_bytes()[15]);
        assert("ecdh-sha2-nistp384".spec_bytes()[15] != "ecdh-sha2-nistp521".spec_bytes()[15]);
        assert(Self::known()[0] == Kex::Curve25519Sha256);
        assert(Self::known()[1] == Kex::Curve25519Sha256Libssh);
        assert(Self::known()[2] == Kex::EcdhSha2Nistp256);
        assert(Self::known()[3] == Kex::EcdhSha2Nistp384);
        assert(Self::known()[4] == Kex::EcdhSha2Nistp521);
        assert(Self::known()[5] == Kex::DiffieHellmanGroup14Sha256);
        assert(Self::known()[6] == Kex::DiffieHellmanGroup14Sha1);
        assert(Self::known()[7] == Kex::DiffieHellmanGroupExchangeSha256);
    }
}

impl Kex {
    /// The hash function that the exchange runs with.
    pub open spec fn spec_hash(self) -> KexHash {
        match self {
            Kex::EcdhSha2Nistp384 => KexHash::Sha384,
            Kex::EcdhSha2Nistp521 => KexHash::Sha512,
            Kex::DiffieHellmanGroup14Sha1 => KexHash::Sha1,
            _ => KexHash::Sha256,
        }
    }

    /// The hash function that the exchange runs with.
    pub fn hash(&self) -> (r: KexHash)
        ensures
            r == self.spec_hash(),
    {
        match self {
            Kex::EcdhSha2Nistp384 => KexHash::Sha384,
            Kex::EcdhSha2Nistp521 => KexHash::Sha512,
            Kex::DiffieHellmanGroup14Sha1 => KexHash::Sha1,
            _ => KexHash::Sha256,
        }
    }
}

} // verus!
