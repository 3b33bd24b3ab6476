//! Host key algorithms.

use vstd::prelude::*;
use vstd::string::*;

verus! {

/// An elliptic curve for ECDSA host keys.
#[derive(Debug, Clone, Copy, PartialEq, Eq)]
pub enum EcdsaCurve {
    /// NIST P-256.
    NistP256,
    /// NIST P-384.
    NistP384,
    /// NIST P-521.
    NistP521,
}

/// A hash function for RSA signatures.
#[derive(Debug, Clone, Copy, PartialEq, Eq)]
pub enum HashAlg {
    /// SHA-256.
    Sha256,
    /// SHA-512.
    Sha512,
}

/// A host key algorithm, by which the server signs the exchange.
#[derive(Debug, Clone, Copy, PartialEq, Eq)]
pub enum Key {
    /// Ed25519.
    Ed25519,
    /// ECDSA over the given curve.
    Ecdsa {
        /// The curve of the key.
        curve: EcdsaCurve,
    },
    /// RSA, signing with the given hash, or with SHA-1 where none is given.
    Rsa {
        /// The hash of the signature.
        hash: Option<HashAlg>,
    },
    /// DSA.
    Dsa,
}

impl crate::algorithm::Algorithm for Key {
    open spec fn name_bytes(self) -> Seq<u8> {
        match self {
            Key::Ed25519 => "ssh-ed25519".spec_bytes(),
            Key::Ecdsa { curve: EcdsaCurve::NistP256 } => "ecdsa-sha2-nistp256".spec_bytes(),
            Key::Ecdsa { curve: EcdsaCurve::NistP384 } => "ecdsa-sha2-nistp384".spec_bytes(),
            Key::Ecdsa { curve: EcdsaCurve::NistP521 } => "ecdsa-sha2-nistp521".spec_bytes(),
            Key::Rsa { hash: Some(HashAlg::Sha512) } => "rsa-sha2-512".spec_bytes(),
            Key::Rsa { hash: Some(HashAlg::Sha256) } => "rsa-sha2-256".spec_bytes(),
            Key::Rsa { hash: None } => "ssh-rsa".spec_bytes(),
            Key::Dsa => "ssh-dss".spec_bytes(),
        }
    }

    open spec fn spec_name(self) -> Seq<char> {
        match self {
            Key::Ed25519 => "ssh-ed25519"@,
            Key::Ecdsa { curve: EcdsaCurve::NistP256 } => "ecdsa-sha2-nistp256"@,
            Key::Ecdsa { curve: EcdsaCurve::NistP384 } => "ecdsa-sha2-nistp384"@,
            Key::Ecdsa { curve: EcdsaCurve::NistP521 } => "ecdsa-sha2-nistp521"@,
            Key::Rsa { hash: Some(HashAlg::Sha512) } => "rsa-sha2-512"@,
            Key::Rsa { hash: Some(HashAlg::Sha256) } => "rsa-sha2-256"@,
            Key::Rsa { hash: None } => "ssh-rsa"@,
            Key::Dsa => "ssh-dss"@,
        }
    }

    open spec fn known() -> Seq<Self> {
        seq![
            Key::Ed25519,
            Key::Ecdsa { curve: EcdsaCurve::NistP256 },
            Key::Ecdsa { curve: EcdsaCurve::NistP384 },
            Key::Ecdsa { curve: EcdsaCurve::NistP521 },
            Key::Rsa { hash: Some(HashAlg::Sha512) },
            Key::Rsa { hash: Some(HashAlg::Sha256) },
            Key::Rsa { hash: None },
            Key::Dsa,
        ]
    }

    fn name(&self) -> (r: &'static str) {
        match self {
            Key::Ed25519 => "ssh-ed25519",
            Key::Ecdsa { curve: EcdsaCurve::NistP256 } => "ecdsa-sha2-nistp256",
            Key::Ecdsa { curve: EcdsaCurve::NistP384 } => "ecdsa-sha2-nistp384",
            Key::Ecdsa { curve: EcdsaCurve::NistP521 } => "ecdsa-sha2-nistp521",
            Key::Rsa { hash: Some(HashAlg::Sha512) } => "rsa-sha2-512",
            Key::Rsa { hash: Some(HashAlg::Sha256) } => "rsa-sha2-256",
            Key::Rsa { hash: None } => "ssh-rsa",
            Key::Dsa => "ssh-dss",
        }
    }

    fn all() -> (r: Vec<Self>) {
        vec![
            Key::Ed25519,
            Key::Ecdsa { curve: EcdsaCurve::NistP256 },
            Key::Ecdsa { curve: EcdsaCurve::NistP384 },
            Key::Ecdsa { curve: EcdsaCurve::NistP521 },
            Key::Rsa { hash: Some(HashAlg::Sha512) },
            Key::Rsa { hash: Some(HashAlg::Sha256) },
            Key::Rsa { hash: None },
            Key::Dsa,
        ]
    }

    proof fn lemma_names(a: Self, b: Self) {
        reveal_strlit("ssh-ed25519");
        is_ascii_spec_bytes("ssh-ed25519");
        reveal_strlit("ecdsa-sha2-nistp256");
        is_ascii_spec_bytes("ecdsa-sha2-nistp256");
        reveal_strlit("ecdsa-sha2-nistp384");
        is_ascii_spec_bytes("ecdsa-sha2-nistp384");
        reveal_strlit("ecdsa-sha2-nistp521");
        is_ascii_spec_bytes("ecdsa-sha2-nistp521");
        reveal_strlit("rsa-sha2-512");
        is_ascii_spec_bytes("rsa-sha2-512");
        reveal_strlit("rsa-sha2-256");
        is_ascii_spec_bytes("rsa-sha2-256");
        reveal_strlit("ssh-rsa");
        is_ascii_spec_bytes("ssh-rsa");
        reveal_strlit("ssh-dss");
        is_ascii_spec_bytes("ssh-dss");
        assert("ecdsa-sha2-nistp256".spec_bytes()[16] != "ecdsa-sha2-nistp384".spec_bytes()[16]);
        assert("ecdsa-sha2-nistp256".spec_bytes()[16] != "ecdsa-sha2-nistp521".spec_bytes()[16]);
        assert("ecdsa-sha2-nistp384".spec_bytes()[16] != "ecdsa-sha2-nistp521".spec_bytes()[16]);
        assert("rsa-sha2-512".spec_bytes()[9] != "rsa-sha2-256".spec_bytes()[9]);
        assert("ssh-rsa".spec_bytes()[4] != "ssh-dss".spec_bytes()[4]);
        assert(Self::known()[0] == Key::Ed25519);
        assert(Self::known()[1] == Key::Ecdsa { curve: EcdsaCurve::NistP256 });
        assert(Self::known()[2] == Key::Ecdsa { curve: EcdsaCurve::NistP384 });
        assert(Self::known()[3] == Key::Ecdsa { curve: EcdsaCurve::NistP521 });
        assert(Self::known()[4] == Key::Rsa { hash: Some(HashAlg::Sha512) });
        assert(Self::known()[5] == Key::Rsa { hash: Some(HashAlg::Sha256) });
        assert(Self::known()[6] == Key::Rsa { hash: None });
        assert(Self::known()[7] == Key::Dsa);
    }
}

impl Key {
    /// Whether this is the algorithm `other`.
    pub fn same(&self, other: &Key) -> (r: bool)
        ensures
            r == (*self == *other),
    {
        match (self, other) {
            (Key::Ed25519, Key::Ed25519) => true,
            (Key::Dsa, Key::Dsa) => true,
            (Key::Ecdsa { curve: a }, Key::Ecdsa { curve: b }) => match (a, b) {
                (EcdsaCurve::NistP256, EcdsaCurve::NistP256) => true,
                (EcdsaCurve::NistP384, EcdsaCurve::NistP384) => true,
                (EcdsaCurve::NistP521, EcdsaCurve::NistP521) => true,
                _ => false,
            },
            (Key::Rsa { hash: a }, Key::Rsa { hash: b }) => match (a, b) {
                (None, None) => true,
                (Some(HashAlg::Sha256), Some(HashAlg::Sha256)) => true,
                (Some(HashAlg::Sha512), Some(HashAlg::Sha512)) => true,
                _ => false,
            },
            _ => false,
        }
    }
}

} // verus!
