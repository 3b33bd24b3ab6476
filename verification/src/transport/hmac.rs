//! Message authentication algorithms.

use vstd::prelude::*;
use vstd::string::*;

verus! {

/// The message authentication of both directions, with a sequence number.
#[derive(Debug, Clone, Copy, PartialEq, Eq)]
pub struct HmacPair {
    /// The algorithm for what is received.
    pub rx: HmacAlg,
    /// The algorithm for what is sent.
    pub tx: HmacAlg,
    /// The sequence number.
    pub seq: u32,
}

impl Default for HmacPair {
    fn default() -> (r: Self)
        ensures
            r == (HmacPair { rx: HmacAlg::Null, tx: HmacAlg::Null, seq: 0 }),
    {
        HmacPair { rx: HmacAlg::Null, tx: HmacAlg::Null, seq: 0 }
    }
}

/// A message authentication algorithm for one direction of the transport.
#[derive(Debug, Clone, Copy, PartialEq, Eq, Structural)]
pub enum HmacAlg {
    /// HMAC with SHA-512, over the encrypted packet.
    HmacSha512ETM,
    /// HMAC with SHA-256, over the encrypted packet.
    HmacSha256ETM,
    /// HMAC with SHA-512.
    HmacSha512,
    /// HMAC with SHA-256.
    HmacSha256,
    /// HMAC with SHA-1, over the encrypted packet.
    HmacSha1ETM,
    /// HMAC with SHA-1.
    HmacSha1,
    /// HMAC with MD5, over the encrypted packet.
    HmacMd5ETM,
    /// HMAC with MD5.
    HmacMd5,
    /// No HMAC algorithm.
    Null,
}

impl Default for HmacAlg {
    fn default() -> (r: Self)
        ensures
            r == HmacAlg::Null,
    {
        HmacAlg::Null
    }
}

impl crate::algorithm::Algorithm for HmacAlg {
    open spec fn name_bytes(self) -> Seq<u8> {
        match self {
            HmacAlg::HmacSha512ETM => "hmac-sha2-512-etm@openssh.com".spec_bytes(),
            HmacAlg::HmacSha256ETM => "hmac-sha2-256-etm@openssh.com".spec_bytes(),
            HmacAlg::HmacSha512 => "hmac-sha2-512".spec_bytes(),
            HmacAlg::HmacSha256 => "hmac-sha2-256".spec_bytes(),
            HmacAlg::HmacSha1ETM => "hmac-sha1-etm@openssh.com".spec_bytes(),
            HmacAlg::HmacSha1 => "hmac-sha1".spec_bytes(),
            HmacAlg::HmacMd5ETM => "hmac-md5-etm@openssh.com".spec_bytes(),
            HmacAlg::HmacMd5 => "hmac-md5".spec_bytes(),
            HmacAlg::Null => "none".spec_bytes(),
        }
    }

    open spec fn spec_name(self) -> Seq<char> {
        match self {
            HmacAlg::HmacSha512ETM => "hmac-sha2-512-etm@openssh.com"@,
            HmacAlg::HmacSha256ETM => "hmac-sha2-256-etm@openssh.com"@,
            HmacAlg::HmacSha512 => "hmac-sha2-512"@,
            HmacAlg::HmacSha256 => "hmac-sha2-256"@,
            HmacAlg::HmacSha1ETM => "hmac-sha1-etm@openssh.com"@,
            HmacAlg::HmacSha1 => "hmac-sha1"@,
            HmacAlg::HmacMd5ETM => "hmac-md5-etm@openssh.com"@,
            HmacAlg::HmacMd5 => "hmac-md5"@,
            HmacAlg::Null => "none"@,
        }
    }

    open spec fn known() -> Seq<Self> {
        seq![
            HmacAlg::HmacSha512ETM,
            HmacAlg::HmacSha256ETM,
            HmacAlg::HmacSha512,
            HmacAlg::HmacSha256,
            HmacAlg::HmacSha1ETM,
            HmacAlg::HmacSha1,
            HmacAlg::HmacMd5ETM,
            HmacAlg::HmacMd5,
            HmacAlg::Null,
        ]
    }

    fn name(&self) -> (r: &'static str) {
        match self {
            HmacAlg::HmacSha512ETM => "hmac-sha2-512-etm@openssh.com",
            HmacAlg::HmacSha256ETM => "hmac-sha2-256-etm@openssh.com",
            HmacAlg::HmacSha512 => "hmac-sha2-512",
            HmacAlg::HmacSha256 => "hmac-sha2-256",
            HmacAlg::HmacSha1ETM => "hmac-sha1-etm@openssh.com",
            HmacAlg::HmacSha1 => "hmac-sha1",
            HmacAlg::HmacMd5ETM => "hmac-md5-etm@openssh.com",
            HmacAlg::HmacMd5 => "hmac-md5",
            HmacAlg::Null => "none",
        }
    }

    fn all() -> (r: Vec<Self>) {
        vec![
            HmacAlg::HmacSha512ETM,
            HmacAlg::HmacSha256ETM,
            HmacAlg::HmacSha512,
            HmacAlg::HmacSha256,
            HmacAlg::HmacSha1ETM,
            HmacAlg::HmacSha1,
            HmacAlg::HmacMd5ETM,
            HmacAlg::HmacMd5,
            HmacAlg::Null,
        ]
    }

    proof fn lemma_names(a: Self, b: Self) {
        reveal_strlit("hmac-sha2-512-etm@openssh.com");
        is_ascii_spec_bytes("hmac-sha2-512-etm@openssh.com");
        reveal_strlit("hmac-sha2-256-etm@openssh.com");
        is_ascii_spec_bytes("hmac-sha2-256-etm@openssh.com");
        reveal_strlit("hmac-sha2-512");
        is_ascii_spec_bytes("hmac-sha2-512");
        reveal_strlit("hmac-sha2-256");
        is_ascii_spec_bytes("hmac-sha2-256");
        reveal_strlit("hmac-sha1-etm@openssh.com");
        is_ascii_spec_bytes("hmac-sha1-etm@openssh.com");
        reveal_strlit("hmac-sha1");
        is_ascii_spec_bytes("hmac-sha1");
        reveal_strlit("hmac-md5-etm@openssh.com");
        is_ascii_spec_bytes("hmac-md5-etm@openssh.com");
        reveal_strlit("hmac-md5");
        is_ascii_spec_bytes("hmac-md5");
        reveal_strlit("none");
        is_ascii_spec_bytes("none");
        assert("hmac-sha2-512-etm@openssh.com".spec_bytes()[10] != "hmac-sha2-256-etm@openssh.com".spec_bytes()[10]);
        assert("hmac-sha2-512".spec_bytes()[10] != "hmac-sha2-256".spec_bytes()[10]);
        assert(Self::known()[0] == HmacAlg::HmacSha512ETM);
        assert(Self::known()[1] == HmacAlg::HmacSha256ETM);
        assert(Self::known()[2] == HmacAlg::HmacSha512);
        assert(Self::known()[3] == HmacAlg::HmacSha256);
        assert(Self::known()[4] == HmacAlg::HmacSha1ETM);
        assert(Self::known()[5] == HmacAlg::HmacSha1);
        assert(Self::known()[6] == HmacAlg::HmacMd5ETM);
        assert(Self::known()[7] == HmacAlg::HmacMd5);
        assert(Self::known()[8] == HmacAlg::Null);
    }
}

impl HmacAlg {
    /// The size in bytes of the authentication tag, which is also the size of
    /// the key.
    pub open spec fn spec_size(self) -> nat {
        match self {
            HmacAlg::HmacSha512ETM | HmacAlg::HmacSha512 => 64,
            HmacAlg::HmacSha256ETM | HmacAlg::HmacSha256 => 32,
            HmacAlg::HmacSha1ETM | HmacAlg::HmacSha1 => 20,
            HmacAlg::HmacMd5ETM | HmacAlg::HmacMd5 => 16,
            HmacAlg::Null => 0,
        }
    }

    /// Whether the tag covers the encrypted packet rather than the clear one.
    pub open spec fn spec_etm(self) -> bool {
        match self {
            HmacAlg::HmacSha512ETM | HmacAlg::HmacSha256ETM | HmacAlg::HmacSha1ETM
            | HmacAlg::HmacMd5ETM => true,
            _ => false,
        }
    }

    /// The size in bytes of the authentication tag, which is also the size of
    /// the key.
    pub fn size(&self) -> (r: usize)
        ensures
            r == self.spec_size(),
    {
        match self {
            HmacAlg::HmacSha512ETM | HmacAlg::HmacSha512 => 64,
            HmacAlg::HmacSha256ETM | HmacAlg::HmacSha256 => 32,
            HmacAlg::HmacSha1ETM | HmacAlg::HmacSha1 => 20,
            HmacAlg::HmacMd5ETM | HmacAlg::HmacMd5 => 16,
            HmacAlg::Null => 0,
        }
    }

    /// Whether the tag covers the encrypted packet rather than the clear one.
    pub fn etm(&self) -> (r: bool)
        ensures
            r == self.spec_etm(),
    {
        match self {
            HmacAlg::HmacSha512ETM | HmacAlg::HmacSha256ETM | HmacAlg::HmacSha1ETM
            | HmacAlg::HmacMd5ETM => true,
            _ => false,
        }
    }
}

} // verus!
