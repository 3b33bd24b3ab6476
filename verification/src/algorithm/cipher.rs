//! Encryption algorithms.

use vstd::prelude::*;
use vstd::string::*;

verus! {

/// An encryption algorithm for one direction of the transport.
#[derive(Debug, Clone, Copy, PartialEq, Eq, Structural)]
pub enum Cipher {
    /// AES-256 in counter mode.
    Aes256Ctr,
    /// AES-192 in counter mode.
    Aes192Ctr,
    /// AES-128 in counter mode.
    Aes128Ctr,
    /// AES-256 in cipher block chaining mode.
    Aes256Cbc,
    /// AES-192 in cipher block chaining mode.
    Aes192Cbc,
    /// AES-128 in cipher block chaining mode.
    Aes128Cbc,
    /// Triple DES in cipher block chaining mode.
    TDesCbc,
    /// No encryption.
    Null,
}

impl Default for Cipher {
    fn default() -> (r: Self)
        ensures
            r == Cipher::Null,
    {
        Cipher::Null
    }
}

impl crate::algorithm::Algorithm for Cipher {
    open spec fn name_bytes(self) -> Seq<u8> {
        match self {
            Cipher::Aes256Ctr => "aes256-ctr".spec_bytes(),
            Cipher::Aes192Ctr => "aes192-ctr".spec_bytes(),
            Cipher::Aes128Ctr => "aes128-ctr".spec_bytes(),
            Cipher::Aes256Cbc => "aes256-cbc".spec_bytes(),
            Cipher::Aes192Cbc => "aes192-cbc".spec_bytes(),
            Cipher::Aes128Cbc => "aes128-cbc".spec_bytes(),
            Cipher::TDesCbc => "3des-cbc".spec_bytes(),
            Cipher::Null => "none".spec_bytes(),
        }
    }

    open spec fn spec_name(self) -> Seq<char> {
        match self {
            Cipher::Aes256Ctr => "aes256-ctr"@,
            Cipher::Aes192Ctr => "aes192-ctr"@,
            Cipher::Aes128Ctr => "aes128-ctr"@,
            Cipher::Aes256Cbc => "aes256-cbc"@,
            Cipher::Aes192Cbc => "aes192-cbc"@,
            Cipher::Aes128Cbc => "aes128-cbc"@,
            Cipher::TDesCbc => "3des-cbc"@,
            Cipher::Null => "none"@,
        }
    }

    open spec fn known() -> Seq<Self> {
        seq![
            Cipher::Aes256Ctr,
            Cipher::Aes192Ctr,
            Cipher::Aes128Ctr,
            Cipher::Aes256Cbc,
            Cipher::Aes192Cbc,
            Cipher::Aes128Cbc,
            Cipher::TDesCbc,
            Cipher::Null,
        ]
    }

    fn name(&self) -> (r: &'static str) {
        match self {
            Cipher::Aes256Ctr => "aes256-ctr",
            Cipher::Aes192Ctr => "aes192-ctr",
            Cipher::Aes128Ctr => "aes128-ctr",
            Cipher::Aes256Cbc => "aes256-cbc",
            Cipher::Aes192Cbc => "aes192-cbc",
            Cipher::Aes128Cbc => "aes128-cbc",
            Cipher::TDesCbc => "3des-cbc",
            Cipher::Null => "none",
        }
    }

    fn all() -> (r: Vec<Self>) {
        vec![
            Cipher::Aes256Ctr,
            Cipher::Aes192Ctr,
            Cipher::Aes128Ctr,
            Cipher::Aes256Cbc,
            Cipher::Aes192Cbc,
            Cipher::Aes128Cbc,
            Cipher::TDesCbc,
            Cipher::Null,
        ]
    }

    proof fn lemma_names(a: Self, b: Self) {
        reveal_strlit("aes256-ctr");
        is_ascii_spec_bytes("aes256-ctr");
        reveal_strlit("aes192-ctr");
        is_ascii_spec_bytes("aes192-ctr");
        reveal_strlit("aes128-ctr");
        is_ascii_spec_bytes("aes128-ctr");
        reveal_strlit("aes256-cbc");
        is_ascii_spec_bytes("aes256-cbc");
        reveal_strlit("aes192-cbc");
        is_ascii_spec_bytes("aes192-cbc");
        reveal_strlit("aes128-cbc");
        is_ascii_spec_bytes("aes128-cbc");
        reveal_strlit("3des-cbc");
        is_ascii_spec_bytes("3des-cbc");
        reveal_strlit("none");
        is_ascii_spec_bytes("none");
        assert("aes256-ctr".spec_bytes()[3] != "aes192-ctr".spec_bytes()[3]);
        assert("aes256-ctr".spec_bytes()[3] != "aes128-ctr".spec_bytes()[3]);
        assert("aes256-ctr".spec_bytes()[8] != "aes256-cbc".spec_bytes()[8]);
        assert("aes256-ctr".spec_bytes()[3] != "aes192-cbc".spec_bytes()[3]);
        assert("aes256-ctr".spec_bytes()[3] != "aes128-cbc".spec_bytes()[3]);
        assert("aes192-ctr".spec_bytes()[4] != "aes128-ctr".spec_bytes()[4]);
        assert("aes192-ctr".spec_bytes()[3] != "aes256-cbc".spec_bytes()[3]);
        assert("aes192-ctr".spec_bytes()[8] != "aes192-cbc".spec_bytes()[8]);
        assert("aes192-ctr".spec_bytes()[4] != "aes128-cbc".spec_bytes()[4]);
        assert("aes128-ctr".spec_bytes()[3] != "aes256-cbc".spec_bytes()[3]);
        assert("aes128-ctr".spec_bytes()[4] != "aes192-cbc".spec_bytes()[4]);
        assert("aes128-ctr".spec_bytes()[8] != "aes128-cbc".spec_bytes()[8]);
        assert("aes256-cbc".spec_bytes()[3] != "aes192-cbc".spec_bytes()[3]);
        assert("aes256-cbc".spec_bytes()[3] != "aes128-cbc".spec_bytes()[3]);
        assert("aes192-cbc".spec_bytes()[4] != "aes128-cbc".spec_bytes()[4]);
        assert(Self::known()[0] == Cipher::Aes256Ctr);
        assert(Self::known()[1] == Cipher::Aes192Ctr);
        assert(Self::known()[2] == Cipher::Aes128Ctr);
        assert(Self::known()[3] == Cipher::Aes256Cbc);
        assert(Self::known()[4] == Cipher::Aes192Cbc);
        assert(Self::known()[5] == Cipher::Aes128Cbc);
        assert(Self::known()[6] == Cipher::TDesCbc);
        assert(Self::known()[7] == Cipher::Null);
    }
}

/// How a cipher chains its blocks.
#[derive(Debug, Clone, Copy, PartialEq, Eq, Structural)]
pub enum Mode {
    /// Counter mode: the initialisation vector is a big-endian counter.
    Counter,
    /// Cipher block chaining: each block is bound to the ciphertext before it.
    Chaining,
    /// No encryption.
    Clear,
}

impl Cipher {
    /// The size in bytes of a block of the cipher; 8 without encryption, the
    /// least that packets are aligned to.
    pub open spec fn spec_block_size(self) -> nat {
        match self {
            Cipher::TDesCbc | Cipher::Null => 8,
            _ => 16,
        }
    }

    /// The size in bytes of the cipher's key.
    pub open spec fn spec_key_size(self) -> nat {
        match self {
            Cipher::Aes256Ctr | Cipher::Aes256Cbc => 32,
            Cipher::Aes192Ctr | Cipher::Aes192Cbc | Cipher::TDesCbc => 24,
            Cipher::Aes128Ctr | Cipher::Aes128Cbc => 16,
            Cipher::Null => 0,
        }
    }

    /// The size in bytes of the cipher's initialisation vector.
    pub open spec fn spec_iv_size(self) -> nat {
        match self {
            Cipher::Null => 0,
            Cipher::TDesCbc => 8,
            _ => 16,
        }
    }

    /// How the cipher chains its blocks.
    pub open spec fn spec_mode(self) -> Mode {
        match self {
            Cipher::Aes256Ctr | Cipher::Aes192Ctr | Cipher::Aes128Ctr => Mode::Counter,
            Cipher::Aes256Cbc | Cipher::Aes192Cbc | Cipher::Aes128Cbc | Cipher::TDesCbc
                => Mode::Chaining,
            Cipher::Null => Mode::Clear,
        }
    }

    /// The size in bytes of a block of the cipher.
    pub fn block_size(&self) -> (r: usize)
        ensures
            r == self.spec_block_size(),
    {
        match self {
            Cipher::TDesCbc | Cipher::Null => 8,
            _ => 16,
        }
    }

    /// The size in bytes of the cipher's key.
    pub fn key_size(&self) -> (r: usize)
        ensures
            r == self.spec_key_size(),
    {
        match self {
            Cipher::Aes256Ctr | Cipher::Aes256Cbc => 32,
            Cipher::Aes192Ctr | Cipher::Aes192Cbc | Cipher::TDesCbc => 24,
            Cipher::Aes128Ctr | Cipher::Aes128Cbc => 16,
            Cipher::Null => 0,
        }
    }

    /// The size in bytes of the cipher's initialisation vector.
    pub fn iv_size(&self) -> (r: usize)
        ensures
            r == self.spec_iv_size(),
    {
        match self {
            Cipher::Null => 0,
            Cipher::TDesCbc => 8,
            _ => 16,
        }
    }

    /// How the cipher chains its blocks.
    pub fn mode(&self) -> (r: Mode)
        ensures
            r == self.spec_mode(),
    {
        match self {
            Cipher::Aes256Ctr | Cipher::Aes192Ctr | Cipher::Aes128Ctr => Mode::Counter,
            Cipher::Aes256Cbc | Cipher::Aes192Cbc | Cipher::Aes128Cbc | Cipher::TDesCbc
                => Mode::Chaining,
            Cipher::Null => Mode::Clear,
        }
    }
}

} // verus!
