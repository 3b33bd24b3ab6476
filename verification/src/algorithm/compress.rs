//! Compression algorithms.

use vstd::prelude::*;
use vstd::string::*;

verus! {

/// A compression algorithm for packet payloads.
#[derive(Debug, Clone, Copy, PartialEq, Eq, Structural)]
pub enum Compress {
    /// Zlib compression.
    Zlib,
    /// Zlib compression (extension name).
    ZlibExt,
    /// No compression.
    Null,
}

impl Default for Compress {
    fn default() -> (r: Self)
        ensures
            r == Compress::Null,
    {
        Compress::Null
    }
}

impl crate::algorithm::Algorithm for Compress {
    open spec fn name_bytes(self) -> Seq<u8> {
        match self {
            Compress::Zlib => "zlib".spec_bytes(),
            Compress::ZlibExt => "zlib@openssh.com".spec_bytes(),
            Compress::Null => "none".spec_bytes(),
        }
    }

    open spec fn spec_name(self) -> Seq<char> {
        match self {
            Compress::Zlib => "zlib"@,
            Compress::ZlibExt => "zlib@openssh.com"@,
            Compress::Null => "none"@,
        }
    }

    open spec fn known() -> Seq<Self> {
        seq![Compress::Zlib, Compress::ZlibExt, Compress::Null]
    }

    fn name(&self) -> (r: &'static str) {
        match self {
            Compress::Zlib => "zlib",
            Compress::ZlibExt => "zlib@openssh.com",
            Compress::Null => "none",
        }
    }

    fn all() -> (r: Vec<Self>) {
        vec![Compress::Zlib, Compress::ZlibExt, Compress::Null]
    }

    proof fn lemma_names(a: Self, b: Self) {
        reveal_strlit("zlib");
        reveal_strlit("zlib@openssh.com");
        reveal_strlit("none");
        is_ascii_spec_bytes("zlib");
        is_ascii_spec_bytes("zlib@openssh.com");
        is_ascii_spec_bytes("none");
        assert(Compress::Zlib.name_bytes()[0] != Compress::Null.name_bytes()[0]);
        assert(Self::known()[0] == Compress::Zlib);
        assert(Self::known()[1] == Compress::ZlibExt);
        assert(Self::known()[2] == Compress::Null);
    }
}

impl Compress {
    /// Whether this library can run the algorithm.
    pub open spec fn is_supported(self) -> bool {
        self == Compress::Null
    }

    /// The payload as it comes out of decompression.
    pub fn decompress(&self, buf: Vec<u8>) -> (r: Vec<u8>)
        requires
            self.is_supported(),
        ensures
            r@ == buf@,
    {
        buf
    }

    /// The payload as it goes into a packet.
    pub fn compress(&self, buf: Vec<u8>) -> (r: Vec<u8>)
        requires
            self.is_supported(),
        ensures
            r@ == buf@,
    {
        buf
    }
}

} // verus!
