//! The secured transport: message authentication, encryption and the binary
//! packet format, per direction.

use vstd::prelude::*;
use crate::algorithm::{Cipher, Compress};

pub mod codec;
pub mod crypt;
pub mod hmac;
pub mod packet;

pub use hmac::{HmacAlg, HmacPair};

verus! {

/// One direction of the transport as contracts see it.
pub struct Direction {
    /// The encryption algorithm.
    pub cipher: Cipher,
    /// The message authentication algorithm.
    pub hmac: HmacAlg,
    /// The compression algorithm.
    pub compress: Compress,
    /// The encryption key.
    pub key: Seq<u8>,
    /// The initialisation vector for the next packet.
    pub iv: Seq<u8>,
    /// The message authentication key.
    pub mac_key: Seq<u8>,
    /// The sequence number of the next packet.
    pub seq: u32,
}

impl Direction {
    /// Whether key and initialisation vector have the sizes that the cipher
    /// asks for.
    pub open spec fn wf(self) -> bool {
        crypt::keyed(self.cipher, self.key, self.iv)
    }

    /// The size of the blocks that packets are aligned to.
    pub open spec fn block(self) -> nat {
        self.cipher.spec_block_size()
    }

    /// The direction one packet later, which left the cipher at `iv`: the
    /// sequence number goes up by one and wraps at 2^32.
    pub open spec fn step(self, iv: Seq<u8>) -> Direction {
        Direction { iv, seq: if self.seq == u32::MAX { 0 } else { (self.seq + 1) as u32 }, ..self }
    }
}

/// One direction of the transport: its algorithms, its keys and its sequence
/// number.
#[derive(Debug, Clone, PartialEq, Eq)]
pub struct Transport {
    /// The encryption algorithm.
    pub cipher: Cipher,
    /// The message authentication algorithm.
    pub hmac: HmacAlg,
    /// The compression algorithm.
    pub compress: Compress,
    /// The encryption key.
    pub key: Vec<u8>,
    /// The initialisation vector for the next packet.
    pub iv: Vec<u8>,
    /// The message authentication key.
    pub mac_key: Vec<u8>,
    /// The sequence number of the next packet.
    pub seq: u32,
}

impl View for Transport {
    type V = Direction;

    open spec fn view(&self) -> Direction {
        Direction {
            cipher: self.cipher,
            hmac: self.hmac,
            compress: self.compress,
            key: self.key@,
            iv: self.iv@,
            mac_key: self.mac_key@,
            seq: self.seq,
        }
    }
}

impl Transport {
    /// The direction as it is before the first key exchange: no encryption,
    /// no authentication, no compression, sequence number 0.
    pub open spec fn clear() -> Direction {
        Direction {
            cipher: Cipher::Null,
            hmac: HmacAlg::Null,
            compress: Compress::Null,
            key: Seq::empty(),
            iv: Seq::empty(),
            mac_key: Seq::empty(),
            seq: 0,
        }
    }

    /// A direction before the first key exchange.
    pub fn new() -> (r: Transport)
        ensures
            r@ == Transport::clear(),
            r@.wf(),
    {
        Transport {
            cipher: Cipher::Null,
            hmac: HmacAlg::Null,
            compress: Compress::Null,
            key: Vec::new(),
            iv: Vec::new(),
            mac_key: Vec::new(),
            seq: 0,
        }
    }
}

/// Both directions of the transport.
#[derive(Debug, Clone, PartialEq, Eq)]
pub struct TransportPair {
    /// The direction that is received.
    pub rx: Transport,
    /// The direction that is sent.
    pub tx: Transport,
}

impl TransportPair {
    /// The pair before the first key exchange.
    pub fn new() -> (r: TransportPair)
        ensures
            r.rx@ == Transport::clear(),
            r.tx@ == Transport::clear(),
    {
        TransportPair { rx: Transport::new(), tx: Transport::new() }
    }
}

} // verus!
