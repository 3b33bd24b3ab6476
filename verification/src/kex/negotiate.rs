//! Algorithm negotiation: from the proposals of both sides to the algorithms
//! of the session.

use vstd::prelude::*;
use crate::algorithm::{agreed, select, Algorithm, Cipher, Compress, Kex, Key};
use crate::error::Error;
use crate::kexinit::{KexInit, KexInitView};
use crate::namelist::{bytes_eq, split, split_names, views};
use crate::transport::hmac::HmacAlg;

verus! {

/// The algorithms of one direction.
#[derive(Debug, Clone, Copy, PartialEq, Eq, Structural)]
pub struct Suite {
    /// The encryption algorithm.
    pub cipher: Cipher,
    /// The message authentication algorithm.
    pub hmac: HmacAlg,
    /// The compression algorithm.
    pub compress: Compress,
}

/// The algorithms of a session.
#[derive(Debug, Clone, Copy, PartialEq, Eq)]
pub struct Negotiated {
    /// The key exchange algorithm.
    pub kex: Kex,
    /// The host key algorithm.
    pub key: Key,
    /// The algorithms from client to server.
    pub client_to_server: Suite,
    /// The algorithms from server to client.
    pub server_to_client: Suite,
}

/// The algorithms of one direction that the name lists of both sides give:
/// for each kind the first name of the client's list that the server's list
/// holds too. Fails where the lists of a kind share no name, or share first a
/// name that this library does not know or, for compression, cannot run.
pub open spec fn suite(
    client_ciphers: Seq<u8>,
    server_ciphers: Seq<u8>,
    client_macs: Seq<u8>,
    server_macs: Seq<u8>,
    client_compressions: Seq<u8>,
    server_compressions: Seq<u8>,
) -> Result<Suite, Error> {
    match agreed::<Cipher>(client_ciphers, server_ciphers) {
        None => Err(Error::NoCommonCipher),
        Some(cipher) => match agreed::<HmacAlg>(client_macs, server_macs) {
            None => Err(Error::NoCommonMac),
            Some(hmac) => match agreed::<Compress>(client_compressions, server_compressions) {
                Some(compress) if compress.is_supported() => Ok(Suite { cipher, hmac, compress }),
                _ => Err(Error::NoCommonCompression),
            },
        },
    }
}

/// The algorithms of the session that the two proposals give: key exchange
/// first, then host key, then each direction on its own.
pub open spec fn negotiated(client: KexInitView, server: KexInitView) -> Result<Negotiated, Error> {
    match agreed::<Kex>(client.kex_algorithms, server.kex_algorithms) {
        Some(kex) => match agreed::<Key>(
            client.server_host_key_algorithms,
            server.server_host_key_algorithms,
        ) {
            None => Err(Error::NoCommonKey),
            Some(key) => match suite(
                client.encryption_algorithms_client_to_server,
                server.encryption_algorithms_client_to_server,
                client.mac_algorithms_client_to_server,
                server.mac_algorithms_client_to_server,
                client.compression_algorithms_client_to_server,
                server.compression_algorithms_client_to_server,
            ) {
                Err(e) => Err(e),
                Ok(client_to_server) => match suite(
                    client.encryption_algorithms_server_to_client,
                    server.encryption_algorithms_server_to_client,
                    client.mac_algorithms_server_to_client,
                    server.mac_algorithms_server_to_client,
                    client.compression_algorithms_server_to_client,
                    server.compression_algorithms_server_to_client,
                ) {
                    Err(e) => Err(e),
                    Ok(server_to_client) => Ok(
                        Negotiated { kex, key, client_to_server, server_to_client },
                    ),
                },
            },
        },
        None => Err(Error::NoCommonKex),
    }
}

/// The algorithms of one direction that the name lists of both sides give.
pub fn negotiate_suite(
    client_ciphers: &[u8],
    server_ciphers: &[u8],
    client_macs: &[u8],
    server_macs: &[u8],
    client_compressions: &[u8],
    server_compressions: &[u8],
) -> (r: Result<Suite, Error>)
    ensures
        r == suite(
            client_ciphers@,
            server_ciphers@,
            client_macs@,
            server_macs@,
            client_compressions@,
            server_compressions@,
        ),
{
    let cipher = match select::<Cipher>(client_ciphers, server_ciphers) {
        Some(c) => c,
        None => {
            return Err(Error::NoCommonCipher);
        },
    };
    let hmac = match select::<HmacAlg>(client_macs, server_macs) {
        Some(m) => m,
        None => {
            return Err(Error::NoCommonMac);
        },
    };
    match select::<Compress>(client_compressions, server_compressions) {
        Some(Compress::Null) => Ok(Suite { cipher, hmac, compress: Compress::Null }),
        _ => Err(Error::NoCommonCompression),
    }
}

/// The algorithms of the session that the two proposals give.
pub fn negotiate(client: &KexInit, server: &KexInit) -> (r: Result<Negotiated, Error>)
    ensures
        r == negotiated(client@, server@),
{
    let kex = match select::<Kex>(
        client.kex_algorithms.as_slice(),
        server.kex_algorithms.as_slice(),
    ) {
        Some(k) => k,
        None => {
            return Err(Error::NoCommonKex);
        },
    };
    let key = match select::<Key>(
        client.server_host_key_algorithms.as_slice(),
        server.server_host_key_algorithms.as_slice(),
    ) {
        Some(k) => k,
        None => {
            return Err(Error::NoCommonKey);
        },
    };
    let client_to_server = match negotiate_suite(
        client.encryption_algorithms_client_to_server.as_slice(),
        server.encryption_algorithms_client_to_server.as_slice(),
        client.mac_algorithms_client_to_server.as_slice(),
        server.mac_algorithms_client_to_server.as_slice(),
        client.compression_algorithms_client_to_server.as_slice(),
        server.compression_algorithms_client_to_server.as_slice(),
    ) {
        Ok(s) => s,
        Err(e) => {
            return Err(e);
        },
    };
    let server_to_client = match negotiate_suite(
        client.encryption_algorithms_server_to_client.as_slice(),
        server.encryption_algorithms_server_to_client.as_slice(),
        client.mac_algorithms_server_to_client.as_slice(),
        server.mac_algorithms_server_to_client.as_slice(),
        client.compression_algorithms_server_to_client.as_slice(),
        server.compression_algorithms_server_to_client.as_slice(),
    ) {
        Ok(s) => s,
        Err(e) => {
            return Err(e);
        },
    };
    Ok(Negotiated { kex, key, client_to_server, server_to_client })
}

/// Whether the packet that follows the proposal `peer` is to be thrown away:
/// the peer sent a guessed key exchange packet, and the key exchange algorithm
/// it guessed, the first of its list, is not the one that was negotiated.
pub open spec fn guess_is_wrong(peer: KexInitView, kex: Kex) -> bool {
    let names = split(peer.kex_algorithms);
    peer.first_kex_packet_follows && !(names.len() > 0 && names[0] == kex.name_bytes())
}

/// Whether the packet that follows the proposal `peer` is to be thrown away.
pub fn discard_guess(peer: &KexInit, kex: Kex) -> (r: bool)
    ensures
        r == guess_is_wrong(peer@, kex),
{
    if !peer.first_kex_packet_follows {
        return false;
    }
    let names = split_names(peer.kex_algorithms.as_slice());
    if names.len() == 0 {
        return true;
    }
    assert(views(names@)[0] == names@[0]@);
    !bytes_eq(names[0].as_slice(), kex.name().as_bytes())
}

} // verus!
