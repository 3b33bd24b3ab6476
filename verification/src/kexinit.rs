//! The algorithm proposal that each side sends at the start of a key
//! exchange.

use vstd::prelude::*;
use crate::wire::{
    bool_byte, lemma_take_bool, lemma_take_bytes, lemma_take_string, lemma_take_u32, put_bool,
    put_bytes, put_string, put_u32, string_bytes, take_bool, take_bytes, take_string, take_u32,
    u32_be, Reader,
};

verus! {

/// The size of the cookie of an algorithm proposal.
pub const COOKIE_SIZE: usize = 16;

/// An algorithm proposal.
#[derive(Debug, Clone, PartialEq, Eq)]
pub struct KexInit {
    /// Sixteen random bytes.
    pub cookie: Vec<u8>,
    /// The key exchange algorithms, as a name list.
    pub kex_algorithms: Vec<u8>,
    /// The host key algorithms, as a name list.
    pub server_host_key_algorithms: Vec<u8>,
    /// The ciphers from client to server, as a name list.
    pub encryption_algorithms_client_to_server: Vec<u8>,
    /// The ciphers from server to client, as a name list.
    pub encryption_algorithms_server_to_client: Vec<u8>,
    /// The message authentication algorithms from client to server, as a name list.
    pub mac_algorithms_client_to_server: Vec<u8>,
    /// The message authentication algorithms from server to client, as a name list.
    pub mac_algorithms_server_to_client: Vec<u8>,
    /// The compression algorithms from client to server, as a name list.
    pub compression_algorithms_client_to_server: Vec<u8>,
    /// The compression algorithms from server to client, as a name list.
    pub compression_algorithms_server_to_client: Vec<u8>,
    /// The languages from client to server, as a name list.
    pub languages_client_to_server: Vec<u8>,
    /// The languages from server to client, as a name list.
    pub languages_server_to_client: Vec<u8>,
    /// Whether a guessed key exchange packet follows.
    pub first_kex_packet_follows: bool,
    /// Reserved, zero.
    pub reserved: u32,
}

/// An algorithm proposal as contracts see it.
pub struct KexInitView {
    /// Sixteen random bytes.
    pub cookie: Seq<u8>,
    /// The key exchange algorithms, as a name list.
    pub kex_algorithms: Seq<u8>,
    /// The host key algorithms, as a name list.
    pub server_host_key_algorithms: Seq<u8>,
    /// The ciphers from client to server, as a name list.
    pub encryption_algorithms_client_to_server: Seq<u8>,
    /// The ciphers from server to client, as a name list.
    pub encryption_algorithms_server_to_client: Seq<u8>,
    /// The message authentication algorithms from client to server, as a name list.
    pub mac_algorithms_client_to_server: Seq<u8>,
    /// The message authentication algorithms from server to client, as a name list.
    pub mac_algorithms_server_to_client: Seq<u8>,
    /// The compression algorithms from client to server, as a name list.
    pub compression_algorithms_client_to_server: Seq<u8>,
    /// The compression algorithms from server to client, as a name list.
    pub compression_algorithms_server_to_client: Seq<u8>,
    /// The languages from client to server, as a name list.
    pub languages_client_to_server: Seq<u8>,
    /// The languages from server to client, as a name list.
    pub languages_server_to_client: Seq<u8>,
    /// Whether a guessed key exchange packet follows.
    pub first_kex_packet_follows: bool,
    /// Reserved, zero.
    pub reserved: u32,
}

impl View for KexInit {
    type V = KexInitView;

    open spec fn view(&self) -> KexInitView {
        KexInitView {
            cookie: self.cookie@,
            kex_algorithms: self.kex_algorithms@,
            server_host_key_algorithms: self.server_host_key_algorithms@,
            encryption_algorithms_client_to_server: self.encryption_algorithms_client_to_server@,
            encryption_algorithms_server_to_client: self.encryption_algorithms_server_to_client@,
            mac_algorithms_client_to_server: self.mac_algorithms_client_to_server@,
            mac_algorithms_server_to_client: self.mac_algorithms_server_to_client@,
            compression_algorithms_client_to_server: self.compression_algorithms_client_to_server@,
            compression_algorithms_server_to_client: self.compression_algorithms_server_to_client@,
            languages_client_to_server: self.languages_client_to_server@,
            languages_server_to_client: self.languages_server_to_client@,
            first_kex_packet_follows: self.first_kex_packet_follows,
            reserved: self.reserved,
        }
    }
}

impl KexInitView {
    /// Whether the proposal can be encoded: the cookie has sixteen bytes and
    /// each name list is short enough for its length prefix.
    pub open spec fn wf(self) -> bool {
        &&& self.cookie.len() == COOKIE_SIZE
        &&& self.kex_algorithms.len() <= u32::MAX
        &&& self.server_host_key_algorithms.len() <= u32::MAX
        &&& self.encryption_algorithms_client_to_server.len() <= u32::MAX
        &&& self.encryption_algorithms_server_to_client.len() <= u32::MAX
        &&& self.mac_algorithms_client_to_server.len() <= u32::MAX
        &&& self.mac_algorithms_server_to_client.len() <= u32::MAX
        &&& self.compression_algorithms_client_to_server.len() <= u32::MAX
        &&& self.compression_algorithms_server_to_client.len() <= u32::MAX
        &&& self.languages_client_to_server.len() <= u32::MAX
        &&& self.languages_server_to_client.len() <= u32::MAX
    }

    /// The second half of the fields, from the message authentication
    /// algorithms from server to client on.
    pub open spec fn encoded_back(self) -> Seq<u8> {
        string_bytes(self.mac_algorithms_server_to_client) + (string_bytes(self.compression_algorithms_client_to_server) + (string_bytes(self.compression_algorithms_server_to_client) + (string_bytes(self.languages_client_to_server) + (string_bytes(self.languages_server_to_client) + (seq![bool_byte(self.first_kex_packet_follows)] + (u32_be(self.reserved)))))))
    }

    /// The fields in order.
    pub open spec fn encoded(self) -> Seq<u8> {
        self.cookie + (string_bytes(self.kex_algorithms) + (string_bytes(self.server_host_key_algorithms) + (string_bytes(self.encryption_algorithms_client_to_server) + (string_bytes(self.encryption_algorithms_server_to_client) + (string_bytes(self.mac_algorithms_client_to_server) + self.encoded_back())))))
    }
}

/// The second half of a proposal whose first half is in `front`, read from
/// `b`, with what is left of `b`.
pub open spec fn take_kex_init_back(front: KexInitView, b: Seq<u8>) -> Option<(KexInitView, Seq<u8>)> {
    match take_string(b) {
        None => None,
        Some((mac_algorithms_server_to_client, b)) => {
            match take_string(b) {
                None => None,
                Some((compression_algorithms_client_to_server, b)) => {
                    match take_string(b) {
                        None => None,
                        Some((compression_algorithms_server_to_client, b)) => {
                            match take_string(b) {
                                None => None,
                                Some((languages_client_to_server, b)) => {
                                    match take_string(b) {
                                        None => None,
                                        Some((languages_server_to_client, b)) => {
                                            match take_bool(b) {
                                                None => None,
                                                Some((first_kex_packet_follows, b)) => {
                                                    match take_u32(b) {
                                                        None => None,
                                                        Some((reserved, b)) => {
                                                            Some(
                                                                (
                                                                    KexInitView {
                                                                        mac_algorithms_server_to_client,
                                                                        compression_algorithms_client_to_server,
                                                                        compression_algorithms_server_to_client,
                                                                        languages_client_to_server,
                                                                        languages_server_to_client,
                                                                        first_kex_packet_follows,
                                                                        reserved,
                                                                        ..front
                                                                    },
                                                                    b,
                                                                ),
                                                            )
                                                        },
                                                    }
                                                },
                                            }
                                        },
                                    }
                                },
                            }
                        },
                    }
                },
            }
        },
    }
}

/// The proposal at the start of `b`, with what is left of `b`; `None` where
/// `b` ends before the proposal does.
pub open spec fn take_kex_init(b: Seq<u8>) -> Option<(KexInitView, Seq<u8>)> {
    match take_bytes(b, COOKIE_SIZE as nat) {
        None => None,
        Some((cookie, b)) => {
            match take_string(b) {
                None => None,
                Some((kex_algorithms, b)) => {
                    match take_string(b) {
                        None => None,
                        Some((server_host_key_algorithms, b)) => {
                            match take_string(b) {
                                None => None,
                                Some((encryption_algorithms_client_to_server, b)) => {
                                    match take_string(b) {
                                        None => None,
                                        Some((encryption_algorithms_server_to_client, b)) => {
                                            match take_string(b) {
                                                None => None,
                                                Some((mac_algorithms_client_to_server, b)) => {
                                                    take_kex_init_back(
                                                        KexInitView {
                                                            cookie,
                                                            kex_algorithms,
                                                            server_host_key_algorithms,
                                                            encryption_algorithms_client_to_server,
                                                            encryption_algorithms_server_to_client,
                                                            mac_algorithms_client_to_server,
                                                            mac_algorithms_server_to_client: Seq::empty(),
                                                            compression_algorithms_client_to_server: Seq::empty(),
                                                            compression_algorithms_server_to_client: Seq::empty(),
                                                            languages_client_to_server: Seq::empty(),
                                                            languages_server_to_client: Seq::empty(),
                                                            first_kex_packet_follows: false,
                                                            reserved: 0,
                                                        },
                                                        b,
                                                    )
                                                },
                                            }
                                        },
                                    }
                                },
                            }
                        },
                    }
                },
            }
        },
    }
}

/// Two proposals that differ in the bytes of their cookies alone are both
/// well formed or both not, and are equally long when written.
pub proof fn lemma_cookie_apart(a: KexInitView, b: KexInitView)
    requires
        a.cookie.len() == b.cookie.len(),
        a == (KexInitView { cookie: a.cookie, ..b }),
    ensures
        a.wf() == b.wf(),
        a.encoded().len() == b.encoded().len(),
{
}

proof fn lemma_take_kex_init_back(front: KexInitView, v: KexInitView, rest: Seq<u8>)
    requires
        v.wf(),
    ensures
        take_kex_init_back(front, v.encoded_back() + rest) == Some(
            (
                KexInitView {
                    mac_algorithms_server_to_client: v.mac_algorithms_server_to_client,
                    compression_algorithms_client_to_server: v.compression_algorithms_client_to_server,
                    compression_algorithms_server_to_client: v.compression_algorithms_server_to_client,
                    languages_client_to_server: v.languages_client_to_server,
                    languages_server_to_client: v.languages_server_to_client,
                    first_kex_packet_follows: v.first_kex_packet_follows,
                    reserved: v.reserved,
                    ..front
                },
                rest,
            ),
        ),
{
    assert(v.encoded_back() + rest =~= string_bytes(v.mac_algorithms_server_to_client) + (string_bytes(v.compression_algorithms_client_to_server) + (string_bytes(v.compression_algorithms_server_to_client) + (string_bytes(v.languages_client_to_server) + (string_bytes(v.languages_server_to_client) + (seq![bool_byte(v.first_kex_packet_follows)] + (u32_be(v.reserved) + (rest))))))));
    lemma_take_string(v.mac_algorithms_server_to_client, string_bytes(v.compression_algorithms_client_to_server) + (string_bytes(v.compression_algorithms_server_to_client) + (string_bytes(v.languages_client_to_server) + (string_bytes(v.languages_server_to_client) + (seq![bool_byte(v.first_kex_packet_follows)] + (u32_be(v.reserved) + (rest)))))));
    lemma_take_string(v.compression_algorithms_client_to_server, string_bytes(v.compression_algorithms_server_to_client) + (string_bytes(v.languages_client_to_server) + (string_bytes(v.languages_server_to_client) + (seq![bool_byte(v.first_kex_packet_follows)] + (u32_be(v.reserved) + (rest))))));
    lemma_take_string(v.compression_algorithms_server_to_client, string_bytes(v.languages_client_to_server) + (string_bytes(v.languages_server_to_client) + (seq![bool_byte(v.first_kex_packet_follows)] + (u32_be(v.reserved) + (rest)))));
    lemma_take_string(v.languages_client_to_server, string_bytes(v.languages_server_to_client) + (seq![bool_byte(v.first_kex_packet_follows)] + (u32_be(v.reserved) + (rest))));
    lemma_take_string(v.languages_server_to_client, seq![bool_byte(v.first_kex_packet_follows)] + (u32_be(v.reserved) + (rest)));
    lemma_take_bool(v.first_kex_packet_follows, u32_be(v.reserved) + (rest));
    lemma_take_u32(v.reserved, rest);
}

/// A proposal in front of anything reads back as itself.
pub proof fn lemma_take_kex_init(v: KexInitView, rest: Seq<u8>)
    requires
        v.wf(),
    ensures
        take_kex_init(v.encoded() + rest) == Some((v, rest)),
{
    let back = v.encoded_back() + rest;
    assert(v.encoded() + rest =~= v.cookie + (string_bytes(v.kex_algorithms) + (string_bytes(v.server_host_key_algorithms) + (string_bytes(v.encryption_algorithms_client_to_server) + (string_bytes(v.encryption_algorithms_server_to_client) + (string_bytes(v.mac_algorithms_client_to_server) + (back)))))));
    lemma_take_bytes(v.cookie, string_bytes(v.kex_algorithms) + (string_bytes(v.server_host_key_algorithms) + (string_bytes(v.encryption_algorithms_client_to_server) + (string_bytes(v.encryption_algorithms_server_to_client) + (string_bytes(v.mac_algorithms_client_to_server) + (back))))));
    lemma_take_string(v.kex_algorithms, string_bytes(v.server_host_key_algorithms) + (string_bytes(v.encryption_algorithms_client_to_server) + (string_bytes(v.encryption_algorithms_server_to_client) + (string_bytes(v.mac_algorithms_client_to_server) + (back)))));
    lemma_take_string(v.server_host_key_algorithms, string_bytes(v.encryption_algorithms_client_to_server) + (string_bytes(v.encryption_algorithms_server_to_client) + (string_bytes(v.mac_algorithms_client_to_server) + (back))));
    lemma_take_string(v.encryption_algorithms_client_to_server, string_bytes(v.encryption_algorithms_server_to_client) + (string_bytes(v.mac_algorithms_client_to_server) + (back)));
    lemma_take_string(v.encryption_algorithms_server_to_client, string_bytes(v.mac_algorithms_client_to_server) + (back));
    lemma_take_string(v.mac_algorithms_client_to_server, back);
    let front = KexInitView {
        cookie: v.cookie,
        kex_algorithms: v.kex_algorithms,
        server_host_key_algorithms: v.server_host_key_algorithms,
        encryption_algorithms_client_to_server: v.encryption_algorithms_client_to_server,
        encryption_algorithms_server_to_client: v.encryption_algorithms_server_to_client,
        mac_algorithms_client_to_server: v.mac_algorithms_client_to_server,
        mac_algorithms_server_to_client: Seq::empty(),
        compression_algorithms_client_to_server: Seq::empty(),
        compression_algorithms_server_to_client: Seq::empty(),
        languages_client_to_server: Seq::empty(),
        languages_server_to_client: Seq::empty(),
        first_kex_packet_follows: false,
        reserved: 0,
    };
    lemma_take_kex_init_back(front, v, rest);
}

/// Reads a proposal. Where the bytes end before the proposal does, the cursor
/// is left somewhere inside it.
pub fn read_kex_init(reader: &mut Reader) -> (r: Option<KexInit>)
    ensures
        match take_kex_init(old(reader).remaining()) {
            Some((v, rest)) => r is Some && r->0@ == v && final(reader).remaining() == rest,
            None => r is None,
        },
{
    let cookie = match reader.read_bytes(COOKIE_SIZE) {
        Some(v) => v,
        None => {
            return None;
        },
    };
    let kex_algorithms = match reader.read_string() {
        Some(v) => v,
        None => {
            return None;
        },
    };
    let server_host_key_algorithms = match reader.read_string() {
        Some(v) => v,
        None => {
            return None;
        },
    };
    let encryption_algorithms_client_to_server = match reader.read_string() {
        Some(v) => v,
        None => {
            return None;
        },
    };
    let encryption_algorithms_server_to_client = match reader.read_string() {
        Some(v) => v,
        None => {
            return None;
        },
    };
    let mac_algorithms_client_to_server = match reader.read_string() {
        Some(v) => v,
        None => {
            return None;
        },
    };
    let mac_algorithms_server_to_client = match reader.read_string() {
        Some(v) => v,
        None => {
            return None;
        },
    };
    let compression_algorithms_client_to_server = match reader.read_string() {
        Some(v) => v,
        None => {
            return None;
        },
    };
    let compression_algorithms_server_to_client = match reader.read_string() {
        Some(v) => v,
        None => {
            return None;
        },
    };
    let languages_client_to_server = match reader.read_string() {
        Some(v) => v,
        None => {
            return None;
        },
    };
    let languages_server_to_client = match reader.read_string() {
        Some(v) => v,
        None => {
            return None;
        },
    };
    let first_kex_packet_follows = match reader.read_bool() {
        Some(v) => v,
        None => {
            return None;
        },
    };
    let reserved = match reader.read_u32() {
        Some(v) => v,
        None => {
            return None;
        },
    };
    Some(
        KexInit {
            cookie,
            kex_algorithms,
            server_host_key_algorithms,
            encryption_algorithms_client_to_server,
            encryption_algorithms_server_to_client,
            mac_algorithms_client_to_server,
            mac_algorithms_server_to_client,
            compression_algorithms_client_to_server,
            compression_algorithms_server_to_client,
            languages_client_to_server,
            languages_server_to_client,
            first_kex_packet_follows,
            reserved,
        },
    )
}

fn put_kex_init_back(out: &mut Vec<u8>, v: &KexInit)
    requires
        v@.wf(),
    ensures
        final(out)@ == old(out)@ + v@.encoded_back(),
{
    put_string(out, v.mac_algorithms_server_to_client.as_slice());
    put_string(out, v.compression_algorithms_client_to_server.as_slice());
    put_string(out, v.compression_algorithms_server_to_client.as_slice());
    put_string(out, v.languages_client_to_server.as_slice());
    put_string(out, v.languages_server_to_client.as_slice());
    put_bool(out, v.first_kex_packet_follows);
    put_u32(out, v.reserved);
    assert(out@ =~= old(out)@ + v@.encoded_back());
}

/// Appends the fields of the proposal `v`.
pub fn put_kex_init(out: &mut Vec<u8>, v: &KexInit)
    requires
        v@.wf(),
    ensures
        final(out)@ == old(out)@ + v@.encoded(),
{
    put_bytes(out, v.cookie.as_slice());
    put_string(out, v.kex_algorithms.as_slice());
    put_string(out, v.server_host_key_algorithms.as_slice());
    put_string(out, v.encryption_algorithms_client_to_server.as_slice());
    put_string(out, v.encryption_algorithms_server_to_client.as_slice());
    put_string(out, v.mac_algorithms_client_to_server.as_slice());
    let ghost front = out@;
    put_kex_init_back(out, v);
    assert(front + v@.encoded_back() =~= old(out)@ + v@.encoded());
}

} // verus!
