//! Key derivation: from the shared secret and the exchange hash to the keys of
//! both directions.

use vstd::prelude::*;
use crate::algorithm::kex::KexHash;
use crate::crypto::{digest, hash};
use crate::kex::negotiate::{Negotiated, Suite};
use crate::transport::{Direction, Transport, TransportPair};
use crate::wire::{copy_range, put_bytes};

verus! {

/// The letter for the initialisation vector from client to server.
pub const IV_CLIENT_TO_SERVER: u8 = 0x41;

/// The letter for the initialisation vector from server to client.
pub const IV_SERVER_TO_CLIENT: u8 = 0x42;

/// The letter for the encryption key from client to server.
pub const KEY_CLIENT_TO_SERVER: u8 = 0x43;

/// The letter for the encryption key from server to client.
pub const KEY_SERVER_TO_CLIENT: u8 = 0x44;

/// The letter for the integrity key from client to server.
pub const MAC_CLIENT_TO_SERVER: u8 = 0x45;

/// The letter for the integrity key from server to client.
pub const MAC_SERVER_TO_CLIENT: u8 = 0x46;

/// What the two sides share after a key exchange.
pub struct Secrets {
    /// The hash function of the key exchange.
    pub alg: KexHash,
    /// The shared secret, encoded as an `mpint`.
    pub secret: Vec<u8>,
    /// The exchange hash.
    pub hash: Vec<u8>,
    /// The session identifier: the exchange hash of the first key exchange.
    pub session_id: Vec<u8>,
}

/// The key material after `rounds` extensions: the digest of secret, exchange
/// hash, letter and session identifier, extended each time by the digest of
/// secret, exchange hash and all the material so far.
pub open spec fn material(
    alg: KexHash,
    secret: Seq<u8>,
    h: Seq<u8>,
    letter: u8,
    session_id: Seq<u8>,
    rounds: nat,
) -> Seq<u8>
    decreases rounds,
{
    if rounds == 0 {
        digest(alg, secret + h + seq![letter] + session_id)
    } else {
        let so_far = material(alg, secret, h, letter, session_id, (rounds - 1) as nat);
        so_far + digest(alg, secret + h + so_far)
    }
}

/// The number of extensions that it takes to have `len` bytes of material from
/// digests of `size` bytes.
pub open spec fn rounds_for(size: nat, len: nat) -> nat {
    if len == 0 {
        0
    } else {
        ((len - 1) / size as int) as nat
    }
}

/// The key of `len` bytes for the letter `letter`: the first `len` bytes of the
/// material, extended as often as it takes.
pub open spec fn derived(
    alg: KexHash,
    secret: Seq<u8>,
    h: Seq<u8>,
    letter: u8,
    session_id: Seq<u8>,
    len: nat,
) -> Seq<u8> {
    material(alg, secret, h, letter, session_id, rounds_for(alg.spec_size(), len)).take(len as int)
}

proof fn lemma_rounds(size: nat, len: nat, rounds: nat)
    requires
        size > 0,
        rounds * size < len <= (rounds + 1) * size,
    ensures
        rounds_for(size, len) == rounds,
{
    let rest = len - 1 - rounds * size;
    assert(len - 1 == rounds * size + rest);
    assert(rounds * size == size * rounds) by (nonlinear_arith);
    assert(0 <= rest < size) by (nonlinear_arith)
        requires
            rounds * size < len <= (rounds + 1) * size,
            rest == len - 1 - rounds * size,
    ;
    vstd::arithmetic::div_mod::lemma_fundamental_div_mod_converse(
        len - 1,
        size as int,
        rounds as int,
        rest,
    );
}

/// The key of `len` bytes for the letter `letter`.
pub fn derive_key(alg: KexHash, secret: &[u8], h: &[u8], letter: u8, session_id: &[u8], len: usize) -> (r:
    Vec<u8>)
    ensures
        r@ == derived(alg, secret@, h@, letter, session_id@, len as nat),
        r@.len() == len,
{
    let size = alg.size();
    let mut seed: Vec<u8> = Vec::new();
    put_bytes(&mut seed, secret);
    put_bytes(&mut seed, h);
    let ghost prefix = seed@;
    seed.push(letter);
    put_bytes(&mut seed, session_id);
    assert(seed@ =~= secret@ + h@ + seq![letter] + session_id@);
    let mut bytes = hash(alg, seed.as_slice());
    let ghost mut rounds: nat = 0;
    while bytes.len() < len
        invariant
            size == alg.spec_size(),
            size >= 20,
            prefix == secret@ + h@,
            bytes@ == material(alg, secret@, h@, letter, session_id@, rounds),
            bytes@.len() == (rounds + 1) * size,
            rounds * size < len || rounds == 0,
        decreases
            (if bytes@.len() < len {
                len - bytes@.len()
            } else {
                0
            }),
    {
        let mut next: Vec<u8> = Vec::new();
        put_bytes(&mut next, secret);
        put_bytes(&mut next, h);
        put_bytes(&mut next, bytes.as_slice());
        assert(next@ =~= secret@ + h@ + bytes@);
        let more = hash(alg, next.as_slice());
        proof {
            assert((rounds + 2) * size == (rounds + 1) * size + size) by (nonlinear_arith);
            rounds = rounds + 1;
        }
        put_bytes(&mut bytes, more.as_slice());
    }
    proof {
        if len == 0 {
            assert(rounds == 0);
        } else if rounds == 0 {
            assert(0 * size == 0) by (nonlinear_arith);
            assert((0 + 1) * size == size) by (nonlinear_arith);
            lemma_rounds(size as nat, len as nat, 0);
        } else {
            lemma_rounds(size as nat, len as nat, rounds);
        }
    }
    copy_range(bytes.as_slice(), 0, len)
}

/// The direction whose keys are derived for the algorithms `suite`, with the
/// letters of the direction from client to server or of the other, at the
/// sequence number `seq`.
pub open spec fn keyed_direction(
    suite: Suite,
    alg: KexHash,
    secret: Seq<u8>,
    h: Seq<u8>,
    session_id: Seq<u8>,
    client_to_server: bool,
    seq: u32,
) -> Direction {
    Direction {
        cipher: suite.cipher,
        hmac: suite.hmac,
        compress: suite.compress,
        key: derived(
            alg,
            secret,
            h,
            if client_to_server {
                KEY_CLIENT_TO_SERVER
            } else {
                KEY_SERVER_TO_CLIENT
            },
            session_id,
            suite.cipher.spec_key_size(),
        ),
        iv: derived(
            alg,
            secret,
            h,
            if client_to_server {
                IV_CLIENT_TO_SERVER
            } else {
                IV_SERVER_TO_CLIENT
            },
            session_id,
            suite.cipher.spec_iv_size(),
        ),
        mac_key: derived(
            alg,
            secret,
            h,
            if client_to_server {
                MAC_CLIENT_TO_SERVER
            } else {
                MAC_SERVER_TO_CLIENT
            },
            session_id,
            suite.hmac.spec_size(),
        ),
        seq,
    }
}

impl Secrets {
    /// The direction with the keys derived from these secrets.
    pub fn direction(&self, suite: Suite, client_to_server: bool, seq: u32) -> (r: Transport)
        ensures
            r@ == keyed_direction(
                suite,
                self.alg,
                self.secret@,
                self.hash@,
                self.session_id@,
                client_to_server,
                seq,
            ),
            r@.wf(),
    {
        let (iv, key, mac) = if client_to_server {
            (IV_CLIENT_TO_SERVER, KEY_CLIENT_TO_SERVER, MAC_CLIENT_TO_SERVER)
        } else {
            (IV_SERVER_TO_CLIENT, KEY_SERVER_TO_CLIENT, MAC_SERVER_TO_CLIENT)
        };
        let secret = self.secret.as_slice();
        let h = self.hash.as_slice();
        let id = self.session_id.as_slice();
        Transport {
            cipher: suite.cipher,
            hmac: suite.hmac,
            compress: suite.compress,
            key: derive_key(self.alg, secret, h, key, id, suite.cipher.key_size()),
            iv: derive_key(self.alg, secret, h, iv, id, suite.cipher.iv_size()),
            mac_key: derive_key(self.alg, secret, h, mac, id, suite.hmac.size()),
            seq,
        }
    }

    /// The transport pair of the client, or of the server, with the keys
    /// derived from these secrets. Sequence numbers carry over from `before`:
    /// a key exchange does not reset them.
    pub fn pair(&self, negotiated: &Negotiated, client: bool, before: &TransportPair) -> (r:
        TransportPair)
        ensures
            r.tx@ == keyed_direction(
                if client {
                    negotiated.client_to_server
                } else {
                    negotiated.server_to_client
                },
                self.alg,
                self.secret@,
                self.hash@,
                self.session_id@,
                client,
                before.tx.seq,
            ),
            r.rx@ == keyed_direction(
                if client {
                    negotiated.server_to_client
                } else {
                    negotiated.client_to_server
                },
                self.alg,
                self.secret@,
                self.hash@,
                self.session_id@,
                !client,
                before.rx.seq,
            ),
            r.tx@.wf(),
            r.rx@.wf(),
    {
        if client {
            TransportPair {
                tx: self.direction(negotiated.client_to_server, true, before.tx.seq),
                rx: self.direction(negotiated.server_to_client, false, before.rx.seq),
            }
        } else {
            TransportPair {
                tx: self.direction(negotiated.server_to_client, false, before.tx.seq),
                rx: self.direction(negotiated.client_to_server, true, before.rx.seq),
            }
        }
    }
}

/// After a key exchange each side sends with the keys that the other receives
/// with: where both derive from the same secrets and their sequence numbers
/// agree, the client's sending direction is the server's receiving direction,
/// and the other way round.
pub proof fn lemma_pairs_in_step(
    client: TransportPair,
    server: TransportPair,
    negotiated: Negotiated,
    alg: KexHash,
    secret: Seq<u8>,
    h: Seq<u8>,
    session_id: Seq<u8>,
    up: u32,
    down: u32,
)
    requires
        client.tx@ == keyed_direction(
            negotiated.client_to_server,
            alg,
            secret,
            h,
            session_id,
            true,
            up,
        ),
        client.rx@ == keyed_direction(
            negotiated.server_to_client,
            alg,
            secret,
            h,
            session_id,
            false,
            down,
        ),
        server.tx@ == keyed_direction(
            negotiated.server_to_client,
            alg,
            secret,
            h,
            session_id,
            false,
            down,
        ),
        server.rx@ == keyed_direction(
            negotiated.client_to_server,
            alg,
            secret,
            h,
            session_id,
            true,
            up,
        ),
    ensures
        client.tx@ == server.rx@,
        server.tx@ == client.rx@,
{
}

} // verus!
