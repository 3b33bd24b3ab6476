//! The exchange of ephemeral public keys, step by step: what the client
//! sends, what the server answers, and what each side makes of the other's
//! message.

use vstd::prelude::*;
use crate::algorithm::Kex;
use crate::crypto::{seq_of, sign, signature_valid, verify_signature};
use crate::error::Error;
use crate::kex::exchange::Exchange;
use crate::kex::group::{
    ephemeral_secret, public_key, public_of, secret_size, shared_of, shared_secret, Group, GroupView,
};
use crate::kex::keys::Secrets;
use crate::message::Message;
use crate::wire::{copy_range, mpint_bytes, put_mpint};

verus! {

/// What both sides know of an exchange before the ephemeral keys are sent.
pub struct Context {
    /// The key exchange algorithm.
    pub kex: Kex,
    /// The client's identification string, without the line end.
    pub client_id: Vec<u8>,
    /// The server's identification string, without the line end.
    pub server_id: Vec<u8>,
    /// The payload of the client's algorithm proposal.
    pub client_kexinit: Vec<u8>,
    /// The payload of the server's algorithm proposal.
    pub server_kexinit: Vec<u8>,
    /// The session identifier, from the second key exchange on.
    pub session_id: Option<Vec<u8>>,
    /// The group, where the server has proposed it.
    pub group: Option<Group>,
    /// What the key exchange algorithm adds to the exchange hash before the
    /// public keys: nothing but where the server proposes the group.
    pub prelude: Vec<u8>,
}

/// What both sides know of an exchange, as contracts see it.
pub struct ContextView {
    /// The key exchange algorithm.
    pub kex: Kex,
    /// The client's identification string, without the line end.
    pub client_id: Seq<u8>,
    /// The server's identification string, without the line end.
    pub server_id: Seq<u8>,
    /// The payload of the client's algorithm proposal.
    pub client_kexinit: Seq<u8>,
    /// The payload of the server's algorithm proposal.
    pub server_kexinit: Seq<u8>,
    /// The session identifier, from the second key exchange on.
    pub session_id: Option<Seq<u8>>,
    /// The group, where the server has proposed it.
    pub group: Option<GroupView>,
    /// What the key exchange algorithm adds to the exchange hash before the
    /// public keys.
    pub prelude: Seq<u8>,
}

impl View for Context {
    type V = ContextView;

    open spec fn view(&self) -> ContextView {
        ContextView {
            kex: self.kex,
            client_id: self.client_id@,
            server_id: self.server_id@,
            client_kexinit: self.client_kexinit@,
            server_kexinit: self.server_kexinit@,
            session_id: seq_of(self.session_id),
            group: match self.group {
                Some(g) => Some(g@),
                None => None,
            },
            prelude: self.prelude@,
        }
    }
}

impl ContextView {
    /// Whether every part is short enough for its length prefix, and the
    /// group, if there is one, has an odd modulus.
    pub open spec fn wf(self) -> bool {
        &&& self.client_id.len() <= u32::MAX
        &&& self.server_id.len() <= u32::MAX
        &&& self.client_kexinit.len() <= u32::MAX
        &&& self.server_kexinit.len() <= u32::MAX
        &&& self.group matches Some(g) ==> g.wf()
    }

    /// The public key that goes with the ephemeral secret `secret`: that of
    /// the group where the server has proposed one, else that of the key
    /// exchange algorithm.
    pub open spec fn public(self, secret: Seq<u8>) -> Option<Seq<u8>> {
        match self.group {
            Some(g) => g.public(secret),
            None => public_of(self.kex, secret),
        }
    }

    /// The shared secret of the ephemeral secret `secret` and the other side's
    /// public key `peer`.
    pub open spec fn shared(self, secret: Seq<u8>, peer: Seq<u8>) -> Option<Seq<u8>> {
        match self.group {
            Some(g) => g.shared(secret, peer),
            None => shared_of(self.kex, secret, peer),
        }
    }

    /// The exchange that this context and the keys of both sides make.
    pub open spec fn exchange(
        self,
        host_key: Seq<u8>,
        client_public: Seq<u8>,
        server_public: Seq<u8>,
        secret: Seq<u8>,
    ) -> Seq<u8> {
        crate::wire::string_bytes(self.client_id) + crate::wire::string_bytes(self.server_id)
            + crate::wire::string_bytes(self.client_kexinit) + crate::wire::string_bytes(
            self.server_kexinit,
        ) + crate::wire::string_bytes(host_key) + self.prelude + crate::wire::string_bytes(
            client_public,
        ) + crate::wire::string_bytes(server_public) + mpint_bytes(secret)
    }

    /// The exchange hash of this context and the keys of both sides.
    pub open spec fn exchange_hash(
        self,
        host_key: Seq<u8>,
        client_public: Seq<u8>,
        server_public: Seq<u8>,
        secret: Seq<u8>,
    ) -> Seq<u8> {
        crate::crypto::digest(
            self.kex.spec_hash(),
            self.exchange(host_key, client_public, server_public, secret),
        )
    }

    /// The session identifier once the exchange with hash `h` is done: the one
    /// there was, or `h` in the first key exchange.
    pub open spec fn session_id_after(self, h: Seq<u8>) -> Seq<u8> {
        match self.session_id {
            Some(id) => id,
            None => h,
        }
    }
}

impl Context {
    /// The public key that goes with the ephemeral secret `secret`.
    pub fn public_key(&self, secret: &[u8]) -> (r: Option<Vec<u8>>)
        requires
            self@.wf(),
        ensures
            seq_of(r) == self@.public(secret@),
    {
        match &self.group {
            Some(g) => g.public_key(secret),
            None => public_key(self.kex, secret),
        }
    }

    /// The shared secret of the ephemeral secret `secret` and the other side's
    /// public key `peer`.
    pub fn shared_secret(&self, secret: &[u8], peer: &[u8]) -> (r: Option<Vec<u8>>)
        requires
            self@.wf(),
        ensures
            seq_of(r) == self@.shared(secret@, peer@),
    {
        match &self.group {
            Some(g) => g.shared_secret(secret, peer),
            None => shared_secret(self.kex, secret, peer),
        }
    }

    /// The secrets of the exchange with the shared secret `secret` and the
    /// hash `h`.
    fn secrets(&self, secret: &[u8], h: Vec<u8>) -> (r: Secrets)
        requires
            secret@.len() < u32::MAX,
        ensures
            r.alg == self.kex.spec_hash(),
            r.secret@ == mpint_bytes(secret@),
            r.hash@ == h@,
            r.session_id@ == self@.session_id_after(h@),
    {
        let mut encoded: Vec<u8> = Vec::new();
        put_mpint(&mut encoded, secret);
        assert(encoded@ =~= mpint_bytes(secret@));
        let session_id = match &self.session_id {
            Some(id) => {
                let r = copy_range(id.as_slice(), 0, id.len());
                assert(r@ =~= id@);
                r
            },
            None => {
                let r = copy_range(h.as_slice(), 0, h.len());
                assert(r@ =~= h@);
                r
            },
        };
        Secrets { alg: self.kex.hash(), secret: encoded, hash: h, session_id }
    }

    /// The exchange hash of this context and the keys of both sides.
    fn hash(&self, host_key: &[u8], client_public: &[u8], server_public: &[u8], secret: &[u8]) -> (r:
        Vec<u8>)
        requires
            self@.wf(),
            host_key@.len() <= u32::MAX,
            client_public@.len() <= u32::MAX,
            server_public@.len() <= u32::MAX,
            secret@.len() < u32::MAX,
        ensures
            r@ == self@.exchange_hash(host_key@, client_public@, server_public@, secret@),
    {
        let exchange = Exchange {
            client_id: copy_range(self.client_id.as_slice(), 0, self.client_id.len()),
            server_id: copy_range(self.server_id.as_slice(), 0, self.server_id.len()),
            client_kexinit: copy_range(self.client_kexinit.as_slice(), 0, self.client_kexinit.len()),
            server_kexinit: copy_range(self.server_kexinit.as_slice(), 0, self.server_kexinit.len()),
            host_key: copy_range(host_key, 0, host_key.len()),
            prelude: copy_range(self.prelude.as_slice(), 0, self.prelude.len()),
            client_public: copy_range(client_public, 0, client_public.len()),
            server_public: copy_range(server_public, 0, server_public.len()),
            secret: copy_range(secret, 0, secret.len()),
        };
        assert(exchange.client_id@ =~= self.client_id@);
        assert(exchange.server_id@ =~= self.server_id@);
        assert(exchange.client_kexinit@ =~= self.client_kexinit@);
        assert(exchange.server_kexinit@ =~= self.server_kexinit@);
        assert(exchange.host_key@ =~= host_key@);
        assert(exchange.prelude@ =~= self.prelude@);
        assert(exchange.client_public@ =~= client_public@);
        assert(exchange.server_public@ =~= server_public@);
        assert(exchange.secret@ =~= secret@);
        exchange.hash(self.kex.hash())
    }
}

/// A server's host key.
pub struct HostKey {
    /// The public key in its wire encoding.
    pub public: Vec<u8>,
    /// The private key in its binary OpenSSH encoding.
    pub private: Vec<u8>,
}

/// Whether the two public keys and the shared secret are short enough for
/// their length prefixes.
pub open spec fn encodable(own: Seq<u8>, peer: Seq<u8>, secret: Seq<u8>) -> bool {
    own.len() <= u32::MAX && peer.len() <= u32::MAX && secret.len() < u32::MAX
}

/// What the client makes of the server's answer: the secrets of the session
/// where its own secret and the server's public key give a shared secret and
/// the signature of the exchange hash verifies under the host key;
/// `ProtocolViolation` where there is no shared secret, `HostKeySignature`
/// where the signature fails.
pub open spec fn client_outcome(
    context: ContextView,
    secret: Seq<u8>,
    host_key: Seq<u8>,
    server_public: Seq<u8>,
    signature: Seq<u8>,
) -> Result<(Seq<u8>, Seq<u8>, Seq<u8>), Error> {
    match (context.public(secret), context.shared(secret, server_public)) {
        (Some(own), Some(k)) if encodable(own, server_public, k) => {
            let h = context.exchange_hash(host_key, own, server_public, k);
            if signature_valid(host_key, h, signature) {
                Ok((mpint_bytes(k), h, context.session_id_after(h)))
            } else {
                Err(Error::HostKeySignature)
            }
        },
        _ => Err(Error::ProtocolViolation),
    }
}

/// The message by which a client with the ephemeral secret `secret` opens the
/// exchange `kex`: its public key; `None` where the secret gives none.
pub fn client_hello(kex: Kex, secret: &[u8]) -> (r: Option<Message>)
    ensures
        match public_of(kex, secret@) {
            Some(own) => r is Some && r->0@ == (crate::message::MessageView::KexEcdhInit {
                q_c: own,
            }),
            None => r is None,
        },
{
    match public_key(kex, secret) {
        Some(q_c) => Some(Message::KexEcdhInit { q_c }),
        None => None,
    }
}

/// What the client with the ephemeral secret `secret` makes of the server's
/// answer.
pub fn client_finish(
    context: &Context,
    secret: &[u8],
    host_key: &[u8],
    server_public: &[u8],
    signature: &[u8],
) -> (r: Result<Secrets, Error>)
    requires
        context@.wf(),
        host_key@.len() <= u32::MAX,
    ensures
        match client_outcome(context@, secret@, host_key@, server_public@, signature@) {
            Ok((k, h, id)) => {
                &&& r is Ok
                &&& r->Ok_0.alg == context.kex.spec_hash()
                &&& r->Ok_0.secret@ == k
                &&& r->Ok_0.hash@ == h
                &&& r->Ok_0.session_id@ == id
            },
            Err(e) => r is Err && r->Err_0 == e,
        },
{
    let own = match context.public_key(secret) {
        Some(p) => p,
        None => {
            return Err(Error::ProtocolViolation);
        },
    };
    let k = match context.shared_secret(secret, server_public) {
        Some(k) => k,
        None => {
            return Err(Error::ProtocolViolation);
        },
    };
    if own.len() > u32::MAX as usize || server_public.len() > u32::MAX as usize || k.len()
        >= u32::MAX as usize {
        return Err(Error::ProtocolViolation);
    }
    let h = context.hash(host_key, own.as_slice(), server_public, k.as_slice());
    if !verify_signature(host_key, h.as_slice(), signature) {
        return Err(Error::HostKeySignature);
    }
    Ok(context.secrets(k.as_slice(), h))
}

/// The exchange hash that a server with the ephemeral secret `secret` and the
/// public host key `host_key` computes on the client's public key, with the
/// shared secret; `None` where the client's key gives no shared secret.
pub open spec fn server_hash(
    context: ContextView,
    secret: Seq<u8>,
    host_key: Seq<u8>,
    client_public: Seq<u8>,
) -> Option<(Seq<u8>, Seq<u8>)> {
    match (context.public(secret), context.shared(secret, client_public)) {
        (Some(own), Some(k)) if encodable(own, client_public, k) => Some(
            (k, context.exchange_hash(host_key, client_public, own, k)),
        ),
        _ => None,
    }
}

/// What the server with the ephemeral secret `secret` answers to the client's
/// public key, given a signature of the exchange hash: its host key, its own
/// public key and the signature, with the secrets of the session, where the
/// signature verifies under the host key; `ProtocolViolation` where there is
/// no shared secret, `HostKeySignature` where the signature fails.
pub open spec fn server_outcome(
    context: ContextView,
    secret: Seq<u8>,
    host_key: Seq<u8>,
    client_public: Seq<u8>,
    signature: Seq<u8>,
) -> Result<(crate::message::MessageView, Seq<u8>, Seq<u8>, Seq<u8>), Error> {
    match server_hash(context, secret, host_key, client_public) {
        None => Err(Error::ProtocolViolation),
        Some((k, h)) => {
            if signature_valid(host_key, h, signature) {
                Ok(
                    (
                        crate::message::MessageView::KexEcdhReply {
                            k_s: host_key,
                            q_s: context.public(secret)->0,
                            signature,
                        },
                        mpint_bytes(k),
                        h,
                        context.session_id_after(h),
                    ),
                )
            } else {
                Err(Error::HostKeySignature)
            }
        },
    }
}

/// The server's answer to the client's public key, given a signature of the
/// exchange hash.
pub fn server_finish(
    context: &Context,
    secret: &[u8],
    host_key: &[u8],
    client_public: &[u8],
    signature: Vec<u8>,
) -> (r: Result<(Message, Secrets), Error>)
    requires
        context@.wf(),
        host_key@.len() <= u32::MAX,
        signature@.len() <= u32::MAX,
    ensures
        match server_outcome(context@, secret@, host_key@, client_public@, signature@) {
            Ok((m, k, h, id)) => {
                &&& r is Ok
                &&& r->Ok_0.0@ == m
                &&& r->Ok_0.1.alg == context.kex.spec_hash()
                &&& r->Ok_0.1.secret@ == k
                &&& r->Ok_0.1.hash@ == h
                &&& r->Ok_0.1.session_id@ == id
            },
            Err(e) => r is Err && r->Err_0 == e,
        },
{
    let own = match context.public_key(secret) {
        Some(p) => p,
        None => {
            return Err(Error::ProtocolViolation);
        },
    };
    let k = match context.shared_secret(secret, client_public) {
        Some(k) => k,
        None => {
            return Err(Error::ProtocolViolation);
        },
    };
    if own.len() > u32::MAX as usize || client_public.len() > u32::MAX as usize || k.len()
        >= u32::MAX as usize {
        return Err(Error::ProtocolViolation);
    }
    let h = context.hash(host_key, client_public, own.as_slice(), k.as_slice());
    if !verify_signature(host_key, h.as_slice(), signature.as_slice()) {
        return Err(Error::HostKeySignature);
    }
    let k_s = copy_range(host_key, 0, host_key.len());
    assert(k_s@ =~= host_key@);
    let reply = Message::KexEcdhReply { k_s, q_s: own, signature };
    Ok((reply, context.secrets(k.as_slice(), h)))
}

/// The server's answer to the client's public key: a fresh ephemeral secret
/// is drawn and the exchange hash is signed with the host key. Whatever secret
/// was drawn and whatever the signing gave, the answer is the one that
/// `server_outcome` describes for them; the host key failing to sign counts
/// as a failed signature.
pub fn server_reply(context: &Context, host: &HostKey, client_public: &[u8]) -> (r: Result<
    (Message, Secrets),
    Error,
>)
    requires
        context@.wf(),
        host.public@.len() <= u32::MAX,
    ensures
        r is Err ==> r->Err_0 == Error::ProtocolViolation || r->Err_0 == Error::HostKeySignature,
        r is Ok ==> exists|secret: Seq<u8>, signature: Seq<u8>|
            {
                &&& secret.len() == secret_size(context.kex)
                &&& (#[trigger] server_outcome(
                    context@,
                    secret,
                    host.public@,
                    client_public@,
                    signature,
                )) matches Ok((m, k, h, id))
                &&& r->Ok_0.0@ == m
                &&& r->Ok_0.1.alg == context.kex.spec_hash()
                &&& r->Ok_0.1.secret@ == k
                &&& r->Ok_0.1.hash@ == h
                &&& r->Ok_0.1.session_id@ == id
            },
{
    let secret = ephemeral_secret(context.kex);
    let own = match context.public_key(secret.as_slice()) {
        Some(p) => p,
        None => {
            return Err(Error::ProtocolViolation);
        },
    };
    let k = match context.shared_secret(secret.as_slice(), client_public) {
        Some(k) => k,
        None => {
            return Err(Error::ProtocolViolation);
        },
    };
    if own.len() > u32::MAX as usize || client_public.len() > u32::MAX as usize || k.len()
        >= u32::MAX as usize {
        return Err(Error::ProtocolViolation);
    }
    let h = context.hash(host.public.as_slice(), client_public, own.as_slice(), k.as_slice());
    let signature = match sign(host.private.as_slice(), h.as_slice()) {
        Some(s) => s,
        None => {
            return Err(Error::HostKeySignature);
        },
    };
    if signature.len() > u32::MAX as usize {
        return Err(Error::HostKeySignature);
    }
    let ghost sig = signature@;
    let r = server_finish(context, secret.as_slice(), host.public.as_slice(), client_public, signature);
    proof {
        if r is Ok {
            assert(server_outcome(context@, secret@, host.public@, client_public@, sig) is Ok);
        }
    }
    r
}

} // verus!
