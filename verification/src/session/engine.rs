//! The steps of a session: what it does with the bytes that come in and with
//! the messages that are to go out.

use vstd::prelude::*;
use crate::algorithm::Kex;
use crate::error::{DisconnectReason, Error};
use crate::kex::ecdh::{
    client_finish, client_hello, client_outcome, server_outcome, server_reply, Context, ContextView,
};
use crate::kex::gex;
use crate::kex::group::{ephemeral_secret, public_of};
use crate::kex::keys::{keyed_direction, Secrets};
use crate::kex::negotiate::{discard_guess, guess_is_wrong, negotiate, negotiated, Negotiated, Suite};
use crate::kexinit::KexInit;
use crate::message::{decoded, Message, MessageView};
use crate::session::id::{identified, identify, Id};
use crate::session::rekey::{is_due, Traffic};
use crate::session::route::{reason_for, route, routed, Role, Route, State, Step};
use crate::session::{grows, lemma_starts_with_itself, starts_with, Poll, Session, Side};
use crate::transport::codec::{after_frame, decode, frame, parsed, tamper_evident};
use crate::transport::Direction;
use crate::wire::copy_range;

verus! {

impl Session {
    /// Whether every name list of the proposal is short enough for its length
    /// prefix.
    fn fits(p: &KexInit) -> (r: bool)
        ensures
            r == (p@.wf()),
    {
        let max = u32::MAX as usize;
        p.cookie.len() == crate::kexinit::COOKIE_SIZE && p.kex_algorithms.len() <= max
            && p.server_host_key_algorithms.len() <= max
            && p.encryption_algorithms_client_to_server.len() <= max
            && p.encryption_algorithms_server_to_client.len() <= max
            && p.mac_algorithms_client_to_server.len() <= max
            && p.mac_algorithms_server_to_client.len() <= max
            && p.compression_algorithms_client_to_server.len() <= max
            && p.compression_algorithms_server_to_client.len() <= max
            && p.languages_client_to_server.len() <= max && p.languages_server_to_client.len()
            <= max
    }

    /// Whether this side's proposal cannot be sent, whatever its cookie: one
    /// of its name lists is too long for a length prefix, or the message is
    /// too long for a packet.
    pub open spec fn begin_refused(self) -> bool {
        let p = self.side.proposal_with(Seq::new(crate::kexinit::COOKIE_SIZE as nat, |i: int| 0u8));
        let n = (MessageView::KexInit { proposal: p }).encoded().len();
        !p.wf() || n > u32::MAX || self.too_long(n)
    }

    /// What starting a key exchange comes to: where the proposal can be sent, it
    /// is the proposal of this side with some cookie, it goes out, and the
    /// session waits for the peer's in the state `next`; else, which is where
    /// `begin_refused` holds, the session fails with `KexinitInvalid`.
    #[verifier::opaque]
    pub open spec fn begun(
        self,
        next: State,
        peer: Option<Id>,
        later: Session,
        r: Result<(), Error>,
    ) -> bool {
        &&& later.follows(self)
        &&& later.inbound == self.inbound
        &&& later.pair.rx == self.pair.rx
        &&& later.held == self.held
        &&& later.peer_id == if peer is Some {
                peer
            } else {
                self.peer_id
            }
        &&& starts_with(later.outbound@, self.outbound@)
        &&& grows(self.outbound@, later.outbound@)
        &&& match r {
                Ok(()) => {
                    &&& later.state == next
                    &&& later.step == Step::Proposed
                    &&& later.own_proposal matches Some(p)
                    &&& p@.cookie.len() == crate::kexinit::COOKIE_SIZE
                    &&& p@ == self.side.proposal_with(p@.cookie)
                    &&& later.own_payload@ == (MessageView::KexInit { proposal: p@ }).encoded()
                    &&& later.emitted(self, MessageView::KexInit { proposal: p@ })
                    &&& later.negotiated == self.negotiated
                    &&& later.peer_payload == self.peer_payload
                    &&& later.session_id == self.session_id
                },
                Err(e) => e == Error::KexinitInvalid && later.state == State::Disconnected,
            }
        &&& r is Err <==> self.begin_refused()
    }

    /// Starts a key exchange, in the state `next`; `peer` is the peer's
    /// identification where it has just come.
    fn begin(&mut self, next: State, peer: Option<Id>) -> (r: Result<(), Error>)
        requires
            old(self).wf(),
            old(self).step == Step::Idle,
            match peer {
                Some(p) => old(self).state == State::Banner && next == State::KexInitial
                    && p@.line().len() <= u32::MAX,
                None => old(self).state == State::Serviceable && next == State::KexRekey,
            },
        ensures
            final(self).wf(),
            old(self).begun(next, peer, *final(self), r),
            final(self).follows(*old(self)),
            final(self).inbound == old(self).inbound,
            r is Err ==> final(self).state == State::Disconnected,
            grows(old(self).outbound@, final(self).outbound@),
            final(self).pair.rx == old(self).pair.rx,
            final(self).held == old(self).held,
    {
        proof {
            reveal(Session::begun);
            lemma_starts_with_itself(self.outbound@);
        }
        let proposal = self.side.kexinit();
        proof {
            let zeros = Seq::new(crate::kexinit::COOKIE_SIZE as nat, |i: int| 0u8);
            crate::kexinit::lemma_cookie_apart(proposal@, self.side.proposal_with(zeros));
        }
        if !Self::fits(&proposal) {
            let e = self.fail(Error::KexinitInvalid);
            if peer.is_some() {
                self.peer_id = peer;
            }
            return Err(e);
        }
        let m = Message::KexInit { proposal };
        let payload = m.encode();
        if payload.len() > u32::MAX as usize {
            let e = self.fail(Error::KexinitInvalid);
            if peer.is_some() {
                self.peer_id = peer;
            }
            return Err(e);
        }
        match self.emit(&m) {
            Ok(()) => {},
            Err(_) => {
                let e = self.fail(Error::KexinitInvalid);
                if peer.is_some() {
                    self.peer_id = peer;
                }
                return Err(e);
            },
        }
        match m {
            Message::KexInit { proposal } => {
                self.own_proposal = Some(proposal);
            },
            _ => {},
        }
        self.own_payload = payload;
        self.state = next;
        self.step = Step::Proposed;
        if peer.is_some() {
            self.peer_id = peer;
        }
        Ok(())
    }

    /// What both sides know of the running key exchange.
    pub open spec fn spec_context(self) -> ContextView {
        let own = self.own_line@;
        let peer = self.peer_id->0@.line();
        let client = self.role() == Role::Client;
        ContextView {
            kex: self.negotiated->0.kex,
            client_id: if client {
                own
            } else {
                peer
            },
            server_id: if client {
                peer
            } else {
                own
            },
            client_kexinit: if client {
                self.own_payload@
            } else {
                self.peer_payload@
            },
            server_kexinit: if client {
                self.peer_payload@
            } else {
                self.own_payload@
            },
            session_id: crate::crypto::seq_of(self.session_id),
            group: match self.group {
                Some(g) => Some(g@),
                None => None,
            },
            prelude: self.prelude@,
        }
    }

    /// What both sides know of the running key exchange.
    fn context(&self) -> (r: Context)
        requires
            self.wf(),
            self.peer_id is Some,
            self.negotiated is Some,
        ensures
            r@.wf(),
            r@ == self.spec_context(),
    {
        let own = copy_range(self.own_line.as_slice(), 0, self.own_line.len());
        let peer = match &self.peer_id {
            Some(p) => p.to_bytes(),
            None => Vec::new(),
        };
        let own_kexinit = copy_range(self.own_payload.as_slice(), 0, self.own_payload.len());
        let peer_kexinit = copy_range(self.peer_payload.as_slice(), 0, self.peer_payload.len());
        assert(own@ =~= self.own_line@);
        assert(own_kexinit@ =~= self.own_payload@);
        assert(peer_kexinit@ =~= self.peer_payload@);
        let kex = match &self.negotiated {
            Some(n) => n.kex,
            None => crate::algorithm::Kex::Curve25519Sha256,
        };
        let session_id = match &self.session_id {
            Some(id) => {
                let copy = copy_range(id.as_slice(), 0, id.len());
                assert(copy@ =~= id@);
                Some(copy)
            },
            None => None,
        };
        let group = match &self.group {
            Some(g) => Some(g.copy()),
            None => None,
        };
        let prelude = copy_range(self.prelude.as_slice(), 0, self.prelude.len());
        assert(prelude@ =~= self.prelude@);
        match self.side.role() {
            Role::Client => Context {
                kex,
                client_id: own,
                server_id: peer,
                client_kexinit: own_kexinit,
                server_kexinit: peer_kexinit,
                session_id,
                group,
                prelude,
            },
            Role::Server => Context {
                kex,
                client_id: peer,
                server_id: own,
                client_kexinit: peer_kexinit,
                server_kexinit: own_kexinit,
                session_id,
                group,
                prelude,
            },
        }
    }

    /// What the peer's proposal comes to. Where no key exchange was running, one
    /// starts, as `begun` says, and this side's proposal goes out first. The
    /// server sends nothing more. The algorithms are those that the two
    /// proposals give, and where
    /// they give none the session fails with the error of the negotiation. The
    /// client then sends its ephemeral public key, or its request for a group.
    /// A server that has made its proposal does not fail where algorithms are
    /// agreed on, and a client that asks for a group fails exactly where its
    /// request is too long for a packet.
    #[verifier::opaque]
    pub open spec fn proposed(
        self,
        peer: KexInit,
        payload: Vec<u8>,
        later: Session,
        r: Result<(), Error>,
    ) -> bool {
        &&& later.follows(self)
        &&& later.inbound == self.inbound
        &&& later.pair.rx == self.pair.rx
        &&& later.held == self.held
        &&& starts_with(later.outbound@, self.outbound@)
        &&& grows(self.outbound@, later.outbound@)
        &&& match r {
                Ok(()) => {
                    let own = later.own_proposal->0@;
                    let client = self.role() == Role::Client;
                    &&& later.step == if later.gex() {
                        Step::Requesting
                    } else {
                        Step::Exchanging
                    }
                    &&& later.group is None
                    &&& later.prelude@.len() == 0
                    &&& later.state == if self.step == Step::Idle {
                        State::KexRekey
                    } else {
                        self.state
                    }
                    &&& later.own_proposal is Some
                    &&& self.step == Step::Proposed ==> later.own_proposal == self.own_proposal
                        && later.own_payload == self.own_payload
                    &&& later.negotiated matches Some(n)
                    &&& Ok::<Negotiated, Error>(n) == if client {
                        negotiated(own, peer@)
                    } else {
                        negotiated(peer@, own)
                    }
                    &&& later.peer_payload == payload
                    &&& later.discard == guess_is_wrong(peer@, n.kex)
                    &&& later.session_id == self.session_id
                    &&& client && n.kex != Kex::DiffieHellmanGroupExchangeSha256 ==> public_of(
                        n.kex,
                        later.secret@,
                    ) is Some
                    &&& client && self.step == Step::Proposed ==> later.emitted_payload(
                        self,
                        if n.kex == Kex::DiffieHellmanGroupExchangeSha256 {
                            gex::request_payload(gex::Sizes::standard())
                        } else {
                            (MessageView::KexEcdhInit {
                                q_c: public_of(n.kex, later.secret@)->0,
                            }).encoded()
                        },
                    )
                    &&& client && n.kex == Kex::DiffieHellmanGroupExchangeSha256 ==> later.sizes
                        == gex::Sizes::standard()
                    &&& !client && self.step == Step::Proposed ==> later.outbound == self.outbound
                        && later.pair.tx == self.pair.tx
                    &&& self.step == Step::Idle ==> exists|mid: Session|
                        {
                            &&& #[trigger] self.begun(State::KexRekey, None, mid, Ok(()))
                            &&& later.own_proposal == mid.own_proposal
                            &&& later.own_payload == mid.own_payload
                            &&& if client {
                                later.emitted_payload(
                                    mid,
                                    if n.kex == Kex::DiffieHellmanGroupExchangeSha256 {
                                        gex::request_payload(gex::Sizes::standard())
                                    } else {
                                        (MessageView::KexEcdhInit {
                                            q_c: public_of(n.kex, later.secret@)->0,
                                        }).encoded()
                                    },
                                )
                            } else {
                                later.outbound == mid.outbound && later.pair.tx == mid.pair.tx
                            }
                        }
                },
                Err(e) => {
                    &&& later.state == State::Disconnected
                    &&& self.step == Step::Proposed ==> (match if self.role()
                        == Role::Client {
                        negotiated(self.own_proposal->0@, peer@)
                    } else {
                        negotiated(peer@, self.own_proposal->0@)
                    } {
                        Err(why) => e == why,
                        Ok(_) => e == Error::ProtocolViolation || e == Error::InvalidLength,
                    })
                },
            }
        &&& self.step == Step::Idle && self.begin_refused() ==> r is Err
        &&& self.step == Step::Proposed ==> (match if self.role() == Role::Client {
                negotiated(self.own_proposal->0@, peer@)
            } else {
                negotiated(peer@, self.own_proposal->0@)
            } {
                Err(_) => r is Err,
                Ok(n) => if self.role() == Role::Server {
                    r is Ok
                } else {
                    n.kex == Kex::DiffieHellmanGroupExchangeSha256 ==> (r is Err <==> self.too_long(
                        gex::request_payload(gex::Sizes::standard()).len(),
                    ))
                },
            })
    }

    /// The peer's proposal has come.
    fn on_proposal(&mut self, peer: KexInit, payload: Vec<u8>) -> (r: Result<(), Error>)
        requires
            old(self).wf(),
            old(self).step == Step::Idle || old(self).step == Step::Proposed,
            old(self).state != State::Disconnected && old(self).state != State::Banner,
            payload@.len() <= u32::MAX,
        ensures
            final(self).wf(),
            old(self).proposed(peer, payload, *final(self), r),
            final(self).follows(*old(self)),
            final(self).inbound == old(self).inbound,
            r is Err ==> final(self).state == State::Disconnected,
            grows(old(self).outbound@, final(self).outbound@),
            final(self).pair.rx == old(self).pair.rx,
            final(self).held == old(self).held,
    {
        proof {
            reveal(Session::proposed);
            reveal(Session::begun);
            lemma_starts_with_itself(self.outbound@);
        }
        if self.step == Step::Idle {
            match self.begin(State::KexRekey, None) {
                Ok(()) => {},
                Err(e) => {
                    return Err(e);
                },
            }
        }
        let ghost mid = *self;
        let negotiated = match &self.own_proposal {
            None => {
                return Err(self.fail(Error::KexinitInvalid));
            },
            Some(own) => match self.side.role() {
                Role::Client => negotiate(own, &peer),
                Role::Server => negotiate(&peer, own),
            },
        };
        let negotiated = match negotiated {
            Ok(n) => n,
            Err(e) => {
                return Err(self.fail(e));
            },
        };
        self.discard = discard_guess(&peer, negotiated.kex);
        self.peer_payload = payload;
        self.negotiated = Some(negotiated);
        self.group = None;
        self.prelude = Vec::new();
        if negotiated.kex == Kex::DiffieHellmanGroupExchangeSha256 {
            match self.side.role() {
                Role::Client => {
                    self.sizes = gex::Sizes::new();
                    let request = gex::request(self.sizes);
                    match self.emit_payload(request.as_slice()) {
                        Ok(()) => {},
                        Err(e) => {
                            return Err(self.fail(e));
                        },
                    }
                },
                Role::Server => {},
            }
            self.step = Step::Requesting;
            proof {
                if old(self).step == Step::Idle {
                    assert(old(self).begun(State::KexRekey, None, mid, Ok(())));
                }
            }
            return Ok(());
        }
        match self.side.role() {
            Role::Client => {
                let secret = ephemeral_secret(negotiated.kex);
                let hello = match client_hello(negotiated.kex, secret.as_slice()) {
                    Some(m) if message_fits(&m) => m,
                    _ => {
                        return Err(self.fail(Error::ProtocolViolation));
                    },
                };
                self.secret = secret;
                match self.emit(&hello) {
                    Ok(()) => {},
                    Err(e) => {
                        return Err(self.fail(e));
                    },
                }
            },
            Role::Server => {},
        }
        self.step = Step::Exchanging;
        proof {
            if old(self).step == Step::Idle {
                assert(old(self).begun(State::KexRekey, None, mid, Ok(())));
            }
        }
        Ok(())
    }

    /// The error for which the session cannot switch to new keys, if there
    /// is one: `InvalidLength` where the message that says so is too long for
    /// a packet, and else `NoCommonCompression` where the algorithms that
    /// were agreed on compress what this side sends.
    pub open spec fn switch_refused(self) -> Option<Error> {
        if self.too_long(MessageView::NewKeys.encoded().len()) {
            Some(Error::InvalidLength)
        } else if sending(self.negotiated->0, self.role() == Role::Client).compress
            != crate::algorithm::Compress::Null {
            Some(Error::NoCommonCompression)
        } else {
            None
        }
    }

    /// What switching to the keys of `secrets` comes to: the message that says
    /// so goes out under the old keys, the sending direction takes the keys
    /// derived from the secrets at once, and the receiving direction that is
    /// to take over is derived from them too. The session identifier is that
    /// of the secrets. The session fails, and is over, exactly where
    /// `switch_refused` names an error, and with that error.
    #[verifier::opaque]
    pub open spec fn switched(
        self,
        secrets: Secrets,
        later: Session,
        r: Result<(), Error>,
    ) -> bool {
        &&& later.follows(self)
        &&& later.inbound == self.inbound
        &&& later.pair.rx == self.pair.rx
        &&& later.held == self.held
        &&& starts_with(later.outbound@, self.outbound@)
        &&& grows(self.outbound@, later.outbound@)
        &&& match r {
                Ok(()) => {
                    let n = self.negotiated->0;
                    let client = self.role() == Role::Client;
                    &&& later.step == Step::Finishing
                    &&& later.state == self.state
                    &&& crate::crypto::seq_of(later.session_id) == Some(
                        secrets.session_id@,
                    )
                    &&& exists|padding: Seq<u8>|
                        {
                            &&& later.outbound@ == self.outbound@ + #[trigger] frame(
                                self.pair.tx@,
                                MessageView::NewKeys.encoded(),
                                padding,
                            )
                            &&& later.pair.tx@ == keyed_direction(
                                sending(n, client),
                                secrets.alg,
                                secrets.secret@,
                                secrets.hash@,
                                secrets.session_id@,
                                client,
                                after_frame(
                                    self.pair.tx@,
                                    MessageView::NewKeys.encoded(),
                                    padding,
                                ).seq,
                            )
                        }
                    &&& later.next_rx matches Some(next)
                    &&& next@ == keyed_direction(
                        sending(n, !client),
                        secrets.alg,
                        secrets.secret@,
                        secrets.hash@,
                        secrets.session_id@,
                        !client,
                        self.pair.rx.seq,
                    )
                },
                Err(e) => later.state == State::Disconnected,
            }
        &&& match self.switch_refused() {
                Some(e) => r is Err && r->Err_0 == e,
                None => r is Ok,
            }
    }

    /// Switches to the keys that come out of `secrets`.
    fn switch(&mut self, secrets: Secrets) -> (r: Result<(), Error>)
        requires
            old(self).wf(),
            old(self).step == Step::Exchanging,
            old(self).state != State::Disconnected && old(self).state != State::Banner,
            crate::crypto::seq_of(old(self).session_id) matches Some(id) ==> secrets.session_id@
                == id,
        ensures
            final(self).wf(),
            old(self).switched(secrets, *final(self), r),
            final(self).follows(*old(self)),
            final(self).inbound == old(self).inbound,
            r is Err ==> final(self).state == State::Disconnected,
            grows(old(self).outbound@, final(self).outbound@),
            final(self).pair.rx == old(self).pair.rx,
            final(self).held == old(self).held,
    {
        proof {
            reveal(Session::switched);
            lemma_starts_with_itself(self.outbound@);
        }
        let negotiated = match self.negotiated {
            Some(n) => n,
            None => {
                return Err(self.fail(Error::ProtocolViolation));
            },
        };
        match self.emit(&Message::NewKeys) {
            Ok(()) => {},
            Err(e) => {
                return Err(self.fail(e));
            },
        }
        let client = match self.side.role() {
            Role::Client => true,
            Role::Server => false,
        };
        let pair = secrets.pair(&negotiated, client, &self.pair);
        if !(pair.tx.compress == crate::algorithm::Compress::Null) {
            return Err(self.fail(Error::NoCommonCompression));
        }
        self.pair.tx = pair.tx;
        self.next_rx = Some(pair.rx);
        self.session_id = Some(secrets.session_id);
        self.step = Step::Finishing;
        Ok(())
    }

    /// What the client's request for a group comes to: where the request can be
    /// read and the client accepts the size of group 14, the server proposes
    /// that group and remembers what goes into the exchange hash, unless the
    /// proposal is too long to be sent, which is `InvalidLength`; else the
    /// session fails with `ProtocolViolation`.
    #[verifier::opaque]
    pub open spec fn group_requested(
        self,
        payload: Vec<u8>,
        later: Session,
        r: Result<(), Error>,
    ) -> bool {
        &&& later.follows(self)
        &&& later.inbound == self.inbound
        &&& later.pair.rx == self.pair.rx
        &&& later.held == self.held
        &&& starts_with(later.outbound@, self.outbound@)
        &&& grows(self.outbound@, later.outbound@)
        &&& match gex::requested(payload@) {
                Some(sizes) => match gex::offered(sizes) {
                    Some(group) => if group.prime.len() >= u32::MAX || group.generator.len()
                        >= u32::MAX || self.too_long(
                        gex::group_payload(
                            crate::wire::mpint_body(group.prime),
                            crate::wire::mpint_body(group.generator),
                        ).len(),
                    ) {
                        r is Err && r->Err_0 == Error::InvalidLength
                    } else {
                        let prime = crate::wire::mpint_body(group.prime);
                        let generator = crate::wire::mpint_body(group.generator);
                        &&& r is Ok
                        &&& later.step == Step::Exchanging
                        &&& later.state == self.state
                        &&& later.sizes == sizes
                        &&& later.group matches Some(g) && g@ == group
                        &&& later.prelude@ == gex::prelude(sizes, prime, generator)
                        &&& later.emitted_payload(
                            self,
                            gex::group_payload(prime, generator),
                        )
                        &&& later.negotiated == self.negotiated
                        &&& later.session_id == self.session_id
                    },
                    None => r is Err && r->Err_0 == Error::ProtocolViolation,
                },
                None => r is Err && r->Err_0 == Error::ProtocolViolation,
            }
        &&& r is Err ==> later.state == State::Disconnected
    }

    /// The client's request for a group has come.
    fn on_group_request(&mut self, payload: Vec<u8>) -> (r: Result<(), Error>)
        requires
            old(self).wf(),
            old(self).step == Step::Requesting,
            old(self).role() == Role::Server,
            old(self).state != State::Disconnected && old(self).state != State::Banner,
        ensures
            final(self).wf(),
            old(self).group_requested(payload, *final(self), r),
            final(self).follows(*old(self)),
            final(self).inbound == old(self).inbound,
            r is Err ==> final(self).state == State::Disconnected,
            grows(old(self).outbound@, final(self).outbound@),
            final(self).pair.rx == old(self).pair.rx,
            final(self).held == old(self).held,
    {
        proof {
            reveal(Session::group_requested);
            lemma_starts_with_itself(self.outbound@);
        }
        let sizes = match gex::parse_request(payload.as_slice()) {
            Some(s) => s,
            None => {
                return Err(self.fail(Error::ProtocolViolation));
            },
        };
        let group = match gex::offer(sizes) {
            Some(g) => g,
            None => {
                return Err(self.fail(Error::ProtocolViolation));
            },
        };
        if group.prime.len() >= u32::MAX as usize || group.generator.len() >= u32::MAX as usize {
            return Err(self.fail(Error::InvalidLength));
        }
        let (proposal, prime, generator) = gex::propose(&group);
        match self.emit_payload(proposal.as_slice()) {
            Ok(()) => {},
            Err(e) => {
                return Err(self.fail(e));
            },
        }
        self.sizes = sizes;
        self.prelude = gex::prelude_of(sizes, prime.as_slice(), generator.as_slice());
        self.group = Some(group);
        self.step = Step::Exchanging;
        Ok(())
    }

    /// What the server's proposal of a group comes to: where the proposal can be
    /// read and the client takes the group, the client sends its public key in
    /// it and remembers what goes into the exchange hash; else the session
    /// fails with `ProtocolViolation`.
    #[verifier::opaque]
    pub open spec fn group_proposed(
        self,
        payload: Vec<u8>,
        later: Session,
        r: Result<(), Error>,
    ) -> bool {
        &&& later.follows(self)
        &&& later.inbound == self.inbound
        &&& later.pair.rx == self.pair.rx
        &&& later.held == self.held
        &&& starts_with(later.outbound@, self.outbound@)
        &&& grows(self.outbound@, later.outbound@)
        &&& match gex::proposed(payload@) {
                Some((prime, generator)) => match gex::accepted(self.sizes, prime, generator) {
                    Some(group) => r is Ok ==> {
                        &&& later.step == Step::Exchanging
                        &&& later.state == self.state
                        &&& later.sizes == self.sizes
                        &&& later.group matches Some(g) && g@ == group
                        &&& later.prelude@ == gex::prelude(self.sizes, prime, generator)
                        &&& group.public(later.secret@) matches Some(e)
                        &&& later.emitted_payload(
                            self,
                            seq![gex::GEX_INIT] + crate::wire::string_bytes(e),
                        )
                        &&& later.negotiated == self.negotiated
                        &&& later.session_id == self.session_id
                    },
                    None => r is Err && r->Err_0 == Error::ProtocolViolation,
                },
                None => r is Err && r->Err_0 == Error::ProtocolViolation,
            }
        &&& r is Err ==> later.state == State::Disconnected
    }

    /// The server's proposal of a group has come.
    fn on_group_proposal(&mut self, payload: Vec<u8>) -> (r: Result<(), Error>)
        requires
            old(self).wf(),
            old(self).step == Step::Requesting,
            old(self).role() == Role::Client,
            old(self).state != State::Disconnected && old(self).state != State::Banner,
        ensures
            final(self).wf(),
            old(self).group_proposed(payload, *final(self), r),
            final(self).follows(*old(self)),
            final(self).inbound == old(self).inbound,
            r is Err ==> final(self).state == State::Disconnected,
            grows(old(self).outbound@, final(self).outbound@),
            final(self).pair.rx == old(self).pair.rx,
            final(self).held == old(self).held,
    {
        proof {
            reveal(Session::group_proposed);
            lemma_starts_with_itself(self.outbound@);
        }
        let (prime, generator) = match gex::parse_group(payload.as_slice()) {
            Some(g) => g,
            None => {
                return Err(self.fail(Error::ProtocolViolation));
            },
        };
        if prime.len() > u32::MAX as usize || generator.len() > u32::MAX as usize {
            return Err(self.fail(Error::InvalidLength));
        }
        let prelude = gex::prelude_of(self.sizes, prime.as_slice(), generator.as_slice());
        let group = match gex::accept(self.sizes, prime, generator) {
            Some(g) => g,
            None => {
                return Err(self.fail(Error::ProtocolViolation));
            },
        };
        let secret = ephemeral_secret(Kex::DiffieHellmanGroupExchangeSha256);
        let e = match group.public_key(secret.as_slice()) {
            Some(e) => e,
            None => {
                return Err(self.fail(Error::InvalidLength));
            },
        };
        if e.len() > u32::MAX as usize {
            return Err(self.fail(Error::InvalidLength));
        }
        let mut init: Vec<u8> = Vec::new();
        init.push(gex::GEX_INIT);
        crate::wire::put_string(&mut init, e.as_slice());
        match self.emit_payload(init.as_slice()) {
            Ok(()) => {},
            Err(e) => {
                return Err(self.fail(e));
            },
        }
        self.secret = secret;
        self.prelude = prelude;
        self.group = Some(group);
        self.step = Step::Exchanging;
        Ok(())
    }

    /// Whether the server's answer with the payload `payload` went out
    /// between this session and `later`, and after it the message that the
    /// server switches to the new keys, with nothing else.
    pub open spec fn replied(self, payload: Seq<u8>, later: Session) -> bool {
        exists|mid: Session, padding: Seq<u8>|
            {
                &&& #[trigger] mid.emitted_payload(self, payload)
                &&& later.outbound@ == mid.outbound@ + #[trigger] frame(
                    mid.pair.tx@,
                    MessageView::NewKeys.encoded(),
                    padding,
                )
            }
    }

    /// What the client's ephemeral public key comes to: for some ephemeral
    /// secret and some signature with which the server's answer is the one that
    /// `server_outcome` describes, under a host key of the negotiated
    /// algorithm, that answer goes out, then the message that the server
    /// switches to the new keys, and the keys of both directions are those
    /// derived from that outcome. Else the session fails.
    #[verifier::opaque]
    pub open spec fn answered(
        self,
        client_public: Vec<u8>,
        later: Session,
        r: Result<(), Error>,
    ) -> bool {
        &&& later.follows(self)
        &&& later.inbound == self.inbound
        &&& later.pair.rx == self.pair.rx
        &&& later.held == self.held
        &&& starts_with(later.outbound@, self.outbound@)
        &&& grows(self.outbound@, later.outbound@)
        &&& match r {
                Ok(()) => {
                    let n = self.negotiated->0;
                    &&& later.step == Step::Finishing
                    &&& later.state == self.state
                    &&& exists|host: Seq<u8>, secret: Seq<u8>, signature: Seq<u8>|
                        {
                            &&& self.side matches Side::Server(server)
                            &&& exists|i: int|
                                0 <= i < server.keys@.len() && (#[trigger] server.keys@[i]).0 == n.key
                                    && server.keys@[i].1.public@ == host
                            &&& (#[trigger] server_outcome(
                                self.spec_context(),
                                secret,
                                host,
                                client_public@,
                                signature,
                            )) matches Ok((reply, k, h, id))
                            &&& self.replied(
                                if self.spec_context().group is Some {
                                    reply.encoded().update(0, gex::GEX_REPLY)
                                } else {
                                    reply.encoded()
                                },
                                later,
                            )
                            &&& crate::crypto::seq_of(later.session_id) == Some(id)
                            &&& later.next_rx matches Some(next)
                            &&& next@ == keyed_direction(
                                n.client_to_server,
                                self.spec_context().kex.spec_hash(),
                                k,
                                h,
                                id,
                                true,
                                self.pair.rx.seq,
                            )
                            &&& later.pair.tx@ == keyed_direction(
                                n.server_to_client,
                                self.spec_context().kex.spec_hash(),
                                k,
                                h,
                                id,
                                false,
                                later.pair.tx.seq,
                            )
                        }
                },
                Err(e) => later.state == State::Disconnected,
            }
    }

    /// The client's ephemeral public key has come.
    fn on_exchange_init(&mut self, client_public: Vec<u8>) -> (r: Result<(), Error>)
        requires
            old(self).wf(),
            old(self).step == Step::Exchanging,
            old(self).role() == Role::Server,
            old(self).state != State::Disconnected && old(self).state != State::Banner,
        ensures
            final(self).wf(),
            old(self).answered(client_public, *final(self), r),
            final(self).follows(*old(self)),
            final(self).inbound == old(self).inbound,
            r is Err ==> final(self).state == State::Disconnected,
            grows(old(self).outbound@, final(self).outbound@),
            final(self).pair.rx == old(self).pair.rx,
            final(self).held == old(self).held,
    {
        proof {
            reveal(Session::answered);
            reveal(Session::switched);
            lemma_starts_with_itself(self.outbound@);
        }
        let context = self.context();
        let key = match self.negotiated {
            Some(n) => n.key,
            None => {
                return Err(self.fail(Error::ProtocolViolation));
            },
        };
        let ghost ctx = self.spec_context();
        let ghost mut host_public: Seq<u8> = Seq::empty();
        let answer = match &self.side {
            Side::Client(_) => Err(Error::ProtocolViolation),
            Side::Server(server) => match server.host_key(key) {
                None => Err(Error::NoCommonKey),
                Some(host) => if host.public.len() > u32::MAX as usize {
                    Err(Error::NoCommonKey)
                } else {
                    proof {
                        host_public = host.public@;
                    }
                    server_reply(&context, host, client_public.as_slice())
                },
            },
        };
        let (reply, secrets) = match answer {
            Ok(a) => a,
            Err(e) => {
                return Err(self.fail(e));
            },
        };
        let ghost (secret, signature) = choose|secret: Seq<u8>, signature: Seq<u8>|
            {
                &&& (#[trigger] server_outcome(ctx, secret, host_public, client_public@, signature))
                    matches Ok((m, k, h, id))
                &&& reply@ == m
                &&& secrets.secret@ == k
                &&& secrets.hash@ == h
                &&& secrets.session_id@ == id
            };
        if !message_fits(&reply) {
            return Err(self.fail(Error::ProtocolViolation));
        }
        let mut answer = reply.encode();
        if context.group.is_some() {
            answer.set(0, gex::GEX_REPLY);
        }
        match self.emit_payload(answer.as_slice()) {
            Ok(()) => {},
            Err(e) => {
                return Err(self.fail(e));
            },
        }
        if !same_id(&self.session_id, &secrets.session_id) {
            return Err(self.fail(Error::ProtocolViolation));
        }
        let ghost mid = *self;
        let r = self.switch(secrets);
        proof {
            if r is Ok {
                assert(server_outcome(ctx, secret, host_public, client_public@, signature) is Ok);
                assert(mid.emitted_payload(*old(self), answer@));
                let padding = choose|padding: Seq<u8>|
                    self.outbound@ == mid.outbound@ + #[trigger] frame(
                        mid.pair.tx@,
                        MessageView::NewKeys.encoded(),
                        padding,
                    );
                assert(old(self).replied(answer@, *self));
            }
        }
        r
    }

    /// The error for which the client cannot finish the key exchange on the
    /// server's answer, if there is one: `ProtocolViolation` where the host
    /// key is too long for a length prefix; the error of `client_outcome`
    /// where it gives one; `ProtocolViolation` where the session has an
    /// identifier and the exchange gives another; and else what
    /// `switch_refused` says.
    pub open spec fn finish_refused(
        self,
        host_key: Seq<u8>,
        server_public: Seq<u8>,
        signature: Seq<u8>,
    ) -> Option<Error> {
        if host_key.len() > u32::MAX {
            Some(Error::ProtocolViolation)
        } else {
            match client_outcome(self.spec_context(), self.secret@, host_key, server_public, signature) {
                Err(e) => Some(e),
                Ok((k, h, id)) => if self.session_id matches Some(held) && held@ != id {
                    Some(Error::ProtocolViolation)
                } else {
                    self.switch_refused()
                },
            }
        }
    }

    /// What the server's answer comes to: where `client_outcome` gives secrets,
    /// the message that says so goes out and the keys of both directions are
    /// those derived from them; where it gives an error, the session fails
    /// with that error. The session fails, and is over, exactly where
    /// `finish_refused` names an error, and with that error.
    #[verifier::opaque]
    pub open spec fn finished(
        self,
        host_key: Vec<u8>,
        server_public: Vec<u8>,
        signature: Vec<u8>,
        later: Session,
        r: Result<(), Error>,
    ) -> bool {
        &&& later.follows(self)
        &&& later.inbound == self.inbound
        &&& later.pair.rx == self.pair.rx
        &&& later.held == self.held
        &&& starts_with(later.outbound@, self.outbound@)
        &&& grows(self.outbound@, later.outbound@)
        &&& match client_outcome(
                self.spec_context(),
                self.secret@,
                host_key@,
                server_public@,
                signature@,
            ) {
                Ok((k, h, id)) => r is Ok ==> {
                    let n = self.negotiated->0;
                    &&& later.step == Step::Finishing
                    &&& later.state == self.state
                    &&& crate::crypto::seq_of(later.session_id) == Some(id)
                    &&& later.next_rx matches Some(next)
                    &&& next@ == keyed_direction(
                        n.server_to_client,
                        self.spec_context().kex.spec_hash(),
                        k,
                        h,
                        id,
                        false,
                        self.pair.rx.seq,
                    )
                    &&& later.pair.tx@ == keyed_direction(
                        n.client_to_server,
                        self.spec_context().kex.spec_hash(),
                        k,
                        h,
                        id,
                        true,
                        later.pair.tx.seq,
                    )
                    &&& exists|padding: Seq<u8>|
                        {
                            &&& later.outbound@ == self.outbound@ + #[trigger] frame(
                                self.pair.tx@,
                                MessageView::NewKeys.encoded(),
                                padding,
                            )
                            &&& later.pair.tx@.seq == after_frame(
                                self.pair.tx@,
                                MessageView::NewKeys.encoded(),
                                padding,
                            ).seq
                        }
                },
                Err(e) => host_key@.len() <= u32::MAX ==> r is Err && r->Err_0 == e,
            }
        &&& r is Err ==> later.state == State::Disconnected
        &&& match self.finish_refused(host_key@, server_public@, signature@) {
                Some(e) => r is Err && r->Err_0 == e,
                None => r is Ok,
            }
    }

    /// The server's answer has come.
    fn on_exchange_reply(&mut self, host_key: Vec<u8>, server_public: Vec<u8>, signature: Vec<u8>) -> (r:
        Result<(), Error>)
        requires
            old(self).wf(),
            old(self).step == Step::Exchanging,
            old(self).role() == Role::Client,
            old(self).state != State::Disconnected && old(self).state != State::Banner,
        ensures
            final(self).wf(),
            old(self).finished(host_key, server_public, signature, *final(self), r),
            final(self).follows(*old(self)),
            final(self).inbound == old(self).inbound,
            r is Err ==> final(self).state == State::Disconnected,
            grows(old(self).outbound@, final(self).outbound@),
            final(self).pair.rx == old(self).pair.rx,
            final(self).held == old(self).held,
    {
        proof {
            reveal(Session::finished);
            reveal(Session::switched);
            lemma_starts_with_itself(self.outbound@);
        }
        if host_key.len() > u32::MAX as usize {
            return Err(self.fail(Error::ProtocolViolation));
        }
        let context = self.context();
        let secrets = match client_finish(
            &context,
            self.secret.as_slice(),
            host_key.as_slice(),
            server_public.as_slice(),
            signature.as_slice(),
        ) {
            Ok(s) => s,
            Err(e) => {
                return Err(self.fail(e));
            },
        };
        if !same_id(&self.session_id, &secrets.session_id) {
            return Err(self.fail(Error::ProtocolViolation));
        }
        self.switch(secrets)
    }

    /// Whether one of the messages that are held back is too long for a
    /// packet.
    pub open spec fn holds_too_long(self) -> bool {
        exists|i: int|
            0 <= i < self.held@.len() && self.too_long((#[trigger] self.held@[i])@.encoded().len())
    }

    /// What the peer's switching to the new keys comes to: the receiving
    /// direction takes the keys that were waiting and keeps its sequence
    /// number, the key exchange is done, messages flow again, and the
    /// messages that were held back go out under the new keys, in their
    /// order, so that nothing is held back any more. The session fails with
    /// `InvalidLength`, and is over, exactly where one of them is too long
    /// for a packet.
    #[verifier::opaque]
    pub open spec fn keys_taken(self, now: u64, later: Session, r: Result<(), Error>) -> bool {
        &&& later.follows(self)
        &&& later.inbound == self.inbound
        &&& match r {
                Ok(()) => {
                    &&& later.step == Step::Idle
                    &&& later.state == State::Serviceable
                    &&& self.next_rx matches Some(next) && later.pair.rx@ == (Direction {
                        seq: self.pair.rx.seq,
                        ..next@
                    })
                    &&& later.held@.len() == 0
                    &&& later.since == now
                    &&& flushed(
                        self.outbound@,
                        self.pair.tx@,
                        self.held@,
                        later.outbound@,
                        later.pair.tx@,
                    )
                },
                Err(e) => later.state == State::Disconnected && e == Error::InvalidLength,
            }
        &&& r is Err <==> self.holds_too_long()
    }

    /// The peer has switched to the new keys.
    fn on_new_keys(&mut self, now: u64) -> (r: Result<(), Error>)
        requires
            old(self).wf(),
            old(self).step == Step::Finishing,
            old(self).state != State::Disconnected && old(self).state != State::Banner,
        ensures
            final(self).wf(),
            old(self).keys_taken(now, *final(self), r),
            final(self).follows(*old(self)),
            final(self).inbound == old(self).inbound,
            r is Err ==> final(self).state == State::Disconnected,
    {
        proof {
            reveal(Session::keys_taken);
        }
        let mut next: Option<crate::transport::Transport> = None;
        std::mem::swap(&mut next, &mut self.next_rx);
        match next {
            Some(rx) => {
                let seq = self.pair.rx.seq;
                self.pair.rx = rx;
                self.pair.rx.seq = seq;
            },
            None => {
                return Err(self.fail(Error::ProtocolViolation));
            },
        }
        self.step = Step::Idle;
        self.state = State::Serviceable;
        self.own_proposal = None;
        self.negotiated = None;
        self.secret = Vec::new();
        self.group = None;
        self.prelude = Vec::new();
        self.sent = Traffic::new();
        self.received = Traffic::new();
        self.since = now;
        let mut held: Vec<Message> = Vec::new();
        std::mem::swap(&mut held, &mut self.held);
        let mut i: usize = 0;
        let ghost mut paddings: Seq<Seq<u8>> = Seq::empty();
        proof {
            assert(held@.take(0) =~= Seq::<Message>::empty());
        }
        while i < held.len()
            invariant
                i <= held@.len(),
                held@ == old(self).held@,
                old(self).wf(),
                self.wf(),
                self.follows(*old(self)),
                self.inbound == old(self).inbound,
                self.step == Step::Idle,
                self.state == State::Serviceable,
                old(self).next_rx matches Some(next) && self.pair.rx@ == (Direction {
                    seq: old(self).pair.rx.seq,
                    ..next@
                }),
                self.held@.len() == 0,
                self.since == now,
                self.cap == old(self).cap,
                self.pair.tx@.cipher == old(self).pair.tx@.cipher,
                self.pair.tx@.hmac == old(self).pair.tx@.hmac,
                forall|j: int|
                    0 <= j < i ==> !old(self).too_long((#[trigger] held@[j])@.encoded().len()),
                paddings.len() == i,
                flushed_with(
                    old(self).outbound@,
                    old(self).pair.tx@,
                    held@.take(i as int),
                    paddings,
                ) == (self.outbound@, self.pair.tx@),
            decreases held@.len() - i,
        {
            proof {
                reveal(Session::keys_taken);
            }
            let ghost mid = *self;
            match self.emit(&held[i]) {
                Ok(()) => {},
                Err(e) => {
                    assert(old(self).too_long(held@[i as int]@.encoded().len()));
                    return Err(self.fail(e));
                },
            }
            proof {
                let payload = held@[i as int]@.encoded();
                let padding = choose|padding: Seq<u8>|
                    {
                        &&& self.outbound@ == mid.outbound@ + #[trigger] frame(
                            mid.pair.tx@,
                            payload,
                            padding,
                        )
                        &&& self.pair.tx@ == after_frame(mid.pair.tx@, payload, padding)
                    };
                let sent = held@.take(i + 1);
                assert(sent.drop_last() =~= held@.take(i as int));
                assert(sent.last() == held@[i as int]);
                assert(paddings.push(padding).drop_last() =~= paddings);
                paddings = paddings.push(padding);
            }
            i += 1;
        }
        proof {
            assert(held@.take(i as int) =~= held@);
        }
        Ok(())
    }
}

impl Session {
    /// What the bytes that came from the peer hold at their start: the payload
    /// of a frame, the size of that frame and the receiving direction after
    /// it, or the reason why there is none.
    pub open spec fn incoming(self) -> Result<(Seq<u8>, nat, Direction), Error> {
        parsed(self.pair.rx@, self.inbound@, self.cap as nat)
    }

    /// The error that a session that is over answers every call with.
    fn closed(&self) -> (r: Error)
        ensures
            r is Disconnected,
            r->Disconnected_reason == match self.reason {
                Some(why) => why.0,
                None => DisconnectReason::ConnectionLost,
            },
            r->Disconnected_description@ == match self.reason {
                Some(why) => why.1@,
                None => Seq::<u8>::empty(),
            },
    {
        match &self.reason {
            Some((reason, description)) => {
                let copy = copy_range(description.as_slice(), 0, description.len());
                assert(copy@ =~= description@);
                Error::Disconnected { reason: *reason, description: copy }
            },
            None => Error::Disconnected {
                reason: DisconnectReason::ConnectionLost,
                description: Vec::new(),
            },
        }
    }

    /// What taking the next frame off the bytes that came comes to: where the
    /// bytes hold a frame, its payload is given, the bytes of the frame are
    /// gone, the receiving direction has moved on, and the packet is counted;
    /// else nothing changes, and the error of the codec is given unless it is
    /// that the bytes end too soon.
    pub open spec fn frame_taken(self, later: Session, r: Result<Option<Vec<u8>>, Error>) -> bool {
        &&& match self.incoming() {
                Ok((payload, size, after)) => {
                    &&& r matches Ok(Some(p))
                    &&& p@ == payload
                    &&& later.inbound@ == self.inbound@.skip(size as int)
                    &&& later.pair.rx@ == after
                    &&& later.received == self.received.plus(payload.len())
                    &&& later == (Session {
                        inbound: later.inbound,
                        pair: later.pair,
                        received: later.received,
                        ..self
                    })
                    &&& later.pair.tx == self.pair.tx
                },
                Err(e) => {
                    &&& later == self
                    &&& if e == Error::ShortRead {
                        r matches Ok(None)
                    } else {
                        r is Err && r->Err_0 == e
                    }
                },
            }
    }

    /// Takes the next frame off the bytes that came from the peer.
    fn take_frame(&mut self) -> (r: Result<Option<Vec<u8>>, Error>)
        requires
            old(self).wf(),
        ensures
            final(self).wf(),
            old(self).frame_taken(*final(self), r),
    {
        match decode(self.inbound.as_slice(), &mut self.pair.rx, self.cap) {
            Ok((payload, size)) => {
                let rest = copy_range(self.inbound.as_slice(), size, self.inbound.len());
                assert(rest@ =~= self.inbound@.skip(size as int));
                self.inbound = rest;
                self.received.count(payload.len());
                Ok(Some(payload))
            },
            Err(Error::ShortRead) => Ok(None),
            Err(e) => Err(e),
        }
    }

    /// What looking for the peer's identification comes to: nothing while its
    /// line is not complete; failure where the line holds no identification;
    /// and else the identification is kept, its bytes are gone, and the first
    /// key exchange starts.
    pub open spec fn peer_identified(self, later: Session, r: Result<Poll, Error>) -> bool {
        &&& later.follows(self)
        &&& match identified(self.inbound@) {
                Ok(None) => r matches Ok(Poll::Pending) && later == self,
                Ok(Some((id, size))) => {
                    &&& later.inbound@ == self.inbound@.skip(size as int)
                    &&& (later.peer_id matches Some(p) && p@ == id)
                    &&& match r {
                        Ok(p) => p is Progress && later.state == State::KexInitial
                            && later.step == Step::Proposed,
                        Err(e) => e == Error::KexinitInvalid && later.state
                            == State::Disconnected,
                    }
                },
                Err(e) => r is Err && r->Err_0 == e && later.state == State::Disconnected,
            }
    }

    /// Looks for the peer's identification in the bytes that came.
    fn poll_banner(&mut self) -> (r: Result<Poll, Error>)
        requires
            old(self).wf(),
            old(self).state == State::Banner,
        ensures
            final(self).wf(),
            old(self).peer_identified(*final(self), r),
    {
        proof {
            reveal(Session::begun);
        }
        match identify(self.inbound.as_slice()) {
            Err(e) => Err(self.fail(e)),
            Ok(None) => Ok(Poll::Pending),
            Ok(Some((id, size))) => {
                let rest = copy_range(self.inbound.as_slice(), size, self.inbound.len());
                assert(rest@ =~= self.inbound@.skip(size as int));
                self.inbound = rest;
                match self.begin(State::KexInitial, Some(id)) {
                    Ok(()) => Ok(Poll::Progress),
                    Err(e) => Err(e),
                }
            },
        }
    }

    /// What a message of the key exchange comes to, by the way `way` that it
    /// goes: the step of the key exchange that the message calls for, on what
    /// the message carries; where it cannot be read, the session fails.
    #[verifier::opaque]
    pub open spec fn exchanged(
        self,
        way: Route,
        payload: Vec<u8>,
        now: u64,
        later: Session,
        r: Result<(), Error>,
    ) -> bool {
        match way {
            Route::NewKeys => self.keys_taken(now, later, r),
            Route::GroupRequest => self.group_requested(payload, later, r),
            Route::GroupProposal => self.group_proposed(payload, later, r),
            Route::Proposal => match carried_proposal(payload@) {
                Some(proposal) => exists|peer: KexInit|
                    peer@ == proposal && #[trigger] self.proposed(peer, payload, later, r),
                None => r is Err,
            },
            Route::ExchangeInit => match carried_public(self.gex(), payload@) {
                Some(q) => exists|client_public: Vec<u8>|
                    client_public@ == q && #[trigger] self.answered(client_public, later, r),
                None => r is Err,
            },
            Route::ExchangeReply => match carried_answer(self.gex(), payload@) {
                Some((k, q, g)) => exists|host_key: Vec<u8>, server_public: Vec<u8>, signature: Vec<u8>|
                    host_key@ == k && server_public@ == q && signature@ == g
                        && #[trigger] self.finished(host_key, server_public, signature, later, r),
                None => r is Err,
            },
            _ => true,
        }
    }

    /// What the payload of a frame that came from the peer comes to, by the
    /// way it goes: an unexpected message fails the session; a message that is
    /// taken in, and a packet sent on a wrong guess, change nothing else; a
    /// message for the caller is handed over as it was decoded; a disconnect
    /// ends the session with the peer's reason; a message that is not
    /// understood is answered with the sequence number of its packet; and a
    /// message of the key exchange takes the key exchange one step further.
    pub open spec fn dispatched(
        self,
        payload: Vec<u8>,
        seq: u32,
        now: u64,
        later: Session,
        r: Result<Poll, Error>,
    ) -> bool {
        let way = routed(
            self.role(),
            self.state,
            self.step,
            self.discard,
            self.gex(),
            payload@[0],
        );
        &&& later.follows(self)
        &&& later.inbound == self.inbound
        &&& r is Err ==> later.state == State::Disconnected
        &&& way != Route::NewKeys ==> later.pair.rx == self.pair.rx
        &&& r is Ok && way != Route::Deliver ==> (r matches Ok(Poll::Progress))
        &&& match way {
            Route::Unexpected => r is Err && r->Err_0 == Error::UnexpectedMessage,
            Route::Consume => (r matches Ok(Poll::Progress)) && later == self,
            Route::Discard => (r matches Ok(Poll::Progress)) && later == (Session {
                discard: false,
                ..self
            }),
            Route::Deliver => match decoded(payload@) {
                Some(m) => (r matches Ok(Poll::Message(got)) && got@ == m) && later == self,
                None => r is Err,
            },
            Route::Disconnect => r is Err && (decoded(payload@) matches Some(
                MessageView::Disconnect { reason, description, .. },
            ) ==> (r->Err_0 matches Error::Disconnected { reason: why, description: what } && why
                == reason && what@ == description)),
            Route::Refuse => r is Ok ==> later.emitted(self, MessageView::Unimplemented { seq }),
            _ => self.exchanged(way, payload, now, later, progress(r)),
        }
    }

    /// Takes the key exchange one step further on a message of the key
    /// exchange that goes the way `way`.
    fn exchange(&mut self, way: Route, payload: Vec<u8>, now: u64) -> (r: Result<(), Error>)
        requires
            old(self).wf(),
            old(self).state != State::Banner && old(self).state != State::Disconnected,
            payload@.len() > 0,
            payload@.len() <= u32::MAX,
            way == routed(
                old(self).role(),
                old(self).state,
                old(self).step,
                old(self).discard,
                old(self).gex(),
                payload@[0],
            ),
            way == Route::NewKeys || way == Route::GroupRequest || way == Route::GroupProposal || way
                == Route::Proposal || way == Route::ExchangeInit || way == Route::ExchangeReply,
        ensures
            final(self).wf(),
            final(self).follows(*old(self)),
            final(self).inbound == old(self).inbound,
            r is Err ==> final(self).state == State::Disconnected,
            way != Route::NewKeys ==> final(self).pair.rx == old(self).pair.rx,
            old(self).exchanged(way, payload, now, *final(self), r),
    {
        proof {
            reveal(Session::exchanged);
        }
        let gex = match &self.negotiated {
            Some(n) => n.kex == Kex::DiffieHellmanGroupExchangeSha256,
            None => false,
        };
        match way {
            Route::NewKeys => self.on_new_keys(now),
            Route::GroupRequest => self.on_group_request(payload),
            Route::GroupProposal => self.on_group_proposal(payload),
            Route::Proposal => match read_proposal(payload.as_slice()) {
                Some(peer) => {
                    let ghost given = peer;
                    let r = self.on_proposal(peer, payload);
                    assert(old(self).proposed(given, payload, *self, r));
                    r
                },
                None => Err(self.fail(Error::KexinitInvalid)),
            },
            Route::ExchangeInit => match read_public(gex, payload.as_slice()) {
                Some(public) => {
                    let ghost given = public;
                    let r = self.on_exchange_init(public);
                    assert(old(self).answered(given, *self, r));
                    r
                },
                None => Err(self.fail(Error::ProtocolViolation)),
            },
            _ => match read_answer(gex, payload.as_slice()) {
                Some((host_key, public, signature)) => {
                    let ghost (k, q, g) = (host_key, public, signature);
                    let r = self.on_exchange_reply(host_key, public, signature);
                    assert(old(self).finished(k, q, g, *self, r));
                    r
                },
                None => Err(self.fail(Error::ProtocolViolation)),
            },
        }
    }

    /// Does what the payload `payload` of a frame that came from the peer
    /// calls for, as its number and the state of the session have it.
    fn dispatch(&mut self, payload: Vec<u8>, seq: u32, now: u64) -> (r: Result<Poll, Error>)
        requires
            old(self).wf(),
            old(self).state != State::Banner && old(self).state != State::Disconnected,
            payload@.len() > 0,
            payload@.len() <= u32::MAX,
        ensures
            final(self).wf(),
            old(self).dispatched(payload, seq, now, *final(self), r),
    {
        let number = payload[0];
        let gex = match &self.negotiated {
            Some(n) => n.kex == Kex::DiffieHellmanGroupExchangeSha256,
            None => false,
        };
        let way = route(self.side.role(), self.state, self.step, self.discard, gex, number);
        match way {
            Route::Unexpected => Err(self.fail(Error::UnexpectedMessage)),
            Route::Consume => Ok(Poll::Progress),
            Route::Discard => {
                self.discard = false;
                Ok(Poll::Progress)
            },
            Route::Refuse => {
                match self.emit(&Message::Unimplemented { seq }) {
                    Ok(()) => Ok(Poll::Progress),
                    Err(e) => Err(self.fail(e)),
                }
            },
            Route::Deliver => match Message::decode(payload.as_slice()) {
                Ok(m) => Ok(Poll::Message(m)),
                Err(e) => Err(self.fail(e)),
            },
            Route::Disconnect => match Message::decode(payload.as_slice()) {
                Ok(Message::Disconnect { reason, description, language }) => {
                    let copy = copy_range(description.as_slice(), 0, description.len());
                    assert(copy@ =~= description@);
                    self.state = State::Disconnected;
                    self.step = Step::Idle;
                    self.next_rx = None;
                    self.reason = Some((reason, copy));
                    Err(Error::Disconnected { reason, description })
                },
                Ok(_) => Err(self.fail(Error::ProtocolViolation)),
                Err(e) => Err(self.fail(e)),
            },
            _ => {
                let ghost given = payload;
                let done = self.exchange(way, payload, now);
                let r = match done {
                    Ok(()) => Ok(Poll::Progress),
                    Err(e) => Err(e),
                };
                proof {
                    lemma_same_outcome(progress(r), done);
                }
                assert(old(self).exchanged(way, given, now, *self, progress(r)));
                r
            },
        }
    }

    /// Starts a key exchange where the keys have carried their limit of bytes
    /// or packets or are as old as their interval, and none is running.
    fn renew(&mut self, now: u64)
        requires
            old(self).wf(),
        ensures
            final(self).wf(),
            old(self).renewed(now, *final(self)),
            final(self).follows(*old(self)),
            final(self).inbound == old(self).inbound,
            final(self).pair.rx == old(self).pair.rx,
            final(self).held == old(self).held,
            starts_with(final(self).outbound@, old(self).outbound@),
            grows(old(self).outbound@, final(self).outbound@),
            !old(self).renewal_due(now) ==> *final(self) == *old(self),
            old(self).renewal_due(now) ==> final(self).state == State::KexRekey || final(self).state
                == State::Disconnected,
    {
        proof {
            reveal(Session::begun);
            lemma_starts_with_itself(self.outbound@);
        }
        if self.state == State::Serviceable && is_due(
            self.sent,
            self.received,
            self.side.limits(),
            self.since,
            now,
        ) {
            let r = self.begin(State::KexRekey, None);
            assert(old(self).begun(State::KexRekey, None, *self, r));
        } else {
            assert(self.outbound@.take(self.outbound@.len() as int) =~= self.outbound@);
        }
    }

    /// What looking whether new keys are due comes to: nothing, unless they
    /// are; where they are, a key exchange starts.
    pub open spec fn renewed(self, now: u64, later: Session) -> bool {
        if self.renewal_due(now) {
            exists|r: Result<(), Error>| #[trigger] self.begun(State::KexRekey, None, later, r)
        } else {
            later == self
        }
    }

    /// Whether a key exchange is to start at the time `now`: messages flow,
    /// and the keys have carried their limit or are as old as their interval.
    pub open spec fn renewal_due(self, now: u64) -> bool {
        self.state == State::Serviceable && crate::session::rekey::due(
            self.sent,
            self.received,
            match self.side {
                Side::Client(c) => c.rekey,
                Side::Server(s) => s.rekey,
            },
            self.since,
            now,
        )
    }

    /// One step of the session at the time `now`, in seconds, on the bytes
    /// that came from the peer. `Pending` says that nothing can be done before
    /// more bytes have come, and nothing has changed. A message for the caller
    /// is the message of the next frame, where the state of the session lets
    /// it through. Messages of the transport itself are dealt with and give
    /// `Progress`. Every error ends the session, and a session that is over
    /// answers with `Disconnected` and the reason.
    pub fn poll(&mut self, now: u64) -> (r: Result<Poll, Error>)
        requires
            old(self).wf(),
        ensures
            final(self).wf(),
            final(self).follows(*old(self)),
            r is Err ==> final(self).state == State::Disconnected,
            old(self).state == State::Disconnected ==> r is Err && r->Err_0 is Disconnected
                && *final(self) == *old(self),
            r matches Ok(Poll::Pending) ==> *final(self) == *old(self) && if old(self).state
                == State::Banner {
                identified(old(self).inbound@) matches Ok(None)
            } else {
                old(self).incoming() matches Err(Error::ShortRead)
            },
            old(self).state == State::Banner ==> (match identified(old(self).inbound@) {
                Ok(None) => r matches Ok(Poll::Pending),
                Ok(Some((id, size))) => (final(self).peer_id matches Some(p) && p@ == id)
                    && final(self).inbound@ == old(self).inbound@.skip(size as int),
                Err(e) => r is Err && r->Err_0 == e,
            }),
            old(self).state != State::Banner && old(self).state != State::Disconnected ==> (
            match old(self).incoming() {
                Ok((payload, size, after)) => {
                    &&& final(self).inbound@ == old(self).inbound@.skip(size as int)
                    &&& payload.len() == 0 ==> r is Err && r->Err_0 == Error::ProtocolViolation
                    &&& 0 < payload.len() <= u32::MAX ==> exists|taken: Session, bytes: Vec<u8>, mid: Session|
                        {
                            &&& #[trigger] old(self).frame_taken(
                                taken,
                                Ok::<Option<Vec<u8>>, Error>(Some(bytes)),
                            )
                            &&& #[trigger] taken.dispatched(
                                bytes,
                                old(self).pair.rx.seq,
                                now,
                                mid,
                                r,
                            )
                            &&& if r is Ok {
                                mid.renewed(now, *final(self))
                            } else {
                                *final(self) == mid
                            }
                        }
                    &&& r matches Ok(Poll::Message(m)) ==> decoded(payload) == Some(m@)
                        && payload.len() > 0 && final(self).pair.rx@ == after && routed(
                        old(self).role(),
                        old(self).state,
                        old(self).step,
                        old(self).discard,
                        old(self).gex(),
                        payload[0],
                    ) == Route::Deliver
                },
                Err(e) => if e == Error::ShortRead {
                    r matches Ok(Poll::Pending)
                } else {
                    r is Err && r->Err_0 == e && (final(self).reason matches Some(why) && why.0
                        == reason_for(e))
                },
            }),
    {
        match self.state {
            State::Disconnected => Err(self.closed()),
            State::Banner => self.poll_banner(),
            _ => {
                let seq = self.pair.rx.seq;
                let payload = match self.take_frame() {
                    Ok(Some(p)) => p,
                    Ok(None) => {
                        return Ok(Poll::Pending);
                    },
                    Err(e) => {
                        return Err(self.fail(e));
                    },
                };
                if payload.len() == 0 || payload.len() > u32::MAX as usize {
                    return Err(self.fail(Error::ProtocolViolation));
                }
                let ghost taken = *self;
                let ghost bytes = payload;
                let r = self.dispatch(payload, seq, now);
                let ghost mid = *self;
                if r.is_ok() {
                    self.renew(now);
                }
                proof {
                    assert(old(self).frame_taken(taken, Ok::<Option<Vec<u8>>, Error>(Some(bytes))));
                    assert(taken.dispatched(bytes, old(self).pair.rx.seq, now, mid, r));
                }
                r
            },
        }
    }

    /// Sends the message `m` at the time `now`, in seconds. While messages
    /// flow, its frame is added to the bytes that wait. While keys are
    /// exchanged, and before the first key exchange, it is held back and goes
    /// out when the exchange is done. Fails with `Disconnected` where the
    /// session is over, and while messages flow with `InvalidLength` exactly
    /// where the message is too long for a packet; nothing changes then.
    pub fn send(&mut self, m: Message, now: u64) -> (r: Result<(), Error>)
        requires
            old(self).wf(),
            m@.wf(),
        ensures
            final(self).wf(),
            final(self).follows(*old(self)),
            final(self).inbound == old(self).inbound,
            final(self).pair.rx == old(self).pair.rx,
            match old(self).state {
                State::Disconnected => r is Err && r->Err_0 is Disconnected && *final(self) == *old(self),
                State::Serviceable => match r {
                    Ok(()) => {
                        &&& exists|padding: Seq<u8>|
                            starts_with(
                                final(self).outbound@,
                                old(self).outbound@ + #[trigger] frame(
                                    old(self).pair.tx@,
                                    m@.encoded(),
                                    padding,
                                ),
                            )
                        &&& exists|mid: Session| #[trigger]
                            mid.emitted(*old(self), m@) && mid.renewed(now, *final(self)) && mid
                                == (Session {
                                pair: mid.pair,
                                outbound: mid.outbound,
                                sent: mid.sent,
                                ..*old(self)
                            })
                    },
                    Err(e) => e == Error::InvalidLength && *final(self) == *old(self),
                },
                _ => r is Ok && final(self).held@ == old(self).held@.push(m) && *final(self) == (
                Session { held: final(self).held, ..*old(self) }),
            },
            old(self).state == State::Serviceable ==> (r is Err <==> old(self).too_long(
                m@.encoded().len(),
            )),
    {
        match self.state {
            State::Disconnected => Err(self.closed()),
            State::Serviceable => {
                match self.emit(&m) {
                    Ok(()) => {},
                    Err(e) => {
                        return Err(e);
                    },
                }
                let ghost sent = self.outbound@;
                let ghost mid = *self;
                self.renew(now);
                assert(mid.emitted(*old(self), m@) && mid.renewed(now, *self));
                proof {
                    let padding = choose|padding: Seq<u8>|
                        sent == old(self).outbound@ + #[trigger] frame(
                            old(self).pair.tx@,
                            m@.encoded(),
                            padding,
                        );
                    assert(self.outbound@.take(sent.len() as int) == sent);
                }
                Ok(())
            },
            _ => {
                let ghost before = self.held@;
                self.held.push(m);
                assert forall|i: int| 0 <= i < self.held@.len() implies (
                #[trigger] self.held@[i])@.wf() by {
                    if i < before.len() {
                        assert(self.held@[i] == before[i]);
                    }
                }
                Ok(())
            },
        }
    }
}

/// The proposal that the payload `b` carries, if it carries one.
pub open spec fn carried_proposal(b: Seq<u8>) -> Option<crate::kexinit::KexInitView> {
    match decoded(b) {
        Some(MessageView::KexInit { proposal }) => Some(proposal),
        _ => None,
    }
}

/// The client's public key that the payload `b` carries, if it carries one, in
/// the exchange over a group that the server proposes (`gex`) or in another.
pub open spec fn carried_public(gex: bool, b: Seq<u8>) -> Option<Seq<u8>> {
    if gex {
        gex::carried_init(b)
    } else {
        match decoded(b) {
            Some(MessageView::KexEcdhInit { q_c }) => Some(q_c),
            _ => None,
        }
    }
}

/// The host key, the server's public key and the signature that the payload
/// `b` carries, if it is the server's answer.
pub open spec fn carried_answer(gex: bool, b: Seq<u8>) -> Option<(Seq<u8>, Seq<u8>, Seq<u8>)> {
    if gex {
        gex::carried_reply(b)
    } else {
        match decoded(b) {
            Some(MessageView::KexEcdhReply { k_s, q_s, signature }) => Some((k_s, q_s, signature)),
            _ => None,
        }
    }
}

/// The proposal that the payload carries, if it carries one.
fn read_proposal(payload: &[u8]) -> (r: Option<KexInit>)
    ensures
        match carried_proposal(payload@) {
            Some(p) => r is Some && r->0@ == p,
            None => r is None,
        },
{
    match Message::decode(payload) {
        Ok(Message::KexInit { proposal }) => Some(proposal),
        _ => None,
    }
}

/// The client's public key that the payload carries, if it carries one.
fn read_public(gex: bool, payload: &[u8]) -> (r: Option<Vec<u8>>)
    ensures
        crate::crypto::seq_of(r) == carried_public(gex, payload@),
{
    if gex {
        gex::parse_init(payload)
    } else {
        match Message::decode(payload) {
            Ok(Message::KexEcdhInit { q_c }) => Some(q_c),
            _ => None,
        }
    }
}

/// The host key, the server's public key and the signature that the payload
/// carries, if it is the server's answer.
fn read_answer(gex: bool, payload: &[u8]) -> (r: Option<(Vec<u8>, Vec<u8>, Vec<u8>)>)
    ensures
        match carried_answer(gex, payload@) {
            Some((k, q, g)) => r matches Some(got) && got.0@ == k && got.1@ == q && got.2@ == g,
            None => r is None,
        },
{
    if gex {
        gex::parse_reply(payload)
    } else {
        match Message::decode(payload) {
            Ok(Message::KexEcdhReply { k_s, q_s, signature }) => Some((k_s, q_s, signature)),
            _ => None,
        }
    }
}

/// Two results without a value that fail alike are the same.
proof fn lemma_same_outcome(a: Result<(), Error>, b: Result<(), Error>)
    requires
        (a is Ok) == (b is Ok),
        a is Err ==> a->Err_0 == b->Err_0,
    ensures
        a == b,
{
    match (a, b) {
        (Ok(x), Ok(y)) => {
            assert(x == y);
        },
        _ => {},
    }
}

/// Whether a step went well, whatever it came to.
pub open spec fn progress(r: Result<Poll, Error>) -> Result<(), Error> {
    match r {
        Ok(_) => Ok(()),
        Err(e) => Err(e),
    }
}

/// The algorithms of the direction in which the client sends, or of the
/// other.
pub open spec fn sending(n: Negotiated, client: bool) -> Suite {
    if client {
        n.client_to_server
    } else {
        n.server_to_client
    }
}

/// A frame whose tag was changed is refused by the session that receives it.
/// Where `f` is a frame that is evident of tampering for the direction in
/// which the session receives, as every frame is that `encode` makes for that
/// direction, and the bytes that came are `f` with another tag, what comes in
/// is refused as not authentic. That is the case in which `poll` fails with
/// `BadMac` and ends the session; the reason that goes with this error is
/// `MacError`.
pub proof fn lemma_forged_tag_is_refused(s: Session, f: Seq<u8>, forged: Seq<u8>)
    requires
        tamper_evident(s.pair.rx@, f, s.cap as nat),
        forged.len() == f.len(),
        forged != f,
        forged.take(f.len() - s.pair.rx@.hmac.spec_size()) == f.take(
            f.len() - s.pair.rx@.hmac.spec_size(),
        ),
        s.inbound@ == forged,
    ensures
        s.incoming() == Err::<(Seq<u8>, nat, Direction), Error>(Error::BadMac),
        reason_for(Error::BadMac) == DisconnectReason::MacError,
{
}

/// A renewal of the keys as a client goes through it, from a session in which
/// messages flow, where no step fails and the key exchange is not over a
/// group that the server proposes. What the client writes is, in this order
/// and with nothing in between: its proposal, its public key, the message
/// that it switches to the new keys, and, once the server has switched too,
/// the messages that were held back, under the new keys. At the end messages
/// flow again, nothing is held back, the receiving direction has the keys
/// that the exchange gave and the sequence number that it had, and the
/// session is the same session: its identifier is the one that it had.
pub proof fn lemma_client_renewal(
    start: Session,
    proposing: Session,
    exchanging: Session,
    finishing: Session,
    done: Session,
    peer: KexInit,
    payload: Vec<u8>,
    host_key: Vec<u8>,
    server_public: Vec<u8>,
    signature: Vec<u8>,
    now: u64,
)
    requires
        start.state == State::Serviceable,
        start.role() == Role::Client,
        start.begun(State::KexRekey, None, proposing, Ok(())),
        proposing.proposed(peer, payload, exchanging, Ok(())),
        !exchanging.gex(),
        exchanging.finished(host_key, server_public, signature, finishing, Ok(())),
        finishing.keys_taken(now, done, Ok(())),
    ensures
        proposing.own_proposal matches Some(own) && proposing.emitted(
            start,
            MessageView::KexInit { proposal: own@ },
        ),
        exchanging.negotiated matches Some(n) && exchanging.emitted(
            proposing,
            MessageView::KexEcdhInit { q_c: public_of(n.kex, exchanging.secret@)->0 },
        ),
        exists|padding: Seq<u8>|
            finishing.outbound@ == exchanging.outbound@ + #[trigger] frame(
                exchanging.pair.tx@,
                MessageView::NewKeys.encoded(),
                padding,
            ),
        flushed(
            finishing.outbound@,
            finishing.pair.tx@,
            start.held@,
            done.outbound@,
            done.pair.tx@,
        ),
        done.state == State::Serviceable,
        done.held@.len() == 0,
        client_outcome(
            exchanging.spec_context(),
            exchanging.secret@,
            host_key@,
            server_public@,
            signature@,
        ) matches Ok((k, h, id)) && done.pair.rx@ == keyed_direction(
            exchanging.negotiated->0.server_to_client,
            exchanging.spec_context().kex.spec_hash(),
            k,
            h,
            id,
            false,
            start.pair.rx.seq,
        ),
        done.follows(start),
        start.session_id matches Some(id) ==> crate::crypto::seq_of(done.session_id) == Some(id@),
{
    reveal(Session::begun);
    reveal(Session::proposed);
    reveal(Session::finished);
    reveal(Session::keys_taken);
    crate::session::lemma_follows_through(start, proposing, exchanging);
    crate::session::lemma_follows_through(start, exchanging, finishing);
    crate::session::lemma_follows_through(start, finishing, done);
}

/// A renewal of the keys as a server goes through it, from a session in which
/// messages flow, where no step fails and the key exchange is not over a
/// group that the server proposes. What the server writes is, in this order
/// and with nothing in between: its proposal, its answer to the client's
/// public key, the message that it switches to the new keys, and, once the
/// client has switched too, the messages that were held back, under the new
/// keys. The answer is the one that `server_outcome` describes for some
/// ephemeral secret and some signature, and the receiving direction has the
/// keys of that outcome and the sequence number that it had. At the end
/// messages flow again, nothing is held back, and the session is the same
/// session: its identifier is the one that it had.
pub proof fn lemma_server_renewal(
    start: Session,
    proposing: Session,
    exchanging: Session,
    finishing: Session,
    done: Session,
    peer: KexInit,
    payload: Vec<u8>,
    client_public: Vec<u8>,
    now: u64,
)
    requires
        start.state == State::Serviceable,
        start.role() == Role::Server,
        start.begun(State::KexRekey, None, proposing, Ok(())),
        proposing.proposed(peer, payload, exchanging, Ok(())),
        !exchanging.gex(),
        exchanging.spec_context().group is None,
        exchanging.answered(client_public, finishing, Ok(())),
        finishing.keys_taken(now, done, Ok(())),
    ensures
        proposing.own_proposal matches Some(own) && proposing.emitted(
            start,
            MessageView::KexInit { proposal: own@ },
        ),
        exchanging.outbound == proposing.outbound,
        exists|host: Seq<u8>, secret: Seq<u8>, signature: Seq<u8>|
            {
                &&& (#[trigger] server_outcome(
                    exchanging.spec_context(),
                    secret,
                    host,
                    client_public@,
                    signature,
                )) matches Ok((reply, k, h, id))
                &&& exchanging.replied(reply.encoded(), finishing)
                &&& done.pair.rx@ == keyed_direction(
                    exchanging.negotiated->0.client_to_server,
                    exchanging.spec_context().kex.spec_hash(),
                    k,
                    h,
                    id,
                    true,
                    start.pair.rx.seq,
                )
            },
        flushed(
            finishing.outbound@,
            finishing.pair.tx@,
            start.held@,
            done.outbound@,
            done.pair.tx@,
        ),
        done.state == State::Serviceable,
        done.held@.len() == 0,
        done.follows(start),
        start.session_id matches Some(id) ==> crate::crypto::seq_of(done.session_id) == Some(id@),
{
    reveal(Session::begun);
    reveal(Session::proposed);
    reveal(Session::answered);
    reveal(Session::keys_taken);
    crate::session::lemma_follows_through(start, proposing, exchanging);
    crate::session::lemma_follows_through(start, exchanging, finishing);
    crate::session::lemma_follows_through(start, finishing, done);
}

/// The output and the sending direction that come of the output `out` and
/// the direction `tx` when the frames of the messages `held` are added in
/// their order, each with its padding from `paddings`.
pub open spec fn flushed_with(
    out: Seq<u8>,
    tx: Direction,
    held: Seq<Message>,
    paddings: Seq<Seq<u8>>,
) -> (Seq<u8>, Direction)
    decreases held.len(),
{
    if held.len() == 0 {
        (out, tx)
    } else {
        let before = flushed_with(out, tx, held.drop_last(), paddings.drop_last());
        let payload = held.last()@.encoded();
        (
            before.0 + frame(before.1, payload, paddings.last()),
            after_frame(before.1, payload, paddings.last()),
        )
    }
}

/// Whether the frames of the messages `held`, in their order and each with
/// some padding, are what was added to the output `out` under the sending
/// direction `tx`: that gives the output `later_out` and leaves the direction
/// `later_tx`.
pub open spec fn flushed(
    out: Seq<u8>,
    tx: Direction,
    held: Seq<Message>,
    later_out: Seq<u8>,
    later_tx: Direction,
) -> bool {
    exists|paddings: Seq<Seq<u8>>|
        paddings.len() == held.len() && #[trigger] flushed_with(out, tx, held, paddings) == (
            later_out,
            later_tx,
        )
}

/// Whether the message is one of the two that carry the public keys of a
/// key exchange, and can be encoded.
fn message_fits(m: &Message) -> (r: bool)
    ensures
        r == ((m@ is KexEcdhInit || m@ is KexEcdhReply) && m@.wf()),
{
    let max = u32::MAX as usize;
    match m {
        Message::KexEcdhInit { q_c } => q_c.len() <= max,
        Message::KexEcdhReply { k_s, q_s, signature } => k_s.len() <= max && q_s.len() <= max
            && signature.len() <= max,
        _ => false,
    }
}

/// Whether the session identifier `new` is the one that is there, if one is
/// there.
fn same_id(held: &Option<Vec<u8>>, new: &Vec<u8>) -> (r: bool)
    ensures
        r == (held matches Some(id) ==> id@ == new@),
{
    match held {
        Some(id) => crate::namelist::bytes_eq(id.as_slice(), new.as_slice()),
        None => true,
    }
}

} // verus!
