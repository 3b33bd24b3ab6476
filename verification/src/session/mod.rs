//! The session: identification, key exchange and re-keying, service requests
//! and the routing of messages.
//!
//! A session does no input or output of its own. Bytes that came from the peer
//! are handed to it, and it says what they amount to; bytes that are to go to
//! the peer wait in it until they are fetched.

use vstd::prelude::*;
use crate::error::{DisconnectReason, Error};
use crate::kex::gex::Sizes;
use crate::kex::group::Group;
use crate::kex::keys::Secrets;
use crate::kex::negotiate::{discard_guess, negotiate, Negotiated};
use crate::kexinit::KexInit;
use crate::message::{decoded, Message, MessageView};
use crate::transport::codec::{decode, encode, frame, after_frame, parsed};
use crate::transport::packet::{packet_length, padding_len, MAX_PACKET_LENGTH};
use crate::transport::{Direction, Transport, TransportPair};
use crate::wire::{copy_range, put_bytes};

pub mod client;
pub mod engine;
pub mod id;
pub mod rekey;
pub mod route;
pub mod server;
pub mod service;

pub use client::Client;
pub use id::Id;
pub use rekey::{Limits, Traffic};
pub use route::{Role, Route, State, Step};
pub use server::Server;

verus! {

/// The configuration of a session, which says which side it is.
pub enum Side {
    /// The side that connects.
    Client(Client),
    /// The side that is connected to.
    Server(Server),
}

impl Side {
    /// Which side this is.
    pub open spec fn spec_role(self) -> Role {
        match self {
            Side::Client(_) => Role::Client,
            Side::Server(_) => Role::Server,
        }
    }

    /// Which side this is.
    pub fn role(&self) -> (r: Role)
        ensures
            r == self.spec_role(),
    {
        match self {
            Side::Client(_) => Role::Client,
            Side::Server(_) => Role::Server,
        }
    }

    /// The identification of this side.
    pub fn id(&self) -> (r: &Id)
        ensures
            *r == match *self {
                Side::Client(c) => c.id,
                Side::Server(s) => s.id,
            },
    {
        match self {
            Side::Client(c) => c.id(),
            Side::Server(s) => s.id(),
        }
    }

    /// When the keys are exchanged anew.
    pub fn limits(&self) -> (r: Limits)
        ensures
            r == match *self {
                Side::Client(c) => c.rekey,
                Side::Server(s) => s.rekey,
            },
    {
        match self {
            Side::Client(c) => c.rekey,
            Side::Server(s) => s.rekey,
        }
    }

    /// The proposal of this side with the cookie `cookie`.
    pub open spec fn proposal_with(self, cookie: Seq<u8>) -> crate::kexinit::KexInitView {
        match self {
            Side::Client(c) => server::proposal(
                cookie,
                c.algorithms.kexs@,
                c.algorithms.keys@,
                c.algorithms.ciphers@,
                c.algorithms.macs@,
                c.algorithms.compressions@,
            ),
            Side::Server(s) => server::proposal(
                cookie,
                s.algorithms.kexs@,
                server::key_algorithms(s.keys@),
                s.algorithms.ciphers@,
                s.algorithms.macs@,
                s.algorithms.compressions@,
            ),
        }
    }

    /// The proposal of this side, with a cookie drawn at random.
    pub fn kexinit(&self) -> (r: KexInit)
        ensures
            r@.cookie.len() == crate::kexinit::COOKIE_SIZE,
            r@ == self.proposal_with(r@.cookie),
    {
        match self {
            Side::Client(c) => c.kexinit(),
            Side::Server(s) => s.kexinit(),
        }
    }
}

/// What a step of a session comes to.
#[derive(Debug, Clone, PartialEq, Eq)]
pub enum Poll {
    /// Nothing can be done before more bytes have come from the peer.
    Pending,
    /// Something was done, and there may be more to do.
    Progress,
    /// A message for the caller.
    Message(Message),
}

/// A session.
pub struct Session {
    /// The configuration.
    pub side: Side,
    /// Where the session stands.
    pub state: State,
    /// Where the key exchange stands.
    pub step: Step,
    /// This side's identification string, without the line end.
    pub own_line: Vec<u8>,
    /// The peer's identification, once it has come.
    pub peer_id: Option<Id>,
    /// The transport in both directions.
    pub pair: TransportPair,
    /// The receiving direction that takes over once the peer has switched to
    /// the new keys.
    pub next_rx: Option<Transport>,
    /// The session identifier, once the first key exchange has produced it.
    pub session_id: Option<Vec<u8>>,
    /// The proposal that this side has sent in the running key exchange.
    pub own_proposal: Option<KexInit>,
    /// The payload of this side's proposal.
    pub own_payload: Vec<u8>,
    /// The payload of the peer's proposal.
    pub peer_payload: Vec<u8>,
    /// What the two proposals of the running key exchange give.
    pub negotiated: Option<Negotiated>,
    /// The client's ephemeral secret in the running key exchange.
    pub secret: Vec<u8>,
    /// The sizes of the group that the client has asked for, where the server
    /// proposes the group.
    pub sizes: Sizes,
    /// The group of the running key exchange, where the server has proposed
    /// it.
    pub group: Option<Group>,
    /// What the running key exchange adds to the exchange hash before the
    /// public keys.
    pub prelude: Vec<u8>,
    /// Whether the next packet of the key exchange is thrown away, as the peer
    /// sent it on a wrong guess.
    pub discard: bool,
    /// The bytes that came from the peer and were not decoded yet.
    pub inbound: Vec<u8>,
    /// The bytes that wait to go to the peer.
    pub outbound: Vec<u8>,
    /// The messages of the caller that are held back while keys are
    /// exchanged.
    pub held: Vec<Message>,
    /// What was sent since the keys were last exchanged.
    pub sent: Traffic,
    /// What was received since the keys were last exchanged.
    pub received: Traffic,
    /// When the keys were last exchanged, in seconds.
    pub since: u64,
    /// Why the session is over, once it is.
    pub reason: Option<(DisconnectReason, Vec<u8>)>,
    /// The largest packet length that is sent and accepted.
    pub cap: u32,
}

/// Whether `b` starts with `a`.
pub open spec fn starts_with(b: Seq<u8>, a: Seq<u8>) -> bool {
    b.len() >= a.len() && b.take(a.len() as int) == a
}

/// What starts with something that starts with `a` starts with `a`.
pub proof fn lemma_starts_with(c: Seq<u8>, b: Seq<u8>, a: Seq<u8>)
    requires
        starts_with(c, b),
        starts_with(b, a),
    ensures
        starts_with(c, a),
{
    assert(c.take(a.len() as int) =~= c.take(b.len() as int).take(a.len() as int));
}

/// Through any number of steps a session stays the side it is and keeps its
/// identification, its session identifier once it has one, and the peer's
/// identification once it knows it: what holds from one step to the next
/// holds from the first to the last.
pub proof fn lemma_follows_through(first: Session, between: Session, last: Session)
    requires
        between.follows(first),
        last.follows(between),
    ensures
        last.follows(first),
{
}

/// Whether what `before` starts with, `after` starts with too.
pub open spec fn grows(before: Seq<u8>, after: Seq<u8>) -> bool {
    forall|a: Seq<u8>| #[trigger] starts_with(before, a) ==> starts_with(after, a)
}

/// What starts with `before` has grown from it.
pub proof fn lemma_grows(before: Seq<u8>, after: Seq<u8>)
    requires
        starts_with(after, before),
    ensures
        grows(before, after),
{
    assert forall|a: Seq<u8>| #[trigger] starts_with(before, a) implies starts_with(after, a) by {
        lemma_starts_with(after, before, a);
    }
}

/// Everything starts with itself.
pub proof fn lemma_starts_with_itself(a: Seq<u8>)
    ensures
        starts_with(a, a),
{
    assert(a.take(a.len() as int) =~= a);
}

/// The line end of an identification string.
pub open spec fn line_end() -> Seq<u8> {
    seq![id::CR, id::LF]
}

impl Session {
    /// Which side the session is.
    pub open spec fn role(self) -> Role {
        self.side.spec_role()
    }

    /// Whether the running key exchange is over a group that the server
    /// proposes.
    pub open spec fn gex(self) -> bool {
        self.negotiated matches Some(n) && n.kex
            == crate::algorithm::Kex::DiffieHellmanGroupExchangeSha256
    }

    /// What holds of a session at all times.
    pub open spec fn wf(self) -> bool {
        &&& self.pair.rx@.wf()
        &&& self.pair.tx@.wf()
        &&& self.pair.tx@.compress.is_supported()
        &&& self.next_rx matches Some(t) ==> t@.wf()
        &&& self.own_line@.len() <= u32::MAX
        &&& self.peer_id matches Some(p) ==> p@.line().len() <= u32::MAX
        &&& self.state != State::Banner && self.state != State::Disconnected ==> self.peer_id is Some
        &&& self.own_payload@.len() <= u32::MAX
        &&& self.peer_payload@.len() <= u32::MAX
        &&& self.step == Step::Exchanging || self.step == Step::Requesting ==> self.negotiated
            is Some
        &&& self.group matches Some(g) ==> g@.wf()
        &&& self.step == Step::Requesting ==> self.gex()
        &&& self.step == Step::Exchanging && self.gex() ==> self.group is Some
        &&& self.step == Step::Finishing ==> self.next_rx is Some
        &&& self.step != Step::Idle ==> self.own_proposal is Some
        &&& self.state == State::Serviceable ==> self.step == Step::Idle
        &&& self.state == State::Banner ==> self.step == Step::Idle && self.peer_id is None
        &&& self.state == State::Disconnected ==> self.step == Step::Idle
        &&& (self.state == State::KexInitial || self.state == State::KexRekey) ==> self.step
            != Step::Idle
        &&& forall|i: int| 0 <= i < self.held@.len() ==> (#[trigger] self.held@[i])@.wf()
    }

    /// What never changes in the life of a session: the session stays the side
    /// it is and keeps its identification; once it has a session identifier it
    /// keeps that one, whatever key exchanges follow; once it knows the peer's
    /// identification it keeps that one; and once it is over it stays so.
    pub open spec fn follows(self, before: Session) -> bool {
        &&& self.side == before.side
        &&& self.own_line == before.own_line
        &&& self.cap == before.cap
        &&& before.session_id matches Some(id) ==> (self.session_id matches Some(same) && same@
            == id@)
        &&& before.peer_id matches Some(p) ==> self.peer_id == before.peer_id
        &&& before.state == State::Disconnected ==> self.state == State::Disconnected
    }

    /// The session identifier.
    pub fn session_id(&self) -> (r: Option<&Vec<u8>>)
        ensures
            r == match self.session_id {
                Some(id) => Some(&id),
                None => None,
            },
    {
        match &self.session_id {
            Some(id) => Some(id),
            None => None,
        }
    }

    /// The peer's identification, once it has come.
    pub fn peer_id(&self) -> (r: Option<&Id>)
        ensures
            r == match self.peer_id {
                Some(p) => Some(&p),
                None => None,
            },
    {
        match &self.peer_id {
            Some(p) => Some(p),
            None => None,
        }
    }

    /// A session of the side `side`, at the time `now` in seconds. It waits
    /// for the peer's identification, and its own waits to be sent.
    pub fn new(side: Side, now: u64) -> (r: Session)
        requires
            match side {
                Side::Client(c) => c.id@.wf(),
                Side::Server(s) => s.id@.wf(),
            },
        ensures
            r.wf(),
            r.side == side,
            r.state == State::Banner,
            r.session_id is None,
            r.peer_id is None,
            r.cap == MAX_PACKET_LENGTH,
            r.since == now,
            r.outbound@ == r.own_line@ + line_end(),
            r.own_line@ == match side {
                Side::Client(c) => c.id@.line(),
                Side::Server(s) => s.id@.line(),
            },
            r.inbound@.len() == 0,
            r.held@.len() == 0,
    {
        let own_line = side.id().to_bytes();
        let mut outbound = copy_range(own_line.as_slice(), 0, own_line.len());
        assert(outbound@ =~= own_line@);
        outbound.push(id::CR);
        outbound.push(id::LF);
        assert(outbound@ =~= own_line@ + line_end());
        Session {
            side,
            state: State::Banner,
            step: Step::Idle,
            own_line,
            peer_id: None,
            pair: TransportPair::new(),
            next_rx: None,
            session_id: None,
            own_proposal: None,
            own_payload: Vec::new(),
            peer_payload: Vec::new(),
            negotiated: None,
            secret: Vec::new(),
            sizes: Sizes::new(),
            group: None,
            prelude: Vec::new(),
            discard: false,
            inbound: Vec::new(),
            outbound,
            held: Vec::new(),
            sent: Traffic::new(),
            received: Traffic::new(),
            since: now,
            reason: None,
            cap: MAX_PACKET_LENGTH,
        }
    }

    /// Takes in bytes that came from the peer.
    pub fn feed(&mut self, bytes: &[u8])
        ensures
            final(self).inbound@ == old(self).inbound@ + bytes@,
            *final(self) == (Session { inbound: final(self).inbound, ..*old(self) }),
    {
        put_bytes(&mut self.inbound, bytes);
    }

    /// The bytes that wait to go to the peer; none wait after.
    pub fn take_output(&mut self) -> (r: Vec<u8>)
        ensures
            r@ == old(self).outbound@,
            final(self).outbound@.len() == 0,
            *final(self) == (Session { outbound: final(self).outbound, ..*old(self) }),
    {
        let mut r: Vec<u8> = Vec::new();
        std::mem::swap(&mut r, &mut self.outbound);
        r
    }

    /// Whether the payload `payload` went out between `before` and this
    /// session: its frame, with some padding, was added to the bytes that
    /// wait, the sending direction moved on by that frame, and the packet was
    /// counted.
    pub open spec fn emitted_payload(self, before: Session, payload: Seq<u8>) -> bool {
        &&& exists|padding: Seq<u8>|
            {
                &&& self.outbound@ == before.outbound@ + #[trigger] frame(
                    before.pair.tx@,
                    payload,
                    padding,
                )
                &&& self.pair.tx@ == after_frame(before.pair.tx@, payload, padding)
            }
        &&& self.sent == before.sent.plus(payload.len())
        &&& self.pair.rx == before.pair.rx
    }

    /// Whether the message `m` went out between `before` and this session.
    pub open spec fn emitted(self, before: Session, m: MessageView) -> bool {
        self.emitted_payload(before, m.encoded())
    }

    /// Whether a payload of `n` bytes is too long to be sent: with its padding
    /// it makes a packet that is longer than the largest packet length.
    pub open spec fn too_long(self, n: nat) -> bool {
        let d = self.pair.tx@;
        packet_length(n, padding_len(d.block(), d.hmac.spec_etm(), n)) > self.cap
    }

    /// What hanging up for the reason `reason` comes to. A session that is
    /// over stays as it is. Else the session is over, and the reason and the
    /// description are kept; the disconnect message goes out where the peer's
    /// identification has come, the reason is named where it has a name, and
    /// the message is not too long.
    pub open spec fn hung_up(
        self,
        reason: DisconnectReason,
        description: Seq<u8>,
        later: Session,
    ) -> bool {
        let m = MessageView::Disconnect { reason, description, language: Seq::empty() };
        if self.state == State::Disconnected {
            later == self
        } else {
            &&& later.state == State::Disconnected
            &&& later.step == Step::Idle
            &&& later.next_rx is None
            &&& later.reason matches Some(why) && why.0 == reason && why.1@ == description
            &&& later == (Session {
                state: later.state,
                step: later.step,
                next_rx: later.next_rx,
                reason: later.reason,
                pair: later.pair,
                outbound: later.outbound,
                sent: later.sent,
                ..self
            })
            &&& if self.state != State::Banner && canonical_spec(reason) && !self.too_long(
                m.encoded().len(),
            ) {
                later.emitted(self, m)
            } else {
                later.outbound == self.outbound && later.pair == self.pair && later.sent == self.sent
            }
        }
    }

    /// Sends the payload `payload` now: its frame is added to the bytes that
    /// wait. Fails with `InvalidLength`, and changes nothing, where the payload
    /// is too long for a packet.
    pub(crate) fn emit_payload(&mut self, payload: &[u8]) -> (r: Result<(), Error>)
        requires
            old(self).wf(),
        ensures
            final(self).wf(),
            r is Ok ==> final(self).emitted_payload(*old(self), payload@),
            r is Err ==> r->Err_0 == Error::InvalidLength && *final(self) == *old(self),
            r is Err <==> old(self).too_long(payload@.len()),
            starts_with(final(self).outbound@, old(self).outbound@),
            grows(old(self).outbound@, final(self).outbound@),
            *final(self) == (Session {
                pair: final(self).pair,
                outbound: final(self).outbound,
                sent: final(self).sent,
                ..*old(self)
            }),
    {
        proof {
            lemma_starts_with_itself(self.outbound@);
            lemma_grows(self.outbound@, self.outbound@);
        }
        let f = match encode(payload, &mut self.pair.tx, self.cap) {
            Ok(f) => f,
            Err(e) => {
                return Err(e);
            },
        };
        put_bytes(&mut self.outbound, f.as_slice());
        proof {
            assert(self.outbound@.take(old(self).outbound@.len() as int) =~= old(self).outbound@);
            lemma_grows(old(self).outbound@, self.outbound@);
        }
        self.sent.count(payload.len());
        Ok(())
    }

    /// Sends the message `m` now: its frame is added to the bytes that wait.
    /// Fails with `InvalidLength`, and changes nothing, where the message is
    /// too long for a packet.
    pub(crate) fn emit(&mut self, m: &Message) -> (r: Result<(), Error>)
        requires
            old(self).wf(),
            m@.wf(),
        ensures
            final(self).wf(),
            r is Ok ==> final(self).emitted(*old(self), m@),
            r is Err ==> r->Err_0 == Error::InvalidLength && *final(self) == *old(self),
            r is Err <==> old(self).too_long(m@.encoded().len()),
            starts_with(final(self).outbound@, old(self).outbound@),
            grows(old(self).outbound@, final(self).outbound@),
            *final(self) == (Session {
                pair: final(self).pair,
                outbound: final(self).outbound,
                sent: final(self).sent,
                ..*old(self)
            }),
    {
        let payload = m.encode();
        self.emit_payload(payload.as_slice())
    }

    /// Ends the session on the error `e`: the peer is told the reason, as far
    /// as a message can still be sent, and the session is over. Gives `e`
    /// back.
    pub(crate) fn fail(&mut self, e: Error) -> (r: Error)
        requires
            old(self).wf(),
        ensures
            final(self).wf(),
            final(self).follows(*old(self)),
            final(self).state == State::Disconnected,
            r == e,
            old(self).hung_up(route::reason_for(e), Seq::empty(), *final(self)),
            old(self).state != State::Disconnected ==> (final(self).reason matches Some(why)
                && why.0 == route::reason_for(e)),
            old(self).state == State::Disconnected ==> *final(self) == *old(self),
            final(self).pair.rx == old(self).pair.rx,
            starts_with(final(self).outbound@, old(self).outbound@),
            grows(old(self).outbound@, final(self).outbound@),
            *final(self) == (Session {
                state: final(self).state,
                step: final(self).step,
                next_rx: final(self).next_rx,
                reason: final(self).reason,
                pair: final(self).pair,
                outbound: final(self).outbound,
                sent: final(self).sent,
                ..*old(self)
            }),
    {
        proof {
            lemma_starts_with_itself(self.outbound@);
            lemma_grows(self.outbound@, self.outbound@);
        }
        if self.state == State::Disconnected {
            return e;
        }
        let why = route::reason(&e);
        if self.state != State::Banner {
            let m = Message::Disconnect { reason: why, description: Vec::new(), language: Vec::new() };
            if canonical(why) {
                let _ = self.emit(&m);
            }
        }
        self.state = State::Disconnected;
        self.step = Step::Idle;
        self.next_rx = None;
        self.reason = Some((why, Vec::new()));
        e
    }

    /// Hangs up: the peer is told the reason and the description, and the
    /// session is over.
    pub fn disconnect(&mut self, reason: DisconnectReason, description: Vec<u8>)
        requires
            old(self).wf(),
            description@.len() <= u32::MAX,
        ensures
            final(self).wf(),
            final(self).follows(*old(self)),
            final(self).state == State::Disconnected,
            final(self).inbound == old(self).inbound,
            final(self).pair.rx == old(self).pair.rx,
            final(self).held == old(self).held,
            grows(old(self).outbound@, final(self).outbound@),
            old(self).state == State::Disconnected ==> *final(self) == *old(self),
            old(self).state != State::Disconnected ==> final(self).reason == Some(
                (reason, description),
            ),
            old(self).hung_up(reason, description@, *final(self)),
    {
        proof {
            lemma_starts_with_itself(self.outbound@);
            lemma_grows(self.outbound@, self.outbound@);
        }
        if self.state == State::Disconnected {
            return ;
        }
        if self.state != State::Banner && canonical(reason) {
            let copy = copy_range(description.as_slice(), 0, description.len());
            assert(copy@ =~= description@);
            let m = Message::Disconnect { reason, description: copy, language: Vec::new() };
            let _ = self.emit(&m);
        }
        self.state = State::Disconnected;
        self.step = Step::Idle;
        self.next_rx = None;
        self.reason = Some((reason, description));
    }
}

/// Whether the reason is named where it has a name.
pub open spec fn canonical_spec(reason: DisconnectReason) -> bool {
    reason == DisconnectReason::spec_from_code(reason.spec_code())
}

/// Whether the reason is named where it has a name.
pub fn canonical(reason: DisconnectReason) -> (r: bool)
    ensures
        r == canonical_spec(reason),
{
    match reason {
        DisconnectReason::Other(code) => code == 0 || code > 15,
        _ => true,
    }
}

} // verus!
