//! Service requests: how a client asks for a service by name, and how a
//! server answers.

use vstd::prelude::*;
use crate::error::{DisconnectReason, Error};
use crate::message::{Message, MessageView};
use crate::namelist::bytes_eq;
use crate::session::route::State;
use crate::session::{starts_with, Poll, Session};
use crate::transport::codec::frame;

verus! {

/// The message by which a client asks for the service `name`.
pub fn request(name: &[u8]) -> (r: Message)
    requires
        name@.len() <= u32::MAX,
    ensures
        r@ == (MessageView::ServiceRequest { service_name: name@ }),
        r@.wf(),
{
    let service_name = crate::wire::copy_range(name, 0, name.len());
    assert(service_name@ =~= name@);
    Message::ServiceRequest { service_name }
}

/// What a server that offers the service `offered` answers to a request for
/// the service `requested`: that it grants it where the names are the same,
/// and else that it hangs up, as the service is not available.
pub open spec fn answer_to(offered: Seq<u8>, requested: Seq<u8>) -> MessageView {
    if offered == requested {
        MessageView::ServiceAccept { service_name: requested }
    } else {
        MessageView::Disconnect {
            reason: DisconnectReason::ServiceNotAvailable,
            description: Seq::empty(),
            language: Seq::empty(),
        }
    }
}

/// What a server that offers the service `offered` answers to a request for
/// the service `requested`.
pub fn answer(offered: &[u8], requested: &[u8]) -> (r: Message)
    requires
        requested@.len() <= u32::MAX,
    ensures
        r@ == answer_to(offered@, requested@),
        r@.wf(),
{
    if bytes_eq(offered, requested) {
        let service_name = crate::wire::copy_range(requested, 0, requested.len());
        assert(service_name@ =~= requested@);
        Message::ServiceAccept { service_name }
    } else {
        Message::Disconnect {
            reason: DisconnectReason::ServiceNotAvailable,
            description: Vec::new(),
            language: Vec::new(),
        }
    }
}

/// What a client that asked for the service `name` makes of the server's
/// answer `m`: the service is granted where the server says so of that name;
/// a disconnect is `ServiceNotAvailable` where it gives that reason, and
/// `Disconnected` with its reason and description else; any other message is
/// `UnexpectedMessage`.
pub open spec fn outcome(name: Seq<u8>, m: Message) -> Result<(), Error> {
    match m {
        Message::ServiceAccept { service_name } => if service_name@ == name {
            Ok(())
        } else {
            Err(Error::UnexpectedMessage)
        },
        Message::Disconnect { reason, description, .. } => if reason
            == DisconnectReason::ServiceNotAvailable {
            Err(Error::ServiceNotAvailable)
        } else {
            Err(Error::Disconnected { reason, description })
        },
        _ => Err(Error::UnexpectedMessage),
    }
}

/// What a client that asked for the service `name` makes of the server's
/// answer.
pub fn accepted(name: &[u8], m: Message) -> (r: Result<(), Error>)
    ensures
        r == outcome(name@, m),
{
    match m {
        Message::ServiceAccept { service_name } => if bytes_eq(service_name.as_slice(), name) {
            Ok(())
        } else {
            Err(Error::UnexpectedMessage)
        },
        Message::Disconnect { reason, description, language } => if reason
            == DisconnectReason::ServiceNotAvailable {
            Err(Error::ServiceNotAvailable)
        } else {
            Err(Error::Disconnected { reason, description })
        },
        _ => Err(Error::UnexpectedMessage),
    }
}

/// What a client that asked for the service `name` makes of the step `got`
/// of its session: nothing yet while no message has come; of a message what
/// `outcome` says; `ServiceNotAvailable` where the session is over because
/// the server hung up for that reason; and any other error as it is.
pub open spec fn concluded(name: Seq<u8>, got: Result<Poll, Error>) -> Option<Result<(), Error>> {
    match got {
        Ok(Poll::Message(m)) => Some(outcome(name, m)),
        Ok(_) => None,
        Err(Error::Disconnected { reason, description }) => if reason
            == DisconnectReason::ServiceNotAvailable {
            Some(Err(Error::ServiceNotAvailable))
        } else {
            Some(Err(Error::Disconnected { reason, description }))
        },
        Err(e) => Some(Err(e)),
    }
}

/// A service as a client asks for it.
pub trait Request {
    /// What the service gives once it is granted.
    type Ok;

    /// The name by which the service is asked for.
    spec fn spec_name(&self) -> Seq<u8>;

    /// The name by which the service is asked for.
    fn name(&self) -> (r: Vec<u8>)
        ensures
            r@ == self.spec_name(),
    ;

    /// Whether the service, once the server has granted it, gives `given` and
    /// is `later` from then on.
    spec fn granted(&self, later: &Self, given: Result<Self::Ok, Error>) -> bool;

    /// The server has granted the service.
    fn on_accept(&mut self) -> (r: Result<Self::Ok, Error>)
        ensures
            old(self).granted(final(self), r),
    ;
}

/// A service as a server offers it.
pub trait Handler {
    /// What the service gives once a client has asked for it.
    type Ok;

    /// The name by which the service is offered.
    spec fn spec_name(&self) -> Seq<u8>;

    /// The name by which the service is offered.
    fn name(&self) -> (r: Vec<u8>)
        ensures
            r@ == self.spec_name(),
    ;

    /// Whether the service, once a client has asked for it, gives `given` and
    /// is `later` from then on.
    spec fn served(&self, later: &Self, given: Result<Self::Ok, Error>) -> bool;

    /// A client has asked for the service.
    fn on_request(&mut self) -> (r: Result<Self::Ok, Error>)
        ensures
            old(self).served(final(self), r),
    ;
}

impl Session {
    /// Asks the server for the service `service`, at the time `now` in
    /// seconds: the request is sent as `send` sends a message. While messages
    /// flow this fails exactly where the request is too long for a packet.
    pub fn request_service<R: Request>(&mut self, service: &R, now: u64) -> (r: Result<(), Error>)
        requires
            old(self).wf(),
        ensures
            final(self).wf(),
            final(self).follows(*old(self)),
            final(self).inbound == old(self).inbound,
            final(self).pair.rx == old(self).pair.rx,
            service.spec_name().len() > u32::MAX ==> r is Err && r->Err_0 == Error::InvalidLength
                && *final(self) == *old(self),
            service.spec_name().len() <= u32::MAX ==> (match old(self).state {
                State::Disconnected => r is Err && r->Err_0 is Disconnected && *final(self) == *old(self),
                State::Serviceable => match r {
                    Ok(()) => exists|padding: Seq<u8>|
                        starts_with(
                            final(self).outbound@,
                            old(self).outbound@ + #[trigger] frame(
                                old(self).pair.tx@,
                                (MessageView::ServiceRequest {
                                    service_name: service.spec_name(),
                                }).encoded(),
                                padding,
                            ),
                        ),
                    Err(e) => e == Error::InvalidLength && *final(self) == *old(self),
                },
                _ => r is Ok && final(self).held@.len() == old(self).held@.len() + 1
                    && final(self).held@.last()@ == (MessageView::ServiceRequest {
                    service_name: service.spec_name(),
                }),
            }),
            service.spec_name().len() <= u32::MAX && old(self).state == State::Serviceable ==> (r is Err
                <==> old(self).too_long(
                (MessageView::ServiceRequest { service_name: service.spec_name() }).encoded().len(),
            )),
    {
        let name = service.name();
        if name.len() > u32::MAX as usize {
            return Err(Error::InvalidLength);
        }
        self.send(request(name.as_slice()), now)
    }

    /// What a client that asked for the service `service` makes of the
    /// server's answer `answer`: where the server grants the service, what
    /// the service gives, as `granted` says it; else the error that `outcome`
    /// names, and the service is not touched.
    pub fn service_accepted<R: Request>(service: &mut R, answer: Message) -> (r: Result<
        R::Ok,
        Error,
    >)
        ensures
            outcome(old(service).spec_name(), answer) matches Err(e) ==> r is Err && r->Err_0 == e
                && *final(service) == *old(service),
            outcome(old(service).spec_name(), answer) is Ok
                ==> old(service).granted(final(service), r),
    {
        let name = service.name();
        match accepted(name.as_slice(), answer) {
            Ok(()) => service.on_accept(),
            Err(e) => Err(e),
        }
    }

    /// What a client that asked for the service `service` makes of the step
    /// `got` of its session, as `concluded` says it: nothing while no message
    /// has come; where the server grants the service, what the service gives;
    /// `ServiceNotAvailable` where the server hung up for that reason; else
    /// the error, and the service is not touched.
    pub fn service_answered<R: Request>(service: &mut R, got: Result<Poll, Error>) -> (r: Option<
        Result<R::Ok, Error>,
    >)
        ensures
            concluded(old(service).spec_name(), got) is None ==> r is None
                && *final(service) == *old(service),
            concluded(old(service).spec_name(), got) matches Some(Err(e)) ==> r matches Some(Err(same))
                && same == e && *final(service) == *old(service),
            concluded(old(service).spec_name(), got) matches Some(Ok(_)) ==> r matches Some(given)
                && old(service).granted(final(service), given),
    {
        match got {
            Ok(Poll::Message(m)) => Some(Self::service_accepted(service, m)),
            Ok(_) => None,
            Err(Error::Disconnected { reason, description }) => if reason
                == DisconnectReason::ServiceNotAvailable {
                Some(Err(Error::ServiceNotAvailable))
            } else {
                Some(Err(Error::Disconnected { reason, description }))
            },
            Err(e) => Some(Err(e)),
        }
    }

    /// Answers the request `requested` of a client for a service, at the time
    /// `now` in seconds, as a server that offers the service `handler`. Where
    /// the names are the same the service is granted, and the result is what
    /// the service gives, as `served` says it; while messages flow this fails
    /// with `InvalidLength`, and changes nothing, exactly where the answer is
    /// too long for a packet. Else the session hangs up, as the service is
    /// not available, and the result is `ServiceNotAvailable`.
    pub fn handle<H: Handler>(&mut self, handler: &mut H, requested: &[u8], now: u64) -> (r: Result<
        H::Ok,
        Error,
    >)
        requires
            old(self).wf(),
            requested@.len() <= u32::MAX,
        ensures
            final(self).wf(),
            final(self).follows(*old(self)),
            final(self).inbound == old(self).inbound,
            final(self).pair.rx == old(self).pair.rx,
            old(handler).spec_name() != requested@ ==> {
                &&& r is Err
                &&& r->Err_0 == Error::ServiceNotAvailable
                &&& final(self).state == State::Disconnected
                &&& *final(handler) == *old(handler)
                &&& old(self).hung_up(
                    DisconnectReason::ServiceNotAvailable,
                    Seq::empty(),
                    *final(self),
                )
            },
            old(handler).spec_name() == requested@ ==> (match old(self).state {
                State::Disconnected => r is Err && r->Err_0 is Disconnected && *final(self) == *old(self)
                    && *final(handler) == *old(handler),
                State::Serviceable => if old(self).too_long(
                    (MessageView::ServiceAccept { service_name: requested@ }).encoded().len(),
                ) {
                    r is Err && r->Err_0 == Error::InvalidLength && *final(self) == *old(self)
                        && *final(handler) == *old(handler)
                } else {
                    old(handler).served(final(handler), r) && exists|padding: Seq<u8>|
                        starts_with(
                            final(self).outbound@,
                            old(self).outbound@ + #[trigger] frame(
                                old(self).pair.tx@,
                                (MessageView::ServiceAccept { service_name: requested@ }).encoded(),
                                padding,
                            ),
                        )
                },
                _ => old(handler).served(final(handler), r)
                    && final(self).held@.len() == old(self).held@.len() + 1
                    && final(self).held@.last()@ == (MessageView::ServiceAccept {
                    service_name: requested@,
                }),
            }),
    {
        let offered = handler.name();
        let m = answer(offered.as_slice(), requested);
        match m {
            Message::Disconnect { reason, description, language } => {
                self.disconnect(reason, Vec::new());
                Err(Error::ServiceNotAvailable)
            },
            accept => match self.send(accept, now) {
                Ok(()) => handler.on_request(),
                Err(e) => Err(e),
            },
        }
    }

    /// The stream took longer than the timeout allows: the session is over,
    /// and the result is `Timeout`.
    pub fn timed_out(&mut self) -> (r: Error)
        requires
            old(self).wf(),
        ensures
            final(self).wf(),
            final(self).follows(*old(self)),
            final(self).state == State::Disconnected,
            r == Error::Timeout,
            old(self).hung_up(DisconnectReason::ConnectionLost, Seq::empty(), *final(self)),
    {
        self.fail(Error::Timeout)
    }
}

} // verus!
