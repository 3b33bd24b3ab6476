//! What a session does with a message, by its number and by where the
//! session stands.

use vstd::prelude::*;
use crate::error::{DisconnectReason, Error};
use crate::kex::gex::{GEX_GROUP, GEX_INIT, GEX_REPLY, GEX_REQUEST};
use crate::message::{
    DEBUG, DISCONNECT, IGNORE, KEX_ECDH_INIT, KEX_ECDH_REPLY, KEX_INIT, NEW_KEYS, UNIMPLEMENTED,
};

verus! {

/// Which side of the connection a session is.
#[derive(Debug, Clone, Copy, PartialEq, Eq, Structural)]
pub enum Role {
    /// The side that connects.
    Client,
    /// The side that is connected to.
    Server,
}

/// Where a session stands.
#[derive(Debug, Clone, Copy, PartialEq, Eq, Structural)]
pub enum State {
    /// The peer's identification has still to come.
    Banner,
    /// The first key exchange is running.
    KexInitial,
    /// Keys are in place and messages flow.
    Serviceable,
    /// A later key exchange is running.
    KexRekey,
    /// The session is over.
    Disconnected,
}

/// Where a key exchange stands.
#[derive(Debug, Clone, Copy, PartialEq, Eq, Structural)]
pub enum Step {
    /// No key exchange is running.
    Idle,
    /// This side has sent its proposal and waits for the peer's.
    Proposed,
    /// Both proposals are known, and the group has still to be agreed on,
    /// as the server is to propose it.
    Requesting,
    /// Both proposals are known and the ephemeral keys are on their way.
    Exchanging,
    /// This side has switched to the new keys and waits for the peer to do so.
    Finishing,
}

/// What is done with a message.
#[derive(Debug, Clone, Copy, PartialEq, Eq, Structural)]
pub enum Route {
    /// The peer hangs up: the session is over.
    Disconnect,
    /// The message is taken in and nothing comes of it.
    Consume,
    /// The message is not understood: the peer is told so, and nothing else
    /// comes of it.
    Refuse,
    /// The peer's proposal: a key exchange starts, or goes on.
    Proposal,
    /// A packet that the peer sent on a wrong guess: it is thrown away.
    Discard,
    /// The client's request for a group.
    GroupRequest,
    /// The server's proposal of a group.
    GroupProposal,
    /// The client's ephemeral public key.
    ExchangeInit,
    /// The server's answer to the client's ephemeral public key.
    ExchangeReply,
    /// The peer has switched to the new keys.
    NewKeys,
    /// The message is handed to the caller.
    Deliver,
    /// The message must not come now: the session fails.
    Unexpected,
}

/// Whether `number` is in the range of the messages of a key exchange method.
pub open spec fn is_kex_method(number: u8) -> bool {
    30 <= number <= 49
}

/// The number of the message that carries the client's public key, in the
/// exchange over a group that the server proposes (`gex`) or in another.
pub open spec fn exchange_init(gex: bool) -> u8 {
    if gex {
        GEX_INIT
    } else {
        KEX_ECDH_INIT
    }
}

/// The number of the message that carries the server's answer.
pub open spec fn exchange_reply(gex: bool) -> u8 {
    if gex {
        GEX_REPLY
    } else {
        KEX_ECDH_REPLY
    }
}

/// What is done with the message `number`. A disconnect ends the session at
/// any time; `IGNORE`, `DEBUG` and `UNIMPLEMENTED` are taken in; the peer's
/// proposal is accepted while none of its is at hand; the messages of the key
/// exchange are accepted from the side that sends them, at the step at which
/// they are due, the request for a group and its proposal in the exchange
/// over a group that the server proposes (`gex`) alone, and the first of them
/// is thrown away after a wrong guess;
/// other transport messages that this library does not know are refused; all
/// else is handed to the caller while messages flow, which they do until the
/// peer's proposal has come, and must not come after.
pub open spec fn routed(
    role: Role,
    state: State,
    step: Step,
    discard: bool,
    gex: bool,
    number: u8,
) -> Route {
    if state == State::Banner || state == State::Disconnected {
        Route::Unexpected
    } else if number == DISCONNECT {
        Route::Disconnect
    } else if number == IGNORE || number == DEBUG || number == UNIMPLEMENTED {
        Route::Consume
    } else if number == KEX_INIT {
        if step == Step::Idle || step == Step::Proposed {
            Route::Proposal
        } else {
            Route::Unexpected
        }
    } else if number == NEW_KEYS {
        if step == Step::Finishing {
            Route::NewKeys
        } else {
            Route::Unexpected
        }
    } else if is_kex_method(number) {
        if step != Step::Exchanging && step != Step::Requesting {
            Route::Unexpected
        } else if discard {
            Route::Discard
        } else if step == Step::Requesting {
            if gex && number == GEX_REQUEST && role == Role::Server {
                Route::GroupRequest
            } else if gex && number == GEX_GROUP && role == Role::Client {
                Route::GroupProposal
            } else {
                Route::Unexpected
            }
        } else if number == exchange_init(gex) && role == Role::Server {
            Route::ExchangeInit
        } else if number == exchange_reply(gex) && role == Role::Client {
            Route::ExchangeReply
        } else {
            Route::Unexpected
        }
    } else if number < 50 && number != 5 && number != 6 {
        Route::Refuse
    } else if state == State::Serviceable || (state == State::KexRekey && step == Step::Proposed) {
        Route::Deliver
    } else {
        Route::Unexpected
    }
}

/// What is done with the message `number`.
pub fn route(role: Role, state: State, step: Step, discard: bool, gex: bool, number: u8) -> (r:
    Route)
    ensures
        r == routed(role, state, step, discard, gex, number),
{
    if state == State::Banner || state == State::Disconnected {
        Route::Unexpected
    } else if number == DISCONNECT {
        Route::Disconnect
    } else if number == IGNORE || number == DEBUG || number == UNIMPLEMENTED {
        Route::Consume
    } else if number == KEX_INIT {
        if step == Step::Idle || step == Step::Proposed {
            Route::Proposal
        } else {
            Route::Unexpected
        }
    } else if number == NEW_KEYS {
        if step == Step::Finishing {
            Route::NewKeys
        } else {
            Route::Unexpected
        }
    } else if 30 <= number && number <= 49 {
        let init = if gex {
            GEX_INIT
        } else {
            KEX_ECDH_INIT
        };
        let reply = if gex {
            GEX_REPLY
        } else {
            KEX_ECDH_REPLY
        };
        if step != Step::Exchanging && step != Step::Requesting {
            Route::Unexpected
        } else if discard {
            Route::Discard
        } else if step == Step::Requesting {
            if gex && number == GEX_REQUEST && role == Role::Server {
                Route::GroupRequest
            } else if gex && number == GEX_GROUP && role == Role::Client {
                Route::GroupProposal
            } else {
                Route::Unexpected
            }
        } else if number == init && role == Role::Server {
            Route::ExchangeInit
        } else if number == reply && role == Role::Client {
            Route::ExchangeReply
        } else {
            Route::Unexpected
        }
    } else if number < 50 && number != 5 && number != 6 {
        Route::Refuse
    } else if state == State::Serviceable || (state == State::KexRekey && step == Step::Proposed) {
        Route::Deliver
    } else {
        Route::Unexpected
    }
}

/// The reason that is given to the peer when the session fails with `e`.
pub open spec fn reason_for(e: Error) -> DisconnectReason {
    match e {
        Error::BadMac => DisconnectReason::MacError,
        Error::Decompress => DisconnectReason::CompressionError,
        Error::IdentificationInvalid => DisconnectReason::ProtocolVersionNotSupported,
        Error::KexinitInvalid => DisconnectReason::KeyExchangeFailed,
        Error::NoCommonKex => DisconnectReason::KeyExchangeFailed,
        Error::NoCommonCipher => DisconnectReason::KeyExchangeFailed,
        Error::NoCommonMac => DisconnectReason::KeyExchangeFailed,
        Error::NoCommonCompression => DisconnectReason::KeyExchangeFailed,
        Error::NoCommonKey => DisconnectReason::KeyExchangeFailed,
        Error::HostKeySignature => DisconnectReason::HostKeyNotVerifiable,
        Error::ServiceNotAvailable => DisconnectReason::ServiceNotAvailable,
        Error::Timeout => DisconnectReason::ConnectionLost,
        Error::Disconnected { reason, .. } => reason,
        _ => DisconnectReason::ProtocolError,
    }
}

/// The reason that is given to the peer when the session fails with `e`.
pub fn reason(e: &Error) -> (r: DisconnectReason)
    ensures
        r == reason_for(*e),
{
    match e {
        Error::BadMac => DisconnectReason::MacError,
        Error::Decompress => DisconnectReason::CompressionError,
        Error::IdentificationInvalid => DisconnectReason::ProtocolVersionNotSupported,
        Error::KexinitInvalid => DisconnectReason::KeyExchangeFailed,
        Error::NoCommonKex => DisconnectReason::KeyExchangeFailed,
        Error::NoCommonCipher => DisconnectReason::KeyExchangeFailed,
        Error::NoCommonMac => DisconnectReason::KeyExchangeFailed,
        Error::NoCommonCompression => DisconnectReason::KeyExchangeFailed,
        Error::NoCommonKey => DisconnectReason::KeyExchangeFailed,
        Error::HostKeySignature => DisconnectReason::HostKeyNotVerifiable,
        Error::ServiceNotAvailable => DisconnectReason::ServiceNotAvailable,
        Error::Timeout => DisconnectReason::ConnectionLost,
        Error::Disconnected { reason, .. } => *reason,
        _ => DisconnectReason::ProtocolError,
    }
}

} // verus!
