//! What can go wrong, and the reasons a peer can give for hanging up.

use vstd::prelude::*;

verus! {

/// The reason given in a disconnect message.
#[derive(Debug, Clone, Copy, PartialEq, Eq, Structural)]
pub enum DisconnectReason {
    /// The host is not allowed to connect.
    HostNotAllowedToConnect,
    /// The protocol was violated.
    ProtocolError,
    /// The key exchange failed.
    KeyExchangeFailed,
    /// Reserved.
    Reserved,
    /// A packet failed its integrity check.
    MacError,
    /// A payload could not be compressed or decompressed.
    CompressionError,
    /// The requested service is not available.
    ServiceNotAvailable,
    /// The protocol version is not supported.
    ProtocolVersionNotSupported,
    /// The host key could not be verified.
    HostKeyNotVerifiable,
    /// The connection was lost.
    ConnectionLost,
    /// The application hung up.
    ByApplication,
    /// There are too many connections.
    TooManyConnections,
    /// The user cancelled the authentication.
    AuthCancelledByUser,
    /// No authentication method is left to try.
    NoMoreAuthMethodsAvailable,
    /// The user name is not acceptable.
    IllegalUserName,
    /// Any other reason, by its code.
    Other(u32),
}

impl DisconnectReason {
    /// The code of the reason on the wire.
    pub open spec fn spec_code(self) -> u32 {
        match self {
            DisconnectReason::HostNotAllowedToConnect => 1,
            DisconnectReason::ProtocolError => 2,
            DisconnectReason::KeyExchangeFailed => 3,
            DisconnectReason::Reserved => 4,
            DisconnectReason::MacError => 5,
            DisconnectReason::CompressionError => 6,
            DisconnectReason::ServiceNotAvailable => 7,
            DisconnectReason::ProtocolVersionNotSupported => 8,
            DisconnectReason::HostKeyNotVerifiable => 9,
            DisconnectReason::ConnectionLost => 10,
            DisconnectReason::ByApplication => 11,
            DisconnectReason::TooManyConnections => 12,
            DisconnectReason::AuthCancelledByUser => 13,
            DisconnectReason::NoMoreAuthMethodsAvailable => 14,
            DisconnectReason::IllegalUserName => 15,
            DisconnectReason::Other(code) => code,
        }
    }

    /// The reason that goes by `code`: one of the fifteen named reasons for
    /// the codes 1 to 15, `Other` for every other code.
    pub open spec fn spec_from_code(code: u32) -> DisconnectReason {
        if code == 1 {
            DisconnectReason::HostNotAllowedToConnect
        } else if code == 2 {
            DisconnectReason::ProtocolError
        } else if code == 3 {
            DisconnectReason::KeyExchangeFailed
        } else if code == 4 {
            DisconnectReason::Reserved
        } else if code == 5 {
            DisconnectReason::MacError
        } else if code == 6 {
            DisconnectReason::CompressionError
        } else if code == 7 {
            DisconnectReason::ServiceNotAvailable
        } else if code == 8 {
            DisconnectReason::ProtocolVersionNotSupported
        } else if code == 9 {
            DisconnectReason::HostKeyNotVerifiable
        } else if code == 10 {
            DisconnectReason::ConnectionLost
        } else if code == 11 {
            DisconnectReason::ByApplication
        } else if code == 12 {
            DisconnectReason::TooManyConnections
        } else if code == 13 {
            DisconnectReason::AuthCancelledByUser
        } else if code == 14 {
            DisconnectReason::NoMoreAuthMethodsAvailable
        } else if code == 15 {
            DisconnectReason::IllegalUserName
        } else {
            DisconnectReason::Other(code)
        }
    }

    /// The code of the reason on the wire.
    pub fn code(&self) -> (r: u32)
        ensures
            r == self.spec_code(),
    {
        match self {
            DisconnectReason::HostNotAllowedToConnect => 1,
            DisconnectReason::ProtocolError => 2,
            DisconnectReason::KeyExchangeFailed => 3,
            DisconnectReason::Reserved => 4,
            DisconnectReason::MacError => 5,
            DisconnectReason::CompressionError => 6,
            DisconnectReason::ServiceNotAvailable => 7,
            DisconnectReason::ProtocolVersionNotSupported => 8,
            DisconnectReason::HostKeyNotVerifiable => 9,
            DisconnectReason::ConnectionLost => 10,
            DisconnectReason::ByApplication => 11,
            DisconnectReason::TooManyConnections => 12,
            DisconnectReason::AuthCancelledByUser => 13,
            DisconnectReason::NoMoreAuthMethodsAvailable => 14,
            DisconnectReason::IllegalUserName => 15,
            DisconnectReason::Other(code) => *code,
        }
    }

    /// The reason that goes by `code`.
    pub fn from_code(code: u32) -> (r: DisconnectReason)
        ensures
            r == DisconnectReason::spec_from_code(code),
            r.spec_code() == code,
    {
        match code {
            1 => DisconnectReason::HostNotAllowedToConnect,
            2 => DisconnectReason::ProtocolError,
            3 => DisconnectReason::KeyExchangeFailed,
            4 => DisconnectReason::Reserved,
            5 => DisconnectReason::MacError,
            6 => DisconnectReason::CompressionError,
            7 => DisconnectReason::ServiceNotAvailable,
            8 => DisconnectReason::ProtocolVersionNotSupported,
            9 => DisconnectReason::HostKeyNotVerifiable,
            10 => DisconnectReason::ConnectionLost,
            11 => DisconnectReason::ByApplication,
            12 => DisconnectReason::TooManyConnections,
            13 => DisconnectReason::AuthCancelledByUser,
            14 => DisconnectReason::NoMoreAuthMethodsAvailable,
            15 => DisconnectReason::IllegalUserName,
            _ => DisconnectReason::Other(code),
        }
    }
}

/// What can go wrong in a session.
#[allow(inconsistent_fields)]
#[derive(Debug, Clone, PartialEq, Eq)]
pub enum Error {
    /// The peer's identification string is not one of protocol version 2.
    IdentificationInvalid,
    /// The peer's algorithm proposal cannot be read.
    KexinitInvalid,
    /// The two sides share no key exchange algorithm.
    NoCommonKex,
    /// The two sides share no encryption algorithm.
    NoCommonCipher,
    /// The two sides share no message authentication algorithm.
    NoCommonMac,
    /// The two sides share no compression algorithm.
    NoCommonCompression,
    /// The two sides share no host key algorithm.
    NoCommonKey,
    /// The host key's signature over the exchange hash does not verify.
    HostKeySignature,
    /// A packet failed its integrity check.
    BadMac,
    /// A payload could not be decompressed.
    Decompress,
    /// A packet announces a length that is too small, too large or misaligned.
    InvalidLength,
    /// An operation on the transport took too long.
    Timeout,
    /// The bytes at hand end before the packet does.
    ShortRead,
    /// A message came that the state of the session does not allow.
    UnexpectedMessage,
    /// The requested service is not available.
    ServiceNotAvailable,
    /// The peer hung up, for the given reason and with the given description.
    Disconnected {
        /// The reason the peer gave.
        reason: DisconnectReason,
        /// The description the peer gave.
        description: Vec<u8>,
    },
    /// The peer refused to open a channel.
    ChannelOpenRejected {
        /// The code of the reason the peer gave.
        reason: u32,
        /// The description the peer gave.
        description: Vec<u8>,
    },
    /// The channel is closed.
    ChannelClosed,
    /// A window adjustment would take the window past its largest value.
    WindowOverflow,
    /// The peer broke a rule of the protocol.
    ProtocolViolation,
}

/// A result of this library.
pub type Result<T> = core::result::Result<T, Error>;

} // verus!
