//! The messages of the transport and connection layers, and their encoding
//! as packet payloads.

use vstd::prelude::*;
use crate::error::{DisconnectReason, Error};
use crate::kexinit::{
    lemma_take_kex_init, put_kex_init, read_kex_init, take_kex_init, KexInit, KexInitView,
};
use crate::wire::{
    bool_byte, lemma_take_bool, lemma_take_string, lemma_take_u32, lemma_take_u8, put_bool,
    put_bytes, put_string, put_u32, string_bytes, take_bool, take_string, take_u32, take_u8,
    u32_be, Reader,
};

verus! {


/// The number of the message `Disconnect`.
pub const DISCONNECT: u8 = 1;

/// The number of the message `Ignore`.
pub const IGNORE: u8 = 2;

/// The number of the message `Unimplemented`.
pub const UNIMPLEMENTED: u8 = 3;

/// The number of the message `Debug`.
pub const DEBUG: u8 = 4;

/// The number of the message `ServiceRequest`.
pub const SERVICE_REQUEST: u8 = 5;

/// The number of the message `ServiceAccept`.
pub const SERVICE_ACCEPT: u8 = 6;

/// The number of the message `KexInit`.
pub const KEX_INIT: u8 = 20;

/// The number of the message `NewKeys`.
pub const NEW_KEYS: u8 = 21;

/// The number of the message `KexEcdhInit`.
pub const KEX_ECDH_INIT: u8 = 30;

/// The number of the message `KexEcdhReply`.
pub const KEX_ECDH_REPLY: u8 = 31;

/// The number of the message `GlobalRequest`.
pub const GLOBAL_REQUEST: u8 = 80;

/// The number of the message `RequestSuccess`.
pub const REQUEST_SUCCESS: u8 = 81;

/// The number of the message `RequestFailure`.
pub const REQUEST_FAILURE: u8 = 82;

/// The number of the message `ChannelOpen`.
pub const CHANNEL_OPEN: u8 = 90;

/// The number of the message `ChannelOpenConfirmation`.
pub const CHANNEL_OPEN_CONFIRMATION: u8 = 91;

/// The number of the message `ChannelOpenFailure`.
pub const CHANNEL_OPEN_FAILURE: u8 = 92;

/// The number of the message `ChannelWindowAdjust`.
pub const CHANNEL_WINDOW_ADJUST: u8 = 93;

/// The number of the message `ChannelData`.
pub const CHANNEL_DATA: u8 = 94;

/// The number of the message `ChannelExtendedData`.
pub const CHANNEL_EXTENDED_DATA: u8 = 95;

/// The number of the message `ChannelEof`.
pub const CHANNEL_EOF: u8 = 96;

/// The number of the message `ChannelClose`.
pub const CHANNEL_CLOSE: u8 = 97;

/// The number of the message `ChannelRequest`.
pub const CHANNEL_REQUEST: u8 = 98;

/// The number of the message `ChannelSuccess`.
pub const CHANNEL_SUCCESS: u8 = 99;

/// The number of the message `ChannelFailure`.
pub const CHANNEL_FAILURE: u8 = 100;

/// A message.
#[allow(inconsistent_fields)]
#[derive(Debug, Clone, PartialEq, Eq)]
pub enum Message {
    /// The peer hangs up.
    Disconnect {
        /// The reason for hanging up.
        reason: DisconnectReason,
        /// A description for a human reader.
        description: Vec<u8>,
        /// The language tag of the description.
        language: Vec<u8>,
    },
    /// Data to be ignored.
    Ignore {
        /// The data.
        data: Vec<u8>,
    },
    /// A message was not understood.
    Unimplemented {
        /// The sequence number of the packet that was not understood.
        seq: u32,
    },
    /// A message for debugging.
    Debug {
        /// Whether the message should be shown in any case.
        always_display: bool,
        /// The message.
        message: Vec<u8>,
        /// The language tag of the message.
        language: Vec<u8>,
    },
    /// A request for a service.
    ServiceRequest {
        /// The name of the service.
        service_name: Vec<u8>,
    },
    /// A service was granted.
    ServiceAccept {
        /// The name of the service.
        service_name: Vec<u8>,
    },
    /// The algorithms that a side proposes.
    KexInit {
        /// The proposal.
        proposal: KexInit,
    },
    /// From here on the new keys are in use.
    NewKeys,
    /// The client's ephemeral public key.
    KexEcdhInit {
        /// The client's ephemeral public key.
        q_c: Vec<u8>,
    },
    /// The server's answer to the client's ephemeral public key.
    KexEcdhReply {
        /// The server's public host key.
        k_s: Vec<u8>,
        /// The server's ephemeral public key.
        q_s: Vec<u8>,
        /// The signature of the exchange hash.
        signature: Vec<u8>,
    },
    /// A request that concerns no channel.
    GlobalRequest {
        /// The name of the request.
        request_name: Vec<u8>,
        /// Whether an answer is asked for.
        want_reply: bool,
        /// What is specific to the request.
        data: Vec<u8>,
    },
    /// A global request succeeded.
    RequestSuccess {
        /// What is specific to the request.
        data: Vec<u8>,
    },
    /// A global request failed.
    RequestFailure,
    /// A request to open a channel.
    ChannelOpen {
        /// The type of the channel.
        channel_type: Vec<u8>,
        /// The sender's number for the channel.
        sender_channel: u32,
        /// The sender's initial window.
        initial_window_size: u32,
        /// The largest packet that the sender accepts.
        maximum_packet_size: u32,
        /// What is specific to the channel type.
        data: Vec<u8>,
    },
    /// A channel was opened.
    ChannelOpenConfirmation {
        /// The recipient's number for the channel.
        recipient_channel: u32,
        /// The sender's number for the channel.
        sender_channel: u32,
        /// The sender's initial window.
        initial_window_size: u32,
        /// The largest packet that the sender accepts.
        maximum_packet_size: u32,
        /// What is specific to the channel type.
        data: Vec<u8>,
    },
    /// A channel was not opened.
    ChannelOpenFailure {
        /// The recipient's number for the channel.
        recipient_channel: u32,
        /// The code of the reason.
        reason: u32,
        /// A description for a human reader.
        description: Vec<u8>,
        /// The language tag of the description.
        language: Vec<u8>,
    },
    /// The sender's window grows.
    ChannelWindowAdjust {
        /// The recipient's number for the channel.
        recipient_channel: u32,
        /// The number of bytes that the window grows by.
        bytes_to_add: u32,
    },
    /// Data on a channel.
    ChannelData {
        /// The recipient's number for the channel.
        recipient_channel: u32,
        /// The data.
        data: Vec<u8>,
    },
    /// Data on an extended stream of a channel.
    ChannelExtendedData {
        /// The recipient's number for the channel.
        recipient_channel: u32,
        /// The code of the stream.
        data_type: u32,
        /// The data.
        data: Vec<u8>,
    },
    /// No more data will come on a channel.
    ChannelEof {
        /// The recipient's number for the channel.
        recipient_channel: u32,
    },
    /// A channel is closed.
    ChannelClose {
        /// The recipient's number for the channel.
        recipient_channel: u32,
    },
    /// A request on a channel.
    ChannelRequest {
        /// The recipient's number for the channel.
        recipient_channel: u32,
        /// The type of the request.
        request_type: Vec<u8>,
        /// Whether an answer is asked for.
        want_reply: bool,
        /// What is specific to the request type.
        data: Vec<u8>,
    },
    /// A channel request succeeded.
    ChannelSuccess {
        /// The recipient's number for the channel.
        recipient_channel: u32,
    },
    /// A channel request failed.
    ChannelFailure {
        /// The recipient's number for the channel.
        recipient_channel: u32,
    },
    /// A message of another layer, by its number and its bytes.
    Other {
        /// The number of the message.
        number: u8,
        /// The bytes after the number.
        data: Vec<u8>,
    },
}

/// A message as contracts see it.
#[allow(inconsistent_fields)]
pub enum MessageView {
    /// The peer hangs up.
    Disconnect {
        /// The reason for hanging up.
        reason: DisconnectReason,
        /// A description for a human reader.
        description: Seq<u8>,
        /// The language tag of the description.
        language: Seq<u8>,
    },
    /// Data to be ignored.
    Ignore {
        /// The data.
        data: Seq<u8>,
    },
    /// A message was not understood.
    Unimplemented {
        /// The sequence number of the packet that was not understood.
        seq: u32,
    },
    /// A message for debugging.
    Debug {
        /// Whether the message should be shown in any case.
        always_display: bool,
        /// The message.
        message: Seq<u8>,
        /// The language tag of the message.
        language: Seq<u8>,
    },
    /// A request for a service.
    ServiceRequest {
        /// The name of the service.
        service_name: Seq<u8>,
    },
    /// A service was granted.
    ServiceAccept {
        /// The name of the service.
        service_name: Seq<u8>,
    },
    /// The algorithms that a side proposes.
    KexInit {
        /// The proposal.
        proposal: KexInitView,
    },
    /// From here on the new keys are in use.
    NewKeys,
    /// The client's ephemeral public key.
    KexEcdhInit {
        /// The client's ephemeral public key.
        q_c: Seq<u8>,
    },
    /// The server's answer to the client's ephemeral public key.
    KexEcdhReply {
        /// The server's public host key.
        k_s: Seq<u8>,
        /// The server's ephemeral public key.
        q_s: Seq<u8>,
        /// The signature of the exchange hash.
        signature: Seq<u8>,
    },
    /// A request that concerns no channel.
    GlobalRequest {
        /// The name of the request.
        request_name: Seq<u8>,
        /// Whether an answer is asked for.
        want_reply: bool,
        /// What is specific to the request.
        data: Seq<u8>,
    },
    /// A global request succeeded.
    RequestSuccess {
        /// What is specific to the request.
        data: Seq<u8>,
    },
    /// A global request failed.
    RequestFailure,
    /// A request to open a channel.
    ChannelOpen {
        /// The type of the channel.
        channel_type: Seq<u8>,
        /// The sender's number for the channel.
        sender_channel: u32,
        /// The sender's initial window.
        initial_window_size: u32,
        /// The largest packet that the sender accepts.
        maximum_packet_size: u32,
        /// What is specific to the channel type.
        data: Seq<u8>,
    },
    /// A channel was opened.
    ChannelOpenConfirmation {
        /// The recipient's number for the channel.
        recipient_channel: u32,
        /// The sender's number for the channel.
        sender_channel: u32,
        /// The sender's initial window.
        initial_window_size: u32,
        /// The largest packet that the sender accepts.
        maximum_packet_size: u32,
        /// What is specific to the channel type.
        data: Seq<u8>,
    },
    /// A channel was not opened.
    ChannelOpenFailure {
        /// The recipient's number for the channel.
        recipient_channel: u32,
        /// The code of the reason.
        reason: u32,
        /// A description for a human reader.
        description: Seq<u8>,
        /// The language tag of the description.
        language: Seq<u8>,
    },
    /// The sender's window grows.
    ChannelWindowAdjust {
        /// The recipient's number for the channel.
        recipient_channel: u32,
        /// The number of bytes that the window grows by.
        bytes_to_add: u32,
    },
    /// Data on a channel.
    ChannelData {
        /// The recipient's number for the channel.
        recipient_channel: u32,
        /// The data.
        data: Seq<u8>,
    },
    /// Data on an extended stream of a channel.
    ChannelExtendedData {
        /// The recipient's number for the channel.
        recipient_channel: u32,
        /// The code of the stream.
        data_type: u32,
        /// The data.
        data: Seq<u8>,
    },
    /// No more data will come on a channel.
    ChannelEof {
        /// The recipient's number for the channel.
        recipient_channel: u32,
    },
    /// A channel is closed.
    ChannelClose {
        /// The recipient's number for the channel.
        recipient_channel: u32,
    },
    /// A request on a channel.
    ChannelRequest {
        /// The recipient's number for the channel.
        recipient_channel: u32,
        /// The type of the request.
        request_type: Seq<u8>,
        /// Whether an answer is asked for.
        want_reply: bool,
        /// What is specific to the request type.
        data: Seq<u8>,
    },
    /// A channel request succeeded.
    ChannelSuccess {
        /// The recipient's number for the channel.
        recipient_channel: u32,
    },
    /// A channel request failed.
    ChannelFailure {
        /// The recipient's number for the channel.
        recipient_channel: u32,
    },
    /// A message of another layer, by its number and its bytes.
    Other {
        /// The number of the message.
        number: u8,
        /// The bytes after the number.
        data: Seq<u8>,
    },
}

impl View for Message {
    type V = MessageView;

    open spec fn view(&self) -> MessageView {
        match *self {
            Message::Disconnect { reason, description, language } => MessageView::Disconnect { reason, description: description@, language: language@ },
            Message::Ignore { data } => MessageView::Ignore { data: data@ },
            Message::Unimplemented { seq } => MessageView::Unimplemented { seq },
            Message::Debug { always_display, message, language } => MessageView::Debug { always_display, message: message@, language: language@ },
            Message::ServiceRequest { service_name } => MessageView::ServiceRequest { service_name: service_name@ },
            Message::ServiceAccept { service_name } => MessageView::ServiceAccept { service_name: service_name@ },
            Message::KexInit { proposal } => MessageView::KexInit { proposal: proposal@ },
            Message::NewKeys => MessageView::NewKeys,
            Message::KexEcdhInit { q_c } => MessageView::KexEcdhInit { q_c: q_c@ },
            Message::KexEcdhReply { k_s, q_s, signature } => MessageView::KexEcdhReply { k_s: k_s@, q_s: q_s@, signature: signature@ },
            Message::GlobalRequest { request_name, want_reply, data } => MessageView::GlobalRequest { request_name: request_name@, want_reply, data: data@ },
            Message::RequestSuccess { data } => MessageView::RequestSuccess { data: data@ },
            Message::RequestFailure => MessageView::RequestFailure,
            Message::ChannelOpen { channel_type, sender_channel, initial_window_size, maximum_packet_size, data } => MessageView::ChannelOpen { channel_type: channel_type@, sender_channel, initial_window_size, maximum_packet_size, data: data@ },
            Message::ChannelOpenConfirmation { recipient_channel, sender_channel, initial_window_size, maximum_packet_size, data } => MessageView::ChannelOpenConfirmation { recipient_channel, sender_channel, initial_window_size, maximum_packet_size, data: data@ },
            Message::ChannelOpenFailure { recipient_channel, reason, description, language } => MessageView::ChannelOpenFailure { recipient_channel, reason, description: description@, language: language@ },
            Message::ChannelWindowAdjust { recipient_channel, bytes_to_add } => MessageView::ChannelWindowAdjust { recipient_channel, bytes_to_add },
            Message::ChannelData { recipient_channel, data } => MessageView::ChannelData { recipient_channel, data: data@ },
            Message::ChannelExtendedData { recipient_channel, data_type, data } => MessageView::ChannelExtendedData { recipient_channel, data_type, data: data@ },
            Message::ChannelEof { recipient_channel } => MessageView::ChannelEof { recipient_channel },
            Message::ChannelClose { recipient_channel } => MessageView::ChannelClose { recipient_channel },
            Message::ChannelRequest { recipient_channel, request_type, want_reply, data } => MessageView::ChannelRequest { recipient_channel, request_type: request_type@, want_reply, data: data@ },
            Message::ChannelSuccess { recipient_channel } => MessageView::ChannelSuccess { recipient_channel },
            Message::ChannelFailure { recipient_channel } => MessageView::ChannelFailure { recipient_channel },
            Message::Other { number, data } => MessageView::Other { number, data: data@ },
        }
    }
}

/// Whether `number` is the number of a message of the transport or
/// connection layer.
pub open spec fn known_number(number: u8) -> bool {
    number == DISCONNECT
    || number == IGNORE
    || number == UNIMPLEMENTED
    || number == DEBUG
    || number == SERVICE_REQUEST
    || number == SERVICE_ACCEPT
    || number == KEX_INIT
    || number == NEW_KEYS
    || number == KEX_ECDH_INIT
    || number == KEX_ECDH_REPLY
    || number == GLOBAL_REQUEST
    || number == REQUEST_SUCCESS
    || number == REQUEST_FAILURE
    || number == CHANNEL_OPEN
    || number == CHANNEL_OPEN_CONFIRMATION
    || number == CHANNEL_OPEN_FAILURE
    || number == CHANNEL_WINDOW_ADJUST
    || number == CHANNEL_DATA
    || number == CHANNEL_EXTENDED_DATA
    || number == CHANNEL_EOF
    || number == CHANNEL_CLOSE
    || number == CHANNEL_REQUEST
    || number == CHANNEL_SUCCESS
    || number == CHANNEL_FAILURE
}

impl MessageView {
    /// Whether the message can be encoded: its strings are short enough for
    /// their length prefix, a proposal is well formed, a reason is named where
    /// it has a name, and a message of another layer does not bear the number
    /// of one of this layer.
    pub open spec fn wf(self) -> bool {
        match self {
            MessageView::Disconnect { reason, description, language } => {
                reason == DisconnectReason::spec_from_code(reason.spec_code())
                && description.len() <= u32::MAX
                && language.len() <= u32::MAX
            },
            MessageView::Ignore { data } => {
                data.len() <= u32::MAX
            },
            MessageView::Debug { message, language, .. } => {
                message.len() <= u32::MAX
                && language.len() <= u32::MAX
            },
            MessageView::ServiceRequest { service_name } => {
                service_name.len() <= u32::MAX
            },
            MessageView::ServiceAccept { service_name } => {
                service_name.len() <= u32::MAX
            },
            MessageView::KexInit { proposal } => {
                proposal.wf()
            },
            MessageView::KexEcdhInit { q_c } => {
                q_c.len() <= u32::MAX
            },
            MessageView::KexEcdhReply { k_s, q_s, signature } => {
                k_s.len() <= u32::MAX
                && q_s.len() <= u32::MAX
                && signature.len() <= u32::MAX
            },
            MessageView::GlobalRequest { request_name, .. } => {
                request_name.len() <= u32::MAX
            },
            MessageView::ChannelOpen { channel_type, .. } => {
                channel_type.len() <= u32::MAX
            },
            MessageView::ChannelOpenFailure { description, language, .. } => {
                description.len() <= u32::MAX
                && language.len() <= u32::MAX
            },
            MessageView::ChannelData { data, .. } => {
                data.len() <= u32::MAX
            },
            MessageView::ChannelExtendedData { data, .. } => {
                data.len() <= u32::MAX
            },
            MessageView::ChannelRequest { request_type, .. } => {
                request_type.len() <= u32::MAX
            },
            MessageView::Other { number, .. } => !known_number(number),
            _ => true,
        }
    }

    /// The payload that carries the message: its number, then its fields in
    /// order.
    pub open spec fn encoded(self) -> Seq<u8> {
        match self {
            MessageView::Disconnect { reason, description, language } => {
                seq![DISCONNECT] + (u32_be(reason.spec_code()) + (string_bytes(description) + (string_bytes(language))))
            },
            MessageView::Ignore { data } => {
                seq![IGNORE] + (string_bytes(data))
            },
            MessageView::Unimplemented { seq } => {
                seq![UNIMPLEMENTED] + (u32_be(seq))
            },
            MessageView::Debug { always_display, message, language } => {
                seq![DEBUG] + (seq![bool_byte(always_display)] + (string_bytes(message) + (string_bytes(language))))
            },
            MessageView::ServiceRequest { service_name } => {
                seq![SERVICE_REQUEST] + (string_bytes(service_name))
            },
            MessageView::ServiceAccept { service_name } => {
                seq![SERVICE_ACCEPT] + (string_bytes(service_name))
            },
            MessageView::KexInit { proposal } => {
                seq![KEX_INIT] + (proposal.encoded())
            },
            MessageView::NewKeys => seq![NEW_KEYS],
            MessageView::KexEcdhInit { q_c } => {
                seq![KEX_ECDH_INIT] + (string_bytes(q_c))
            },
            MessageView::KexEcdhReply { k_s, q_s, signature } => {
                seq![KEX_ECDH_REPLY] + (string_bytes(k_s) + (string_bytes(q_s) + (string_bytes(signature))))
            },
            MessageView::GlobalRequest { request_name, want_reply, data } => {
                seq![GLOBAL_REQUEST] + (string_bytes(request_name) + (seq![bool_byte(want_reply)] + (data)))
            },
            MessageView::RequestSuccess { data } => {
                seq![REQUEST_SUCCESS] + (data)
            },
            MessageView::RequestFailure => seq![REQUEST_FAILURE],
            MessageView::ChannelOpen { channel_type, sender_channel, initial_window_size, maximum_packet_size, data } => {
                seq![CHANNEL_OPEN] + (string_bytes(channel_type) + (u32_be(sender_channel) + (u32_be(initial_window_size) + (u32_be(maximum_packet_size) + (data)))))
            },
            MessageView::ChannelOpenConfirmation { recipient_channel, sender_channel, initial_window_size, maximum_packet_size, data } => {
                seq![CHANNEL_OPEN_CONFIRMATION] + (u32_be(recipient_channel) + (u32_be(sender_channel) + (u32_be(initial_window_size) + (u32_be(maximum_packet_size) + (data)))))
            },
            MessageView::ChannelOpenFailure { recipient_channel, reason, description, language } => {
                seq![CHANNEL_OPEN_FAILURE] + (u32_be(recipient_channel) + (u32_be(reason) + (string_bytes(description) + (string_bytes(language)))))
            },
            MessageView::ChannelWindowAdjust { recipient_channel, bytes_to_add } => {
                seq![CHANNEL_WINDOW_ADJUST] + (u32_be(recipient_channel) + (u32_be(bytes_to_add)))
            },
            MessageView::ChannelData { recipient_channel, data } => {
                seq![CHANNEL_DATA] + (u32_be(recipient_channel) + (string_bytes(data)))
            },
            MessageView::ChannelExtendedData { recipient_channel, data_type, data } => {
                seq![CHANNEL_EXTENDED_DATA] + (u32_be(recipient_channel) + (u32_be(data_type) + (string_bytes(data))))
            },
            MessageView::ChannelEof { recipient_channel } => {
                seq![CHANNEL_EOF] + (u32_be(recipient_channel))
            },
            MessageView::ChannelClose { recipient_channel } => {
                seq![CHANNEL_CLOSE] + (u32_be(recipient_channel))
            },
            MessageView::ChannelRequest { recipient_channel, request_type, want_reply, data } => {
                seq![CHANNEL_REQUEST] + (u32_be(recipient_channel) + (string_bytes(request_type) + (seq![bool_byte(want_reply)] + (data))))
            },
            MessageView::ChannelSuccess { recipient_channel } => {
                seq![CHANNEL_SUCCESS] + (u32_be(recipient_channel))
            },
            MessageView::ChannelFailure { recipient_channel } => {
                seq![CHANNEL_FAILURE] + (u32_be(recipient_channel))
            },
            MessageView::Other { number, data } => seq![number] + data,
        }
    }
}

/// The message `Disconnect` whose fields the bytes `b` hold, if they hold them
/// all.
pub open spec fn decoded_disconnect(b: Seq<u8>) -> Option<MessageView> {
    match take_u32(b) {
        None => None,
        Some((reason, b)) => {
            match take_string(b) {
                None => None,
                Some((description, b)) => {
                    match take_string(b) {
                        None => None,
                        Some((language, b)) => {
                            Some(MessageView::Disconnect { reason: DisconnectReason::spec_from_code(reason), description, language })
                        },
                    }
                },
            }
        },
    }
}

/// The message `Ignore` whose fields the bytes `b` hold, if they hold them
/// all.
pub open spec fn decoded_ignore(b: Seq<u8>) -> Option<MessageView> {
    match take_string(b) {
        None => None,
        Some((data, b)) => {
            Some(MessageView::Ignore { data })
        },
    }
}

/// The message `Unimplemented` whose fields the bytes `b` hold, if they hold them
/// all.
pub open spec fn decoded_unimplemented(b: Seq<u8>) -> Option<MessageView> {
    match take_u32(b) {
        None => None,
        Some((seq, b)) => {
            Some(MessageView::Unimplemented { seq })
        },
    }
}

/// The message `Debug` whose fields the bytes `b` hold, if they hold them
/// all.
pub open spec fn decoded_debug(b: Seq<u8>) -> Option<MessageView> {
    match take_bool(b) {
        None => None,
        Some((always_display, b)) => {
            match take_string(b) {
                None => None,
                Some((message, b)) => {
                    match take_string(b) {
                        None => None,
                        Some((language, b)) => {
                            Some(MessageView::Debug { always_display, message, language })
                        },
                    }
                },
            }
        },
    }
}

/// The message `ServiceRequest` whose fields the bytes `b` hold, if they hold them
/// all.
pub open spec fn decoded_service_request(b: Seq<u8>) -> Option<MessageView> {
    match take_string(b) {
        None => None,
        Some((service_name, b)) => {
            Some(MessageView::ServiceRequest { service_name })
        },
    }
}

/// The message `ServiceAccept` whose fields the bytes `b` hold, if they hold them
/// all.
pub open spec fn decoded_service_accept(b: Seq<u8>) -> Option<MessageView> {
    match take_string(b) {
        None => None,
        Some((service_name, b)) => {
            Some(MessageView::ServiceAccept { service_name })
        },
    }
}

/// The message `KexInit` whose fields the bytes `b` hold, if they hold them
/// all.
pub open spec fn decoded_kex_init(b: Seq<u8>) -> Option<MessageView> {
    match take_kex_init(b) {
        None => None,
        Some((proposal, b)) => {
            Some(MessageView::KexInit { proposal })
        },
    }
}

/// The message `KexEcdhInit` whose fields the bytes `b` hold, if they hold them
/// all.
pub open spec fn decoded_kex_ecdh_init(b: Seq<u8>) -> Option<MessageView> {
    match take_string(b) {
        None => None,
        Some((q_c, b)) => {
            Some(MessageView::KexEcdhInit { q_c })
        },
    }
}

/// The message `KexEcdhReply` whose fields the bytes `b` hold, if they hold them
/// all.
pub open spec fn decoded_kex_ecdh_reply(b: Seq<u8>) -> Option<MessageView> {
    match take_string(b) {
        None => None,
        Some((k_s, b)) => {
            match take_string(b) {
                None => None,
                Some((q_s, b)) => {
                    match take_string(b) {
                        None => None,
                        Some((signature, b)) => {
                            Some(MessageView::KexEcdhReply { k_s, q_s, signature })
                        },
                    }
                },
            }
        },
    }
}

/// The message `GlobalRequest` whose fields the bytes `b` hold, if they hold them
/// all.
pub open spec fn decoded_global_request(b: Seq<u8>) -> Option<MessageView> {
    match take_string(b) {
        None => None,
        Some((request_name, b)) => {
            match take_bool(b) {
                None => None,
                Some((want_reply, b)) => {
                    let data = b;
                    Some(MessageView::GlobalRequest { request_name, want_reply, data })
                },
            }
        },
    }
}

/// The message `RequestSuccess` whose fields the bytes `b` hold, if they hold them
/// all.
pub open spec fn decoded_request_success(b: Seq<u8>) -> Option<MessageView> {
    let data = b;
    Some(MessageView::RequestSuccess { data })
}

/// The message `ChannelOpen` whose fields the bytes `b` hold, if they hold them
/// all.
pub open spec fn decoded_channel_open(b: Seq<u8>) -> Option<MessageView> {
    match take_string(b) {
        None => None,
        Some((channel_type, b)) => {
            match take_u32(b) {
                None => None,
                Some((sender_channel, b)) => {
                    match take_u32(b) {
                        None => None,
                        Some((initial_window_size, b)) => {
                            match take_u32(b) {
                                None => None,
                                Some((maximum_packet_size, b)) => {
                                    let data = b;
                                    Some(MessageView::ChannelOpen { channel_type, sender_channel, initial_window_size, maximum_packet_size, data })
                                },
                            }
                        },
                    }
                },
            }
        },
    }
}

/// The message `ChannelOpenConfirmation` whose fields the bytes `b` hold, if they hold them
/// all.
pub open spec fn decoded_channel_open_confirmation(b: Seq<u8>) -> Option<MessageView> {
    match take_u32(b) {
        None => None,
        Some((recipient_channel, b)) => {
            match take_u32(b) {
                None => None,
                Some((sender_channel, b)) => {
                    match take_u32(b) {
                        None => None,
                        Some((initial_window_size, b)) => {
                            match take_u32(b) {
                                None => None,
                                Some((maximum_packet_size, b)) => {
                                    let data = b;
                                    Some(MessageView::ChannelOpenConfirmation { recipient_channel, sender_channel, initial_window_size, maximum_packet_size, data })
                                },
                            }
                        },
                    }
                },
            }
        },
    }
}

/// The message `ChannelOpenFailure` whose fields the bytes `b` hold, if they hold them
/// all.
pub open spec fn decoded_channel_open_failure(b: Seq<u8>) -> Option<MessageView> {
    match take_u32(b) {
        None => None,
        Some((recipient_channel, b)) => {
            match take_u32(b) {
                None => None,
                Some((reason, b)) => {
                    match take_string(b) {
                        None => None,
                        Some((description, b)) => {
                            match take_string(b) {
                                None => None,
                                Some((language, b)) => {
                                    Some(MessageView::ChannelOpenFailure { recipient_channel, reason, description, language })
                                },
                            }
                        },
                    }
                },
            }
        },
    }
}

/// The message `ChannelWindowAdjust` whose fields the bytes `b` hold, if they hold them
/// all.
pub open spec fn decoded_channel_window_adjust(b: Seq<u8>) -> Option<MessageView> {
    match take_u32(b) {
        None => None,
        Some((recipient_channel, b)) => {
            match take_u32(b) {
                None => None,
                Some((bytes_to_add, b)) => {
                    Some(MessageView::ChannelWindowAdjust { recipient_channel, bytes_to_add })
                },
            }
        },
    }
}

/// The message `ChannelData` whose fields the bytes `b` hold, if they hold them
/// all.
pub open spec fn decoded_channel_data(b: Seq<u8>) -> Option<MessageView> {
    match take_u32(b) {
        None => None,
        Some((recipient_channel, b)) => {
            match take_string(b) {
                None => None,
                Some((data, b)) => {
                    Some(MessageView::ChannelData { recipient_channel, data })
                },
            }
        },
    }
}

/// The message `ChannelExtendedData` whose fields the bytes `b` hold, if they hold them
/// all.
pub open spec fn decoded_channel_extended_data(b: Seq<u8>) -> Option<MessageView> {
    match take_u32(b) {
        None => None,
        Some((recipient_channel, b)) => {
            match take_u32(b) {
                None => None,
                Some((data_type, b)) => {
                    match take_string(b) {
                        None => None,
                        Some((data, b)) => {
                            Some(MessageView::ChannelExtendedData { recipient_channel, data_type, data })
                        },
                    }
                },
            }
        },
    }
}

/// The message `ChannelEof` whose fields the bytes `b` hold, if they hold them
/// all.
pub open spec fn decoded_channel_eof(b: Seq<u8>) -> Option<MessageView> {
    match take_u32(b) {
        None => None,
        Some((recipient_channel, b)) => {
            Some(MessageView::ChannelEof { recipient_channel })
        },
    }
}

/// The message `ChannelClose` whose fields the bytes `b` hold, if they hold them
/// all.
pub open spec fn decoded_channel_close(b: Seq<u8>) -> Option<MessageView> {
    match take_u32(b) {
        None => None,
        Some((recipient_channel, b)) => {
            Some(MessageView::ChannelClose { recipient_channel })
        },
    }
}

/// The message `ChannelRequest` whose fields the bytes `b` hold, if they hold them
/// all.
pub open spec fn decoded_channel_request(b: Seq<u8>) -> Option<MessageView> {
    match take_u32(b) {
        None => None,
        Some((recipient_channel, b)) => {
            match take_string(b) {
                None => None,
                Some((request_type, b)) => {
                    match take_bool(b) {
                        None => None,
                        Some((want_reply, b)) => {
                            let data = b;
                            Some(MessageView::ChannelRequest { recipient_channel, request_type, want_reply, data })
                        },
                    }
                },
            }
        },
    }
}

/// The message `ChannelSuccess` whose fields the bytes `b` hold, if they hold them
/// all.
pub open spec fn decoded_channel_success(b: Seq<u8>) -> Option<MessageView> {
    match take_u32(b) {
        None => None,
        Some((recipient_channel, b)) => {
            Some(MessageView::ChannelSuccess { recipient_channel })
        },
    }
}

/// The message `ChannelFailure` whose fields the bytes `b` hold, if they hold them
/// all.
pub open spec fn decoded_channel_failure(b: Seq<u8>) -> Option<MessageView> {
    match take_u32(b) {
        None => None,
        Some((recipient_channel, b)) => {
            Some(MessageView::ChannelFailure { recipient_channel })
        },
    }
}

/// The message with the number `number` whose fields the bytes `b` hold, if
/// they hold them all; for a number of another layer, the message that is
/// made of the number and the bytes.
#[verifier::opaque]
pub open spec fn decoded_as(number: u8, b: Seq<u8>) -> Option<MessageView> {
    if number == DISCONNECT {
        decoded_disconnect(b)
    } else if number == IGNORE {
        decoded_ignore(b)
    } else if number == UNIMPLEMENTED {
        decoded_unimplemented(b)
    } else if number == DEBUG {
        decoded_debug(b)
    } else if number == SERVICE_REQUEST {
        decoded_service_request(b)
    } else if number == SERVICE_ACCEPT {
        decoded_service_accept(b)
    } else if number == KEX_INIT {
        decoded_kex_init(b)
    } else if number == NEW_KEYS {
        Some(MessageView::NewKeys)
    } else if number == KEX_ECDH_INIT {
        decoded_kex_ecdh_init(b)
    } else if number == KEX_ECDH_REPLY {
        decoded_kex_ecdh_reply(b)
    } else if number == GLOBAL_REQUEST {
        decoded_global_request(b)
    } else if number == REQUEST_SUCCESS {
        decoded_request_success(b)
    } else if number == REQUEST_FAILURE {
        Some(MessageView::RequestFailure)
    } else if number == CHANNEL_OPEN {
        decoded_channel_open(b)
    } else if number == CHANNEL_OPEN_CONFIRMATION {
        decoded_channel_open_confirmation(b)
    } else if number == CHANNEL_OPEN_FAILURE {
        decoded_channel_open_failure(b)
    } else if number == CHANNEL_WINDOW_ADJUST {
        decoded_channel_window_adjust(b)
    } else if number == CHANNEL_DATA {
        decoded_channel_data(b)
    } else if number == CHANNEL_EXTENDED_DATA {
        decoded_channel_extended_data(b)
    } else if number == CHANNEL_EOF {
        decoded_channel_eof(b)
    } else if number == CHANNEL_CLOSE {
        decoded_channel_close(b)
    } else if number == CHANNEL_REQUEST {
        decoded_channel_request(b)
    } else if number == CHANNEL_SUCCESS {
        decoded_channel_success(b)
    } else if number == CHANNEL_FAILURE {
        decoded_channel_failure(b)
    } else {
        Some(MessageView::Other { number, data: b })
    }
}

/// The message that the payload `b` carries; `None` where `b` is empty or
/// ends before the fields of its message do. Bytes after the last field are
/// passed over.
pub open spec fn decoded(b: Seq<u8>) -> Option<MessageView> {
    match take_u8(b) {
        None => None,
        Some((number, b)) => decoded_as(number, b),
    }
}

proof fn lemma_decoded_disconnect(m: MessageView)
    requires
        m.wf(),
        m is Disconnect,
    ensures
        m.encoded().len() > 0,
        decoded_as(m.encoded()[0], m.encoded().skip(1)) == Some(m),
{
    reveal(decoded_as);
    match m {
        MessageView::Disconnect { reason, description, language } => {
            let empty = Seq::<u8>::empty();
            let t0 = u32_be(reason.spec_code()) + (string_bytes(description) + (string_bytes(language)));
            let t1 = string_bytes(description) + (string_bytes(language));
            let t2 = string_bytes(language);
            assert(m.encoded()[0] == DISCONNECT);
            assert(m.encoded().skip(1) =~= t0);
            lemma_take_u32(reason.spec_code(), t1);
            assert(take_u32(t0) == Some((reason.spec_code(), t1)));
            lemma_take_string(description, t2);
            assert(take_string(t1) == Some((description, t2)));
            assert(t2 + empty =~= t2);
            lemma_take_string(language, empty);
            assert(take_string(t2) == Some((language, empty)));
            assert(decoded_disconnect(t0) == Some(m));
        },
        _ => {},
    }
}

proof fn lemma_decoded_ignore(m: MessageView)
    requires
        m.wf(),
        m is Ignore,
    ensures
        m.encoded().len() > 0,
        decoded_as(m.encoded()[0], m.encoded().skip(1)) == Some(m),
{
    reveal(decoded_as);
    match m {
        MessageView::Ignore { data } => {
            let empty = Seq::<u8>::empty();
            let t0 = string_bytes(data);
            assert(m.encoded()[0] == IGNORE);
            assert(m.encoded().skip(1) =~= t0);
            assert(t0 + empty =~= t0);
            lemma_take_string(data, empty);
            assert(take_string(t0) == Some((data, empty)));
            assert(decoded_ignore(t0) == Some(m));
        },
        _ => {},
    }
}

proof fn lemma_decoded_unimplemented(m: MessageView)
    requires
        m.wf(),
        m is Unimplemented,
    ensures
        m.encoded().len() > 0,
        decoded_as(m.encoded()[0], m.encoded().skip(1)) == Some(m),
{
    reveal(decoded_as);
    match m {
        MessageView::Unimplemented { seq } => {
            let empty = Seq::<u8>::empty();
            let t0 = u32_be(seq);
            assert(m.encoded()[0] == UNIMPLEMENTED);
            assert(m.encoded().skip(1) =~= t0);
            assert(t0 + empty =~= t0);
            lemma_take_u32(seq, empty);
            assert(take_u32(t0) == Some((seq, empty)));
            assert(decoded_unimplemented(t0) == Some(m));
        },
        _ => {},
    }
}

proof fn lemma_decoded_debug(m: MessageView)
    requires
        m.wf(),
        m is Debug,
    ensures
        m.encoded().len() > 0,
        decoded_as(m.encoded()[0], m.encoded().skip(1)) == Some(m),
{
    reveal(decoded_as);
    match m {
        MessageView::Debug { always_display, message, language } => {
            let empty = Seq::<u8>::empty();
            let t0 = seq![bool_byte(always_display)] + (string_bytes(message) + (string_bytes(language)));
            let t1 = string_bytes(message) + (string_bytes(language));
            let t2 = string_bytes(language);
            assert(m.encoded()[0] == DEBUG);
            assert(m.encoded().skip(1) =~= t0);
            lemma_take_bool(always_display, t1);
            assert(take_bool(t0) == Some((always_display, t1)));
            lemma_take_string(message, t2);
            assert(take_string(t1) == Some((message, t2)));
            assert(t2 + empty =~= t2);
            lemma_take_string(language, empty);
            assert(take_string(t2) == Some((language, empty)));
            assert(decoded_debug(t0) == Some(m));
        },
        _ => {},
    }
}

proof fn lemma_decoded_service_request(m: MessageView)
    requires
        m.wf(),
        m is ServiceRequest,
    ensures
        m.encoded().len() > 0,
        decoded_as(m.encoded()[0], m.encoded().skip(1)) == Some(m),
{
    reveal(decoded_as);
    match m {
        MessageView::ServiceRequest { service_name } => {
            let empty = Seq::<u8>::empty();
            let t0 = string_bytes(service_name);
            assert(m.encoded()[0] == SERVICE_REQUEST);
            assert(m.encoded().skip(1) =~= t0);
            assert(t0 + empty =~= t0);
            lemma_take_string(service_name, empty);
            assert(take_string(t0) == Some((service_name, empty)));
            assert(decoded_service_request(t0) == Some(m));
        },
        _ => {},
    }
}

proof fn lemma_decoded_service_accept(m: MessageView)
    requires
        m.wf(),
        m is ServiceAccept,
    ensures
        m.encoded().len() > 0,
        decoded_as(m.encoded()[0], m.encoded().skip(1)) == Some(m),
{
    reveal(decoded_as);
    match m {
        MessageView::ServiceAccept { service_name } => {
            let empty = Seq::<u8>::empty();
            let t0 = string_bytes(service_name);
            assert(m.encoded()[0] == SERVICE_ACCEPT);
            assert(m.encoded().skip(1) =~= t0);
            assert(t0 + empty =~= t0);
            lemma_take_string(service_name, empty);
            assert(take_string(t0) == Some((service_name, empty)));
            assert(decoded_service_accept(t0) == Some(m));
        },
        _ => {},
    }
}

proof fn lemma_decoded_kex_init(m: MessageView)
    requires
        m.wf(),
        m is KexInit,
    ensures
        m.encoded().len() > 0,
        decoded_as(m.encoded()[0], m.encoded().skip(1)) == Some(m),
{
    reveal(decoded_as);
    match m {
        MessageView::KexInit { proposal } => {
            let empty = Seq::<u8>::empty();
            let t0 = proposal.encoded();
            assert(m.encoded()[0] == KEX_INIT);
            assert(m.encoded().skip(1) =~= t0);
            assert(t0 + empty =~= t0);
            lemma_take_kex_init(proposal, empty);
            assert(take_kex_init(t0) == Some((proposal, empty)));
            assert(decoded_kex_init(t0) == Some(m));
        },
        _ => {},
    }
}

proof fn lemma_decoded_kex_ecdh_init(m: MessageView)
    requires
        m.wf(),
        m is KexEcdhInit,
    ensures
        m.encoded().len() > 0,
        decoded_as(m.encoded()[0], m.encoded().skip(1)) == Some(m),
{
    reveal(decoded_as);
    match m {
        MessageView::KexEcdhInit { q_c } => {
            let empty = Seq::<u8>::empty();
            let t0 = string_bytes(q_c);
            assert(m.encoded()[0] == KEX_ECDH_INIT);
            assert(m.encoded().skip(1) =~= t0);
            assert(t0 + empty =~= t0);
            lemma_take_string(q_c, empty);
            assert(take_string(t0) == Some((q_c, empty)));
            assert(decoded_kex_ecdh_init(t0) == Some(m));
        },
        _ => {},
    }
}

proof fn lemma_decoded_kex_ecdh_reply(m: MessageView)
    requires
        m.wf(),
        m is KexEcdhReply,
    ensures
        m.encoded().len() > 0,
        decoded_as(m.encoded()[0], m.encoded().skip(1)) == Some(m),
{
    reveal(decoded_as);
    match m {
        MessageView::KexEcdhReply { k_s, q_s, signature } => {
            let empty = Seq::<u8>::empty();
            let t0 = string_bytes(k_s) + (string_bytes(q_s) + (string_bytes(signature)));
            let t1 = string_bytes(q_s) + (string_bytes(signature));
            let t2 = string_bytes(signature);
            assert(m.encoded()[0] == KEX_ECDH_REPLY);
            assert(m.encoded().skip(1) =~= t0);
            lemma_take_string(k_s, t1);
            assert(take_string(t0) == Some((k_s, t1)));
            lemma_take_string(q_s, t2);
            assert(take_string(t1) == Some((q_s, t2)));
            assert(t2 + empty =~= t2);
            lemma_take_string(signature, empty);
            assert(take_string(t2) == Some((signature, empty)));
            assert(decoded_kex_ecdh_reply(t0) == Some(m));
        },
        _ => {},
    }
}

proof fn lemma_decoded_global_request(m: MessageView)
    requires
        m.wf(),
        m is GlobalRequest,
    ensures
        m.encoded().len() > 0,
        decoded_as(m.encoded()[0], m.encoded().skip(1)) == Some(m),
{
    reveal(decoded_as);
    match m {
        MessageView::GlobalRequest { request_name, want_reply, data } => {
            let empty = Seq::<u8>::empty();
            let t0 = string_bytes(request_name) + (seq![bool_byte(want_reply)] + (data));
            let t1 = seq![bool_byte(want_reply)] + (data);
            let t2 = data;
            assert(m.encoded()[0] == GLOBAL_REQUEST);
            assert(m.encoded().skip(1) =~= t0);
            lemma_take_string(request_name, t1);
            assert(take_string(t0) == Some((request_name, t1)));
            lemma_take_bool(want_reply, t2);
            assert(take_bool(t1) == Some((want_reply, t2)));
            assert(decoded_global_request(t0) == Some(m));
        },
        _ => {},
    }
}

proof fn lemma_decoded_request_success(m: MessageView)
    requires
        m.wf(),
        m is RequestSuccess,
    ensures
        m.encoded().len() > 0,
        decoded_as(m.encoded()[0], m.encoded().skip(1)) == Some(m),
{
    reveal(decoded_as);
    match m {
        MessageView::RequestSuccess { data } => {
            let empty = Seq::<u8>::empty();
            let t0 = data;
            assert(m.encoded()[0] == REQUEST_SUCCESS);
            assert(m.encoded().skip(1) =~= t0);
            assert(decoded_request_success(t0) == Some(m));
        },
        _ => {},
    }
}

proof fn lemma_decoded_channel_open(m: MessageView)
    requires
        m.wf(),
        m is ChannelOpen,
    ensures
        m.encoded().len() > 0,
        decoded_as(m.encoded()[0], m.encoded().skip(1)) == Some(m),
{
    reveal(decoded_as);
    match m {
        MessageView::ChannelOpen { channel_type, sender_channel, initial_window_size, maximum_packet_size, data } => {
            let empty = Seq::<u8>::empty();
            let t0 = string_bytes(channel_type) + (u32_be(sender_channel) + (u32_be(initial_window_size) + (u32_be(maximum_packet_size) + (data))));
            let t1 = u32_be(sender_channel) + (u32_be(initial_window_size) + (u32_be(maximum_packet_size) + (data)));
            let t2 = u32_be(initial_window_size) + (u32_be(maximum_packet_size) + (data));
            let t3 = u32_be(maximum_packet_size) + (data);
            let t4 = data;
            assert(m.encoded()[0] == CHANNEL_OPEN);
            assert(m.encoded().skip(1) =~= t0);
            lemma_take_string(channel_type, t1);
            assert(take_string(t0) == Some((channel_type, t1)));
            lemma_take_u32(sender_channel, t2);
            assert(take_u32(t1) == Some((sender_channel, t2)));
            lemma_take_u32(initial_window_size, t3);
            assert(take_u32(t2) == Some((initial_window_size, t3)));
            lemma_take_u32(maximum_packet_size, t4);
            assert(take_u32(t3) == Some((maximum_packet_size, t4)));
            assert(decoded_channel_open(t0) == Some(m));
        },
        _ => {},
    }
}

proof fn lemma_decoded_channel_open_confirmation(m: MessageView)
    requires
        m.wf(),
        m is ChannelOpenConfirmation,
    ensures
        m.encoded().len() > 0,
        decoded_as(m.encoded()[0], m.encoded().skip(1)) == Some(m),
{
    reveal(decoded_as);
    match m {
        MessageView::ChannelOpenConfirmation { recipient_channel, sender_channel, initial_window_size, maximum_packet_size, data } => {
            let empty = Seq::<u8>::empty();
            let t0 = u32_be(recipient_channel) + (u32_be(sender_channel) + (u32_be(initial_window_size) + (u32_be(maximum_packet_size) + (data))));
            let t1 = u32_be(sender_channel) + (u32_be(initial_window_size) + (u32_be(maximum_packet_size) + (data)));
            let t2 = u32_be(initial_window_size) + (u32_be(maximum_packet_size) + (data));
            let t3 = u32_be(maximum_packet_size) + (data);
            let t4 = data;
            assert(m.encoded()[0] == CHANNEL_OPEN_CONFIRMATION);
            assert(m.encoded().skip(1) =~= t0);
            lemma_take_u32(recipient_channel, t1);
            assert(take_u32(t0) == Some((recipient_channel, t1)));
            lemma_take_u32(sender_channel, t2);
            assert(take_u32(t1) == Some((sender_channel, t2)));
            lemma_take_u32(initial_window_size, t3);
            assert(take_u32(t2) == Some((initial_window_size, t3)));
            lemma_take_u32(maximum_packet_size, t4);
            assert(take_u32(t3) == Some((maximum_packet_size, t4)));
            assert(decoded_channel_open_confirmation(t0) == Some(m));
        },
        _ => {},
    }
}

proof fn lemma_decoded_channel_open_failure(m: MessageView)
    requires
        m.wf(),
        m is ChannelOpenFailure,
    ensures
        m.encoded().len() > 0,
        decoded_as(m.encoded()[0], m.encoded().skip(1)) == Some(m),
{
    reveal(decoded_as);
    match m {
        MessageView::ChannelOpenFailure { recipient_channel, reason, description, language } => {
            let empty = Seq::<u8>::empty();
            let t0 = u32_be(recipient_channel) + (u32_be(reason) + (string_bytes(description) + (string_bytes(language))));
            let t1 = u32_be(reason) + (string_bytes(description) + (string_bytes(language)));
            let t2 = string_bytes(description) + (string_bytes(language));
            let t3 = string_bytes(language);
            assert(m.encoded()[0] == CHANNEL_OPEN_FAILURE);
            assert(m.encoded().skip(1) =~= t0);
            lemma_take_u32(recipient_channel, t1);
            assert(take_u32(t0) == Some((recipient_channel, t1)));
            lemma_take_u32(reason, t2);
            assert(take_u32(t1) == Some((reason, t2)));
            lemma_take_string(description, t3);
            assert(take_string(t2) == Some((description, t3)));
            assert(t3 + empty =~= t3);
            lemma_take_string(language, empty);
            assert(take_string(t3) == Some((language, empty)));
            assert(decoded_channel_open_failure(t0) == Some(m));
        },
        _ => {},
    }
}

proof fn lemma_decoded_channel_window_adjust(m: MessageView)
    requires
        m.wf(),
        m is ChannelWindowAdjust,
    ensures
        m.encoded().len() > 0,
        decoded_as(m.encoded()[0], m.encoded().skip(1)) == Some(m),
{
    reveal(decoded_as);
    match m {
        MessageView::ChannelWindowAdjust { recipient_channel, bytes_to_add } => {
            let empty = Seq::<u8>::empty();
            let t0 = u32_be(recipient_channel) + (u32_be(bytes_to_add));
            let t1 = u32_be(bytes_to_add);
            assert(m.encoded()[0] == CHANNEL_WINDOW_ADJUST);
            assert(m.encoded().skip(1) =~= t0);
            lemma_take_u32(recipient_channel, t1);
            assert(take_u32(t0) == Some((recipient_channel, t1)));
            assert(t1 + empty =~= t1);
            lemma_take_u32(bytes_to_add, empty);
            assert(take_u32(t1) == Some((bytes_to_add, empty)));
            assert(decoded_channel_window_adjust(t0) == Some(m));
        },
        _ => {},
    }
}

proof fn lemma_decoded_channel_data(m: MessageView)
    requires
        m.wf(),
        m is ChannelData,
    ensures
        m.encoded().len() > 0,
        decoded_as(m.encoded()[0], m.encoded().skip(1)) == Some(m),
{
    reveal(decoded_as);
    match m {
        MessageView::ChannelData { recipient_channel, data } => {
            let empty = Seq::<u8>::empty();
            let t0 = u32_be(recipient_channel) + (string_bytes(data));
            let t1 = string_bytes(data);
            assert(m.encoded()[0] == CHANNEL_DATA);
            assert(m.encoded().skip(1) =~= t0);
            lemma_take_u32(recipient_channel, t1);
            assert(take_u32(t0) == Some((recipient_channel, t1)));
            assert(t1 + empty =~= t1);
            lemma_take_string(data, empty);
            assert(take_string(t1) == Some((data, empty)));
            assert(decoded_channel_data(t0) == Some(m));
        },
        _ => {},
    }
}

proof fn lemma_decoded_channel_extended_data(m: MessageView)
    requires
        m.wf(),
        m is ChannelExtendedData,
    ensures
        m.encoded().len() > 0,
        decoded_as(m.encoded()[0], m.encoded().skip(1)) == Some(m),
{
    reveal(decoded_as);
    match m {
        MessageView::ChannelExtendedData { recipient_channel, data_type, data } => {
            let empty = Seq::<u8>::empty();
            let t0 = u32_be(recipient_channel) + (u32_be(data_type) + (string_bytes(data)));
            let t1 = u32_be(data_type) + (string_bytes(data));
            let t2 = string_bytes(data);
            assert(m.encoded()[0] == CHANNEL_EXTENDED_DATA);
            assert(m.encoded().skip(1) =~= t0);
            lemma_take_u32(recipient_channel, t1);
            assert(take_u32(t0) == Some((recipient_channel, t1)));
            lemma_take_u32(data_type, t2);
            assert(take_u32(t1) == Some((data_type, t2)));
            assert(t2 + empty =~= t2);
            lemma_take_string(data, empty);
            assert(take_string(t2) == Some((data, empty)));
            assert(decoded_channel_extended_data(t0) == Some(m));
        },
        _ => {},
    }
}

proof fn lemma_decoded_channel_eof(m: MessageView)
    requires
        m.wf(),
        m is ChannelEof,
    ensures
        m.encoded().len() > 0,
        decoded_as(m.encoded()[0], m.encoded().skip(1)) == Some(m),
{
    reveal(decoded_as);
    match m {
        MessageView::ChannelEof { recipient_channel } => {
            let empty = Seq::<u8>::empty();
            let t0 = u32_be(recipient_channel);
            assert(m.encoded()[0] == CHANNEL_EOF);
            assert(m.encoded().skip(1) =~= t0);
            assert(t0 + empty =~= t0);
            lemma_take_u32(recipient_channel, empty);
            assert(take_u32(t0) == Some((recipient_channel, empty)));
            assert(decoded_channel_eof(t0) == Some(m));
        },
        _ => {},
    }
}

proof fn lemma_decoded_channel_close(m: MessageView)
    requires
        m.wf(),
        m is ChannelClose,
    ensures
        m.encoded().len() > 0,
        decoded_as(m.encoded()[0], m.encoded().skip(1)) == Some(m),
{
    reveal(decoded_as);
    match m {
        MessageView::ChannelClose { recipient_channel } => {
            let empty = Seq::<u8>::empty();
            let t0 = u32_be(recipient_channel);
            assert(m.encoded()[0] == CHANNEL_CLOSE);
            assert(m.encoded().skip(1) =~= t0);
            assert(t0 + empty =~= t0);
            lemma_take_u32(recipient_channel, empty);
            assert(take_u32(t0) == Some((recipient_channel, empty)));
            assert(decoded_channel_close(t0) == Some(m));
        },
        _ => {},
    }
}

proof fn lemma_decoded_channel_request(m: MessageView)
    requires
        m.wf(),
        m is ChannelRequest,
    ensures
        m.encoded().len() > 0,
        decoded_as(m.encoded()[0], m.encoded().skip(1)) == Some(m),
{
    reveal(decoded_as);
    match m {
        MessageView::ChannelRequest { recipient_channel, request_type, want_reply, data } => {
            let empty = Seq::<u8>::empty();
            let t0 = u32_be(recipient_channel) + (string_bytes(request_type) + (seq![bool_byte(want_reply)] + (data)));
            let t1 = string_bytes(request_type) + (seq![bool_byte(want_reply)] + (data));
            let t2 = seq![bool_byte(want_reply)] + (data);
            let t3 = data;
            assert(m.encoded()[0] == CHANNEL_REQUEST);
            assert(m.encoded().skip(1) =~= t0);
            lemma_take_u32(recipient_channel, t1);
            assert(take_u32(t0) == Some((recipient_channel, t1)));
            lemma_take_string(request_type, t2);
            assert(take_string(t1) == Some((request_type, t2)));
            lemma_take_bool(want_reply, t3);
            assert(take_bool(t2) == Some((want_reply, t3)));
            assert(decoded_channel_request(t0) == Some(m));
        },
        _ => {},
    }
}

proof fn lemma_decoded_channel_success(m: MessageView)
    requires
        m.wf(),
        m is ChannelSuccess,
    ensures
        m.encoded().len() > 0,
        decoded_as(m.encoded()[0], m.encoded().skip(1)) == Some(m),
{
    reveal(decoded_as);
    match m {
        MessageView::ChannelSuccess { recipient_channel } => {
            let empty = Seq::<u8>::empty();
            let t0 = u32_be(recipient_channel);
            assert(m.encoded()[0] == CHANNEL_SUCCESS);
            assert(m.encoded().skip(1) =~= t0);
            assert(t0 + empty =~= t0);
            lemma_take_u32(recipient_channel, empty);
            assert(take_u32(t0) == Some((recipient_channel, empty)));
            assert(decoded_channel_success(t0) == Some(m));
        },
        _ => {},
    }
}

proof fn lemma_decoded_channel_failure(m: MessageView)
    requires
        m.wf(),
        m is ChannelFailure,
    ensures
        m.encoded().len() > 0,
        decoded_as(m.encoded()[0], m.encoded().skip(1)) == Some(m),
{
    reveal(decoded_as);
    match m {
        MessageView::ChannelFailure { recipient_channel } => {
            let empty = Seq::<u8>::empty();
            let t0 = u32_be(recipient_channel);
            assert(m.encoded()[0] == CHANNEL_FAILURE);
            assert(m.encoded().skip(1) =~= t0);
            assert(t0 + empty =~= t0);
            lemma_take_u32(recipient_channel, empty);
            assert(take_u32(t0) == Some((recipient_channel, empty)));
            assert(decoded_channel_failure(t0) == Some(m));
        },
        _ => {},
    }
}

proof fn lemma_decoded_plain(m: MessageView)
    requires
        m.wf(),
        m is NewKeys || m is RequestFailure || m is Other,
    ensures
        m.encoded().len() > 0,
        decoded_as(m.encoded()[0], m.encoded().skip(1)) == Some(m),
{
    reveal(decoded_as);
    match m {
        MessageView::Other { number, data } => {
            assert(m.encoded().skip(1) =~= data);
        },
        _ => {
            assert(m.encoded().skip(1) =~= Seq::<u8>::empty());
        },
    }
}

/// Decoding the payload of a message gives the message back.
pub proof fn lemma_decoded_encoded(m: MessageView)
    requires
        m.wf(),
    ensures
        decoded(m.encoded()) == Some(m),
{
    match m {
        MessageView::Disconnect { .. } => lemma_decoded_disconnect(m),
        MessageView::Ignore { .. } => lemma_decoded_ignore(m),
        MessageView::Unimplemented { .. } => lemma_decoded_unimplemented(m),
        MessageView::Debug { .. } => lemma_decoded_debug(m),
        MessageView::ServiceRequest { .. } => lemma_decoded_service_request(m),
        MessageView::ServiceAccept { .. } => lemma_decoded_service_accept(m),
        MessageView::KexInit { .. } => lemma_decoded_kex_init(m),
        MessageView::KexEcdhInit { .. } => lemma_decoded_kex_ecdh_init(m),
        MessageView::KexEcdhReply { .. } => lemma_decoded_kex_ecdh_reply(m),
        MessageView::GlobalRequest { .. } => lemma_decoded_global_request(m),
        MessageView::RequestSuccess { .. } => lemma_decoded_request_success(m),
        MessageView::ChannelOpen { .. } => lemma_decoded_channel_open(m),
        MessageView::ChannelOpenConfirmation { .. } => lemma_decoded_channel_open_confirmation(m),
        MessageView::ChannelOpenFailure { .. } => lemma_decoded_channel_open_failure(m),
        MessageView::ChannelWindowAdjust { .. } => lemma_decoded_channel_window_adjust(m),
        MessageView::ChannelData { .. } => lemma_decoded_channel_data(m),
        MessageView::ChannelExtendedData { .. } => lemma_decoded_channel_extended_data(m),
        MessageView::ChannelEof { .. } => lemma_decoded_channel_eof(m),
        MessageView::ChannelClose { .. } => lemma_decoded_channel_close(m),
        MessageView::ChannelRequest { .. } => lemma_decoded_channel_request(m),
        MessageView::ChannelSuccess { .. } => lemma_decoded_channel_success(m),
        MessageView::ChannelFailure { .. } => lemma_decoded_channel_failure(m),
        _ => lemma_decoded_plain(m),
    }
    let payload = m.encoded();
    assert(take_u8(payload) == Some((payload[0], payload.skip(1))));
}

fn parse_disconnect(reader: &mut Reader) -> (m: Option<Message>)
    ensures
        match decoded_disconnect(old(reader).remaining()) {
            Some(v) => m is Some && m->0@ == v,
            None => m is None,
        },
{
    let reason = match reader.read_u32() {
        Some(v) => v,
        None => {
            return None;
        },
    };
    let description = match reader.read_string() {
        Some(v) => v,
        None => {
            return None;
        },
    };
    let language = match reader.read_string() {
        Some(v) => v,
        None => {
            return None;
        },
    };
    Some(Message::Disconnect { reason: DisconnectReason::from_code(reason), description, language })
}

fn parse_ignore(reader: &mut Reader) -> (m: Option<Message>)
    ensures
        match decoded_ignore(old(reader).remaining()) {
            Some(v) => m is Some && m->0@ == v,
            None => m is None,
        },
{
    let data = match reader.read_string() {
        Some(v) => v,
        None => {
            return None;
        },
    };
    Some(Message::Ignore { data })
}

fn parse_unimplemented(reader: &mut Reader) -> (m: Option<Message>)
    ensures
        match decoded_unimplemented(old(reader).remaining()) {
            Some(v) => m is Some && m->0@ == v,
            None => m is None,
        },
{
    let seq = match reader.read_u32() {
        Some(v) => v,
        None => {
            return None;
        },
    };
    Some(Message::Unimplemented { seq })
}

fn parse_debug(reader: &mut Reader) -> (m: Option<Message>)
    ensures
        match decoded_debug(old(reader).remaining()) {
            Some(v) => m is Some && m->0@ == v,
            None => m is None,
        },
{
    let always_display = match reader.read_bool() {
        Some(v) => v,
        None => {
            return None;
        },
    };
    let message = match reader.read_string() {
        Some(v) => v,
        None => {
            return None;
        },
    };
    let language = match reader.read_string() {
        Some(v) => v,
        None => {
            return None;
        },
    };
    Some(Message::Debug { always_display, message, language })
}

fn parse_service_request(reader: &mut Reader) -> (m: Option<Message>)
    ensures
        match decoded_service_request(old(reader).remaining()) {
            Some(v) => m is Some && m->0@ == v,
            None => m is None,
        },
{
    let service_name = match reader.read_string() {
        Some(v) => v,
        None => {
            return None;
        },
    };
    Some(Message::ServiceRequest { service_name })
}

fn parse_service_accept(reader: &mut Reader) -> (m: Option<Message>)
    ensures
        match decoded_service_accept(old(reader).remaining()) {
            Some(v) => m is Some && m->0@ == v,
            None => m is None,
        },
{
    let service_name = match reader.read_string() {
        Some(v) => v,
        None => {
            return None;
        },
    };
    Some(Message::ServiceAccept { service_name })
}

fn parse_kex_init(reader: &mut Reader) -> (m: Option<Message>)
    ensures
        match decoded_kex_init(old(reader).remaining()) {
            Some(v) => m is Some && m->0@ == v,
            None => m is None,
        },
{
    let proposal = match read_kex_init(reader) {
        Some(v) => v,
        None => {
            return None;
        },
    };
    Some(Message::KexInit { proposal })
}

fn parse_kex_ecdh_init(reader: &mut Reader) -> (m: Option<Message>)
    ensures
        match decoded_kex_ecdh_init(old(reader).remaining()) {
            Some(v) => m is Some && m->0@ == v,
            None => m is None,
        },
{
    let q_c = match reader.read_string() {
        Some(v) => v,
        None => {
            return None;
        },
    };
    Some(Message::KexEcdhInit { q_c })
}

fn parse_kex_ecdh_reply(reader: &mut Reader) -> (m: Option<Message>)
    ensures
        match decoded_kex_ecdh_reply(old(reader).remaining()) {
            Some(v) => m is Some && m->0@ == v,
            None => m is None,
        },
{
    let k_s = match reader.read_string() {
        Some(v) => v,
        None => {
            return None;
        },
    };
    let q_s = match reader.read_string() {
        Some(v) => v,
        None => {
            return None;
        },
    };
    let signature = match reader.read_string() {
        Some(v) => v,
        None => {
            return None;
        },
    };
    Some(Message::KexEcdhReply { k_s, q_s, signature })
}

fn parse_global_request(reader: &mut Reader) -> (m: Option<Message>)
    ensures
        match decoded_global_request(old(reader).remaining()) {
            Some(v) => m is Some && m->0@ == v,
            None => m is None,
        },
{
    let request_name = match reader.read_string() {
        Some(v) => v,
        None => {
            return None;
        },
    };
    let want_reply = match reader.read_bool() {
        Some(v) => v,
        None => {
            return None;
        },
    };
    let data = reader.read_rest();
    Some(Message::GlobalRequest { request_name, want_reply, data })
}

fn parse_request_success(reader: &mut Reader) -> (m: Option<Message>)
    ensures
        match decoded_request_success(old(reader).remaining()) {
            Some(v) => m is Some && m->0@ == v,
            None => m is None,
        },
{
    let data = reader.read_rest();
    Some(Message::RequestSuccess { data })
}

fn parse_channel_open(reader: &mut Reader) -> (m: Option<Message>)
    ensures
        match decoded_channel_open(old(reader).remaining()) {
            Some(v) => m is Some && m->0@ == v,
            None => m is None,
        },
{
    let channel_type = match reader.read_string() {
        Some(v) => v,
        None => {
            return None;
        },
    };
    let sender_channel = match reader.read_u32() {
        Some(v) => v,
        None => {
            return None;
        },
    };
    let initial_window_size = match reader.read_u32() {
        Some(v) => v,
        None => {
            return None;
        },
    };
    let maximum_packet_size = match reader.read_u32() {
        Some(v) => v,
        None => {
            return None;
        },
    };
    let data = reader.read_rest();
    Some(Message::ChannelOpen { channel_type, sender_channel, initial_window_size, maximum_packet_size, data })
}

fn parse_channel_open_confirmation(reader: &mut Reader) -> (m: Option<Message>)
    ensures
        match decoded_channel_open_confirmation(old(reader).remaining()) {
            Some(v) => m is Some && m->0@ == v,
            None => m is None,
        },
{
    let recipient_channel = match reader.read_u32() {
        Some(v) => v,
        None => {
            return None;
        },
    };
    let sender_channel = match reader.read_u32() {
        Some(v) => v,
        None => {
            return None;
        },
    };
    let initial_window_size = match reader.read_u32() {
        Some(v) => v,
        None => {
            return None;
        },
    };
    let maximum_packet_size = match reader.read_u32() {
        Some(v) => v,
        None => {
            return None;
        },
    };
    let data = reader.read_rest();
    Some(Message::ChannelOpenConfirmation { recipient_channel, sender_channel, initial_window_size, maximum_packet_size, data })
}

fn parse_channel_open_failure(reader: &mut Reader) -> (m: Option<Message>)
    ensures
        match decoded_channel_open_failure(old(reader).remaining()) {
            Some(v) => m is Some && m->0@ == v,
            None => m is None,
        },
{
    let recipient_channel = match reader.read_u32() {
        Some(v) => v,
        None => {
            return None;
        },
    };
    let reason = match reader.read_u32() {
        Some(v) => v,
        None => {
            return None;
        },
    };
    let description = match reader.read_string() {
        Some(v) => v,
        None => {
            return None;
        },
    };
    let language = match reader.read_string() {
        Some(v) => v,
        None => {
            return None;
        },
    };
    Some(Message::ChannelOpenFailure { recipient_channel, reason, description, language })
}

fn parse_channel_window_adjust(reader: &mut Reader) -> (m: Option<Message>)
    ensures
        match decoded_channel_window_adjust(old(reader).remaining()) {
            Some(v) => m is Some && m->0@ == v,
            None => m is None,
        },
{
    let recipient_channel = match reader.read_u32() {
        Some(v) => v,
        None => {
            return None;
        },
    };
    let bytes_to_add = match reader.read_u32() {
        Some(v) => v,
        None => {
            return None;
        },
    };
    Some(Message::ChannelWindowAdjust { recipient_channel, bytes_to_add })
}

fn parse_channel_data(reader: &mut Reader) -> (m: Option<Message>)
    ensures
        match decoded_channel_data(old(reader).remaining()) {
            Some(v) => m is Some && m->0@ == v,
            None => m is None,
        },
{
    let recipient_channel = match reader.read_u32() {
        Some(v) => v,
        None => {
            return None;
        },
    };
    let data = match reader.read_string() {
        Some(v) => v,
        None => {
            return None;
        },
    };
    Some(Message::ChannelData { recipient_channel, data })
}

fn parse_channel_extended_data(reader: &mut Reader) -> (m: Option<Message>)
    ensures
        match decoded_channel_extended_data(old(reader).remaining()) {
            Some(v) => m is Some && m->0@ == v,
            None => m is None,
        },
{
    let recipient_channel = match reader.read_u32() {
        Some(v) => v,
        None => {
            return None;
        },
    };
    let data_type = match reader.read_u32() {
        Some(v) => v,
        None => {
            return None;
        },
    };
    let data = match reader.read_string() {
        Some(v) => v,
        None => {
            return None;
        },
    };
    Some(Message::ChannelExtendedData { recipient_channel, data_type, data })
}

fn parse_channel_eof(reader: &mut Reader) -> (m: Option<Message>)
    ensures
        match decoded_channel_eof(old(reader).remaining()) {
            Some(v) => m is Some && m->0@ == v,
            None => m is None,
        },
{
    let recipient_channel = match reader.read_u32() {
        Some(v) => v,
        None => {
            return None;
        },
    };
    Some(Message::ChannelEof { recipient_channel })
}

fn parse_channel_close(reader: &mut Reader) -> (m: Option<Message>)
    ensures
        match decoded_channel_close(old(reader).remaining()) {
            Some(v) => m is Some && m->0@ == v,
            None => m is None,
        },
{
    let recipient_channel = match reader.read_u32() {
        Some(v) => v,
        None => {
            return None;
        },
    };
    Some(Message::ChannelClose { recipient_channel })
}

fn parse_channel_request(reader: &mut Reader) -> (m: Option<Message>)
    ensures
        match decoded_channel_request(old(reader).remaining()) {
            Some(v) => m is Some && m->0@ == v,
            None => m is None,
        },
{
    let recipient_channel = match reader.read_u32() {
        Some(v) => v,
        None => {
            return None;
        },
    };
    let request_type = match reader.read_string() {
        Some(v) => v,
        None => {
            return None;
        },
    };
    let want_reply = match reader.read_bool() {
        Some(v) => v,
        None => {
            return None;
        },
    };
    let data = reader.read_rest();
    Some(Message::ChannelRequest { recipient_channel, request_type, want_reply, data })
}

fn parse_channel_success(reader: &mut Reader) -> (m: Option<Message>)
    ensures
        match decoded_channel_success(old(reader).remaining()) {
            Some(v) => m is Some && m->0@ == v,
            None => m is None,
        },
{
    let recipient_channel = match reader.read_u32() {
        Some(v) => v,
        None => {
            return None;
        },
    };
    Some(Message::ChannelSuccess { recipient_channel })
}

fn parse_channel_failure(reader: &mut Reader) -> (m: Option<Message>)
    ensures
        match decoded_channel_failure(old(reader).remaining()) {
            Some(v) => m is Some && m->0@ == v,
            None => m is None,
        },
{
    let recipient_channel = match reader.read_u32() {
        Some(v) => v,
        None => {
            return None;
        },
    };
    Some(Message::ChannelFailure { recipient_channel })
}

impl Message {
    /// The message that the payload `buf` carries. Fails where `buf` is empty
    /// or ends before the fields of its message do: with `KexinitInvalid` for
    /// an algorithm proposal, else with `ProtocolViolation`.
    pub fn decode(buf: &[u8]) -> (r: Result<Message, Error>)
        ensures
            match decoded(buf@) {
                Some(v) => r is Ok && r->Ok_0@ == v,
                None => r == Err::<Message, Error>(
                    if buf@.len() > 0 && buf@[0] == KEX_INIT {
                        Error::KexinitInvalid
                    } else {
                        Error::ProtocolViolation
                    },
                ),
            },
    {
        proof {
            reveal(decoded_as);
        }
        let mut reader = Reader::new(buf);
        let number = match reader.read_u8() {
            Some(v) => v,
            None => {
                return Err(Error::ProtocolViolation);
            },
        };
        let m = match number {
            1 => parse_disconnect(&mut reader),
            2 => parse_ignore(&mut reader),
            3 => parse_unimplemented(&mut reader),
            4 => parse_debug(&mut reader),
            5 => parse_service_request(&mut reader),
            6 => parse_service_accept(&mut reader),
            20 => parse_kex_init(&mut reader),
            21 => Some(Message::NewKeys),
            30 => parse_kex_ecdh_init(&mut reader),
            31 => parse_kex_ecdh_reply(&mut reader),
            80 => parse_global_request(&mut reader),
            81 => parse_request_success(&mut reader),
            82 => Some(Message::RequestFailure),
            90 => parse_channel_open(&mut reader),
            91 => parse_channel_open_confirmation(&mut reader),
            92 => parse_channel_open_failure(&mut reader),
            93 => parse_channel_window_adjust(&mut reader),
            94 => parse_channel_data(&mut reader),
            95 => parse_channel_extended_data(&mut reader),
            96 => parse_channel_eof(&mut reader),
            97 => parse_channel_close(&mut reader),
            98 => parse_channel_request(&mut reader),
            99 => parse_channel_success(&mut reader),
            100 => parse_channel_failure(&mut reader),
            _ => Some(Message::Other { number, data: reader.read_rest() }),
        };
        match m {
            Some(m) => Ok(m),
            None => if number == KEX_INIT {
                Err(Error::KexinitInvalid)
            } else {
                Err(Error::ProtocolViolation)
            },
        }
    }

    /// The number of the message.
    pub fn number(&self) -> (r: u8)
        ensures
            self@.encoded().len() > 0,
            r == self@.encoded()[0],
    {
        match self {
            Message::Disconnect { .. } => DISCONNECT,
            Message::Ignore { .. } => IGNORE,
            Message::Unimplemented { .. } => UNIMPLEMENTED,
            Message::Debug { .. } => DEBUG,
            Message::ServiceRequest { .. } => SERVICE_REQUEST,
            Message::ServiceAccept { .. } => SERVICE_ACCEPT,
            Message::KexInit { .. } => KEX_INIT,
            Message::NewKeys => NEW_KEYS,
            Message::KexEcdhInit { .. } => KEX_ECDH_INIT,
            Message::KexEcdhReply { .. } => KEX_ECDH_REPLY,
            Message::GlobalRequest { .. } => GLOBAL_REQUEST,
            Message::RequestSuccess { .. } => REQUEST_SUCCESS,
            Message::RequestFailure => REQUEST_FAILURE,
            Message::ChannelOpen { .. } => CHANNEL_OPEN,
            Message::ChannelOpenConfirmation { .. } => CHANNEL_OPEN_CONFIRMATION,
            Message::ChannelOpenFailure { .. } => CHANNEL_OPEN_FAILURE,
            Message::ChannelWindowAdjust { .. } => CHANNEL_WINDOW_ADJUST,
            Message::ChannelData { .. } => CHANNEL_DATA,
            Message::ChannelExtendedData { .. } => CHANNEL_EXTENDED_DATA,
            Message::ChannelEof { .. } => CHANNEL_EOF,
            Message::ChannelClose { .. } => CHANNEL_CLOSE,
            Message::ChannelRequest { .. } => CHANNEL_REQUEST,
            Message::ChannelSuccess { .. } => CHANNEL_SUCCESS,
            Message::ChannelFailure { .. } => CHANNEL_FAILURE,
            Message::Other { number, .. } => *number,
        }
    }

    /// The payload that carries the message.
    pub fn encode(&self) -> (r: Vec<u8>)
        requires
            self@.wf(),
        ensures
            r@ == self@.encoded(),
    {
        let mut r: Vec<u8> = Vec::new();
        r.push(self.number());
        match self {
            Message::Disconnect { reason, description, language } => {
                put_u32(&mut r, reason.code());
                put_string(&mut r, description.as_slice());
                put_string(&mut r, language.as_slice());
            },
            Message::Ignore { data } => {
                put_string(&mut r, data.as_slice());
            },
            Message::Unimplemented { seq } => {
                put_u32(&mut r, *seq);
            },
            Message::Debug { always_display, message, language } => {
                put_bool(&mut r, *always_display);
                put_string(&mut r, message.as_slice());
                put_string(&mut r, language.as_slice());
            },
            Message::ServiceRequest { service_name } => {
                put_string(&mut r, service_name.as_slice());
            },
            Message::ServiceAccept { service_name } => {
                put_string(&mut r, service_name.as_slice());
            },
            Message::KexInit { proposal } => {
                put_kex_init(&mut r, proposal);
            },
            Message::NewKeys => {},
            Message::KexEcdhInit { q_c } => {
                put_string(&mut r, q_c.as_slice());
            },
            Message::KexEcdhReply { k_s, q_s, signature } => {
                put_string(&mut r, k_s.as_slice());
                put_string(&mut r, q_s.as_slice());
                put_string(&mut r, signature.as_slice());
            },
            Message::GlobalRequest { request_name, want_reply, data } => {
                put_string(&mut r, request_name.as_slice());
                put_bool(&mut r, *want_reply);
                put_bytes(&mut r, data.as_slice());
            },
            Message::RequestSuccess { data } => {
                put_bytes(&mut r, data.as_slice());
            },
            Message::RequestFailure => {},
            Message::ChannelOpen { channel_type, sender_channel, initial_window_size, maximum_packet_size, data } => {
                put_string(&mut r, channel_type.as_slice());
                put_u32(&mut r, *sender_channel);
                put_u32(&mut r, *initial_window_size);
                put_u32(&mut r, *maximum_packet_size);
                put_bytes(&mut r, data.as_slice());
            },
            Message::ChannelOpenConfirmation { recipient_channel, sender_channel, initial_window_size, maximum_packet_size, data } => {
                put_u32(&mut r, *recipient_channel);
                put_u32(&mut r, *sender_channel);
                put_u32(&mut r, *initial_window_size);
                put_u32(&mut r, *maximum_packet_size);
                put_bytes(&mut r, data.as_slice());
            },
            Message::ChannelOpenFailure { recipient_channel, reason, description, language } => {
                put_u32(&mut r, *recipient_channel);
                put_u32(&mut r, *reason);
                put_string(&mut r, description.as_slice());
                put_string(&mut r, language.as_slice());
            },
            Message::ChannelWindowAdjust { recipient_channel, bytes_to_add } => {
                put_u32(&mut r, *recipient_channel);
                put_u32(&mut r, *bytes_to_add);
            },
            Message::ChannelData { recipient_channel, data } => {
                put_u32(&mut r, *recipient_channel);
                put_string(&mut r, data.as_slice());
            },
            Message::ChannelExtendedData { recipient_channel, data_type, data } => {
                put_u32(&mut r, *recipient_channel);
                put_u32(&mut r, *data_type);
                put_string(&mut r, data.as_slice());
            },
            Message::ChannelEof { recipient_channel } => {
                put_u32(&mut r, *recipient_channel);
            },
            Message::ChannelClose { recipient_channel } => {
                put_u32(&mut r, *recipient_channel);
            },
            Message::ChannelRequest { recipient_channel, request_type, want_reply, data } => {
                put_u32(&mut r, *recipient_channel);
                put_string(&mut r, request_type.as_slice());
                put_bool(&mut r, *want_reply);
                put_bytes(&mut r, data.as_slice());
            },
            Message::ChannelSuccess { recipient_channel } => {
                put_u32(&mut r, *recipient_channel);
            },
            Message::ChannelFailure { recipient_channel } => {
                put_u32(&mut r, *recipient_channel);
            },
            Message::Other { number, data } => {
                put_bytes(&mut r, data.as_slice());
            },
        }
        assert(r@ =~= self@.encoded());
        r
    }
}

} // verus!
