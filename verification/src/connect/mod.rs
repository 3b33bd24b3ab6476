//! The connection layer: channels multiplexed over one session, each with its
//! own flow control.

use vstd::prelude::*;
use vstd::string::*;
use crate::error::Error;
use crate::message::{Message, MessageView};

pub mod channel;

pub use channel::{Channel, Response};

verus! {

/// The largest data packet that a channel accepts by default: 32 KiB.
pub const MAXIMUM_PACKET_SIZE: u32 = 32768;

/// The window that a channel grants at the start by default: 2 MiB.
pub const INITIAL_WINDOW_SIZE: u32 = 64 * MAXIMUM_PACKET_SIZE;

/// The number of drained bytes at which a default window is restored.
pub const WINDOW_ADJUST_THRESHOLD: u32 = INITIAL_WINDOW_SIZE / 2;

/// The code by which the opening of a channel is refused for want of
/// resources.
pub const RESOURCE_SHORTAGE: u32 = 4;

/// The service that runs the connection layer on a session.
pub struct Service;

impl Service {
    /// The name by which the service is requested: `ssh-connection`.
    pub open spec fn spec_name() -> Seq<char> {
        "ssh-connection"@
    }

    /// The name by which the service is requested.
    pub fn name() -> (r: &'static str)
        ensures
            r@ == Self::spec_name(),
            r.spec_bytes() == Self::spec_name_bytes(),
    {
        "ssh-connection"
    }

    /// The name by which the service is requested, as bytes.
    pub open spec fn spec_name_bytes() -> Seq<u8> {
        "ssh-connection".spec_bytes()
    }

    /// The connection layer for a session on which the peer has requested
    /// this service: no channel is open yet.
    pub fn on_request(&mut self) -> (r: Connect)
        ensures
            r.wf(),
            r.channels@.len() == 0,
            r.outbound@.len() == 0,
            r.awaited@.len() == 0,
            r.next_id == 0,
    {
        Connect::new()
    }

    /// The connection layer for a session on which the peer has accepted the
    /// request for this service: no channel is open yet.
    pub fn on_accept(&mut self) -> (r: Connect)
        ensures
            r.wf(),
            r.channels@.len() == 0,
            r.outbound@.len() == 0,
            r.awaited@.len() == 0,
            r.next_id == 0,
    {
        Connect::new()
    }
}

impl crate::session::service::Request for Service {
    type Ok = Connect;

    open spec fn spec_name(&self) -> Seq<u8> {
        Service::spec_name_bytes()
    }

    fn name(&self) -> (r: Vec<u8>) {
        let name = Service::name().as_bytes();
        let r = crate::wire::copy_range(name, 0, name.len());
        assert(r@ =~= name@);
        r
    }

    /// The service always gives the connection layer as it starts, with no
    /// channel, and stays as it is.
    open spec fn granted(&self, later: &Self, given: Result<Connect, Error>) -> bool {
        given matches Ok(c) && c.is_fresh() && later == self
    }

    fn on_accept(&mut self) -> (r: Result<Connect, Error>) {
        Ok(Connect::new())
    }
}

impl crate::session::service::Handler for Service {
    type Ok = Connect;

    open spec fn spec_name(&self) -> Seq<u8> {
        Service::spec_name_bytes()
    }

    fn name(&self) -> (r: Vec<u8>) {
        let name = Service::name().as_bytes();
        let r = crate::wire::copy_range(name, 0, name.len());
        assert(r@ =~= name@);
        r
    }

    /// The service always gives the connection layer as it starts, with no
    /// channel, and stays as it is.
    open spec fn served(&self, later: &Self, given: Result<Connect, Error>) -> bool {
        given matches Ok(c) && c.is_fresh() && later == self
    }

    fn on_request(&mut self) -> (r: Result<Connect, Error>) {
        Ok(Connect::new())
    }
}

/// What a message leaves for the caller to do.
#[derive(Debug, Clone, PartialEq, Eq)]
pub enum Event {
    /// Nothing: the message was taken in by the channel it was addressed to.
    Handled,
    /// The peer asks to open a channel: `accept` or `reject` answers.
    OpenRequest {
        /// The type of the channel.
        channel_type: Vec<u8>,
        /// The peer's number for the channel.
        sender_channel: u32,
        /// The peer's initial window.
        initial_window_size: u32,
        /// The largest packet that the peer accepts.
        maximum_packet_size: u32,
        /// What is specific to the channel type.
        data: Vec<u8>,
    },
    /// The peer makes a global request: `answer_global` answers where an
    /// answer is asked for.
    GlobalRequest {
        /// The name of the request.
        request_name: Vec<u8>,
        /// Whether an answer is asked for.
        want_reply: bool,
        /// What is specific to the request.
        data: Vec<u8>,
    },
    /// The peer has answered the global request that was made first among
    /// those not answered yet.
    GlobalReply {
        /// The name of the request that is answered.
        request_name: Vec<u8>,
        /// Whether the request succeeded.
        success: bool,
        /// What is specific to the request.
        data: Vec<u8>,
    },
}

/// Whether the error `e`, which taking in a message of the peer gave, ends
/// the connection: the peer has taken a window past its largest value or has
/// broken the protocol. Any other error concerns one channel alone.
pub open spec fn fatal(e: Error) -> bool {
    e is WindowOverflow || e is ProtocolViolation
}

/// Whether the error `e`, which taking in a message of the peer gave, ends
/// the connection.
pub fn is_fatal(e: &Error) -> (r: bool)
    ensures
        r == fatal(*e),
{
    match e {
        Error::WindowOverflow => true,
        Error::ProtocolViolation => true,
        _ => false,
    }
}

/// The channel that a message is addressed to, if it is addressed to one.
pub open spec fn recipient(m: Message) -> Option<u32> {
    match m {
        Message::ChannelOpenConfirmation { recipient_channel, .. } => Some(recipient_channel),
        Message::ChannelOpenFailure { recipient_channel, .. } => Some(recipient_channel),
        Message::ChannelWindowAdjust { recipient_channel, .. } => Some(recipient_channel),
        Message::ChannelData { recipient_channel, .. } => Some(recipient_channel),
        Message::ChannelExtendedData { recipient_channel, .. } => Some(recipient_channel),
        Message::ChannelEof { recipient_channel } => Some(recipient_channel),
        Message::ChannelClose { recipient_channel } => Some(recipient_channel),
        Message::ChannelRequest { recipient_channel, .. } => Some(recipient_channel),
        Message::ChannelSuccess { recipient_channel } => Some(recipient_channel),
        Message::ChannelFailure { recipient_channel } => Some(recipient_channel),
        _ => None,
    }
}

/// The messages that wait in the channels `channels`, channel by channel.
pub open spec fn waiting(channels: Seq<Channel>) -> Seq<MessageView>
    decreases channels.len(),
{
    if channels.len() == 0 {
        Seq::empty()
    } else {
        waiting(channels.drop_last()) + channel::messages(channels.last().outbound@)
    }
}

/// The channels of `channels` that are not closed by both sides, each with no
/// message waiting.
pub open spec fn surviving(channels: Seq<Channel>, after: Seq<Channel>) -> bool
    decreases channels.len(),
{
    if channels.len() == 0 {
        after.len() == 0
    } else if channels.last().close_sent && channels.last().close_received {
        surviving(channels.drop_last(), after)
    } else {
        &&& after.len() > 0
        &&& after.last().outbound@.len() == 0
        &&& after.last() == (Channel { outbound: after.last().outbound, ..channels.last() })
        &&& surviving(channels.drop_last(), after.drop_last())
    }
}

/// The connection layer of a session: its channels and what it has to send.
pub struct Connect {
    /// The channels, each under its own local number.
    pub channels: Vec<Channel>,
    /// The messages that concern no channel and wait to be sent.
    pub outbound: Vec<Message>,
    /// The names of the global requests that the peer has still to answer,
    /// in the order in which they were made.
    pub awaited: Vec<Vec<u8>>,
    /// The local number for the next channel.
    pub next_id: u32,
}

impl Connect {
    /// What holds of the connection layer at all times: every channel is well
    /// formed, no two channels have the same local number, every local number
    /// is below the next one to be given, and every message that waits is well
    /// formed.
    pub open spec fn wf(self) -> bool {
        &&& forall|i: int| 0 <= i < self.channels@.len() ==> (#[trigger] self.channels@[i]).wf()
        &&& forall|i: int|
            0 <= i < self.channels@.len() ==> (#[trigger] self.channels@[i]).local_id < self.next_id
        &&& forall|i: int, j: int|
            0 <= i < j < self.channels@.len() ==> (#[trigger] self.channels@[i]).local_id != (
            #[trigger] self.channels@[j]).local_id
        &&& forall|i: int| 0 <= i < self.outbound@.len() ==> (#[trigger] self.outbound@[i])@.wf()
    }

    /// Whether the channel at `i` is the one with the local number `id`.
    pub open spec fn is_at(self, id: u32, i: int) -> bool {
        0 <= i < self.channels@.len() && self.channels@[i].local_id == id
    }

    /// Whether no channel has the local number `id`.
    pub open spec fn unknown(self, id: u32) -> bool {
        forall|i: int| 0 <= i < self.channels@.len() ==> (#[trigger] self.channels@[i]).local_id != id
    }

    /// Whether the connection layer is as it starts: no channel, nothing that
    /// waits to be sent, no request that the peer has still to answer, and no
    /// local number given yet.
    pub open spec fn is_fresh(self) -> bool {
        &&& self.wf()
        &&& self.channels@.len() == 0
        &&& self.outbound@.len() == 0
        &&& self.awaited@.len() == 0
        &&& self.next_id == 0
    }

    /// The connection layer with no channel.
    pub fn new() -> (r: Connect)
        ensures
            r.wf(),
            r.channels@.len() == 0,
            r.outbound@.len() == 0,
            r.awaited@.len() == 0,
            r.next_id == 0,
    {
        Connect { channels: Vec::new(), outbound: Vec::new(), awaited: Vec::new(), next_id: 0 }
    }

    /// The place of the channel with the local number `id`.
    pub fn position(&self, id: u32) -> (r: Option<usize>)
        ensures
            match r {
                Some(i) => self.is_at(id, i as int),
                None => self.unknown(id),
            },
    {
        let mut i: usize = 0;
        while i < self.channels.len()
            invariant
                i <= self.channels@.len(),
                forall|j: int| 0 <= j < i ==> (#[trigger] self.channels@[j]).local_id != id,
            decreases self.channels@.len() - i,
        {
            if self.channels[i].local_id == id {
                return Some(i);
            }
            i += 1;
        }
        None
    }

    /// Queues the message `m`, which concerns no channel that exists.
    fn queue(&mut self, m: Message)
        requires
            old(self).wf(),
            m@.wf(),
        ensures
            final(self).wf(),
            channel::messages(final(self).outbound@) == channel::messages(old(self).outbound@).push(
                m@,
            ),
            *final(self) == (Connect { outbound: final(self).outbound, ..*old(self) }),
    {
        let ghost before = self.outbound@;
        let ghost mv = m@;
        self.outbound.push(m);
        assert(channel::messages(self.outbound@) =~= channel::messages(before).push(mv));
        assert forall|i: int| 0 <= i < self.outbound@.len() implies (
        #[trigger] self.outbound@[i])@.wf() by {
            if i < before.len() {
                assert(self.outbound@[i] == before[i]);
            }
        }
    }

    /// Adds the channel `c`, which bears the next local number.
    fn add(&mut self, c: Channel)
        requires
            old(self).wf(),
            c.wf(),
            c.local_id == old(self).next_id,
            old(self).next_id < u32::MAX,
        ensures
            final(self).wf(),
            final(self).channels@ == old(self).channels@.push(c),
            final(self).next_id == old(self).next_id + 1,
            *final(self) == (Connect {
                channels: final(self).channels,
                next_id: final(self).next_id,
                ..*old(self)
            }),
    {
        let ghost before = self.channels@;
        self.channels.push(c);
        self.next_id = self.next_id + 1;
        assert forall|i: int| 0 <= i < self.channels@.len() implies (
        #[trigger] self.channels@[i]).wf() && self.channels@[i].local_id < self.next_id by {
            if i < before.len() {
                assert(self.channels@[i] == before[i]);
            }
        }
        assert forall|i: int, j: int| 0 <= i < j < self.channels@.len() implies (
        #[trigger] self.channels@[i]).local_id != (#[trigger] self.channels@[j]).local_id by {
            assert(self.channels@[i] == before[i]);
            if j < before.len() {
                assert(self.channels@[j] == before[j]);
            }
        }
    }

    /// Asks the peer to open a channel of the type `channel_type`, with the
    /// initial window `window` and the largest packet `maximum_packet`, and
    /// gives the local number of the channel, which is as `Channel::opening`
    /// gives it and waits for the peer to confirm it. Fails with
    /// `ChannelOpenRejected`, and changes nothing, where no local number is
    /// left.
    pub fn open(&mut self, channel_type: Vec<u8>, window: u32, maximum_packet: u32, data: Vec<u8>) -> (r:
        Result<u32, Error>)
        requires
            old(self).wf(),
            channel_type@.len() <= u32::MAX,
        ensures
            final(self).wf(),
            match r {
                Ok(id) => {
                    &&& id == old(self).next_id
                    &&& final(self).next_id == id + 1
                    &&& final(self).channels@.len() == old(self).channels@.len() + 1
                    &&& final(self).channels@.drop_last() == old(self).channels@
                    &&& final(self).channels@.last().starts_opening(id, window, maximum_packet)
                    &&& final(self).channels@.last().local_id == id
                    &&& final(self).channels@.last().spec_state() == channel::State::Opening
                    &&& final(self).channels@.last().initial_window == window
                    &&& final(self).channels@.last().local_max_packet == maximum_packet
                    &&& channel::messages(final(self).outbound@) == channel::messages(
                        old(self).outbound@,
                    ).push(
                        MessageView::ChannelOpen {
                            channel_type: channel_type@,
                            sender_channel: id,
                            initial_window_size: window,
                            maximum_packet_size: maximum_packet,
                            data: data@,
                        },
                    )
                    &&& final(self).awaited == old(self).awaited
                },
                Err(e) => {
                    &&& old(self).next_id == u32::MAX
                    &&& e matches Error::ChannelOpenRejected { reason, description }
                    &&& reason == RESOURCE_SHORTAGE
                    &&& description@.len() == 0
                    &&& *final(self) == *old(self)
                },
            },
    {
        if self.next_id == u32::MAX {
            return Err(
                Error::ChannelOpenRejected { reason: RESOURCE_SHORTAGE, description: Vec::new() },
            );
        }
        let id = self.next_id;
        let ghost before = self.channels@;
        self.add(Channel::opening(id, window, maximum_packet));
        assert(self.channels@.drop_last() =~= before);
        self.queue(
            Message::ChannelOpen {
                channel_type,
                sender_channel: id,
                initial_window_size: window,
                maximum_packet_size: maximum_packet,
                data,
            },
        );
        Ok(id)
    }

    /// Accepts the opening of a channel that the peer asked for: the channel
    /// is open, as `Channel::new` gives it with the window and largest packet
    /// that the peer announced and those that this side grants, and the
    /// confirmation is queued. Fails
    /// with `ChannelOpenRejected`, and queues the refusal instead, where no
    /// local number is left.
    pub fn accept(
        &mut self,
        sender_channel: u32,
        initial_window_size: u32,
        maximum_packet_size: u32,
        window: u32,
        maximum_packet: u32,
    ) -> (r: Result<u32, Error>)
        requires
            old(self).wf(),
        ensures
            final(self).wf(),
            final(self).awaited == old(self).awaited,
            match r {
                Ok(id) => {
                    &&& id == old(self).next_id
                    &&& final(self).next_id == id + 1
                    &&& final(self).channels@.len() == old(self).channels@.len() + 1
                    &&& final(self).channels@.drop_last() == old(self).channels@
                    &&& final(self).channels@.last().starts_open(
                        id,
                        sender_channel,
                        window,
                        maximum_packet,
                        initial_window_size,
                        maximum_packet_size,
                    )
                    &&& final(self).channels@.last().local_id == id
                    &&& final(self).channels@.last().remote_id == sender_channel
                    &&& final(self).channels@.last().spec_state() == channel::State::Open
                    &&& final(self).channels@.last().initial_window == window
                    &&& final(self).channels@.last().local_window == window
                    &&& final(self).channels@.last().local_max_packet == maximum_packet
                    &&& final(self).channels@.last().remote_window == initial_window_size
                    &&& final(self).channels@.last().remote_max_packet == maximum_packet_size
                    &&& channel::messages(final(self).outbound@) == channel::messages(
                        old(self).outbound@,
                    ).push(
                        MessageView::ChannelOpenConfirmation {
                            recipient_channel: sender_channel,
                            sender_channel: id,
                            initial_window_size: window,
                            maximum_packet_size: maximum_packet,
                            data: Seq::empty(),
                        },
                    )
                },
                Err(e) => {
                    &&& old(self).next_id == u32::MAX
                    &&& e matches Error::ChannelOpenRejected { reason, description }
                    &&& reason == RESOURCE_SHORTAGE
                    &&& final(self).channels == old(self).channels
                    &&& channel::messages(final(self).outbound@) == channel::messages(
                        old(self).outbound@,
                    ).push(
                        MessageView::ChannelOpenFailure {
                            recipient_channel: sender_channel,
                            reason: RESOURCE_SHORTAGE,
                            description: Seq::empty(),
                            language: Seq::empty(),
                        },
                    )
                },
            },
    {
        if self.next_id == u32::MAX {
            self.reject(sender_channel, RESOURCE_SHORTAGE, Vec::new());
            return Err(
                Error::ChannelOpenRejected { reason: RESOURCE_SHORTAGE, description: Vec::new() },
            );
        }
        let id = self.next_id;
        let ghost before = self.channels@;
        self.add(
            Channel::new(
                id,
                sender_channel,
                window,
                maximum_packet,
                initial_window_size,
                maximum_packet_size,
            ),
        );
        assert(self.channels@.drop_last() =~= before);
        self.queue(
            Message::ChannelOpenConfirmation {
                recipient_channel: sender_channel,
                sender_channel: id,
                initial_window_size: window,
                maximum_packet_size: maximum_packet,
                data: Vec::new(),
            },
        );
        Ok(id)
    }

    /// Refuses the opening of a channel that the peer asked for: the refusal
    /// is queued, with the code `reason` and the description `description`.
    pub fn reject(&mut self, sender_channel: u32, reason: u32, description: Vec<u8>)
        requires
            old(self).wf(),
            description@.len() <= u32::MAX,
        ensures
            final(self).wf(),
            channel::messages(final(self).outbound@) == channel::messages(old(self).outbound@).push(
                MessageView::ChannelOpenFailure {
                    recipient_channel: sender_channel,
                    reason,
                    description: description@,
                    language: Seq::empty(),
                },
            ),
            *final(self) == (Connect { outbound: final(self).outbound, ..*old(self) }),
    {
        self.queue(
            Message::ChannelOpenFailure {
                recipient_channel: sender_channel,
                reason,
                description,
                language: Vec::new(),
            },
        );
    }

    /// Makes a global request. Where it asks for an answer, the answer will
    /// come as a `GlobalReply` under the name of the request, after the
    /// answers to the requests made before.
    pub fn global_request(&mut self, request_name: Vec<u8>, want_reply: bool, data: Vec<u8>)
        requires
            old(self).wf(),
            request_name@.len() <= u32::MAX,
        ensures
            final(self).wf(),
            channel::messages(final(self).outbound@) == channel::messages(old(self).outbound@).push(
                MessageView::GlobalRequest { request_name: request_name@, want_reply, data: data@ },
            ),
            crate::namelist::views(final(self).awaited@) == if want_reply {
                crate::namelist::views(old(self).awaited@).push(request_name@)
            } else {
                crate::namelist::views(old(self).awaited@)
            },
            final(self).channels == old(self).channels,
            final(self).next_id == old(self).next_id,
    {
        if want_reply {
            let ghost before = self.awaited@;
            let name = crate::wire::copy_range(request_name.as_slice(), 0, request_name.len());
            assert(name@ =~= request_name@);
            self.awaited.push(name);
            assert(crate::namelist::views(self.awaited@) =~= crate::namelist::views(before).push(
                request_name@,
            ));
        }
        self.queue(Message::GlobalRequest { request_name, want_reply, data });
    }

    /// Answers a global request of the peer that asked for an answer.
    pub fn answer_global(&mut self, success: bool, data: Vec<u8>)
        requires
            old(self).wf(),
        ensures
            final(self).wf(),
            channel::messages(final(self).outbound@) == channel::messages(old(self).outbound@).push(
                if success {
                    MessageView::RequestSuccess { data: data@ }
                } else {
                    MessageView::RequestFailure
                },
            ),
            *final(self) == (Connect { outbound: final(self).outbound, ..*old(self) }),
    {
        if success {
            self.queue(Message::RequestSuccess { data });
        } else {
            self.queue(Message::RequestFailure);
        }
    }

    /// Declines a global request of the peer, as a side does that knows no
    /// global request: where the peer asked for an answer the answer is that
    /// the request failed, and else nothing is said.
    pub fn decline_global(&mut self, want_reply: bool)
        requires
            old(self).wf(),
        ensures
            final(self).wf(),
            channel::messages(final(self).outbound@) == if want_reply {
                channel::messages(old(self).outbound@).push(MessageView::RequestFailure)
            } else {
                channel::messages(old(self).outbound@)
            },
            *final(self) == (Connect { outbound: final(self).outbound, ..*old(self) }),
    {
        if want_reply {
            self.answer_global(false, Vec::new());
        }
    }

    /// Takes the channel with the local number `id` out of the table, to work
    /// on it; `restore` puts it back.
    pub fn take(&mut self, id: u32) -> (r: Option<Channel>)
        requires
            old(self).wf(),
        ensures
            final(self).wf(),
            match r {
                Some(c) => exists|i: int|
                    {
                        &&& #[trigger] old(self).is_at(id, i)
                        &&& c == old(self).channels@[i]
                        &&& final(self).channels@ == old(self).channels@.remove(i)
                    },
                None => old(self).unknown(id) && final(self).channels == old(self).channels,
            },
            r is Some ==> r->0.wf() && r->0.local_id == id && final(self).unknown(id),
            final(self).outbound == old(self).outbound,
            final(self).awaited == old(self).awaited,
            final(self).next_id == old(self).next_id,
    {
        match self.position(id) {
            None => None,
            Some(i) => {
                let ghost before = self.channels@;
                let c = self.channels.remove(i);
                proof {
                    assert(old(self).is_at(id, i as int));
                    assert forall|j: int| 0 <= j < self.channels@.len() implies (
                    #[trigger] self.channels@[j]).wf() && self.channels@[j].local_id
                        < self.next_id && self.channels@[j].local_id != id by {
                        if j < i {
                            assert(self.channels@[j] == before[j]);
                        } else {
                            assert(self.channels@[j] == before[j + 1]);
                        }
                    }
                    assert forall|a: int, b: int| 0 <= a < b < self.channels@.len() implies (
                    #[trigger] self.channels@[a]).local_id != (
                    #[trigger] self.channels@[b]).local_id by {
                        let a0 = if a < i { a } else { a + 1 };
                        let b0 = if b < i { b } else { b + 1 };
                        assert(self.channels@[a] == before[a0]);
                        assert(self.channels@[b] == before[b0]);
                    }
                }
                Some(c)
            },
        }
    }

    /// Puts back a channel that `take` gave out.
    pub fn restore(&mut self, c: Channel)
        requires
            old(self).wf(),
            c.wf(),
            c.local_id < old(self).next_id,
            old(self).unknown(c.local_id),
        ensures
            final(self).wf(),
            final(self).channels@ == old(self).channels@.push(c),
            *final(self) == (Connect { channels: final(self).channels, ..*old(self) }),
    {
        let ghost before = self.channels@;
        self.channels.push(c);
        assert forall|i: int| 0 <= i < self.channels@.len() implies (
        #[trigger] self.channels@[i]).wf() && self.channels@[i].local_id < self.next_id by {
            if i < before.len() {
                assert(self.channels@[i] == before[i]);
            }
        }
        assert forall|i: int, j: int| 0 <= i < j < self.channels@.len() implies (
        #[trigger] self.channels@[i]).local_id != (#[trigger] self.channels@[j]).local_id by {
            assert(self.channels@[i] == before[i]);
            if j < before.len() {
                assert(self.channels@[j] == before[j]);
            }
        }
    }

    /// What an answer of the peer to a global request comes to: it answers the
    /// request that was made first among those not answered yet; without one,
    /// it is a `ProtocolViolation`.
    pub open spec fn answered(
        self,
        success: bool,
        data: Seq<u8>,
        after: Connect,
        r: Result<Event, Error>,
    ) -> bool {
        if self.awaited@.len() == 0 {
            r is Err && r->Err_0 == Error::ProtocolViolation && after == self
        } else {
            &&& r matches Ok(Event::GlobalReply { request_name, success: s, data: d })
            &&& request_name == self.awaited@[0]
            &&& s == success
            &&& d@ == data
            &&& after.awaited@ == self.awaited@.skip(1)
            &&& after == (Connect { awaited: after.awaited, ..self })
        }
    }

    /// What a message of the peer does to the connection layer, and what it
    /// leaves for the caller to do. A request to open a channel and a global
    /// request are handed to the caller. An answer to a global request is
    /// matched with the request made first. A message to a channel goes to the
    /// channel with that local number and to no other: it is `ChannelClosed`
    /// where there is none. The refusal of an opening takes the channel that
    /// waited for it out of the table and is `ChannelOpenRejected`. Any other
    /// message is `UnexpectedMessage`.
    pub open spec fn dispatched(self, m: Message, after: Connect, r: Result<Event, Error>) -> bool {
        match m {
            Message::ChannelOpen {
                channel_type,
                sender_channel,
                initial_window_size,
                maximum_packet_size,
                data,
            } => after == self && r == Ok::<Event, Error>(
                Event::OpenRequest {
                    channel_type,
                    sender_channel,
                    initial_window_size,
                    maximum_packet_size,
                    data,
                },
            ),
            Message::GlobalRequest { request_name, want_reply, data } => after == self && r == Ok::<
                Event,
                Error,
            >(Event::GlobalRequest { request_name, want_reply, data }),
            Message::RequestSuccess { data } => self.answered(true, data@, after, r),
            Message::RequestFailure => self.answered(false, Seq::empty(), after, r),
            _ => match recipient(m) {
                None => after == self && r is Err && r->Err_0 == Error::UnexpectedMessage,
                Some(id) => if self.unknown(id) {
                    after == self && r is Err && r->Err_0 == Error::ChannelClosed
                } else {
                    exists|i: int| #[trigger] self.is_at(id, i) && self.delivered(m, i, after, r)
                },
            },
        }
    }

    /// What a message to the channel at `i` does.
    pub open spec fn delivered(self, m: Message, i: int, after: Connect, r: Result<Event, Error>) -> bool {
        let c = self.channels@[i];
        match m {
            Message::ChannelOpenFailure { reason, description, .. } => if c.confirmed {
                after == self && r is Err && r->Err_0 == Error::UnexpectedMessage
            } else {
                &&& after.channels@ == self.channels@.remove(i)
                &&& after == (Connect { channels: after.channels, ..self })
                &&& r == Err::<Event, Error>(Error::ChannelOpenRejected { reason, description })
            },
            _ => {
                &&& after.channels@.len() == self.channels@.len()
                &&& after.channels@ == self.channels@.update(i, after.channels@[i])
                &&& after == (Connect { channels: after.channels, ..self })
                &&& c.handled(
                    m,
                    after.channels@[i],
                    match r {
                        Ok(_) => Ok(()),
                        Err(e) => Err(e),
                    },
                )
                &&& r is Ok ==> r->Ok_0 == Event::Handled
            },
        }
    }

    /// Takes in a message of the peer.
    pub fn handle(&mut self, m: Message) -> (r: Result<Event, Error>)
        requires
            old(self).wf(),
        ensures
            final(self).wf(),
            old(self).dispatched(m, *final(self), r),
    {
        let id = match &m {
            Message::ChannelOpen { .. } => {
                return match m {
                    Message::ChannelOpen {
                        channel_type,
                        sender_channel,
                        initial_window_size,
                        maximum_packet_size,
                        data,
                    } => Ok(
                        Event::OpenRequest {
                            channel_type,
                            sender_channel,
                            initial_window_size,
                            maximum_packet_size,
                            data,
                        },
                    ),
                    _ => Err(Error::UnexpectedMessage),
                };
            },
            Message::GlobalRequest { .. } => {
                return match m {
                    Message::GlobalRequest { request_name, want_reply, data } => Ok(
                        Event::GlobalRequest { request_name, want_reply, data },
                    ),
                    _ => Err(Error::UnexpectedMessage),
                };
            },
            Message::RequestSuccess { .. } => {
                return match m {
                    Message::RequestSuccess { data } => self.answer_arrived(true, data),
                    _ => Err(Error::UnexpectedMessage),
                };
            },
            Message::RequestFailure => {
                return self.answer_arrived(false, Vec::new());
            },
            Message::ChannelOpenConfirmation { recipient_channel, .. } => *recipient_channel,
            Message::ChannelOpenFailure { recipient_channel, .. } => *recipient_channel,
            Message::ChannelWindowAdjust { recipient_channel, .. } => *recipient_channel,
            Message::ChannelData { recipient_channel, .. } => *recipient_channel,
            Message::ChannelExtendedData { recipient_channel, .. } => *recipient_channel,
            Message::ChannelEof { recipient_channel } => *recipient_channel,
            Message::ChannelClose { recipient_channel } => *recipient_channel,
            Message::ChannelRequest { recipient_channel, .. } => *recipient_channel,
            Message::ChannelSuccess { recipient_channel } => *recipient_channel,
            Message::ChannelFailure { recipient_channel } => *recipient_channel,
            _ => {
                return Err(Error::UnexpectedMessage);
            },
        };
        let i = match self.position(id) {
            Some(i) => i,
            None => {
                return Err(Error::ChannelClosed);
            },
        };
        assert(old(self).is_at(id, i as int));
        let ghost before = self.channels@;
        if let Message::ChannelOpenFailure { recipient_channel, reason, description, language } = m {
            if self.channels[i].confirmed {
                return Err(Error::UnexpectedMessage);
            }
            self.channels.remove(i);
            proof {
                self.lemma_removed(before, i as int);
            }
            return Err(Error::ChannelOpenRejected { reason, description });
        }
        let mut c = self.channels.remove(i);
        let r = c.handle(m);
        self.channels.insert(i, c);
        proof {
            assert(self.channels@ =~= before.update(i as int, self.channels@[i as int]));
            assert forall|j: int| 0 <= j < self.channels@.len() implies (
            #[trigger] self.channels@[j]).wf() && self.channels@[j].local_id < self.next_id by {
                if j != i {
                    assert(self.channels@[j] == before[j]);
                }
            }
            assert forall|a: int, b: int| 0 <= a < b < self.channels@.len() implies (
            #[trigger] self.channels@[a]).local_id != (#[trigger] self.channels@[b]).local_id by {
                assert(self.channels@[a].local_id == before[a].local_id);
                assert(self.channels@[b].local_id == before[b].local_id);
            }
        }
        match r {
            Ok(()) => Ok(Event::Handled),
            Err(e) => Err(e),
        }
    }

    proof fn lemma_removed(self, before: Seq<Channel>, i: int)
        requires
            0 <= i < before.len(),
            self.channels@ == before.remove(i),
            forall|j: int| 0 <= j < before.len() ==> (#[trigger] before[j]).wf(),
            forall|j: int| 0 <= j < before.len() ==> (#[trigger] before[j]).local_id < self.next_id,
            forall|a: int, b: int|
                0 <= a < b < before.len() ==> (#[trigger] before[a]).local_id != (
                #[trigger] before[b]).local_id,
        ensures
            forall|j: int| 0 <= j < self.channels@.len() ==> (#[trigger] self.channels@[j]).wf(),
            forall|j: int|
                0 <= j < self.channels@.len() ==> (#[trigger] self.channels@[j]).local_id
                    < self.next_id,
            forall|a: int, b: int|
                0 <= a < b < self.channels@.len() ==> (#[trigger] self.channels@[a]).local_id != (
                #[trigger] self.channels@[b]).local_id,
    {
        assert forall|j: int| 0 <= j < self.channels@.len() implies (
        #[trigger] self.channels@[j]).wf() && self.channels@[j].local_id < self.next_id by {
            if j < i {
                assert(self.channels@[j] == before[j]);
            } else {
                assert(self.channels@[j] == before[j + 1]);
            }
        }
        assert forall|a: int, b: int| 0 <= a < b < self.channels@.len() implies (
        #[trigger] self.channels@[a]).local_id != (#[trigger] self.channels@[b]).local_id by {
            let a0 = if a < i { a } else { a + 1 };
            let b0 = if b < i { b } else { b + 1 };
            assert(self.channels@[a] == before[a0]);
            assert(self.channels@[b] == before[b0]);
        }
    }

    /// An answer of the peer to a global request came in.
    fn answer_arrived(&mut self, success: bool, data: Vec<u8>) -> (r: Result<Event, Error>)
        requires
            old(self).wf(),
        ensures
            final(self).wf(),
            old(self).answered(success, data@, *final(self), r),
    {
        if self.awaited.len() == 0 {
            return Err(Error::ProtocolViolation);
        }
        let request_name = self.awaited.remove(0);
        assert(self.awaited@ =~= old(self).awaited@.skip(1));
        Ok(Event::GlobalReply { request_name, success, data })
    }

    /// All the messages that wait to be sent: those that concern no channel,
    /// then those of each channel, channel by channel. Nothing waits after,
    /// and the channels that both sides have closed are gone from the table.
    pub fn flush(&mut self) -> (r: Vec<Message>)
        requires
            old(self).wf(),
        ensures
            final(self).wf(),
            channel::messages(r@) == channel::messages(old(self).outbound@) + waiting(
                old(self).channels@,
            ),
            forall|i: int| 0 <= i < r@.len() ==> (#[trigger] r@[i])@.wf(),
            final(self).outbound@.len() == 0,
            surviving(old(self).channels@, final(self).channels@),
            final(self).awaited == old(self).awaited,
            final(self).next_id == old(self).next_id,
    {
        let mut r: Vec<Message> = Vec::new();
        std::mem::swap(&mut r, &mut self.outbound);
        let mut all: Vec<Channel> = Vec::new();
        std::mem::swap(&mut all, &mut self.channels);
        let ghost channels = all@;
        let ghost mut i: int = 0;
        proof {
            assert(channels.take(0) =~= Seq::<Channel>::empty());
            assert(channels.skip(0) =~= channels);
            assert(channel::messages(r@) + waiting(channels.take(0)) =~= channel::messages(r@));
        }
        while all.len() > 0
            invariant
                0 <= i <= channels.len(),
                all@ == channels.skip(i),
                channels == old(self).channels@,
                old(self).wf(),
                self.outbound@.len() == 0,
                self.awaited == old(self).awaited,
                self.next_id == old(self).next_id,
                channel::messages(r@) == channel::messages(old(self).outbound@) + waiting(
                    channels.take(i),
                ),
                forall|j: int| 0 <= j < r@.len() ==> (#[trigger] r@[j])@.wf(),
                surviving(channels.take(i), self.channels@),
                forall|j: int| 0 <= j < self.channels@.len() ==> (#[trigger] self.channels@[j]).wf(),
                forall|j: int|
                    0 <= j < self.channels@.len() ==> (#[trigger] self.channels@[j]).local_id
                        < self.next_id,
                forall|j: int|
                    0 <= j < self.channels@.len() ==> exists|k: int|
                        0 <= k < i && (#[trigger] self.channels@[j]).local_id
                            == channels[k].local_id,
                forall|a: int, b: int|
                    0 <= a < b < self.channels@.len() ==> (#[trigger] self.channels@[a]).local_id
                        != (#[trigger] self.channels@[b]).local_id,
            decreases all@.len(),
        {
            let mut c = all.remove(0);
            assert(c == channels[i]);
            assert(all@ =~= channels.skip(i + 1));
            let ghost kept = self.channels@;
            let ghost sent = r@;
            let mut out = c.take_outbound();
            let ghost added = out@;
            r.append(&mut out);
            proof {
                assert(channels.take(i + 1).drop_last() =~= channels.take(i));
                assert(channels.take(i + 1).last() == channels[i]);
                assert(channel::messages(r@) =~= channel::messages(sent) + channel::messages(added));
                assert(channel::messages(sent) + channel::messages(added) =~= channel::messages(
                    old(self).outbound@,
                ) + waiting(channels.take(i + 1)));
                assert forall|j: int| 0 <= j < r@.len() implies (#[trigger] r@[j])@.wf() by {
                    if j < sent.len() {
                        assert(r@[j] == sent[j]);
                    } else {
                        assert(r@[j] == channels[i].outbound@[j - sent.len()]);
                    }
                }
            }
            if !(c.close_sent && c.close_received) {
                self.channels.push(c);
                proof {
                    assert(self.channels@.drop_last() =~= kept);
                    assert forall|j: int| 0 <= j < self.channels@.len() implies (
                    #[trigger] self.channels@[j]).wf() && self.channels@[j].local_id
                        < self.next_id by {
                        if j < kept.len() {
                            assert(self.channels@[j] == kept[j]);
                        }
                    }
                    assert forall|j: int| 0 <= j < self.channels@.len() implies exists|k: int|
                        0 <= k < i + 1 && (#[trigger] self.channels@[j]).local_id
                            == channels[k].local_id by {
                        if j < kept.len() {
                            assert(self.channels@[j] == kept[j]);
                            let k = choose|k: int|
                                0 <= k < i && kept[j].local_id == channels[k].local_id;
                            assert(0 <= k < i + 1);
                        } else {
                            assert(self.channels@[j].local_id == channels[i].local_id);
                        }
                    }
                    assert forall|a: int, b: int|
                        0 <= a < b < self.channels@.len() implies (
                    #[trigger] self.channels@[a]).local_id != (
                    #[trigger] self.channels@[b]).local_id by {
                        assert(self.channels@[a] == kept[a]);
                        if b < kept.len() {
                            assert(self.channels@[b] == kept[b]);
                        } else {
                            let k = choose|k: int|
                                0 <= k < i && kept[a].local_id == channels[k].local_id;
                            assert(channels[k].local_id != channels[i].local_id);
                        }
                    }
                }
            } else {
                proof {
                    assert forall|j: int| 0 <= j < self.channels@.len() implies exists|k: int|
                        0 <= k < i + 1 && (#[trigger] self.channels@[j]).local_id
                            == channels[k].local_id by {
                        let k = choose|k: int|
                            0 <= k < i && self.channels@[j].local_id == channels[k].local_id;
                        assert(0 <= k < i + 1);
                    }
                }
            }
            proof {
                i = i + 1;
            }
        }
        proof {
            assert(channels.take(i) =~= channels);
        }
        r
    }

    /// The session is over: every channel counts as closed by both sides, and
    /// nothing waits to be sent any more. What had come in can still be read.
    pub fn terminate(&mut self)
        requires
            old(self).wf(),
        ensures
            final(self).wf(),
            final(self).outbound@.len() == 0,
            final(self).channels@.len() == old(self).channels@.len(),
            forall|i: int|
                0 <= i < final(self).channels@.len() ==> {
                    let c = #[trigger] final(self).channels@[i];
                    &&& c.close_sent && c.close_received
                    &&& c.outbound@.len() == 0
                    &&& c == (Channel {
                        close_sent: true,
                        close_received: true,
                        outbound: c.outbound,
                        ..old(self).channels@[i]
                    })
                },
            final(self).awaited == old(self).awaited,
            final(self).next_id == old(self).next_id,
    {
        self.outbound = Vec::new();
        let mut all: Vec<Channel> = Vec::new();
        std::mem::swap(&mut all, &mut self.channels);
        let ghost channels = all@;
        while all.len() > 0
            invariant
                channels == old(self).channels@,
                old(self).wf(),
                self.outbound@.len() == 0,
                self.awaited == old(self).awaited,
                self.next_id == old(self).next_id,
                self.channels@.len() + all@.len() == channels.len(),
                all@ == channels.skip(self.channels@.len() as int),
                forall|i: int|
                    0 <= i < self.channels@.len() ==> {
                        let c = #[trigger] self.channels@[i];
                        &&& c.wf()
                        &&& c.close_sent && c.close_received
                        &&& c.outbound@.len() == 0
                        &&& c == (Channel {
                            close_sent: true,
                            close_received: true,
                            outbound: c.outbound,
                            ..channels[i]
                        })
                    },
            decreases all@.len(),
        {
            let ghost done = self.channels@;
            let ghost n = done.len() as int;
            let mut c = all.remove(0);
            assert(c == channels[n]);
            assert(all@ =~= channels.skip(n + 1));
            c.outbound = Vec::new();
            c.close_sent = true;
            c.close_received = true;
            self.channels.push(c);
            assert forall|i: int| 0 <= i < self.channels@.len() implies {
                let c = #[trigger] self.channels@[i];
                &&& c.wf()
                &&& c.close_sent && c.close_received
                &&& c.outbound@.len() == 0
                &&& c == (Channel {
                    close_sent: true,
                    close_received: true,
                    outbound: c.outbound,
                    ..channels[i]
                })
            } by {
                if i < n {
                    assert(self.channels@[i] == done[i]);
                }
            }
        }
        proof {
            assert forall|i: int| 0 <= i < self.channels@.len() implies (
            #[trigger] self.channels@[i]).local_id < self.next_id by {
                assert(self.channels@[i].local_id == channels[i].local_id);
            }
            assert forall|a: int, b: int| 0 <= a < b < self.channels@.len() implies (
            #[trigger] self.channels@[a]).local_id != (#[trigger] self.channels@[b]).local_id by {
                assert(self.channels@[a].local_id == channels[a].local_id);
                assert(self.channels@[b].local_id == channels[b].local_id);
            }
        }
    }
}

} // verus!
