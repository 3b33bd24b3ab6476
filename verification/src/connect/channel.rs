//! One channel: its windows, its queues and its life from opening to closure.

use vstd::prelude::*;
use crate::error::Error;
use crate::message::{Message, MessageView};
use crate::wire::copy_range;

verus! {

/// The code of the one extended data stream that is delivered: standard
/// error.
pub const STDERR: u32 = 1;

/// A response to a channel request.
#[derive(Debug, Clone, Copy, PartialEq, Eq, Structural)]
pub enum Response {
    /// The request succeeded.
    Success,
    /// The request failed.
    Failure,
}

/// Where a channel stands in its life.
#[derive(Debug, Clone, Copy, PartialEq, Eq, Structural)]
pub enum State {
    /// The opening was asked for and is not confirmed yet.
    Opening,
    /// The channel is open in both directions.
    Open,
    /// This side has announced the end of its data.
    LocalEofSent,
    /// The peer has announced the end of its data.
    RemoteEofReceived,
    /// One side has closed the channel and the other has not yet.
    Closing,
    /// Both sides have closed the channel.
    Closed,
}

/// Data that came in on a channel and was not read yet.
#[derive(Debug, Clone, PartialEq, Eq)]
pub struct Chunk {
    /// The code of the extended data stream, or `None` for the main stream.
    pub stream: Option<u32>,
    /// The bytes.
    pub bytes: Vec<u8>,
}

/// A request that came in on a channel.
#[derive(Debug, Clone, PartialEq, Eq)]
pub struct Request {
    /// The type of the request.
    pub request_type: Vec<u8>,
    /// Whether the peer asks for an answer.
    pub want_reply: bool,
    /// What is specific to the request type.
    pub data: Vec<u8>,
}

/// The views of a queue of messages.
pub open spec fn messages(queue: Seq<Message>) -> Seq<MessageView> {
    queue.map_values(|m: Message| m@)
}

/// The number of bytes that a queue of chunks holds.
pub open spec fn queued(chunks: Seq<Chunk>) -> nat
    decreases chunks.len(),
{
    if chunks.len() == 0 {
        0
    } else {
        queued(chunks.drop_last()) + chunks.last().bytes@.len()
    }
}

/// One end of a channel.
pub struct Channel {
    /// This side's number for the channel.
    pub local_id: u32,
    /// The peer's number for the channel.
    pub remote_id: u32,
    /// The window that this side grants at the start and restores to.
    pub initial_window: u32,
    /// The number of bytes that the peer may still send.
    pub local_window: u32,
    /// The number of bytes that this side may still send.
    pub remote_window: u32,
    /// The largest data packet that this side accepts.
    pub local_max_packet: u32,
    /// The largest data packet that the peer accepts.
    pub remote_max_packet: u32,
    /// Whether the opening is confirmed.
    pub confirmed: bool,
    /// Whether this side has announced the end of its data.
    pub eof_sent: bool,
    /// Whether the peer has announced the end of its data.
    pub eof_received: bool,
    /// Whether this side has closed the channel.
    pub close_sent: bool,
    /// Whether the peer has closed the channel.
    pub close_received: bool,
    /// The number of bytes that were read or passed over since the window was
    /// last restored.
    pub drained: u32,
    /// The data that came in and was not read yet.
    pub inbound: Vec<Chunk>,
    /// The requests that came in and were not taken yet.
    pub requests: Vec<Request>,
    /// The answers to this side's requests that came in and were not taken
    /// yet.
    pub replies: Vec<Response>,
    /// The messages that wait to be sent.
    pub outbound: Vec<Message>,
    /// The window that the peer granted at the start.
    pub granted: Ghost<nat>,
    /// The number of data bytes that this side has sent in all.
    pub sent: Ghost<nat>,
    /// The number of bytes that the peer has added to its window in all.
    pub credited: Ghost<nat>,
}

impl Channel {
    /// Where the channel stands in its life.
    pub open spec fn spec_state(self) -> State {
        if self.close_sent && self.close_received {
            State::Closed
        } else if self.close_sent || self.close_received {
            State::Closing
        } else if !self.confirmed {
            State::Opening
        } else if self.eof_received {
            State::RemoteEofReceived
        } else if self.eof_sent {
            State::LocalEofSent
        } else {
            State::Open
        }
    }

    /// The number of data bytes that this side has sent and that the peer has
    /// not made up for by adding to its window.
    pub open spec fn in_flight(self) -> int {
        self.sent@ - self.credited@
    }

    /// What holds of a channel at all times: the local window never exceeds
    /// the initial window, the bytes sent and the window left add up to what
    /// the peer granted, every message that waits is well formed, and once
    /// this side has closed the channel nothing is sent after.
    pub open spec fn wf(self) -> bool {
        &&& self.local_window <= self.initial_window
        &&& self.drained <= self.initial_window / 2
        &&& self.sent@ + self.remote_window == self.granted@ + self.credited@
        &&& forall|i: int| 0 <= i < self.outbound@.len() ==> (#[trigger] self.outbound@[i])@.wf()
        &&& self.close_sent ==> (self.outbound@.len() == 0 || self.outbound@.last()@
            == MessageView::ChannelClose { recipient_channel: self.remote_id })
    }

    /// The bytes in flight never exceed the window that the peer granted.
    pub proof fn lemma_in_flight_bounded(self)
        requires
            self.wf(),
        ensures
            self.in_flight() <= self.granted@,
    {
    }

    /// Where the channel stands in its life.
    pub fn state(&self) -> (r: State)
        ensures
            r == self.spec_state(),
    {
        if self.close_sent && self.close_received {
            State::Closed
        } else if self.close_sent || self.close_received {
            State::Closing
        } else if !self.confirmed {
            State::Opening
        } else if self.eof_received {
            State::RemoteEofReceived
        } else if self.eof_sent {
            State::LocalEofSent
        } else {
            State::Open
        }
    }

    /// Tells whether the channel has been closed by us or the peer.
    pub fn is_closed(&self) -> (r: bool)
        ensures
            r == (self.close_sent || self.close_received),
    {
        self.close_sent || self.close_received
    }

    /// Whether the channel is as one starts whose opening the peer has still
    /// to confirm: nothing is known of the peer, nothing was sent or received,
    /// and nothing waits in any of its queues.
    pub open spec fn starts_opening(
        self,
        local_id: u32,
        initial_window: u32,
        local_max_packet: u32,
    ) -> bool {
        &&& self.local_id == local_id
        &&& self.remote_id == 0
        &&& self.initial_window == initial_window
        &&& self.local_window == initial_window
        &&& self.remote_window == 0
        &&& self.local_max_packet == local_max_packet
        &&& self.remote_max_packet == 0
        &&& !self.confirmed
        &&& !self.eof_sent && !self.eof_received && !self.close_sent && !self.close_received
        &&& self.drained == 0
        &&& self.inbound@.len() == 0
        &&& self.requests@.len() == 0
        &&& self.replies@.len() == 0
        &&& self.outbound@.len() == 0
        &&& self.granted@ == 0
        &&& self.sent@ == 0
        &&& self.credited@ == 0
    }

    /// Whether the channel is as one starts that is open: the peer's number,
    /// window and largest packet are those given, nothing was sent or
    /// received, and nothing waits in any of its queues.
    pub open spec fn starts_open(
        self,
        local_id: u32,
        remote_id: u32,
        initial_window: u32,
        local_max_packet: u32,
        remote_window: u32,
        remote_max_packet: u32,
    ) -> bool {
        &&& self.local_id == local_id
        &&& self.remote_id == remote_id
        &&& self.initial_window == initial_window
        &&& self.local_window == initial_window
        &&& self.remote_window == remote_window
        &&& self.local_max_packet == local_max_packet
        &&& self.remote_max_packet == remote_max_packet
        &&& self.confirmed
        &&& !self.eof_sent && !self.eof_received && !self.close_sent && !self.close_received
        &&& self.drained == 0
        &&& self.inbound@.len() == 0
        &&& self.requests@.len() == 0
        &&& self.replies@.len() == 0
        &&& self.outbound@.len() == 0
        &&& self.granted@ == remote_window
        &&& self.sent@ == 0
        &&& self.credited@ == 0
    }

    /// A channel whose opening the peer has still to confirm.
    pub fn opening(local_id: u32, initial_window: u32, local_max_packet: u32) -> (r: Channel)
        ensures
            r.wf(),
            r.starts_opening(local_id, initial_window, local_max_packet),
            r.spec_state() == State::Opening,
            r.local_id == local_id,
            r.initial_window == initial_window,
            r.local_window == initial_window,
            r.local_max_packet == local_max_packet,
            r.remote_window == 0,
            r.granted@ == 0,
            r.sent@ == 0,
            r.credited@ == 0,
            !r.eof_sent && !r.eof_received && !r.close_sent && !r.close_received,
            r.drained == 0,
            r.outbound@.len() == 0,
            r.inbound@.len() == 0,
            r.requests@.len() == 0,
            r.replies@.len() == 0,
    {
        Channel {
            local_id,
            remote_id: 0,
            initial_window,
            local_window: initial_window,
            remote_window: 0,
            local_max_packet,
            remote_max_packet: 0,
            confirmed: false,
            eof_sent: false,
            eof_received: false,
            close_sent: false,
            close_received: false,
            drained: 0,
            inbound: Vec::new(),
            requests: Vec::new(),
            replies: Vec::new(),
            outbound: Vec::new(),
            granted: Ghost(0),
            sent: Ghost(0),
            credited: Ghost(0),
        }
    }

    /// A channel that is open: the peer's number, window and largest packet
    /// are known.
    pub fn new(
        local_id: u32,
        remote_id: u32,
        initial_window: u32,
        local_max_packet: u32,
        remote_window: u32,
        remote_max_packet: u32,
    ) -> (r: Channel)
        ensures
            r.wf(),
            r.starts_open(
                local_id,
                remote_id,
                initial_window,
                local_max_packet,
                remote_window,
                remote_max_packet,
            ),
            r.spec_state() == State::Open,
            r.local_id == local_id,
            r.remote_id == remote_id,
            r.initial_window == initial_window,
            r.local_window == initial_window,
            r.local_max_packet == local_max_packet,
            r.remote_window == remote_window,
            r.remote_max_packet == remote_max_packet,
            r.granted@ == remote_window,
            r.in_flight() == 0,
            r.drained == 0,
            r.outbound@.len() == 0,
            r.inbound@.len() == 0,
            r.requests@.len() == 0,
            r.replies@.len() == 0,
    {
        let mut r = Channel::opening(local_id, initial_window, local_max_packet);
        r.confirm(remote_id, remote_window, remote_max_packet);
        r
    }

    /// The peer has confirmed the opening, with its number for the channel,
    /// its window and its largest packet.
    pub fn confirm(&mut self, remote_id: u32, remote_window: u32, remote_max_packet: u32)
        requires
            old(self).wf(),
            !old(self).confirmed,
            !old(self).close_sent,
        ensures
            final(self).wf(),
            *final(self) == (Channel {
                remote_id,
                remote_window,
                remote_max_packet,
                confirmed: true,
                granted: Ghost(remote_window as nat),
                sent: Ghost(0),
                credited: Ghost(0),
                ..*old(self)
            }),
    {
        self.remote_id = remote_id;
        self.remote_window = remote_window;
        self.remote_max_packet = remote_max_packet;
        self.confirmed = true;
        self.granted = Ghost(remote_window as nat);
        self.sent = Ghost(0);
        self.credited = Ghost(0);
    }

    /// The payloads of the data messages among `queue`, one after the other.
    pub open spec fn payloads(queue: Seq<MessageView>) -> Seq<u8>
        decreases queue.len(),
    {
        if queue.len() == 0 {
            Seq::empty()
        } else {
            Self::payloads(queue.drop_last()) + match queue.last() {
                MessageView::ChannelData { data, .. } => data,
                MessageView::ChannelExtendedData { data, .. } => data,
                _ => Seq::empty(),
            }
        }
    }

    /// Whether `m` is a data message to the channel `remote_id` on the stream
    /// `stream`, with a payload that is not empty and of at most `max` bytes.
    pub open spec fn is_data(m: MessageView, remote_id: u32, stream: Option<u32>, max: nat) -> bool {
        match stream {
            None => m matches MessageView::ChannelData { recipient_channel, data }
                && recipient_channel == remote_id && 0 < data.len() <= max,
            Some(code) => m matches MessageView::ChannelExtendedData {
                recipient_channel,
                data_type,
                data,
            } && recipient_channel == remote_id && data_type == code && 0 < data.len() <= max,
        }
    }

    /// The number of bytes that the data message `m` carries.
    pub open spec fn carried(m: MessageView) -> nat {
        match m {
            MessageView::ChannelData { data, .. } => data.len(),
            MessageView::ChannelExtendedData { data, .. } => data.len(),
            _ => 0,
        }
    }

    /// Whether every message of `queue` but the last carries exactly `max`
    /// bytes: the data was cut into packets as large as they may be.
    pub open spec fn filled(queue: Seq<MessageView>, max: nat) -> bool {
        forall|i: int| 0 <= i < queue.len() - 1 ==> Self::carried(#[trigger] queue[i]) == max
    }

    /// The number of bytes of a write of `n` bytes that can be sent now: as
    /// many as the peer's window allows, and none while the peer accepts no
    /// packet at all.
    pub open spec fn writable(self, n: nat) -> nat {
        if self.remote_max_packet == 0 {
            0
        } else if n <= self.remote_window {
            n
        } else {
            self.remote_window as nat
        }
    }

    /// Whether data can be written: the channel is open and this side has
    /// neither announced the end of its data nor closed the channel.
    pub open spec fn can_write(self) -> bool {
        self.confirmed && !self.eof_sent && !self.close_sent && !self.close_received
    }

    /// Queues the start of `data` for the stream `stream`, as much of it as the
    /// peer's window allows, cut into packets of the peer's largest packet and
    /// one for what is left, and says how many bytes were taken: the rest has
    /// to wait for the peer to add to its window. Fails with `ChannelClosed`,
    /// and queues nothing, where the channel cannot be written to.
    pub fn write(&mut self, data: &[u8], stream: Option<u32>) -> (r: Result<usize, Error>)
        requires
            old(self).wf(),
        ensures
            final(self).wf(),
            match r {
                Ok(n) => {
                    let added = messages(final(self).outbound@).skip(old(self).outbound@.len() as int);
                    &&& old(self).can_write()
                    &&& n == old(self).writable(data@.len())
                    &&& messages(final(self).outbound@) == messages(old(self).outbound@) + added
                    &&& forall|i: int|
                        0 <= i < added.len() ==> Self::is_data(
                            #[trigger] added[i],
                            old(self).remote_id,
                            stream,
                            old(self).remote_max_packet as nat,
                        )
                    &&& Self::payloads(added) == data@.take(n as int)
                    &&& Self::filled(added, old(self).remote_max_packet as nat)
                    &&& final(self).remote_window == old(self).remote_window - n
                    &&& final(self).sent@ == old(self).sent@ + n
                    &&& *final(self) == (Channel {
                        remote_window: final(self).remote_window,
                        outbound: final(self).outbound,
                        sent: final(self).sent,
                        ..*old(self)
                    })
                },
                Err(e) => e == Error::ChannelClosed && !old(self).can_write() && *final(self)
                    == *old(self),
            },
    {
        if !self.confirmed || self.eof_sent || self.close_sent || self.close_received {
            return Err(Error::ChannelClosed);
        }
        if self.remote_max_packet == 0 {
            proof {
                assert(messages(self.outbound@).skip(self.outbound@.len() as int)
                    =~= Seq::<MessageView>::empty());
                assert(messages(self.outbound@) + Seq::<MessageView>::empty() =~= messages(
                    self.outbound@,
                ));
                assert(data@.take(0) =~= Seq::<u8>::empty());
            }
            return Ok(0);
        }
        let total: usize = if data.len() <= self.remote_window as usize {
            data.len()
        } else {
            self.remote_window as usize
        };
        let max = self.remote_max_packet as usize;
        let ghost start = self.outbound@.len() as int;
        let mut done: usize = 0;
        proof {
            assert(messages(self.outbound@).skip(start) =~= Seq::<MessageView>::empty());
            assert(data@.take(0) =~= Seq::<u8>::empty());
        }
        while done < total
            invariant
                done <= total <= data@.len(),
                total <= old(self).remote_window,
                old(self).can_write(),
                max == old(self).remote_max_packet,
                max > 0,
                start == old(self).outbound@.len(),
                self.outbound@.len() >= start,
                self.outbound@.take(start) == old(self).outbound@,
                self.remote_window == old(self).remote_window - done,
                self.sent@ == old(self).sent@ + done,
                *self == (Channel {
                    remote_window: self.remote_window,
                    outbound: self.outbound,
                    sent: self.sent,
                    ..*old(self)
                }),
                self.wf(),
                forall|i: int|
                    0 <= i < self.outbound@.len() - start ==> Self::is_data(
                        #[trigger] messages(self.outbound@).skip(start)[i],
                        old(self).remote_id,
                        stream,
                        max as nat,
                    ),
                Self::payloads(messages(self.outbound@).skip(start)) == data@.take(done as int),
                Self::filled(messages(self.outbound@).skip(start), max as nat),
                done < total ==> forall|i: int|
                    0 <= i < self.outbound@.len() - start ==> Self::carried(
                        #[trigger] messages(self.outbound@).skip(start)[i],
                    ) == max,
            decreases total - done,
        {
            let n: usize = if total - done <= max {
                total - done
            } else {
                max
            };
            let piece = copy_range(data, done, done + n);
            let m = match stream {
                None => Message::ChannelData { recipient_channel: self.remote_id, data: piece },
                Some(code) => Message::ChannelExtendedData {
                    recipient_channel: self.remote_id,
                    data_type: code,
                    data: piece,
                },
            };
            let ghost before = messages(self.outbound@).skip(start);
            let ghost mv = m@;
            let ghost queue = self.outbound@;
            assert(mv.wf());
            self.outbound.push(m);
            assert forall|i: int| 0 <= i < self.outbound@.len() implies (
            #[trigger] self.outbound@[i])@.wf() by {
                if i < queue.len() {
                    assert(self.outbound@[i] == queue[i]);
                }
            }
            self.remote_window = self.remote_window - n as u32;
            self.sent = Ghost((self.sent@ + n) as nat);
            proof {
                let after = messages(self.outbound@).skip(start);
                assert(after =~= before.push(mv));
                assert(after.drop_last() =~= before);
                assert(data@.take(done + n) =~= data@.take(done as int) + data@.subrange(
                    done as int,
                    done + n,
                ));
                assert(self.outbound@.take(start) =~= old(self).outbound@);
                assert(Self::carried(mv) == n);
                assert forall|i: int| 0 <= i < after.len() - 1 implies Self::carried(
                    #[trigger] after[i],
                ) == max by {
                    assert(after[i] == before[i]);
                }
            }
            done = done + n;
        }
        proof {
            let added = messages(self.outbound@).skip(start);
            assert(messages(self.outbound@) =~= messages(old(self).outbound@) + added) by {
                assert(messages(self.outbound@).take(start) =~= messages(self.outbound@.take(start)));
            }
        }
        Ok(total)
    }

    /// The peer adds `bytes_to_add` to the window that this side may send
    /// into. Where that would take the window past the largest value, the
    /// window stays at the largest value and the call fails with
    /// `WindowOverflow`.
    pub fn adjust(&mut self, bytes_to_add: u32) -> (r: Result<(), Error>)
        requires
            old(self).wf(),
        ensures
            final(self).wf(),
            final(self).remote_window == if old(self).remote_window + bytes_to_add <= u32::MAX {
                (old(self).remote_window + bytes_to_add) as u32
            } else {
                u32::MAX
            },
            r is Ok <==> old(self).remote_window + bytes_to_add <= u32::MAX,
            r is Err ==> r->Err_0 == Error::WindowOverflow,
            *final(self) == (Channel {
                remote_window: final(self).remote_window,
                credited: final(self).credited,
                ..*old(self)
            }),
    {
        let room = u32::MAX - self.remote_window;
        if bytes_to_add <= room {
            self.remote_window = self.remote_window + bytes_to_add;
            self.credited = Ghost(self.credited@ + bytes_to_add as nat);
            Ok(())
        } else {
            self.remote_window = u32::MAX;
            self.credited = Ghost(self.credited@ + room as nat);
            Err(Error::WindowOverflow)
        }
    }

    /// Queues the message that closes the channel, unless it was queued
    /// before: closing twice sends one message.
    pub fn close(&mut self)
        requires
            old(self).wf(),
        ensures
            final(self).wf(),
            final(self).close_sent,
            messages(final(self).outbound@) == if old(self).close_sent {
                messages(old(self).outbound@)
            } else {
                messages(old(self).outbound@).push(
                    MessageView::ChannelClose { recipient_channel: old(self).remote_id },
                )
            },
            *final(self) == (Channel {
                close_sent: true,
                outbound: final(self).outbound,
                ..*old(self)
            }),
    {
        if !self.close_sent {
            let ghost before = messages(self.outbound@);
            self.outbound.push(Message::ChannelClose { recipient_channel: self.remote_id });
            self.close_sent = true;
            assert(messages(self.outbound@) =~= before.push(
                MessageView::ChannelClose { recipient_channel: self.remote_id },
            ));
        }
    }

    /// Whether `n` more bytes that are read or passed over bring what was
    /// drained since the window was last restored to half the initial window
    /// or more.
    pub open spec fn half_drained(self, n: nat) -> bool {
        self.drained + n >= self.initial_window / 2
    }

    /// Whether the window is restored once `n` more bytes were read or passed
    /// over: half the initial window is drained, the window is not full, and
    /// this side has not closed the channel.
    pub open spec fn restores(self, n: nat) -> bool {
        self.half_drained(n) && !self.close_sent && self.local_window < self.initial_window
    }

    /// The local window, the count of what was drained and the message queue
    /// once `n` more bytes were read or passed over. Where the window is
    /// restored, it is the initial window again, and the message that adds
    /// what it lacked is queued. The count starts again whenever half the
    /// initial window is drained.
    pub open spec fn drained_by(self, n: nat, after: Channel) -> bool {
        &&& after.drained == if self.half_drained(n) {
            0
        } else {
            (self.drained + n) as u32
        }
        &&& if self.restores(n) {
            &&& after.local_window == self.initial_window
            &&& messages(after.outbound@) == messages(self.outbound@).push(
                MessageView::ChannelWindowAdjust {
                    recipient_channel: self.remote_id,
                    bytes_to_add: (self.initial_window - self.local_window) as u32,
                },
            )
        } else {
            &&& after.local_window == self.local_window
            &&& after.outbound == self.outbound
        }
    }

    /// Takes note that `n` bytes were read or passed over, or more than can be
    /// counted where `n` is the largest number.
    fn drain(&mut self, n: u64, Ghost(total): Ghost<nat>)
        requires
            old(self).wf(),
            n == if total <= u64::MAX {
                total as u64
            } else {
                u64::MAX
            },
        ensures
            final(self).wf(),
            old(self).drained_by(total, *final(self)),
            *final(self) == (Channel {
                local_window: final(self).local_window,
                drained: final(self).drained,
                outbound: final(self).outbound,
                ..*old(self)
            }),
    {
        let half = (self.initial_window / 2) as u64;
        if self.drained as u64 >= half || n >= half - self.drained as u64 {
            if !self.close_sent && self.local_window < self.initial_window {
                let m = Message::ChannelWindowAdjust {
                    recipient_channel: self.remote_id,
                    bytes_to_add: self.initial_window - self.local_window,
                };
                let ghost before = self.outbound@;
                let ghost mv = m@;
                self.outbound.push(m);
                assert(messages(self.outbound@) =~= messages(before).push(mv));
                assert forall|i: int| 0 <= i < self.outbound@.len() implies (
                #[trigger] self.outbound@[i])@.wf() by {
                    if i < before.len() {
                        assert(self.outbound@[i] == before[i]);
                    }
                }
                self.local_window = self.initial_window;
            }
            self.drained = 0;
        } else {
            self.drained = self.drained + n as u32;
        }
    }

    /// Whether data can come in: the opening is confirmed and the peer has
    /// neither announced the end of its data nor closed the channel.
    pub open spec fn can_receive(self) -> bool {
        self.confirmed && !self.eof_received && !self.close_received
    }

    /// Whether the stream `stream` is delivered to readers: the main stream
    /// and standard error are, every other extended stream is passed over.
    pub open spec fn delivered(stream: Option<u32>) -> bool {
        stream is None || stream == Some(STDERR)
    }

    /// Whether the peer may send `n` bytes of data now: the channel can
    /// receive, and the bytes fit the largest packet and the window.
    pub open spec fn admits(self, n: nat) -> bool {
        &&& self.can_receive()
        &&& n <= self.local_max_packet
        &&& n <= self.local_window
    }

    /// What data on the stream `stream` does to the channel: it comes off the
    /// local window, and is queued for readers, or passed over at once where
    /// the stream is not delivered. Where the peer may not send that much, or
    /// no data at all, it is a `ProtocolViolation` and changes nothing.
    pub open spec fn received(
        self,
        stream: Option<u32>,
        data: Vec<u8>,
        after: Channel,
        r: Result<(), Error>,
    ) -> bool {
        let taken = Channel { local_window: (self.local_window - data@.len()) as u32, ..self };
        &&& r is Ok <==> self.admits(data@.len())
        &&& r is Err ==> r->Err_0 == Error::ProtocolViolation && after == self
        &&& r is Ok ==> if Self::delivered(stream) {
            &&& after.inbound@ == if data@.len() > 0 {
                self.inbound@.push(Chunk { stream, bytes: data })
            } else {
                self.inbound@
            }
            &&& after == (Channel { inbound: after.inbound, ..taken })
        } else {
            &&& taken.drained_by(data@.len(), after)
            &&& after == (Channel {
                local_window: after.local_window,
                drained: after.drained,
                outbound: after.outbound,
                ..self
            })
        }
    }

    /// Data came in on the stream `stream`.
    pub fn receive(&mut self, stream: Option<u32>, data: Vec<u8>) -> (r: Result<(), Error>)
        requires
            old(self).wf(),
        ensures
            final(self).wf(),
            old(self).received(stream, data, *final(self), r),
    {
        if !self.confirmed || self.eof_received || self.close_received {
            return Err(Error::ProtocolViolation);
        }
        if data.len() > self.local_window as usize || data.len() > self.local_max_packet as usize {
            return Err(Error::ProtocolViolation);
        }
        let n = data.len() as u32;
        self.local_window = self.local_window - n;
        let deliver = match stream {
            None => true,
            Some(code) => code == STDERR,
        };
        if deliver {
            if n > 0 {
                self.inbound.push(Chunk { stream, bytes: data });
            }
        } else {
            self.drain(n as u64, Ghost(n as nat));
        }
        Ok(())
    }

    /// The number of chunks at the front of `chunks` that are not of the
    /// stream `stream`.
    pub open spec fn leading_others(chunks: Seq<Chunk>, stream: Option<u32>) -> nat
        decreases chunks.len(),
    {
        if chunks.len() == 0 || chunks[0].stream == stream {
            0
        } else {
            1 + Self::leading_others(chunks.skip(1), stream)
        }
    }

    /// The next bytes of the stream `stream`, at most `max` of them: those of
    /// the first chunk of that stream. Chunks of other streams that stand
    /// before it are passed over. What was read and passed over is drained,
    /// and the window is restored once half of it is. Empty where no chunk of
    /// the stream is queued.
    pub fn read(&mut self, stream: Option<u32>, max: usize) -> (r: Vec<u8>)
        requires
            old(self).wf(),
        ensures
            final(self).wf(),
            ({
                let chunks = old(self).inbound@;
                let k = Self::leading_others(chunks, stream) as int;
                if k == chunks.len() {
                    r@.len() == 0 && final(self).inbound@.len() == 0
                } else if chunks[k].bytes@.len() <= max {
                    r@ == chunks[k].bytes@ && final(self).inbound@ == chunks.skip(k + 1)
                } else {
                    &&& r@ == chunks[k].bytes@.take(max as int)
                    &&& final(self).inbound@.len() == chunks.len() - k
                    &&& final(self).inbound@[0].stream == stream
                    &&& final(self).inbound@[0].bytes@ == chunks[k].bytes@.skip(max as int)
                    &&& final(self).inbound@.skip(1) == chunks.skip(k + 1)
                }
            }),
            queued(final(self).inbound@) <= queued(old(self).inbound@),
            old(self).drained_by(
                (queued(old(self).inbound@) - queued(final(self).inbound@)) as nat,
                *final(self),
            ),
            *final(self) == (Channel {
                local_window: final(self).local_window,
                drained: final(self).drained,
                inbound: final(self).inbound,
                outbound: final(self).outbound,
                ..*old(self)
            }),
    {
        let mut passed: u64 = 0;
        let ghost mut total: nat = 0;
        let ghost chunks = self.inbound@;
        let ghost mut k: int = 0;
        proof {
            assert(chunks.skip(0) =~= chunks);
        }
        while self.inbound.len() > 0 && !same_stream(self.inbound[0].stream, stream)
            invariant
                0 <= k <= chunks.len(),
                chunks == old(self).inbound@,
                self.inbound@ == chunks.skip(k),
                Self::leading_others(chunks, stream) == k + Self::leading_others(
                    chunks.skip(k),
                    stream,
                ),
                queued(self.inbound@) + total == queued(chunks),
                passed == if total <= u64::MAX {
                    total as u64
                } else {
                    u64::MAX
                },
                old(self).wf(),
                *self == (Channel { inbound: self.inbound, ..*old(self) }),
            decreases self.inbound@.len(),
        {
            let ghost before = self.inbound@;
            let c = self.inbound.remove(0);
            proof {
                assert(self.inbound@ =~= chunks.skip(k + 1));
                assert(chunks.skip(k).skip(1) =~= chunks.skip(k + 1));
                lemma_queued_front(before);
                assert(before.skip(1) =~= self.inbound@);
                k = k + 1;
                total = total + c.bytes@.len();
            }
            passed = passed.saturating_add(c.bytes.len() as u64);
        }
        if self.inbound.len() == 0 {
            assert(queued(self.inbound@) == 0);
            self.drain(passed, Ghost(total));
            return Vec::new();
        }
        proof {
            lemma_queued_front(self.inbound@);
        }
        let ghost front = self.inbound@;
        let c = self.inbound.remove(0);
        assert(self.inbound@ =~= chunks.skip(k + 1));
        assert(front.skip(1) =~= self.inbound@);
        if c.bytes.len() <= max {
            let n = passed.saturating_add(c.bytes.len() as u64);
            self.drain(n, Ghost(total + c.bytes@.len()));
            c.bytes
        } else {
            let head = copy_range(c.bytes.as_slice(), 0, max);
            let tail = copy_range(c.bytes.as_slice(), max, c.bytes.len());
            assert(head@ =~= c.bytes@.take(max as int));
            assert(tail@ =~= c.bytes@.skip(max as int));
            let ghost rest = self.inbound@;
            self.inbound.insert(0, Chunk { stream: c.stream, bytes: tail });
            proof {
                assert(self.inbound@.skip(1) =~= rest);
                lemma_queued_front(self.inbound@);
            }
            let n = passed.saturating_add(max as u64);
            self.drain(n, Ghost(total + max as nat));
            head
        }
    }

    /// Whether the stream `stream` has come to its end: the peer has announced
    /// the end of its data, or closed the channel, and no chunk of the stream
    /// is left to read.
    pub fn at_end(&self, stream: Option<u32>) -> (r: bool)
        ensures
            r == ((self.eof_received || self.close_received) && forall|i: int|
                0 <= i < self.inbound@.len() ==> (#[trigger] self.inbound@[i]).stream != stream),
    {
        if !(self.eof_received || self.close_received) {
            return false;
        }
        let mut i: usize = 0;
        while i < self.inbound.len()
            invariant
                i <= self.inbound@.len(),
                forall|j: int| 0 <= j < i ==> (#[trigger] self.inbound@[j]).stream != stream,
            decreases self.inbound@.len() - i,
        {
            if same_stream(self.inbound[i].stream, stream) {
                return false;
            }
            i += 1;
        }
        true
    }

    /// The peer has announced the end of its data.
    pub fn receive_eof(&mut self)
        requires
            old(self).wf(),
        ensures
            final(self).wf(),
            *final(self) == (Channel { eof_received: true, ..*old(self) }),
    {
        self.eof_received = true;
    }

    /// Queues the message that announces the end of this side's data, unless
    /// it was queued before. Fails with `ChannelClosed` where the channel is
    /// not open or is closed.
    pub fn send_eof(&mut self) -> (r: Result<(), Error>)
        requires
            old(self).wf(),
        ensures
            final(self).wf(),
            r is Ok <==> old(self).confirmed && !old(self).close_sent && !old(self).close_received,
            r is Err ==> r->Err_0 == Error::ChannelClosed && *final(self) == *old(self),
            r is Ok ==> {
                &&& final(self).eof_sent
                &&& messages(final(self).outbound@) == if old(self).eof_sent {
                    messages(old(self).outbound@)
                } else {
                    messages(old(self).outbound@).push(
                        MessageView::ChannelEof { recipient_channel: old(self).remote_id },
                    )
                }
                &&& *final(self) == (Channel {
                    eof_sent: true,
                    outbound: final(self).outbound,
                    ..*old(self)
                })
            },
    {
        if !self.confirmed || self.close_sent || self.close_received {
            return Err(Error::ChannelClosed);
        }
        if !self.eof_sent {
            self.queue(Message::ChannelEof { recipient_channel: self.remote_id });
            self.eof_sent = true;
        }
        Ok(())
    }

    /// The peer has closed the channel: this side closes it too, unless it
    /// has already.
    pub fn receive_close(&mut self)
        requires
            old(self).wf(),
        ensures
            final(self).wf(),
            final(self).spec_state() == State::Closed,
            messages(final(self).outbound@) == if old(self).close_sent {
                messages(old(self).outbound@)
            } else {
                messages(old(self).outbound@).push(
                    MessageView::ChannelClose { recipient_channel: old(self).remote_id },
                )
            },
            *final(self) == (Channel {
                close_sent: true,
                close_received: true,
                outbound: final(self).outbound,
                ..*old(self)
            }),
    {
        self.close();
        self.close_received = true;
    }

    /// Queues the message `m`.
    fn queue(&mut self, m: Message)
        requires
            old(self).wf(),
            !old(self).close_sent,
            m@.wf(),
        ensures
            final(self).wf(),
            messages(final(self).outbound@) == messages(old(self).outbound@).push(m@),
            *final(self) == (Channel { outbound: final(self).outbound, ..*old(self) }),
    {
        let ghost before = self.outbound@;
        let ghost mv = m@;
        self.outbound.push(m);
        assert(messages(self.outbound@) =~= messages(before).push(mv));
        assert forall|i: int| 0 <= i < self.outbound@.len() implies (
        #[trigger] self.outbound@[i])@.wf() by {
            if i < before.len() {
                assert(self.outbound@[i] == before[i]);
            }
        }
    }

    /// Queues a request of the type `request_type`, which asks for an answer
    /// or not. Fails with `ChannelClosed`, and queues nothing, where the
    /// channel is not open or is closed.
    pub fn request_with(&mut self, request_type: Vec<u8>, want_reply: bool, data: Vec<u8>) -> (r:
        Result<(), Error>)
        requires
            old(self).wf(),
            request_type@.len() <= u32::MAX,
        ensures
            final(self).wf(),
            r is Ok <==> old(self).confirmed && !old(self).close_sent && !old(self).close_received,
            r is Err ==> r->Err_0 == Error::ChannelClosed && *final(self) == *old(self),
            r is Ok ==> {
                &&& messages(final(self).outbound@) == messages(old(self).outbound@).push(
                    MessageView::ChannelRequest {
                        recipient_channel: old(self).remote_id,
                        request_type: request_type@,
                        want_reply,
                        data: data@,
                    },
                )
                &&& *final(self) == (Channel { outbound: final(self).outbound, ..*old(self) })
            },
    {
        if !self.confirmed || self.close_sent || self.close_received {
            return Err(Error::ChannelClosed);
        }
        self.queue(
            Message::ChannelRequest {
                recipient_channel: self.remote_id,
                request_type,
                want_reply,
                data,
            },
        );
        Ok(())
    }

    /// Send a request on the current channel: one that asks for an answer. The
    /// answer is to be taken with `take_reply` once it has come in.
    pub fn request(&mut self, request_type: Vec<u8>, data: Vec<u8>) -> (r: Result<(), Error>)
        requires
            old(self).wf(),
            request_type@.len() <= u32::MAX,
        ensures
            final(self).wf(),
            r is Ok <==> old(self).confirmed && !old(self).close_sent && !old(self).close_received,
            r is Err ==> r->Err_0 == Error::ChannelClosed && *final(self) == *old(self),
            r is Ok ==> {
                &&& messages(final(self).outbound@) == messages(old(self).outbound@).push(
                    MessageView::ChannelRequest {
                        recipient_channel: old(self).remote_id,
                        request_type: request_type@,
                        want_reply: true,
                        data: data@,
                    },
                )
                &&& *final(self) == (Channel { outbound: final(self).outbound, ..*old(self) })
            },
    {
        self.request_with(request_type, true, data)
    }

    /// An answer to a request of this side came in.
    pub fn receive_reply(&mut self, response: Response)
        requires
            old(self).wf(),
        ensures
            final(self).wf(),
            final(self).replies@ == old(self).replies@.push(response),
            *final(self) == (Channel { replies: final(self).replies, ..*old(self) }),
    {
        self.replies.push(response);
    }

    /// The answer that came in first and was not taken yet. Without one, where
    /// the channel is closed no answer will come: `ChannelClosed`; else
    /// `None`.
    pub fn take_reply(&mut self) -> (r: Result<Option<Response>, Error>)
        requires
            old(self).wf(),
        ensures
            final(self).wf(),
            if old(self).replies@.len() > 0 {
                &&& r == Ok::<Option<Response>, Error>(Some(old(self).replies@[0]))
                &&& final(self).replies@ == old(self).replies@.skip(1)
                &&& *final(self) == (Channel { replies: final(self).replies, ..*old(self) })
            } else {
                &&& *final(self) == *old(self)
                &&& r == if old(self).close_sent || old(self).close_received {
                    Err::<Option<Response>, Error>(Error::ChannelClosed)
                } else {
                    Ok(None)
                }
            },
    {
        if self.replies.len() > 0 {
            let response = self.replies.remove(0);
            assert(self.replies@ =~= old(self).replies@.skip(1));
            Ok(Some(response))
        } else if self.close_sent || self.close_received {
            Err(Error::ChannelClosed)
        } else {
            Ok(None)
        }
    }

    /// A request of the peer came in.
    pub fn receive_request(&mut self, request: Request)
        requires
            old(self).wf(),
        ensures
            final(self).wf(),
            final(self).requests@ == old(self).requests@.push(request),
            *final(self) == (Channel { requests: final(self).requests, ..*old(self) }),
    {
        self.requests.push(request);
    }

    /// The request that came in first and was not taken yet.
    pub fn take_request(&mut self) -> (r: Option<Request>)
        requires
            old(self).wf(),
        ensures
            final(self).wf(),
            if old(self).requests@.len() > 0 {
                &&& r == Some(old(self).requests@[0])
                &&& final(self).requests@ == old(self).requests@.skip(1)
                &&& *final(self) == (Channel { requests: final(self).requests, ..*old(self) })
            } else {
                r is None && *final(self) == *old(self)
            },
    {
        if self.requests.len() > 0 {
            let request = self.requests.remove(0);
            assert(self.requests@ =~= old(self).requests@.skip(1));
            Some(request)
        } else {
            None
        }
    }

    /// Answers a request of the peer with `response`: the matching message is
    /// queued where the peer asked for an answer and this side has not closed
    /// the channel. Gives `response` back.
    pub fn answer(&mut self, want_reply: bool, response: Response) -> (r: Response)
        requires
            old(self).wf(),
        ensures
            final(self).wf(),
            r == response,
            messages(final(self).outbound@) == if want_reply && !old(self).close_sent {
                messages(old(self).outbound@).push(
                    match response {
                        Response::Success => MessageView::ChannelSuccess {
                            recipient_channel: old(self).remote_id,
                        },
                        Response::Failure => MessageView::ChannelFailure {
                            recipient_channel: old(self).remote_id,
                        },
                    },
                )
            } else {
                messages(old(self).outbound@)
            },
            *final(self) == (Channel { outbound: final(self).outbound, ..*old(self) }),
    {
        if want_reply && !self.close_sent {
            match response {
                Response::Success => self.queue(
                    Message::ChannelSuccess { recipient_channel: self.remote_id },
                ),
                Response::Failure => self.queue(
                    Message::ChannelFailure { recipient_channel: self.remote_id },
                ),
            }
        }
        response
    }

    /// Receive and handle a request on the current channel: the request that
    /// came in first is handed to `handler`, and what the handler gives is the
    /// answer, which is queued where the peer asked for one. Without a
    /// request, where the channel is closed none will come: `ChannelClosed`;
    /// else `None`.
    pub fn on_request<F: Fn(&Request) -> Response>(&mut self, handler: F) -> (r: Result<
        Option<Response>,
        Error,
    >)
        requires
            old(self).wf(),
            forall|q: &Request| #[trigger] handler.requires((q,)),
        ensures
            final(self).wf(),
            if old(self).requests@.len() > 0 {
                let q = old(self).requests@[0];
                &&& r matches Ok(Some(response))
                &&& handler.ensures((&q,), response)
                &&& final(self).requests@ == old(self).requests@.skip(1)
                &&& messages(final(self).outbound@) == if q.want_reply && !old(self).close_sent {
                    messages(old(self).outbound@).push(
                        match response {
                            Response::Success => MessageView::ChannelSuccess {
                                recipient_channel: old(self).remote_id,
                            },
                            Response::Failure => MessageView::ChannelFailure {
                                recipient_channel: old(self).remote_id,
                            },
                        },
                    )
                } else {
                    messages(old(self).outbound@)
                }
                &&& *final(self) == (Channel {
                    requests: final(self).requests,
                    outbound: final(self).outbound,
                    ..*old(self)
                })
            } else {
                &&& *final(self) == *old(self)
                &&& r == if old(self).close_sent || old(self).close_received {
                    Err::<Option<Response>, Error>(Error::ChannelClosed)
                } else {
                    Ok(None)
                }
            },
    {
        match self.take_request() {
            Some(request) => {
                let response = handler(&request);
                Ok(Some(self.answer(request.want_reply, response)))
            },
            None => if self.close_sent || self.close_received {
                Err(Error::ChannelClosed)
            } else {
                Ok(None)
            },
        }
    }

    /// Make a reader for current channel's data stream.
    pub fn as_reader(&self) -> (r: Read)
        ensures
            r.stream is None,
    {
        Read { stream: None }
    }

    /// Make a reader for current channel's extended data stream.
    pub fn as_reader_ext(&self, ext: u32) -> (r: Read)
        ensures
            r.stream == Some(ext),
    {
        Read { stream: Some(ext) }
    }

    /// Make a writer for current channel's data stream.
    pub fn as_writer(&self) -> (r: Write)
        ensures
            r.stream is None,
    {
        Write { stream: None }
    }

    /// Make a writer for current channel's extended data stream.
    pub fn as_writer_ext(&self, ext: u32) -> (r: Write)
        ensures
            r.stream == Some(ext),
    {
        Write { stream: Some(ext) }
    }

    /// What a message from the peer does to the channel it is addressed to,
    /// and what comes of it: a window adjustment adds to the remote window,
    /// data is received, the end of data and the closing are taken note of,
    /// requests and answers are queued for their readers, and a confirmation
    /// opens a channel that was waiting for it. Any other message, and a
    /// confirmation of a channel that is open, is `UnexpectedMessage` and
    /// changes nothing.
    pub open spec fn handled(self, m: Message, after: Channel, r: Result<(), Error>) -> bool {
        match m {
            Message::ChannelWindowAdjust { bytes_to_add, .. } => {
                &&& after.remote_window == if self.remote_window + bytes_to_add <= u32::MAX {
                    (self.remote_window + bytes_to_add) as u32
                } else {
                    u32::MAX
                }
                &&& r is Ok <==> self.remote_window + bytes_to_add <= u32::MAX
                &&& r is Err ==> r->Err_0 == Error::WindowOverflow
                &&& after == (Channel {
                    remote_window: after.remote_window,
                    credited: after.credited,
                    ..self
                })
            },
            Message::ChannelData { data, .. } => self.received(None, data, after, r),
            Message::ChannelExtendedData { data_type, data, .. } => self.received(
                Some(data_type),
                data,
                after,
                r,
            ),
            Message::ChannelEof { .. } => r is Ok && after == (Channel {
                eof_received: true,
                ..self
            }),
            Message::ChannelClose { .. } => {
                &&& r is Ok
                &&& messages(after.outbound@) == if self.close_sent {
                    messages(self.outbound@)
                } else {
                    messages(self.outbound@).push(
                        MessageView::ChannelClose { recipient_channel: self.remote_id },
                    )
                }
                &&& after == (Channel {
                    close_sent: true,
                    close_received: true,
                    outbound: after.outbound,
                    ..self
                })
            },
            Message::ChannelRequest { request_type, want_reply, data, .. } => {
                &&& r is Ok
                &&& after.requests@ == self.requests@.push(Request { request_type, want_reply, data })
                &&& after == (Channel { requests: after.requests, ..self })
            },
            Message::ChannelSuccess { .. } => {
                &&& r is Ok
                &&& after.replies@ == self.replies@.push(Response::Success)
                &&& after == (Channel { replies: after.replies, ..self })
            },
            Message::ChannelFailure { .. } => {
                &&& r is Ok
                &&& after.replies@ == self.replies@.push(Response::Failure)
                &&& after == (Channel { replies: after.replies, ..self })
            },
            Message::ChannelOpenConfirmation {
                sender_channel,
                initial_window_size,
                maximum_packet_size,
                ..
            } => if self.confirmed || self.close_sent {
                r is Err && r->Err_0 == Error::UnexpectedMessage && after == self
            } else {
                r is Ok && after == (Channel {
                    remote_id: sender_channel,
                    remote_window: initial_window_size,
                    remote_max_packet: maximum_packet_size,
                    confirmed: true,
                    granted: Ghost(initial_window_size as nat),
                    sent: Ghost(0),
                    credited: Ghost(0),
                    ..self
                })
            },
            _ => r is Err && r->Err_0 == Error::UnexpectedMessage && after == self,
        }
    }

    /// Takes in a message from the peer that is addressed to this channel.
    pub fn handle(&mut self, m: Message) -> (r: Result<(), Error>)
        requires
            old(self).wf(),
        ensures
            final(self).wf(),
            old(self).handled(m, *final(self), r),
    {
        match m {
            Message::ChannelWindowAdjust { recipient_channel, bytes_to_add } => self.adjust(
                bytes_to_add,
            ),
            Message::ChannelData { recipient_channel, data } => self.receive(None, data),
            Message::ChannelExtendedData { recipient_channel, data_type, data } => self.receive(
                Some(data_type),
                data,
            ),
            Message::ChannelEof { recipient_channel } => {
                self.receive_eof();
                Ok(())
            },
            Message::ChannelClose { recipient_channel } => {
                self.receive_close();
                Ok(())
            },
            Message::ChannelRequest { recipient_channel, request_type, want_reply, data } => {
                self.receive_request(Request { request_type, want_reply, data });
                Ok(())
            },
            Message::ChannelSuccess { recipient_channel } => {
                self.receive_reply(Response::Success);
                Ok(())
            },
            Message::ChannelFailure { recipient_channel } => {
                self.receive_reply(Response::Failure);
                Ok(())
            },
            Message::ChannelOpenConfirmation {
                recipient_channel,
                sender_channel,
                initial_window_size,
                maximum_packet_size,
                data,
            } => {
                if self.confirmed || self.close_sent {
                    return Err(Error::UnexpectedMessage);
                }
                self.confirm(sender_channel, initial_window_size, maximum_packet_size);
                Ok(())
            },
            _ => Err(Error::UnexpectedMessage),
        }
    }

    /// The messages that wait to be sent, in the order in which they were
    /// queued; the queue is empty after.
    pub fn take_outbound(&mut self) -> (r: Vec<Message>)
        requires
            old(self).wf(),
        ensures
            final(self).wf(),
            r@ == old(self).outbound@,
            final(self).outbound@.len() == 0,
            *final(self) == (Channel { outbound: final(self).outbound, ..*old(self) }),
    {
        let mut r: Vec<Message> = Vec::new();
        std::mem::swap(&mut r, &mut self.outbound);
        r
    }
}

/// A reader of one stream of a channel.
#[derive(Debug, Clone, Copy, PartialEq, Eq)]
pub struct Read {
    /// The code of the extended data stream, or `None` for the main stream.
    pub stream: Option<u32>,
}

impl Read {
    /// The next bytes of the reader's stream on `channel`, at most `max` of
    /// them, and whether the stream has come to its end. Polling for a reader
    /// passes over the data of other streams that stand before.
    pub fn read(&self, channel: &mut Channel, max: usize) -> (r: (Vec<u8>, bool))
        requires
            old(channel).wf(),
        ensures
            final(channel).wf(),
            ({
                let chunks = old(channel).inbound@;
                let k = Channel::leading_others(chunks, self.stream) as int;
                if k == chunks.len() {
                    r.0@.len() == 0 && final(channel).inbound@.len() == 0
                } else if chunks[k].bytes@.len() <= max {
                    r.0@ == chunks[k].bytes@ && final(channel).inbound@ == chunks.skip(k + 1)
                } else {
                    &&& r.0@ == chunks[k].bytes@.take(max as int)
                    &&& final(channel).inbound@.len() == chunks.len() - k
                    &&& final(channel).inbound@[0].stream == self.stream
                    &&& final(channel).inbound@[0].bytes@ == chunks[k].bytes@.skip(max as int)
                    &&& final(channel).inbound@.skip(1) == chunks.skip(k + 1)
                }
            }),
            queued(final(channel).inbound@) <= queued(old(channel).inbound@),
            old(channel).drained_by(
                (queued(old(channel).inbound@) - queued(final(channel).inbound@)) as nat,
                *final(channel),
            ),
            *final(channel) == (Channel {
                local_window: final(channel).local_window,
                drained: final(channel).drained,
                inbound: final(channel).inbound,
                outbound: final(channel).outbound,
                ..*old(channel)
            }),
            r.1 == ((final(channel).eof_received || final(channel).close_received) && forall|i: int|
                0 <= i < final(channel).inbound@.len() ==> (#[trigger] final(channel).inbound@[i]).stream
                    != self.stream),
    {
        let bytes = channel.read(self.stream, max);
        let end = channel.at_end(self.stream);
        (bytes, end)
    }
}

/// A writer to one stream of a channel.
#[derive(Debug, Clone, Copy, PartialEq, Eq)]
pub struct Write {
    /// The code of the extended data stream, or `None` for the main stream.
    pub stream: Option<u32>,
}

impl Write {
    /// Queues the start of `data` on the writer's stream of `channel`, as much
    /// of it as the peer's window allows, and says how many bytes were taken.
    pub fn write(&self, channel: &mut Channel, data: &[u8]) -> (r: Result<usize, Error>)
        requires
            old(channel).wf(),
        ensures
            final(channel).wf(),
            match r {
                Ok(n) => {
                    let added = messages(final(channel).outbound@).skip(old(channel).outbound@.len() as int);
                    &&& old(channel).can_write()
                    &&& n == old(channel).writable(data@.len())
                    &&& messages(final(channel).outbound@) == messages(old(channel).outbound@) + added
                    &&& forall|i: int|
                        0 <= i < added.len() ==> Channel::is_data(
                            #[trigger] added[i],
                            old(channel).remote_id,
                            self.stream,
                            old(channel).remote_max_packet as nat,
                        )
                    &&& Channel::payloads(added) == data@.take(n as int)
                    &&& Channel::filled(added, old(channel).remote_max_packet as nat)
                    &&& final(channel).remote_window == old(channel).remote_window - n
                    &&& final(channel).sent@ == old(channel).sent@ + n
                    &&& *final(channel) == (Channel {
                        remote_window: final(channel).remote_window,
                        outbound: final(channel).outbound,
                        sent: final(channel).sent,
                        ..*old(channel)
                    })
                },
                Err(e) => e == Error::ChannelClosed && !old(channel).can_write() && *final(channel)
                    == *old(channel),
            },
    {
        channel.write(data, self.stream)
    }
}

/// Whether two streams are the same.
pub fn same_stream(a: Option<u32>, b: Option<u32>) -> (r: bool)
    ensures
        r == (a == b),
{
    match (a, b) {
        (None, None) => true,
        (Some(x), Some(y)) => x == y,
        _ => false,
    }
}

/// A queue holds the bytes of its first chunk and those of the rest.
pub proof fn lemma_queued_front(chunks: Seq<Chunk>)
    requires
        chunks.len() > 0,
    ensures
        queued(chunks) == chunks[0].bytes@.len() + queued(chunks.skip(1)),
    decreases chunks.len(),
{
    if chunks.len() == 1 {
        assert(chunks.drop_last() =~= chunks.skip(1));
        assert(queued(chunks.drop_last()) == 0);
    } else {
        lemma_queued_front(chunks.drop_last());
        assert(chunks.drop_last().skip(1) =~= chunks.skip(1).drop_last());
        assert(chunks.drop_last()[0] == chunks[0]);
    }
}

/// The number of closing messages in `queue`.
pub open spec fn closes(queue: Seq<MessageView>) -> nat
    decreases queue.len(),
{
    if queue.len() == 0 {
        0
    } else {
        closes(queue.drop_last()) + if queue.last() is ChannelClose {
            1nat
        } else {
            0nat
        }
    }
}

/// However often a channel is closed, one closing message is queued: closing a
/// channel that was not closed adds one to the queue, and closing it again
/// adds none.
pub proof fn lemma_close_once(before: Channel, once: Channel, twice: Channel)
    requires
        !before.close_sent,
        once.close_sent,
        messages(once.outbound@) == messages(before.outbound@).push(
            MessageView::ChannelClose { recipient_channel: before.remote_id },
        ),
        messages(twice.outbound@) == messages(once.outbound@),
    ensures
        closes(messages(once.outbound@)) == closes(messages(before.outbound@)) + 1,
        closes(messages(twice.outbound@)) == closes(messages(before.outbound@)) + 1,
{
    let q = messages(before.outbound@);
    let m = MessageView::ChannelClose { recipient_channel: before.remote_id };
    assert(q.push(m).drop_last() =~= q);
}

} // verus!
