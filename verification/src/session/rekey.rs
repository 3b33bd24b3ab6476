//! When the keys of a session are exchanged anew.

use vstd::prelude::*;

verus! {

/// The bytes after which keys are exchanged anew by default: 1 GiB.
pub const REKEY_BYTES: u64 = 0x4000_0000;

/// The packets after which keys are exchanged anew by default: 2^32.
pub const REKEY_PACKETS: u64 = 0x1_0000_0000;

/// The seconds after which keys are exchanged anew by default: one hour.
pub const REKEY_INTERVAL: u64 = 3600;

/// What may pass under one set of keys.
#[derive(Debug, Clone, Copy, PartialEq, Eq, Structural)]
pub struct Limits {
    /// The most bytes in one direction.
    pub bytes: u64,
    /// The most packets in one direction.
    pub packets: u64,
    /// The most seconds.
    pub interval: u64,
}

impl Limits {
    /// The limits that hold unless the configuration says otherwise.
    pub open spec fn standard() -> Limits {
        Limits { bytes: REKEY_BYTES, packets: REKEY_PACKETS, interval: REKEY_INTERVAL }
    }
}

impl Default for Limits {
    fn default() -> (r: Self)
        ensures
            r == Limits::standard(),
    {
        Limits { bytes: REKEY_BYTES, packets: REKEY_PACKETS, interval: REKEY_INTERVAL }
    }
}

/// What has passed in one direction since the keys were last exchanged.
#[derive(Debug, Clone, Copy, PartialEq, Eq, Structural)]
pub struct Traffic {
    /// The number of payload bytes.
    pub bytes: u64,
    /// The number of packets.
    pub packets: u64,
}

impl Traffic {
    /// No traffic.
    pub fn new() -> (r: Traffic)
        ensures
            r == (Traffic { bytes: 0, packets: 0 }),
    {
        Traffic { bytes: 0, packets: 0 }
    }

    /// The traffic after one more packet of `n` payload bytes. The counts stop
    /// at the largest value they can hold.
    pub open spec fn plus(self, n: nat) -> Traffic {
        Traffic {
            bytes: if self.bytes + n <= u64::MAX {
                (self.bytes + n) as u64
            } else {
                u64::MAX
            },
            packets: if self.packets < u64::MAX {
                (self.packets + 1) as u64
            } else {
                u64::MAX
            },
        }
    }

    /// Counts one more packet of `n` payload bytes.
    pub fn count(&mut self, n: usize)
        ensures
            *final(self) == old(self).plus(n as nat),
    {
        self.bytes = self.bytes.saturating_add(n as u64);
        self.packets = self.packets.saturating_add(1);
    }

    /// Whether this traffic calls for new keys under the limits `limits`.
    pub open spec fn exceeds(self, limits: Limits) -> bool {
        self.bytes >= limits.bytes || self.packets >= limits.packets
    }
}

/// Whether the keys are to be exchanged anew: one direction has carried the
/// limit of bytes or of packets, or the keys are as old as the interval.
/// `since` is when the keys were last exchanged and `now` the present, both in
/// seconds; a clock that ran backwards counts as no time passed.
pub open spec fn due(sent: Traffic, received: Traffic, limits: Limits, since: u64, now: u64) -> bool {
    sent.exceeds(limits) || received.exceeds(limits) || (now >= since && now - since
        >= limits.interval)
}

/// Whether the keys are to be exchanged anew.
pub fn is_due(sent: Traffic, received: Traffic, limits: Limits, since: u64, now: u64) -> (r: bool)
    ensures
        r == due(sent, received, limits, since, now),
{
    sent.bytes >= limits.bytes || sent.packets >= limits.packets || received.bytes >= limits.bytes
        || received.packets >= limits.packets || (now >= since && now - since >= limits.interval)
}

} // verus!
