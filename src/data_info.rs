//! Direction of a packet and the compact byte and packet counters.
use vstd::prelude::*;

verus! {

/// Direction of a packet relative to the local device.
#[derive(Clone, Copy, Debug, PartialEq, Eq, Hash, Structural)]
pub enum TrafficDirection {
    Outgoing,
    Incoming,
    Multicast,
    Broadcast,
}

/// Sum of two counters, held at the largest `u128` where it would pass it.
pub open spec fn sat_add(a: u128, b: int) -> u128 {
    if a + b > u128::MAX {
        u128::MAX
    } else {
        (a + b) as u128
    }
}

/// Bytes and packets in each direction. A packet counts as outgoing when it
/// leaves the local device, and as incoming in every other direction.
/// Counters saturate at `u128::MAX`.
#[derive(Clone, Copy, Debug, PartialEq, Eq, Hash, Structural)]
pub struct DataInfo {
    pub incoming_bytes: u128,
    pub outgoing_bytes: u128,
    pub incoming_packets: u128,
    pub outgoing_packets: u128,
}

impl DataInfo {
    /// All counters at zero.
    pub open spec fn zero() -> DataInfo {
        DataInfo { incoming_bytes: 0, outgoing_bytes: 0, incoming_packets: 0, outgoing_packets: 0 }
    }

    /// The counters after one more packet of `bytes` bytes in direction `dir`.
    pub open spec fn spec_add(self, bytes: u128, dir: TrafficDirection) -> DataInfo {
        if dir == TrafficDirection::Outgoing {
            DataInfo {
                outgoing_bytes: sat_add(self.outgoing_bytes, bytes as int),
                outgoing_packets: sat_add(self.outgoing_packets, 1),
                ..self
            }
        } else {
            DataInfo {
                incoming_bytes: sat_add(self.incoming_bytes, bytes as int),
                incoming_packets: sat_add(self.incoming_packets, 1),
                ..self
            }
        }
    }

    /// The counters of `self` and `other` together.
    pub open spec fn spec_merge(self, other: DataInfo) -> DataInfo {
        DataInfo {
            incoming_bytes: sat_add(self.incoming_bytes, other.incoming_bytes as int),
            outgoing_bytes: sat_add(self.outgoing_bytes, other.outgoing_bytes as int),
            incoming_packets: sat_add(self.incoming_packets, other.incoming_packets as int),
            outgoing_packets: sat_add(self.outgoing_packets, other.outgoing_packets as int),
        }
    }

    /// Packets in both directions.
    pub open spec fn spec_total_packets(self) -> int {
        self.incoming_packets + self.outgoing_packets
    }

    /// Empty counters.
    pub fn new() -> (r: DataInfo)
        ensures
            r == DataInfo::zero(),
    {
        DataInfo { incoming_bytes: 0, outgoing_bytes: 0, incoming_packets: 0, outgoing_packets: 0 }
    }

    /// Counters that hold a single packet.
    pub fn new_with_first_packet(bytes: u128, dir: TrafficDirection) -> (r: DataInfo)
        ensures
            r == DataInfo::zero().spec_add(bytes, dir),
    {
        if dir == TrafficDirection::Outgoing {
            DataInfo { incoming_bytes: 0, outgoing_bytes: bytes, incoming_packets: 0, outgoing_packets: 1 }
        } else {
            DataInfo { incoming_bytes: bytes, outgoing_bytes: 0, incoming_packets: 1, outgoing_packets: 0 }
        }
    }

    /// Counts one more packet of `bytes` bytes in direction `dir`.
    pub fn add_packet(&mut self, bytes: u128, dir: TrafficDirection)
        ensures
            *final(self) == old(self).spec_add(bytes, dir),
    {
        if dir == TrafficDirection::Outgoing {
            self.outgoing_bytes = self.outgoing_bytes.saturating_add(bytes);
            self.outgoing_packets = self.outgoing_packets.saturating_add(1);
        } else {
            self.incoming_bytes = self.incoming_bytes.saturating_add(bytes);
            self.incoming_packets = self.incoming_packets.saturating_add(1);
        }
    }

    /// Adds the counters of `other` to these.
    pub fn merge(&mut self, other: &DataInfo)
        ensures
            *final(self) == old(self).spec_merge(*other),
    {
        self.incoming_bytes = self.incoming_bytes.saturating_add(other.incoming_bytes);
        self.outgoing_bytes = self.outgoing_bytes.saturating_add(other.outgoing_bytes);
        self.incoming_packets = self.incoming_packets.saturating_add(other.incoming_packets);
        self.outgoing_packets = self.outgoing_packets.saturating_add(other.outgoing_packets);
    }

    /// Packets in both directions, saturating.
    pub fn total_packets(&self) -> (r: u128)
        ensures
            r == sat_add(self.incoming_packets, self.outgoing_packets as int),
    {
        self.incoming_packets.saturating_add(self.outgoing_packets)
    }

    /// Bytes in both directions, saturating.
    pub fn total_bytes(&self) -> (r: u128)
        ensures
            r == sat_add(self.incoming_bytes, self.outgoing_bytes as int),
    {
        self.incoming_bytes.saturating_add(self.outgoing_bytes)
    }
}

} // verus!
