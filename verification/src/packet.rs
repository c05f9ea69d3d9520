//! Captured packets.
use vstd::prelude::*;
use crate::flows::FlowKey;

verus! {

/// A captured frame: when it was captured (nanoseconds since the capture's
/// epoch), its bytes, and the flow it was found to belong to when read.
#[derive(Debug, Clone, PartialEq, Eq, PartialOrd, Ord)]
pub struct Packet {
    pub timestamp: u128,
    pub data: Vec<u8>,
    pub flow_key: Option<FlowKey>,
}

/// A packet as a mathematical value.
pub struct PacketView {
    pub timestamp: u128,
    pub data: Seq<u8>,
    pub flow_key: Option<FlowKey>,
}

impl View for Packet {
    type V = PacketView;

    open spec fn view(&self) -> PacketView {
        PacketView { timestamp: self.timestamp, data: self.data@, flow_key: self.flow_key }
    }
}

/// The views of a sequence of packets.
pub open spec fn views(s: Seq<Packet>) -> Seq<PacketView> {
    s.map_values(|p: Packet| p@)
}

/// `v` with its timestamp replaced.
pub open spec fn at_time(v: PacketView, timestamp: u128) -> PacketView {
    PacketView { timestamp, ..v }
}

impl Packet {
    /// A copy of the packet.
    pub fn duplicate(&self) -> (r: Packet)
        ensures
            r@ == self@,
    {
        Packet { timestamp: self.timestamp, data: self.data.clone(), flow_key: self.flow_key }
    }
}

} // verus!
