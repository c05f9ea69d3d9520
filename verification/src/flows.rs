//! Flows: the 5-tuple that identifies a conversation, read from a packet's
//! Ethernet/IP/TCP-or-UDP headers.
use vstd::prelude::*;
use etherparse::NetSlice::{Ipv4, Ipv6};
use etherparse::TransportSlice::{Tcp, Udp};
use etherparse::SlicedPacket;
use self::NetworkLayer::{V4, V6};

verus! {

/// An IP address: a 32-bit IPv4 address or a 128-bit IPv6 address, each held
/// as the big-endian number of its octets.
///
/// Addresses are ordered as `std::net::IpAddr` orders them: every IPv4
/// address before every IPv6 address, and addresses of one family by their
/// octets, which is the order of these numbers.
#[derive(Debug, Clone, Copy, PartialEq, Eq, Structural, PartialOrd, Ord, Hash)]
pub enum IpAddr {
    V4(u32),
    V6(u128),
}

/// The address order.
pub open spec fn ip_lt(a: IpAddr, b: IpAddr) -> bool {
    match (a, b) {
        (IpAddr::V4(x), IpAddr::V4(y)) => x < y,
        (IpAddr::V6(x), IpAddr::V6(y)) => x < y,
        (IpAddr::V4(_), IpAddr::V6(_)) => true,
        (IpAddr::V6(_), IpAddr::V4(_)) => false,
    }
}

/// The order of (address, port) endpoints: by address, then by port.
pub open spec fn endpoint_lt(a: (IpAddr, u16), b: (IpAddr, u16)) -> bool {
    ip_lt(a.0, b.0) || (a.0 == b.0 && a.1 < b.1)
}

/// Whether `a < b` for addresses.
pub fn ip_less(a: IpAddr, b: IpAddr) -> (r: bool)
    ensures
        r == ip_lt(a, b),
{
    match (a, b) {
        (IpAddr::V4(x), IpAddr::V4(y)) => x < y,
        (IpAddr::V6(x), IpAddr::V6(y)) => x < y,
        (IpAddr::V4(_), IpAddr::V6(_)) => true,
        (IpAddr::V6(_), IpAddr::V4(_)) => false,
    }
}

/// The 5-tuple of a flow.
#[derive(Debug, Clone, Copy, PartialEq, Eq, Structural, PartialOrd, Ord, Hash)]
pub struct FlowKey {
    pub src_ip: IpAddr,
    pub dst_ip: IpAddr,
    pub src_port: u16,
    pub dst_port: u16,
    pub protocol: u8,
}

impl FlowKey {
    /// The key of the same flow seen in the other direction.
    pub open spec fn reversed(self) -> FlowKey {
        FlowKey {
            src_ip: self.dst_ip,
            dst_ip: self.src_ip,
            src_port: self.dst_port,
            dst_port: self.src_port,
            protocol: self.protocol,
        }
    }

    /// The key with its source endpoint not after its destination endpoint.
    pub open spec fn spec_normalized(self) -> FlowKey {
        if endpoint_lt((self.dst_ip, self.dst_port), (self.src_ip, self.src_port)) {
            self.reversed()
        } else {
            self
        }
    }

    /// Orders the two endpoints so that both directions of a conversation
    /// give the same key: the endpoints are swapped where the source
    /// (address, port) comes after the destination one.
    pub fn normalized(self) -> (r: Self)
        ensures
            r == self.spec_normalized(),
    {
        let left_after_right = ip_less(self.dst_ip, self.src_ip) || (self.dst_ip == self.src_ip
            && self.dst_port < self.src_port);
        if left_after_right {
            FlowKey {
                src_ip: self.dst_ip,
                dst_ip: self.src_ip,
                src_port: self.dst_port,
                dst_port: self.src_port,
                protocol: self.protocol,
            }
        } else {
            self
        }
    }
}

/// Normalizing twice gives what normalizing once gives.
pub proof fn lemma_normalized_idempotent(k: FlowKey)
    ensures
        k.spec_normalized().spec_normalized() == k.spec_normalized(),
{
}

/// Both directions of a conversation normalize to one key.
pub proof fn lemma_normalized_direction_free(k: FlowKey)
    ensures
        k.reversed().spec_normalized() == k.spec_normalized(),
{
}

/// A normalized key has its source endpoint not after its destination one,
/// and describes the same pair of endpoints as the key it came from.
pub proof fn lemma_normalized_ordered(k: FlowKey)
    ensures
        !endpoint_lt(
            (k.spec_normalized().dst_ip, k.spec_normalized().dst_port),
            (k.spec_normalized().src_ip, k.spec_normalized().src_port),
        ),
        k.spec_normalized() == k || k.spec_normalized() == k.reversed(),
{
}

/// The network layer of a sliced Ethernet packet, where it is IP: source and
/// destination addresses and the protocol number (the IPv4 `protocol` field,
/// or the IPv6 `next_header` field).
#[derive(Debug, Clone, Copy, PartialEq, Eq, Structural)]
pub enum NetworkLayer {
    V4(u32, u32, u8),
    V6(u128, u128, u8),
}

/// What `etherparse::SlicedPacket::from_ethernet` finds in a frame: `None`
/// where slicing fails; else the IP layer (`None` where there is none or it
/// is not IP) and the source and destination ports (`None` where the
/// transport layer is absent or is neither TCP nor UDP).
pub uninterp spec fn sliced_ethernet(data: Seq<u8>) -> Option<(Option<NetworkLayer>, Option<(u16, u16)>)>;

/// Slices an Ethernet II frame with `etherparse::SlicedPacket::from_ethernet`
/// and keeps what a flow key is made of. The contract only names the result:
/// etherparse's slicing rules are not restated here.
#[verifier::external_body]
fn slice_ethernet(data: &[u8]) -> (r: Option<(Option<NetworkLayer>, Option<(u16, u16)>)>)
    ensures
        r == sliced_ethernet(data@),
{
    let p = SlicedPacket::from_ethernet(data).ok()?;
    Some((match p.net {
        Some(Ipv4(s)) => Some(V4(s.header().source_addr().to_bits(),
            s.header().destination_addr().to_bits(), s.header().protocol().0)),
        Some(Ipv6(s)) => Some(V6(s.header().source_addr().to_bits(),
            s.header().destination_addr().to_bits(), s.header().next_header().0)),
        _ => None,
    }, match p.transport {
        Some(Tcp(t)) => Some((t.source_port(), t.destination_port())),
        Some(Udp(u)) => Some((u.source_port(), u.destination_port())),
        _ => None,
    }))
}

/// The flow key of sliced headers: present where the frame was sliced, has an
/// IP layer and a TCP or UDP layer; normalized.
pub open spec fn spec_flow_key_from_headers(
    headers: Option<(Option<NetworkLayer>, Option<(u16, u16)>)>,
) -> Option<FlowKey> {
    match headers {
        Some((Some(net), Some((src_port, dst_port)))) => {
            let (src_ip, dst_ip, protocol) = match net {
                NetworkLayer::V4(s, d, p) => (IpAddr::V4(s), IpAddr::V4(d), p),
                NetworkLayer::V6(s, d, p) => (IpAddr::V6(s), IpAddr::V6(d), p),
            };
            Some(FlowKey { src_ip, dst_ip, src_port, dst_port, protocol }.spec_normalized())
        },
        _ => None,
    }
}

/// The flow key of a packet's bytes.
pub open spec fn flow_key_of(data: Seq<u8>) -> Option<FlowKey> {
    spec_flow_key_from_headers(sliced_ethernet(data))
}

/// Builds the normalized flow key from what slicing a frame found.
pub fn flow_key_from_headers(headers: Option<(Option<NetworkLayer>, Option<(u16, u16)>)>) -> (r:
    Option<FlowKey>)
    ensures
        r == spec_flow_key_from_headers(headers),
{
    match headers {
        Some((Some(net), Some((src_port, dst_port)))) => {
            let (src_ip, dst_ip, protocol) = match net {
                NetworkLayer::V4(s, d, p) => (IpAddr::V4(s), IpAddr::V4(d), p),
                NetworkLayer::V6(s, d, p) => (IpAddr::V6(s), IpAddr::V6(d), p),
            };
            Some(FlowKey { src_ip, dst_ip, src_port, dst_port, protocol }.normalized())
        },
        _ => None,
    }
}

/// The normalized flow key of an Ethernet frame, where it carries TCP or UDP
/// over IPv4 or IPv6.
pub fn extract_flow_key(data: &[u8]) -> (r: Option<FlowKey>)
    ensures
        r == flow_key_of(data@),
{
    flow_key_from_headers(slice_ethernet(data))
}


/// The same network layer seen in the other direction.
pub open spec fn net_reversed(net: NetworkLayer) -> NetworkLayer {
    match net {
        NetworkLayer::V4(s, d, p) => NetworkLayer::V4(d, s, p),
        NetworkLayer::V6(s, d, p) => NetworkLayer::V6(d, s, p),
    }
}

/// The flow key of sliced IPv4 or IPv6 headers with TCP or UDP ports holds
/// exactly the frame's two endpoints: source address `s` with source port
/// `sp` and destination address `d` with destination port `dp`, in the
/// order that puts the lesser endpoint first, and the frame's protocol; the
/// frame going the other way (addresses and ports swapped) gets the same key.
pub proof fn lemma_flow_key_holds_both_endpoints(net: NetworkLayer, sp: u16, dp: u16)
    ensures
        ({
            let (s, d, proto) = match net {
                NetworkLayer::V4(s, d, p) => (IpAddr::V4(s), IpAddr::V4(d), p),
                NetworkLayer::V6(s, d, p) => (IpAddr::V6(s), IpAddr::V6(d), p),
            };
            let r = spec_flow_key_from_headers(Some((Some(net), Some((sp, dp)))));
            &&& r is Some
            &&& r->Some_0.protocol == proto
            &&& ((r->Some_0.src_ip == s && r->Some_0.src_port == sp && r->Some_0.dst_ip == d
                && r->Some_0.dst_port == dp) || (r->Some_0.src_ip == d && r->Some_0.src_port == dp
                && r->Some_0.dst_ip == s && r->Some_0.dst_port == sp))
            &&& !endpoint_lt(
                (r->Some_0.dst_ip, r->Some_0.dst_port),
                (r->Some_0.src_ip, r->Some_0.src_port),
            )
            &&& spec_flow_key_from_headers(Some((Some(net_reversed(net)), Some((dp, sp))))) == r
        }),
{
}

} // verus!
