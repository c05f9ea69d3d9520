//! Cutting TLS ClientHello records into small packets.
use vstd::prelude::*;
use crate::packet::{Packet, PacketView};
use crate::techniques::{Modifier, ModifyError};
use crate::techniques::chunks::{emit_fragments, fragments, lemma_fragments_reassemble};
use crate::techniques::delays::pass_through;

verus! {

/// The bytes of the Ethernet and IPv4 headers that every fragment keeps: 14
/// of Ethernet II and 20 of an IPv4 header without options.
pub const IP_HEADER_LEN: usize = 34;

/// An Ethernet II frame of at least 34 bytes whose EtherType (big-endian, at
/// bytes 12 and 13) is IPv4.
pub open spec fn spec_is_ipv4_tcp(data: Seq<u8>) -> bool {
    data.len() >= 34 && (data[12] as int) * 256 + (data[13] as int) == 0x0800
}

/// A TLS record that could hold a ClientHello: more than 6 bytes, of content
/// type 22 (handshake), major version 3, and handshake type 1 at byte 5.
pub open spec fn spec_is_client_hello(payload: Seq<u8>) -> bool {
    payload.len() > 6 && payload[0] == 0x16 && payload[1] == 0x03 && payload[5] == 0x01
}

/// Fragments TLS ClientHello packets: the bytes after the first 34 are cut
/// into pieces of `fragment_size`, each sent behind a copy of those 34 bytes,
/// the piece at index `i` `i` microseconds after the packet.
#[derive(Debug, Clone, Copy)]
pub struct TlsClientHelloFragmentation {
    pub fragment_size: usize,
}

/// An IPv4 frame with bytes after its 34 header bytes that begin like a
/// ClientHello record.
pub open spec fn spec_carries_client_hello(data: Seq<u8>) -> bool {
    spec_is_ipv4_tcp(data) && data.len() > 34 && spec_is_client_hello(data.skip(34))
}

/// What ClientHello fragmentation makes of a packet.
pub open spec fn tls_outcome(fragment_size: usize, v: PacketView) -> Result<
    Seq<PacketView>,
    ModifyError,
> {
    if !spec_carries_client_hello(v.data) {
        Ok(seq![v])
    } else if fragment_size == 0 {
        Err(ModifyError::ZeroFragmentSize)
    } else {
        fragments(v, 34, fragment_size as nat)
    }
}

impl TlsClientHelloFragmentation {
    /// Fragmentation into pieces of `fragment_size` bytes.
    pub fn new(fragment_size: usize) -> (r: Self)
        ensures
            r.fragment_size == fragment_size,
    {
        Self { fragment_size }
    }

    /// Whether the frame is long enough for Ethernet and IPv4 headers and its
    /// EtherType is IPv4.
    fn is_ipv4_tcp(data: &[u8]) -> (r: bool)
        ensures
            r == spec_is_ipv4_tcp(data@),
    {
        if data.len() < 34 {
            return false;
        }
        let ethertype = (data[12] as u16) * 256 + (data[13] as u16);
        ethertype == 0x0800
    }

    /// Whether the frame is IPv4 and the bytes after its headers begin like a
    /// TLS ClientHello record.
    fn carries_client_hello(data: &[u8]) -> (r: bool)
        ensures
            r == spec_carries_client_hello(data@),
    {
        if !Self::is_ipv4_tcp(data) || data.len() <= IP_HEADER_LEN {
            return false;
        }
        let (_header, payload) = data.split_at(IP_HEADER_LEN);
        assert(payload@ =~= data@.skip(34));
        Self::is_client_hello(payload)
    }

    /// Whether the payload begins like a TLS ClientHello record.
    fn is_client_hello(payload: &[u8]) -> (r: bool)
        ensures
            r == spec_is_client_hello(payload@),
    {
        payload.len() > 6 && payload[0] == 0x16 && payload[1] == 0x03 && payload[5] == 0x01
    }
}

impl Modifier for TlsClientHelloFragmentation {
    /// A ClientHello meets a fragment size of zero.
    open spec fn refusal(&self, packet: PacketView) -> Option<ModifyError> {
        if spec_carries_client_hello(packet.data) && self.fragment_size == 0 {
            Some(ModifyError::ZeroFragmentSize)
        } else {
            None
        }
    }

    fn refuses(&self, packet: &Packet) -> (r: Option<ModifyError>) {
        if self.fragment_size == 0 && Self::carries_client_hello(packet.data.as_slice()) {
            Some(ModifyError::ZeroFragmentSize)
        } else {
            None
        }
    }

    open spec fn outcome(
        &self,
        packet: PacketView,
        result: Result<(Self, Seq<PacketView>), ModifyError>,
    ) -> bool {
        result == match tls_outcome(self.fragment_size, packet) {
            Ok(out) => Ok((*self, out)),
            Err(e) => Err(e),
        }
    }

    fn modify(&mut self, packet: Packet, output: &mut Vec<Packet>) -> (r: Result<(), ModifyError>) {
        if !Self::carries_client_hello(packet.data.as_slice()) {
            pass_through(packet, output);
            return Ok(());
        }
        emit_fragments(&packet, IP_HEADER_LEN, self.fragment_size, output)
    }
}


/// ClientHello fragmentation never changes the bytes that are sent after the
/// headers, only how they are split: every packet it gives begins with the
/// 34 header bytes of the packet it was given, the bytes after them, put
/// back together, are the given packet's bytes after its headers, and each
/// keeps the flow key. (Stated of packets of at least 34 bytes; shorter ones
/// pass unchanged.)
pub proof fn lemma_tls_fragmentation_lossless(fragment_size: usize, v: PacketView)
    requires
        tls_outcome(fragment_size, v) is Ok,
        v.data.len() >= 34,
    ensures
        ({
            let out = tls_outcome(fragment_size, v)->Ok_0;
            &&& out.map_values(|f: PacketView| f.data.skip(34)).flatten() == v.data.skip(34)
            &&& forall|i: int|
                0 <= i < out.len() ==> (#[trigger] out[i]).data.take(34) == v.data.take(34)
                    && out[i].data.len() >= 34 && out[i].flow_key == v.flow_key
        }),
{
    let out = tls_outcome(fragment_size, v)->Ok_0;
    if !spec_carries_client_hello(v.data) {
        let parts = out.map_values(|f: PacketView| f.data.skip(34));
        assert(parts =~= seq![v.data.skip(34)]);
        assert(parts.drop_first() =~= Seq::<Seq<u8>>::empty());
        assert(parts.drop_first().flatten() =~= Seq::<u8>::empty());
        assert(parts.first() == v.data.skip(34));
        assert(parts.flatten() =~= v.data.skip(34) + Seq::<u8>::empty());
    } else {
        lemma_fragments_reassemble(v, 34, fragment_size as nat);
    }
}

} // verus!
