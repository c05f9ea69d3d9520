//! Cutting HTTP requests into small packets.
use vstd::prelude::*;
use crate::packet::{Packet, PacketView};
use crate::techniques::{Modifier, ModifyError};
use crate::techniques::chunks::{emit_fragments, fragments, lemma_fragments_reassemble};
use crate::techniques::delays::pass_through;

verus! {

/// `data` begins with `prefix`.
pub open spec fn has_prefix(data: Seq<u8>, prefix: Seq<u8>) -> bool {
    prefix.len() <= data.len() && data.take(prefix.len() as int) == prefix
}

/// Whether `data` begins with `prefix`.
pub fn starts_with(data: &[u8], prefix: &[u8]) -> (r: bool)
    ensures
        r == has_prefix(data@, prefix@),
{
    if prefix.len() > data.len() {
        return false;
    }
    let mut i: usize = 0;
    while i < prefix.len()
        invariant
            prefix@.len() <= data@.len(),
            i <= prefix@.len(),
            forall|j: int| 0 <= j < i ==> data@[j] == prefix@[j],
        decreases prefix@.len() - i,
    {
        if data[i] != prefix[i] {
            assert(data@.take(prefix@.len() as int)[i as int] != prefix@[i as int]);
            return false;
        }
        i = i + 1;
    }
    assert(data@.take(prefix@.len() as int) =~= prefix@);
    true
}

/// The ASCII bytes of "GET ", "POST ", "PUT ", "DELETE " and "HEAD ".
pub open spec fn request_methods() -> Seq<Seq<u8>> {
    seq![
        seq![71u8, 69, 84, 32],
        seq![80u8, 79, 83, 84, 32],
        seq![80u8, 85, 84, 32],
        seq![68u8, 69, 76, 69, 84, 69, 32],
        seq![72u8, 69, 65, 68, 32],
    ]
}

/// The data begins with one of the request methods followed by a space.
pub open spec fn spec_is_http_request(data: Seq<u8>) -> bool {
    exists|i: int| 0 <= i < 5 && has_prefix(data, #[trigger] request_methods()[i])
}

/// Fragments HTTP requests: a packet whose bytes begin with "GET ", "POST ",
/// "PUT ", "DELETE " or "HEAD " is replaced by pieces of `fragment_size`
/// bytes, the piece at index `i` sent `i` microseconds after the packet.
#[derive(Debug, Clone, Copy)]
pub struct HttpHeaderFragmentation {
    pub fragment_size: usize,
}

/// What HTTP fragmentation makes of a packet.
pub open spec fn http_outcome(fragment_size: usize, v: PacketView) -> Result<
    Seq<PacketView>,
    ModifyError,
> {
    if !spec_is_http_request(v.data) {
        Ok(seq![v])
    } else if fragment_size == 0 {
        Err(ModifyError::ZeroFragmentSize)
    } else {
        fragments(v, 0, fragment_size as nat)
    }
}

impl HttpHeaderFragmentation {
    /// Fragmentation into pieces of `fragment_size` bytes.
    pub fn new(fragment_size: usize) -> (r: Self)
        ensures
            r.fragment_size == fragment_size,
    {
        Self { fragment_size }
    }

    /// Whether `data` begins with a request method and a space.
    fn is_http_request(data: &[u8]) -> (r: bool)
        ensures
            r == spec_is_http_request(data@),
    {
        let get: [u8; 4] = [71, 69, 84, 32];
        let post: [u8; 5] = [80, 79, 83, 84, 32];
        let put: [u8; 4] = [80, 85, 84, 32];
        let delete: [u8; 7] = [68, 69, 76, 69, 84, 69, 32];
        let head: [u8; 5] = [72, 69, 65, 68, 32];
        let r = starts_with(data, &get) || starts_with(data, &post) || starts_with(data, &put)
            || starts_with(data, &delete) || starts_with(data, &head);
        proof {
            assert(get@ =~= request_methods()[0]);
            assert(post@ =~= request_methods()[1]);
            assert(put@ =~= request_methods()[2]);
            assert(delete@ =~= request_methods()[3]);
            assert(head@ =~= request_methods()[4]);
        }
        r
    }
}

impl Modifier for HttpHeaderFragmentation {
    /// An HTTP request meets a fragment size of zero.
    open spec fn refusal(&self, packet: PacketView) -> Option<ModifyError> {
        if spec_is_http_request(packet.data) && self.fragment_size == 0 {
            Some(ModifyError::ZeroFragmentSize)
        } else {
            None
        }
    }

    fn refuses(&self, packet: &Packet) -> (r: Option<ModifyError>) {
        if self.fragment_size == 0 && Self::is_http_request(packet.data.as_slice()) {
            Some(ModifyError::ZeroFragmentSize)
        } else {
            None
        }
    }

    open spec fn outcome(
        &self,
        packet: PacketView,
        result: Result<(Self, Seq<PacketView>), ModifyError>,
    ) -> bool {
        result == match http_outcome(self.fragment_size, packet) {
            Ok(out) => Ok((*self, out)),
            Err(e) => Err(e),
        }
    }

    fn modify(&mut self, packet: Packet, output: &mut Vec<Packet>) -> (r: Result<(), ModifyError>) {
        if !Self::is_http_request(packet.data.as_slice()) {
            pass_through(packet, output);
            return Ok(());
        }
        emit_fragments(&packet, 0, self.fragment_size, output)
    }
}


/// HTTP fragmentation never changes the bytes that are sent, only how they
/// are split into packets: the packets it gives, put back together, are the
/// packet it was given; none is empty or longer than the fragment size
/// (unless the packet is passed unchanged), and each keeps the flow key.
pub proof fn lemma_http_fragmentation_lossless(fragment_size: usize, v: PacketView)
    requires
        http_outcome(fragment_size, v) is Ok,
    ensures
        ({
            let out = http_outcome(fragment_size, v)->Ok_0;
            &&& out.map_values(|f: PacketView| f.data).flatten() == v.data
            &&& forall|i: int| 0 <= i < out.len() ==> (#[trigger] out[i]).flow_key == v.flow_key
            &&& spec_is_http_request(v.data) ==> forall|i: int|
                0 <= i < out.len() ==> 0 < (#[trigger] out[i]).data.len() <= fragment_size
        }),
{
    let out = http_outcome(fragment_size, v)->Ok_0;
    if !spec_is_http_request(v.data) {
        let parts = out.map_values(|f: PacketView| f.data);
        assert(parts =~= seq![v.data]);
        assert(parts.drop_first() =~= Seq::<Seq<u8>>::empty());
        assert(parts.drop_first().flatten() =~= Seq::<u8>::empty());
        assert(parts.first() == v.data);
        assert(parts.flatten() =~= v.data + Seq::<u8>::empty());
    } else {
        lemma_fragments_reassemble(v, 0, fragment_size as nat);
        let a = out.map_values(|f: PacketView| f.data);
        let b = out.map_values(|f: PacketView| f.data.skip(0));
        assert forall|i: int| 0 <= i < a.len() implies a[i] == b[i] by {
            assert(out[i].data.skip(0) =~= out[i].data);
        }
        assert(a =~= b);
        assert(v.data.skip(0) =~= v.data);
        assert forall|i: int| 0 <= i < out.len() implies 0 < (#[trigger] out[i]).data.len()
            <= fragment_size by {
            assert(out[i].data.take(0) =~= Seq::<u8>::empty());
        }
    }
}

} // verus!
