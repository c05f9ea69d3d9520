//! Cutting a byte string into consecutive pieces of a fixed size (the last
//! one possibly shorter), as `<[u8]>::chunks` does.
use vstd::prelude::*;
use vstd::slice::{slice_subrange, slice_to_vec};
use crate::duration::{add_durations, fits, NANOS_PER_MICRO};
use crate::packet::{Packet, PacketView};
use crate::techniques::{ModifyError, appended, extends};

verus! {

/// The pieces of `data`, each `size` bytes long but the last, which holds what
/// is left; none for empty data (or a size of zero, for which cutting is
/// undefined).
pub open spec fn chunks(data: Seq<u8>, size: nat) -> Seq<Seq<u8>>
    decreases data.len(),
{
    if data.len() == 0 || size == 0 {
        Seq::empty()
    } else if data.len() <= size {
        seq![data]
    } else {
        seq![data.take(size as int)] + chunks(data.skip(size as int), size)
    }
}

/// The pieces put back together give the data; no piece is empty or longer
/// than `size`.
pub proof fn lemma_chunks_lossless(data: Seq<u8>, size: nat)
    requires
        size > 0,
    ensures
        chunks(data, size).flatten() == data,
        forall|i: int|
            0 <= i < chunks(data, size).len() ==> 0 < (#[trigger] chunks(data, size)[i]).len()
                <= size,
        data.len() > 0 ==> chunks(data, size).len() > 0,
    decreases data.len(),
{
    let cs = chunks(data, size);
    if data.len() == 0 {
        assert(cs.flatten() =~= data);
    } else if data.len() <= size {
        assert(cs.drop_first() =~= Seq::<Seq<u8>>::empty());
        assert(cs.drop_first().flatten() =~= Seq::<u8>::empty());
        assert(cs.first() + Seq::<u8>::empty() =~= data);
    } else {
        let rest = chunks(data.skip(size as int), size);
        lemma_chunks_lossless(data.skip(size as int), size);
        assert(cs.drop_first() =~= rest);
        assert(cs.flatten() =~= data.take(size as int) + data.skip(size as int));
        assert(data.take(size as int) + data.skip(size as int) =~= data);
        assert forall|i: int| 0 < i < cs.len() implies 0 < (#[trigger] cs[i]).len() <= size by {
            assert(cs[i] == rest[i - 1]);
        }
    }
}

/// The pieces from `start` on: the piece beginning at `start`, then those
/// after it.
pub proof fn lemma_chunks_step(data: Seq<u8>, size: nat, start: int)
    requires
        size > 0,
        0 <= start < data.len(),
    ensures
        ({
            let end = if start + size <= data.len() {
                start + size
            } else {
                data.len() as int
            };
            chunks(data.skip(start), size) == seq![data.subrange(start, end)] + chunks(
                data.skip(end),
                size,
            )
        }),
{
    let rest = data.skip(start);
    if rest.len() <= size {
        assert(data.skip(data.len() as int) =~= Seq::<u8>::empty());
        assert(rest =~= data.subrange(start, data.len() as int));
        assert(chunks(rest, size) =~= seq![rest] + Seq::<Seq<u8>>::empty());
    } else {
        assert(rest.take(size as int) =~= data.subrange(start, start + size));
        assert(rest.skip(size as int) =~= data.skip(start + size));
    }
}

/// The bytes `data[start..end]` in a vector of their own.
pub fn copy_range(data: &Vec<u8>, start: usize, end: usize) -> (r: Vec<u8>)
    requires
        start <= end <= data@.len(),
    ensures
        r@ == data@.subrange(start as int, end as int),
{
    slice_to_vec(slice_subrange(data.as_slice(), start, end))
}


/// The fragment at `i` of a packet whose bytes after the first `header_len`
/// are cut into pieces of `size`: the header followed by the piece, at the
/// packet's time plus `i` microseconds.
pub open spec fn fragment(v: PacketView, header_len: nat, size: nat, i: int) -> PacketView {
    PacketView {
        timestamp: (v.timestamp + i * 1000) as u128,
        data: v.data.take(header_len as int) + chunks(v.data.skip(header_len as int), size)[i],
        flow_key: v.flow_key,
    }
}

/// The fragments of a packet, or the overflow error where the time of the
/// last one passes the largest duration.
pub open spec fn fragments(v: PacketView, header_len: nat, size: nat) -> Result<
    Seq<PacketView>,
    ModifyError,
> {
    let n = chunks(v.data.skip(header_len as int), size).len();
    if n > 0 && !fits(v.timestamp as int, (n - 1) * 1000) {
        Err(ModifyError::DurationOverflow)
    } else {
        Ok(Seq::new(n, |i: int| fragment(v, header_len, size, i)))
    }
}

/// Appends the fragments of `packet` to `output`: each is the packet's first
/// `header_len` bytes followed by the next `size` bytes of the rest (or what
/// is left), at the packet's time plus its index in microseconds.
pub fn emit_fragments(packet: &Packet, header_len: usize, size: usize, output: &mut Vec<Packet>) -> (r:
    Result<(), ModifyError>)
    requires
        size > 0,
        header_len <= packet.data@.len(),
    ensures
        extends(old(output)@, final(output)@),
        match (r, fragments(packet@, header_len as nat, size as nat)) {
            (Ok(_), Ok(out)) => appended(old(output)@, final(output)@) == out,
            (Err(e), Err(f)) => e == f,
            _ => false,
        },
{
    let ghost v = packet@;
    let ghost payload = v.data.skip(header_len as int);
    let ghost cs = chunks(payload, size as nat);
    let ghost before = output@;
    let len = packet.data.len();
    let mut start = header_len;
    let mut i: usize = 0;
    proof {
        assert(payload.skip(0) =~= payload);
        assert(cs.skip(0) =~= cs);
        assert(output@.take(before.len() as int) =~= before);
    }
    while start < len
        invariant
            v == packet@,
            payload == v.data.skip(header_len as int),
            cs == chunks(payload, size as nat),
            size > 0,
            len == v.data.len(),
            header_len <= start <= len,
            i <= cs.len(),
            i <= start - header_len,
            before == old(output)@,
            chunks(payload.skip(start - header_len), size as nat) == cs.skip(i as int),
            i > 0 ==> fits(v.timestamp as int, (i - 1) * 1000),
            extends(before, output@),
            appended(before, output@) == Seq::new(
                i as nat,
                |j: int| fragment(v, header_len as nat, size as nat, j),
            ),
        decreases len - start,
    {
        let end = if size <= len - start {
            start + size
        } else {
            len
        };
        proof {
            let ps = start - header_len;
            lemma_chunks_step(payload, size as nat, ps);
            let pe = if ps + size <= payload.len() { ps + size } else { payload.len() as int };
            assert(pe == end - header_len);
            assert(payload.subrange(ps, pe) =~= v.data.subrange(start as int, end as int));
            assert(payload.skip(pe) =~= payload.skip(end - header_len));
            assert(cs.skip(i as int).len() > 0);
            assert(cs.skip(i as int)[0] == cs[i as int]);
            assert(cs[i as int] == v.data.subrange(start as int, end as int));
            assert(cs.skip(i as int).drop_first() =~= cs.skip(i + 1));
        }
        let offset = (i as u128) * NANOS_PER_MICRO;
        let t = match add_durations(packet.timestamp, offset) {
            Some(t) => t,
            None => {
                proof {
                    assert(i < cs.len());
                    assert(!fits(v.timestamp as int, (cs.len() - 1) * 1000));
                }
                return Err(ModifyError::DurationOverflow);
            },
        };
        let mut data = copy_range(&packet.data, 0, header_len);
        let mut piece = copy_range(&packet.data, start, end);
        data.append(&mut piece);
        let ghost out_before = output@;
        output.push(Packet { timestamp: t, data, flow_key: packet.flow_key });
        proof {
            assert(v.data.subrange(0, header_len as int) =~= v.data.take(header_len as int));
            assert(output@.take(before.len() as int) =~= before);
            assert(appended(before, output@) =~= appended(before, out_before).push(
                output@.last()@,
            ));
            assert(output@.last()@ == fragment(v, header_len as nat, size as nat, i as int));
            assert(appended(before, output@) =~= Seq::new(
                (i + 1) as nat,
                |j: int| fragment(v, header_len as nat, size as nat, j),
            ));
        }
        start = end;
        i = i + 1;
    }
    proof {
        assert(payload.skip(start - header_len) =~= Seq::<u8>::empty());
        assert(cs.skip(i as int).len() == 0);
    }
    Ok(())
}


/// The fragments of a packet put back together: each begins with the
/// packet's first `header_len` bytes and holds at least one and at most
/// `size` bytes after them; the bytes after the headers, in fragment order,
/// are the packet's bytes after its header; the fragment at index `i` keeps
/// the packet's flow key and is `i` microseconds later.
pub proof fn lemma_fragments_reassemble(v: PacketView, header_len: nat, size: nat)
    requires
        size > 0,
        header_len <= v.data.len(),
        fragments(v, header_len, size) is Ok,
    ensures
        ({
            let out = fragments(v, header_len, size)->Ok_0;
            &&& forall|i: int|
                0 <= i < out.len() ==> {
                    &&& (#[trigger] out[i]).data.take(header_len as int) == v.data.take(
                        header_len as int,
                    )
                    &&& header_len < out[i].data.len() <= header_len + size
                    &&& out[i].timestamp == v.timestamp + i * 1000
                    &&& out[i].flow_key == v.flow_key
                }
            &&& out.map_values(|f: PacketView| f.data.skip(header_len as int)).flatten()
                == v.data.skip(header_len as int)
            &&& (v.data.len() > header_len ==> out.len() > 0)
        }),
{
    let payload = v.data.skip(header_len as int);
    let cs = chunks(payload, size);
    let out = fragments(v, header_len, size)->Ok_0;
    lemma_chunks_lossless(payload, size);
    let head = v.data.take(header_len as int);
    assert forall|i: int| 0 <= i < out.len() implies {
        &&& (#[trigger] out[i]).data.take(header_len as int) == v.data.take(header_len as int)
        &&& header_len < out[i].data.len() <= header_len + size
        &&& out[i].timestamp == v.timestamp + i * 1000
        &&& out[i].flow_key == v.flow_key
    } by {
        assert(out[i] == fragment(v, header_len, size, i));
        assert(cs[i].len() > 0);
        assert((head + cs[i]).take(header_len as int) =~= head);
        assert(v.timestamp + i * 1000 <= v.timestamp + (out.len() - 1) * 1000);
    }
    let parts = out.map_values(|f: PacketView| f.data.skip(header_len as int));
    assert forall|i: int| 0 <= i < parts.len() implies #[trigger] parts[i] == cs[i] by {
        assert((head + cs[i]).skip(header_len as int) =~= cs[i]);
    }
    assert(parts =~= cs);
}


/// Every piece but the last is exactly `size` bytes long.
pub proof fn lemma_chunks_full(data: Seq<u8>, size: nat)
    requires
        size > 0,
    ensures
        forall|i: int|
            0 <= i < chunks(data, size).len() - 1 ==> (#[trigger] chunks(data, size)[i]).len()
                == size,
    decreases data.len(),
{
    let cs = chunks(data, size);
    if data.len() > size {
        let rest = chunks(data.skip(size as int), size);
        lemma_chunks_full(data.skip(size as int), size);
        assert forall|i: int| 0 <= i < cs.len() - 1 implies (#[trigger] cs[i]).len() == size by {
            if i > 0 {
                assert(cs[i] == rest[i - 1]);
            }
        }
    }
}

/// The cut is as fine as the size allows: every fragment but the last holds
/// exactly `size` bytes after the headers, so a packet is cut into as few
/// fragments as pieces of `size` allow.
pub proof fn lemma_fragments_full(v: PacketView, header_len: nat, size: nat)
    requires
        size > 0,
        header_len <= v.data.len(),
        fragments(v, header_len, size) is Ok,
    ensures
        ({
            let out = fragments(v, header_len, size)->Ok_0;
            forall|i: int|
                0 <= i < out.len() - 1 ==> (#[trigger] out[i]).data.len() == header_len + size
        }),
{
    let payload = v.data.skip(header_len as int);
    let cs = chunks(payload, size);
    let out = fragments(v, header_len, size)->Ok_0;
    lemma_chunks_full(payload, size);
    assert forall|i: int| 0 <= i < out.len() - 1 implies (#[trigger] out[i]).data.len()
        == header_len + size by {
        assert(out[i] == fragment(v, header_len, size, i));
        assert(cs[i].len() == size);
    }
}

} // verus!
