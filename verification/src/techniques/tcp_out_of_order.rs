//! Reordering the packets of each flow.
use vstd::prelude::*;
use rand::rngs::StdRng;
use crate::duration::{fits, from_millis, millis};
use crate::flows::{FlowKey, IpAddr};
use crate::flow_table::FlowTable;
use crate::packet::{Packet, PacketView, at_time, views};
use crate::rng::{random_in_range, seeded_rng};
use crate::techniques::{Modifier, ModifyError, appended, extends};
use crate::techniques::delays::delay_packet;

verus! {

/// Holds back the packets of each flow until `window` of them have arrived,
/// then sends them in reverse order, each delayed by a pseudo-random number
/// of whole milliseconds between 0 and `window` (the generator is seeded with
/// 42). Packets are grouped by the flow key they were read with; those
/// without one share the all-zero key. Packets still held when the input ends
/// are not sent.
pub struct TcpOutOfOrder {
    /// How many packets of a flow are gathered before they are sent.
    pub window: usize,
    /// The packets held for each flow, in arrival order.
    pub buffers: FlowTable<Vec<Packet>>,
    /// The generator delays are drawn from.
    pub rng: StdRng,
}

/// The key that packets without a flow key are grouped under: IPv4 0.0.0.0
/// on both ends, port 0, protocol 0.
pub open spec fn unkeyed_flow() -> FlowKey {
    FlowKey {
        src_ip: IpAddr::V4(0),
        dst_ip: IpAddr::V4(0),
        src_port: 0,
        dst_port: 0,
        protocol: 0,
    }
}

/// The group a packet is held in.
pub open spec fn buffer_key(v: PacketView) -> FlowKey {
    match v.flow_key {
        Some(k) => k,
        None => unkeyed_flow(),
    }
}

/// The packets of `key` held in `buffered`, with `v` after them.
pub open spec fn grown(buffered: Map<FlowKey, Seq<PacketView>>, key: FlowKey, v: PacketView) -> Seq<
    PacketView,
> {
    (if buffered.contains_key(key) {
        buffered[key]
    } else {
        Seq::empty()
    }).push(v)
}

/// The packets delayed by `delays[i]` milliseconds each, or the overflow
/// error where one of them passes the largest duration.
pub open spec fn jittered(packets: Seq<PacketView>, delays: Seq<u64>) -> Result<
    Seq<PacketView>,
    ModifyError,
> {
    if forall|i: int|
        0 <= i < packets.len() ==> fits(
            (#[trigger] packets[i]).timestamp as int,
            millis(delays[i] as int),
        ) {
        Ok(
            Seq::new(
                packets.len(),
                |i: int|
                    at_time(packets[i], (packets[i].timestamp + millis(delays[i] as int)) as u128),
            ),
        )
    } else {
        Err(ModifyError::DurationOverflow)
    }
}

impl TcpOutOfOrder {
    /// The packets held for each flow.
    pub open spec fn buffered(&self) -> Map<FlowKey, Seq<PacketView>> {
        self.buffers@.map_values(|b: Vec<Packet>| views(b@))
    }

    /// Reordering in groups of `window` packets, with nothing held yet.
    pub fn new(window: usize) -> (r: Self)
        ensures
            r.window == window,
            r.buffered() == Map::<FlowKey, Seq<PacketView>>::empty(),
    {
        let r = TcpOutOfOrder { window, buffers: FlowTable::new(), rng: seeded_rng(42) };
        assert(r.buffered() =~= Map::<FlowKey, Seq<PacketView>>::empty());
        r
    }

    /// Sends `buf` in reverse order, each packet delayed by a drawn number of
    /// milliseconds.
    fn reorder(&mut self, buf: Vec<Packet>, output: &mut Vec<Packet>) -> (r: Result<(), ModifyError>)
        ensures
            final(self).window == old(self).window,
            final(self).buffers == old(self).buffers,
            extends(old(output)@, final(output)@),
            exists|js: Seq<u64>|
                #![trigger jittered(views(buf@).reverse(), js)]
                js.len() == buf@.len() && (forall|i: int|
                    0 <= i < js.len() ==> #[trigger] js[i] <= old(self).window) && match (
                    r,
                    jittered(views(buf@).reverse(), js),
                ) {
                    (Ok(_), Ok(out)) => appended(old(output)@, final(output)@) == out,
                    (Err(e), Err(f)) => e == f,
                    _ => false,
                },
    {
        let ghost all = views(buf@);
        let ghost rev = all.reverse();
        let ghost before = output@;
        let ghost mut js: Seq<u64> = Seq::empty();
        let mut rest = buf;
        proof {
            assert(output@.take(before.len() as int) =~= before);
            assert(appended(before, output@) =~= Seq::<PacketView>::empty());
        }
        while rest.len() > 0
            invariant
                self.window == old(self).window,
                self.buffers == old(self).buffers,
                rev == views(buf@).reverse(),
                rest@.len() + js.len() == rev.len(),
                views(rest@) == views(buf@).take(rest@.len() as int),
                forall|i: int| 0 <= i < js.len() ==> #[trigger] js[i] <= self.window,
                extends(before, output@),
                before == old(output)@,
                forall|i: int|
                    0 <= i < js.len() ==> fits(
                        (#[trigger] rev[i]).timestamp as int,
                        millis(js[i] as int),
                    ),
                appended(before, output@) == Seq::new(
                    js.len(),
                    |i: int| at_time(rev[i], (rev[i].timestamp + millis(js[i] as int)) as u128),
                ),
            decreases rest@.len(),
        {
            let ghost rest_before = rest@;
            let pkt = rest.pop().unwrap();
            proof {
                let k = js.len() as int;
                assert(views(rest_before)[rest_before.len() - 1] == pkt@);
                assert(rev[k] == views(buf@)[views(buf@).len() - 1 - k]);
                assert(rev[k] == pkt@);
                assert(views(rest@) =~= views(buf@).take(rest@.len() as int));
            }
            let jitter = random_in_range(&mut self.rng, 0, self.window as u64);
            let ghost out_before = output@;
            let r = delay_packet(pkt, from_millis(jitter), output);
            match r {
                Ok(_) => {
                    proof {
                        let k = js.len() as int;
                        js = js.push(jitter);
                        assert(output@.take(before.len() as int) =~= before);
                        assert(appended(before, output@) =~= appended(before, out_before) + appended(
                            out_before,
                            output@,
                        ));
                        assert(appended(before, output@) =~= Seq::new(
                            js.len(),
                            |i: int|
                                at_time(rev[i], (rev[i].timestamp + millis(js[i] as int)) as u128),
                        ));
                    }
                },
                Err(e) => {
                    proof {
                        let k = js.len() as int;
                        let full = js.push(jitter) + Seq::new((rev.len() - k - 1) as nat, |i: int| 0u64);
                        assert(full[k] == jitter);
                        assert(!fits(rev[k].timestamp as int, millis(full[k] as int)));
                        assert forall|i: int| 0 <= i < full.len() implies #[trigger] full[i]
                            <= old(self).window by {
                            if i < k {
                                assert(full[i] == js[i]);
                            }
                        }
                        assert(jittered(rev, full) is Err);
                    }
                    return Err(e);
                },
            }
        }
        proof {
            assert forall|i: int| 0 <= i < rev.len() implies fits(
                (#[trigger] rev[i]).timestamp as int,
                millis(js[i] as int),
            ) by {}
            assert(jittered(rev, js) is Ok);
        }
        Ok(())
    }
}

impl Modifier for TcpOutOfOrder {
    open spec fn refusal(&self, packet: PacketView) -> Option<ModifyError> {
        None
    }

    fn refuses(&self, packet: &Packet) -> (r: Option<ModifyError>) {
        None
    }

    /// The packet joins its group; a group that reaches `window` packets is
    /// sent, in reverse order, each packet delayed by some whole number of
    /// milliseconds up to `window`, and starts again empty.
    open spec fn outcome(
        &self,
        packet: PacketView,
        result: Result<(Self, Seq<PacketView>), ModifyError>,
    ) -> bool {
        let key = buffer_key(packet);
        let buf = grown(self.buffered(), key, packet);
        if buf.len() < self.window {
            result matches Ok((next, out)) && next.window == self.window && next.buffered()
                == self.buffered().insert(key, buf) && out == Seq::<PacketView>::empty()
        } else {
            exists|js: Seq<u64>|
                #![trigger jittered(buf.reverse(), js)]
                js.len() == buf.len() && (forall|i: int|
                    0 <= i < js.len() ==> #[trigger] js[i] <= self.window) && match (
                    result,
                    jittered(buf.reverse(), js),
                ) {
                    (Ok((next, out)), Ok(o)) => next.window == self.window && next.buffered()
                        == self.buffered().insert(key, Seq::empty()) && out == o,
                    (Err(e), Err(f)) => e == f,
                    _ => false,
                }
        }
    }

    fn modify(&mut self, packet: Packet, output: &mut Vec<Packet>) -> (r: Result<(), ModifyError>) {
        let ghost key = buffer_key(packet@);
        let ghost buf_view = grown(self.buffered(), key, packet@);
        let k = match packet.flow_key {
            Some(k) => k,
            None => FlowKey {
                src_ip: IpAddr::V4(0),
                dst_ip: IpAddr::V4(0),
                src_port: 0,
                dst_port: 0,
                protocol: 0,
            },
        };
        assert(k == key);
        let mut buf = match self.buffers.remove(&k) {
            Some(b) => b,
            None => Vec::new(),
        };
        let ghost held = buf@;
        buf.push(packet);
        proof {
            assert(views(buf@) =~= views(held).push(packet@));
            assert(views(buf@) == buf_view);
        }
        if buf.len() >= self.window {
            let empty: Vec<Packet> = Vec::new();
            proof {
                assert(views(empty@) =~= Seq::<PacketView>::empty());
            }
            self.buffers.insert(k, empty);
            proof {
                assert(self.buffered() =~= old(self).buffered().insert(key, Seq::empty()));
            }
            self.reorder(buf, output)
        } else {
            self.buffers.insert(k, buf);
            proof {
                assert(self.buffered() =~= old(self).buffered().insert(key, buf_view));
                assert(output@.take(output@.len() as int) =~= output@);
                assert(appended(output@, output@) =~= Seq::<PacketView>::empty());
            }
            Ok(())
        }
    }
}


/// Reordering neither loses nor duplicates packets: after a packet, its group
/// either holds it behind the ones held before (nothing is sent), or is
/// empty and exactly the packets it held and the new one are sent, newest
/// first, each with its bytes and flow key and no earlier than before; other
/// groups are untouched.
pub proof fn lemma_out_of_order_conserves(
    m: TcpOutOfOrder,
    p: PacketView,
    next: TcpOutOfOrder,
    out: Seq<PacketView>,
)
    requires
        m.outcome(p, Ok((next, out))),
    ensures
        ({
            let key = buffer_key(p);
            let buf = grown(m.buffered(), key, p);
            &&& next.buffered().remove(key) == m.buffered().remove(key)
            &&& next.buffered().contains_key(key)
            &&& next.buffered()[key].map_values(|v: PacketView| v.data) + out.reverse().map_values(
                |v: PacketView| v.data,
            ) == buf.map_values(|v: PacketView| v.data)
            &&& forall|i: int|
                0 <= i < out.len() ==> (#[trigger] out[i]).data == buf[buf.len() - 1 - i].data
                    && out[i].flow_key == buf[buf.len() - 1 - i].flow_key && out[i].timestamp
                    >= buf[buf.len() - 1 - i].timestamp
        }),
{
    let key = buffer_key(p);
    let buf = grown(m.buffered(), key, p);
    let lhs = next.buffered()[key].map_values(|v: PacketView| v.data) + out.reverse().map_values(
        |v: PacketView| v.data,
    );
    let rhs = buf.map_values(|v: PacketView| v.data);
    if buf.len() < m.window {
        assert(next.buffered().remove(key) =~= m.buffered().remove(key));
        assert(out.reverse() =~= Seq::<PacketView>::empty());
        assert(lhs =~= rhs);
    } else {
        let js = choose|js: Seq<u64>|
            #![trigger jittered(buf.reverse(), js)]
            js.len() == buf.len() && (forall|i: int|
                0 <= i < js.len() ==> #[trigger] js[i] <= m.window) && match (
                Ok::<(TcpOutOfOrder, Seq<PacketView>), ModifyError>((next, out)),
                jittered(buf.reverse(), js),
            ) {
                (Ok((n, o)), Ok(e)) => n.window == m.window && n.buffered()
                    == m.buffered().insert(key, Seq::empty()) && o == e,
                (Err(e), Err(f)) => e == f,
                _ => false,
            };
        assert(jittered(buf.reverse(), js) is Ok);
        assert(next.buffered().remove(key) =~= m.buffered().remove(key));
        assert(out.len() == buf.len());
        assert forall|i: int| 0 <= i < lhs.len() implies lhs[i] == rhs[i] by {
            assert(next.buffered()[key] =~= Seq::<PacketView>::empty());
            assert(lhs[i] == out.reverse()[i].data);
            assert(out.reverse()[i] == out[out.len() - 1 - i]);
        }
        assert(lhs =~= rhs);
    }
}


/// Every packet held in the group of `key` was read with that very key, or
/// with none when `key` is the all-zero key.
pub open spec fn groups_by_own_key(groups: Map<FlowKey, Seq<PacketView>>) -> bool {
    forall|key: FlowKey, i: int|
        #![trigger groups[key][i]]
        groups.contains_key(key) && 0 <= i < groups[key].len() ==> (groups[key][i].flow_key
            == Some(key) || (groups[key][i].flow_key is None && key == unkeyed_flow()))
}

/// Two packets read with these keys go into one group: the keys are equal,
/// ports and all, or each is absent or the all-zero key.
pub open spec fn share_group(a: Option<FlowKey>, b: Option<FlowKey>) -> bool {
    a == b || ((a is None || a == Some(unkeyed_flow())) && (b is None || b == Some(
        unkeyed_flow(),
    )))
}

/// Reordering never mixes flows: a packet read with key `k` is held with the
/// packets read with `k`, ports and all, and nothing else (packets without a
/// key go with the all-zero key), and whatever is sent at once is all of the
/// group of the packet that completed it.
pub proof fn lemma_out_of_order_keeps_flows_apart(
    m: TcpOutOfOrder,
    p: PacketView,
    next: TcpOutOfOrder,
    out: Seq<PacketView>,
)
    requires
        groups_by_own_key(m.buffered()),
        m.outcome(p, Ok((next, out))),
    ensures
        groups_by_own_key(next.buffered()),
        forall|i: int| 0 <= i < out.len() ==> share_group((#[trigger] out[i]).flow_key, p.flow_key),
        p.flow_key matches Some(k) ==> forall|g: FlowKey|
            g != k ==> #[trigger] next.buffered().get(g) == m.buffered().get(g),
        p.flow_key is None ==> forall|g: FlowKey|
            g != unkeyed_flow() ==> #[trigger] next.buffered().get(g) == m.buffered().get(g),
{
    let key = buffer_key(p);
    let buf = grown(m.buffered(), key, p);
    lemma_out_of_order_conserves(m, p, next, out);
    assert forall|i: int| 0 <= i < buf.len() implies share_group((#[trigger] buf[i]).flow_key, p.flow_key) by {
        if i < buf.len() - 1 {
            assert(m.buffered().contains_key(key));
            assert(buf[i] == m.buffered()[key][i]);
        }
    }
    assert forall|g: FlowKey| g != key implies #[trigger] next.buffered().get(g)
        == m.buffered().get(g) by {
        assert(next.buffered().remove(key).get(g) == m.buffered().remove(key).get(g));
    }
    assert forall|k2: FlowKey, i: int|
        #![trigger next.buffered()[k2][i]]
        next.buffered().contains_key(k2) && 0 <= i < next.buffered()[k2].len() implies (
        next.buffered()[k2][i].flow_key == Some(k2) || (next.buffered()[k2][i].flow_key is None
            && k2 == unkeyed_flow())) by {
        if k2 != key {
            assert(next.buffered().get(k2) == m.buffered().get(k2));
            assert(m.buffered()[k2][i] == next.buffered()[k2][i]);
        } else if buf.len() < m.window {
            assert(next.buffered()[key] == buf);
        } else {
            assert(next.buffered()[key].len() == 0);
        }
    }
}

/// Nothing is held when reordering starts.
pub proof fn lemma_new_groups_by_own_key(m: TcpOutOfOrder)
    requires
        m.buffered() == Map::<FlowKey, Seq<PacketView>>::empty(),
    ensures
        groups_by_own_key(m.buffered()),
{
}


/// A group is sent the moment it reaches `window` packets and not before: with
/// `h` packets of the packet's flow held (its own key, or the all-zero key
/// where it has none), a packet that brings the group below `window` is held
/// and nothing is sent; one that brings it to `window` (or past, for a window
/// of zero) sends all `h + 1` and leaves the group empty.
pub proof fn lemma_out_of_order_sends_at_window(
    m: TcpOutOfOrder,
    p: PacketView,
    next: TcpOutOfOrder,
    out: Seq<PacketView>,
)
    requires
        m.outcome(p, Ok((next, out))),
    ensures
        ({
            let key = match p.flow_key {
                Some(k) => k,
                None => unkeyed_flow(),
            };
            let h = if m.buffered().contains_key(key) {
                m.buffered()[key].len()
            } else {
                0
            };
            &&& next.window == m.window
            &&& next.buffered().contains_key(key)
            &&& h + 1 < m.window ==> out.len() == 0 && next.buffered()[key].len() == h + 1
                && next.buffered()[key].last() == p
            &&& h + 1 >= m.window ==> out.len() == h + 1 && next.buffered()[key].len() == 0
                && out[0].data == p.data
        }),
{
    let key = buffer_key(p);
    let buf = grown(m.buffered(), key, p);
    lemma_out_of_order_conserves(m, p, next, out);
    if buf.len() >= m.window {
        let js = choose|js: Seq<u64>|
            #![trigger jittered(buf.reverse(), js)]
            js.len() == buf.len() && (forall|i: int|
                0 <= i < js.len() ==> #[trigger] js[i] <= m.window) && match (
                Ok::<(TcpOutOfOrder, Seq<PacketView>), ModifyError>((next, out)),
                jittered(buf.reverse(), js),
            ) {
                (Ok((n, o)), Ok(e)) => n.window == m.window && n.buffered()
                    == m.buffered().insert(key, Seq::empty()) && o == e,
                (Err(e), Err(f)) => e == f,
                _ => false,
            };
        assert(jittered(buf.reverse(), js) is Ok);
        assert(out.len() == buf.len());
    }
}

} // verus!
