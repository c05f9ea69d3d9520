//! The modifiers a capture is passed through, their configuration, and the
//! pipeline that runs them.
use vstd::prelude::*;
use crate::packet::{Packet, PacketView, views};
use crate::duration::from_millis;
use crate::flows::FlowKey;
use self::delays::{
    BurstDelay, FixedDelay, FlowRateLimitDelay, JitterDelay, PacketPacingDelay, TransmissionTimer,
};
use self::drop_packets::DropEveryNth;
use self::http_fragmentation::HttpHeaderFragmentation;
use self::tcp_out_of_order::TcpOutOfOrder;
use self::tls_fragmentation::TlsClientHelloFragmentation;

pub mod chunks;
pub mod delays;
pub mod drop_packets;
pub mod http_fragmentation;
pub mod tcp_out_of_order;
pub mod tls_fragmentation;

verus! {

/// Why a modifier could not process a packet.
#[derive(Debug, Clone, Copy, PartialEq, Eq, Structural)]
pub enum ModifyError {
    /// A timestamp, or a burst cycle, would pass the largest duration.
    DurationOverflow,
    /// A jitter delay's lower bound (in whole milliseconds) is above its
    /// upper bound.
    EmptyJitterRange,
    /// A burst cycle is shorter than one millisecond.
    ZeroBurstCycle,
    /// A fragmentation technique has a fragment size of zero.
    ZeroFragmentSize,
    /// The drop counter is at its largest value.
    CounterOverflow,
    /// A rate limit of zero bytes per second meets a packet of a flow.
    ZeroRate,
}

/// The packets appended to `before` to give `after`.
pub open spec fn appended(before: Seq<Packet>, after: Seq<Packet>) -> Seq<PacketView> {
    views(after.skip(before.len() as int))
}

/// `before` is a prefix of `after`.
pub open spec fn extends(before: Seq<Packet>, after: Seq<Packet>) -> bool {
    before.len() <= after.len() && after.take(before.len() as int) == before
}

/// A packet-rewriting technique: fed one packet at a time, it appends what it
/// emits for that packet to an output list and updates its own state.
pub trait Modifier: Sized {
    /// Why the modifier, as configured, cannot take the packet at all (a
    /// fragment size of zero, an empty jitter range, a burst cycle under a
    /// millisecond or past the largest duration, a rate of zero), or `None`
    /// where it can.
    spec fn refusal(&self, packet: PacketView) -> Option<ModifyError>;

    /// Whether, and why, the modifier cannot take the packet.
    fn refuses(&self, packet: &Packet) -> (r: Option<ModifyError>)
        ensures
            r == self.refusal(packet@),
    ;

    /// Relates the state before a packet, the packet, and what processing it
    /// gives: the state after and the packets emitted, or the error on which
    /// processing stops.
    spec fn outcome(
        &self,
        packet: PacketView,
        result: Result<(Self, Seq<PacketView>), ModifyError>,
    ) -> bool;

    /// Processes one packet the modifier does not refuse.
    fn modify(&mut self, packet: Packet, output: &mut Vec<Packet>) -> (r: Result<(), ModifyError>)
        requires
            old(self).refusal(packet@) is None,
        ensures
            extends(old(output)@, final(output)@),
            old(self).outcome(
                packet@,
                match r {
                    Ok(_) => Ok((*final(self), appended(old(output)@, final(output)@))),
                    Err(e) => Err(e),
                },
            ),
    ;
}


/// A configured modifier, paired with whether it is switched on.
#[derive(Debug, Clone, Copy, PartialEq, Eq, Structural)]
pub struct ModifierEntry {
    pub enabled: bool,
    pub config: ModifierConfig,
}

/// The configuration of one modifier.
#[derive(Debug, Clone, Copy, PartialEq, Eq, Structural)]
pub enum ModifierConfig {
    DropEveryNth { n: u64 },
    Delay(DelayConfig),
    TcpSegmentation { segment_size: usize },
    TlsClientHelloFragmentation { fragment_size: usize },
    TcpOutOfOrder { window: usize },
    HttpHeaderFragmentation { fragment_size: usize },
}

/// The configuration of a delay; times are in milliseconds.
#[derive(Debug, Clone, Copy, PartialEq, Eq, Structural)]
pub enum DelayConfig {
    Fixed { millis: u64 },
    Jitter { min_ms: u64, max_ms: u64 },
    PacketPacing { millis: u64 },
    FlowRateLimit { bytes_per_second: u64 },
    Burst { active_ms: u64, pause_ms: u64 },
}

/// Any of the modifiers, as built from a configuration.
pub enum AnyModifier<T> {
    DropEveryNth(DropEveryNth),
    FixedDelay(FixedDelay),
    JitterDelay(JitterDelay),
    PacketPacingDelay(PacketPacingDelay),
    BurstDelay(BurstDelay),
    FlowRateLimitDelay(FlowRateLimitDelay<T>),
    TlsClientHelloFragmentation(TlsClientHelloFragmentation),
    TcpOutOfOrder(TcpOutOfOrder),
    HttpHeaderFragmentation(HttpHeaderFragmentation),
}

impl<T: TransmissionTimer> Modifier for AnyModifier<T> {
    /// The refusal of the modifier held.
    open spec fn refusal(&self, packet: PacketView) -> Option<ModifyError> {
        match self {
            AnyModifier::DropEveryNth(m) => m.refusal(packet),
            AnyModifier::FixedDelay(m) => m.refusal(packet),
            AnyModifier::JitterDelay(m) => m.refusal(packet),
            AnyModifier::PacketPacingDelay(m) => m.refusal(packet),
            AnyModifier::BurstDelay(m) => m.refusal(packet),
            AnyModifier::FlowRateLimitDelay(m) => m.refusal(packet),
            AnyModifier::TlsClientHelloFragmentation(m) => m.refusal(packet),
            AnyModifier::TcpOutOfOrder(m) => m.refusal(packet),
            AnyModifier::HttpHeaderFragmentation(m) => m.refusal(packet),
        }
    }

    fn refuses(&self, packet: &Packet) -> (r: Option<ModifyError>) {
        match self {
            AnyModifier::DropEveryNth(m) => m.refuses(packet),
            AnyModifier::FixedDelay(m) => m.refuses(packet),
            AnyModifier::JitterDelay(m) => m.refuses(packet),
            AnyModifier::PacketPacingDelay(m) => m.refuses(packet),
            AnyModifier::BurstDelay(m) => m.refuses(packet),
            AnyModifier::FlowRateLimitDelay(m) => m.refuses(packet),
            AnyModifier::TlsClientHelloFragmentation(m) => m.refuses(packet),
            AnyModifier::TcpOutOfOrder(m) => m.refuses(packet),
            AnyModifier::HttpHeaderFragmentation(m) => m.refuses(packet),
        }
    }

    /// The outcome of the modifier held; the state after holds a modifier of
    /// the same kind.
    open spec fn outcome(
        &self,
        packet: PacketView,
        result: Result<(Self, Seq<PacketView>), ModifyError>,
    ) -> bool {
        match (*self, result) {
            (AnyModifier::DropEveryNth(m), Ok((AnyModifier::DropEveryNth(n), out))) => m.outcome(
                packet,
                Ok((n, out)),
            ),
            (AnyModifier::DropEveryNth(m), Err(e)) => m.outcome(packet, Err(e)),
            (AnyModifier::FixedDelay(m), Ok((AnyModifier::FixedDelay(n), out))) => m.outcome(
                packet,
                Ok((n, out)),
            ),
            (AnyModifier::FixedDelay(m), Err(e)) => m.outcome(packet, Err(e)),
            (AnyModifier::JitterDelay(m), Ok((AnyModifier::JitterDelay(n), out))) => m.outcome(
                packet,
                Ok((n, out)),
            ),
            (AnyModifier::JitterDelay(m), Err(e)) => m.outcome(packet, Err(e)),
            (
                AnyModifier::PacketPacingDelay(m),
                Ok((AnyModifier::PacketPacingDelay(n), out)),
            ) => m.outcome(packet, Ok((n, out))),
            (AnyModifier::PacketPacingDelay(m), Err(e)) => m.outcome(packet, Err(e)),
            (AnyModifier::BurstDelay(m), Ok((AnyModifier::BurstDelay(n), out))) => m.outcome(
                packet,
                Ok((n, out)),
            ),
            (AnyModifier::BurstDelay(m), Err(e)) => m.outcome(packet, Err(e)),
            (
                AnyModifier::FlowRateLimitDelay(m),
                Ok((AnyModifier::FlowRateLimitDelay(n), out)),
            ) => m.outcome(packet, Ok((n, out))),
            (AnyModifier::FlowRateLimitDelay(m), Err(e)) => m.outcome(packet, Err(e)),
            (
                AnyModifier::TlsClientHelloFragmentation(m),
                Ok((AnyModifier::TlsClientHelloFragmentation(n), out)),
            ) => m.outcome(packet, Ok((n, out))),
            (AnyModifier::TlsClientHelloFragmentation(m), Err(e)) => m.outcome(packet, Err(e)),
            (AnyModifier::TcpOutOfOrder(m), Ok((AnyModifier::TcpOutOfOrder(n), out))) => m.outcome(
                packet,
                Ok((n, out)),
            ),
            (AnyModifier::TcpOutOfOrder(m), Err(e)) => m.outcome(packet, Err(e)),
            (
                AnyModifier::HttpHeaderFragmentation(m),
                Ok((AnyModifier::HttpHeaderFragmentation(n), out)),
            ) => m.outcome(packet, Ok((n, out))),
            (AnyModifier::HttpHeaderFragmentation(m), Err(e)) => m.outcome(packet, Err(e)),
            _ => false,
        }
    }

    fn modify(&mut self, packet: Packet, output: &mut Vec<Packet>) -> (r: Result<(), ModifyError>) {
        match self {
            AnyModifier::DropEveryNth(m) => m.modify(packet, output),
            AnyModifier::FixedDelay(m) => m.modify(packet, output),
            AnyModifier::JitterDelay(m) => m.modify(packet, output),
            AnyModifier::PacketPacingDelay(m) => m.modify(packet, output),
            AnyModifier::BurstDelay(m) => m.modify(packet, output),
            AnyModifier::FlowRateLimitDelay(m) => m.modify(packet, output),
            AnyModifier::TlsClientHelloFragmentation(m) => m.modify(packet, output),
            AnyModifier::TcpOutOfOrder(m) => m.modify(packet, output),
            AnyModifier::HttpHeaderFragmentation(m) => m.modify(packet, output),
        }
    }
}

/// Why a configuration could not be built into a modifier.
#[derive(Debug, Clone, Copy, PartialEq, Eq, Structural)]
pub enum BuildError {
    /// TCP segmentation is configured, but no implementation of it is
    /// available.
    TcpSegmentationUnavailable,
}

/// `m` is the fresh modifier that `config` describes (times converted from
/// milliseconds to nanoseconds, counters at zero, nothing held, generators
/// freshly seeded).
pub open spec fn built_from<T: TransmissionTimer>(config: ModifierConfig, timer: T, m: AnyModifier<T>) -> bool {
    match config {
        ModifierConfig::DropEveryNth { n } => m == AnyModifier::<T>::DropEveryNth(
            DropEveryNth { n, counter: 0 },
        ),
        ModifierConfig::Delay(DelayConfig::Fixed { millis }) => m == AnyModifier::<T>::FixedDelay(
            FixedDelay { delay: crate::duration::millis(millis as int) as u128 },
        ),
        ModifierConfig::Delay(DelayConfig::Jitter { min_ms, max_ms }) => m matches AnyModifier::<
            T,
        >::JitterDelay(j) && j.min == crate::duration::millis(min_ms as int) && j.max
            == crate::duration::millis(max_ms as int),
        ModifierConfig::Delay(DelayConfig::PacketPacing { millis }) => m matches AnyModifier::<
            T,
        >::PacketPacingDelay(p) && p.delay_per_packet == crate::duration::millis(millis as int)
            && p.departures() == Map::<FlowKey, u128>::empty(),
        ModifierConfig::Delay(DelayConfig::Burst { active_ms, pause_ms }) => m
            == AnyModifier::<T>::BurstDelay(
            BurstDelay {
                active: crate::duration::millis(active_ms as int) as u128,
                pause: crate::duration::millis(pause_ms as int) as u128,
            },
        ),
        ModifierConfig::Delay(DelayConfig::FlowRateLimit { bytes_per_second }) => m matches AnyModifier::<
            T,
        >::FlowRateLimitDelay(f) && f.bytes_per_second == bytes_per_second && f.departures()
            == Map::<FlowKey, u128>::empty() && f.timer == timer,
        ModifierConfig::TcpSegmentation { .. } => false,
        ModifierConfig::TlsClientHelloFragmentation { fragment_size } => m
            == AnyModifier::<T>::TlsClientHelloFragmentation(
            TlsClientHelloFragmentation { fragment_size },
        ),
        ModifierConfig::TcpOutOfOrder { window } => m matches AnyModifier::<T>::TcpOutOfOrder(o)
            && o.window == window && o.buffered() == Map::<FlowKey, Seq<PacketView>>::empty(),
        ModifierConfig::HttpHeaderFragmentation { fragment_size } => m
            == AnyModifier::<T>::HttpHeaderFragmentation(HttpHeaderFragmentation { fragment_size }),
    }
}

/// Builds the modifier a configuration describes; rate limits take their
/// transmission times from `timer`.
pub fn build_modifier<T: TransmissionTimer>(config: ModifierConfig, timer: T) -> (r: Result<
    AnyModifier<T>,
    BuildError,
>)
    ensures
        match r {
            Ok(m) => built_from(config, timer, m),
            Err(e) => config is TcpSegmentation && e == BuildError::TcpSegmentationUnavailable,
        },
{
    match config {
        ModifierConfig::DropEveryNth { n } => Ok(
            AnyModifier::DropEveryNth(DropEveryNth { n, counter: 0 }),
        ),
        ModifierConfig::Delay(delay_cfg) => match delay_cfg {
            DelayConfig::Fixed { millis } => Ok(
                AnyModifier::FixedDelay(FixedDelay { delay: from_millis(millis) }),
            ),
            DelayConfig::Jitter { min_ms, max_ms } => Ok(
                AnyModifier::JitterDelay(JitterDelay::new(from_millis(min_ms), from_millis(max_ms))),
            ),
            DelayConfig::PacketPacing { millis } => Ok(
                AnyModifier::PacketPacingDelay(PacketPacingDelay::new(from_millis(millis))),
            ),
            DelayConfig::Burst { active_ms, pause_ms } => Ok(
                AnyModifier::BurstDelay(BurstDelay::new(from_millis(active_ms), from_millis(pause_ms))),
            ),
            DelayConfig::FlowRateLimit { bytes_per_second } => Ok(
                AnyModifier::FlowRateLimitDelay(FlowRateLimitDelay::new(bytes_per_second, timer)),
            ),
        },
        ModifierConfig::TcpSegmentation { .. } => Err(BuildError::TcpSegmentationUnavailable),
        ModifierConfig::TlsClientHelloFragmentation { fragment_size } => Ok(
            AnyModifier::TlsClientHelloFragmentation(TlsClientHelloFragmentation::new(fragment_size)),
        ),
        ModifierConfig::TcpOutOfOrder { window } => Ok(
            AnyModifier::TcpOutOfOrder(TcpOutOfOrder::new(window)),
        ),
        ModifierConfig::HttpHeaderFragmentation { fragment_size } => Ok(
            AnyModifier::HttpHeaderFragmentation(HttpHeaderFragmentation::new(fragment_size)),
        ),
    }
}


/// Fed the packets `input` one after another, modifier `m` ends as `m2`,
/// having emitted `out`.
pub open spec fn feeds<M: Modifier>(m: M, input: Seq<PacketView>, m2: M, out: Seq<PacketView>) -> bool
    decreases input.len(),
{
    if input.len() == 0 {
        m2 == m && out.len() == 0
    } else {
        exists|mid: M, k: int|
            #![trigger mid.outcome(input.last(), Ok((m2, out.skip(k))))]
            0 <= k <= out.len() && feeds(m, input.drop_last(), mid, out.take(k)) && mid.refusal(
                input.last(),
            ) is None && mid.outcome(input.last(), Ok((m2, out.skip(k))))
    }
}

/// Fed `input`, modifier `m` refuses one of the packets, or stops on error
/// `e` processing it.
pub open spec fn feed_fails<M: Modifier>(m: M, input: Seq<PacketView>, e: ModifyError) -> bool {
    exists|i: int, mid: M, out: Seq<PacketView>|
        #![trigger feeds(m, input.take(i), mid, out)]
        0 <= i < input.len() && feeds(m, input.take(i), mid, out) && match mid.refusal(input[i]) {
            Some(f) => e == f,
            None => mid.outcome(input[i], Err(e)),
        }
}

/// The modifiers `ms`, each fed all that the one before it emitted (the first
/// fed `input`), end as `ms2`, the last having emitted `out`.
pub open spec fn runs<M: Modifier>(
    ms: Seq<M>,
    input: Seq<PacketView>,
    ms2: Seq<M>,
    out: Seq<PacketView>,
) -> bool
    decreases ms.len(),
{
    if ms.len() == 0 {
        ms2.len() == 0 && out == input
    } else {
        ms2.len() == ms.len() && exists|mid: Seq<PacketView>|
            #![trigger feeds(ms.last(), mid, ms2.last(), out)]
            runs(ms.drop_last(), input, ms2.drop_last(), mid) && feeds(
                ms.last(),
                mid,
                ms2.last(),
                out,
            )
    }
}

/// Run in order on `input`, one of the modifiers `ms` stops on error `e`.
pub open spec fn run_fails<M: Modifier>(ms: Seq<M>, input: Seq<PacketView>, e: ModifyError) -> bool {
    exists|j: int, ms2: Seq<M>, mid: Seq<PacketView>|
        #![trigger runs(ms.take(j), input, ms2, mid)]
        0 <= j < ms.len() && runs(ms.take(j), input, ms2, mid) && feed_fails(ms[j], mid, e)
}

/// The packets are in order of time.
pub open spec fn sorted_by_time(s: Seq<PacketView>) -> bool {
    forall|i: int, j: int| 0 <= i <= j < s.len() ==> s[i].timestamp <= s[j].timestamp
}

/// Sorts packets by timestamp with `<[T]>::sort_unstable_by_key`: the result
/// is a permutation of the packets, in order of time (the order of packets
/// of equal time is not stated).
#[verifier::external_body]
fn sort_by_timestamp(packets: &mut Vec<Packet>)
    ensures
        views(final(packets)@).to_multiset() == views(old(packets)@).to_multiset(),
        sorted_by_time(views(final(packets)@)),
{
    packets.sort_unstable_by_key(|p| p.timestamp);
}

/// Feeds every packet of `input`, in order, to `m`.
fn feed_all<M: Modifier>(m: &mut M, input: &Vec<Packet>) -> (r: Result<Vec<Packet>, ModifyError>)
    ensures
        match r {
            Ok(out) => feeds(*old(m), views(input@), *final(m), views(out@)),
            Err(e) => feed_fails(*old(m), views(input@), e),
        },
{
    let ghost m0 = *m;
    let ghost inp = views(input@);
    let mut out: Vec<Packet> = Vec::new();
    let mut i: usize = 0;
    proof {
        assert(inp.take(0) =~= Seq::<PacketView>::empty());
        assert(views(out@) =~= Seq::<PacketView>::empty());
    }
    while i < input.len()
        invariant
            inp == views(input@),
            i <= input@.len(),
            m0 == *old(m),
            feeds(m0, inp.take(i as int), *m, views(out@)),
        decreases input@.len() - i,
    {
        let ghost m_before = *m;
        let ghost out_before = out@;
        let p = input[i].duplicate();
        if let Some(e) = m.refuses(&p) {
            proof {
                assert(feeds(m0, inp.take(i as int), m_before, views(out_before)));
            }
            return Err(e);
        }
        let r = m.modify(p, &mut out);
        match r {
            Ok(_) => {
                proof {
                    let k = out_before.len() as int;
                    let next = inp.take(i + 1);
                    assert(next.drop_last() =~= inp.take(i as int));
                    assert(next.last() == inp[i as int]);
                    assert(views(out@).take(k) =~= views(out_before)) by {
                        assert(out@.take(k) == out_before);
                    }
                    assert(views(out@).skip(k) =~= appended(out_before, out@));
                    assert(feeds(m0, next.drop_last(), m_before, views(out@).take(k)));
                    assert(p@ == next.last());
                    assert(m_before.outcome(next.last(), Ok((*m, views(out@).skip(k)))));
                    assert(feeds(m0, next, *m, views(out@)));
                }
            },
            Err(e) => {
                proof {
                    assert(feeds(m0, inp.take(i as int), m_before, views(out_before)));
                }
                return Err(e);
            },
        }
        i = i + 1;
    }
    proof {
        assert(inp.take(i as int) =~= inp);
    }
    Ok(out)
}

/// Runs the packets through the modifiers in order, each modifier fed all
/// that the one before it emitted, and sorts what the last one emits by
/// time. Stops with the error of the first modifier that cannot process a
/// packet.
pub fn run_pipeline<M: Modifier>(packets: Vec<Packet>, modifiers: &mut Vec<M>) -> (r: Result<
    Vec<Packet>,
    ModifyError,
>)
    ensures
        match r {
            Ok(result) => exists|out: Seq<PacketView>|
                #![trigger runs(old(modifiers)@, views(packets@), final(modifiers)@, out)]
                runs(old(modifiers)@, views(packets@), final(modifiers)@, out)
                    && views(result@).to_multiset() == out.to_multiset() && sorted_by_time(
                    views(result@),
                ),
            Err(e) => run_fails(old(modifiers)@, views(packets@), e),
        },
{
    let ghost ms0 = modifiers@;
    let ghost inp = views(packets@);
    let mut current = packets;
    let mut done: Vec<M> = Vec::new();
    proof {
        assert(ms0.take(0) =~= Seq::<M>::empty());
        assert(modifiers@ =~= ms0.skip(0));
    }
    while modifiers.len() > 0
        invariant
            ms0 == old(modifiers)@,
            inp == views(packets@),
            done@.len() + modifiers@.len() == ms0.len(),
            modifiers@ == ms0.skip(done@.len() as int),
            runs(ms0.take(done@.len() as int), inp, done@, views(current@)),
        decreases modifiers@.len(),
    {
        let ghost j = done@.len() as int;
        let ghost done_before = done@;
        let ghost mid = views(current@);
        let mut m = modifiers.remove(0);
        proof {
            assert(m == ms0[j]);
            assert(modifiers@ =~= ms0.skip(j + 1));
        }
        match feed_all(&mut m, &current) {
            Ok(next) => {
                done.push(m);
                proof {
                    let ms = ms0.take(j + 1);
                    assert(ms.drop_last() =~= ms0.take(j));
                    assert(ms.last() == ms0[j]);
                    assert(done@.drop_last() =~= done_before);
                    assert(runs(ms.drop_last(), inp, done@.drop_last(), mid));
                    assert(done@.last() == m);
                    assert(feeds(ms.last(), mid, done@.last(), views(next@)));
                    assert(runs(ms, inp, done@, views(next@)));
                }
                current = next;
            },
            Err(e) => {
                proof {
                    assert(runs(ms0.take(j), inp, done_before, mid));
                }
                return Err(e);
            },
        }
    }
    std::mem::swap(modifiers, &mut done);
    proof {
        assert(ms0.take(ms0.len() as int) =~= ms0);
    }
    let ghost out = views(current@);
    sort_by_timestamp(&mut current);
    assert(runs(old(modifiers)@, views(packets@), modifiers@, out));
    Ok(current)
}


/// The delays move a packet only later in time: each gives back exactly the
/// packet it was given, with its bytes and flow key, at its capture time or
/// after.
pub proof fn lemma_delays_never_advance<T: TransmissionTimer>(
    m: AnyModifier<T>,
    p: PacketView,
    next: AnyModifier<T>,
    out: Seq<PacketView>,
)
    requires
        m is FixedDelay || m is JitterDelay || m is BurstDelay || m is PacketPacingDelay
            || m is FlowRateLimitDelay,
        m.outcome(p, Ok((next, out))),
    ensures
        out.len() == 1,
        out[0].timestamp >= p.timestamp,
        out[0].data == p.data,
        out[0].flow_key == p.flow_key,
{
    match m {
        AnyModifier::JitterDelay(j) => {
            let n = next->JitterDelay_0;
            let ms = choose|ms: u64|
                #![trigger crate::duration::millis(ms as int)]
                self::delays::whole_millis_u64(j.min) <= ms <= self::delays::whole_millis_u64(j.max)
                    && match (Ok::<(JitterDelay, Seq<PacketView>), ModifyError>((n, out)), self::delays::delayed(p, crate::duration::millis(ms as int))) {
                    (Ok((next, out)), Ok(expected)) => next.min == j.min && next.max == j.max
                        && out == expected,
                    (Err(e), Err(f)) => e == f,
                    _ => false,
                };
            assert(self::delays::delayed(p, crate::duration::millis(ms as int)) is Ok);
        },
        AnyModifier::FlowRateLimitDelay(f) => {
            if let Some(flow) = crate::flows::flow_key_of(p.data) {
                let gap = f.timer.time(p.data.len() as usize, f.bytes_per_second);
                assert(self::delays::paced(f.departures(), flow, p, gap as int) is Ok);
            }
        },
        _ => {},
    }
}

} // verus!
