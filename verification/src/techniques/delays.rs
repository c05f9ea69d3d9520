//! Techniques that delay packets.
use vstd::prelude::*;
use crate::duration::{add_durations, fits, from_millis, millis, NANOS_PER_MILLI};
use crate::packet::{Packet, PacketView, at_time};
use crate::techniques::{Modifier, ModifyError, appended, extends};
use crate::flows::{FlowKey, extract_flow_key, flow_key_of};
use crate::flow_table::FlowTable;
use crate::rng::{seeded_rng, random_in_range};
use rand::rngs::StdRng;

verus! {

/// The packet `v` delayed by `d` nanoseconds, or the overflow error.
pub open spec fn delayed(v: PacketView, d: int) -> Result<Seq<PacketView>, ModifyError> {
    if fits(v.timestamp as int, d) {
        Ok(seq![at_time(v, (v.timestamp + d) as u128)])
    } else {
        Err(ModifyError::DurationOverflow)
    }
}

/// Appends `packet` delayed by `delay` nanoseconds to `output`.
pub fn delay_packet(packet: Packet, delay: u128, output: &mut Vec<Packet>) -> (r: Result<
    (),
    ModifyError,
>)
    ensures
        extends(old(output)@, final(output)@),
        match (r, delayed(packet@, delay as int)) {
            (Ok(_), Ok(out)) => appended(old(output)@, final(output)@) == out,
            (Err(e), Err(f)) => e == f && final(output)@ == old(output)@,
            _ => false,
        },
{
    match add_durations(packet.timestamp, delay) {
        Some(t) => {
            let mut p = packet;
            p.timestamp = t;
            let ghost before = output@;
            output.push(p);
            proof {
                assert(output@.take(before.len() as int) =~= before);
                assert(appended(before, output@) =~= seq![p@]);
            }
            Ok(())
        },
        None => {
            assert(output@.take(output@.len() as int) =~= output@);
            Err(ModifyError::DurationOverflow)
        },
    }
}

/// Delays every packet by the same amount.
pub struct FixedDelay {
    /// The delay, in nanoseconds.
    pub delay: u128,
}

impl Modifier for FixedDelay {
    open spec fn refusal(&self, packet: PacketView) -> Option<ModifyError> {
        None
    }

    fn refuses(&self, packet: &Packet) -> (r: Option<ModifyError>) {
        None
    }

    open spec fn outcome(
        &self,
        packet: PacketView,
        result: Result<(Self, Seq<PacketView>), ModifyError>,
    ) -> bool {
        result == match delayed(packet, self.delay as int) {
            Ok(out) => Ok((*self, out)),
            Err(e) => Err(e),
        }
    }

    fn modify(&mut self, packet: Packet, output: &mut Vec<Packet>) -> (r: Result<(), ModifyError>) {
        delay_packet(packet, self.delay, output)
    }
}


/// Appends `packet` unchanged to `output`.
pub fn pass_through(packet: Packet, output: &mut Vec<Packet>)
    ensures
        extends(old(output)@, final(output)@),
        appended(old(output)@, final(output)@) == seq![packet@],
{
    let ghost before = output@;
    output.push(packet);
    proof {
        assert(output@.take(before.len() as int) =~= before);
        assert(appended(before, output@) =~= seq![packet@]);
    }
}

/// Delays each packet by a number of whole milliseconds drawn from a
/// pseudo-random generator seeded with 42, between the whole milliseconds of
/// `min` and of `max` (both included).
pub struct JitterDelay {
    /// The least delay, in nanoseconds; only its whole milliseconds count.
    pub min: u128,
    /// The greatest delay, in nanoseconds; only its whole milliseconds count.
    pub max: u128,
    /// The generator delays are drawn from.
    pub rng: StdRng,
}

/// The whole milliseconds of a duration, as the `u64` it is cast to (the
/// cast keeps the low 64 bits).
pub open spec fn whole_millis_u64(d: u128) -> u64 {
    (d / NANOS_PER_MILLI) as u64
}

impl JitterDelay {
    /// A jitter delay between `min` and `max` nanoseconds.
    pub fn new(min: u128, max: u128) -> (r: Self)
        ensures
            r.min == min,
            r.max == max,
    {
        JitterDelay { min, max, rng: seeded_rng(42) }
    }

    /// Draws a delay, in nanoseconds.
    fn sample(&mut self) -> (d: u128)
        requires
            whole_millis_u64(old(self).min) <= whole_millis_u64(old(self).max),
        ensures
            final(self).min == old(self).min,
            final(self).max == old(self).max,
            exists|ms: u64|
                whole_millis_u64(old(self).min) <= ms <= whole_millis_u64(old(self).max) && d
                    == millis(ms as int),
    {
        let min_ms = (self.min / NANOS_PER_MILLI) as u64;
        let max_ms = (self.max / NANOS_PER_MILLI) as u64;
        let ms = random_in_range(&mut self.rng, min_ms, max_ms);
        from_millis(ms)
    }
}

impl Modifier for JitterDelay {
    /// The whole milliseconds of the lower bound are above those of the upper
    /// bound.
    open spec fn refusal(&self, packet: PacketView) -> Option<ModifyError> {
        if whole_millis_u64(self.min) > whole_millis_u64(self.max) {
            Some(ModifyError::EmptyJitterRange)
        } else {
            None
        }
    }

    fn refuses(&self, packet: &Packet) -> (r: Option<ModifyError>) {
        let min_ms = (self.min / NANOS_PER_MILLI) as u64;
        let max_ms = (self.max / NANOS_PER_MILLI) as u64;
        if min_ms > max_ms {
            Some(ModifyError::EmptyJitterRange)
        } else {
            None
        }
    }

    /// The packet is delayed by some whole number of milliseconds within the
    /// bounds; which one is up to the generator.
    open spec fn outcome(
        &self,
        packet: PacketView,
        result: Result<(Self, Seq<PacketView>), ModifyError>,
    ) -> bool {
        exists|ms: u64|
            #![trigger millis(ms as int)]
            whole_millis_u64(self.min) <= ms <= whole_millis_u64(self.max) && match (
                result,
                delayed(packet, millis(ms as int)),
            ) {
                (Ok((next, out)), Ok(expected)) => next.min == self.min && next.max == self.max
                    && out == expected,
                (Err(e), Err(f)) => e == f,
                _ => false,
            }
    }

    fn modify(&mut self, packet: Packet, output: &mut Vec<Packet>) -> (r: Result<(), ModifyError>) {
        let d = self.sample();
        let ghost ms = choose|ms: u64|
            whole_millis_u64(old(self).min) <= ms <= whole_millis_u64(old(self).max) && d
                == millis(ms as int);
        let r = delay_packet(packet, d, output);
        assert(millis(ms as int) == d);
        r
    }
}

/// Holds back packets that arrive in the pause part of a cycle: time is cut
/// into cycles of `active + pause`, counted in whole milliseconds from zero;
/// a packet whose offset into its cycle is at least `active` is delayed to
/// the start of the next cycle.
pub struct BurstDelay {
    /// How long packets pass in each cycle, in nanoseconds.
    pub active: u128,
    /// How long packets are held in each cycle, in nanoseconds.
    pub pause: u128,
}

/// What a burst delay makes of a packet.
pub open spec fn burst_outcome(active: u128, pause: u128, v: PacketView) -> Result<
    Seq<PacketView>,
    ModifyError,
> {
    if !fits(active as int, pause as int) {
        Err(ModifyError::DurationOverflow)
    } else {
        let cycle = (active + pause) as u128;
        let cycle_ms = whole_millis_u64(cycle);
        if cycle_ms == 0 {
            Err(ModifyError::ZeroBurstCycle)
        } else {
            let pos = millis((whole_millis_u64(v.timestamp) % cycle_ms) as int);
            if pos >= active {
                delayed(v, cycle - pos)
            } else {
                Ok(seq![v])
            }
        }
    }
}

impl BurstDelay {
    /// A burst delay of the given active and pause times, in nanoseconds.
    pub fn new(active: u128, pause: u128) -> (r: Self)
        ensures
            r.active == active,
            r.pause == pause,
    {
        BurstDelay { active, pause }
    }
}

impl Modifier for BurstDelay {
    /// The cycle passes the largest duration, or is shorter than one
    /// millisecond.
    open spec fn refusal(&self, packet: PacketView) -> Option<ModifyError> {
        if !fits(self.active as int, self.pause as int) {
            Some(ModifyError::DurationOverflow)
        } else if whole_millis_u64((self.active + self.pause) as u128) == 0 {
            Some(ModifyError::ZeroBurstCycle)
        } else {
            None
        }
    }

    fn refuses(&self, packet: &Packet) -> (r: Option<ModifyError>) {
        match add_durations(self.active, self.pause) {
            None => Some(ModifyError::DurationOverflow),
            Some(cycle) => {
                if (cycle / NANOS_PER_MILLI) as u64 == 0 {
                    Some(ModifyError::ZeroBurstCycle)
                } else {
                    None
                }
            },
        }
    }

    open spec fn outcome(
        &self,
        packet: PacketView,
        result: Result<(Self, Seq<PacketView>), ModifyError>,
    ) -> bool {
        result == match burst_outcome(self.active, self.pause, packet) {
            Ok(out) => Ok((*self, out)),
            Err(e) => Err(e),
        }
    }

    fn modify(&mut self, packet: Packet, output: &mut Vec<Packet>) -> (r: Result<(), ModifyError>) {
        let cycle = self.active + self.pause;
        let cycle_ms = (cycle / NANOS_PER_MILLI) as u64;
        let packet_ms = (packet.timestamp / NANOS_PER_MILLI) as u64;
        let pos = from_millis(packet_ms % cycle_ms);
        if pos >= self.active {
            proof {
                let q = cycle / NANOS_PER_MILLI;
                assert((q as u64) as u128 <= q) by (bit_vector);
                assert(q * NANOS_PER_MILLI <= cycle);
            }
            let wait = cycle - pos;
            delay_packet(packet, wait, output)
        } else {
            pass_through(packet, output);
            Ok(())
        }
    }
}

/// A burst delay holds a packet for at most the pause: the packet it gives
/// back is the one it was given, no earlier and at most `pause` later.
pub proof fn lemma_burst_holds_at_most_pause(active: u128, pause: u128, v: PacketView)
    requires
        burst_outcome(active, pause, v) is Ok,
    ensures
        ({
            let out = burst_outcome(active, pause, v)->Ok_0;
            &&& out.len() == 1
            &&& v.timestamp <= out[0].timestamp <= v.timestamp + pause
            &&& out[0].data == v.data
            &&& out[0].flow_key == v.flow_key
        }),
{
}

/// Departure scheduling of one flow: the packet leaves at the flow's next
/// departure time, or when it arrives if that is later (a flow not yet seen
/// starts at the packet's arrival); the flow's next departure is then that
/// departure plus `gap`. Gives the new table and the rescheduled packet, or
/// the overflow error.
pub open spec fn paced(table: Map<FlowKey, u128>, flow: FlowKey, v: PacketView, gap: int) -> Result<
    (Map<FlowKey, u128>, PacketView),
    ModifyError,
> {
    let next = if table.contains_key(flow) {
        table[flow]
    } else {
        v.timestamp
    };
    let departure = if next >= v.timestamp {
        next
    } else {
        v.timestamp
    };
    if fits(departure as int, gap) {
        Ok((table.insert(flow, (departure + gap) as u128), at_time(v, departure)))
    } else {
        Err(ModifyError::DurationOverflow)
    }
}

/// Schedules `packet` of `flow` with `gap` between its flow's departures and
/// appends it, at its departure time, to `output`.
pub fn schedule(
    table: &mut FlowTable<u128>,
    flow: FlowKey,
    packet: Packet,
    gap: u128,
    output: &mut Vec<Packet>,
) -> (r: Result<(), ModifyError>)
    ensures
        extends(old(output)@, final(output)@),
        match (r, paced(old(table)@, flow, packet@, gap as int)) {
            (Ok(_), Ok((t, q))) => final(table)@ == t && appended(old(output)@, final(output)@)
                == seq![q],
            (Err(e), Err(f)) => e == f,
            _ => false,
        },
{
    assert(output@.take(output@.len() as int) =~= output@);
    let next = match table.get(&flow) {
        Some(n) => *n,
        None => packet.timestamp,
    };
    let departure = if next >= packet.timestamp {
        next
    } else {
        packet.timestamp
    };
    match add_durations(departure, gap) {
        Some(following) => {
            table.insert(flow, following);
            let mut p = packet;
            p.timestamp = departure;
            pass_through(p, output);
            Ok(())
        },
        None => Err(ModifyError::DurationOverflow),
    }
}

/// Spaces the packets of each flow at least `delay_per_packet` apart.
pub struct PacketPacingDelay {
    /// The least time between two departures of one flow, in nanoseconds.
    pub delay_per_packet: u128,
    /// Each flow's next departure time.
    pub next_departure: FlowTable<u128>,
}

impl PacketPacingDelay {
    /// Each flow's next departure time.
    pub open spec fn departures(&self) -> Map<FlowKey, u128> {
        self.next_departure@
    }

    /// Pacing with no flow seen yet.
    pub fn new(delay_per_packet: u128) -> (r: Self)
        ensures
            r.delay_per_packet == delay_per_packet,
            r.departures() == Map::<FlowKey, u128>::empty(),
    {
        PacketPacingDelay { delay_per_packet, next_departure: FlowTable::new() }
    }
}

impl Modifier for PacketPacingDelay {
    open spec fn refusal(&self, packet: PacketView) -> Option<ModifyError> {
        None
    }

    fn refuses(&self, packet: &Packet) -> (r: Option<ModifyError>) {
        None
    }

    /// A packet with no flow key (read from its bytes) passes unchanged;
    /// others are scheduled on their flow.
    open spec fn outcome(
        &self,
        packet: PacketView,
        result: Result<(Self, Seq<PacketView>), ModifyError>,
    ) -> bool {
        match flow_key_of(packet.data) {
            None => result == Ok::<(Self, Seq<PacketView>), ModifyError>((*self, seq![packet])),
            Some(flow) => match (
                result,
                paced(self.departures(), flow, packet, self.delay_per_packet as int),
            ) {
                (Ok((next, out)), Ok((t, q))) => next.delay_per_packet == self.delay_per_packet
                    && next.departures() == t && out == seq![q],
                (Err(e), Err(f)) => e == f,
                _ => false,
            },
        }
    }

    fn modify(&mut self, packet: Packet, output: &mut Vec<Packet>) -> (r: Result<(), ModifyError>) {
        match extract_flow_key(&packet.data) {
            None => {
                pass_through(packet, output);
                Ok(())
            },
            Some(flow) => schedule(
                &mut self.next_departure,
                flow,
                packet,
                self.delay_per_packet,
                output,
            ),
        }
    }
}

/// Computes how long a packet takes to send at a given rate; the rate limit
/// delegates this to its user, since the computation is in floating point.
pub trait TransmissionTimer {
    /// The time to send `bytes` bytes at `bytes_per_second`, in nanoseconds:
    /// a value fixed by the timer and the two arguments.
    spec fn time(&self, bytes: usize, bytes_per_second: u64) -> u128;

    /// The time to send `bytes` bytes at `bytes_per_second` (above zero), in
    /// nanoseconds.
    fn transmission_time(&self, bytes: usize, bytes_per_second: u64) -> (r: u128)
        requires
            bytes_per_second > 0,
        ensures
            r == self.time(bytes, bytes_per_second),
    ;
}

/// Spaces the packets of each flow by the time each takes to send at
/// `bytes_per_second`.
pub struct FlowRateLimitDelay<T> {
    /// The rate of each flow.
    pub bytes_per_second: u64,
    /// Each flow's next departure time.
    pub next_departure: FlowTable<u128>,
    /// Where transmission times come from.
    pub timer: T,
}

impl<T: TransmissionTimer> FlowRateLimitDelay<T> {
    /// Each flow's next departure time.
    pub open spec fn departures(&self) -> Map<FlowKey, u128> {
        self.next_departure@
    }

    /// A rate limit with no flow seen yet.
    pub fn new(bytes_per_second: u64, timer: T) -> (r: Self)
        ensures
            r.bytes_per_second == bytes_per_second,
            r.departures() == Map::<FlowKey, u128>::empty(),
            r.timer == timer,
    {
        FlowRateLimitDelay { bytes_per_second, next_departure: FlowTable::new(), timer }
    }

    /// Schedules `packet`, of `flow`, given the time it takes to send.
    pub fn release(
        &mut self,
        packet: Packet,
        flow: FlowKey,
        transmission_time: u128,
        output: &mut Vec<Packet>,
    ) -> (r: Result<(), ModifyError>)
        ensures
            extends(old(output)@, final(output)@),
            final(self).bytes_per_second == old(self).bytes_per_second,
            final(self).timer == old(self).timer,
            match (r, paced(old(self).departures(), flow, packet@, transmission_time as int)) {
                (Ok(_), Ok((t, q))) => final(self).departures() == t && appended(
                    old(output)@,
                    final(output)@,
                ) == seq![q],
                (Err(e), Err(f)) => e == f,
                _ => false,
            },
    {
        schedule(&mut self.next_departure, flow, packet, transmission_time, output)
    }
}

impl<T: TransmissionTimer> Modifier for FlowRateLimitDelay<T> {
    /// A packet of a flow meets a rate of zero.
    open spec fn refusal(&self, packet: PacketView) -> Option<ModifyError> {
        if flow_key_of(packet.data) is Some && self.bytes_per_second == 0 {
            Some(ModifyError::ZeroRate)
        } else {
            None
        }
    }

    fn refuses(&self, packet: &Packet) -> (r: Option<ModifyError>) {
        if self.bytes_per_second == 0 && extract_flow_key(&packet.data).is_some() {
            Some(ModifyError::ZeroRate)
        } else {
            None
        }
    }

    /// A packet with no flow key (read from its bytes) passes unchanged;
    /// others are scheduled on their flow with a gap of the time the timer
    /// gives for the packet's length at the rate.
    open spec fn outcome(
        &self,
        packet: PacketView,
        result: Result<(Self, Seq<PacketView>), ModifyError>,
    ) -> bool {
        match flow_key_of(packet.data) {
            None => result == Ok::<(Self, Seq<PacketView>), ModifyError>((*self, seq![packet])),
            Some(flow) => match (
                result,
                paced(
                    self.departures(),
                    flow,
                    packet,
                    self.timer.time(packet.data.len() as usize, self.bytes_per_second) as int,
                ),
            ) {
                (Ok((next, out)), Ok((t, q))) => next.bytes_per_second == self.bytes_per_second
                    && next.timer == self.timer && next.departures() == t && out == seq![q],
                (Err(e), Err(f)) => e == f,
                _ => false,
            },
        }
    }

    fn modify(&mut self, packet: Packet, output: &mut Vec<Packet>) -> (r: Result<(), ModifyError>) {
        match extract_flow_key(&packet.data) {
            None => {
                pass_through(packet, output);
                Ok(())
            },
            Some(flow) => {
                let gap = self.timer.transmission_time(packet.data.len(), self.bytes_per_second);
                self.release(packet, flow, gap, output)
            },
        }
    }
}


/// Pacing keeps each flow's packets at least the pacing delay apart: a packet
/// of a flow leaves no earlier than it arrived, and the next packet of the
/// same flow leaves at least `delay_per_packet` after it.
pub proof fn lemma_pacing_spacing(
    m: PacketPacingDelay,
    p1: PacketView,
    m1: PacketPacingDelay,
    q1: PacketView,
    p2: PacketView,
    m2: PacketPacingDelay,
    q2: PacketView,
)
    requires
        flow_key_of(p1.data) is Some,
        flow_key_of(p2.data) == flow_key_of(p1.data),
        m.outcome(p1, Ok((m1, seq![q1]))),
        m1.outcome(p2, Ok((m2, seq![q2]))),
    ensures
        q1.timestamp >= p1.timestamp,
        q2.timestamp >= p2.timestamp,
        q2.timestamp >= q1.timestamp + m.delay_per_packet,
{
    let f = flow_key_of(p1.data)->Some_0;
    let r1 = paced(m.departures(), f, p1, m.delay_per_packet as int);
    assert(r1 is Ok);
    assert(seq![q1] == seq![r1->Ok_0.1]);
    assert(q1 == seq![q1][0]);
    assert(m1.departures().contains_key(f));
    let r2 = paced(m1.departures(), f, p2, m1.delay_per_packet as int);
    assert(r2 is Ok);
    assert(seq![q2] == seq![r2->Ok_0.1]);
    assert(q2 == seq![q2][0]);
}

/// A rate limit never sends a packet of a flow before the one of the same
/// flow that came before it, nor before it arrived.
pub proof fn lemma_rate_limit_order<T: TransmissionTimer>(
    m: FlowRateLimitDelay<T>,
    p1: PacketView,
    m1: FlowRateLimitDelay<T>,
    q1: PacketView,
    p2: PacketView,
    m2: FlowRateLimitDelay<T>,
    q2: PacketView,
)
    requires
        flow_key_of(p1.data) is Some,
        flow_key_of(p2.data) == flow_key_of(p1.data),
        m.outcome(p1, Ok((m1, seq![q1]))),
        m1.outcome(p2, Ok((m2, seq![q2]))),
    ensures
        q1.timestamp >= p1.timestamp,
        q2.timestamp >= p2.timestamp,
        q2.timestamp >= q1.timestamp,
{
    let f = flow_key_of(p1.data)->Some_0;
    let r1 = paced(m.departures(), f, p1, m.timer.time(p1.data.len() as usize, m.bytes_per_second) as int);
    assert(r1 is Ok);
    assert(seq![q1] == seq![r1->Ok_0.1]);
    assert(q1 == seq![q1][0]);
    assert(m1.departures().contains_key(f));
    let r2 = paced(m1.departures(), f, p2, m1.timer.time(p2.data.len() as usize, m1.bytes_per_second) as int);
    assert(r2 is Ok);
    assert(seq![q2] == seq![r2->Ok_0.1]);
    assert(q2 == seq![q2][0]);
}


/// Pacing a packet of a flow: it leaves when the flow's next departure falls
/// due, or when it arrives if that is later (or if the flow is new), and the
/// flow's next departure becomes exactly its departure plus
/// `delay_per_packet`; no other flow's schedule changes.
pub proof fn lemma_pacing_next_departure(
    m: PacketPacingDelay,
    p: PacketView,
    m1: PacketPacingDelay,
    out: Seq<PacketView>,
)
    requires
        flow_key_of(p.data) is Some,
        m.outcome(p, Ok((m1, out))),
    ensures
        ({
            let f = flow_key_of(p.data)->Some_0;
            let due = if m.departures().contains_key(f) && m.departures()[f] > p.timestamp {
                m.departures()[f]
            } else {
                p.timestamp
            };
            &&& out.len() == 1
            &&& out[0].timestamp == due
            &&& out[0].data == p.data
            &&& out[0].flow_key == p.flow_key
            &&& m1.delay_per_packet == m.delay_per_packet
            &&& m1.departures().contains_key(f)
            &&& m1.departures()[f] == due + m.delay_per_packet
            &&& forall|g: FlowKey| g != f ==> #[trigger] m1.departures().get(g) == m.departures().get(g)
        }),
{
    let f = flow_key_of(p.data)->Some_0;
    let r = paced(m.departures(), f, p, m.delay_per_packet as int);
    assert(r is Ok);
    assert(out == seq![r->Ok_0.1]);
    assert forall|g: FlowKey| g != f implies #[trigger] m1.departures().get(g) == m.departures().get(g) by {
        assert(m1.departures() == m.departures().insert(f, r->Ok_0.0[f]));
    }
}

/// Two packets of one flow in a row: the second leaves exactly
/// `delay_per_packet` after the first where it arrives by then, and when it
/// arrives where it arrives later; the wait of the first is not carried over.
pub proof fn lemma_pacing_follows_exactly(
    m: PacketPacingDelay,
    p1: PacketView,
    m1: PacketPacingDelay,
    q1: PacketView,
    p2: PacketView,
    m2: PacketPacingDelay,
    q2: PacketView,
)
    requires
        flow_key_of(p1.data) is Some,
        flow_key_of(p2.data) == flow_key_of(p1.data),
        m.outcome(p1, Ok((m1, seq![q1]))),
        m1.outcome(p2, Ok((m2, seq![q2]))),
    ensures
        p2.timestamp <= q1.timestamp + m.delay_per_packet ==> q2.timestamp == q1.timestamp
            + m.delay_per_packet,
        p2.timestamp > q1.timestamp + m.delay_per_packet ==> q2.timestamp == p2.timestamp,
{
    lemma_pacing_next_departure(m, p1, m1, seq![q1]);
    lemma_pacing_next_departure(m1, p2, m2, seq![q2]);
    assert(seq![q1][0] == q1);
    assert(seq![q2][0] == q2);
}

/// Rate-limiting a packet of a flow: it leaves when the flow's next departure
/// falls due, or when it arrives if that is later (or if the flow is new),
/// and the flow's next departure becomes exactly its departure plus the time
/// the timer gives for the packet's length at the rate; no other flow's
/// schedule changes.
pub proof fn lemma_rate_limit_next_departure<T: TransmissionTimer>(
    m: FlowRateLimitDelay<T>,
    p: PacketView,
    m1: FlowRateLimitDelay<T>,
    out: Seq<PacketView>,
)
    requires
        flow_key_of(p.data) is Some,
        m.outcome(p, Ok((m1, out))),
    ensures
        ({
            let f = flow_key_of(p.data)->Some_0;
            let due = if m.departures().contains_key(f) && m.departures()[f] > p.timestamp {
                m.departures()[f]
            } else {
                p.timestamp
            };
            &&& out.len() == 1
            &&& out[0].timestamp == due
            &&& out[0].data == p.data
            &&& out[0].flow_key == p.flow_key
            &&& m1.bytes_per_second == m.bytes_per_second
            &&& m1.timer == m.timer
            &&& m1.departures().contains_key(f)
            &&& m1.departures()[f] == due + m.timer.time(p.data.len() as usize, m.bytes_per_second)
            &&& forall|g: FlowKey| g != f ==> #[trigger] m1.departures().get(g) == m.departures().get(g)
        }),
{
    let f = flow_key_of(p.data)->Some_0;
    let r = paced(m.departures(), f, p, m.timer.time(p.data.len() as usize, m.bytes_per_second) as int);
    assert(r is Ok);
    assert(out == seq![r->Ok_0.1]);
    assert forall|g: FlowKey| g != f implies #[trigger] m1.departures().get(g) == m.departures().get(g) by {
        assert(m1.departures() == m.departures().insert(f, r->Ok_0.0[f]));
    }
}

/// A burst delay, for a packet at `t` nanoseconds whose whole milliseconds
/// `m = t / 1 ms` and cycle of `c` whole milliseconds fit in 64 bits: where
/// `m mod c` milliseconds is below `active`, the packet passes unchanged;
/// otherwise it leaves at the start of the next cycle, `(m div c) * c` ms
/// plus the cycle plus the packet's part of a millisecond (with a cycle of
/// whole milliseconds, `(m div c + 1) * c` ms plus that part).
pub proof fn lemma_burst_position(b: BurstDelay, v: PacketView, b2: BurstDelay, out: Seq<PacketView>)
    requires
        b.outcome(v, Ok((b2, out))),
        (v.timestamp as int) / 1_000_000 <= u64::MAX,
        (b.active + b.pause) / 1_000_000 <= u64::MAX,
    ensures
        ({
            let t = v.timestamp as int;
            let cycle = b.active + b.pause;
            let c = cycle / 1_000_000;
            let ms = t / 1_000_000;
            let r = ms % c;
            &&& b2 == b
            &&& c > 0
            &&& out.len() == 1
            &&& out[0].data == v.data
            &&& out[0].flow_key == v.flow_key
            &&& r * 1_000_000 < b.active ==> out[0] == v
            &&& r * 1_000_000 >= b.active ==> out[0].timestamp == (ms / c) * c * 1_000_000 + cycle
                + t % 1_000_000
            &&& r * 1_000_000 >= b.active && cycle % 1_000_000 == 0 ==> out[0].timestamp == (ms / c
                + 1) * c * 1_000_000 + t % 1_000_000
        }),
{
    let t = v.timestamp as int;
    let cycle = b.active + b.pause;
    let c = cycle / 1_000_000;
    let ms = t / 1_000_000;
    assert(whole_millis_u64(v.timestamp) == ms);
    assert(whole_millis_u64((b.active + b.pause) as u128) == c);
    let r = ms % c;
    let q = ms / c;
    vstd::arithmetic::div_mod::lemma_fundamental_div_mod(ms, c);
    vstd::arithmetic::div_mod::lemma_fundamental_div_mod(t, 1_000_000);
    vstd::arithmetic::div_mod::lemma_fundamental_div_mod(cycle, 1_000_000);
    assert(t == (q * c + r) * 1_000_000 + t % 1_000_000);
    assert((q * c + r) * 1_000_000 == q * c * 1_000_000 + r * 1_000_000) by (nonlinear_arith);
    assert((q + 1) * c * 1_000_000 == q * c * 1_000_000 + c * 1_000_000) by (nonlinear_arith);
}


/// A jitter delay holds each packet back by a whole number of milliseconds
/// between the whole milliseconds of `min` and those of `max` (for bounds
/// whose whole milliseconds fit in 64 bits), keeping its bytes, flow key and
/// bounds.
pub proof fn lemma_jitter_within_bounds(j: JitterDelay, v: PacketView, j2: JitterDelay, out: Seq<PacketView>)
    requires
        j.outcome(v, Ok((j2, out))),
        (j.min as int) / 1_000_000 <= u64::MAX,
        (j.max as int) / 1_000_000 <= u64::MAX,
    ensures
        j2.min == j.min,
        j2.max == j.max,
        out.len() == 1,
        out[0].data == v.data,
        out[0].flow_key == v.flow_key,
        (out[0].timestamp - v.timestamp) % 1_000_000 == 0,
        ((j.min as int) / 1_000_000) * 1_000_000 <= out[0].timestamp - v.timestamp,
        out[0].timestamp - v.timestamp <= ((j.max as int) / 1_000_000) * 1_000_000,
{
    let ms = choose|ms: u64|
        #![trigger millis(ms as int)]
        whole_millis_u64(j.min) <= ms <= whole_millis_u64(j.max) && match (
            Ok::<(JitterDelay, Seq<PacketView>), ModifyError>((j2, out)),
            delayed(v, millis(ms as int)),
        ) {
            (Ok((next, o)), Ok(expected)) => next.min == j.min && next.max == j.max && o
                == expected,
            (Err(e), Err(f)) => e == f,
            _ => false,
        };
    assert(delayed(v, millis(ms as int)) is Ok);
    assert(whole_millis_u64(j.min) == (j.min as int) / 1_000_000);
    assert(whole_millis_u64(j.max) == (j.max as int) / 1_000_000);
    assert(out[0].timestamp - v.timestamp == ms * 1_000_000);
    vstd::arithmetic::div_mod::lemma_mod_multiples_basic(ms as int, 1_000_000);
    assert((j.min as int) / 1_000_000 * 1_000_000 <= ms * 1_000_000) by (nonlinear_arith)
        requires (j.min as int) / 1_000_000 <= ms;
    assert(ms * 1_000_000 <= (j.max as int) / 1_000_000 * 1_000_000) by (nonlinear_arith)
        requires ms <= (j.max as int) / 1_000_000;
}

} // verus!
