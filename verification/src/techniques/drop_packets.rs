//! Dropping packets.
use vstd::prelude::*;
use crate::packet::{Packet, PacketView};
use crate::techniques::{Modifier, ModifyError, feeds};
use crate::techniques::delays::pass_through;

verus! {

/// Drops every `n`th packet: the counter counts the packets seen, and a
/// packet is dropped when the count after it is a multiple of `n` (never, for
/// an `n` of zero, as zero is the only multiple of zero).
pub struct DropEveryNth {
    pub n: u64,
    pub counter: u64,
}

/// `x` is a multiple of `n` (`u64::is_multiple_of`).
pub open spec fn is_multiple(x: u64, n: u64) -> bool {
    if n == 0 {
        x == 0
    } else {
        x % n == 0
    }
}

/// What dropping makes of a packet, given the counter before it.
pub open spec fn drop_outcome(n: u64, counter: u64, v: PacketView) -> Result<
    (DropEveryNth, Seq<PacketView>),
    ModifyError,
> {
    if counter == u64::MAX {
        Err(ModifyError::CounterOverflow)
    } else {
        let c = (counter + 1) as u64;
        Ok((
            DropEveryNth { n, counter: c },
            if is_multiple(c, n) {
                Seq::empty()
            } else {
                seq![v]
            },
        ))
    }
}

impl Modifier for DropEveryNth {
    open spec fn refusal(&self, packet: PacketView) -> Option<ModifyError> {
        None
    }

    fn refuses(&self, packet: &Packet) -> (r: Option<ModifyError>) {
        None
    }

    open spec fn outcome(
        &self,
        packet: PacketView,
        result: Result<(Self, Seq<PacketView>), ModifyError>,
    ) -> bool {
        result == drop_outcome(self.n, self.counter, packet)
    }

    fn modify(&mut self, packet: Packet, output: &mut Vec<Packet>) -> (r: Result<(), ModifyError>) {
        assert(output@.take(output@.len() as int) =~= output@);
        if self.counter == u64::MAX {
            return Err(ModifyError::CounterOverflow);
        }
        self.counter = self.counter + 1;
        let multiple = if self.n == 0 {
            self.counter == 0
        } else {
            self.counter % self.n == 0
        };
        if !multiple {
            pass_through(packet, output);
        } else {
            assert(crate::techniques::appended(output@, output@) =~= Seq::<PacketView>::empty());
        }
        Ok(())
    }
}


/// The whole quotient of `x` by `n` grows by one exactly at multiples of `n`.
proof fn lemma_quotient_step(x: int, n: int)
    requires
        x >= 1,
        n > 0,
    ensures
        x % n == 0 ==> x / n == (x - 1) / n + 1,
        x % n != 0 ==> x / n == (x - 1) / n,
{
    assert(x == n * (x / n) + x % n) by (nonlinear_arith)
        requires
            n > 0,
    ;
    assert(x - 1 == n * ((x - 1) / n) + (x - 1) % n) by (nonlinear_arith)
        requires
            n > 0,
    ;
    assert(0 <= x % n < n && 0 <= (x - 1) % n < n) by (nonlinear_arith)
        requires
            n > 0,
    ;
    if x % n == 0 {
        assert(x / n == (x - 1) / n + 1) by (nonlinear_arith)
            requires
                n > 0,
                x == n * (x / n),
                x - 1 == n * ((x - 1) / n) + (x - 1) % n,
                0 <= (x - 1) % n < n,
        ;
    } else {
        assert(x / n == (x - 1) / n) by (nonlinear_arith)
            requires
                n > 0,
                x == n * (x / n) + x % n,
                0 < x % n < n,
                x - 1 == n * ((x - 1) / n) + (x - 1) % n,
                0 <= (x - 1) % n < n,
        ;
    }
}

/// Fed a run of packets, dropping lets through all but those that bring the
/// count to a multiple of `n`: of `len` packets fed from count `c`,
/// `(c + len) / n - c / n` are dropped, and the count ends at `c + len`.
pub proof fn lemma_drop_every_nth_count(
    m: DropEveryNth,
    input: Seq<PacketView>,
    m2: DropEveryNth,
    out: Seq<PacketView>,
)
    requires
        feeds(m, input, m2, out),
        m.n > 0,
    ensures
        m2.n == m.n,
        m2.counter == m.counter + input.len(),
        out.len() == input.len() - ((m.counter + input.len()) / (m.n as int) - (m.counter as int)
            / (m.n as int)),
    decreases input.len(),
{
    if input.len() > 0 {
        let (mid, k) = choose|mid: DropEveryNth, k: int|
            #![trigger mid.outcome(input.last(), Ok((m2, out.skip(k))))]
            0 <= k <= out.len() && feeds(m, input.drop_last(), mid, out.take(k)) && mid.outcome(
                input.last(),
                Ok((m2, out.skip(k))),
            );
        lemma_drop_every_nth_count(m, input.drop_last(), mid, out.take(k));
        let x = m.counter + input.len();
        lemma_quotient_step(x, m.n as int);
        assert(out.len() == k + out.skip(k).len());
    }
}

} // verus!
