//! BLE interval tick math for the scheduler (31.25 kHz timer, 32 us ticks).
use vstd::prelude::*;

verus! {

/// Timer ticks per 32 BLE units of 0.625 ms at 31.25 kHz.
pub const TICKS_PER_UNIT: u32 = 625;

/// Denominator for the fractional tick accumulator.
pub const TICKS_PER_UNIT_DENOM: u32 = 32;

/// Accumulates the fractional part of interval tick conversion so that
/// long schedules never drift.
pub struct IntervalAccum {
    whole: u32,
    frac_part: u32,
    frac: u32,
}

impl View for IntervalAccum {
    /// (ticks per 32 units, pending fraction in 1/32 ticks)
    type V = (nat, nat);

    closed spec fn view(&self) -> (nat, nat) {
        ((32 * self.whole + self.frac_part) as nat, self.frac as nat)
    }
}

/// Ticks and remaining fraction after converting the intervals `us`, one
/// after another, from an accumulator with `rate` ticks per 32 units and a
/// pending fraction `frac`.
pub open spec fn accum_run(rate: nat, frac: nat, us: Seq<u16>) -> (nat, nat)
    decreases us.len(),
{
    if us.len() == 0 {
        (0, frac)
    } else {
        let (t, f) = accum_run(rate, frac, us.drop_last());
        let x: nat = f + (us.last() as nat) * rate;
        (t + x / 32, x % 32)
    }
}

/// Sum of interval lengths.
pub open spec fn units_sum(us: Seq<u16>) -> nat
    decreases us.len(),
{
    if us.len() == 0 {
        0
    } else {
        units_sum(us.drop_last()) + (us.last() as nat)
    }
}

impl IntervalAccum {
    #[verifier::type_invariant]
    spec fn wf(self) -> bool {
        &&& self.whole <= 39
        &&& self.frac_part < 32
        &&& self.frac < 32
    }

    /// Create a fresh accumulator for 0.625 ms units (625/32 ticks each).
    pub fn new() -> (r: Self)
        ensures
            r@ == (625nat, 0nat),
    {
        IntervalAccum {
            whole: TICKS_PER_UNIT / TICKS_PER_UNIT_DENOM,
            frac_part: TICKS_PER_UNIT % TICKS_PER_UNIT_DENOM,
            frac: 0,
        }
    }

    /// Create an accumulator for 1.25 ms connection interval units
    /// (1250/32 ticks each).
    pub fn new_125ms() -> (r: Self)
        ensures
            r@ == (1250nat, 0nat),
    {
        IntervalAccum { whole: 39, frac_part: 2, frac: 0 }
    }

    /// Ticks to add for an interval of `units`: the whole ticks of the
    /// interval plus the pending fraction, with the remainder kept.
    pub fn next(&mut self, units: u16) -> (ticks: u32)
        ensures
            ticks == (old(self)@.1 + units * old(self)@.0) / 32,
            final(self)@.0 == old(self)@.0,
            final(self)@.1 == (old(self)@.1 + units * old(self)@.0) % 32,
    {
        proof {
            use_type_invariant(&*self);
        }
        let u = units as u32;
        assert(u * self.whole <= 65535 * 39) by (nonlinear_arith)
            requires
                u <= 65535,
                self.whole <= 39,
        ;
        assert(u * self.frac_part <= 65535 * 31) by (nonlinear_arith)
            requires
                u <= 65535,
                self.frac_part < 32,
        ;
        let base = u * self.whole;
        let f = self.frac + u * self.frac_part;
        let carry = f / TICKS_PER_UNIT_DENOM;
        let ghost w = self.whole;
        let ghost p = self.frac_part;
        let ghost f0 = self.frac;
        self.frac = f % TICKS_PER_UNIT_DENOM;
        assert((f0 + u * (32 * w + p)) / 32 == u * w + (f0 + u * p) / 32 && (f0 + u * (32 * w + p))
            % 32 == (f0 + u * p) % 32) by (nonlinear_arith)
            requires
                f0 >= 0,
                u >= 0,
                w >= 0,
                p >= 0,
        ;
        base + carry
    }
}

/// Converting intervals one after another never drifts: the ticks handed out
/// plus the pending fraction always equal the exact tick count of all the
/// intervals together.
pub proof fn lemma_accum_no_drift(rate: nat, frac: nat, us: Seq<u16>)
    ensures
        32 * accum_run(rate, frac, us).0 + accum_run(rate, frac, us).1 == frac + rate * units_sum(
            us,
        ),
        accum_run(rate, frac, us).1 < 32 || us.len() == 0,
    decreases us.len(),
{
    if us.len() > 0 {
        lemma_accum_no_drift(rate, frac, us.drop_last());
        let (t, f) = accum_run(rate, frac, us.drop_last());
        let x: nat = f + (us.last() as nat) * rate;
        let l: nat = us.last() as nat;
        let sp = units_sum(us.drop_last());
        assert(32 * (x / 32) + x % 32 == x) by (nonlinear_arith);
        assert(units_sum(us) == sp + l);
        assert(rate * (sp + l) == rate * sp + l * rate) by (nonlinear_arith);
        assert(32 * t + f == frac + rate * sp);
        assert(accum_run(rate, frac, us) == (t + x / 32, x % 32));
        assert(32 * (t + x / 32) == 32 * t + 32 * (x / 32));
        assert(32 * (t + x / 32) + x % 32 == frac + rate * units_sum(us));
    } else {
        assert(units_sum(us) == 0);
        assert(rate * 0 == 0);
    }
}

/// Ticks for a scan window of `units`, rounded up.
pub fn window_ticks(units: u16) -> (t: u32)
    ensures
        t == (units * 625 + 31) / 32,
{
    let x = units as u32 * TICKS_PER_UNIT;
    x / TICKS_PER_UNIT_DENOM + if x % TICKS_PER_UNIT_DENOM != 0 {
        1
    } else {
        0
    }
}

/// Ticks for a timeout of `micros` microseconds, rounded up.
pub fn timeout_ticks(micros: u32) -> (t: u32)
    ensures
        t == (micros + 31) / 32,
{
    micros / 32 + if micros % 32 != 0 {
        1
    } else {
        0
    }
}

} // verus!
