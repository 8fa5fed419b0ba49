//! The per-tick decisions of the PWM generator.
//!
//! A PWM cycle is cut into `ticks` equal ticks. At the start of every cycle
//! the generator takes a fresh copy of the channel bitmask and of the duty
//! (as a number of ticks), then, tick by tick, writes the bitmask to the
//! output byte while the position in the cycle is below the duty and `0`
//! after it. The stop request is only honoured at a cycle boundary, so a
//! cycle is never cut short.
//!
//! The thread that runs the loop (timing, locking, writing the output) asks
//! [`PwmCtrl::step`] what to do at every tick.

use vstd::prelude::*;

verus! {

/// What the generator does at one tick.
#[derive(Debug, Clone, Copy, PartialEq, Eq, Structural)]
pub enum PwmAction {
    /// The stop flag was set at a cycle boundary: leave the loop.
    Stop,
    /// Write this byte to the output for the duration of the tick.
    Write(u8),
}

/// The abstract state of the generator.
pub struct PwmModel {
    /// Ticks in one cycle.
    pub ticks: nat,
    /// Ticks of the current cycle already emitted.
    pub pos: nat,
    /// Ticks of the current cycle during which the bitmask is output.
    pub duty: nat,
    /// The bitmask taken at the start of the current cycle.
    pub mask: u8,
}

/// The byte output at position `pos` of a cycle with this bitmask and duty.
pub open spec fn pwm_level(mask: u8, duty: nat, pos: nat) -> u8 {
    if pos < duty {
        mask
    } else {
        0
    }
}

impl PwmModel {
    /// The state can be held by a [`PwmCtrl`].
    pub open spec fn wf(self) -> bool {
        &&& 0 < self.ticks <= u32::MAX
        &&& self.pos <= self.ticks
        &&& self.duty <= u32::MAX
    }

    /// The current cycle is over: the next tick starts a new one.
    pub open spec fn at_cycle_end(self) -> bool {
        self.pos == self.ticks
    }
}

/// One tick of the generator.
///
/// At a cycle boundary the stop flag `end` is looked at first: when it is set
/// the generator stops and its state is unchanged. Otherwise a new cycle
/// starts with `mask` and `duty`, and its first tick is emitted. Inside a
/// cycle `end`, `mask` and `duty` are not looked at.
pub open spec fn model_step(m: PwmModel, end: bool, mask: u8, duty: nat) -> (PwmModel, PwmAction) {
    if m.pos == m.ticks {
        if end {
            (m, PwmAction::Stop)
        } else {
            (
                PwmModel { ticks: m.ticks, pos: 1, duty: duty, mask: mask },
                PwmAction::Write(pwm_level(mask, duty, 0)),
            )
        }
    } else {
        (
            PwmModel { ticks: m.ticks, pos: m.pos + 1, duty: m.duty, mask: m.mask },
            PwmAction::Write(pwm_level(m.mask, m.duty, m.pos)),
        )
    }
}

/// `n` ticks of the generator, each given the same stop flag, bitmask and
/// duty; the final state and the actions in order.
pub open spec fn model_run(m: PwmModel, end: bool, mask: u8, duty: nat, n: nat) -> (
    PwmModel,
    Seq<PwmAction>,
)
    decreases n,
{
    if n == 0 {
        (m, Seq::empty())
    } else {
        let (m1, a) = model_step(m, end, mask, duty);
        let (mf, acts) = model_run(m1, end, mask, duty, (n - 1) as nat);
        (mf, seq![a] + acts)
    }
}

/// The outputs of one full cycle with this bitmask and duty.
pub open spec fn cycle_pattern(ticks: nat, mask: u8, duty: nat) -> Seq<PwmAction> {
    Seq::new(ticks, |k: int| PwmAction::Write(pwm_level(mask, duty, k as nat)))
}

/// The number of ticks in one cycle: the cycle period divided by the tick
/// period, cut to 32 bits.
pub open spec fn spec_cycle_ticks(cycle_period_ns: u128, tick_period_ns: u128) -> nat {
    ((cycle_period_ns / tick_period_ns) % 0x1_0000_0000) as nat
}

/// The number of ticks in one cycle of `cycle_period_ns` nanoseconds when a
/// tick lasts `tick_period_ns` nanoseconds; the quotient is cut to its low
/// 32 bits, as a cast to `u32` does.
pub fn cycle_ticks(cycle_period_ns: u128, tick_period_ns: u128) -> (t: u32)
    requires
        tick_period_ns > 0,
    ensures
        t == spec_cycle_ticks(cycle_period_ns, tick_period_ns),
{
    let q: u128 = cycle_period_ns / tick_period_ns;
    assert((q as u32) as int == q % 0x1_0000_0000) by (bit_vector);
    q as u32
}

/// The state of the PWM generator loop.
pub struct PwmCtrl {
    ticks: u32,
    i: u32,
    duty_sync_ticks: u32,
    mask_sync: u8,
}

impl View for PwmCtrl {
    type V = PwmModel;

    closed spec fn view(&self) -> PwmModel {
        PwmModel {
            ticks: self.ticks as nat,
            pos: self.i as nat,
            duty: self.duty_sync_ticks as nat,
            mask: self.mask_sync,
        }
    }
}

impl PwmCtrl {
    /// A generator with `ticks` ticks per cycle, placed at a cycle boundary so
    /// that its first tick reads the stop flag, the bitmask and the duty.
    pub fn new(ticks: u32) -> (s: Self)
        requires
            ticks > 0,
        ensures
            s@ == (PwmModel { ticks: ticks as nat, pos: ticks as nat, duty: 0, mask: 0 }),
            s@.wf(),
            s@.at_cycle_end(),
    {
        PwmCtrl { ticks, i: ticks, duty_sync_ticks: 0, mask_sync: 0 }
    }

    /// A generator for a cycle of `cycle_period_ns` nanoseconds cut into
    /// ticks of `tick_period_ns` nanoseconds; `None` when the tick period is
    /// zero or when the cycle holds no tick (see [`cycle_ticks`]).
    pub fn from_periods(cycle_period_ns: u128, tick_period_ns: u128) -> (r: Option<Self>)
        ensures
            tick_period_ns == 0 ==> r is None,
            tick_period_ns > 0 ==> {
                let t = spec_cycle_ticks(cycle_period_ns, tick_period_ns);
                &&& (r is Some <==> t > 0)
                &&& r is Some ==> r->0@ == (PwmModel { ticks: t, pos: t, duty: 0, mask: 0 })
            },
    {
        if tick_period_ns == 0 {
            return None;
        }
        let t = cycle_ticks(cycle_period_ns, tick_period_ns);
        if t == 0 {
            None
        } else {
            Some(PwmCtrl::new(t))
        }
    }

    /// Ticks in one cycle.
    pub fn ticks(&self) -> (t: u32)
        ensures
            t == self@.ticks,
    {
        self.ticks
    }

    /// Ticks of the current cycle already emitted.
    pub fn position(&self) -> (p: u32)
        ensures
            p == self@.pos,
    {
        self.i
    }

    /// Duty, in ticks, of the current cycle.
    pub fn duty_ticks(&self) -> (d: u32)
        ensures
            d == self@.duty,
    {
        self.duty_sync_ticks
    }

    /// Bitmask of the current cycle.
    pub fn mask(&self) -> (m: u8)
        ensures
            m == self@.mask,
    {
        self.mask_sync
    }

    /// The next tick starts a new cycle, so [`PwmCtrl::step`] will look at
    /// the stop flag, the bitmask and the duty it is given.
    pub fn needs_sync(&self) -> (b: bool)
        ensures
            b == self@.at_cycle_end(),
    {
        self.i == self.ticks
    }

    /// Decides one tick (see [`model_step`]): at a cycle boundary, stop when
    /// `end` is set, else start a cycle with `mask` and `duty_ticks`; then
    /// emit the byte of the current position and move one tick on.
    pub fn step(&mut self, end: bool, mask: u8, duty_ticks: u32) -> (a: PwmAction)
        requires
            old(self)@.wf(),
        ensures
            (final(self)@, a) == model_step(old(self)@, end, mask, duty_ticks as nat),
            final(self)@.wf(),
    {
        if self.i == self.ticks {
            if end {
                return PwmAction::Stop;
            }
            self.i = 0;
            self.mask_sync = mask;
            self.duty_sync_ticks = duty_ticks;
        }
        let out: u8 = if self.i < self.duty_sync_ticks {
            self.mask_sync
        } else {
            0
        };
        self.i = self.i + 1;
        PwmAction::Write(out)
    }
}

/// Every tick keeps the generator state well formed.
pub proof fn law_step_keeps_wf(m: PwmModel, end: bool, mask: u8, duty: nat)
    requires
        m.wf(),
        duty <= u32::MAX,
    ensures
        model_step(m, end, mask, duty).0.wf(),
{
}

/// Inside a cycle the stop flag, the bitmask and the duty handed to a tick
/// make no difference: the values taken at the start of the cycle are used.
pub proof fn law_inputs_ignored_inside_cycle(
    m: PwmModel,
    end1: bool,
    mask1: u8,
    duty1: nat,
    end2: bool,
    mask2: u8,
    duty2: nat,
)
    requires
        m.wf(),
        !m.at_cycle_end(),
    ensures
        model_step(m, end1, mask1, duty1) == model_step(m, end2, mask2, duty2),
{
}

/// A set stop flag stops the generator exactly at a cycle boundary, and
/// stopping leaves the state as it was.
pub proof fn law_stop_only_at_cycle_end(m: PwmModel, mask: u8, duty: nat)
    requires
        m.wf(),
    ensures
        (model_step(m, true, mask, duty).1 == PwmAction::Stop) <==> m.at_cycle_end(),
        model_step(m, true, mask, duty).1 == PwmAction::Stop ==> model_step(m, true, mask, duty).0
            == m,
{
}

/// Every byte written is either the bitmask of its cycle or `0`.
pub proof fn law_output_is_mask_or_zero(m: PwmModel, end: bool, mask: u8, duty: nat)
    requires
        m.wf(),
    ensures
        ({
            let (m1, a) = model_step(m, end, mask, duty);
            a is Write ==> (a->Write_0 == m1.mask || a->Write_0 == 0)
        }),
{
}

/// From position `pos` of a cycle, the rest of the cycle outputs the tail of
/// the cycle pattern and ends at the cycle boundary.
proof fn lemma_rest_of_cycle(m: PwmModel, end: bool, mask: u8, duty: nat)
    requires
        m.wf(),
    ensures
        model_run(m, end, mask, duty, (m.ticks - m.pos) as nat).0 == (PwmModel {
            ticks: m.ticks,
            pos: m.ticks,
            duty: m.duty,
            mask: m.mask,
        }),
        model_run(m, end, mask, duty, (m.ticks - m.pos) as nat).1 =~= cycle_pattern(
            m.ticks,
            m.mask,
            m.duty,
        ).subrange(m.pos as int, m.ticks as int),
    decreases m.ticks - m.pos,
{
    if m.pos < m.ticks {
        let (m1, a) = model_step(m, end, mask, duty);
        lemma_rest_of_cycle(m1, end, mask, duty);
        assert((m.ticks - m.pos - 1) as nat == (m1.ticks - m1.pos) as nat);
    }
}

/// A full cycle: started at a boundary with the stop flag clear, the
/// generator outputs the bitmask for exactly the first `duty` ticks of the
/// cycle (all of them when `duty` is at least `ticks`) and `0` for the rest,
/// and after `ticks` ticks it is back at a boundary holding that bitmask and
/// duty. The inputs given inside the cycle do not matter
/// ([`law_inputs_ignored_inside_cycle`]).
pub proof fn law_full_cycle(m: PwmModel, mask: u8, duty: nat)
    requires
        m.wf(),
        m.at_cycle_end(),
        duty <= u32::MAX,
    ensures
        model_run(m, false, mask, duty, m.ticks).0 == (PwmModel {
            ticks: m.ticks,
            pos: m.ticks,
            duty: duty,
            mask: mask,
        }),
        model_run(m, false, mask, duty, m.ticks).1 == cycle_pattern(m.ticks, mask, duty),
{
    let (m1, a) = model_step(m, false, mask, duty);
    lemma_rest_of_cycle(m1, false, mask, duty);
    assert((m.ticks - 1) as nat == (m1.ticks - m1.pos) as nat);
    let rest = model_run(m1, false, mask, duty, (m.ticks - 1) as nat).1;
    assert(seq![a] + rest =~= cycle_pattern(m.ticks, mask, duty));
}

/// Each tick of a full cycle: started at a boundary with the stop flag clear,
/// bitmask `mask` and duty `duty`, the tick at position `k` of the cycle
/// writes `mask` when `k < duty` and `0` when `k >= duty`.
pub proof fn law_cycle_tick_levels(m: PwmModel, mask: u8, duty: nat, k: int)
    requires
        m.wf(),
        m.at_cycle_end(),
        duty <= u32::MAX,
        0 <= k < m.ticks,
    ensures
        model_run(m, false, mask, duty, m.ticks).1.len() == m.ticks,
        k < duty ==> model_run(m, false, mask, duty, m.ticks).1[k] == PwmAction::Write(mask),
        k >= duty ==> model_run(m, false, mask, duty, m.ticks).1[k] == PwmAction::Write(0),
{
    law_full_cycle(m, mask, duty);
}

/// The number of ticks in a cycle is the whole quotient of the cycle period by
/// the tick period, kept modulo 2^32: there is a quotient `q` with
/// `q * tick <= cycle < (q + 1) * tick` whose low 32 bits are the result, and
/// when the quotient fits in 32 bits the result is that quotient.
pub proof fn law_cycle_ticks_is_quotient(cycle_period_ns: u128, tick_period_ns: u128)
    requires
        tick_period_ns > 0,
    ensures
        exists|q: int|
            #![trigger q % 0x1_0000_0000]
            0 <= q && q * tick_period_ns <= cycle_period_ns < (q + 1) * tick_period_ns
                && spec_cycle_ticks(cycle_period_ns, tick_period_ns) == q % 0x1_0000_0000,
        cycle_period_ns < 0x1_0000_0000 * tick_period_ns ==> {
            let t = spec_cycle_ticks(cycle_period_ns, tick_period_ns);
            t * tick_period_ns <= cycle_period_ns < (t + 1) * tick_period_ns
        },
{
    let c = cycle_period_ns as int;
    let d = tick_period_ns as int;
    let q = c / d;
    assert(0 <= q && q * d <= c < (q + 1) * d) by (nonlinear_arith)
        requires
            d > 0,
            c >= 0,
            q == c / d,
    ;
    assert((cycle_period_ns / tick_period_ns) as int == q);
    assert(spec_cycle_ticks(cycle_period_ns, tick_period_ns) == q % 0x1_0000_0000);
    assert(0 <= q && q * tick_period_ns <= cycle_period_ns < (q + 1) * tick_period_ns
        && spec_cycle_ticks(cycle_period_ns, tick_period_ns) == q % 0x1_0000_0000);
    if c < 0x1_0000_0000 * d {
        assert(q < 0x1_0000_0000) by (nonlinear_arith)
            requires
                q * d <= c,
                c < 0x1_0000_0000 * d,
                d > 0,
        ;
    }
}

} // verus!
