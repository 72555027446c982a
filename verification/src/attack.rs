//! Cooldown-gated damage emission: while an agent stands within strike
//! range of its target, a repeating cooldown advances with elapsed
//! time, and every completed period emits exactly one damage event.
//! Out of range the cooldown stalls — it neither resets nor errs — and
//! resumes when the agent is back in range. A missing target simply
//! stalls the cooldown as well.
//!
//! Durations are in milliseconds.

use vstd::prelude::*;

use vstd::arithmetic::div_mod::lemma_basic_div;
use vstd::arithmetic::div_mod::lemma_fundamental_div_mod;
use vstd::arithmetic::div_mod::lemma_hoist_over_denominator;
use vstd::arithmetic::div_mod::lemma_mod_bound;

use crate::geom::COORD_LIMIT;
use crate::geom::Vec3;

verus! {

/// Stock strike range, in milli-units: 7 world units.
pub const DEFAULT_STRIKE_RANGE: i64 = 7_000;

/// Stock attack period, in milliseconds: one strike every half second.
pub const DEFAULT_ATTACK_PERIOD_MS: u64 = 500;

/// Stock damage per strike, in milli-points: one point of health.
pub const DEFAULT_DAMAGE: i64 = 1_000;

/// A signed health change for one target entity; strikes carry a
/// negative delta.
#[derive(Clone, Copy, PartialEq, Eq, Structural, Debug)]
pub struct DamageEvent {
    pub target: u64,
    pub delta: i64,
}

/// A repeating attack cooldown: `remaining` counts down from `period`
/// and is reset to `period` each time it fully elapses. Created when
/// the agent becomes capable of attacking; destroyed with the agent.
#[derive(Clone, Copy, PartialEq, Eq, Structural, Debug)]
pub struct AttackCooldown {
    pub remaining: u64,
    pub period: u64,
}

/// How many periods a cooldown that had already consumed `consumed`
/// completes when `dt` more in-range time elapses.
pub open spec fn spec_events(consumed: int, dt: int, period: int) -> int {
    (consumed + dt) / period
}

/// The time consumed toward the next period after such a step.
pub open spec fn spec_carry(consumed: int, dt: int, period: int) -> int {
    (consumed + dt) % period
}

impl AttackCooldown {
    /// A positive period, never more of it consumed than its length.
    pub open spec fn wf(self) -> bool {
        1 <= self.remaining <= self.period
    }

    /// The in-range time consumed toward the next event.
    pub open spec fn spec_consumed(self) -> int {
        self.period - self.remaining
    }

    /// A fresh cooldown: one full period must elapse in range before
    /// the first event.
    pub fn new(period: u64) -> (c: AttackCooldown)
        requires
            1 <= period,
        ensures
            c.period == period,
            c.spec_consumed() == 0,
            c.wf(),
    {
        AttackCooldown { remaining: period, period }
    }

    /// Advances the cooldown by `dt` when in range and reports how many
    /// periods completed; out of range nothing advances and nothing is
    /// emitted.
    pub fn tick(&mut self, dt: u64, in_range: bool) -> (events: u64)
        requires
            old(self).wf(),
            dt <= u64::MAX - old(self).period,
        ensures
            final(self).wf(),
            final(self).period == old(self).period,
            !in_range ==> *final(self) == *old(self) && events == 0,
            in_range ==> events == spec_events(
                old(self).spec_consumed(),
                dt as int,
                old(self).period as int,
            ) && final(self).spec_consumed() == spec_carry(
                old(self).spec_consumed(),
                dt as int,
                old(self).period as int,
            ),
    {
        if !in_range {
            return 0;
        }
        let consumed = self.period - self.remaining;
        let total = consumed + dt;
        proof {
            lemma_mod_bound(total as int, self.period as int);
        }
        let events = total / self.period;
        let carry = total % self.period;
        self.remaining = self.period - carry;
        events
    }
}

/// Whether the agent stands within strike range of a tracked target.
pub open spec fn spec_in_strike_range(agent: Vec3, target: Option<(u64, Vec3)>, range: int) -> bool {
    match target {
        Option::None => false,
        Option::Some(t) => agent.spec_within(t.1, range),
    }
}

/// One frame of the attack scheduler for one agent: when the agent is
/// within `strike_range` of its target, ticks the cooldown by `dt` and
/// emits one `(target, -damage)` event per completed period; with the
/// target missing or out of range the cooldown stalls and nothing is
/// emitted.
pub fn schedule_attacks(
    cooldown: &mut AttackCooldown,
    agent: Vec3,
    target: Option<(u64, Vec3)>,
    strike_range: i64,
    damage: i64,
    dt: u64,
) -> (events: Vec<DamageEvent>)
    requires
        old(cooldown).wf(),
        agent.in_world(),
        match target {
            Option::Some(t) => t.1.in_world(),
            Option::None => true,
        },
        0 <= strike_range <= COORD_LIMIT,
        0 <= damage,
        dt <= u64::MAX - old(cooldown).period,
        spec_events(old(cooldown).spec_consumed(), dt as int, old(cooldown).period as int)
            <= usize::MAX,
    ensures
        final(cooldown).wf(),
        final(cooldown).period == old(cooldown).period,
        !spec_in_strike_range(agent, target, strike_range as int) ==> *final(cooldown) == *old(
            cooldown,
        ) && events@.len() == 0,
        spec_in_strike_range(agent, target, strike_range as int) ==> {
            &&& events@.len() == spec_events(
                old(cooldown).spec_consumed(),
                dt as int,
                old(cooldown).period as int,
            )
            &&& final(cooldown).spec_consumed() == spec_carry(
                old(cooldown).spec_consumed(),
                dt as int,
                old(cooldown).period as int,
            )
            &&& forall|k: int|
                0 <= k < events@.len() ==> (#[trigger] events@[k]).target == target->Some_0.0
                    && events@[k].delta == -damage
        },
{
    let (target_id, target_pos) = match target {
        Option::Some(t) => t,
        Option::None => {
            return Vec::new();
        },
    };
    if !agent.within(&target_pos, strike_range) {
        return Vec::new();
    }
    let n = cooldown.tick(dt, true);
    let count = n as usize;
    let mut events: Vec<DamageEvent> = Vec::new();
    let mut k: usize = 0;
    while k < count
        invariant
            k <= count,
            0 <= damage,
            events@.len() == k,
            forall|t: int|
                0 <= t < k ==> (#[trigger] events@[t]).target == target_id && events@[t].delta
                    == -damage,
        decreases count - k,
    {
        events.push(DamageEvent { target: target_id, delta: -damage });
        k += 1;
    }
    events
}

/// One simulated frame of in-range/out-of-range history: the elapsed
/// time and whether the agent stood within strike range.
pub open spec fn spec_run_events(period: int, consumed: int, frames: Seq<(int, bool)>) -> int
    decreases frames.len(),
{
    if frames.len() == 0 {
        0
    } else {
        let dt = frames[0].0;
        if frames[0].1 {
            spec_events(consumed, dt, period) + spec_run_events(
                period,
                spec_carry(consumed, dt, period),
                frames.drop_first(),
            )
        } else {
            spec_run_events(period, consumed, frames.drop_first())
        }
    }
}

/// The total elapsed time of the in-range frames of a run.
pub open spec fn spec_in_range_time(frames: Seq<(int, bool)>) -> int
    decreases frames.len(),
{
    if frames.len() == 0 {
        0
    } else if frames[0].1 {
        frames[0].0 + spec_in_range_time(frames.drop_first())
    } else {
        spec_in_range_time(frames.drop_first())
    }
}

/// However a run of frames is sliced, the events it emits are exactly
/// the completed periods of its total in-range time: a cooldown that
/// has already consumed `consumed` emits
/// `(consumed + in_range_time) / period` events over the whole run.
pub proof fn lemma_run_event_count(period: int, consumed: int, frames: Seq<(int, bool)>)
    requires
        0 < period,
        0 <= consumed < period,
        forall|k: int| 0 <= k < frames.len() ==> (#[trigger] frames[k]).0 >= 0,
    ensures
        spec_run_events(period, consumed, frames) == (consumed + spec_in_range_time(frames))
            / period,
    decreases frames.len(),
{
    if frames.len() == 0 {
        lemma_basic_div(consumed, period);
    } else {
        let rest = frames.drop_first();
        assert(forall|k: int| 0 <= k < rest.len() ==> (#[trigger] rest[k]).0 >= 0) by {
            assert(forall|k: int|
                0 <= k < rest.len() ==> rest[k] == (#[trigger] frames[k + 1]));
        }
        let dt = frames[0].0;
        if frames[0].1 {
            let a = consumed + dt;
            lemma_mod_bound(a, period);
            lemma_run_event_count(period, a % period, rest);
            let s = spec_in_range_time(rest);
            lemma_fundamental_div_mod(a, period);
            lemma_hoist_over_denominator(a % period + s, a / period, period as nat);
            vstd::arithmetic::mul::lemma_mul_is_commutative(a / period, period);
            assert(a % period + s + (a / period) * period == a + s);
        } else {
            lemma_run_event_count(period, consumed, rest);
        }
    }
}

/// Over a continuous in-range interval starting from a fresh cooldown,
/// exactly `floor(elapsed / period)` damage events are emitted, however
/// the interval is split into frames.
pub proof fn lemma_events_over_continuous_range(period: int, frames: Seq<(int, bool)>)
    requires
        0 < period,
        forall|k: int|
            0 <= k < frames.len() ==> (#[trigger] frames[k]).0 >= 0 && frames[k].1,
    ensures
        spec_run_events(period, 0, frames) == spec_in_range_time(frames) / period,
{
    lemma_run_event_count(period, 0, frames);
}

/// Over any run spent entirely out of range, no damage event at all is
/// emitted and the cooldown never advances.
pub proof fn lemma_no_events_out_of_range(period: int, consumed: int, frames: Seq<(int, bool)>)
    requires
        forall|k: int| 0 <= k < frames.len() ==> !(#[trigger] frames[k]).1,
    ensures
        spec_run_events(period, consumed, frames) == 0,
    decreases frames.len(),
{
    if frames.len() > 0 {
        let rest = frames.drop_first();
        assert(forall|k: int| 0 <= k < rest.len() ==> !(#[trigger] rest[k]).1) by {
            assert(forall|k: int|
                0 <= k < rest.len() ==> rest[k] == (#[trigger] frames[k + 1]));
        }
        lemma_no_events_out_of_range(period, consumed, rest);
    }
}

} // verus!

