//! Per-agent, per-frame steering: a three-state decision machine driven
//! by the distance to the tracked target, with local greedy waypoint
//! selection when the target is far away.
//!
//! Within `engage_radius` but no closer than `retreat_radius` the agent
//! heads straight for the target; strictly inside `retreat_radius` it
//! heads straight away; beyond `engage_radius` it seeks its current
//! waypoint, marks it reached once within `proximity_threshold`
//! (horizontally), and otherwise picks a fresh waypoint uniformly at
//! random among those within `visibility_range` — excluding the
//! waypoint it just left, so it never bounces straight back. With no
//! target or no candidate the agent simply holds still this frame;
//! nothing here ever fails.
//!
//! Headings are reported as unnormalized horizontal offsets; the
//! embedder normalizes them (the `atan2`/`cos`/`sin` step) and applies
//! the acceleration-and-damping integration in floating point.

use vstd::prelude::*;

use rand::Rng;

use crate::geom::COORD_LIMIT;
use crate::geom::Vec3;
use crate::graph::NavigationGraph;

verus! {

/// Per-agent steering tunables, in milli-units. `damping` is a
/// per-frame velocity multiplier in thousandths (0..=999), applied by
/// the embedder's damping pass; `acceleration` scales the impulse the
/// embedder accumulates along the chosen heading.
#[derive(Clone, Copy, PartialEq, Eq, Structural, Debug)]
pub struct SteeringParams {
    pub proximity_threshold: i64,
    pub visibility_range: i64,
    pub engage_radius: i64,
    pub retreat_radius: i64,
    pub acceleration: i64,
    pub damping: i64,
}

impl SteeringParams {
    pub open spec fn wf(self) -> bool {
        &&& 0 <= self.proximity_threshold <= COORD_LIMIT
        &&& 0 <= self.visibility_range <= COORD_LIMIT
        &&& 0 <= self.retreat_radius <= self.engage_radius <= COORD_LIMIT
        &&& 0 <= self.acceleration
        &&& 0 <= self.damping < 1000
    }
}

impl Default for SteeringParams {
    /// The stock tunables: reach a waypoint within 6 units, see
    /// waypoints within 25, engage within 10, retreat within 6,
    /// accelerate at 40 units per second squared, damp velocity by
    /// 0.92 per frame.
    fn default() -> (p: SteeringParams)
        ensures
            p == (SteeringParams {
                proximity_threshold: 6_000,
                visibility_range: 25_000,
                engage_radius: 10_000,
                retreat_radius: 6_000,
                acceleration: 40_000,
                damping: 920,
            }),
            p.wf(),
    {
        SteeringParams {
            proximity_threshold: 6_000,
            visibility_range: 25_000,
            engage_radius: 10_000,
            retreat_radius: 6_000,
            acceleration: 40_000,
            damping: 920,
        }
    }
}

/// Per-agent navigation state, owned exclusively by its agent: the
/// waypoint currently steered toward, the waypoint most recently
/// reached, and an optional locked target entity. All fields start
/// empty when the agent spawns.
#[derive(Clone, Copy, PartialEq, Eq, Structural, Debug)]
pub struct AgentNavState {
    pub current_waypoint: Option<Vec3>,
    pub previous_waypoint: Option<Vec3>,
    pub locked_target: Option<u64>,
}

impl AgentNavState {
    /// Any stored waypoint position lies within world bounds.
    pub open spec fn wf(self) -> bool {
        &&& match self.current_waypoint {
            Option::Some(w) => w.in_world(),
            Option::None => true,
        }
        &&& match self.previous_waypoint {
            Option::Some(w) => w.in_world(),
            Option::None => true,
        }
    }

    pub fn new() -> (s: AgentNavState)
        ensures
            s == (AgentNavState {
                current_waypoint: Option::<Vec3>::None,
                previous_waypoint: Option::<Vec3>::None,
                locked_target: Option::<u64>::None,
            }),
            s.wf(),
    {
        AgentNavState { current_waypoint: Option::None, previous_waypoint: Option::None, locked_target: Option::None }
    }

    /// The waypoint currently steered toward, if any.
    pub fn current(&self) -> (r: Option<Vec3>)
        ensures
            r == self.current_waypoint,
    {
        self.current_waypoint
    }

    /// The waypoint most recently reached, if any.
    pub fn prev(&self) -> (r: Option<Vec3>)
        ensures
            r == self.previous_waypoint,
    {
        self.previous_waypoint
    }
}

/// What the steering pass decided this frame. The `dx`/`dz` fields are
/// the exact unnormalized horizontal offset from the agent toward (or,
/// for `Retreat`, directly away from) the chosen point.
#[derive(Clone, Copy, PartialEq, Eq, Structural, Debug)]
pub enum SteerDecision {
    /// Close enough to fight, not close enough to back off: head for
    /// the target.
    Engage { dx: i64, dz: i64 },
    /// Strictly inside the retreat radius: head directly away.
    Retreat { dx: i64, dz: i64 },
    /// Target out of range: head for the current waypoint.
    Seek { dx: i64, dz: i64 },
    /// The current waypoint was just reached and recorded as previous.
    Reached,
    /// A fresh waypoint was just selected; movement starts next frame.
    Selected,
    /// Nothing to do: no target and no candidate waypoint.
    Hold,
}

/// The candidate waypoints for re-targeting, scanning indices below
/// `n`: those within `range` of the agent, excluding the waypoint just
/// left.
pub open spec fn spec_candidates_upto(
    g: NavigationGraph,
    agent: Vec3,
    range: int,
    prev: Option<Vec3>,
    n: nat,
) -> Seq<Vec3>
    decreases n,
{
    if n == 0 {
        Seq::empty()
    } else {
        let rest = spec_candidates_upto(g, agent, range, prev, (n - 1) as nat);
        let p = g.waypoints@[n - 1].position;
        if p.spec_within(agent, range) && prev != Option::Some(p) {
            rest.push(p)
        } else {
            rest
        }
    }
}

/// All candidate waypoints for re-targeting.
pub open spec fn spec_candidates(
    g: NavigationGraph,
    agent: Vec3,
    range: int,
    prev: Option<Vec3>,
) -> Seq<Vec3> {
    spec_candidates_upto(g, agent, range, prev, g.waypoints@.len())
}

/// Every candidate is a graph waypoint within range and is not the
/// waypoint just left.
pub proof fn lemma_candidates_sound(
    g: NavigationGraph,
    agent: Vec3,
    range: int,
    prev: Option<Vec3>,
    n: nat,
)
    requires
        n <= g.waypoints@.len(),
    ensures
        forall|k: int|
            0 <= k < spec_candidates_upto(g, agent, range, prev, n).len() ==> {
                let c = #[trigger] spec_candidates_upto(g, agent, range, prev, n)[k];
                &&& c.spec_within(agent, range)
                &&& Option::Some(c) != prev
                &&& exists|i: int| 0 <= i < n && #[trigger] g.waypoints@[i].position == c
            },
    decreases n,
{
    if n > 0 {
        lemma_candidates_sound(g, agent, range, prev, (n - 1) as nat);
        let s = spec_candidates_upto(g, agent, range, prev, n);
        let rest = spec_candidates_upto(g, agent, range, prev, (n - 1) as nat);
        assert forall|k: int| 0 <= k < s.len() implies {
            let c = #[trigger] s[k];
            &&& c.spec_within(agent, range)
            &&& Option::Some(c) != prev
            &&& exists|i: int| 0 <= i < n && #[trigger] g.waypoints@[i].position == c
        } by {
            if k < rest.len() {
                assert(s[k] == rest[k]);
            } else {
                assert(s[k] == g.waypoints@[n - 1].position);
            }
        }
    }
}

/// Every graph waypoint within range other than the waypoint just left
/// appears among the candidates: the fallback to holding still happens
/// only when no such waypoint exists at all.
pub proof fn lemma_candidates_complete(
    g: NavigationGraph,
    agent: Vec3,
    range: int,
    prev: Option<Vec3>,
    n: nat,
    i: int,
)
    requires
        0 <= i < n,
        n <= g.waypoints@.len(),
        g.waypoints@[i].position.spec_within(agent, range),
        Option::Some(g.waypoints@[i].position) != prev,
    ensures
        spec_candidates_upto(g, agent, range, prev, n).contains(g.waypoints@[i].position),
    decreases n,
{
    let s = spec_candidates_upto(g, agent, range, prev, n);
    let rest = spec_candidates_upto(g, agent, range, prev, (n - 1) as nat);
    if i == n - 1 {
        assert(s[rest.len() as int] == g.waypoints@[i].position);
        assert(s.contains(g.waypoints@[i].position));
    } else {
        lemma_candidates_complete(g, agent, range, prev, (n - 1) as nat, i);
        let k = choose|k: int| 0 <= k < rest.len() && #[trigger] rest[k] == g.waypoints@[
            i
        ].position;
        assert(s[k] == g.waypoints@[i].position);
        assert(s.contains(g.waypoints@[i].position));
    }
}

/// An agent that just recorded a waypoint as `previous_waypoint` can
/// never select it again on the immediately following selection: the
/// waypoint just left is excluded from every candidate list.
pub proof fn lemma_no_immediate_reselect(
    g: NavigationGraph,
    agent: Vec3,
    range: int,
    prev: Option<Vec3>,
    c: Vec3,
)
    requires
        spec_candidates(g, agent, range, prev).contains(c),
    ensures
        Option::Some(c) != prev,
        c.spec_within(agent, range),
{
    lemma_candidates_sound(g, agent, range, prev, g.waypoints@.len());
}

/// Collects the candidate waypoints for re-targeting: those within
/// `range` of the agent, excluding the waypoint just left.
pub fn collect_candidates(
    g: &NavigationGraph,
    agent: &Vec3,
    range: i64,
    prev: &Option<Vec3>,
) -> (cands: Vec<Vec3>)
    requires
        g.wf(),
        agent.in_world(),
        0 <= range <= COORD_LIMIT,
    ensures
        cands@ == spec_candidates(*g, *agent, range as int, *prev),
{
    let n = g.waypoints.len();
    let mut cands: Vec<Vec3> = Vec::new();
    let mut i: usize = 0;
    while i < n
        invariant
            g.wf(),
            agent.in_world(),
            0 <= range <= COORD_LIMIT,
            n == g.waypoints@.len(),
            i <= n,
            cands@ == spec_candidates_upto(*g, *agent, range as int, *prev, i as nat),
        decreases n - i,
    {
        let p = g.waypoints[i].position;
        let excluded = match prev {
            Option::Some(q) => *q == p,
            Option::None => false,
        };
        if p.within(agent, range) && !excluded {
            cands.push(p);
        }
        i += 1;
    }
    cands
}

/// Relies on `rand::Rng::gen_range` over `0..n`: the sampled value lies
/// in the half-open range below `n`; the call panics only on an empty
/// range, which the precondition excludes.
#[verifier::external_body]
fn random_below(n: usize) -> (r: usize)
    requires
        1 <= n,
    ensures
        r < n,
{
    rand::thread_rng().gen_range(0..n)
}

/// Whether this frame must pick a fresh waypoint: a target is tracked
/// but out of engagement range, and no current waypoint is set.
pub open spec fn spec_selects(
    pre: AgentNavState,
    agent: Vec3,
    target: Option<Vec3>,
    params: SteeringParams,
) -> bool {
    match target {
        Option::None => false,
        Option::Some(t) => !agent.spec_within(t, params.engage_radius as int)
            && pre.current_waypoint matches Option::None,
    }
}

/// The full steering state machine of one frame, relating the state
/// before (`pre`) and after (`post`) to the decision `d`. In the
/// selection case the fresh waypoint itself is pinned separately by
/// each entry point; everything else is exact.
pub open spec fn spec_steer_cases(
    pre: AgentNavState,
    post: AgentNavState,
    agent: Vec3,
    target: Option<Vec3>,
    g: NavigationGraph,
    params: SteeringParams,
    d: SteerDecision,
) -> bool {
    match target {
        // No tracked target: hold still this frame rather than fail.
        Option::None => d == (SteerDecision::Hold {}) && post == pre,
        Option::Some(t) => {
            if agent.spec_dist_sq(t) < params.retreat_radius * params.retreat_radius {
                // Strictly inside the retreat radius: head directly away.
                &&& d matches SteerDecision::Retreat { dx, dz } && dx == agent.x - t.x && dz
                    == agent.z - t.z
                &&& post == pre
            } else if agent.spec_within(t, params.engage_radius as int) {
                // Close enough to fight, no closer than the retreat
                // radius: head straight for the target.
                &&& d matches SteerDecision::Engage { dx, dz } && dx == t.x - agent.x && dz
                    == t.z - agent.z
                &&& post == pre
            } else {
                match pre.current_waypoint {
                    Option::Some(w) => {
                        if !agent.spec_within_xz(w, params.proximity_threshold as int) {
                            // Still on the way: head for the waypoint.
                            &&& d matches SteerDecision::Seek { dx, dz } && dx == w.x - agent.x
                                && dz == w.z - agent.z
                            &&& post == pre
                        } else {
                            // Reached: record it as just left and clear it.
                            d == (SteerDecision::Reached {}) && post == (AgentNavState {
                                current_waypoint: Option::None,
                                previous_waypoint: Option::Some(w),
                                locked_target: pre.locked_target,
                            })
                        }
                    },
                    Option::None => {
                        let cands = spec_candidates(
                            g,
                            agent,
                            params.visibility_range as int,
                            pre.previous_waypoint,
                        );
                        if cands.len() == 0 {
                            // No candidate in sight: hold rather than fail.
                            d == (SteerDecision::Hold {}) && post == pre
                        } else {
                            &&& d == (SteerDecision::Selected {})
                            &&& post.previous_waypoint == pre.previous_waypoint
                            &&& post.locked_target == pre.locked_target
                            &&& post.current_waypoint matches Option::Some(c) && cands.contains(c)
                        }
                    },
                }
            }
        },
    }
}

/// The frame's steering decision and state update, with the
/// tie-breaking choice injected: when a fresh waypoint must be picked,
/// candidate number `choice % candidate_count` is taken. Fully
/// deterministic in its inputs.
pub fn steer_frame_with_choice(
    state: &mut AgentNavState,
    agent: Vec3,
    target: Option<Vec3>,
    graph: &NavigationGraph,
    params: &SteeringParams,
    choice: usize,
) -> (d: SteerDecision)
    requires
        old(state).wf(),
        agent.in_world(),
        match target {
            Option::Some(t) => t.in_world(),
            Option::None => true,
        },
        graph.wf(),
        params.wf(),
    ensures
        final(state).wf(),
        spec_steer_cases(*old(state), *final(state), agent, target, *graph, *params, d),
        spec_selects(*old(state), agent, target, *params) ==> {
            let cands = spec_candidates(
                *graph,
                agent,
                params.visibility_range as int,
                old(state).previous_waypoint,
            );
            cands.len() > 0 ==> final(state).current_waypoint == Option::Some(
                cands[(choice as int) % (cands.len() as int)],
            )
        },
{
    let t = match target {
        Option::Some(t) => t,
        Option::None => {
            return SteerDecision::Hold {};
        },
    };
    proof {
        crate::geom::lemma_square_bound(params.retreat_radius as int, params.engage_radius as int);
    }
    if agent.within(&t, params.engage_radius) {
        let d_sq = agent.dist_sq(&t);
        proof {
            crate::geom::lemma_square_bound(params.retreat_radius as int, COORD_LIMIT as int);
        }
        if d_sq >= params.retreat_radius * params.retreat_radius {
            SteerDecision::Engage { dx: t.x - agent.x, dz: t.z - agent.z }
        } else {
            SteerDecision::Retreat { dx: agent.x - t.x, dz: agent.z - t.z }
        }
    } else {
        match state.current_waypoint {
            Option::Some(w) => {
                if !agent.within_xz(&w, params.proximity_threshold) {
                    SteerDecision::Seek { dx: w.x - agent.x, dz: w.z - agent.z }
                } else {
                    state.previous_waypoint = Option::Some(w);
                    state.current_waypoint = Option::None;
                    SteerDecision::Reached {}
                }
            },
            Option::None => {
                let cands = collect_candidates(
                    graph,
                    &agent,
                    params.visibility_range,
                    &state.previous_waypoint,
                );
                if cands.len() == 0 {
                    SteerDecision::Hold {}
                } else {
                    proof {
                        vstd::arithmetic::div_mod::lemma_mod_bound(
                            choice as int,
                            cands@.len() as int,
                        );
                    }
                    let idx = choice % cands.len();
                    let picked = cands[idx];
                    proof {
                        lemma_candidates_sound(
                            *graph,
                            agent,
                            params.visibility_range as int,
                            state.previous_waypoint,
                            graph.waypoints@.len(),
                        );
                        let i = choose|i: int|
                            0 <= i < graph.waypoints@.len() && #[trigger] graph.waypoints@[
                                i
                            ].position == picked;
                        assert(graph.waypoints@[i].position.in_world());
                        assert(cands@.contains(picked));
                    }
                    state.current_waypoint = Option::Some(picked);
                    SteerDecision::Selected {}
                }
            },
        }
    }
}

/// The frame's steering decision and state update, breaking waypoint
/// ties uniformly at random. Identical to `steer_frame_with_choice` in
/// every case but selection, where the fresh waypoint is guaranteed to
/// be one of the candidates — in particular within `visibility_range`
/// and different from the waypoint just left.
pub fn steer_frame(
    state: &mut AgentNavState,
    agent: Vec3,
    target: Option<Vec3>,
    graph: &NavigationGraph,
    params: &SteeringParams,
) -> (d: SteerDecision)
    requires
        old(state).wf(),
        agent.in_world(),
        match target {
            Option::Some(t) => t.in_world(),
            Option::None => true,
        },
        graph.wf(),
        params.wf(),
    ensures
        final(state).wf(),
        spec_steer_cases(*old(state), *final(state), agent, target, *graph, *params, d),
{
    let n = graph.waypoint_count();
    let choice = if n == 0 {
        0
    } else {
        random_below(n)
    };
    steer_frame_with_choice(state, agent, target, graph, params, choice)
}

/// Anti-oscillation at the level of the frame contract: whenever a
/// frame selects a fresh waypoint, that waypoint is never the one just
/// recorded as `previous_waypoint` — as long as any candidate exists at
/// all, the agent cannot bounce straight back.
pub proof fn lemma_steer_never_reselects_previous(
    pre: AgentNavState,
    post: AgentNavState,
    agent: Vec3,
    target: Option<Vec3>,
    g: NavigationGraph,
    params: SteeringParams,
    d: SteerDecision,
)
    requires
        spec_steer_cases(pre, post, agent, target, g, params, d),
        d == (SteerDecision::Selected {}),
    ensures
        post.current_waypoint matches Option::Some(c) && Option::Some(c)
            != pre.previous_waypoint,
{
    let c = post.current_waypoint->Some_0;
    lemma_no_immediate_reselect(g, agent, params.visibility_range as int, pre.previous_waypoint, c);
}

/// The magnitude of the frame's velocity impulse: the acceleration
/// constant scaled by the elapsed milliseconds. The embedder applies
/// this along the decision's normalized heading.
pub fn impulse_magnitude(acceleration: i64, dt_ms: u64) -> (m: i64)
    requires
        0 <= acceleration <= COORD_LIMIT,
        dt_ms <= 1_000_000,
    ensures
        m == acceleration * dt_ms / 1000,
{
    proof {
        vstd::arithmetic::mul::lemma_mul_upper_bound(
            acceleration as int,
            COORD_LIMIT as int,
            dt_ms as int,
            1_000_000,
        );
        vstd::arithmetic::mul::lemma_mul_nonnegative(acceleration as int, dt_ms as int);
    }
    let prod = (acceleration as u64) * dt_ms;
    proof {
        vstd::arithmetic::div_mod::lemma_div_is_ordered(
            prod as int,
            100_000_000_000_000,
            1000,
        );
    }
    (prod / 1000) as i64
}

} // verus!

