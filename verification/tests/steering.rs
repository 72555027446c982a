//! The per-frame steering state machine: engage/retreat/seek bands,
//! waypoint reach and selection, anti-oscillation, and fallbacks.

use agent_nav::geom::Vec3;
use agent_nav::graph::build_visibility_graph;
use agent_nav::graph::NavigationGraph;
use agent_nav::steering::impulse_magnitude;
use agent_nav::steering::steer_frame;
use agent_nav::steering::steer_frame_with_choice;
use agent_nav::steering::AgentNavState;
use agent_nav::steering::SteerDecision;
use agent_nav::steering::SteeringParams;

fn graph_of(positions: Vec<Vec3>) -> NavigationGraph {
    let n = positions.len();
    let hits = vec![vec![None; n]; n];
    build_visibility_graph(&positions, &hits)
}

#[test]
fn default_params_match_the_stock_tunables() {
    let p = SteeringParams::default();
    assert_eq!(p.proximity_threshold, 6_000);
    assert_eq!(p.visibility_range, 25_000);
    assert_eq!(p.engage_radius, 10_000);
    assert_eq!(p.retreat_radius, 6_000);
    assert_eq!(p.acceleration, 40_000);
    assert_eq!(p.damping, 920);
}

#[test]
fn fresh_state_is_empty() {
    let s = AgentNavState::new();
    assert_eq!(s.current(), None);
    assert_eq!(s.prev(), None);
    assert_eq!(s.locked_target, None);
}

#[test]
fn target_in_the_engage_band_is_pursued() {
    let mut state = AgentNavState::new();
    let agent = Vec3::new(0, 0, 0);
    let target = Vec3::new(8_000, 0, -3_000);
    let g = graph_of(vec![]);
    let d = steer_frame_with_choice(&mut state, agent, Some(target), &g, &SteeringParams::default(), 0);
    assert_eq!(d, SteerDecision::Engage { dx: 8_000, dz: -3_000 });
    assert_eq!(state, AgentNavState::new());
}

#[test]
fn target_exactly_at_retreat_radius_is_still_engaged() {
    // The engage band is inclusive on both ends: at exactly the retreat
    // radius the agent closes in rather than backing off.
    let mut state = AgentNavState::new();
    let agent = Vec3::new(0, 0, 0);
    let target = Vec3::new(6_000, 0, 0);
    let g = graph_of(vec![]);
    let d = steer_frame_with_choice(&mut state, agent, Some(target), &g, &SteeringParams::default(), 0);
    assert_eq!(d, SteerDecision::Engage { dx: 6_000, dz: 0 });
}

#[test]
fn target_strictly_inside_retreat_radius_is_fled() {
    let mut state = AgentNavState::new();
    let agent = Vec3::new(0, 0, 0);
    let target = Vec3::new(5_999, 0, 0);
    let g = graph_of(vec![]);
    let d = steer_frame_with_choice(&mut state, agent, Some(target), &g, &SteeringParams::default(), 0);
    assert_eq!(d, SteerDecision::Retreat { dx: -5_999, dz: 0 });
    // The heading points away from the target: its dot product with the
    // agent-minus-target offset is positive, so following it increases
    // the distance.
    match d {
        SteerDecision::Retreat { dx, dz } => {
            let away_x = agent.x - target.x;
            let away_z = agent.z - target.z;
            assert!(dx * away_x + dz * away_z > 0);
        }
        _ => unreachable!(),
    }
}

#[test]
fn distant_target_means_seeking_the_current_waypoint() {
    let mut state = AgentNavState::new();
    let waypoint = Vec3::new(0, 0, 20_000);
    state.current_waypoint = Some(waypoint);
    let agent = Vec3::new(0, 0, 0);
    let target = Vec3::new(50_000, 0, 0);
    let g = graph_of(vec![waypoint]);
    let d = steer_frame_with_choice(&mut state, agent, Some(target), &g, &SteeringParams::default(), 0);
    assert_eq!(d, SteerDecision::Seek { dx: 0, dz: 20_000 });
    assert_eq!(state.current_waypoint, Some(waypoint));
}

#[test]
fn proximity_is_judged_horizontally() {
    // 5 units above and 3 to the side: the 3D distance exceeds the
    // threshold but the horizontal one does not, so the waypoint counts
    // as reached.
    let mut state = AgentNavState::new();
    let waypoint = Vec3::new(3_000, 5_000, 0);
    state.current_waypoint = Some(waypoint);
    let agent = Vec3::new(0, 0, 0);
    let target = Vec3::new(50_000, 0, 0);
    let g = graph_of(vec![waypoint]);
    let d = steer_frame_with_choice(&mut state, agent, Some(target), &g, &SteeringParams::default(), 0);
    assert_eq!(d, SteerDecision::Reached);
    assert_eq!(state.current_waypoint, None);
    assert_eq!(state.previous_waypoint, Some(waypoint));
}

#[test]
fn selection_picks_a_candidate_in_range_and_skips_the_previous() {
    let near_a = Vec3::new(10_000, 0, 0);
    let near_b = Vec3::new(0, 0, 10_000);
    let far = Vec3::new(90_000, 0, 0);
    let g = graph_of(vec![near_a, near_b, far]);
    let agent = Vec3::new(0, 0, 0);
    let target = Some(Vec3::new(50_000, 0, 0));
    let params = SteeringParams::default();

    // The agent just left near_a: the only candidate is near_b,
    // whatever the injected choice.
    for choice in 0..5 {
        let mut state = AgentNavState::new();
        state.previous_waypoint = Some(near_a);
        let d = steer_frame_with_choice(&mut state, agent, target, &g, &params, choice);
        assert_eq!(d, SteerDecision::Selected);
        assert_eq!(state.current_waypoint, Some(near_b));
        assert_eq!(state.previous_waypoint, Some(near_a));
    }
}

#[test]
fn selection_choice_indexes_the_candidates() {
    let a = Vec3::new(10_000, 0, 0);
    let b = Vec3::new(0, 0, 10_000);
    let g = graph_of(vec![a, b]);
    let agent = Vec3::new(0, 0, 0);
    let target = Some(Vec3::new(50_000, 0, 0));
    let params = SteeringParams::default();

    let mut state = AgentNavState::new();
    steer_frame_with_choice(&mut state, agent, target, &g, &params, 0);
    assert_eq!(state.current_waypoint, Some(a));

    let mut state = AgentNavState::new();
    steer_frame_with_choice(&mut state, agent, target, &g, &params, 1);
    assert_eq!(state.current_waypoint, Some(b));

    let mut state = AgentNavState::new();
    steer_frame_with_choice(&mut state, agent, target, &g, &params, 2);
    assert_eq!(state.current_waypoint, Some(a));
}

#[test]
fn no_candidate_in_sight_means_holding_still() {
    let far = Vec3::new(90_000, 0, 0);
    let g = graph_of(vec![far]);
    let agent = Vec3::new(0, 0, 0);
    let target = Some(Vec3::new(50_000, 0, 0));
    let mut state = AgentNavState::new();
    let d = steer_frame_with_choice(&mut state, agent, target, &g, &SteeringParams::default(), 0);
    assert_eq!(d, SteerDecision::Hold);
    assert_eq!(state, AgentNavState::new());
}

#[test]
fn only_previous_in_sight_means_holding_still() {
    // The waypoint just left is in range, but nothing else is: the
    // agent waits rather than bouncing straight back.
    let near = Vec3::new(10_000, 0, 0);
    let g = graph_of(vec![near]);
    let agent = Vec3::new(0, 0, 0);
    let target = Some(Vec3::new(50_000, 0, 0));
    let mut state = AgentNavState::new();
    state.previous_waypoint = Some(near);
    let d = steer_frame_with_choice(&mut state, agent, target, &g, &SteeringParams::default(), 0);
    assert_eq!(d, SteerDecision::Hold);
    assert_eq!(state.current_waypoint, None);
}

#[test]
fn missing_target_means_holding_still() {
    let g = graph_of(vec![Vec3::new(10_000, 0, 0)]);
    let mut state = AgentNavState::new();
    let d = steer_frame_with_choice(&mut state, Vec3::new(0, 0, 0), None, &g, &SteeringParams::default(), 0);
    assert_eq!(d, SteerDecision::Hold);
    assert_eq!(state, AgentNavState::new());
}

#[test]
fn random_selection_always_lands_on_a_candidate() {
    let a = Vec3::new(10_000, 0, 0);
    let b = Vec3::new(0, 0, 10_000);
    let far = Vec3::new(90_000, 0, 0);
    let g = graph_of(vec![a, b, far]);
    let agent = Vec3::new(0, 0, 0);
    let target = Some(Vec3::new(50_000, 0, 0));
    let params = SteeringParams::default();
    for _ in 0..32 {
        let mut state = AgentNavState::new();
        let d = steer_frame(&mut state, agent, target, &g, &params);
        assert_eq!(d, SteerDecision::Selected);
        let picked = state.current_waypoint.unwrap();
        assert!(picked == a || picked == b, "selected an out-of-range waypoint");
    }
}

#[test]
fn reached_waypoint_is_never_reselected_immediately() {
    let a = Vec3::new(3_000, 0, 0);
    let b = Vec3::new(0, 0, 10_000);
    let g = graph_of(vec![a, b]);
    let agent = Vec3::new(0, 0, 0);
    let target = Some(Vec3::new(50_000, 0, 0));
    let params = SteeringParams::default();

    let mut state = AgentNavState::new();
    state.current_waypoint = Some(a);
    // Frame 1: the agent stands within the proximity threshold of `a`.
    let d = steer_frame(&mut state, agent, target, &g, &params);
    assert_eq!(d, SteerDecision::Reached);
    assert_eq!(state.previous_waypoint, Some(a));
    // Frame 2: selection must avoid `a` while `b` is available.
    for _ in 0..16 {
        let mut fresh = state;
        let d = steer_frame(&mut fresh, agent, target, &g, &params);
        assert_eq!(d, SteerDecision::Selected);
        assert_eq!(fresh.current_waypoint, Some(b));
    }
}

#[test]
fn impulse_scales_acceleration_by_elapsed_time() {
    assert_eq!(impulse_magnitude(40_000, 16), 640);
    assert_eq!(impulse_magnitude(40_000, 0), 0);
    assert_eq!(impulse_magnitude(0, 1_000), 0);
    assert_eq!(impulse_magnitude(1_000, 1), 1);
    assert_eq!(impulse_magnitude(999, 1), 0);
}
