//! End-to-end scenarios across components: the blocked-triangle graph
//! and the retreat-at-close-range behavior over a simulated frame.

use agent_nav::attack::schedule_attacks;
use agent_nav::attack::AttackCooldown;
use agent_nav::geom::Vec3;
use agent_nav::graph::build_visibility_graph;
use agent_nav::steering::steer_frame_with_choice;
use agent_nav::steering::AgentNavState;
use agent_nav::steering::SteerDecision;
use agent_nav::steering::SteeringParams;

#[test]
fn triangle_with_one_blocked_pair_is_never_fully_connected() {
    // Three waypoints forming a triangle; an obstacle sits on the
    // direct line between 0 and 1, reported by the scan as a hit 4
    // units out on a 20-unit ray, in both directions.
    let positions = vec![
        Vec3::new(0, 0, 0),
        Vec3::new(20_000, 0, 0),
        Vec3::new(10_000, 0, 15_000),
    ];
    let mut hits: Vec<Vec<Option<i64>>> = vec![vec![None; 3]; 3];
    hits[0][1] = Some(4_000);
    hits[1][0] = Some(16_000);
    let g = build_visibility_graph(&positions, &hits);

    let mut edges = Vec::new();
    for i in 0..3 {
        for j in 0..3 {
            if g.has_edge(i, j) {
                edges.push((i, j));
            }
        }
    }
    assert!(!g.has_edge(0, 1));
    assert!(!g.has_edge(1, 0));
    assert_eq!(edges, vec![(0, 2), (1, 2), (2, 0), (2, 1)]);
    assert_eq!(edges.len(), 4, "one blocked pair must remove its edges");
    assert_ne!(edges.len(), 6, "the graph must not come out fully connected");
}

#[test]
fn agent_close_to_the_target_retreats_and_gains_distance() {
    // An agent strictly inside the retreat radius, with zero velocity:
    // after one simulated frame its distance to the target has grown.
    let params = SteeringParams::default();
    let agent = Vec3::new(2_000, 0, 1_000);
    let target = Vec3::new(5_000, 0, 5_000);
    assert!(agent.dist_sq(&target) < params.retreat_radius * params.retreat_radius);

    let g = build_visibility_graph(&Vec::new(), &Vec::new());
    let mut state = AgentNavState::new();
    let d = steer_frame_with_choice(&mut state, agent, Some(target), &g, &params, 0);

    let (dx, dz) = match d {
        SteerDecision::Retreat { dx, dz } => (dx, dz),
        other => panic!("expected a retreat decision, got {:?}", other),
    };
    // One frame of movement along the commanded heading (the impulse is
    // a positive multiple of (dx, dz); the multiple does not matter for
    // the direction of the distance change, so step by the offset
    // itself).
    let moved = Vec3::new(agent.x + dx, agent.y, agent.z + dz);
    assert!(
        moved.dist_sq(&target) > agent.dist_sq(&target),
        "retreating must increase the distance to the target"
    );
}

#[test]
fn patrol_until_the_target_comes_close_then_fight_at_range() {
    // A full little episode: the agent patrols waypoints while the
    // target is far, engages as it approaches, and strikes in range.
    let params = SteeringParams::default();
    let a = Vec3::new(8_000, 0, 0);
    let b = Vec3::new(0, 0, 8_000);
    let g = build_visibility_graph(&vec![a, b], &vec![vec![None; 2]; 2]);
    let mut state = AgentNavState::new();
    let agent = Vec3::new(0, 0, 0);
    let far_target = Some(Vec3::new(60_000, 0, 0));

    // Patrol: select a waypoint, reach it, select the other.
    let d = steer_frame_with_choice(&mut state, agent, far_target, &g, &params, 0);
    assert_eq!(d, SteerDecision::Selected);
    let first = state.current_waypoint.unwrap();
    let d = steer_frame_with_choice(&mut state, first, far_target, &g, &params, 0);
    assert_eq!(d, SteerDecision::Reached);
    let d = steer_frame_with_choice(&mut state, first, far_target, &g, &params, 0);
    assert_eq!(d, SteerDecision::Selected);
    assert_ne!(state.current_waypoint, Some(first));

    // The target closes in: steering switches to engagement.
    let near_target = Vec3::new(9_000, 0, 0);
    let d = steer_frame_with_choice(&mut state, agent, Some(near_target), &g, &params, 0);
    assert_eq!(d, SteerDecision::Engage { dx: 9_000, dz: 0 });

    // In strike range, a full period of contact lands one strike.
    let mut cd = AttackCooldown::new(500);
    let strike_target = Some((9u64, Vec3::new(6_500, 0, 0)));
    let events = schedule_attacks(&mut cd, agent, strike_target, 7_000, 1_000, 500);
    assert_eq!(events.len(), 1);
    assert_eq!(events[0].target, 9);
    assert_eq!(events[0].delta, -1_000);
}
