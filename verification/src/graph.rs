//! One-shot construction of the waypoint visibility graph.
//!
//! The builder consumes the authored waypoint positions together with
//! the answers of a directional ray-visibility scan: for every ordered
//! pair `(i, j)` the scan reports the distance (in milli-units) to the
//! nearest geometry hit on the ray from waypoint `i` toward waypoint
//! `j`, or `None` when nothing blocks the ray. The directed edge
//! `i -> j` exists exactly when no blocking hit lies strictly closer
//! than waypoint `j` itself. The query is directional, so the resulting
//! graph may be asymmetric; that asymmetry is preserved, never
//! corrected.

use vstd::prelude::*;

use crate::geom::Vec3;

verus! {

/// Upper bound on a reported blocking-hit distance, in milli-units;
/// keeps the squared comparison within `i64`.
pub const HIT_LIMIT: i64 = 2_000_000_000;

/// A fixed navigable point of the level, immutable once built.
/// `neighbors` holds the indices reachable by line of sight; it never
/// contains `id` itself.
#[derive(Debug)]
pub struct Waypoint {
    pub id: usize,
    pub position: Vec3,
    pub neighbors: Vec<usize>,
}

/// The visibility graph over all waypoints of a level, indexed by id.
/// Built once at level load and read-only afterwards; an empty graph is
/// legal and every query degrades gracefully on it.
#[derive(Debug)]
pub struct NavigationGraph {
    pub waypoints: Vec<Waypoint>,
}

/// A single scan answer: distance to the nearest blocking hit, if any.
pub open spec fn hit_in_range(h: Option<i64>) -> bool {
    match h {
        Option::None => true,
        Option::Some(d) => 0 <= d <= HIT_LIMIT,
    }
}

/// Shape and bounds of a visibility scan: one answer per ordered pair
/// of waypoints, positions within world bounds.
pub open spec fn scan_wf(positions: Seq<Vec3>, hits: Seq<Vec<Option<i64>>>) -> bool {
    &&& hits.len() == positions.len()
    &&& forall|i: int| 0 <= i < positions.len() ==> (#[trigger] hits[i])@.len() == positions.len()
    &&& forall|i: int, j: int|
        0 <= i < positions.len() && 0 <= j < positions.len() ==> hit_in_range(#[trigger] hits[i]@[j])
    &&& forall|i: int| 0 <= i < positions.len() ==> (#[trigger] positions[i]).in_world()
}

/// The directional visibility verdict for the ordered pair `(i, j)`:
/// true when the scan found no blocking hit strictly closer than
/// waypoint `j` (compared on squared distances).
pub open spec fn spec_visible(
    positions: Seq<Vec3>,
    hits: Seq<Vec<Option<i64>>>,
    i: int,
    j: int,
) -> bool {
    match hits[i]@[j] {
        Option::None => true,
        Option::Some(h) => !(h * h < positions[i].spec_dist_sq(positions[j])),
    }
}

/// The neighbor list of waypoint `i`, considering candidate indices
/// below `n`, in ascending order.
pub open spec fn spec_neighbors_upto(
    positions: Seq<Vec3>,
    hits: Seq<Vec<Option<i64>>>,
    i: int,
    n: nat,
) -> Seq<usize>
    decreases n,
{
    if n == 0 {
        Seq::empty()
    } else {
        let rest = spec_neighbors_upto(positions, hits, i, (n - 1) as nat);
        let j = n - 1;
        if j != i && spec_visible(positions, hits, i, j as int) {
            rest.push(j as usize)
        } else {
            rest
        }
    }
}

/// The full neighbor list of waypoint `i`.
pub open spec fn spec_neighbors(positions: Seq<Vec3>, hits: Seq<Vec<Option<i64>>>, i: int) -> Seq<
    usize,
> {
    spec_neighbors_upto(positions, hits, i, positions.len())
}

/// One built waypoint agrees with the scan at index `i`.
pub open spec fn waypoint_built(
    w: Waypoint,
    positions: Seq<Vec3>,
    hits: Seq<Vec<Option<i64>>>,
    i: int,
) -> bool {
    &&& w.id == i
    &&& w.position == positions[i]
    &&& w.neighbors@ == spec_neighbors(positions, hits, i)
}

/// The whole graph is exactly what the scan determines: this predicate
/// pins the result of construction uniquely.
pub open spec fn graph_built(
    g: NavigationGraph,
    positions: Seq<Vec3>,
    hits: Seq<Vec<Option<i64>>>,
) -> bool {
    &&& g.waypoints@.len() == positions.len()
    &&& forall|i: int|
        0 <= i < positions.len() ==> waypoint_built(#[trigger] g.waypoints@[i], positions, hits, i)
}

impl NavigationGraph {
    /// Structural invariant: ids equal indices, positions are within
    /// world bounds, and every neighbor index is a valid id other than
    /// the waypoint's own (no self-loops).
    pub open spec fn wf(self) -> bool {
        forall|i: int|
            0 <= i < self.waypoints@.len() ==> {
                let w = #[trigger] self.waypoints@[i];
                &&& w.id == i
                &&& w.position.in_world()
                &&& forall|k: int|
                    0 <= k < w.neighbors@.len() ==> (#[trigger] w.neighbors@[k]) < self.waypoints@.len()
                        && w.neighbors@[k] as int != i
            }
    }

    /// Directed edge relation of the built graph.
    pub open spec fn spec_has_edge(self, from: usize, to: usize) -> bool {
        from < self.waypoints@.len() && self.waypoints@[from as int].neighbors@.contains(to)
    }

    /// The empty graph: legal, with no usable edges.
    pub fn new() -> (g: NavigationGraph)
        ensures
            g.waypoints@.len() == 0,
            g.wf(),
    {
        NavigationGraph { waypoints: Vec::new() }
    }

    pub fn waypoint_count(&self) -> (n: usize)
        ensures
            n == self.waypoints@.len(),
    {
        self.waypoints.len()
    }

    /// Position of waypoint `id`, or `None` for an invalid id.
    pub fn position_of(&self, id: usize) -> (p: Option<Vec3>)
        ensures
            p == if id < self.waypoints@.len() {
                Option::Some(self.waypoints@[id as int].position)
            } else {
                Option::<Vec3>::None
            },
    {
        if id < self.waypoints.len() {
            Option::Some(self.waypoints[id].position)
        } else {
            Option::None
        }
    }

    /// Whether the directed edge `from -> to` exists; false for any
    /// out-of-range id.
    pub fn has_edge(&self, from: usize, to: usize) -> (r: bool)
        ensures
            r == self.spec_has_edge(from, to),
    {
        if from >= self.waypoints.len() {
            return false;
        }
        let neighbors = &self.waypoints[from].neighbors;
        let mut k: usize = 0;
        while k < neighbors.len()
            invariant
                from < self.waypoints@.len(),
                neighbors@ == self.waypoints@[from as int].neighbors@,
                k <= neighbors@.len(),
                forall|t: int| 0 <= t < k ==> (#[trigger] neighbors@[t]) != to,
            decreases neighbors@.len() - k,
        {
            if neighbors[k] == to {
                proof {
                    assert(neighbors@ == self.waypoints@[from as int].neighbors@);
                    assert(neighbors@[k as int] == to);
                    assert(neighbors@.contains(to));
                }
                return true;
            }
            k += 1;
        }
        false
    }
}

/// Builds the visibility graph from authored positions and the scan's
/// directional answers: edge `i -> j` exists iff `i != j` and the scan
/// found no blocking hit strictly closer than the distance from `i` to
/// `j`. Zero or one waypoint yields an empty or trivially disconnected
/// graph; construction never fails.
pub fn build_visibility_graph(positions: &Vec<Vec3>, hits: &Vec<Vec<Option<i64>>>) -> (g:
    NavigationGraph)
    requires
        scan_wf(positions@, hits@),
    ensures
        graph_built(g, positions@, hits@),
        g.wf(),
{
    let n = positions.len();
    let mut waypoints: Vec<Waypoint> = Vec::new();
    let mut i: usize = 0;
    while i < n
        invariant
            n == positions@.len(),
            scan_wf(positions@, hits@),
            i <= n,
            waypoints@.len() == i,
            forall|k: int|
                0 <= k < i ==> waypoint_built(#[trigger] waypoints@[k], positions@, hits@, k),
        decreases n - i,
    {
        let mut neighbors: Vec<usize> = Vec::new();
        let mut j: usize = 0;
        while j < n
            invariant
                n == positions@.len(),
                scan_wf(positions@, hits@),
                i < n,
                j <= n,
                neighbors@ == spec_neighbors_upto(positions@, hits@, i as int, j as nat),
            decreases n - j,
        {
            if j != i {
                let row = &hits[i];
                let visible = match row[j] {
                    Option::None => true,
                    Option::Some(h) => {
                        proof {
                            crate::geom::lemma_square_bound(h as int, HIT_LIMIT as int);
                        }
                        !(h * h < positions[i].dist_sq(&positions[j]))
                    },
                };
                if visible {
                    neighbors.push(j);
                }
            }
            j += 1;
        }
        let position = positions[i];
        waypoints.push(Waypoint { id: i, position, neighbors });
        i += 1;
    }
    let g = NavigationGraph { waypoints };
    proof {
        lemma_built_graph_wf(g, positions@, hits@);
    }
    g
}

/// Every index in a neighbor list lies below the candidate bound and
/// differs from the waypoint's own index.
proof fn lemma_neighbors_upto_props(
    positions: Seq<Vec3>,
    hits: Seq<Vec<Option<i64>>>,
    i: int,
    n: nat,
)
    requires
        n <= usize::MAX,
    ensures
        forall|k: int|
            0 <= k < spec_neighbors_upto(positions, hits, i, n).len() ==> (#[trigger] spec_neighbors_upto(
                positions,
                hits,
                i,
                n,
            )[k]) < n && spec_neighbors_upto(positions, hits, i, n)[k] as int != i,
    decreases n,
{
    if n > 0 {
        lemma_neighbors_upto_props(positions, hits, i, (n - 1) as nat);
        let s = spec_neighbors_upto(positions, hits, i, n);
        let rest = spec_neighbors_upto(positions, hits, i, (n - 1) as nat);
        assert forall|k: int| 0 <= k < s.len() implies (#[trigger] s[k]) < n && s[k] as int != i by {
            if k < rest.len() {
                assert(s[k] == rest[k]);
            }
        }
    }
}

/// A graph that agrees with a well-formed scan satisfies the structural
/// invariant.
proof fn lemma_built_graph_wf(g: NavigationGraph, positions: Seq<Vec3>, hits: Seq<Vec<Option<i64>>>)
    requires
        scan_wf(positions, hits),
        graph_built(g, positions, hits),
        positions.len() <= usize::MAX,
    ensures
        g.wf(),
{
    assert forall|i: int| 0 <= i < g.waypoints@.len() implies {
        let w = #[trigger] g.waypoints@[i];
        &&& w.id == i
        &&& w.position.in_world()
        &&& forall|k: int|
            0 <= k < w.neighbors@.len() ==> (#[trigger] w.neighbors@[k]) < g.waypoints@.len()
                && w.neighbors@[k] as int != i
    } by {
        lemma_neighbors_upto_props(positions, hits, i, positions.len());
    }
}

/// Membership in a neighbor list is exactly the directional visibility
/// verdict, restricted to candidate indices below `n`.
proof fn lemma_neighbors_upto_membership(
    positions: Seq<Vec3>,
    hits: Seq<Vec<Option<i64>>>,
    i: int,
    j: usize,
    n: nat,
)
    requires
        n <= usize::MAX,
    ensures
        spec_neighbors_upto(positions, hits, i, n).contains(j) <==> ((j as int) < n && j as int != i
            && spec_visible(positions, hits, i, j as int)),
    decreases n,
{
    if n > 0 {
        lemma_neighbors_upto_membership(positions, hits, i, j, (n - 1) as nat);
        let rest = spec_neighbors_upto(positions, hits, i, (n - 1) as nat);
        let m = n - 1;
        if m != i && spec_visible(positions, hits, i, m as int) {
            assert(spec_neighbors_upto(positions, hits, i, n) == rest.push(m as usize));
            if rest.push(m as usize).contains(j) {
                let k = choose|k: int|
                    0 <= k < rest.push(m as usize).len() && #[trigger] rest.push(m as usize)[k]
                        == j;
                if k < rest.len() {
                    assert(rest.contains(j));
                }
            }
            if rest.contains(j) {
                let k = choose|k: int| 0 <= k < rest.len() && rest[k] == j;
                assert(rest.push(m as usize)[k] == j);
                assert(rest.push(m as usize).contains(j));
            }
            if j == m as usize {
                assert(rest.push(m as usize)[rest.len() as int] == j);
                assert(rest.push(m as usize).contains(j));
            }
        }
    }
}

/// Edge characterization: the built graph has the directed edge
/// `i -> j` exactly when `j` is another valid waypoint and the scan
/// from `i` toward `j` reported no blocking hit strictly closer than
/// waypoint `j`. Directionality is preserved: nothing here relates
/// `i -> j` to `j -> i`.
pub proof fn lemma_edge_iff_visible(
    g: NavigationGraph,
    positions: Seq<Vec3>,
    hits: Seq<Vec<Option<i64>>>,
    i: usize,
    j: usize,
)
    requires
        scan_wf(positions, hits),
        graph_built(g, positions, hits),
        positions.len() <= usize::MAX,
        (i as int) < positions.len(),
    ensures
        g.spec_has_edge(i, j) <==> ((j as int) < positions.len() && j != i && spec_visible(
            positions,
            hits,
            i as int,
            j as int,
        )),
{
    lemma_neighbors_upto_membership(positions, hits, i as int, j, positions.len());
}

/// Determinism of construction: any two graphs built from the same
/// positions and the same scan answers are identical, waypoint by
/// waypoint.
pub proof fn lemma_build_deterministic(
    g1: NavigationGraph,
    g2: NavigationGraph,
    positions: Seq<Vec3>,
    hits: Seq<Vec<Option<i64>>>,
)
    requires
        graph_built(g1, positions, hits),
        graph_built(g2, positions, hits),
    ensures
        g1.waypoints@.len() == g2.waypoints@.len(),
        forall|i: int|
            0 <= i < g1.waypoints@.len() ==> #[trigger] g1.waypoints@[i].id == g2.waypoints@[i].id
                && g1.waypoints@[i].position == g2.waypoints@[i].position
                && g1.waypoints@[i].neighbors@ == g2.waypoints@[i].neighbors@,
{
}

} // verus!
