//! First-order positional resolution of interpenetration contacts, run
//! once per physics sub-step. For every manifold that involves a
//! kinematic body acting as a navigable agent and is not tagged as a
//! sensor or an in-flight projectile, the body's position is displaced
//! by `normal * penetration_depth` for each contact with positive
//! penetration, accumulating over the contacts of the manifold. Only
//! the position changes — never the velocity — and resolution converges
//! over successive sub-steps rather than instantly. Manifolds with no
//! qualifying contact are ignored silently.
//!
//! Contact normals are fixed-point unit vectors: each component is
//! scaled by `NORMAL_SCALE`, so a correction along one axis is
//! `normal_component * penetration / NORMAL_SCALE`, truncated toward
//! zero.

use vstd::prelude::*;

use vstd::arithmetic::div_mod::lemma_div_is_ordered;
use vstd::arithmetic::div_mod::lemma_div_multiples_vanish;
use vstd::arithmetic::div_mod::lemma_div_pos_is_pos;
use vstd::arithmetic::mul::lemma_mul_inequality;
use vstd::arithmetic::mul::lemma_mul_is_commutative;
use vstd::arithmetic::mul::lemma_mul_nonnegative;

use crate::geom::Vec3;

verus! {

/// Fixed-point scale of contact-normal components: a unit normal has
/// components in `-NORMAL_SCALE..=NORMAL_SCALE`.
pub const NORMAL_SCALE: i64 = 1000;

/// Bound on a contact's penetration depth, in milli-units.
pub const PENETRATION_LIMIT: i64 = 100_000_000;

/// How the resolver classifies a body, decided once per manifold: a
/// navigable agent, solid level geometry, a non-colliding sensor
/// volume, or an in-flight projectile.
#[derive(Clone, Copy, PartialEq, Eq, Structural, Debug)]
pub enum BodyClass {
    Agent,
    Obstacle,
    Sensor,
    Projectile,
}

/// One body of a manifold: its class and whether it is kinematic
/// (position-driven rather than force-driven).
#[derive(Clone, Copy, PartialEq, Eq, Structural, Debug)]
pub struct BodyTag {
    pub class: BodyClass,
    pub kinematic: bool,
}

/// One contact point: the unit normal along which to push the agent
/// (scaled by `NORMAL_SCALE`) and the penetration depth.
#[derive(Clone, Copy, PartialEq, Eq, Structural, Debug)]
pub struct Contact {
    pub normal: Vec3,
    pub penetration: i64,
}

/// The contacts between one pair of bodies for the current sub-step;
/// ephemeral, valid only within that sub-step.
pub struct ContactManifold {
    pub first: BodyTag,
    pub second: BodyTag,
    pub contacts: Vec<Contact>,
}

impl Contact {
    /// Normal components within the unit scale, penetration depth
    /// within bounds (either sign: resolution only acts on positive
    /// depths).
    pub open spec fn wf(self) -> bool {
        &&& -NORMAL_SCALE <= self.normal.x <= NORMAL_SCALE
        &&& -NORMAL_SCALE <= self.normal.y <= NORMAL_SCALE
        &&& -NORMAL_SCALE <= self.normal.z <= NORMAL_SCALE
        &&& -PENETRATION_LIMIT <= self.penetration <= PENETRATION_LIMIT
    }
}

impl ContactManifold {
    pub open spec fn wf(self) -> bool {
        forall|k: int| 0 <= k < self.contacts@.len() ==> (#[trigger] self.contacts@[k]).wf()
    }

    /// Whether the resolver acts on this manifold: it involves a
    /// kinematic navigable agent, and neither body is a sensor or a
    /// projectile.
    pub open spec fn spec_qualifies(self) -> bool {
        &&& (spec_resolvable(self.first) || spec_resolvable(self.second))
        &&& !spec_excluded(self.first)
        &&& !spec_excluded(self.second)
    }
}

/// A kinematic body acting as a navigable agent.
pub open spec fn spec_resolvable(b: BodyTag) -> bool {
    b.class == BodyClass::Agent && b.kinematic
}

/// Sensors and in-flight projectiles never receive positional
/// correction.
pub open spec fn spec_excluded(b: BodyTag) -> bool {
    b.class == BodyClass::Sensor || b.class == BodyClass::Projectile
}

/// The correction along one axis: `n * p / NORMAL_SCALE`, truncated
/// toward zero (`p` is never negative where this is applied).
pub open spec fn spec_axis_correction(n: int, p: int) -> int {
    if n >= 0 {
        (n * p) / (NORMAL_SCALE as int)
    } else {
        -(((-n) * p) / (NORMAL_SCALE as int))
    }
}

/// One contact applied to a position (as an integer triple): positive
/// penetration pushes along the normal, anything else leaves the
/// position alone.
pub open spec fn spec_apply_contact(p: (int, int, int), c: Contact) -> (int, int, int) {
    if c.penetration > 0 {
        (
            p.0 + spec_axis_correction(c.normal.x as int, c.penetration as int),
            p.1 + spec_axis_correction(c.normal.y as int, c.penetration as int),
            p.2 + spec_axis_correction(c.normal.z as int, c.penetration as int),
        )
    } else {
        p
    }
}

/// A whole contact list applied in order, starting at index `i`.
pub open spec fn spec_resolved_from(p: (int, int, int), contacts: Seq<Contact>, i: int) -> (
    int,
    int,
    int,
)
    decreases contacts.len() - i,
{
    if i < 0 || i >= contacts.len() {
        p
    } else {
        spec_resolved_from(spec_apply_contact(p, contacts[i]), contacts, i + 1)
    }
}

/// A whole contact list applied in order.
pub open spec fn spec_resolved(p: (int, int, int), contacts: Seq<Contact>) -> (int, int, int) {
    spec_resolved_from(p, contacts, 0)
}

/// The position triple a `Vec3` denotes.
pub open spec fn spec_pos(v: Vec3) -> (int, int, int) {
    (v.x as int, v.y as int, v.z as int)
}

/// An axis correction never exceeds the penetration depth itself.
proof fn lemma_axis_correction_bound(n: int, p: int)
    requires
        -NORMAL_SCALE <= n <= NORMAL_SCALE,
        0 <= p,
    ensures
        -p <= spec_axis_correction(n, p) <= p,
{
    let scale = NORMAL_SCALE as int;
    if n >= 0 {
        lemma_mul_nonnegative(n, p);
        lemma_mul_inequality(n, scale, p);
        lemma_div_pos_is_pos(n * p, scale);
        lemma_div_is_ordered(n * p, scale * p, scale);
        lemma_mul_is_commutative(scale, p);
        lemma_div_multiples_vanish(p, scale);
    } else {
        lemma_mul_nonnegative(-n, p);
        lemma_mul_inequality(-n, scale, p);
        lemma_div_pos_is_pos((-n) * p, scale);
        lemma_div_is_ordered((-n) * p, scale * p, scale);
        lemma_mul_is_commutative(scale, p);
        lemma_div_multiples_vanish(p, scale);
    }
}

/// The truncated scaled product of one normal component and a positive
/// penetration depth.
fn axis_correction(n: i64, p: i64) -> (c: i64)
    requires
        -NORMAL_SCALE <= n <= NORMAL_SCALE,
        0 < p <= PENETRATION_LIMIT,
    ensures
        c == spec_axis_correction(n as int, p as int),
        -p <= c <= p,
{
    proof {
        lemma_axis_correction_bound(n as int, p as int);
    }
    let magnitude = if n >= 0 {
        n as u64
    } else {
        (-n) as u64
    };
    let q = (magnitude * (p as u64)) / (NORMAL_SCALE as u64);
    if n >= 0 {
        q as i64
    } else {
        -(q as i64)
    }
}

/// Applies one manifold to an agent's position: for a qualifying
/// manifold, every contact with positive penetration displaces the
/// position by its scaled normal-times-penetration correction, in
/// order; a non-qualifying manifold — or one with no positive
/// penetration — leaves the position exactly as it was. Velocity is
/// never touched.
pub fn resolve_manifold(pos: &mut Vec3, manifold: &ContactManifold)
    requires
        manifold.wf(),
        old(pos).x - manifold.contacts@.len() * PENETRATION_LIMIT >= -i64::MAX,
        old(pos).x + manifold.contacts@.len() * PENETRATION_LIMIT <= i64::MAX,
        old(pos).y - manifold.contacts@.len() * PENETRATION_LIMIT >= -i64::MAX,
        old(pos).y + manifold.contacts@.len() * PENETRATION_LIMIT <= i64::MAX,
        old(pos).z - manifold.contacts@.len() * PENETRATION_LIMIT >= -i64::MAX,
        old(pos).z + manifold.contacts@.len() * PENETRATION_LIMIT <= i64::MAX,
    ensures
        manifold.spec_qualifies() ==> spec_pos(*final(pos)) == spec_resolved(
            spec_pos(*old(pos)),
            manifold.contacts@,
        ),
        !manifold.spec_qualifies() ==> *final(pos) == *old(pos),
{
    let first_resolvable = matches!(manifold.first.class, BodyClass::Agent)
        && manifold.first.kinematic;
    let second_resolvable = matches!(manifold.second.class, BodyClass::Agent)
        && manifold.second.kinematic;
    let first_excluded = matches!(manifold.first.class, BodyClass::Sensor)
        || matches!(manifold.first.class, BodyClass::Projectile);
    let second_excluded = matches!(manifold.second.class, BodyClass::Sensor)
        || matches!(manifold.second.class, BodyClass::Projectile);
    if !((first_resolvable || second_resolvable) && !first_excluded && !second_excluded) {
        return ;
    }
    let n = manifold.contacts.len();
    let mut i: usize = 0;
    while i < n
        invariant
            manifold.wf(),
            n == manifold.contacts@.len(),
            i <= n,
            spec_resolved_from(spec_pos(*pos), manifold.contacts@, i as int) == spec_resolved(
                spec_pos(*old(pos)),
                manifold.contacts@,
            ),
            pos.x - (n - i) * PENETRATION_LIMIT >= -i64::MAX,
            pos.x + (n - i) * PENETRATION_LIMIT <= i64::MAX,
            pos.y - (n - i) * PENETRATION_LIMIT >= -i64::MAX,
            pos.y + (n - i) * PENETRATION_LIMIT <= i64::MAX,
            pos.z - (n - i) * PENETRATION_LIMIT >= -i64::MAX,
            pos.z + (n - i) * PENETRATION_LIMIT <= i64::MAX,
        decreases n - i,
    {
        let c = manifold.contacts[i];
        if c.penetration > 0 {
            let cx = axis_correction(c.normal.x, c.penetration);
            let cy = axis_correction(c.normal.y, c.penetration);
            let cz = axis_correction(c.normal.z, c.penetration);
            pos.x = pos.x + cx;
            pos.y = pos.y + cy;
            pos.z = pos.z + cz;
        }
        i += 1;
    }
}

/// The whole sub-step's constraint-resolution phase for one agent:
/// applies every qualifying manifold, in order.
pub fn resolve_substep(pos: &mut Vec3, manifolds: &Vec<ContactManifold>)
    requires
        forall|m: int| 0 <= m < manifolds@.len() ==> (#[trigger] manifolds@[m]).wf(),
        old(pos).x - spec_total_contacts(manifolds@) * PENETRATION_LIMIT >= -i64::MAX,
        old(pos).x + spec_total_contacts(manifolds@) * PENETRATION_LIMIT <= i64::MAX,
        old(pos).y - spec_total_contacts(manifolds@) * PENETRATION_LIMIT >= -i64::MAX,
        old(pos).y + spec_total_contacts(manifolds@) * PENETRATION_LIMIT <= i64::MAX,
        old(pos).z - spec_total_contacts(manifolds@) * PENETRATION_LIMIT >= -i64::MAX,
        old(pos).z + spec_total_contacts(manifolds@) * PENETRATION_LIMIT <= i64::MAX,
    ensures
        spec_pos(*final(pos)) == spec_substep_resolved(spec_pos(*old(pos)), manifolds@, 0),
{
    let n = manifolds.len();
    let mut i: usize = 0;
    while i < n
        invariant
            forall|m: int| 0 <= m < manifolds@.len() ==> (#[trigger] manifolds@[m]).wf(),
            n == manifolds@.len(),
            i <= n,
            spec_substep_resolved(spec_pos(*pos), manifolds@, i as int) == spec_substep_resolved(
                spec_pos(*old(pos)),
                manifolds@,
                0,
            ),
            pos.x - spec_remaining_contacts(manifolds@, i as int) * PENETRATION_LIMIT
                >= -i64::MAX,
            pos.x + spec_remaining_contacts(manifolds@, i as int) * PENETRATION_LIMIT
                <= i64::MAX,
            pos.y - spec_remaining_contacts(manifolds@, i as int) * PENETRATION_LIMIT
                >= -i64::MAX,
            pos.y + spec_remaining_contacts(manifolds@, i as int) * PENETRATION_LIMIT
                <= i64::MAX,
            pos.z - spec_remaining_contacts(manifolds@, i as int) * PENETRATION_LIMIT
                >= -i64::MAX,
            pos.z + spec_remaining_contacts(manifolds@, i as int) * PENETRATION_LIMIT
                <= i64::MAX,
        decreases n - i,
    {
        let m = &manifolds[i];
        proof {
            lemma_remaining_contacts_step(manifolds@, i as int);
            lemma_remaining_contacts_nonneg(manifolds@, i as int + 1);
            lemma_resolved_drift(spec_pos(*pos), m.contacts@, 0);
        }
        resolve_manifold(pos, m);
        i += 1;
    }
}

/// The number of contacts in all manifolds from index `i` on.
pub open spec fn spec_remaining_contacts(manifolds: Seq<ContactManifold>, i: int) -> int
    decreases manifolds.len() - i,
{
    if i < 0 || i >= manifolds.len() {
        0
    } else {
        manifolds[i].contacts@.len() + spec_remaining_contacts(manifolds, i + 1)
    }
}

/// The number of contacts in all manifolds of the sub-step.
pub open spec fn spec_total_contacts(manifolds: Seq<ContactManifold>) -> int {
    spec_remaining_contacts(manifolds, 0)
}

/// The sub-step result: every qualifying manifold applied in order from
/// index `i` on.
pub open spec fn spec_substep_resolved(
    p: (int, int, int),
    manifolds: Seq<ContactManifold>,
    i: int,
) -> (int, int, int)
    decreases manifolds.len() - i,
{
    if i < 0 || i >= manifolds.len() {
        p
    } else {
        let q = if manifolds[i].spec_qualifies() {
            spec_resolved(p, manifolds[i].contacts@)
        } else {
            p
        };
        spec_substep_resolved(q, manifolds, i + 1)
    }
}

proof fn lemma_remaining_contacts_step(manifolds: Seq<ContactManifold>, i: int)
    requires
        0 <= i < manifolds.len(),
    ensures
        spec_remaining_contacts(manifolds, i) == manifolds[i].contacts@.len()
            + spec_remaining_contacts(manifolds, i + 1),
{
}

proof fn lemma_remaining_contacts_nonneg(manifolds: Seq<ContactManifold>, i: int)
    ensures
        spec_remaining_contacts(manifolds, i) >= 0,
    decreases manifolds.len() - i,
{
    if 0 <= i < manifolds.len() {
        lemma_remaining_contacts_nonneg(manifolds, i + 1);
    }
}

/// Resolution drifts each coordinate by at most one penetration limit
/// per remaining contact.
proof fn lemma_resolved_drift(p: (int, int, int), contacts: Seq<Contact>, i: int)
    requires
        0 <= i <= contacts.len(),
        forall|k: int| 0 <= k < contacts.len() ==> (#[trigger] contacts[k]).wf(),
    ensures
        ({
            let q = spec_resolved_from(p, contacts, i);
            let slack = (contacts.len() - i) * PENETRATION_LIMIT;
            &&& p.0 - slack <= q.0 <= p.0 + slack
            &&& p.1 - slack <= q.1 <= p.1 + slack
            &&& p.2 - slack <= q.2 <= p.2 + slack
        }),
    decreases contacts.len() - i,
{
    if i < contacts.len() {
        let c = contacts[i];
        if c.penetration > 0 {
            lemma_axis_correction_bound(c.normal.x as int, c.penetration as int);
            lemma_axis_correction_bound(c.normal.y as int, c.penetration as int);
            lemma_axis_correction_bound(c.normal.z as int, c.penetration as int);
        }
        lemma_resolved_drift(spec_apply_contact(p, c), contacts, i + 1);
    }
}

/// A single contact with penetration `p` and normal `n` displaces the
/// position by exactly the scaled correction `n * p / NORMAL_SCALE` on
/// each axis — nothing more, nothing less.
pub proof fn lemma_single_contact_displacement(p: (int, int, int), c: Contact)
    requires
        c.penetration > 0,
    ensures
        spec_resolved(p, seq![c]) == (
            p.0 + spec_axis_correction(c.normal.x as int, c.penetration as int),
            p.1 + spec_axis_correction(c.normal.y as int, c.penetration as int),
            p.2 + spec_axis_correction(c.normal.z as int, c.penetration as int),
        ),
{
    let s = seq![c];
    assert(s[0] == c);
    assert(spec_resolved_from(spec_apply_contact(p, c), s, 1) == spec_apply_contact(p, c));
}

/// Running the resolver over an already-resolved manifold — one whose
/// contacts all report non-positive penetration — is a no-op: the
/// position comes back unchanged, however often it is applied.
pub proof fn lemma_resolved_manifold_noop(p: (int, int, int), contacts: Seq<Contact>, i: int)
    requires
        0 <= i <= contacts.len(),
        forall|k: int| 0 <= k < contacts.len() ==> (#[trigger] contacts[k]).penetration <= 0,
    ensures
        spec_resolved_from(p, contacts, i) == p,
    decreases contacts.len() - i,
{
    if i < contacts.len() {
        lemma_resolved_manifold_noop(p, contacts, i + 1);
    }
}

} // verus!
