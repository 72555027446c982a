//! Core logic for autonomous agents navigating a static 3D level:
//! one-shot construction of a waypoint visibility graph, a per-frame
//! steering state machine (pursue / retreat / seek waypoints), a
//! cooldown-gated attack scheduler, and a per-substep positional
//! resolver for interpenetration contacts.
//!
//! All spatial quantities are fixed-point integers in thousandths of a
//! world unit ("milli-units"). The embedding application converts its
//! floating-point engine data to and from this representation at the
//! boundary and performs the purely cosmetic work (rendering, audio,
//! UI) that this crate does not model.

pub mod attack;
pub mod geom;
pub mod graph;
pub mod resolver;
pub mod steering;
