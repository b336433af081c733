//! Route outcomes of the navigation contract. Route geometry itself is
//! floating-point and resolved by the runtime.
use vstd::prelude::*;

verus! {

/// Whether a portal (a door) can be passed.
#[derive(Debug, Clone, Copy, PartialEq, Eq, Structural)]
pub enum PortalState {
    Open,
    Closed,
}

/// Whether a route was found.
#[derive(Debug, Clone, Copy, PartialEq, Eq, Structural)]
pub enum RouteStatus {
    Resolved,
    Failed,
}

/// Counts of the checks a resolved route failed.
#[derive(Debug, Clone, Copy, PartialEq, Eq, Structural)]
pub struct RouteValidation {
    pub static_collision_intersections: u32,
    pub closed_portal_violations: u32,
    pub unsupported_floor_samples: u32,
    pub clearance_failures: u32,
    pub interaction_exclusion_violations: u32,
}

impl Default for RouteValidation {
    fn default() -> (r: Self)
        ensures
            r == (RouteValidation {
                static_collision_intersections: 0,
                closed_portal_violations: 0,
                unsupported_floor_samples: 0,
                clearance_failures: 0,
                interaction_exclusion_violations: 0,
            }),
    {
        RouteValidation {
            static_collision_intersections: 0,
            closed_portal_violations: 0,
            unsupported_floor_samples: 0,
            clearance_failures: 0,
            interaction_exclusion_violations: 0,
        }
    }
}

/// Why a route could not be resolved.
#[derive(Debug)]
pub struct RouteFailure {
    pub route_id: String,
    pub message: String,
}

} // verus!
