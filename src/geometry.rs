//! The spatial geometry that the curvature density selects.
use vstd::prelude::*;

verus! {

/// Spatial geometry of the universe.
#[derive(Debug, Clone, Copy, PartialEq, Eq, Structural)]
pub enum Geometry {
    /// Positive curvature (negative curvature density): distances go through `sin`.
    Closed,
    /// No curvature: distances go through the identity.
    Flat,
    /// Negative curvature (positive curvature density): distances go through `sinh`.
    Open,
}

/// The curvature sign κ of a geometry.
pub open spec fn kappa_of(g: Geometry) -> int {
    match g {
        Geometry::Closed => 1,
        Geometry::Flat => 0,
        Geometry::Open => -1,
    }
}

impl Geometry {
    /// The geometry of a universe whose curvature density Ω_k has the sign of
    /// `density_sign`: κ is the sign of −Ω_k, and zero exactly where Ω_k is zero.
    pub fn from_curvature_density_sign(density_sign: i8) -> (g: Geometry)
        ensures
            density_sign < 0 <==> g == Geometry::Closed,
            density_sign == 0 <==> g == Geometry::Flat,
            density_sign > 0 <==> g == Geometry::Open,
            kappa_of(g) == -(if density_sign < 0 { -1int } else if density_sign > 0 { 1int } else { 0int }),
    {
        if density_sign < 0 {
            Geometry::Closed
        } else if density_sign > 0 {
            Geometry::Open
        } else {
            Geometry::Flat
        }
    }

    /// The curvature sign κ: +1 closed, 0 flat, −1 open.
    pub fn kappa(&self) -> (k: i8)
        ensures
            k == kappa_of(*self),
    {
        match self {
            Geometry::Closed => 1,
            Geometry::Flat => 0,
            Geometry::Open => -1,
        }
    }
}

} // verus!
