//! Decision logic of a cosmology engine: the interval schedule of adaptive
//! Simpson quadrature, the sign tracker that carries the scale-factor equation
//! through turning points, the driver of a one-step integrator over a sequence
//! of points, the spatial geometry chosen by the curvature, and the stitching of
//! trajectories integrated in opposite directions.
pub mod error;
pub mod quadrature;
pub mod sign_tracker;
pub mod geometry;
pub mod trajectory;
pub mod ode;

pub use error::AdaptiveSimpsonError;
