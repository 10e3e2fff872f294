//! Synthesis of simulated GPS traces from a route: segment interpolation,
//! an optional pedestrian that meets the vehicle at a chosen time, and
//! checksummed GPRMC sentences for every fix.
//!
//! Positions, speeds and headings are fixed-point integers (see `model`).
//! Spherical geometry (distances, bearings, destination points, rotation)
//! is done by the caller, which hands its results to this library.
pub mod model;
pub mod heading;
pub mod text;
pub mod sentence;
pub mod clock;
pub mod segment;
pub mod collision;
