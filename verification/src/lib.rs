//! Geometric feature extraction for grayscale SEM images of graphene flakes.
//!
//! The pipeline detects directional contrast edges, denoises them by contour
//! area, builds an exclusion zone from a squared Euclidean distance transform,
//! optionally normalizes the exclusion ratio over the radial field of view,
//! and extracts per-flake orientation and extent from traced contours.
//!
//! All quantities are exact: real-valued parameters are rational numbers and
//! ratios are returned as integer fractions, so every result is pinned by its
//! contract.

pub mod frac;
pub mod img;
pub mod geom;
pub mod contrast;
pub mod contours;
pub mod hull;
pub mod config;
pub mod exclusion;
pub mod radial;
pub mod preprocess;
pub mod flakes;
