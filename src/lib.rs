//! Steering control for racing pods on a 2D course of circular checkpoints.
//!
//! All geometry is carried out exactly on integer coordinates: a vector holds
//! integer components, an angle is held as the pair (dot product, determinant)
//! of the two vectors it is measured between, and the aim point is truncated
//! toward zero from its exact value.
pub mod aim;
pub mod controller;
pub mod course;
pub mod geometry;
pub mod pod;
pub mod policy;
