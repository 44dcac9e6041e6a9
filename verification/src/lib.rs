//! A two-dimensional camera and transform library over exact rational
//! coordinates.
//!
//! A [`camera::Camera`] maps between world and screen; a
//! [`transform::Transform`] places an object in its parent's frame. Both make
//! a [`matrix::Mat4`] that a renderer can take, both compute with
//! [`rational::Rational`] numbers, and so every result is the exact one: the
//! conversions between world and screen undo each other without any
//! tolerance. The module [`laws`] states what holds of every camera.
//!
//! Numbers enter as integers, as fractions or as the bits of a binary64
//! floating-point number. Rounding, where a caller wants it, is the caller's
//! last step.
pub mod camera;
pub mod geometry;
pub mod integer;
pub mod laws;
pub mod matrix;
pub mod natural;
pub mod rational;
pub mod reals;
pub mod transform;
