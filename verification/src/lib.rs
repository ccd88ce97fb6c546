//! A small 2D spring-mass simulation kernel: fixed-point vector algebra,
//! rigid bodies with force accumulation and explicit Euler integration,
//! Hooke-law springs, and rasterization into a bounds-checked pixel buffer.
//!
//! All quantities are fixed-point integers with [`arith::SCALE`] sub-units
//! per pixel. Arithmetic saturates at [`arith::LIM`], the edge of the
//! representable world; within it, every operation is exact integer
//! arithmetic with division truncating toward zero.

pub mod arith;
pub mod body;
pub mod buffer;
pub mod renderable;
pub mod spring;
pub mod trail;
pub mod vector;
pub mod world;
