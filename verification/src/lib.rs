//! Grain-level simulation of a photographic negative.
//!
//! Light falls on an emulsion of silver halide grains. Halation spreads it
//! ([`halation`], with the blur kernels of [`kernel`]), the grains take up
//! photons and develop ([`halide`], [`developer`]), and the developed grains
//! are rendered through the film's characteristic curve ([`density`]) onto a
//! canvas ([`emulsion`], [`canvas`]). [`pipeline`] runs the stages in order.
//!
//! Every real quantity is held in fixed point (see [`fixed`]), so the whole
//! simulation is integer arithmetic with exact, machine-checked contracts.
//! Exponentials and logarithms come from [`exponent`]. Chance enters through
//! [`chance`] alone.
pub mod canvas;
pub mod chance;
pub mod density;
pub mod developer;
pub mod emulsion;
pub mod exponent;
pub mod fixed;
pub mod grid;
pub mod halation;
pub mod halide;
pub mod kernel;
pub mod pipeline;
