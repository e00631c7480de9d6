//! The discrete side of a small feed-forward training engine.
//!
//! Such an engine is mostly arithmetic on tensors of 32-bit floating-point
//! numbers. This crate holds what is not: the step counter of the Adam update
//! rule, the life cycle of a gradient accumulator within a batch, the decoding
//! of image and label files, the drawing of training samples, the layout of an
//! image for a terminal, and the one activation function that leaves its input
//! as it is.
//!
//! Every function is verified against the contract that it carries. Two
//! things are taken on trust: that `smolmatrix::Matrix` is a type, of which
//! nothing more is assumed, and that `alea::u64_in_range` returns a number
//! within the range that it is asked for.
pub mod activations;
pub mod batch;
pub mod display;
pub mod optimizers;
pub mod reader;
pub mod sampling;
