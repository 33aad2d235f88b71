//! Verified core of a recurrent reservoir simulator.
//!
//! A reservoir iterates `r <- tanh(A r + B x + d)` until its state settles and
//! is then read out as `W r`. The floating-point arithmetic of a step is left
//! to a numeric kernel; this crate owns everything around it: the buffers and
//! their shapes, the replacement of the state, the tolerance that decides
//! convergence, and the convergence flag.
//!
//! Numbers are carried as the bit patterns of their binary64 encodings, which
//! [`binary64`] gives a mathematical meaning. What is exact on encodings is
//! done here on the patterns: taking absolute values, finding the largest and
//! comparing it with the tolerance ([`convergence`]).
//!
//! A step goes in two halves. The kernel reads `A`, `B`, `x`, `d` and `r` from
//! the [`Reservoir`], computes the next state and its difference from `r`, and
//! hands both to [`Reservoir::run`], which checks their lengths, decides
//! whether the step settled and takes the new state.

pub mod binary64;
pub mod convergence;
pub mod matrix;
pub mod reservoir;

pub use matrix::Matrix;
pub use reservoir::{DimensionMismatch, Reservoir};
