//! Stochastic simulation of continuous-time Markov jump processes with
//! Gillespie's algorithms, applied to compartmental epidemic models.
//!
//! Rates are handled as exact integer weights over a common rational
//! denominator, so event enumeration, weighted selection, transition and
//! absorption are all verified exactly; only the drawing of raw random
//! numbers, and the floating-point waiting times of the reporting layer,
//! stay outside the proofs.

pub mod algorithms;
pub mod models;
