//! Nonparametric adaptive grid (NPAG) estimation engine for population
//! pharmacokinetic models.
//!
//! The engine estimates a discrete probability distribution over a parameter
//! space: a set of support points with probability weights that maximize the
//! marginal likelihood of observed concentrations. This crate holds the
//! verified core: the driver state machine, grid condensation and expansion,
//! settings validation, the prediction cache, and an exact bit-level model of
//! the IEEE-754 double values that the numeric collaborators exchange.
//!
//! Scalar values are carried as `u64` bit patterns of IEEE-754 doubles. The
//! floating-point arithmetic itself (likelihood evaluation, the interior-point
//! weight solver, the QR factorization) is performed by unverified hosts,
//! which hand results back as bit patterns; everything this crate decides
//! about those values (ordering, sign tests, exact scaling by powers of two)
//! is verified against the bit-level value model in [`fp`].

pub mod cache;
pub mod components;
pub mod condensation;
pub mod expansion;
pub mod fp;
pub mod ipm;
pub mod matrix;
pub mod npag;
pub mod scenario;
pub mod settings;
pub mod sigma;
