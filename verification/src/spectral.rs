//! Analysis and composition of signals: stateless functions on slices of samples.

pub mod correlation;
pub mod mixing;
pub mod normalization;
pub mod peak;
pub mod spectrum;

pub use self::correlation::autocorrelation;
pub use self::mixing::join;
pub use self::normalization::normalize;
pub use self::spectrum::fourier_transform;
