//! Interfaces to machine learning algorithms.

pub mod mlmodel;
