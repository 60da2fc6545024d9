//! The interface a vendor's machine learning algorithm is used through.

use vstd::prelude::*;

verus! {

/// A supervised learner over rows of type `T`.
pub trait MachineLearningAlgorithm<T> {
    /// Fits the learner to the rows `x` and their labels `y`.
    fn fit(&mut self, x: &Vec<T>, y: &T) -> Result<(), Error>;

    /// Predicts a label row for each row of `x`.
    fn predict(&self, x: &Vec<T>) -> Result<Vec<T>, Error>;
}

/// Errors that can happen during machine learning training or prediction.
#[derive(Debug, PartialEq, Eq)]
pub enum Error {
    /// Fitting failed, with the learner's message.
    FitError(String),
    /// Prediction failed, with the learner's message.
    PredictionError(String),
}

} // verus!
