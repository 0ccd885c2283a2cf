//! Tuning the test parameters between runs.

pub mod detector;
pub mod search;
pub mod tuner;

pub use detector::BottleneckDetector;
pub use search::SearchStrategy;
pub use tuner::ParameterTuner;
