//! Detection of the last threshold crossing in a metric's range-query result.
//!
//! The library plans the range query for a window of time, and decides from what
//! the backend answered whether the metric crossed from one side of a threshold to
//! the other, and when it was last seen before crossing. It performs no I/O: the
//! caller sends the planned query and hands back what came of it.

pub mod decimal;
pub mod detector;
pub mod edge;
pub mod error;
pub mod response;
pub mod window;

pub use crate::detector::{EdgeDetector, EdgeQuery};
pub use crate::error::Error;
