//! A dense-matrix multiplication engine built from independent dot-product
//! tasks, and thread-safe counter stores.

pub mod error;
pub mod vector;
pub mod counters;
pub mod matrix;
pub mod metrics;
pub mod metrics2;
