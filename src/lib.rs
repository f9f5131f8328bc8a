//! One-way latency probe: builds a fixed UDP frame, stamps send times into
//! it, and turns received stamps into latency samples.
pub mod timestamp;
pub mod frame;
pub mod receive;
pub mod transmit;
pub mod sink;
