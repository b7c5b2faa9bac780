//! The parts of the sample programs that compute.

pub mod cache;
pub mod minigrep;
pub mod mock_stream;
pub mod webserver;
