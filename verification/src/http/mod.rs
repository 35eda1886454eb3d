//! Downloads over HTTP: what is asked of the server, what its answers mean, and
//! what is done next.

pub mod contents;
pub mod headers;
pub mod parallel;
pub mod plan;
pub mod probe;
pub mod rate;
pub mod retry;
pub mod scaler;
pub mod setup;
pub mod single;
pub mod status;
pub mod transfer;
