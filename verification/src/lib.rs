//! Verified core of memfaultd: MAR staging and chunk framing, metric keys and
//! reports, and the parsers of the system metric collectors.
pub mod config;
pub mod mar;
pub mod memfaultd;
pub mod metrics;
pub mod network;
pub mod parse;
pub mod text;
pub mod util;
