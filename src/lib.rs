//! A GPU proof-of-work search engine: the host-side rules that drive a
//! compute kernel searching for an input whose digest has enough leading
//! zero bits, together with a few helpers shared by the rendering demos.
pub mod difficulty;
pub mod hashrate;
pub mod nonce;
pub mod params;
pub mod platform;
pub mod readback;
pub mod report;
pub mod session;
pub mod text;
