//! Network reconnaissance core: target and port expansion, bounded probe
//! scheduling, probe outcome classification, host liveness gating and
//! banner-driven service identification.

pub mod error;
pub mod text;
pub mod address;
pub mod network;
pub mod types;
pub mod utils;
pub mod service;
pub mod scanner;
pub mod discovery;
pub mod filter;
