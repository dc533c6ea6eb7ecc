//! A vulnerability-testing toolkit: network asset discovery (target and port
//! resolution, liveness and port scanning, service fingerprinting) and a
//! proof-of-concept plugin execution model (plugin contract, registry,
//! orchestrator).
//!
//! All parsing, classification and sequencing logic is verified. Network I/O
//! is performed by the embedding application, which drives the verified scan
//! and execution state machines probe by probe.

pub mod addr;
pub mod discovery;
pub mod orchestrator;
pub mod poc_core;
pub mod pocs;
pub mod text;
pub mod utils;

pub use crate::poc_core::{Poc, PocConfig, PocError, PocResult};
pub use crate::pocs::{ExamplePoc, PocManager};
