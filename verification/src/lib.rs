//! Verified core of the vLLM view of a PyTorch structured-trace report:
//! the bookkeeping of vLLM compilation artifacts, the parsers that feed it,
//! the side-by-side pass diff page, and the pure decisions of the command line.

pub mod text;
pub mod diff;
pub mod types;
pub mod state;
pub mod templates;
pub mod parsers;
pub mod cli;
