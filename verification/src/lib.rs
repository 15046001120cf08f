//! A small `cat`-like library: it validates a command-line configuration and
//! renders text lines for output, optionally numbering every line or only the
//! nonblank ones. Reading the inputs and writing the result is left to the
//! binary around the library; everything here is pure computation on strings.

pub mod config;
pub mod laws;
pub mod numbering;
pub mod render;
