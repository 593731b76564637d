//! Command line arguments for Flocker.
//!
//! The binary parses its arguments and hands them over in this shape.

use vstd::prelude::*;

verus! {

/// Command line arguments for Flocker
#[derive(Debug, Clone)]
pub struct Cli {
    /// Enable verbose output for detailed processing information
    pub verbose: bool,
}

} // verus!
