//! The VGA text console: colours and the screen writer.

use vstd::prelude::*;

pub mod colour;
pub mod writer;

verus! {

/// Rows of the text screen.
pub const BUFFER_HEIGHT: usize = 25;

/// Columns of the text screen.
pub const BUFFER_WIDTH: usize = 80;

} // verus!
