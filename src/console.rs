//! A standard interface for text input.
use vstd::prelude::*;

verus! {

/// A source of characters typed at a terminal.
pub trait Console {
    /// The next character received, waiting for one if none is there yet.
    fn getc(&self) -> char;
}

} // verus!
