//! Objects to be drawn to the screen, and the scenes that hold them.

use vstd::prelude::*;

pub mod appearance;
pub mod scenes;

verus! {

/// Errors that happen in object and layer functions.
#[derive(Debug, Clone, Copy, PartialEq, Eq, Structural)]
pub enum ObjectError {
    /// The object you are trying to access is not initialized anymore.
    NoObject,
}

} // verus!
