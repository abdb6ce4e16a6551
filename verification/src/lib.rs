//! A game engine's data model: texture formats and layouts, models, buffers, materials, the
//! scene graph and the packed asset cache, with their contracts proved by Verus.

use vstd::prelude::*;

pub mod assets;
pub mod objects;
pub mod packing;
pub mod resources;
mod shared;
pub mod sound;

verus! {

/// The bound on a game's own error type: it can be sent and shared between threads.
pub trait CustomError: Send + Sync + 'static {}

impl<T: Send + Sync + 'static> CustomError for T {}

/// Cardinal direction
#[derive(Clone, Copy, PartialEq, Eq, Debug, Structural)]
pub enum Direction {
    Center,
    N,
    No,
    O,
    So,
    S,
    Sw,
    W,
    Nw,
}

} // verus!
