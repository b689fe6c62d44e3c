//! Musical mode and scale sequencing with circle-of-fifths harmony.
//!
//! - `theory`: note names, the seven modes, the circle of fifths.
//! - `scales`: the circular scale patterns and the full list of scales to play.
//! - `player`: the sample-by-sample playback state machine.
use vstd::prelude::*;

pub mod theory;
pub mod scales;
pub mod player;

verus! {
} // verus!
