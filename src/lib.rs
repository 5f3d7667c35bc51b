//! Byte n-gram density: a histogram of the sliding windows of a byte
//! sequence, a brightness curve over its counts, and the cells that are
//! bright enough to draw at a threshold.
use vstd::prelude::*;

pub mod brightness;
pub mod histogram;
pub mod points;
pub mod visualization;

verus! {

} // verus!
