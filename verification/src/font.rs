//! Font sizes of the editing surface: whole points within fixed limits,
//! changed in fixed steps.

use vstd::prelude::*;

verus! {

/// Smallest font size, in points.
pub const MIN_FONT_SIZE: u32 = 8;

/// Largest font size, in points.
pub const MAX_FONT_SIZE: u32 = 72;

/// Font size of a fresh surface, in points.
pub const DEFAULT_FONT_SIZE: u32 = 24;

/// Step by which the font size grows and shrinks, in points.
pub const FONT_SIZE_STEP: u32 = 2;

/// The font size one step up from `size`, held to [`MAX_FONT_SIZE`].
pub fn increase_font_size(size: u32) -> (r: u32)
    ensures
        r == if size + FONT_SIZE_STEP < MAX_FONT_SIZE {
            size + FONT_SIZE_STEP
        } else {
            MAX_FONT_SIZE as int
        },
{
    if size >= MAX_FONT_SIZE - FONT_SIZE_STEP {
        MAX_FONT_SIZE
    } else {
        size + FONT_SIZE_STEP
    }
}

/// The font size one step down from `size`, held to [`MIN_FONT_SIZE`].
pub fn decrease_font_size(size: u32) -> (r: u32)
    ensures
        r == if size - FONT_SIZE_STEP > MIN_FONT_SIZE {
            size - FONT_SIZE_STEP
        } else {
            MIN_FONT_SIZE as int
        },
{
    if size <= MIN_FONT_SIZE + FONT_SIZE_STEP {
        MIN_FONT_SIZE
    } else {
        size - FONT_SIZE_STEP
    }
}

/// The font size to go back to: [`DEFAULT_FONT_SIZE`].
pub fn reset_font_size() -> (r: u32)
    ensures
        r == DEFAULT_FONT_SIZE,
{
    DEFAULT_FONT_SIZE
}

} // verus!
