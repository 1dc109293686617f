//! What a host works out around the machine: where a pixel goes on a scaled
//! screen, and which of the programs on offer a user has picked.
use vstd::prelude::*;
use crate::constants::{DISPLAY_SIZE, DISPLAY_WIDTH};

verus! {

/// The square that shows pixel `index` of the display on a screen where every
/// pixel is `scale` wide and high: its left edge, its top edge, its width and
/// its height. There is none for an index outside the display, nor where an
/// edge would not fit in an `i32`.
pub open spec fn pixel_square(index: int, scale: int) -> Option<(i32, i32, u32, u32)> {
    let left = (index % DISPLAY_WIDTH as int) * scale;
    let top = (index / DISPLAY_WIDTH as int) * scale;
    if 0 <= index < DISPLAY_SIZE && left <= i32::MAX && top <= i32::MAX {
        Some((left as i32, top as i32, scale as u32, scale as u32))
    } else {
        None
    }
}

/// Computes `pixel_square`.
pub fn pixel_rect(index: usize, scale: u32) -> (rect: Option<(i32, i32, u32, u32)>)
    ensures
        rect == pixel_square(index as int, scale as int),
{
    if index >= DISPLAY_SIZE {
        return None;
    }
    let x: u64 = (index % DISPLAY_WIDTH) as u64;
    let y: u64 = (index / DISPLAY_WIDTH) as u64;
    let wide: u64 = scale as u64;
    assert(x * wide <= 63 * 0xFFFF_FFFF && y * wide <= 31 * 0xFFFF_FFFF) by (nonlinear_arith)
        requires
            x <= 63,
            y <= 31,
            wide <= 0xFFFF_FFFF,
    ;
    let left: u64 = x * wide;
    let top: u64 = y * wide;
    if left > i32::MAX as u64 || top > i32::MAX as u64 {
        return None;
    }
    Some((left as i32, top as i32, scale, scale))
}

/// The index of the program that a user picks by typing `number`, where the
/// programs on offer are numbered from 1 to `count`: `number - 1`, or nothing
/// if no program has that number.
pub fn selected_rom(number: usize, count: usize) -> (choice: Option<usize>)
    ensures
        choice == if 0 < number <= count {
            Some((number - 1) as usize)
        } else {
            None
        },
{
    if number > 0 && number <= count {
        Some(number - 1)
    } else {
        None
    }
}

} // verus!
