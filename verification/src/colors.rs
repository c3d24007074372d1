//! The colour classes that the vibration classifier writes, as
//! blue/green/red/alpha channel quadruples.

use vstd::prelude::*;

verus! {

/// One rung of the classifier's colour ladder.
#[derive(Copy, Clone, Debug, PartialEq, Eq, Structural)]
pub enum PixelClass {
    Black,
    Green,
    Cyan,
    Yellow,
    Red,
}

/// The channel values (blue, green, red, alpha) of a colour class.
pub open spec fn spec_class_color(c: PixelClass) -> (u8, u8, u8, u8) {
    match c {
        PixelClass::Black => (0u8, 0u8, 0u8, 0u8),
        PixelClass::Green => (0u8, 255u8, 0u8, 0u8),
        PixelClass::Cyan => (255u8, 255u8, 0u8, 0u8),
        PixelClass::Yellow => (0u8, 255u8, 255u8, 0u8),
        PixelClass::Red => (0u8, 0u8, 255u8, 0u8),
    }
}

/// The channel values of a colour class, for writing into a frame.
pub fn class_color(c: PixelClass) -> (r: (u8, u8, u8, u8))
    ensures
        r == spec_class_color(c),
{
    match c {
        PixelClass::Black => (0u8, 0u8, 0u8, 0u8),
        PixelClass::Green => (0u8, 255u8, 0u8, 0u8),
        PixelClass::Cyan => (255u8, 255u8, 0u8, 0u8),
        PixelClass::Yellow => (0u8, 255u8, 255u8, 0u8),
        PixelClass::Red => (0u8, 0u8, 255u8, 0u8),
    }
}

} // verus!
