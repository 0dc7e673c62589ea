use vstd::prelude::*;

use crate::color::Rgba;

verus! {

/// The fixed 16-entry color table of the canvas: every 4-bit index names a
/// color, so no lookup within range can fail.
pub open spec fn spec_palette(i: int) -> Rgba {
    if i == 0 {
        Rgba { r: 255, g: 255, b: 255, a: 255 }
    } else if i == 1 {
        Rgba { r: 228, g: 228, b: 228, a: 255 }
    } else if i == 2 {
        Rgba { r: 136, g: 136, b: 136, a: 255 }
    } else if i == 3 {
        Rgba { r: 34, g: 34, b: 34, a: 255 }
    } else if i == 4 {
        Rgba { r: 255, g: 167, b: 209, a: 255 }
    } else if i == 5 {
        Rgba { r: 229, g: 0, b: 0, a: 255 }
    } else if i == 6 {
        Rgba { r: 229, g: 149, b: 0, a: 255 }
    } else if i == 7 {
        Rgba { r: 160, g: 106, b: 66, a: 255 }
    } else if i == 8 {
        Rgba { r: 229, g: 217, b: 0, a: 255 }
    } else if i == 9 {
        Rgba { r: 148, g: 224, b: 68, a: 255 }
    } else if i == 10 {
        Rgba { r: 2, g: 190, b: 1, a: 255 }
    } else if i == 11 {
        Rgba { r: 0, g: 211, b: 221, a: 255 }
    } else if i == 12 {
        Rgba { r: 0, g: 131, b: 199, a: 255 }
    } else if i == 13 {
        Rgba { r: 0, g: 0, b: 234, a: 255 }
    } else if i == 14 {
        Rgba { r: 207, g: 110, b: 228, a: 255 }
    } else {
        Rgba { r: 130, g: 0, b: 128, a: 255 }
    }
}

/// Palette lookup: every index 0..=15 is mapped, in constant time, to the
/// color that `spec_palette` names for it.
pub fn palette(i: u8) -> (c: Rgba)
    requires
        i < 16,
    ensures
        c == spec_palette(i as int),
{
    if i == 0 {
        Rgba { r: 255, g: 255, b: 255, a: 255 }
    } else if i == 1 {
        Rgba { r: 228, g: 228, b: 228, a: 255 }
    } else if i == 2 {
        Rgba { r: 136, g: 136, b: 136, a: 255 }
    } else if i == 3 {
        Rgba { r: 34, g: 34, b: 34, a: 255 }
    } else if i == 4 {
        Rgba { r: 255, g: 167, b: 209, a: 255 }
    } else if i == 5 {
        Rgba { r: 229, g: 0, b: 0, a: 255 }
    } else if i == 6 {
        Rgba { r: 229, g: 149, b: 0, a: 255 }
    } else if i == 7 {
        Rgba { r: 160, g: 106, b: 66, a: 255 }
    } else if i == 8 {
        Rgba { r: 229, g: 217, b: 0, a: 255 }
    } else if i == 9 {
        Rgba { r: 148, g: 224, b: 68, a: 255 }
    } else if i == 10 {
        Rgba { r: 2, g: 190, b: 1, a: 255 }
    } else if i == 11 {
        Rgba { r: 0, g: 211, b: 221, a: 255 }
    } else if i == 12 {
        Rgba { r: 0, g: 131, b: 199, a: 255 }
    } else if i == 13 {
        Rgba { r: 0, g: 0, b: 234, a: 255 }
    } else if i == 14 {
        Rgba { r: 207, g: 110, b: 228, a: 255 }
    } else {
        Rgba { r: 130, g: 0, b: 128, a: 255 }
    }
}

} // verus!
