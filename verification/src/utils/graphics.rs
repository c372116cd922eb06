//! Pixel formats in FreeRDP's packed notation.

use vstd::prelude::*;

verus! {

/// FreeRDP's `FREERDP_PIXEL_FORMAT(bpp, type, a, r, g, b)`: bits per pixel in
/// the top byte, the format type in the next, then one nibble per channel
/// depth (alpha, red, green, blue), each OR-ed into place.
pub open spec fn spec_pixel_format(bpp: u8, pixel_type: u8, a: u8, r: u8, g: u8, b: u8) -> u32 {
    ((bpp as u32) << 24u32) | ((pixel_type as u32) << 16u32) | ((a as u32) << 12u32) | ((r as u32) << 8u32)
        | ((g as u32) << 4u32) | (b as u32)
}

/// Pack a pixel format descriptor.
pub fn pixel_format(bpp: u8, pixel_type: u8, a: u8, r: u8, g: u8, b: u8) -> (pf: u32)
    ensures
        pf == spec_pixel_format(bpp, pixel_type, a, r, g, b),
{
    ((bpp as u32) << 24) | ((pixel_type as u32) << 16) | ((a as u32) << 12) | ((r as u32) << 8) | ((g as u32) << 4)
        | (b as u32)
}

/// When every channel depth fits its nibble, each field of a pixel format
/// can be read back from it.
pub proof fn lemma_pixel_format_fields(bpp: u8, pixel_type: u8, a: u8, r: u8, g: u8, b: u8)
    requires
        a < 16,
        r < 16,
        g < 16,
        b < 16,
    ensures
        spec_pixel_format(bpp, pixel_type, a, r, g, b) >> 24u32 == bpp as u32,
        (spec_pixel_format(bpp, pixel_type, a, r, g, b) >> 16u32) & 0xffu32 == pixel_type as u32,
        (spec_pixel_format(bpp, pixel_type, a, r, g, b) >> 12u32) & 0xfu32 == a as u32,
        (spec_pixel_format(bpp, pixel_type, a, r, g, b) >> 8u32) & 0xfu32 == r as u32,
        (spec_pixel_format(bpp, pixel_type, a, r, g, b) >> 4u32) & 0xfu32 == g as u32,
        spec_pixel_format(bpp, pixel_type, a, r, g, b) & 0xfu32 == b as u32,
{
    let (bpp32, t32, a32, r32, g32, b32) = (bpp as u32, pixel_type as u32, a as u32, r as u32, g as u32, b as u32);
    assert(bpp32 < 256 && t32 < 256 && a32 < 16 && r32 < 16 && g32 < 16 && b32 < 16);
    assert({
        let pf = (bpp32 << 24u32) | (t32 << 16u32) | (a32 << 12u32) | (r32 << 8u32) | (g32 << 4u32) | b32;
        bpp32 < 256 && t32 < 256 && a32 < 16 && r32 < 16 && g32 < 16 && b32 < 16 ==> {
            &&& pf >> 24u32 == bpp32
            &&& (pf >> 16u32) & 0xffu32 == t32
            &&& (pf >> 12u32) & 0xfu32 == a32
            &&& (pf >> 8u32) & 0xfu32 == r32
            &&& (pf >> 4u32) & 0xfu32 == g32
            &&& pf & 0xfu32 == b32
        }
    }) by (bit_vector);
}

} // verus!
