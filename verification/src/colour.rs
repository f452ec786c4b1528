//! Colours: a high-dynamic-range RGB triple with each channel a fixed-point
//! fraction of one, and the bit-exact conversion into the packed 32-bit
//! little-endian-BGR integer that the display surface expects.
use vstd::prelude::*;
use vstd::arithmetic::div_mod::lemma_div_is_ordered;

verus! {

/// Channel value that stands for full intensity, one in fixed-point units.
pub const CHANNEL_ONE: u32 = 1_000_000;

/// An RGB colour; each channel ranges over `0 ..= CHANNEL_ONE`.
#[derive(Clone, Copy, PartialEq, Eq, Structural, Debug)]
pub struct HdrColour {
    pub red: u32,
    pub green: u32,
    pub blue: u32,
}

/// A channel within its nominal range.
pub open spec fn colour_wf(c: HdrColour) -> bool {
    &&& c.red <= CHANNEL_ONE
    &&& c.green <= CHANNEL_ONE
    &&& c.blue <= CHANNEL_ONE
}

/// Full white.
pub open spec fn white() -> HdrColour {
    HdrColour { red: CHANNEL_ONE, green: CHANNEL_ONE, blue: CHANNEL_ONE }
}

/// Full black.
pub open spec fn black() -> HdrColour {
    HdrColour { red: 0, green: 0, blue: 0 }
}

/// A channel scaled to a byte: multiplied by 255 and truncated, never
/// rounded.
pub open spec fn channel_byte(ch: u32) -> int {
    (ch * 255) / (CHANNEL_ONE as int)
}

/// The packed display colour: blue in the low byte, then green, then red.
pub open spec fn display_colour_spec(c: HdrColour) -> int {
    channel_byte(c.blue) + 256 * channel_byte(c.green) + 65536 * channel_byte(c.red)
}

/// Convert a colour to the packed 32-bit value the display surface takes:
/// each channel is truncated to a byte and the bytes are packed as
/// `blue | green << 8 | red << 16`.
pub fn hdr_to_display_colour(colour: &HdrColour) -> (d: u32)
    requires
        colour_wf(*colour),
    ensures
        d as int == display_colour_spec(*colour),
{
    let red: u32 = colour.red * 255 / CHANNEL_ONE;
    let green: u32 = colour.green * 255 / CHANNEL_ONE;
    let blue: u32 = colour.blue * 255 / CHANNEL_ONE;
    proof {
        lemma_div_is_ordered(colour.red * 255, 255_000_000, CHANNEL_ONE as int);
        lemma_div_is_ordered(colour.green * 255, 255_000_000, CHANNEL_ONE as int);
        lemma_div_is_ordered(colour.blue * 255, 255_000_000, CHANNEL_ONE as int);
        assert(blue | (green << 8u32) | (red << 16u32) == blue + green * 256 + red * 65536)
            by (bit_vector)
            requires
                red < 256u32,
                green < 256u32,
                blue < 256u32,
        ;
    }
    blue | (green << 8) | (red << 16)
}

} // verus!
