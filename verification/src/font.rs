//! The built-in font: 16 hexadecimal glyphs of 5 bytes each (80 bytes in
//! all), loaded into the lowest memory addresses at construction time. The
//! glyph for hexadecimal digit `d` starts at address `d * 5`.

use vstd::prelude::*;

verus! {

/// The 80 font bytes, glyphs 0 through F in order, 5 bytes per glyph.
pub open spec fn spec_font() -> Seq<u8> {
    seq![
        96u8, 144, 144, 144, 96, 96, 32, 32, 32, 112, 192, 32,
        96, 128, 96, 192, 32, 224, 32, 192, 144, 144, 112, 16,
        16, 112, 64, 112, 16, 96, 112, 128, 224, 144, 96, 112,
        16, 32, 32, 64, 96, 144, 96, 144, 96, 48, 80, 112,
        16, 96, 96, 160, 224, 160, 160, 192, 160, 224, 160, 192,
        112, 128, 128, 128, 112, 96, 80, 80, 80, 96, 112, 128,
        240, 128, 112, 112, 64, 112, 64, 64,
    ]
}

/// The font table as an executable vector of its 80 bytes.
pub fn font_data() -> (r: Vec<u8>)
    ensures
        r@ == spec_font(),
        r@.len() == 80,
{
    let r: Vec<u8> = vec![
        96u8, 144, 144, 144, 96, 96, 32, 32, 32, 112, 192, 32,
        96, 128, 96, 192, 32, 224, 32, 192, 144, 144, 112, 16,
        16, 112, 64, 112, 16, 96, 112, 128, 224, 144, 96, 112,
        16, 32, 32, 64, 96, 144, 96, 144, 96, 48, 80, 112,
        16, 96, 96, 160, 224, 160, 160, 192, 160, 224, 160, 192,
        112, 128, 128, 128, 112, 96, 80, 80, 80, 96, 112, 128,
        240, 128, 112, 112, 64, 112, 64, 64,
    ];
    proof {
        assert(r@ =~= spec_font());
    }
    r
}

} // verus!
