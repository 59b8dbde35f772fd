use vstd::prelude::*;

verus! {

/// Number of glyphs in the fixed palette.
pub const PALETTE_LEN: usize = 71;

/// The fixed glyph palette, ordered from most ink to least ink (the last
/// entry is a space). Which glyph a luminance bucket maps to is a
/// compatibility contract, so the exact bytes and their order matter.
pub open spec fn palette() -> Seq<u8> {
    seq![
        36u8, 36u8, 64u8, 66u8, 37u8, 56u8, 38u8, 87u8, 77u8, 35u8, 42u8, 111u8, 97u8, 104u8,
        107u8, 98u8, 100u8, 112u8, 113u8, 119u8, 109u8, 90u8, 79u8, 48u8, 81u8, 76u8, 67u8, 74u8,
        85u8, 89u8, 88u8, 122u8, 99u8, 118u8, 117u8, 110u8, 120u8, 114u8, 106u8, 102u8, 116u8,
        47u8, 92u8, 124u8, 40u8, 41u8, 49u8, 123u8, 125u8, 91u8, 93u8, 63u8, 45u8, 95u8, 43u8,
        126u8, 60u8, 62u8, 105u8, 33u8, 108u8, 73u8, 59u8, 58u8, 44u8, 34u8, 94u8, 96u8, 39u8,
        46u8, 32u8,
    ]
}

/// The palette as an executable byte vector.
pub fn palette_bytes() -> (v: Vec<u8>)
    ensures
        v@ == palette(),
{
    let mut v: Vec<u8> = Vec::new();
    v.push(36); v.push(36); v.push(64); v.push(66); v.push(37); v.push(56); v.push(38);
    v.push(87); v.push(77); v.push(35); v.push(42); v.push(111); v.push(97); v.push(104);
    v.push(107); v.push(98); v.push(100); v.push(112); v.push(113); v.push(119); v.push(109);
    v.push(90); v.push(79); v.push(48); v.push(81); v.push(76); v.push(67); v.push(74);
    v.push(85); v.push(89); v.push(88); v.push(122); v.push(99); v.push(118); v.push(117);
    v.push(110); v.push(120); v.push(114); v.push(106); v.push(102); v.push(116); v.push(47);
    v.push(92); v.push(124); v.push(40); v.push(41); v.push(49); v.push(123); v.push(125);
    v.push(91); v.push(93); v.push(63); v.push(45); v.push(95); v.push(43); v.push(126);
    v.push(60); v.push(62); v.push(105); v.push(33); v.push(108); v.push(73); v.push(59);
    v.push(58); v.push(44); v.push(34); v.push(94); v.push(96); v.push(39); v.push(46);
    v.push(32);
    proof {
        assert(v@ =~= palette());
    }
    v
}

/// Contrast is carried as a fixed-point value in thousandths; adjustment is
/// skipped while the value lies within the tolerance band around 1.000.
pub open spec fn contrast_active(contrast_millis: int) -> bool {
    contrast_millis < 990 || contrast_millis > 1010
}

/// Brightness/contrast adjustment of one 8-bit sample, carried in
/// thousandths of a gray level: add the brightness, scale around the
/// mid-point by contrast (when outside the tolerance band), and clamp to
/// [0, 255] gray — [0, 255000] in thousandths. No precision is lost
/// before the clamp: rounding happens only where a whole-unit gray level
/// or a palette index is finally taken.
pub open spec fn spec_adjust_millis(brightness: int, contrast_millis: int, v0: int) -> int {
    let v2m = if contrast_active(contrast_millis) {
        (v0 + brightness - 128) * contrast_millis + 128000
    } else {
        (v0 + brightness) * 1000
    };
    if v2m < 0 {
        0
    } else if v2m > 255000 {
        255000
    } else {
        v2m
    }
}

/// The adjusted sample in whole gray levels, as the preview draws it:
/// the clamped value truncated to an integer.
pub open spec fn spec_adjust(brightness: int, contrast_millis: int, v0: int) -> int {
    spec_adjust_millis(brightness, contrast_millis, v0) / 1000
}

/// Palette index of an adjusted sample: the linear map of [0, 255] onto
/// [0, PALETTE_LEN - 1] with integer truncation, `v * (L-1) / 255`, taken
/// on the exact thousandth-valued sample (so `v * (L-1) * 1000 / 255000`,
/// which is the same ratio).
pub open spec fn spec_glyph_index(brightness: int, contrast_millis: int, v0: int) -> int {
    spec_adjust_millis(brightness, contrast_millis, v0) * (PALETTE_LEN - 1) / 255000
}

/// The glyph an 8-bit luminance value renders as, under the given
/// brightness and contrast.
pub open spec fn spec_glyph(brightness: int, contrast_millis: int, v0: int) -> u8 {
    palette()[spec_glyph_index(brightness, contrast_millis, v0)]
}

pub proof fn lemma_adjust_bounds(brightness: int, contrast_millis: int, v0: int)
    ensures
        0 <= spec_adjust_millis(brightness, contrast_millis, v0) <= 255000,
        0 <= spec_adjust(brightness, contrast_millis, v0) <= 255,
        0 <= spec_glyph_index(brightness, contrast_millis, v0) < PALETTE_LEN,
{
    let m = spec_adjust_millis(brightness, contrast_millis, v0);
    assert(m / 1000 <= 255 && m / 1000 >= 0) by (nonlinear_arith)
        requires
            0 <= m <= 255000,
    ;
    assert(m * 70 / 255000 < 71 && m * 70 / 255000 >= 0) by (nonlinear_arith)
        requires
            0 <= m <= 255000,
    ;
}

/// Executable adjustment of one sample, in thousandths of a gray level.
pub fn adjust_millis(brightness: i32, contrast_millis: u32, v0: u8) -> (r: u32)
    ensures
        r as int == spec_adjust_millis(brightness as int, contrast_millis as int, v0 as int),
{
    let ghost ci: int = contrast_millis as int;
    let v2m: i128 = if contrast_millis < 990 || contrast_millis > 1010 {
        let d: i64 = v0 as i64 + brightness as i64 - 128;
        proof {
            assert(-0x8000_0080 <= d as int <= 0x8000_0080);
            assert((d as int) * ci <= 0x8000_0080 * 0xffff_ffff && (d as int) * ci >= -(
            0x8000_0080 * 0xffff_ffff)) by (nonlinear_arith)
                requires
                    -0x8000_0080 <= d as int <= 0x8000_0080,
                    0 <= ci <= 0xffff_ffff,
            ;
        }
        (d as i128) * (contrast_millis as i128) + 128000
    } else {
        (v0 as i128 + brightness as i128) * 1000
    };
    if v2m < 0 {
        0
    } else if v2m > 255000 {
        255000u32
    } else {
        v2m as u32
    }
}

/// Executable adjustment of one sample in whole gray levels, as the
/// preview draws it.
pub fn adjust_value(brightness: i32, contrast_millis: u32, v0: u8) -> (r: u8)
    ensures
        r as int == spec_adjust(brightness as int, contrast_millis as int, v0 as int),
{
    let m: u32 = adjust_millis(brightness, contrast_millis, v0);
    proof {
        lemma_adjust_bounds(brightness as int, contrast_millis as int, v0 as int);
    }
    (m / 1000) as u8
}

/// Executable glyph lookup for one sample.
pub fn glyph_for(brightness: i32, contrast_millis: u32, v0: u8, pal: &Vec<u8>) -> (r: u8)
    requires
        pal@ == palette(),
    ensures
        r == spec_glyph(brightness as int, contrast_millis as int, v0 as int),
{
    let m: u32 = adjust_millis(brightness, contrast_millis, v0);
    proof {
        lemma_adjust_bounds(brightness as int, contrast_millis as int, v0 as int);
        assert(m as int * 70 <= 17850000) by (nonlinear_arith)
            requires
                0 <= m as int <= 255000,
        ;
    }
    let idx: usize = ((m * 70) / 255000) as usize;
    pal[idx]
}

/// A brightness/contrast lookup table has one glyph for every 8-bit
/// luminance value.
pub open spec fn lut_matches(lut: Seq<u8>, brightness: int, contrast_millis: int) -> bool {
    &&& lut.len() == 256
    &&& forall|i: int| 0 <= i < 256 ==> lut[i] == spec_glyph(brightness, contrast_millis, i)
}

/// Build the 256-entry luminance-to-glyph table for one
/// brightness/contrast pair. Rebuilt on every request: the parameters are
/// per-request, never persisted.
pub fn build_lut(brightness: i32, contrast_millis: u32) -> (lut: Vec<u8>)
    ensures
        lut_matches(lut@, brightness as int, contrast_millis as int),
{
    let pal = palette_bytes();
    let mut lut: Vec<u8> = Vec::new();
    let mut i: usize = 0;
    while i < 256
        invariant
            i <= 256,
            lut@.len() == i,
            pal@ == palette(),
            forall|j: int|
                0 <= j < i ==> lut@[j] == spec_glyph(
                    brightness as int,
                    contrast_millis as int,
                    j,
                ),
        decreases 256 - i,
    {
        let g = glyph_for(brightness, contrast_millis, i as u8, &pal);
        lut.push(g);
        i = i + 1;
    }
    lut
}

/// The table is a pure function of its parameters: the same brightness and
/// contrast always yield the same 256 entries, whenever and however often
/// it is built.
pub proof fn lemma_lut_deterministic(
    lut_a: Seq<u8>,
    lut_b: Seq<u8>,
    brightness: int,
    contrast_millis: int,
)
    requires
        lut_matches(lut_a, brightness, contrast_millis),
        lut_matches(lut_b, brightness, contrast_millis),
    ensures
        lut_a == lut_b,
{
    assert(lut_a =~= lut_b);
}

/// Within the tolerance band around 1.000 the contrast step is skipped
/// entirely, so every such contrast value yields the very table that exact
/// unit contrast yields; a value outside the band is scaled.
pub proof fn lemma_contrast_tolerance_band(
    lut_a: Seq<u8>,
    lut_b: Seq<u8>,
    brightness: int,
    contrast_a: int,
    contrast_b: int,
)
    requires
        990 <= contrast_a <= 1010,
        990 <= contrast_b <= 1010,
        lut_matches(lut_a, brightness, contrast_a),
        lut_matches(lut_b, brightness, contrast_b),
    ensures
        lut_a == lut_b,
{
    assert(lut_a =~= lut_b);
}

/// The glyph table as a mathematical sequence: entry `i` is the glyph for
/// luminance `i`.
pub open spec fn spec_lut(brightness: int, contrast_millis: int) -> Seq<u8> {
    Seq::new(256, |i: int| spec_glyph(brightness, contrast_millis, i))
}

/// Maximum luminance renders as the last palette entry, the space, under
/// any nonnegative brightness and any contrast at or above the tolerance
/// band's lower edge: inside the band the adjustment is skipped, and above
/// it the scaled value only saturates further.
pub proof fn lemma_max_luminance_renders_space(brightness: int, contrast_millis: int)
    requires
        0 <= brightness,
        990 <= contrast_millis,
    ensures
        spec_glyph(brightness, contrast_millis, 255) == 32u8,
{
    if contrast_millis > 1010 {
        assert((255 + brightness - 128) * contrast_millis >= 127 * 1011) by (nonlinear_arith)
            requires
                255 + brightness - 128 >= 127,
                contrast_millis >= 1011,
        ;
    }
    assert(spec_adjust_millis(brightness, contrast_millis, 255) == 255000);
    assert(spec_glyph_index(brightness, contrast_millis, 255) == 70) by {
        assert(255000int * 70 == 17850000);
    }
    assert(palette()[70] == 32u8);
}

} // verus!
