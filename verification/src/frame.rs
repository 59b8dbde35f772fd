use vstd::prelude::*;

verus! {

/// One decoded frame: a rectangular grid of RGBA pixels, four bytes per
/// pixel in row-major order. Read-only after decoding.
pub struct Frame {
    pub width: usize,
    pub height: usize,
    pub pixels: Vec<u8>,
}

impl Frame {
    /// The pixel buffer holds exactly four bytes for every pixel.
    pub open spec fn wf(self) -> bool {
        self.pixels@.len() == 4 * self.width * self.height
    }

    /// Channel `c` (0 = red, 1 = green, 2 = blue, 3 = alpha) of the pixel
    /// at row `y`, column `x`.
    pub open spec fn channel(self, y: int, x: int, c: int) -> u8 {
        self.pixels@[4 * (y * self.width + x) + c]
    }
}

/// A decoded sequence is well formed when every frame carries a full RGBA
/// buffer and all frames share the dimensions of the first, each axis
/// fitting the animated format's 16-bit size fields.
pub open spec fn frames_wf(fs: Seq<Frame>) -> bool {
    forall|i: int|
        0 <= i < fs.len() ==> {
            &&& (#[trigger] fs[i]).wf()
            &&& fs[i].width == fs[0].width
            &&& fs[i].height == fs[0].height
            &&& fs[i].width <= 65535
            &&& fs[i].height <= 65535
        }
}

/// What the animated-image decoder produces from a byte stream: `None`
/// when the stream is rejected, otherwise the frames in temporal order,
/// each as (width, height, RGBA bytes). The result depends on the bytes
/// alone.
pub uninterp spec fn gif_frames_of(bytes: Seq<u8>) -> Option<Seq<(usize, usize, Seq<u8>)>>;

/// The frame sequence carries exactly the decoder's output.
pub open spec fn frames_match(fs: Seq<Frame>, m: Seq<(usize, usize, Seq<u8>)>) -> bool {
    &&& fs.len() == m.len()
    &&& forall|i: int|
        0 <= i < fs.len() ==> {
            &&& (#[trigger] fs[i]).width == m[i].0
            &&& fs[i].height == m[i].1
            &&& fs[i].pixels@ == m[i].2
        }
}

/// Relies on image's GIF decoder (`GifDecoder` with `into_frames` /
/// `collect_frames`): decoding is a pure function of the input bytes; every
/// produced frame buffer is composited onto the logical screen, so all
/// frames share the screen dimensions, which the format stores in 16-bit
/// fields; an `RgbaImage`'s raw container holds width * height * 4 bytes.
#[verifier::external_body]
pub fn decode_gif(bytes: &Vec<u8>) -> (r: Result<Vec<Frame>, String>)
    ensures
        r is Ok <==> gif_frames_of(bytes@) is Some,
        r is Ok ==> frames_match(r.unwrap()@, gif_frames_of(bytes@).unwrap()),
        r is Ok ==> frames_wf(r.unwrap()@),
{
    let cursor = std::io::Cursor::new(bytes.as_slice());
    let decoder = image::codecs::gif::GifDecoder::new(cursor).map_err(|e| e.to_string())?;
    let frames = image::AnimationDecoder::into_frames(decoder)
        .collect_frames()
        .map_err(|e| e.to_string())?;
    Ok(frames
        .into_iter()
        .map(|f| {
            let b = f.into_buffer();
            let (w, h) = (b.width() as usize, b.height() as usize);
            Frame { width: w, height: h, pixels: b.into_raw() }
        })
        .collect())
}

/// Luminance of one RGBA sample: a pixel whose alpha is below 128 counts
/// as fully transparent and gets the maximum value 255 (it renders as the
/// sparsest glyph); otherwise the fixed integer weights
/// `(19595*R + 38470*G + 7471*B) >> 16` apply (the shift is division by
/// 65536).
pub open spec fn spec_luma(r: u8, g: u8, b: u8, a: u8) -> u8 {
    if a < 128 {
        255u8
    } else {
        (((r as int) * 19595 + (g as int) * 38470 + (b as int) * 7471) / 65536) as u8
    }
}

pub fn luma(r: u8, g: u8, b: u8, a: u8) -> (v: u8)
    ensures
        v == spec_luma(r, g, b, a),
{
    if a < 128 {
        255
    } else {
        let s: u32 = r as u32 * 19595 + g as u32 * 38470 + b as u32 * 7471;
        (s / 65536) as u8
    }
}

/// A fully transparent pixel always samples as 255, whatever its color:
/// transparency bypasses the weighted formula entirely.
pub proof fn lemma_transparent_is_max(r: u8, g: u8, b: u8, a: u8)
    requires
        a < 128,
    ensures
        spec_luma(r, g, b, a) == 255u8,
{
}

} // verus!
