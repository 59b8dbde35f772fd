use vstd::prelude::*;
use vstd::arithmetic::div_mod::lemma_fundamental_div_mod_converse;
use vstd::string::StringExecFns;
use base64::Engine;
use crate::AppState;
use crate::AsciiError;
use crate::lut::{adjust_value, lemma_adjust_bounds, spec_adjust};
use crate::tensor::{LuminanceTensor, arr3_get};

verus! {

/// The adjusted grayscale image of one frame: RGBA bytes, four per pixel
/// in row-major order, every color channel the adjusted sample and alpha
/// fully opaque. This path renders tone, not glyphs: it bypasses the
/// glyph table on purpose.
pub open spec fn spec_preview_pixels(t: LuminanceTensor, b: int, c: int, f: int) -> Seq<u8> {
    Seq::new(
        (4 * (t.height as int) * (t.width as int)) as nat,
        |i: int|
            {
                let p = i / 4;
                let ch = i % 4;
                let y = p / (t.width as int);
                let x = p % (t.width as int);
                if ch == 3 {
                    255u8
                } else {
                    spec_adjust(b, c, t.at(f, y, x) as int) as u8
                }
            },
    )
}

/// Apply brightness and contrast to one frame, producing its opaque
/// grayscale RGBA buffer.
pub fn preview_pixels(t: &LuminanceTensor, brightness: i32, contrast_millis: u32, f: usize) -> (out:
    Vec<u8>)
    requires
        t.wf(),
        (f as int) < t.frames as int,
    ensures
        out@ == spec_preview_pixels(*t, brightness as int, contrast_millis as int, f as int),
{
    let h: usize = t.height;
    let w: usize = t.width;
    let ghost total: Seq<u8> = spec_preview_pixels(
        *t,
        brightness as int,
        contrast_millis as int,
        f as int,
    );
    let mut out: Vec<u8> = Vec::new();
    let mut y: usize = 0;
    while y < h
        invariant
            t.wf(),
            (f as int) < t.frames as int,
            h == t.height,
            w == t.width,
            total == spec_preview_pixels(*t, brightness as int, contrast_millis as int, f as int),
            y <= h,
            out@.len() == 4 * ((y as int) * (w as int)),
            forall|j: int| 0 <= j < out@.len() ==> out@[j] == total[j],
        decreases h - y,
    {
        let mut x: usize = 0;
        while x < w
            invariant
                t.wf(),
                (f as int) < t.frames as int,
                h == t.height,
                w == t.width,
                total == spec_preview_pixels(
                    *t,
                    brightness as int,
                    contrast_millis as int,
                    f as int,
                ),
                y < h,
                x <= w,
                out@.len() == 4 * ((y as int) * (w as int) + (x as int)),
                forall|j: int| 0 <= j < out@.len() ==> out@[j] == total[j],
            decreases w - x,
        {
            let gray: u8 = arr3_get(&t.arr, f, y, x);
            let g: u8 = adjust_value(brightness, contrast_millis, gray);
            proof {
                let p = (y as int) * (w as int) + (x as int);
                lemma_adjust_bounds(brightness as int, contrast_millis as int, gray as int);
                lemma_fundamental_div_mod_converse(p, w as int, y as int, x as int);
                lemma_fundamental_div_mod_converse(4 * p, 4, p, 0);
                lemma_fundamental_div_mod_converse(4 * p + 1, 4, p, 1);
                lemma_fundamental_div_mod_converse(4 * p + 2, 4, p, 2);
                lemma_fundamental_div_mod_converse(4 * p + 3, 4, p, 3);
                assert(p + 1 <= (h as int) * (w as int)) by (nonlinear_arith)
                    requires
                        0 <= (y as int) < (h as int),
                        0 <= (x as int) < (w as int),
                        p == (y as int) * (w as int) + (x as int),
                ;
                assert(4 * (h as int) * (w as int) == 4 * ((h as int) * (w as int)))
                    by (nonlinear_arith);
                assert(4 * p + 3 < total.len());
            }
            out.push(g);
            out.push(g);
            out.push(g);
            out.push(255);
            x = x + 1;
        }
        proof {
            assert(4 * (((y as int) + 1) * (w as int)) == 4 * ((y as int) * (w as int) + (w as int)))
                by (nonlinear_arith);
        }
        y = y + 1;
    }
    proof {
        assert(4 * (h as int) * (w as int) == 4 * ((h as int) * (w as int))) by (nonlinear_arith);
        assert(out@ =~= total);
    }
    out
}

/// What the PNG encoder produces from an opaque RGBA image of the given
/// dimensions. The result depends on the dimensions and bytes alone.
pub uninterp spec fn png_of(w: nat, h: nat, rgba: Seq<u8>) -> Seq<u8>;

/// Relies on image's `RgbaImage::from_raw` and its PNG encoder writing
/// to an in-memory cursor. `from_raw` accepts a container of exactly
/// width * height * 4 bytes. For nonzero dimensions, an RGBA8 buffer of
/// exactly that length and an in-memory writer, the PNG encoder has no
/// reachable error path, so the call always succeeds; the encoding is a
/// pure function of the dimensions and the pixel bytes (fixed filter and
/// compression settings, no randomness).
#[verifier::external_body]
fn encode_png(w: u32, h: u32, rgba: Vec<u8>) -> (r: Vec<u8>)
    requires
        1 <= w,
        1 <= h,
        rgba@.len() == 4 * (h as int) * (w as int),
    ensures
        r@ == png_of(w as nat, h as nat, rgba@),
{
    let img = image::RgbaImage::from_raw(w, h, rgba).expect("buffer length was checked");
    let mut buf: Vec<u8> = Vec::new();
    let mut cursor = std::io::Cursor::new(&mut buf);
    img.write_to(&mut cursor, image::ImageFormat::Png)
        .expect("in-memory PNG encoding of a nonzero-size RGBA8 image cannot fail");
    buf
}

/// What the standard-alphabet base64 encoder produces from a byte
/// sequence. The result depends on the bytes alone.
pub uninterp spec fn base64_of(bytes: Seq<u8>) -> Seq<char>;

/// Relies on base64's standard-alphabet engine: encoding is a pure
/// function of the input bytes, and it never fails.
#[verifier::external_body]
fn encode_base64(bytes: &Vec<u8>) -> (r: String)
    ensures
        r@ == base64_of(bytes@),
{
    base64::engine::general_purpose::STANDARD.encode(bytes)
}

/// A preview string: the data-URI prefix followed by the base64 text of
/// the PNG bytes.
pub open spec fn spec_data_uri(png: Seq<u8>) -> Seq<char> {
    "data:image/png;base64,"@ + base64_of(png)
}

/// What a preview request returns: `None` when nothing is cached,
/// otherwise the data URI of the adjusted grayscale PNG of one frame of
/// the representative (largest-width) tensor, the frame index wrapping
/// modulo the frame count.
pub open spec fn spec_preview(
    s: AppState,
    brightness: int,
    contrast_millis: int,
    frame_index: usize,
) -> Option<Seq<char>> {
    if s.cache.is_loaded() {
        let t = s.cache.tensors@[230];
        let f = (frame_index as int) % (t.frames as int);
        Some(
            spec_data_uri(
                png_of(
                    t.width as nat,
                    t.height as nat,
                    spec_preview_pixels(t, brightness, contrast_millis, f),
                ),
            ),
        )
    } else {
        None
    }
}

impl AppState {
    /// Produce one adjusted grayscale frame of the representative tensor
    /// (the largest cached width) as a base64 PNG data URI, ready for
    /// embedding. The frame index wraps modulo the frame count. Succeeds
    /// whenever something is cached and fails with `NoMediaLoaded`
    /// exactly otherwise; the result is a pure function of the state and
    /// the parameters.
    pub fn apply_adjustments_to_preview(
        &self,
        brightness: i32,
        contrast_millis: u32,
        frame_index: usize,
    ) -> (r: Result<String, AsciiError>)
        requires
            self.wf(),
        ensures
            r is Ok <==> self.cache.is_loaded(),
            match r {
                Ok(uri) => Some(uri@) == spec_preview(
                    *self,
                    brightness as int,
                    contrast_millis as int,
                    frame_index,
                ),
                Err(e) => e is NoMediaLoaded,
            },
    {
        if self.cache.tensors.len() == 0 {
            return Err(AsciiError::NoMediaLoaded);
        }
        let t: &LuminanceTensor = &self.cache.tensors[230];
        let f: usize = frame_index % t.frames;
        let pixels: Vec<u8> = preview_pixels(t, brightness, contrast_millis, f);
        let w32: u32 = t.width as u32;
        let h32: u32 = t.height as u32;
        let png: Vec<u8> = encode_png(w32, h32, pixels);
        let b64: String = encode_base64(&png);
        let mut uri: String = String::from_str("data:image/png;base64,");
        uri.append(b64.as_str());
        Ok(uri)
    }
}

} // verus!
