pub mod export;
pub mod frame;
pub mod lut;
pub mod preview;
pub mod render;
pub mod tensor;

use vstd::prelude::*;
use vstd::string::StringExecFns;
use crate::frame::{Frame, decode_gif, frames_match, frames_wf, gif_frames_of, spec_luma};
use crate::lut::{build_lut, spec_glyph, spec_lut};
use crate::render::{
    render_all_frames_text, render_frame_text, spec_all_frames_text, spec_frame_text,
};
use crate::tensor::{
    LuminanceTensor, TensorCache, cache_models, degenerate, rebuild, spec_out_height,
    tensor_models,
};

verus! {

/// Why a request was rejected. Every failure carries a human-readable
/// reason through `message`; none is retried.
#[derive(Debug)]
pub enum AsciiError {
    /// The byte stream is not a valid animated image of the supported
    /// format; the payload is the decoder's reason.
    Decode(String),
    /// The image decoded, but the tensors it implies would overflow the
    /// machine's address arithmetic.
    TooLarge,
    /// The requested width has no cache entry: it lies outside the
    /// supported range, or nothing has been loaded.
    NotCached,
    /// A preview was requested before any successful load.
    NoMediaLoaded,
}

impl AsciiError {
    /// The human-readable reason for the failure.
    pub fn message(&self) -> (m: String)
        ensures
            match self {
                AsciiError::Decode(s) => m@ == s@,
                AsciiError::TooLarge => m@ == "Image dimensions are too large"@,
                AsciiError::NotCached => m@ == "Width not cached"@,
                AsciiError::NoMediaLoaded => m@ == "No media loaded"@,
            },
    {
        match self {
            AsciiError::Decode(s) => s.clone(),
            AsciiError::TooLarge => String::from_str("Image dimensions are too large"),
            AsciiError::NotCached => String::from_str("Width not cached"),
            AsciiError::NoMediaLoaded => String::from_str("No media loaded"),
        }
    }
}

/// The long-lived application state: the current tensor cache and the
/// loaded image's frame count. Initialized empty, replaced wholesale by
/// each successful load, read by every conversion and preview request.
pub struct AppState {
    pub cache: TensorCache,
    pub frame_count: usize,
}

impl AppState {
    pub open spec fn wf(self) -> bool {
        &&& self.cache.wf()
        &&& self.cache.spec_frame_count() == self.frame_count as int
    }
}

impl Default for AppState {
    /// The empty state: nothing loaded yet.
    fn default() -> (s: AppState)
        ensures
            s.wf(),
            s.cache.tensors@.len() == 0,
            s.frame_count == 0,
    {
        AppState { cache: TensorCache { tensors: Vec::new() }, frame_count: 0 }
    }
}

/// A decoder output with nothing worth caching: no frames, or a
/// zero-sized first frame.
pub open spec fn model_degenerate(m: Seq<(usize, usize, Seq<u8>)>) -> bool {
    m.len() == 0 || m[0].0 == 0 || m[0].1 == 0
}

/// The largest tensor the decoder output implies still fits the machine's
/// address arithmetic.
pub open spec fn model_fits(m: Seq<(usize, usize, Seq<u8>)>) -> bool {
    (m.len() as int) * (spec_out_height(m[0].0 as nat, m[0].1 as nat, 250) as int) * 251
        <= isize::MAX as int
}

/// The cache was rebuilt from frames carrying exactly the decoder's
/// output.
pub open spec fn loaded_from(c: TensorCache, m: Seq<(usize, usize, Seq<u8>)>) -> bool {
    exists|fs: Seq<Frame>| frames_match(fs, m) && frames_wf(fs) && #[trigger] cache_models(c, fs)
}

/// What a conversion request returns: `None` when the width has no cache
/// entry (out of range, or nothing loaded), otherwise the row count and
/// the flat text buffer - one frame's text when a frame is selected (the
/// selector wrapping modulo the frame count), every frame's text
/// concatenated otherwise.
pub open spec fn spec_convert(
    s: AppState,
    width: u32,
    brightness: int,
    contrast_millis: int,
    only_frame: Option<usize>,
) -> Option<(int, Seq<u8>)> {
    if s.cache.is_loaded() && 20 <= width <= 250 {
        let t = s.cache.tensors@[width as int - 20];
        let lut = spec_lut(brightness, contrast_millis);
        match only_frame {
            Some(fi) => Some(
                ((t.height as int), spec_frame_text(t, lut, (fi as int) % (t.frames as int))),
            ),
            None => Some(((t.height as int), spec_all_frames_text(t, lut))),
        }
    } else {
        None
    }
}

impl AppState {
    /// Load an animated image from its raw bytes: decode every frame once,
    /// then rebuild the whole tensor cache, one tensor per supported
    /// width. Returns the frame count. A failed load leaves the previous
    /// state untouched; an image with zero frames (or zero-sized frames)
    /// is a valid "nothing loaded" result, not an error: the cache is
    /// emptied and the frame count drops to zero.
    pub fn load_gif(&mut self, bytes: &Vec<u8>) -> (r: Result<usize, AsciiError>)
        requires
            old(self).wf(),
        ensures
            final(self).wf(),
            r is Err ==> *final(self) == *old(self),
            match r {
                Ok(n) => match gif_frames_of(bytes@) {
                    Some(m) => {
                        if model_degenerate(m) {
                            &&& n == 0
                            &&& final(self).cache.tensors@.len() == 0
                            &&& final(self).frame_count == 0
                        } else {
                            &&& n as int == m.len()
                            &&& final(self).frame_count as int == m.len()
                            &&& loaded_from(final(self).cache, m)
                        }
                    },
                    None => false,
                },
                Err(e) => match gif_frames_of(bytes@) {
                    Some(m) => e is TooLarge && !model_degenerate(m) && !model_fits(m),
                    None => e is Decode,
                },
            },
    {
        let frames = match decode_gif(bytes) {
            Ok(fs) => fs,
            Err(msg) => {
                return Err(AsciiError::Decode(msg));
            },
        };
        let ghost m = gif_frames_of(bytes@).unwrap();
        if frames.len() == 0 {
            self.cache = TensorCache { tensors: Vec::new() };
            self.frame_count = 0;
            return Ok(0);
        }
        let c = match rebuild(&frames) {
            Some(c) => c,
            None => {
                proof {
                    assert(!degenerate(frames@));
                    assert(frames@[0].width == m[0].0 && frames@[0].height == m[0].1);
                }
                return Err(AsciiError::TooLarge);
            },
        };
        let n: usize = if c.tensors.len() == 0 {
            0
        } else {
            frames.len()
        };
        proof {
            assert(frames@[0].width == m[0].0 && frames@[0].height == m[0].1);
            if !degenerate(frames@) {
                assert(tensor_models(c.tensors@[0], frames@, 20nat));
                assert(cache_models(c, frames@));
                assert(loaded_from(c, m));
            }
        }
        self.cache = c;
        self.frame_count = n;
        Ok(n)
    }

    /// Convert the loaded image to ASCII text at the requested width,
    /// brightness and contrast (in thousandths). Returns the row count and
    /// the flat text buffer; fails with `NotCached` exactly when the width
    /// has no cache entry. A frame selector wraps modulo the frame count;
    /// without one, every frame is rendered, in parallel, into one
    /// contiguous buffer.
    pub fn convert_gif_to_ascii(
        &self,
        width: u32,
        brightness: i32,
        contrast_millis: u32,
        only_frame: Option<usize>,
    ) -> (r: Result<(u32, Vec<u8>), AsciiError>)
        requires
            self.wf(),
        ensures
            match r {
                Ok(p) => spec_convert(
                    *self,
                    width,
                    brightness as int,
                    contrast_millis as int,
                    only_frame,
                ) == Some(((p.0 as int), p.1@)),
                Err(e) => {
                    &&& spec_convert(
                        *self,
                        width,
                        brightness as int,
                        contrast_millis as int,
                        only_frame,
                    ) is None
                    &&& e is NotCached
                },
            },
    {
        if width < 20 || width > 250 {
            return Err(AsciiError::NotCached);
        }
        if self.cache.tensors.len() == 0 {
            return Err(AsciiError::NotCached);
        }
        let idx: usize = (width as usize) - 20;
        let t: &LuminanceTensor = &self.cache.tensors[idx];
        let lut: Vec<u8> = build_lut(brightness, contrast_millis);
        proof {
            assert(lut@ =~= spec_lut(brightness as int, contrast_millis as int));
        }
        let rows: u32 = t.height as u32;
        match only_frame {
            Some(fi) => {
                let f: usize = fi % t.frames;
                let buf = render_frame_text(t, &lut, f);
                Ok((rows, buf))
            },
            None => {
                let buf = render_all_frames_text(t, &lut);
                Ok((rows, buf))
            },
        }
    }
}

/// Conversion is a pure function of the state and the request: any two
/// results the conversion contract admits for the same width, brightness,
/// contrast and frame selector are identical, byte for byte.
pub proof fn lemma_convert_idempotent(
    s: AppState,
    width: u32,
    brightness: int,
    contrast_millis: int,
    only_frame: Option<usize>,
    r1: Option<(int, Seq<u8>)>,
    r2: Option<(int, Seq<u8>)>,
)
    requires
        r1 == spec_convert(s, width, brightness, contrast_millis, only_frame),
        r2 == spec_convert(s, width, brightness, contrast_millis, only_frame),
    ensures
        r1 == r2,
{
}

/// A frame selector equal to the frame count wraps to frame zero instead
/// of failing.
pub proof fn lemma_frame_selector_wraps(
    s: AppState,
    width: u32,
    brightness: int,
    contrast_millis: int,
)
    requires
        s.wf(),
        s.cache.is_loaded(),
        20 <= width <= 250,
    ensures
        spec_convert(s, width, brightness, contrast_millis, Some(s.frame_count)) == spec_convert(
            s,
            width,
            brightness,
            contrast_millis,
            Some(0usize),
        ),
{
    let t = s.cache.tensors@[width as int - 20];
    assert(t.frames == s.cache.tensors@[0].frames);
    assert((s.frame_count as int) % (t.frames as int) == 0);
    assert(0int % (t.frames as int) == 0);
}

/// Shape of every cached tensor: for each width of the supported range,
/// the cache built from an N-frame image holds a tensor with exactly N
/// layers, the contracted row count, and that width.
pub proof fn lemma_cache_shapes(c: TensorCache, fs: Seq<Frame>, w: int)
    requires
        cache_models(c, fs),
        !degenerate(fs),
        20 <= w <= 250,
    ensures
        c.tensors@.len() == 231,
        c.tensors@[w - 20].frames == fs.len(),
        c.tensors@[w - 20].width == w,
        c.tensors@[w - 20].height == spec_out_height(
            fs[0].width as nat,
            fs[0].height as nat,
            w as nat,
        ),
{
    assert(tensor_models(c.tensors@[w - 20], fs, (20 + (w - 20)) as nat));
}

/// A fully transparent source pixel always renders as the space glyph,
/// whatever its color: it samples as maximum luminance at cache-build
/// time, which the glyph map sends to the last palette entry for every
/// nonnegative brightness and every contrast at or above the tolerance
/// band's lower edge.
pub proof fn lemma_transparent_pixel_renders_space(
    r: u8,
    g: u8,
    b: u8,
    a: u8,
    brightness: int,
    contrast_millis: int,
)
    requires
        a < 128,
        0 <= brightness,
        990 <= contrast_millis,
    ensures
        spec_glyph(brightness, contrast_millis, spec_luma(r, g, b, a) as int) == 32u8,
{
    crate::frame::lemma_transparent_is_max(r, g, b, a);
    crate::lut::lemma_max_luminance_renders_space(brightness, contrast_millis);
}

} // verus!
