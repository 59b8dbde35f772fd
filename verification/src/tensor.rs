use vstd::prelude::*;
use vstd::arithmetic::div_mod::lemma_div_is_ordered;
use crate::frame::{Frame, frames_wf, spec_luma, luma};
use rayon::iter::{IntoParallelIterator, ParallelIterator};

verus! {

/// A three-dimensional array of 8-bit luminance samples, held in an
/// `ndarray::Array3`. The array itself is opaque here; everything the
/// verified code knows of it is stated over `tensor_data` and
/// `tensor_shape` by the accessors below.
#[verifier::external_body]
pub struct Tensor3 {
    arr: ndarray::Array3<u8>,
}

/// The samples a three-dimensional array holds, flattened in row-major
/// (logical index) order.
pub uninterp spec fn tensor_data(t: Tensor3) -> Seq<u8>;

/// The shape of a three-dimensional array: (frames, rows, columns).
pub uninterp spec fn tensor_shape(t: Tensor3) -> (nat, nat, nat);

/// Relies on ndarray's `Array3::zeros`: a zero-filled array of the given
/// shape; it panics only when the product of non-zero axis lengths
/// overflows `isize`, which the precondition rules out.
#[verifier::external_body]
pub(crate) fn arr3_zeros(f: usize, h: usize, w: usize) -> (t: Tensor3)
    requires
        1 <= f,
        1 <= h,
        1 <= w,
        (f as int) * (h as int) * (w as int) <= isize::MAX as int,
    ensures
        tensor_shape(t) == ((f as nat, h as nat, w as nat)),
        tensor_data(t) == Seq::new((f * h * w) as nat, |i: int| 0u8),
{
    Tensor3 { arr: ndarray::Array3::zeros((f, h, w)) }
}

/// Relies on indexed assignment (`IndexMut`) for `Array3`: it stores one
/// sample at the given logical position and leaves the rest of the array
/// unchanged.
#[verifier::external_body]
pub(crate) fn arr3_set(t: &mut Tensor3, f: usize, y: usize, x: usize, v: u8)
    requires
        (f as nat) < tensor_shape(*old(t)).0,
        (y as nat) < tensor_shape(*old(t)).1,
        (x as nat) < tensor_shape(*old(t)).2,
        tensor_data(*old(t)).len() == tensor_shape(*old(t)).0 * tensor_shape(*old(t)).1
            * tensor_shape(*old(t)).2,
    ensures
        tensor_shape(*final(t)) == tensor_shape(*old(t)),
        tensor_data(*final(t)) == tensor_data(*old(t)).update(
            ((f as int) * (tensor_shape(*old(t)).1 as int) + (y as int))
                * (tensor_shape(*old(t)).2 as int) + (x as int),
            v,
        ),
{
    t.arr[[f, y, x]] = v;
}

/// Relies on indexed access (`Index`) for `Array3`: it reads the sample at
/// the given logical position.
#[verifier::external_body]
pub(crate) fn arr3_get(t: &Tensor3, f: usize, y: usize, x: usize) -> (v: u8)
    requires
        (f as nat) < tensor_shape(*t).0,
        (y as nat) < tensor_shape(*t).1,
        (x as nat) < tensor_shape(*t).2,
        tensor_data(*t).len() == tensor_shape(*t).0 * tensor_shape(*t).1 * tensor_shape(*t).2,
    ensures
        v == tensor_data(*t)[((f as int) * (tensor_shape(*t).1 as int) + (y as int))
            * (tensor_shape(*t).2 as int) + (x as int)],
{
    t.arr[[f, y, x]]
}

/// One cached luminance tensor: 8-bit samples indexed by
/// (frame, row, column) for a single output width.
pub struct LuminanceTensor {
    pub frames: usize,
    pub height: usize,
    pub width: usize,
    pub arr: Tensor3,
}

impl LuminanceTensor {
    pub open spec fn wf(self) -> bool {
        &&& 1 <= self.frames
        &&& 1 <= self.height <= 0x7d_0000
        &&& 1 <= self.width
        &&& tensor_shape(self.arr) == ((self.frames as nat, self.height as nat, self.width as nat))
        &&& tensor_data(self.arr).len() == (self.frames as int) * (self.height as int)
            * (self.width as int)
        &&& (self.frames as int) * (self.height as int) * ((self.width as int) + 1)
            <= isize::MAX as int
    }

    /// The stored luminance sample at (frame, row, column).
    pub open spec fn at(self, f: int, y: int, x: int) -> u8 {
        tensor_data(self.arr)[(f * (self.height as int) + y) * (self.width as int) + x]
    }
}

/// Output row count for a target width `w`, given the source dimensions:
/// `max(1, floor(w * (orig_h / orig_w) * 0.5))`, the halving compensating
/// for character cells being about twice as tall as they are wide.
pub open spec fn spec_out_height(orig_w: nat, orig_h: nat, w: nat) -> nat
    recommends
        orig_w > 0,
{
    let h = (w * orig_h) / (2 * orig_w);
    if h < 1 {
        1
    } else {
        h
    }
}

pub fn out_height(orig_w: usize, orig_h: usize, w: usize) -> (h: usize)
    requires
        1 <= orig_w <= 65535,
        orig_h <= 65535,
        w <= 250,
    ensures
        h == spec_out_height(orig_w as nat, orig_h as nat, w as nat),
        1 <= h <= 0x7d_0000,
{
    proof {
        assert((w as int) * (orig_h as int) <= 250 * 65535) by (nonlinear_arith)
            requires
                w <= 250,
                orig_h <= 65535,
        ;
    }
    let num: u64 = (w as u64) * (orig_h as u64);
    proof {
        lemma_div_is_ordered(0, num as int, 2 * orig_w as int);
        lemma_div_is_ordered(num as int, 250 * 65535int, 2 * orig_w as int);
        lemma_div_is_ordered(num as int, 250 * 65535int, 2);
        assert(250 * 65535int / (2 * orig_w as int) <= 250 * 65535int / 2) by {
            vstd::arithmetic::div_mod::lemma_div_is_ordered_by_denominator(
                250 * 65535int,
                2,
                2 * orig_w as int,
            );
        }
    }
    let q: u64 = num / (2 * orig_w as u64);
    let h: u64 = if q < 1 { 1 } else { q };
    h as usize
}

/// Heights shrink with the requested width.
pub proof fn lemma_out_height_mono(ow: nat, oh: nat, w1: nat, w2: nat)
    requires
        1 <= ow,
        w1 <= w2,
    ensures
        spec_out_height(ow, oh, w1) <= spec_out_height(ow, oh, w2),
{
    assert(w1 * oh <= w2 * oh) by (nonlinear_arith)
        requires
            w1 <= w2,
            0 <= oh,
    ;
    lemma_div_is_ordered((w1 * oh) as int, (w2 * oh) as int, 2 * ow as int);
}

/// The sample the cache stores for frame `f` at output position (y, x) of
/// a tensor with `h` rows and `w` columns: the luminance of the
/// nearest-neighbor source pixel, sampled at
/// (floor(y * orig_h / h), floor(x * orig_w / w)).
pub open spec fn spec_tensor_entry(fs: Seq<Frame>, h: nat, w: nat, f: int, y: int, x: int) -> u8
    recommends
        1 <= h,
        1 <= w,
{
    let ow = fs[0].width as int;
    let oh = fs[0].height as int;
    let sy = y * oh / (h as int);
    let sx = x * ow / (w as int);
    spec_luma(
        fs[f].channel(sy, sx, 0),
        fs[f].channel(sy, sx, 1),
        fs[f].channel(sy, sx, 2),
        fs[f].channel(sy, sx, 3),
    )
}

/// A tensor faithfully caches the downsampled luminance of `fs` at width
/// `w`: it has one layer per frame, the contracted row count, exactly `w`
/// columns, and every sample is the nearest-neighbor luminance.
pub open spec fn tensor_models(t: LuminanceTensor, fs: Seq<Frame>, w: nat) -> bool {
    &&& t.wf()
    &&& t.frames == fs.len()
    &&& t.width == w
    &&& t.height == spec_out_height(fs[0].width as nat, fs[0].height as nat, w)
    &&& forall|f: int, y: int, x: int|
        0 <= f < t.frames && 0 <= y < t.height && 0 <= x < t.width ==> t.at(f, y, x)
            == spec_tensor_entry(fs, t.height as nat, w, f, y, x)
}

proof fn lemma_flat_lt(h: int, w: int, f2: int, y2: int, x2: int, f: int, y: int, x: int)
    requires
        0 <= y2 < h,
        0 <= x2 < w,
        0 <= y < h,
        0 <= x < w,
        0 <= f2,
        0 <= f,
        f2 < f || (f2 == f && y2 < y) || (f2 == f && y2 == y && x2 < x),
    ensures
        (f2 * h + y2) * w + x2 < (f * h + y) * w + x,
{
    assert((f2 * h + y2) * w + x2 < (f * h + y) * w + x) by (nonlinear_arith)
        requires
            0 <= y2 < h,
            0 <= x2 < w,
            0 <= y < h,
            0 <= x < w,
            0 <= f2,
            0 <= f,
            f2 < f || (f2 == f && y2 < y) || (f2 == f && y2 == y && x2 < x),
    ;
}

proof fn lemma_flat_in_range(fc: int, h: int, w: int, f: int, y: int, x: int)
    requires
        0 <= f < fc,
        0 <= y < h,
        0 <= x < w,
    ensures
        0 <= (f * h + y) * w + x < fc * h * w,
{
    assert(0 <= (f * h + y) * w + x < fc * h * w) by (nonlinear_arith)
        requires
            0 <= f < fc,
            0 <= y < h,
            0 <= x < w,
    ;
}

/// Everything the per-width builder needs of a decoded frame sequence and
/// a candidate width, including that the largest tensor the pair implies
/// still fits the machine's address arithmetic.
pub open spec fn can_build(fs: Seq<Frame>, w: nat) -> bool {
    &&& frames_wf(fs)
    &&& 1 <= fs.len()
    &&& 1 <= fs[0].width
    &&& 1 <= fs[0].height
    &&& 20 <= w <= 250
    &&& (fs.len() as int) * (spec_out_height(fs[0].width as nat, fs[0].height as nat, w) as int)
        * ((w + 1) as int) <= isize::MAX as int
}

/// Build the luminance tensor for one output width by nearest-neighbor
/// downsampling of every frame, using integer arithmetic only.
pub fn build_width_tensor(frames: &Vec<Frame>, w: usize) -> (t: LuminanceTensor)
    requires
        can_build(frames@, w as nat),
    ensures
        tensor_models(t, frames@, w as nat),
{
    let fc: usize = frames.len();
    let ow: usize = frames[0].width;
    let oh: usize = frames[0].height;
    let h: usize = out_height(ow, oh, w);
    let ghost hi = h as int;
    let ghost wi = w as int;
    let ghost fci = fc as int;
    proof {
        assert(fci * hi * wi <= fci * hi * (wi + 1) && fci * hi * wi >= 1) by (nonlinear_arith)
            requires
                1 <= fci && 1 <= hi && 1 <= wi,
        ;
    }
    proof {
        assert(frames@[0].wf());
        assert(1 <= ow <= 65535 && 1 <= oh <= 65535);
    }
    let mut arr = arr3_zeros(fc, h, w);
    let mut f: usize = 0;
    while f < fc
        invariant
            can_build(frames@, w as nat),
            fc == frames@.len(),
            hi == h as int,
            wi == w as int,
            fci == fc as int,
            ow == frames@[0].width,
            oh == frames@[0].height,
            1 <= ow <= 65535,
            1 <= oh <= 65535,
            h == spec_out_height(ow as nat, oh as nat, w as nat),
            1 <= h <= 0x7d_0000,
            f <= fc,
            tensor_shape(arr) == ((fc as nat, h as nat, w as nat)),
            tensor_data(arr).len() == fci * hi * wi,
            forall|f2: int, y2: int, x2: int|
                0 <= f2 < f && 0 <= y2 < hi && 0 <= x2 < wi ==> tensor_data(arr)[(f2 * hi + y2)
                    * wi + x2] == spec_tensor_entry(frames@, h as nat, w as nat, f2, y2, x2),
        decreases fc - f,
    {
        let mut y: usize = 0;
        while y < h
            invariant
                can_build(frames@, w as nat),
                fc == frames@.len(),
                hi == h as int,
                wi == w as int,
                fci == fc as int,
                ow == frames@[0].width,
                oh == frames@[0].height,
                1 <= ow <= 65535,
                1 <= oh <= 65535,
                h == spec_out_height(ow as nat, oh as nat, w as nat),
                1 <= h <= 0x7d_0000,
                f < fc,
                y <= h,
                tensor_shape(arr) == ((fc as nat, h as nat, w as nat)),
                tensor_data(arr).len() == fci * hi * wi,
                forall|f2: int, y2: int, x2: int|
                    0 <= f2 < f && 0 <= y2 < hi && 0 <= x2 < wi ==> tensor_data(arr)[(f2 * hi + y2)
                        * wi + x2] == spec_tensor_entry(frames@, h as nat, w as nat, f2, y2, x2),
                forall|y2: int, x2: int|
                    0 <= y2 < y && 0 <= x2 < wi ==> tensor_data(arr)[((f as int) * hi + y2) * wi
                        + x2] == spec_tensor_entry(frames@, h as nat, w as nat, f as int, y2, x2),
            decreases h - y,
        {
            proof {
                assert((y as int) * (oh as int) <= 0x7d_0000 * 65535) by (nonlinear_arith)
                    requires
                        0 <= (y as int) <= 0x7d_0000,
                        0 <= (oh as int) <= 65535,
                ;
            }
            let sy: u64 = (y as u64) * (oh as u64) / (h as u64);
            proof {
                assert((y as int) * (oh as int) / hi < oh as int) by (nonlinear_arith)
                    requires
                        0 <= (y as int) < hi,
                        1 <= (oh as int),
                        1 <= hi,
                ;
            }
            let sy: usize = sy as usize;
            let mut x: usize = 0;
            while x < w
                invariant
                    can_build(frames@, w as nat),
                    fc == frames@.len(),
                    hi == h as int,
                    wi == w as int,
                    fci == fc as int,
                    ow == frames@[0].width,
                    oh == frames@[0].height,
                    1 <= ow <= 65535,
                    1 <= oh <= 65535,
                    h == spec_out_height(ow as nat, oh as nat, w as nat),
                    1 <= h <= 0x7d_0000,
                    f < fc,
                    y < h,
                    x <= w,
                    sy as int == (y as int) * (oh as int) / hi,
                    sy < oh,
                    tensor_shape(arr) == ((fc as nat, h as nat, w as nat)),
                    tensor_data(arr).len() == fci * hi * wi,
                    forall|f2: int, y2: int, x2: int|
                        0 <= f2 < f && 0 <= y2 < hi && 0 <= x2 < wi ==> tensor_data(arr)[(f2 * hi
                            + y2) * wi + x2] == spec_tensor_entry(
                            frames@,
                            h as nat,
                            w as nat,
                            f2,
                            y2,
                            x2,
                        ),
                    forall|y2: int, x2: int|
                        0 <= y2 < y && 0 <= x2 < wi ==> tensor_data(arr)[((f as int) * hi + y2) * wi
                            + x2] == spec_tensor_entry(
                            frames@,
                            h as nat,
                            w as nat,
                            f as int,
                            y2,
                            x2,
                        ),
                    forall|x2: int|
                        0 <= x2 < x ==> tensor_data(arr)[((f as int) * hi + (y as int)) * wi + x2]
                            == spec_tensor_entry(
                            frames@,
                            h as nat,
                            w as nat,
                            f as int,
                            y as int,
                            x2,
                        ),
                decreases w - x,
            {
                proof {
                    assert((x as int) * (ow as int) <= 250 * 65535) by (nonlinear_arith)
                        requires
                            0 <= (x as int) <= 250,
                            0 <= (ow as int) <= 65535,
                    ;
                }
                let sx: u64 = (x as u64) * (ow as u64) / (w as u64);
                proof {
                    assert((x as int) * (ow as int) / wi < ow as int) by (nonlinear_arith)
                        requires
                            0 <= (x as int) < wi,
                            1 <= (ow as int),
                            1 <= wi,
                    ;
                }
                let sx: usize = sx as usize;
                let fr: &Frame = &frames[f];
                proof {
                    assert((sy as int) * (ow as int) <= 65535 * 65535) by (nonlinear_arith)
                        requires
                            0 <= (sy as int) <= 65535,
                            0 <= (ow as int) <= 65535,
                    ;
                }
                let off: u64 = 4 * ((sy as u64) * (ow as u64) + (sx as u64));
                proof {
                    assert((sy as int) * (ow as int) + (sx as int) < (oh as int) * (ow as int))
                        by (nonlinear_arith)
                        requires
                            0 <= (sy as int) < (oh as int),
                            0 <= (sx as int) < (ow as int),
                    ;
                    assert(fr.wf() && fr.width == ow && fr.height == oh);
                    assert(4 * ((sy as int) * (ow as int) + (sx as int)) + 3 < 4 * (ow as int) * (
                    oh as int)) by (nonlinear_arith)
                        requires
                            (sy as int) * (ow as int) + (sx as int) < (oh as int) * (ow as int),
                    ;
                }
                let off: usize = off as usize;
                let plen: usize = fr.pixels.len();
                proof {
                    assert(off as int + 3 < plen as int);
                }
                let pr: u8 = fr.pixels[off];
                let pg: u8 = fr.pixels[off + 1];
                let pb: u8 = fr.pixels[off + 2];
                let pa: u8 = fr.pixels[off + 3];
                let v: u8 = luma(pr, pg, pb, pa);
                proof {
                    lemma_flat_in_range(fci, hi, wi, f as int, y as int, x as int);
                }
                arr3_set(&mut arr, f, y, x, v);
                proof {
                    assert(v == spec_tensor_entry(
                        frames@,
                        h as nat,
                        w as nat,
                        f as int,
                        y as int,
                        x as int,
                    ));
                    assert forall|f2: int, y2: int, x2: int|
                        0 <= f2 < f && 0 <= y2 < hi && 0 <= x2 < wi implies tensor_data(arr)[(f2
                        * hi + y2) * wi + x2] == spec_tensor_entry(
                        frames@,
                        h as nat,
                        w as nat,
                        f2,
                        y2,
                        x2,
                    ) by {
                        lemma_flat_lt(hi, wi, f2, y2, x2, f as int, y as int, x as int);
                        lemma_flat_in_range(fci, hi, wi, f2, y2, x2);
                    }
                    assert forall|y2: int, x2: int| 0 <= y2 < y && 0 <= x2 < wi implies tensor_data(
                        arr,
                    )[((f as int) * hi + y2) * wi + x2] == spec_tensor_entry(
                        frames@,
                        h as nat,
                        w as nat,
                        f as int,
                        y2,
                        x2,
                    ) by {
                        lemma_flat_lt(hi, wi, f as int, y2, x2, f as int, y as int, x as int);
                        lemma_flat_in_range(fci, hi, wi, f as int, y2, x2);
                    }
                    assert forall|x2: int| 0 <= x2 < x + 1 implies tensor_data(arr)[((f as int) * hi
                        + (y as int)) * wi + x2] == spec_tensor_entry(
                        frames@,
                        h as nat,
                        w as nat,
                        f as int,
                        y as int,
                        x2,
                    ) by {
                        if x2 < x {
                            lemma_flat_lt(hi, wi, f as int, y as int, x2, f as int, y as int,
                                x as int);
                        }
                        lemma_flat_in_range(fci, hi, wi, f as int, y as int, x2);
                    }
                }
                x = x + 1;
            }
            y = y + 1;
        }
        f = f + 1;
    }
    let t = LuminanceTensor { frames: fc, height: h, width: w, arr };
    proof {
        assert(fci * hi * (wi + 1) <= isize::MAX as int);
        assert(t.wf());
        assert forall|f2: int, y2: int, x2: int|
            0 <= f2 < t.frames && 0 <= y2 < t.height && 0 <= x2 < t.width implies t.at(f2, y2, x2)
            == spec_tensor_entry(frames@, t.height as nat, w as nat, f2, y2, x2) by {
            lemma_flat_in_range(fci, hi, wi, f2, y2, x2);
        }
    }
    t
}

/// Relies on rayon's parallel iterator over an inclusive range, collected
/// into a `Vec`: the per-width jobs may run in any order and concurrently,
/// but the collected vector holds the results in index order, each the
/// value the verified per-width builder returns for its width.
#[verifier::external_body]
fn par_build_width_tensors(frames: &Vec<Frame>) -> (ts: Vec<LuminanceTensor>)
    requires
        forall|w: nat| 20 <= w <= 250 ==> can_build(frames@, w),
    ensures
        ts@.len() == 231,
        forall|i: int| 0 <= i < 231 ==> tensor_models(#[trigger] ts@[i], frames@, (20 + i) as nat),
{
    (20usize..=250usize).into_par_iter().map(|w| build_width_tensor(frames, w)).collect()
}

/// The cache of luminance tensors, one per supported output width.
/// Cleared and fully rebuilt on every load, never updated incrementally.
pub struct TensorCache {
    pub tensors: Vec<LuminanceTensor>,
}

impl TensorCache {
    /// Either empty (nothing loaded, or a degenerate image) or one
    /// well-formed tensor for every width of the supported range in
    /// ascending order, all agreeing on the frame count.
    pub open spec fn wf(self) -> bool {
        ||| self.tensors@.len() == 0
        ||| {
            &&& self.tensors@.len() == 231
            &&& forall|i: int|
                0 <= i < 231 ==> {
                    &&& (#[trigger] self.tensors@[i]).wf()
                    &&& self.tensors@[i].width == 20 + i
                    &&& self.tensors@[i].frames == self.tensors@[0].frames
                }
        }
    }

    pub open spec fn is_loaded(self) -> bool {
        self.tensors@.len() == 231
    }

    /// The frame count all cached tensors share; zero while nothing is
    /// cached.
    pub open spec fn spec_frame_count(self) -> int {
        if self.is_loaded() {
            self.tensors@[0].frames as int
        } else {
            0
        }
    }
}

/// A decode result with nothing worth caching: no frames at all, or a
/// zero-sized first frame.
pub open spec fn degenerate(fs: Seq<Frame>) -> bool {
    fs.len() == 0 || fs[0].width == 0 || fs[0].height == 0
}

/// The largest tensor the rebuild would allocate still fits the machine's
/// address arithmetic.
pub open spec fn rebuild_fits(fs: Seq<Frame>) -> bool {
    (fs.len() as int) * (spec_out_height(fs[0].width as nat, fs[0].height as nat, 250) as int)
        * 251 <= isize::MAX as int
}

/// The cache holds exactly the downsampled luminance of `fs`: empty for a
/// degenerate input, otherwise one faithful tensor per width of the range.
pub open spec fn cache_models(c: TensorCache, fs: Seq<Frame>) -> bool {
    if degenerate(fs) {
        c.tensors@.len() == 0
    } else {
        &&& c.tensors@.len() == 231
        &&& forall|i: int|
            0 <= i < 231 ==> tensor_models(#[trigger] c.tensors@[i], fs, (20 + i) as nat)
    }
}

/// Rebuild the whole cache from a decoded frame sequence: an empty or
/// zero-sized input yields an empty cache (a valid "nothing loaded"
/// result, not an error); an image whose tensors cannot fit in memory is
/// the one rejected input.
pub fn rebuild(frames: &Vec<Frame>) -> (r: Option<TensorCache>)
    requires
        frames_wf(frames@),
    ensures
        r is Some <==> (degenerate(frames@) || rebuild_fits(frames@)),
        r is Some ==> cache_models(r.unwrap(), frames@) && r.unwrap().wf(),
        r is Some && !degenerate(frames@) ==> r.unwrap().spec_frame_count() == frames@.len(),
{
    if frames.len() == 0 {
        return Some(TensorCache { tensors: Vec::new() });
    }
    let ow: usize = frames[0].width;
    let oh: usize = frames[0].height;
    if ow == 0 || oh == 0 {
        return Some(TensorCache { tensors: Vec::new() });
    }
    proof {
        assert(frames@[0].wf());
    }
    let fc: usize = frames.len();
    let h250: usize = out_height(ow, oh, 250);
    proof {
        assert((fc as int) * (h250 as int) <= 0xffff_ffff_ffff_ffffint * 0x7d_0000int)
            by (nonlinear_arith)
            requires
                0 <= (fc as int) <= 0xffff_ffff_ffff_ffffint,
                0 <= (h250 as int) <= 0x7d_0000int,
        ;
    }
    let fh: u128 = (fc as u128) * (h250 as u128);
    let budget: u128 = fh * 251;
    if budget > (isize::MAX as u128) {
        return None;
    }
    proof {
        assert forall|w2: nat| 20 <= w2 <= 250 implies can_build(frames@, w2) by {
            lemma_out_height_mono(ow as nat, oh as nat, w2, 250);
            let hw = spec_out_height(ow as nat, oh as nat, w2) as int;
            assert((frames@.len() as int) * hw * ((w2 + 1) as int) <= (frames@.len() as int) * (
            h250 as int) * 251) by (nonlinear_arith)
                requires
                    1 <= frames@.len() as int,
                    1 <= hw <= h250 as int,
                    2 <= (w2 + 1) as int <= 251,
            ;
        }
    }
    let ts = par_build_width_tensors(frames);
    let c = TensorCache { tensors: ts };
    proof {
        assert forall|i: int| 0 <= i < 231 implies {
            &&& (#[trigger] c.tensors@[i]).wf()
            &&& c.tensors@[i].width == 20 + i
            &&& c.tensors@[i].frames == c.tensors@[0].frames
        } by {
            assert(tensor_models(c.tensors@[i], frames@, (20 + i) as nat));
            assert(tensor_models(c.tensors@[0], frames@, 20nat));
        }
    }
    Some(c)
}

} // verus!
