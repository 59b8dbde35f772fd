use vstd::prelude::*;
use vstd::arithmetic::div_mod::lemma_fundamental_div_mod_converse;
use crate::tensor::{LuminanceTensor, arr3_get};
use rayon::iter::{IntoParallelIterator, ParallelIterator};

verus! {

/// The rendered text of one frame under a 256-entry glyph table: each of
/// the tensor's rows becomes `width` glyphs followed by one newline byte,
/// so the buffer holds height * (width + 1) bytes.
pub open spec fn spec_frame_text(t: LuminanceTensor, lut: Seq<u8>, f: int) -> Seq<u8> {
    Seq::new(
        ((t.height as int) * ((t.width as int) + 1)) as nat,
        |i: int|
            {
                let row_len = (t.width as int) + 1;
                let y = i / row_len;
                let x = i % row_len;
                if x == t.width as int {
                    10u8
                } else {
                    lut[t.at(f, y, x) as int]
                }
            },
    )
}

/// The first `n` frames' texts, concatenated in frame order.
pub open spec fn spec_frames_prefix(t: LuminanceTensor, lut: Seq<u8>, n: int) -> Seq<u8>
    decreases n,
{
    if n <= 0 {
        Seq::empty()
    } else {
        spec_frames_prefix(t, lut, n - 1) + spec_frame_text(t, lut, n - 1)
    }
}

/// Every frame's text, concatenated in original frame order.
pub open spec fn spec_all_frames_text(t: LuminanceTensor, lut: Seq<u8>) -> Seq<u8> {
    spec_frames_prefix(t, lut, t.frames as int)
}

/// Render one frame of a cached tensor into a fresh buffer. Every sample
/// is a single table lookup: the luminance was computed once, at cache
/// build time.
pub fn render_frame_text(t: &LuminanceTensor, lut: &Vec<u8>, f: usize) -> (out: Vec<u8>)
    requires
        t.wf(),
        (f as int) < t.frames as int,
        lut@.len() == 256,
    ensures
        out@ == spec_frame_text(*t, lut@, f as int),
{
    let h: usize = t.height;
    let w: usize = t.width;
    let ghost rl: int = (w as int) + 1;
    let ghost total: Seq<u8> = spec_frame_text(*t, lut@, f as int);
    let mut out: Vec<u8> = Vec::new();
    let mut y: usize = 0;
    while y < h
        invariant
            t.wf(),
            (f as int) < t.frames as int,
            lut@.len() == 256,
            h == t.height,
            w == t.width,
            rl == (w as int) + 1,
            total == spec_frame_text(*t, lut@, f as int),
            y <= h,
            out@.len() == (y as int) * rl,
            forall|j: int| 0 <= j < out@.len() ==> out@[j] == total[j],
        decreases h - y,
    {
        let mut x: usize = 0;
        while x < w
            invariant
                t.wf(),
                (f as int) < t.frames as int,
                lut@.len() == 256,
                h == t.height,
                w == t.width,
                rl == (w as int) + 1,
                total == spec_frame_text(*t, lut@, f as int),
                y < h,
                x <= w,
                out@.len() == (y as int) * rl + (x as int),
                forall|j: int| 0 <= j < out@.len() ==> out@[j] == total[j],
            decreases w - x,
        {
            let gray: u8 = arr3_get(&t.arr, f, y, x);
            proof {
                lemma_fundamental_div_mod_converse(
                    (y as int) * rl + (x as int),
                    rl,
                    y as int,
                    x as int,
                );
                assert((y as int) * rl + (x as int) < (h as int) * rl) by (nonlinear_arith)
                    requires
                        0 <= (y as int) < (h as int),
                        0 <= (x as int) < rl,
                ;
            }
            out.push(lut[gray as usize]);
            x = x + 1;
        }
        proof {
            lemma_fundamental_div_mod_converse(
                (y as int) * rl + (w as int),
                rl,
                y as int,
                w as int,
            );
            assert((y as int) * rl + (w as int) < (h as int) * rl) by (nonlinear_arith)
                requires
                    0 <= (y as int) < (h as int),
                    0 <= (w as int) < rl,
            ;
            assert(((y as int) + 1) * rl == (y as int) * rl + rl) by (nonlinear_arith);
        }
        out.push(10);
        y = y + 1;
    }
    proof {
        assert(out@ =~= total);
    }
    out
}

/// Relies on rayon's parallel iterator over the frame indices, collected
/// into a `Vec`: each frame's region is rendered independently and
/// concurrently by the verified single-frame renderer, and the collected
/// vector holds the results in original frame order.
#[verifier::external_body]
fn par_render_frames(t: &LuminanceTensor, lut: &Vec<u8>) -> (outs: Vec<Vec<u8>>)
    requires
        t.wf(),
        lut@.len() == 256,
    ensures
        outs@.len() == t.frames as int,
        forall|f: int|
            0 <= f < t.frames as int ==> (#[trigger] outs@[f])@ == spec_frame_text(*t, lut@, f),
{
    (0..t.frames).into_par_iter().map(|f| render_frame_text(t, lut, f)).collect()
}

/// Render every frame, in parallel, into one contiguous buffer: the
/// frames' texts concatenated in original order.
pub fn render_all_frames_text(t: &LuminanceTensor, lut: &Vec<u8>) -> (out: Vec<u8>)
    requires
        t.wf(),
        lut@.len() == 256,
    ensures
        out@ == spec_all_frames_text(*t, lut@),
{
    let outs: Vec<Vec<u8>> = par_render_frames(t, lut);
    let fc: usize = t.frames;
    let mut out: Vec<u8> = Vec::new();
    let mut f: usize = 0;
    while f < fc
        invariant
            t.wf(),
            lut@.len() == 256,
            fc == t.frames,
            outs@.len() == fc as int,
            forall|f2: int|
                0 <= f2 < fc as int ==> (#[trigger] outs@[f2])@ == spec_frame_text(*t, lut@, f2),
            f <= fc,
            out@ == spec_frames_prefix(*t, lut@, f as int),
        decreases fc - f,
    {
        let piece: &Vec<u8> = &outs[f];
        let plen: usize = piece.len();
        let mut k: usize = 0;
        while k < plen
            invariant
                plen == piece@.len(),
                k <= plen,
                out@ == spec_frames_prefix(*t, lut@, f as int) + piece@.take(k as int),
            decreases plen - k,
        {
            out.push(piece[k]);
            proof {
                assert(piece@.take(k as int + 1) =~= piece@.take(k as int) + seq![piece@[k as int]]);
                assert(out@ =~= spec_frames_prefix(*t, lut@, f as int) + piece@.take(k as int + 1));
            }
            k = k + 1;
        }
        proof {
            assert(piece@.take(plen as int) =~= piece@);
            assert(out@ =~= spec_frames_prefix(*t, lut@, (f as int) + 1));
        }
        f = f + 1;
    }
    out
}

} // verus!
