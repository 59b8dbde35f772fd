use vstd::prelude::*;

verus! {

/// The decimal digits of `n`, most significant first, as ASCII bytes.
pub open spec fn spec_digits(n: nat) -> Seq<u8>
    decreases n,
{
    if n < 10 {
        seq![(48 + n) as u8]
    } else {
        spec_digits(n / 10) + seq![(48 + n % 10) as u8]
    }
}

/// Append the decimal digits of `n` to a byte buffer.
pub fn push_digits(out: &mut Vec<u8>, n: u64)
    ensures
        final(out)@ == old(out)@ + spec_digits(n as nat),
    decreases n,
{
    if n >= 10 {
        push_digits(out, n / 10);
        out.push(48 + (n % 10) as u8);
        proof {
            assert(final(out)@ =~= old(out)@ + spec_digits(n as nat));
        }
    } else {
        out.push(48 + n as u8);
        proof {
            assert(final(out)@ =~= old(out)@ + spec_digits(n as nat));
        }
    }
}

/// The header line written before frame `i`:
/// three dashes, the word FRAME, the zero-based index, three dashes.
pub open spec fn spec_marker(i: nat) -> Seq<u8> {
    seq![45u8, 45u8, 45u8, 32u8, 70u8, 82u8, 65u8, 77u8, 69u8, 32u8] + spec_digits(i)
        + seq![32u8, 45u8, 45u8, 45u8, 10u8]
}

/// The export text of the first `n` frames: for each, its marker line,
/// its text verbatim, and a blank separator line.
pub open spec fn spec_export(fs: Seq<Seq<u8>>, n: int) -> Seq<u8>
    decreases n,
{
    if n <= 0 {
        Seq::empty()
    } else {
        spec_export(fs, n - 1) + spec_marker((n - 1) as nat) + fs[n - 1] + seq![10u8]
    }
}

/// Produce the full contents of an export file: every frame's text,
/// preceded by its marker line and followed by a blank separator, in
/// original frame order.
pub fn format_export(frames: &Vec<Vec<u8>>) -> (out: Vec<u8>)
    ensures
        out@ == spec_export(frames@.map_values(|v: Vec<u8>| v@), frames@.len() as int),
{
    let ghost views: Seq<Seq<u8>> = frames@.map_values(|v: Vec<u8>| v@);
    let mut out: Vec<u8> = Vec::new();
    let n: usize = frames.len();
    let mut i: usize = 0;
    while i < n
        invariant
            n == frames@.len(),
            views == frames@.map_values(|v: Vec<u8>| v@),
            i <= n,
            out@ == spec_export(views, i as int),
        decreases n - i,
    {
        let ghost before: Seq<u8> = out@;
        out.push(45); out.push(45); out.push(45); out.push(32); out.push(70);
        out.push(82); out.push(65); out.push(77); out.push(69); out.push(32);
        push_digits(&mut out, i as u64);
        out.push(32); out.push(45); out.push(45); out.push(45); out.push(10);
        proof {
            assert(out@ =~= before + spec_marker(i as nat));
        }
        let ghost with_marker: Seq<u8> = out@;
        let piece: &Vec<u8> = &frames[i];
        let plen: usize = piece.len();
        let mut k: usize = 0;
        while k < plen
            invariant
                plen == piece@.len(),
                k <= plen,
                out@ == with_marker + piece@.take(k as int),
            decreases plen - k,
        {
            out.push(piece[k]);
            proof {
                assert(out@ =~= with_marker + piece@.take(k as int + 1));
            }
            k = k + 1;
        }
        out.push(10);
        proof {
            assert(piece@.take(plen as int) =~= piece@);
            assert(views[i as int] == piece@);
            assert(out@ =~= spec_export(views, i as int + 1));
        }
        i = i + 1;
    }
    out
}

/// Byte offset where frame `i`'s chunk starts in the export.
pub open spec fn spec_offset(fs: Seq<Seq<u8>>, i: int) -> int {
    spec_export(fs, i).len() as int
}

proof fn lemma_export_len_mono(fs: Seq<Seq<u8>>, i: int, j: int)
    requires
        i <= j,
    ensures
        spec_export(fs, i).len() <= spec_export(fs, j).len(),
    decreases j - i,
{
    if i < j {
        lemma_export_len_mono(fs, i, j - 1);
    }
}

/// Round trip of the export layout: re-reading the exported text finds the
/// frames' regions in original order, each exactly its marker line, its
/// text verbatim, and the blank separator, between determined offsets.
pub proof fn lemma_export_chunks(fs: Seq<Seq<u8>>, n: int, i: int)
    requires
        0 <= i < n <= fs.len(),
    ensures
        spec_offset(fs, i + 1) <= spec_export(fs, n).len(),
        spec_export(fs, n).subrange(spec_offset(fs, i), spec_offset(fs, i + 1)) == spec_marker(
            i as nat,
        ) + fs[i] + seq![10u8],
    decreases n,
{
    lemma_export_len_mono(fs, i + 1, n);
    let chunk = spec_marker(i as nat) + fs[i] + seq![10u8];
    if i == n - 1 {
        assert(spec_export(fs, n).subrange(spec_offset(fs, i), spec_offset(fs, i + 1)) =~= chunk);
    } else {
        lemma_export_chunks(fs, n - 1, i);
        lemma_export_len_mono(fs, i + 1, n - 1);
        assert(spec_export(fs, n).subrange(spec_offset(fs, i), spec_offset(fs, i + 1)) =~= (
        spec_export(fs, n - 1)).subrange(spec_offset(fs, i), spec_offset(fs, i + 1)));
    }
}

} // verus!
