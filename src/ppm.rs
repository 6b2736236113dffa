//! The portable pixmap (binary PPM) form of BGRA pixel rows, for viewing a
//! capture in an image viewer.
use vstd::prelude::*;

use crate::chunks::{chunks_of, into_chunk_vecs};

verus! {

/// The ASCII decimal digits of `n`, most significant first.
pub open spec fn decimal(n: nat) -> Seq<u8>
    decreases n,
{
    if n < 10 {
        seq![(48 + n) as u8]
    } else {
        decimal(n / 10).push((48 + n % 10) as u8)
    }
}

/// `P6\n{width}\n{height}\n255\n`.
pub open spec fn ppm_header(width: nat, height: nat) -> Seq<u8> {
    seq![80u8, 54u8, 10u8] + decimal(width) + seq![10u8] + decimal(height) + seq![10u8] + seq![
        50u8,
        53u8,
        53u8,
        10u8,
    ]
}

/// Red, green and blue of the first `n` whole pixels of a BGRA chunk.
pub open spec fn rgb_prefix(c: Seq<u8>, n: int) -> Seq<u8>
    decreases n,
{
    if n <= 0 {
        Seq::empty()
    } else {
        rgb_prefix(c, n - 1) + seq![c[4 * (n - 1) + 2], c[4 * (n - 1) + 1], c[4 * (n - 1)]]
    }
}

/// Red, green and blue of every whole pixel of a BGRA chunk; trailing bytes
/// that make no whole pixel are left out.
pub open spec fn rgb_of(c: Seq<u8>) -> Seq<u8> {
    rgb_prefix(c, (c.len() / 4) as int)
}

/// The PPM body of BGRA chunks: their pixels as RGB, in order.
pub open spec fn ppm_body(chunks: Seq<Seq<u8>>) -> Seq<u8>
    decreases chunks.len(),
{
    if chunks.len() == 0 {
        Seq::empty()
    } else {
        ppm_body(chunks.drop_last()) + rgb_of(chunks.last())
    }
}

/// Each of the first `n` pixels gives three bytes.
pub proof fn lemma_rgb_prefix_len(c: Seq<u8>, n: int)
    requires
        n >= 0,
    ensures
        rgb_prefix(c, n).len() == 3 * n,
    decreases n,
{
    if n > 0 {
        lemma_rgb_prefix_len(c, n - 1);
    }
}

/// Appends the decimal digits of `n`.
fn push_decimal(out: &mut Vec<u8>, n: usize)
    ensures
        final(out)@ == old(out)@ + decimal(n as nat),
    decreases n,
{
    if n >= 10 {
        push_decimal(out, n / 10);
    }
    out.push((48 + n % 10) as u8);
    assert(final(out)@ =~= old(out)@ + decimal(n as nat));
}

/// A PPM image of `width` by `height` pixels whose rows are the BGRA chunks
/// of `bytes`: the header, then each pixel as red, green, blue.
pub fn encode_ppm(bytes: chunked_bytes::ChunkedBytes, width: usize, height: usize) -> (r: Vec<u8>)
    ensures
        r@ == ppm_header(width as nat, height as nat) + ppm_body(chunks_of(bytes)),
{
    let ghost cs = chunks_of(bytes);
    let mut out: Vec<u8> = Vec::new();
    out.push(80u8);
    out.push(54u8);
    out.push(10u8);
    push_decimal(&mut out, width);
    out.push(10u8);
    push_decimal(&mut out, height);
    out.push(10u8);
    out.push(50u8);
    out.push(53u8);
    out.push(53u8);
    out.push(10u8);
    let ghost header = ppm_header(width as nat, height as nat);
    assert(out@ =~= header);
    let chunks = into_chunk_vecs(bytes);
    let mut ci: usize = 0;
    while ci < chunks.len()
        invariant
            ci <= chunks@.len(),
            chunks@.len() == cs.len(),
            forall|i: int| 0 <= i < chunks@.len() ==> (#[trigger] chunks@[i])@ == cs[i],
            out@ == header + ppm_body(cs.take(ci as int)),
        decreases chunks@.len() - ci,
    {
        let chunk = &chunks[ci];
        let total = chunk.len();
        let n = total / 4;
        let ghost before = out@;
        let mut k: usize = 0;
        while k < n
            invariant
                k <= n,
                n == chunk@.len() / 4,
                total == chunk@.len(),
                out@ == before + rgb_prefix(chunk@, k as int),
            decreases n - k,
        {
            assert(4 * k + 3 < chunk@.len()) by (nonlinear_arith)
                requires
                    k < n,
                    n == chunk@.len() / 4,
            ;
            let b = chunk[4 * k];
            let g = chunk[4 * k + 1];
            let red = chunk[4 * k + 2];
            out.push(red);
            out.push(g);
            out.push(b);
            k = k + 1;
            assert(out@ =~= before + rgb_prefix(chunk@, k as int));
        }
        assert(cs.take(ci + 1).drop_last() =~= cs.take(ci as int));
        assert(out@ =~= header + ppm_body(cs.take(ci + 1)));
        ci = ci + 1;
    }
    assert(cs.take(cs.len() as int) =~= cs);
    out
}

} // verus!
