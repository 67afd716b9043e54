use vstd::prelude::*;

verus! {

/// Grayscale level for divergence index `r`: eight bands, 32 apart.
pub open spec fn shade_of(r: nat) -> nat {
    (r % 8) * 32
}

/// The four RGBA bytes of a pixel with divergence index `r`.
pub open spec fn pixel_of(r: nat) -> Seq<u8> {
    let v = shade_of(r) as u8;
    seq![v, v, v, 255u8]
}

/// The RGBA buffer for divergence indices given in row-major order.
pub open spec fn frame_bytes(rs: Seq<usize>) -> Seq<u8>
    decreases rs.len(),
{
    if rs.len() == 0 {
        Seq::empty()
    } else {
        frame_bytes(rs.drop_last()) + pixel_of(rs.last() as nat)
    }
}

/// Grayscale level of a pixel whose orbit diverged at index `r`. Indices
/// wider than a byte keep their band, since 256 is a multiple of 8.
pub fn shade(r: usize) -> (v: u8)
    ensures
        v as nat == shade_of(r as nat),
{
    ((r % 8) * 32) as u8
}

/// Row and column of the `index`-th pixel of a row-major grid `width` wide.
pub fn grid_cell(index: usize, width: usize) -> (rc: (usize, usize))
    requires
        width > 0,
    ensures
        rc.1 < width,
        rc.0 * width + rc.1 == index,
{
    let row = index / width;
    let col = index % width;
    proof {
        assert(row * width + col == index) by (nonlinear_arith)
            requires row == index / width, col == index % width, width > 0;
    }
    (row, col)
}

/// The buffer holds four bytes per pixel.
pub proof fn lemma_frame_len(rs: Seq<usize>)
    ensures
        frame_bytes(rs).len() == 4 * rs.len(),
    decreases rs.len(),
{
    if rs.len() > 0 {
        lemma_frame_len(rs.drop_last());
    }
}

/// Byte `4 * k + c` of the buffer is channel `c` of pixel `k`: gray for the
/// colour channels, opaque for alpha.
pub proof fn lemma_frame_index(rs: Seq<usize>, k: int, c: int)
    requires
        0 <= k < rs.len(),
        0 <= c < 4,
    ensures
        frame_bytes(rs)[4 * k + c] == pixel_of(rs[k] as nat)[c],
    decreases rs.len(),
{
    lemma_frame_len(rs.drop_last());
    if k < rs.len() - 1 {
        lemma_frame_index(rs.drop_last(), k, c);
    }
}

/// Divergence indices `r` and `r + 8` give the same pixel.
pub proof fn lemma_shade_periodic(r: nat)
    ensures
        shade_of(r) == shade_of(r + 8),
        pixel_of(r) == pixel_of(r + 8),
{
    assert((r + 8) % 8 == r % 8);
}

/// Equal inputs give equal buffers: the buffer depends on the divergence
/// indices alone.
pub proof fn lemma_frame_deterministic(rs1: Seq<usize>, rs2: Seq<usize>)
    requires
        rs1 == rs2,
    ensures
        frame_bytes(rs1) == frame_bytes(rs2),
{
}

/// Encodes a `width` by `height` grid of divergence indices, given in
/// row-major order (pixel `(row, col)` at `row * width + col`), as RGBA
/// bytes: `(r % 8) * 32` on each colour channel and 255 for alpha.
pub fn encode_frame(width: usize, height: usize, results: &Vec<usize>) -> (data: Vec<u8>)
    requires
        results.len() == width * height,
        width * height * 4 <= usize::MAX,
    ensures
        data@ == frame_bytes(results@),
        data@.len() == width * height * 4,
{
    let n = results.len();
    let mut data: Vec<u8> = Vec::with_capacity(n * 4);
    let mut k: usize = 0;
    while k < n
        invariant
            n == results.len(),
            k <= n,
            data@ == frame_bytes(results@.take(k as int)),
        decreases n - k,
    {
        let v = shade(results[k]);
        data.push(v);
        data.push(v);
        data.push(v);
        data.push(255u8);
        proof {
            assert(results@.take(k + 1).drop_last() =~= results@.take(k as int));
            assert(data@ =~= frame_bytes(results@.take(k + 1)));
        }
        k = k + 1;
    }
    proof {
        assert(results@.take(n as int) =~= results@);
        lemma_frame_len(results@);
    }
    data
}

} // verus!
