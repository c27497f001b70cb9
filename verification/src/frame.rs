//! Frames handed to the video encoder, and the size of the off-screen targets.
use vstd::prelude::*;

verus! {

/// Position in the encoder's RGB frame of channel `k` of pixel `c` in row `q`.
pub open spec fn rgb_index(width: int, q: int, c: int, k: int) -> int {
    (q * width + c) * 3 + k
}

/// Position in the rendered RGBA image of the channel that lands at row `q`
/// of the RGB frame: rendered rows run bottom to top, so the frame takes them
/// in reverse.
pub open spec fn rgba_index(width: int, height: int, q: int, c: int, k: int) -> int {
    ((height - 1 - q) * width + c) * 4 + k
}

proof fn lemma_pixel_bounds(w: int, h: int, q: int, c: int)
    requires
        0 <= q < h,
        0 <= c < w,
    ensures
        0 <= (h - 1 - q) * w,
        ((h - 1 - q) * w + c) * 4 + 3 < h * w * 4,
        (q * w + c) + 1 <= h * w,
        q * w + c >= 0,
{
    assert(0 <= (h - 1 - q) * w) by (nonlinear_arith)
        requires
            0 <= q < h,
            0 <= c < w,
    ;
    assert(((h - 1 - q) * w + c) * 4 + 3 < h * w * 4) by (nonlinear_arith)
        requires
            0 <= q < h,
            0 <= c < w,
    ;
    assert((q * w + c) + 1 <= h * w) by (nonlinear_arith)
        requires
            0 <= q < h,
            0 <= c < w,
    ;
    assert(q * w + c >= 0) by (nonlinear_arith)
        requires
            0 <= q < h,
            0 <= c < w,
    ;
}

proof fn lemma_pixel_unique(w: int, q: int, c: int, q2: int, c2: int)
    requires
        0 <= c < w,
        0 <= c2 < w,
        0 <= q,
        0 <= q2,
        q2 * w + c2 == q * w + c,
    ensures
        q2 == q,
        c2 == c,
{
    if q2 < q {
        assert(q2 * w + c2 < q * w + c) by (nonlinear_arith)
            requires
                q2 < q,
                0 <= c2 < w,
                0 <= c,
        ;
    } else if q2 > q {
        assert(q * w + c < q2 * w + c2) by (nonlinear_arith)
            requires
                q < q2,
                0 <= c < w,
                0 <= c2,
        ;
    }
}

/// Converts a rendered RGBA image, rows bottom to top, into the RGB frame the
/// encoder reads, rows top to bottom: the alpha channel is dropped and the rows
/// are taken in reverse order.
pub fn rgba_rows_to_rgb(bytes: &Vec<u8>, width: usize, height: usize) -> (rgb: Vec<u8>)
    requires
        height * width * 4 <= bytes.len(),
    ensures
        rgb.len() == height * width * 3,
        forall|q: int, c: int, k: int|
            0 <= q < height && 0 <= c < width && 0 <= k < 3 ==> rgb@[rgb_index(width as int, q, c, k)]
                == bytes@[rgba_index(width as int, height as int, q, c, k)],
{
    let ghost w = width as int;
    let ghost h = height as int;
    let mut rgb: Vec<u8> = Vec::new();
    let mut q: usize = 0;
    while q < height
        invariant
            q <= height,
            height * width * 4 <= bytes.len(),
            w == width,
            h == height,
            rgb.len() == (q * w) * 3,
            forall|q2: int, c2: int, k2: int|
                0 <= q2 < h && 0 <= c2 < w && 0 <= k2 < 3 && q2 * w + c2 < q * w ==> rgb@[rgb_index(
                    w,
                    q2,
                    c2,
                    k2,
                )] == bytes@[rgba_index(w, h, q2, c2, k2)],
        decreases height - q,
    {
        let row = height - 1 - q;
        let mut c: usize = 0;
        while c < width
            invariant
                q < height,
                row == height - 1 - q,
                c <= width,
                height * width * 4 <= bytes.len(),
                w == width,
                h == height,
                rgb.len() == (q * w + c) * 3,
                forall|q2: int, c2: int, k2: int|
                    0 <= q2 < h && 0 <= c2 < w && 0 <= k2 < 3 && q2 * w + c2 < q * w + c ==> rgb@[rgb_index(
                        w,
                        q2,
                        c2,
                        k2,
                    )] == bytes@[rgba_index(w, h, q2, c2, k2)],
            decreases width - c,
        {
            proof {
                lemma_pixel_bounds(w, h, q as int, c as int);
            }
            let base = (row * width + c) * 4;
            let ghost done = q * w + c;
            let ghost before = rgb@;
            rgb.push(bytes[base]);
            rgb.push(bytes[base + 1]);
            rgb.push(bytes[base + 2]);
            proof {
                assert forall|q2: int, c2: int, k2: int|
                    0 <= q2 < h && 0 <= c2 < w && 0 <= k2 < 3 && q2 * w + c2 < q * w + c + 1 implies rgb@[rgb_index(
                        w,
                        q2,
                        c2,
                        k2,
                    )] == bytes@[rgba_index(w, h, q2, c2, k2)] by {
                    if q2 * w + c2 < done {
                        assert(rgb_index(w, q2, c2, k2) < done * 3);
                        assert(rgb@[rgb_index(w, q2, c2, k2)] == before[rgb_index(w, q2, c2, k2)]);
                    } else {
                        lemma_pixel_unique(w, q as int, c as int, q2, c2);
                    }
                }
            }
            c += 1;
        }
        q += 1;
        proof {
            assert(q * w == (q - 1) * w + w) by (nonlinear_arith);
        }
    }
    proof {
        assert forall|q2: int, c2: int, k2: int|
            0 <= q2 < height && 0 <= c2 < width && 0 <= k2 < 3 implies rgb@[rgb_index(
                width as int,
                q2,
                c2,
                k2,
            )] == bytes@[rgba_index(width as int, height as int, q2, c2, k2)] by {
            lemma_pixel_bounds(w, h, q2, c2);
        }
        assert(height * width * 3 == (q * w) * 3) by (nonlinear_arith)
            requires
                q == height,
                w == width,
        ;
    }
    rgb
}

/// The size of the off-screen targets a transition is drawn into.
pub struct TargetSize {
    pub width: u32,
    pub height: u32,
}

impl TargetSize {
    /// The targets start one pixel square.
    pub fn new() -> (s: Self)
        ensures
            s.width == 1 && s.height == 1,
    {
        TargetSize { width: 1, height: 1 }
    }
}

/// A target side fitted to an output side: at least one pixel.
pub open spec fn fitted(side: u32) -> u32 {
    if side > 1 {
        side
    } else {
        1
    }
}

/// Fits the targets to the output size (at least one pixel each way); returns
/// whether the size changed, so that the targets must be created anew.
pub fn fit_targets(size: &mut TargetSize, width: u32, height: u32) -> (changed: bool)
    ensures
        final(size).width == fitted(width),
        final(size).height == fitted(height),
        changed == (fitted(width) != old(size).width || fitted(height) != old(size).height),
{
    let w = if width > 1 {
        width
    } else {
        1
    };
    let h = if height > 1 {
        height
    } else {
        1
    };
    if size.width == w && size.height == h {
        return false;
    }
    size.width = w;
    size.height = h;
    true
}

/// Fitting the targets twice to the same output size creates them at most
/// once: the second fit finds nothing to change.
pub proof fn lemma_fit_is_stable(width: u32, height: u32)
    ensures
        fitted(fitted(width)) == fitted(width),
        fitted(fitted(height)) == fitted(height),
        fitted(width) >= 1 && fitted(height) >= 1,
{
}

} // verus!
