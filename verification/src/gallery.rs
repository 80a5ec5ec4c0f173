//! Pixel bookkeeping of the favorite gallery: alpha masks of RGBA images,
//! and which source pixel a nearest-neighbour blit draws onto which canvas
//! pixel.
use vstd::prelude::*;

verus! {

/// The alpha channel of an RGBA buffer: the fourth byte of every whole
/// pixel (a trailing partial pixel is ignored).
pub fn alpha_mask(rgba: &Vec<u8>) -> (mask: Vec<u8>)
    ensures
        mask@.len() == rgba@.len() / 4,
        forall|i: int| 0 <= i < mask@.len() ==> #[trigger] mask@[i] == rgba@[4 * i + 3],
{
    let mut mask: Vec<u8> = Vec::new();
    let n = rgba.len() / 4;
    let mut i: usize = 0;
    while i < n
        invariant
            n == rgba@.len() / 4,
            i <= n,
            mask@.len() == i,
            forall|k: int| 0 <= k < i ==> #[trigger] mask@[k] == rgba@[4 * k + 3],
        decreases n - i,
    {
        assert(4 * i + 3 < rgba@.len()) by (nonlinear_arith)
            requires
                i < n,
                n == rgba@.len() / 4,
        ;
        assert(rgba@.len() == rgba.len());
        let idx: usize = 4 * i + 3;
        mask.push(rgba[idx]);
        i = i + 1;
    }
    mask
}

/// The source row (or column) a nearest-neighbour scale from `source_len`
/// to `draw_len` samples for `d`.
pub open spec fn nearest(d: int, draw_len: int, source_len: int) -> int {
    let s = d * source_len / draw_len;
    if s < source_len - 1 {
        s
    } else {
        source_len - 1
    }
}

/// The source coordinate sampled for draw coordinate `d`, as `nearest`
/// says.
pub fn nearest_source_coord(d: u32, draw_len: u32, source_len: u32) -> (s: u32)
    requires
        d < draw_len,
        source_len > 0,
    ensures
        s == nearest(d as int, draw_len as int, source_len as int),
        s < source_len,
{
    assert((d as int) * (source_len as int) <= u64::MAX) by (nonlinear_arith)
        requires
            d < draw_len,
            draw_len <= u32::MAX,
            source_len <= u32::MAX,
    ;
    let scaled: u64 = (d as u64) * (source_len as u64) / (draw_len as u64);
    let last: u64 = (source_len - 1) as u64;
    if scaled < last {
        scaled as u32
    } else {
        last as u32
    }
}

/// The geometry of one blit: source and canvas sizes, where the drawn
/// rectangle starts on the canvas, and its size.
#[derive(Debug, Clone, Copy, PartialEq, Eq, Structural)]
pub struct BlitGeometry {
    pub source_width: u32,
    pub source_height: u32,
    pub dest_width: u32,
    pub dest_height: u32,
    pub dest_x: i32,
    pub dest_y: i32,
    pub draw_width: u32,
    pub draw_height: u32,
}

/// The byte offsets (source, canvas) of the pixel drawn at draw position
/// (`x`, `y`).
pub open spec fn pixel_pair(g: BlitGeometry, x: int, y: int) -> (int, int) {
    let sx = nearest(x, g.draw_width as int, g.source_width as int);
    let sy = nearest(y, g.draw_height as int, g.source_height as int);
    ((sy * g.source_width + sx) * 4, ((g.dest_y + y) * g.dest_width + (g.dest_x + x)) * 4)
}

/// Whether draw position (`x`, `y`) falls on the canvas.
pub open spec fn on_canvas(g: BlitGeometry, x: int, y: int) -> bool {
    0 <= g.dest_x + x < g.dest_width && 0 <= g.dest_y + y < g.dest_height
}

/// The pixels of the first `n` draw columns of row `y` that fall on the
/// canvas, left to right.
pub open spec fn row_pairs(g: BlitGeometry, y: int, n: int) -> Seq<(int, int)>
    decreases n,
{
    if n <= 0 {
        Seq::empty()
    } else if on_canvas(g, n - 1, y) {
        row_pairs(g, y, n - 1).push(pixel_pair(g, n - 1, y))
    } else {
        row_pairs(g, y, n - 1)
    }
}

/// The pixels of the first `m` draw rows that fall on the canvas, row by
/// row.
pub open spec fn rows_pairs(g: BlitGeometry, m: int) -> Seq<(int, int)>
    decreases m,
{
    if m <= 0 {
        Seq::empty()
    } else {
        rows_pairs(g, m - 1) + row_pairs(g, m - 1, g.draw_width as int)
    }
}

/// Every pixel a blit draws: none when a size is zero, else those of all
/// draw rows.
pub open spec fn blit_pairs(g: BlitGeometry) -> Seq<(int, int)> {
    if g.source_width == 0 || g.source_height == 0 || g.draw_width == 0 || g.draw_height == 0 {
        Seq::empty()
    } else {
        rows_pairs(g, g.draw_height as int)
    }
}

/// The byte offsets (source, canvas) a nearest-neighbour blit blends, in
/// the order it blends them, as `blit_pairs` says; the caller blends each
/// source pixel onto the canvas pixel.
pub fn blit_pixel_pairs(g: BlitGeometry) -> (r: Vec<(usize, usize)>)
    requires
        (g.source_width as int) * (g.source_height as int) * 4 <= u32::MAX,
        (g.dest_width as int) * (g.dest_height as int) * 4 <= u32::MAX,
    ensures
        r@.len() == blit_pairs(g).len(),
        forall|i: int|
            0 <= i < r@.len() ==> (#[trigger] r@[i]).0 as int == blit_pairs(g)[i].0 && r@[i].1 as int
                == blit_pairs(g)[i].1,
        forall|i: int|
            0 <= i < r@.len() ==> (#[trigger] r@[i]).0 + 4 <= (g.source_width as int) * (
            g.source_height as int) * 4 && r@[i].1 + 4 <= (g.dest_width as int) * (
            g.dest_height as int) * 4,
{
    let mut r: Vec<(usize, usize)> = Vec::new();
    if g.source_width == 0 || g.source_height == 0 || g.draw_width == 0 || g.draw_height == 0 {
        return r;
    }
    let ghost total = (g.source_width as int) * (g.source_height as int) * 4;
    let ghost dest_total = (g.dest_width as int) * (g.dest_height as int) * 4;
    let mut y: u32 = 0;
    while y < g.draw_height
        invariant
            0 < g.source_width && 0 < g.source_height && 0 < g.draw_width && 0 < g.draw_height,
            y <= g.draw_height,
            total == (g.source_width as int) * (g.source_height as int) * 4,
            dest_total == (g.dest_width as int) * (g.dest_height as int) * 4,
            total <= u32::MAX,
            dest_total <= u32::MAX,
            r@.len() == rows_pairs(g, y as int).len(),
            forall|i: int|
                0 <= i < r@.len() ==> (#[trigger] r@[i]).0 as int == rows_pairs(g, y as int)[i].0
                    && r@[i].1 as int == rows_pairs(g, y as int)[i].1,
            forall|i: int|
                0 <= i < r@.len() ==> (#[trigger] r@[i]).0 + 4 <= total && r@[i].1 + 4 <= dest_total,
        decreases g.draw_height - y,
    {
        let canvas_y: i64 = g.dest_y as i64 + y as i64;
        let ghost start = r@.len();
        let ghost before = r@;
        let mut x: u32 = 0;
        while x < g.draw_width
            invariant
                0 < g.source_width && 0 < g.source_height && 0 < g.draw_width && 0 < g.draw_height,
                y < g.draw_height,
                x <= g.draw_width,
                canvas_y == g.dest_y + y,
                total == (g.source_width as int) * (g.source_height as int) * 4,
                dest_total == (g.dest_width as int) * (g.dest_height as int) * 4,
                total <= u32::MAX,
                dest_total <= u32::MAX,
                start == before.len(),
                r@.len() == start + row_pairs(g, y as int, x as int).len(),
                forall|i: int| 0 <= i < start ==> #[trigger] r@[i] == before[i],
                forall|i: int|
                    0 <= i < row_pairs(g, y as int, x as int).len() ==> (#[trigger] r@[start
                        + i]).0 as int == row_pairs(g, y as int, x as int)[i].0 && r@[start + i].1 as int
                        == row_pairs(g, y as int, x as int)[i].1,
                forall|i: int|
                    0 <= i < r@.len() ==> (#[trigger] r@[i]).0 + 4 <= total && r@[i].1 + 4
                        <= dest_total,
            decreases g.draw_width - x,
        {
            let canvas_x: i64 = g.dest_x as i64 + x as i64;
            if 0 <= canvas_y && canvas_y < g.dest_height as i64 && 0 <= canvas_x && canvas_x
                < g.dest_width as i64 {
                let sy = nearest_source_coord(y, g.draw_height, g.source_height);
                let sx = nearest_source_coord(x, g.draw_width, g.source_width);
                let cy = canvas_y as u64;
                let cx = canvas_x as u64;
                let sw = g.source_width as u64;
                let sh = g.source_height as u64;
                let dw = g.dest_width as u64;
                let dh = g.dest_height as u64;
                assert((sy as int) * (sw as int) + (sx as int) + 1 <= (sw as int) * (sh as int))
                    by (nonlinear_arith)
                    requires
                        sy < sh,
                        sx < sw,
                ;
                assert((cy as int) * (dw as int) + (cx as int) + 1 <= (dw as int) * (dh as int))
                    by (nonlinear_arith)
                    requires
                        cy < dh,
                        cx < dw,
                ;
                let source_index: u64 = ((sy as u64) * sw + (sx as u64)) * 4;
                let dest_index: u64 = (cy * dw + cx) * 4;
                let ghost prev = r@;
                r.push((source_index as usize, dest_index as usize));
                proof {
                    let rp = row_pairs(g, y as int, x as int);
                    assert(row_pairs(g, y as int, x + 1) == rp.push(pixel_pair(g, x as int, y as int)));
                    assert forall|i: int| 0 <= i < start implies #[trigger] r@[i] == before[i] by {
                        assert(r@[i] == prev[i]);
                    }
                    assert forall|i: int|
                        0 <= i < row_pairs(g, y as int, x + 1).len() implies (#[trigger] r@[start
                        + i]).0 as int == row_pairs(g, y as int, x + 1)[i].0 && r@[start + i].1 as int
                        == row_pairs(g, y as int, x + 1)[i].1 by {
                        if i < rp.len() {
                            assert(r@[start + i] == prev[start + i]);
                        }
                    }
                    assert forall|i: int| 0 <= i < r@.len() implies (#[trigger] r@[i]).0 + 4 <= total
                        && r@[i].1 + 4 <= dest_total by {
                        if i < prev.len() {
                            assert(r@[i] == prev[i]);
                        }
                    }
                }
            } else {
                assert(row_pairs(g, y as int, x + 1) == row_pairs(g, y as int, x as int));
            }
            x = x + 1;
        }
        proof {
            let rp = row_pairs(g, y as int, g.draw_width as int);
            assert(rows_pairs(g, y + 1) == rows_pairs(g, y as int) + rp);
            assert forall|i: int| 0 <= i < r@.len() implies (#[trigger] r@[i]).0 as int == rows_pairs(
                g,
                y + 1,
            )[i].0 && r@[i].1 as int == rows_pairs(g, y + 1)[i].1 by {
                if i < start {
                    assert(r@[i] == before[i]);
                } else {
                    let k = i - start;
                    assert(r@[start + k] == r@[i]);
                }
            }
        }
        y = y + 1;
    }
    r
}

} // verus!
