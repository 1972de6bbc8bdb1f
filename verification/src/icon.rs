//! Box-filter downsampling of an RGBA image by an integer factor, used to shrink the
//! bundled app icon before it is shown small.

use vstd::prelude::*;

verus! {

/// How many of the `factor` rows (or columns) starting at `start` lie inside `total`.
pub open spec fn clip(total: int, start: int, factor: int) -> int {
    if start >= total {
        0
    } else if total - start < factor {
        total - start
    } else {
        factor
    }
}

/// The output size along one axis: the input size divided by the factor, at least 1.
pub open spec fn out_len(len: int, factor: int) -> int {
    if len / factor >= 1 {
        len / factor
    } else {
        1
    }
}

/// Channel `c` of the `n` pixels of row `y` starting at column `x0`, summed.
pub open spec fn span_sum(rgba: Seq<u8>, width: int, y: int, x0: int, n: nat, c: int) -> nat
    decreases n,
{
    if n == 0 {
        0
    } else {
        span_sum(rgba, width, y, x0, (n - 1) as nat, c) + rgba[(y * width + x0 + n - 1) * 4 + c] as nat
    }
}

/// Channel `c` of the block of `rows` rows from `y0` and `cols` columns from `x0`, summed.
pub open spec fn block_sum(rgba: Seq<u8>, width: int, y0: int, rows: nat, x0: int, cols: nat, c: int) -> nat
    decreases rows,
{
    if rows == 0 {
        0
    } else {
        block_sum(rgba, width, y0, (rows - 1) as nat, x0, cols, c) + span_sum(rgba, width, y0 + rows - 1, x0, cols, c)
    }
}

/// Channel `c` of output pixel `(ox, oy)`: the mean of the input pixels of its
/// `factor` x `factor` block that lie inside the image, rounded down (0 for an empty block).
pub open spec fn box_average(rgba: Seq<u8>, width: int, height: int, factor: int, ox: int, oy: int, c: int) -> int {
    let rows = clip(height, oy * factor, factor);
    let cols = clip(width, ox * factor, factor);
    let count = rows * cols;
    block_sum(rgba, width, oy * factor, rows as nat, ox * factor, cols as nat, c) as int / (if count == 0 {
        1
    } else {
        count
    })
}

proof fn lemma_span_bound(rgba: Seq<u8>, width: int, y: int, x0: int, n: nat, c: int)
    ensures
        span_sum(rgba, width, y, x0, n, c) <= 255 * n,
    decreases n,
{
    if n > 0 {
        lemma_span_bound(rgba, width, y, x0, (n - 1) as nat, c);
    }
}

proof fn lemma_block_bound(rgba: Seq<u8>, width: int, y0: int, rows: nat, x0: int, cols: nat, c: int)
    ensures
        block_sum(rgba, width, y0, rows, x0, cols, c) <= 255 * rows * cols,
    decreases rows,
{
    if rows > 0 {
        lemma_block_bound(rgba, width, y0, (rows - 1) as nat, x0, cols, c);
        lemma_span_bound(rgba, width, y0 + rows - 1, x0, cols, c);
        assert(255 * (rows - 1) * cols + 255 * cols == 255 * rows * cols) by (nonlinear_arith);
    }
}

/// Every channel average is a byte value.
proof fn lemma_average_is_byte(rgba: Seq<u8>, width: int, height: int, factor: int, ox: int, oy: int, c: int)
    requires
        factor > 1,
    ensures
        0 <= box_average(rgba, width, height, factor, ox, oy, c) <= 255,
{
    let rows = clip(height, oy * factor, factor);
    let cols = clip(width, ox * factor, factor);
    let count = rows * cols;
    let sum: int = block_sum(rgba, width, oy * factor, rows as nat, ox * factor, cols as nat, c) as int;
    lemma_block_bound(rgba, width, oy * factor, rows as nat, ox * factor, cols as nat, c);
    assert(255 * rows * cols == 255 * count) by (nonlinear_arith)
        requires
            count == rows * cols,
    ;
    assert(count >= 0) by (nonlinear_arith)
        requires
            count == rows * cols,
            rows >= 0,
            cols >= 0,
    ;
    if count == 0 {
        assert(sum == 0);
    } else {
        assert(0 <= sum / count <= 255) by (nonlinear_arith)
            requires
                0 <= sum <= 255 * count,
                count > 0,
        ;
    }
}

/// Pixel `(x, y)` of a `width`-wide image lies within a buffer of `width * height` pixels.
proof fn lemma_pixel_in_bounds(width: int, height: int, x: int, y: int, c: int)
    requires
        0 <= x < width,
        0 <= y < height,
        0 <= c < 4,
    ensures
        0 <= y * width,
        y * width + x < width * height,
        0 <= (y * width + x) * 4 + c < width * height * 4,
{
    assert(y * width + x < width * height) by (nonlinear_arith)
        requires
            0 <= x < width,
            0 <= y < height,
    ;
    assert(0 <= y * width) by (nonlinear_arith)
        requires
            0 <= y,
            0 <= width,
    ;
}

/// The first input row (or column) of output row (or column) `o` lies within the image,
/// or at its end.
proof fn lemma_block_origin(len: int, factor: int, o: int)
    requires
        factor > 1,
        len >= 0,
        0 <= o < out_len(len, factor),
    ensures
        0 <= o * factor <= len,
{
    if len / factor >= 1 {
        vstd::arithmetic::div_mod::lemma_fundamental_div_mod(len, factor);
        let q = len / factor;
        assert(o * factor <= q * factor) by (nonlinear_arith)
            requires
                0 <= o < q,
                factor > 1,
        ;
        assert(factor * q <= len) by {
            assert(len % factor >= 0) by {
                vstd::arithmetic::div_mod::lemma_mod_pos_bound(len, factor);
            }
        }
        assert(q * factor == factor * q) by (nonlinear_arith);
        assert(0 <= o * factor) by (nonlinear_arith)
            requires
                0 <= o,
                factor > 1,
        ;
    } else {
        assert(o == 0);
    }
}

/// The output buffer's flat index of channel `c` of pixel `(ox, oy)`, and back.
proof fn lemma_out_index(w: int, h: int, ox: int, oy: int, c: int)
    requires
        0 <= ox < w,
        0 <= oy < h,
        0 <= c < 4,
    ensures
        0 <= (oy * w + ox) * 4 + c < w * h * 4,
        ((oy * w + ox) * 4 + c) / 4 == oy * w + ox,
        ((oy * w + ox) * 4 + c) % 4 == c,
        (oy * w + ox) % w == ox,
        (oy * w + ox) / w == oy,
{
    lemma_pixel_in_bounds(w, h, ox, oy, c);
    let i = (oy * w + ox) * 4 + c;
    vstd::arithmetic::div_mod::lemma_fundamental_div_mod_converse_div(i, 4, oy * w + ox, c);
    vstd::arithmetic::div_mod::lemma_fundamental_div_mod_converse_mod(i, 4, oy * w + ox, c);
    vstd::arithmetic::div_mod::lemma_fundamental_div_mod_converse_div(oy * w + ox, w, oy, ox);
    vstd::arithmetic::div_mod::lemma_fundamental_div_mod_converse_mod(oy * w + ox, w, oy, ox);
}

/// The downsampled buffer, channel by channel in row-major pixel order.
pub open spec fn expected_pixels(rgba: Seq<u8>, width: int, height: int, factor: int, out_w: int, out_h: int) -> Seq<u8> {
    Seq::new(
        (out_w * out_h * 4) as nat,
        |i: int| box_average(rgba, width, height, factor, (i / 4) % out_w, (i / 4) / out_w, i % 4) as u8,
    )
}

fn span_channel_sum(rgba: &[u8], width: usize, height: usize, y: usize, x0: usize, n: usize, c: usize) -> (s: u128)
    requires
        y < height,
        x0 + n <= width,
        c < 4,
        width * height * 4 <= rgba@.len(),
    ensures
        s == span_sum(rgba@, width as int, y as int, x0 as int, n as nat, c as int),
{
    let total = rgba.len();
    let mut s: u128 = 0;
    let mut i: usize = 0;
    while i < n
        invariant
            i <= n,
            y < height,
            x0 + n <= width,
            c < 4,
            total == rgba@.len(),
            width * height * 4 <= rgba@.len(),
            s == span_sum(rgba@, width as int, y as int, x0 as int, i as nat, c as int),
            s <= 255 * i,
        decreases n - i,
    {
        proof {
            lemma_pixel_in_bounds(width as int, height as int, (x0 + i) as int, y as int, c as int);
        }
        let idx = (y * width + x0 + i) * 4 + c;
        s = s + rgba[idx] as u128;
        i += 1;
    }
    s
}

fn block_channel_sum(rgba: &[u8], width: usize, height: usize, y0: usize, rows: usize, x0: usize, cols: usize, c: usize) -> (s: u128)
    requires
        y0 + rows <= height,
        x0 + cols <= width,
        c < 4,
        width * height * 4 <= rgba@.len(),
    ensures
        s == block_sum(rgba@, width as int, y0 as int, rows as nat, x0 as int, cols as nat, c as int),
{
    let total = rgba.len();
    let mut s: u128 = 0;
    let mut r: usize = 0;
    while r < rows
        invariant
            r <= rows,
            y0 + rows <= height,
            x0 + cols <= width,
            c < 4,
            total == rgba@.len(),
            width * height * 4 <= rgba@.len(),
            s == block_sum(rgba@, width as int, y0 as int, r as nat, x0 as int, cols as nat, c as int),
        decreases rows - r,
    {
        let row = span_channel_sum(rgba, width, height, y0 + r, x0, cols, c);
        proof {
            lemma_block_bound(rgba@, width as int, y0 as int, (r + 1) as nat, x0 as int, cols as nat, c as int);
            assert(255 * (r + 1) * cols <= 255 * height * width) by (nonlinear_arith)
                requires
                    r + 1 <= height,
                    cols <= width,
            ;
            assert(255 * height * width <= 255 * (width * height * 4)) by (nonlinear_arith)
                requires
                    width >= 0,
                    height >= 0,
            ;
        }
        s = s + row;
        r += 1;
    }
    s
}

/// Channel `c` of output pixel `(ox, oy)`, computed.
fn block_average(rgba: &[u8], width: usize, height: usize, factor: usize, ox: usize, oy: usize, c: usize) -> (v: u8)
    requires
        factor > 1,
        ox < out_len(width as int, factor as int),
        oy < out_len(height as int, factor as int),
        c < 4,
        width * height * 4 <= rgba@.len(),
    ensures
        v == box_average(rgba@, width as int, height as int, factor as int, ox as int, oy as int, c as int),
        0 <= box_average(rgba@, width as int, height as int, factor as int, ox as int, oy as int, c as int) <= 255,
{
    proof {
        lemma_block_origin(height as int, factor as int, oy as int);
        lemma_block_origin(width as int, factor as int, ox as int);
    }
    let y0 = oy * factor;
    let x0 = ox * factor;
    let rows = if y0 >= height { 0 } else if height - y0 < factor { height - y0 } else { factor };
    let cols = if x0 >= width { 0 } else if width - x0 < factor { width - x0 } else { factor };
    proof {
        assert(rows * cols <= height * width) by (nonlinear_arith)
            requires
                rows <= height,
                cols <= width,
        ;
        assert(height * width <= width * height * 4) by (nonlinear_arith)
            requires
                width >= 0,
                height >= 0,
        ;
    }
    let total = rgba.len();
    assert(rows * cols <= total);
    let count = rows * cols;
    let sum = block_channel_sum(rgba, width, height, y0, rows, x0, cols, c);
    proof {
        lemma_block_bound(rgba@, width as int, y0 as int, rows as nat, x0 as int, cols as nat, c as int);
    }
    if count == 0 {
        assert(sum <= 255 * rows * cols);
        assert(255 * rows * cols == 255 * (rows * cols)) by (nonlinear_arith);
        sum as u8
    } else {
        let avg = sum / (count as u128);
        proof {
            assert(255 * rows * cols == 255 * (rows * cols)) by (nonlinear_arith);
            assert(avg <= 255) by (nonlinear_arith)
                requires
                    avg == sum / (count as u128),
                    sum <= 255 * count,
                    count > 0,
            ;
        }
        avg as u8
    }
}

/// Shrinks a `width` x `height` RGBA buffer by `factor` with a box filter: each output
/// pixel is the mean (rounded down) of the input pixels of its `factor` x `factor` block
/// that lie inside the image. A factor of 0 or 1 returns the buffer unchanged. Returns
/// the pixels and the output width and height.
pub fn downsample_rgba_box(rgba: &[u8], width: usize, height: usize, factor: usize) -> (r: (Vec<u8>, usize, usize))
    requires
        width * height * 4 <= rgba@.len(),
        factor > 1 ==> out_len(width as int, factor as int) * out_len(height as int, factor as int) * 4 <= usize::MAX,
    ensures
        factor <= 1 ==> r.0@ == rgba@ && r.1 == width && r.2 == height,
        factor > 1 ==> {
            &&& r.1 == out_len(width as int, factor as int)
            &&& r.2 == out_len(height as int, factor as int)
            &&& r.0@.len() == r.1 * r.2 * 4
            &&& forall|ox: int, oy: int, c: int|
                0 <= ox < r.1 && 0 <= oy < r.2 && 0 <= c < 4 ==> #[trigger] r.0@[(oy * r.1 + ox) * 4 + c]
                    == box_average(rgba@, width as int, height as int, factor as int, ox, oy, c)
        },
{
    if factor <= 1 {
        let mut copy: Vec<u8> = Vec::new();
        let mut i: usize = 0;
        while i < rgba.len()
            invariant
                i <= rgba@.len(),
                copy@ == rgba@.subrange(0, i as int),
            decreases rgba.len() - i,
        {
            copy.push(rgba[i]);
            i += 1;
            assert(copy@ =~= rgba@.subrange(0, i as int));
        }
        assert(rgba@.subrange(0, i as int) =~= rgba@);
        return (copy, width, height);
    }
    let out_w = if width / factor >= 1 { width / factor } else { 1 };
    let out_h = if height / factor >= 1 { height / factor } else { 1 };
    let ghost expected = expected_pixels(rgba@, width as int, height as int, factor as int, out_w as int, out_h as int);
    let mut out: Vec<u8> = Vec::new();
    let mut oy: usize = 0;
    while oy < out_h
        invariant
            factor > 1,
            out_w == out_len(width as int, factor as int),
            out_h == out_len(height as int, factor as int),
            width * height * 4 <= rgba@.len(),
            expected == expected_pixels(rgba@, width as int, height as int, factor as int, out_w as int, out_h as int),
            oy <= out_h,
            out@.len() == oy * out_w * 4,
            out@ == expected.subrange(0, out@.len() as int),
        decreases out_h - oy,
    {
        let mut ox: usize = 0;
        while ox < out_w
            invariant
                factor > 1,
                out_w == out_len(width as int, factor as int),
                out_h == out_len(height as int, factor as int),
                width * height * 4 <= rgba@.len(),
                expected == expected_pixels(rgba@, width as int, height as int, factor as int, out_w as int, out_h as int),
                oy < out_h,
                ox <= out_w,
                out@.len() == (oy * out_w + ox) * 4,
                out@ == expected.subrange(0, out@.len() as int),
            decreases out_w - ox,
        {
            let mut c: usize = 0;
            while c < 4
                invariant
                    factor > 1,
                    out_w == out_len(width as int, factor as int),
                    out_h == out_len(height as int, factor as int),
                    width * height * 4 <= rgba@.len(),
                    expected == expected_pixels(rgba@, width as int, height as int, factor as int, out_w as int, out_h as int),
                    oy < out_h,
                    ox < out_w,
                    c <= 4,
                    out@.len() == (oy * out_w + ox) * 4 + c,
                    out@ == expected.subrange(0, out@.len() as int),
                decreases 4 - c,
            {
                let v = block_average(rgba, width, height, factor, ox, oy, c);
                proof {
                    lemma_out_index(out_w as int, out_h as int, ox as int, oy as int, c as int);
                    let i = (oy * out_w + ox) * 4 + c;
                    assert(expected[i] == v);
                }
                out.push(v);
                c += 1;
                assert(out@ =~= expected.subrange(0, out@.len() as int));
            }
            ox += 1;
        }
        assert((oy * out_w + out_w) * 4 == (oy + 1) * out_w * 4) by (nonlinear_arith);
        oy += 1;
    }
    proof {
        assert(oy * out_w * 4 == out_w * out_h * 4) by (nonlinear_arith)
            requires
                oy == out_h,
        ;
        assert(out@ =~= expected);
        assert forall|ox: int, oy: int, c: int|
            0 <= ox < out_w && 0 <= oy < out_h && 0 <= c < 4 implies #[trigger] out@[(oy * out_w + ox) * 4 + c]
                == box_average(rgba@, width as int, height as int, factor as int, ox, oy, c) by {
            lemma_out_index(out_w as int, out_h as int, ox, oy, c);
            lemma_average_is_byte(rgba@, width as int, height as int, factor as int, ox, oy, c);
        }
    }
    (out, out_w, out_h)
}

} // verus!
