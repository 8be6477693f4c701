use vstd::prelude::*;

use crate::chars_to_string;
use crate::colors::{reset_color, reset_seq, set_black_background, set_black_background_seq,
    set_color_full_brightness, set_color_full_brightness_seq};
use crate::config::Args;
use crate::img::{pixel_at, resize, resized, Image};
use crate::palette::{char_from_color, spec_char_from_color};

verus! {

// ---------------------------------------------------------------------------
// Convolution
// ---------------------------------------------------------------------------

/// Clamps a coordinate to the valid range `0..n`.
pub open spec fn clamp_coord(v: int, n: int) -> int {
    if v < 0 {
        0
    } else if v >= n {
        n - 1
    } else {
        v
    }
}

/// The summed RGB value of the pixel at (x, y); alpha is not included.
pub open spec fn rgb_sum(d: Seq<u8>, w: int, x: int, y: int) -> int {
    let p = pixel_at(d, w, x, y);
    p.r + p.g + p.b
}

/// The horizontal-gradient kernel weight at offset (dx, dy): the column
/// sign times 3 on the centre row and 2 off it.
pub open spec fn gx_weight(dx: int, dy: int) -> int {
    (if dy == 0 {
        3int
    } else {
        2
    }) * (if dx < 0 {
        -1
    } else if dx == 0 {
        0
    } else {
        1
    })
}

/// The vertical-gradient kernel weight at offset (dx, dy).
pub open spec fn gy_weight(dx: int, dy: int) -> int {
    (if dx == 0 {
        3int
    } else {
        2
    }) * (if dy < 0 {
        -1
    } else if dy == 0 {
        0
    } else {
        1
    })
}

/// One term of the 3x3 convolution at cell (x, y): term number `k` in
/// 0..9 visits offset (k/3 - 1, k%3 - 1), with out-of-bounds samples
/// clamped to the nearest in-bounds pixel.
pub open spec fn conv_term(d: Seq<u8>, w: int, h: int, x: int, y: int, horizontal: bool, k: int) -> int {
    let dx = k / 3 - 1;
    let dy = k % 3 - 1;
    let sx = clamp_coord(x + dx, w);
    let sy = clamp_coord(y + dy, h);
    (if horizontal {
        gx_weight(dx, dy)
    } else {
        gy_weight(dx, dy)
    }) * rgb_sum(d, w, sx, sy)
}

/// The sum of the first `k` convolution terms.
pub open spec fn conv_partial(
    d: Seq<u8>,
    w: int,
    h: int,
    x: int,
    y: int,
    horizontal: bool,
    k: int,
) -> int
    decreases k,
{
    if k <= 0 {
        0
    } else {
        conv_partial(d, w, h, x, y, horizontal, k - 1) + conv_term(d, w, h, x, y, horizontal, k - 1)
    }
}

/// The full 3x3 convolution of the summed RGB values at cell (x, y), for
/// the horizontal- or the vertical-gradient kernel.
pub open spec fn conv_at(d: Seq<u8>, w: int, h: int, x: int, y: int, horizontal: bool) -> int {
    conv_partial(d, w, h, x, y, horizontal, 9)
}

proof fn lemma_conv_term_bound(d: Seq<u8>, w: int, h: int, x: int, y: int, horizontal: bool, k: int)
    requires
        d.len() == 4 * w * h,
        0 <= x < w,
        0 <= y < h,
    ensures
        -2295 <= conv_term(d, w, h, x, y, horizontal, k) <= 2295,
{
    let dx = k / 3 - 1;
    let dy = k % 3 - 1;
    let sx = clamp_coord(x + dx, w);
    let sy = clamp_coord(y + dy, h);
    let s = rgb_sum(d, w, sx, sy);
    let wt = if horizontal {
        gx_weight(dx, dy)
    } else {
        gy_weight(dx, dy)
    };
    assert(0 <= s <= 765);
    assert(-3 <= wt <= 3);
    assert(-2295 <= wt * s <= 2295) by (nonlinear_arith)
        requires
            0 <= s <= 765,
            -3 <= wt <= 3,
    ;
}

/// Computes one gradient value at cell (x, y).
fn conv_cell(img: &Image, x: u32, y: u32, horizontal: bool) -> (v: i64)
    requires
        img.wf(),
        x < img.width,
        y < img.height,
    ensures
        v as int == conv_at(img.data@, img.width as int, img.height as int, x as int, y as int, horizontal),
        -20655 <= v <= 20655,
{
    let ghost w = img.width as int;
    let ghost h = img.height as int;
    let mut acc: i64 = 0;
    let mut k: usize = 0;
    while k < 9
        invariant
            img.wf(),
            x < img.width,
            y < img.height,
            w == img.width as int,
            h == img.height as int,
            k <= 9,
            acc as int == conv_partial(img.data@, w, h, x as int, y as int, horizontal, k as int),
            -2295 * (k as int) <= acc as int <= 2295 * (k as int),
        decreases 9 - k,
    {
        let dx: i64 = (k as i64) / 3 - 1;
        let dy: i64 = (k as i64) % 3 - 1;
        let xi: i64 = x as i64 + dx;
        let yi: i64 = y as i64 + dy;
        let sx: u32 = if xi < 0 {
            0
        } else if xi >= img.width as i64 {
            img.width - 1
        } else {
            xi as u32
        };
        let sy: u32 = if yi < 0 {
            0
        } else if yi >= img.height as i64 {
            img.height - 1
        } else {
            yi as u32
        };
        let p = img.pixel(sx, sy);
        let s: i64 = p.r as i64 + p.g as i64 + p.b as i64;
        let wt: i64 = if horizontal {
            (if dy == 0 {
                3
            } else {
                2
            }) * (if dx < 0 {
                -1
            } else if dx == 0 {
                0
            } else {
                1
            })
        } else {
            (if dx == 0 {
                3
            } else {
                2
            }) * (if dy < 0 {
                -1
            } else if dy == 0 {
                0
            } else {
                1
            })
        };
        proof {
            lemma_conv_term_bound(img.data@, w, h, x as int, y as int, horizontal, k as int);
            assert(wt as int * s as int == conv_term(
                img.data@,
                w,
                h,
                x as int,
                y as int,
                horizontal,
                k as int,
            ));
        }
        acc = acc + wt * s;
        k = k + 1;
    }
    acc
}

/// Convolves the summed RGB values of a whole image with one of the two
/// gradient kernels, row-major.
pub fn convolve(image: &Image, horizontal: bool) -> (r: Vec<i64>)
    requires
        image.wf(),
    ensures
        r@.len() == (image.width as int) * (image.height as int),
        forall|x: int, y: int|
            0 <= x < image.width && 0 <= y < image.height ==> r@[y * (image.width as int) + x]
                as int == conv_at(
                image.data@,
                image.width as int,
                image.height as int,
                x,
                y,
                horizontal,
            ),
{
    let ghost w = image.width as int;
    let ghost h = image.height as int;
    let mut out: Vec<i64> = Vec::new();
    let mut y: u32 = 0;
    while y < image.height
        invariant
            image.wf(),
            w == image.width as int,
            h == image.height as int,
            y <= image.height,
            out@.len() == (y as int) * w,
            forall|x2: int, y2: int|
                0 <= x2 < w && 0 <= y2 < y ==> out@[y2 * w + x2] as int == conv_at(
                    image.data@,
                    w,
                    h,
                    x2,
                    y2,
                    horizontal,
                ),
        decreases image.height - y,
    {
        let mut x: u32 = 0;
        while x < image.width
            invariant
                image.wf(),
                w == image.width as int,
                h == image.height as int,
                y < image.height,
                x <= image.width,
                out@.len() == (y as int) * w + x as int,
                forall|x2: int, y2: int|
                    0 <= x2 < w && 0 <= y2 < y ==> out@[y2 * w + x2] as int == conv_at(
                        image.data@,
                        w,
                        h,
                        x2,
                        y2,
                        horizontal,
                    ),
                forall|x2: int|
                    0 <= x2 < x ==> out@[(y as int) * w + x2] as int == conv_at(
                        image.data@,
                        w,
                        h,
                        x2,
                        y as int,
                        horizontal,
                    ),
            decreases image.width - x,
        {
            let v = conv_cell(image, x, y, horizontal);
            let ghost prev = out@;
            out.push(v);
            proof {
                crate::img::lemma_grid_index(x as int, y as int, w, h);
                assert forall|x2: int, y2: int| 0 <= x2 < w && 0 <= y2 < y implies out@[y2 * w + x2]
                    as int == conv_at(image.data@, w, h, x2, y2, horizontal) by {
                    assert(y2 * w + x2 < (y as int) * w) by (nonlinear_arith)
                        requires
                            0 <= x2 < w,
                            0 <= y2 <= y as int - 1,
                    ;
                    assert(out@[y2 * w + x2] == prev[y2 * w + x2]);
                    assert(prev[y2 * w + x2] as int == conv_at(image.data@, w, h, x2, y2, horizontal));
                }
            }
            x = x + 1;
        }
        proof {
            assert((y as int) * w + w == (y as int + 1) * w) by (nonlinear_arith);
        }
        y = y + 1;
    }
    proof {
        assert((image.height as int) * w == w * (image.height as int)) by (nonlinear_arith);
    }
    out
}

// ---------------------------------------------------------------------------
// Gradient direction
// ---------------------------------------------------------------------------

/// The direction class of the gradient vector (gx, gy): the angle
/// `atan2(gy, gx)` is folded into [0, pi) by negating the vector when it
/// points below the axis, and the half-open octant boundaries pi/8,
/// 3pi/8, 5pi/8 and 7pi/8 split the fold into the four classes
/// 0 (near 0), 1 (near pi/4), 2 (near pi/2) and 3 (near 3pi/4).
/// Comparisons against the irrational slopes `tan(pi/8) = sqrt(2) - 1`
/// and `tan(3pi/8) = sqrt(2) + 1` are carried out exactly on squares.
pub open spec fn edge_bucket(gx: int, gy: int) -> int {
    let x = if gy < 0 || (gy == 0 && gx < 0) {
        -gx
    } else {
        gx
    };
    let y = if gy < 0 || (gy == 0 && gx < 0) {
        -gy
    } else {
        gy
    };
    if x > 0 {
        if (x + y) * (x + y) < 2 * (x * x) {
            0
        } else if y <= x || (y - x) * (y - x) < 2 * (x * x) {
            1
        } else {
            2
        }
    } else if x == 0 {
        if y == 0 {
            0
        } else {
            2
        }
    } else {
        if (y - x) * (y - x) <= 2 * (x * x) {
            0
        } else if y >= -x && (y + x) * (y + x) >= 2 * (x * x) {
            2
        } else {
            3
        }
    }
}

/// The directional glyph for a direction class: vertical, diagonal
/// forward, horizontal, diagonal backward.
pub open spec fn edge_char_of(bucket: int) -> char {
    if bucket == 0 {
        '|'
    } else if bucket == 1 {
        '/'
    } else if bucket == 2 {
        '-'
    } else {
        '\\'
    }
}

/// Picks the directional glyph for a gradient vector.
fn edge_char(gx: i64, gy: i64) -> (c: char)
    requires
        -20655 <= gx <= 20655,
        -20655 <= gy <= 20655,
    ensures
        c == edge_char_of(edge_bucket(gx as int, gy as int)),
{
    let x: i64 = if gy < 0 || (gy == 0 && gx < 0) {
        -gx
    } else {
        gx
    };
    let y: i64 = if gy < 0 || (gy == 0 && gx < 0) {
        -gy
    } else {
        gy
    };
    let su: i64 = x + y;
    let di: i64 = y - x;
    proof {
        assert(0 <= su * su <= 41310 * 41310) by (nonlinear_arith)
            requires
                -41310 <= su <= 41310,
        ;
        assert(0 <= di * di <= 41310 * 41310) by (nonlinear_arith)
            requires
                -41310 <= di <= 41310,
        ;
        assert(0 <= x * x <= 20655 * 20655) by (nonlinear_arith)
            requires
                -20655 <= x <= 20655,
        ;
    }
    let xx: i64 = x * x;
    if x > 0 {
        if su * su < 2 * xx {
            '|'
        } else if y <= x || di * di < 2 * xx {
            '/'
        } else {
            '-'
        }
    } else if x == 0 {
        if y == 0 {
            '|'
        } else {
            '-'
        }
    } else {
        if di * di <= 2 * xx {
            '|'
        } else if y >= -x && su * su >= 2 * xx {
            '-'
        } else {
            '\\'
        }
    }
}

// ---------------------------------------------------------------------------
// Rendering
// ---------------------------------------------------------------------------

/// One cell of edge output: the cell color at full brightness, then
/// either the luminance glyph (flat region, gradient magnitude below
/// 1000) or the directional glyph for the gradient angle.
pub open spec fn edges_cell(d: Seq<u8>, w: int, h: int, args: Args, x: int, y: int) -> Seq<char> {
    let px = pixel_at(d, w, x, y);
    let gx = conv_at(d, w, h, x, y, true);
    let gy = conv_at(d, w, h, x, y, false);
    set_color_full_brightness_seq(px, args) + (if gx * gx + gy * gy < 1000000 {
        seq![spec_char_from_color(px, args)]
    } else {
        seq![edge_char_of(edge_bucket(gx, gy))]
    })
}

/// The first `x` cells of row `y`.
pub open spec fn edges_row_to(d: Seq<u8>, w: int, h: int, args: Args, y: int, x: int) -> Seq<char>
    decreases x,
{
    if x <= 0 {
        Seq::empty()
    } else {
        edges_row_to(d, w, h, args, y, x - 1) + edges_cell(d, w, h, args, x - 1, y)
    }
}

/// The first `y` full rows.
pub open spec fn edges_rows_to(d: Seq<u8>, w: int, h: int, args: Args, y: int) -> Seq<char>
    decreases y,
{
    if y <= 0 {
        Seq::empty()
    } else {
        edges_rows_to(d, w, h, args, y - 1) + set_black_background_seq(args) + edges_row_to(
            d,
            w,
            h,
            args,
            y - 1,
            w,
        ) + reset_seq() + seq!['\n']
    }
}

/// The whole edge rendering: the source resampled to one pixel per cell,
/// flat cells falling back to the luminance glyph.
pub open spec fn spec_print_edges(d: Seq<u8>, w: int, h: int, args: Args) -> Seq<char> {
    let sd = resized(d, w, h, args.width as int, args.height as int, args.filter);
    edges_rows_to(sd, args.width as int, args.height as int, args, args.height as int)
}

/// Renders gradient contours: cells with a strong gradient get one of
/// four directional glyphs, flat cells fall back to the luminance glyph.
pub fn print_edges(args: &Args, image: &Image) -> (out: String)
    requires
        args.wf(),
        image.wf(),
        1 <= image.width,
        1 <= image.height,
        (args.width as int) * (args.height as int) <= 0x3FFFFF,
    ensures
        out@ == spec_print_edges(image.data@, image.width as int, image.height as int, *args),
{
    if args.width == 0 || args.height == 0 {
        // An empty grid: rows (if any) hold no cells, so no pixel is ever
        // sampled and the resample is not needed.
        let ghost sd = resized(
            image.data@,
            image.width as int,
            image.height as int,
            args.width as int,
            args.height as int,
            args.filter,
        );
        let mut out: Vec<char> = Vec::new();
        let mut y: u32 = 0;
        while y < args.height
            invariant
                args.width == 0 || args.height == 0,
                y <= args.height,
                out@ == edges_rows_to(sd, args.width as int, args.height as int, *args, y as int),
            decreases args.height - y,
        {
            set_black_background(args, &mut out);
            reset_color(&mut out);
            out.push('\n');
            proof {
                assert(out@ =~= edges_rows_to(
                    sd,
                    args.width as int,
                    args.height as int,
                    *args,
                    y as int + 1,
                ));
            }
            y = y + 1;
        }
        return chars_to_string(&out);
    }
    let scaled = resize(image, args.width, args.height, args.filter);
    let ghost sd = scaled.data@;
    let ghost w = args.width as int;
    let ghost h = args.height as int;
    let mut out: Vec<char> = Vec::new();
    let mut y: u32 = 0;
    while y < args.height
        invariant
            args.wf(),
            scaled.wf(),
            scaled.width == args.width,
            scaled.height == args.height,
            sd == scaled.data@,
            w == args.width as int,
            h == args.height as int,
            y <= args.height,
            out@ == edges_rows_to(sd, w, h, *args, y as int),
        decreases args.height - y,
    {
        set_black_background(args, &mut out);
        let ghost row_base = out@;
        let mut x: u32 = 0;
        while x < args.width
            invariant
                args.wf(),
                scaled.wf(),
                scaled.width == args.width,
                scaled.height == args.height,
                sd == scaled.data@,
                w == args.width as int,
                h == args.height as int,
                y < args.height,
                x <= args.width,
                row_base == edges_rows_to(sd, w, h, *args, y as int) + set_black_background_seq(
                    *args,
                ),
                out@ == row_base + edges_row_to(sd, w, h, *args, y as int, x as int),
            decreases args.width - x,
        {
            let gx = conv_cell(&scaled, x, y, true);
            let gy = conv_cell(&scaled, x, y, false);
            proof {
                assert(0 <= gx * gx <= 20655 * 20655) by (nonlinear_arith)
                    requires
                        -20655 <= gx <= 20655,
                ;
                assert(0 <= gy * gy <= 20655 * 20655) by (nonlinear_arith)
                    requires
                        -20655 <= gy <= 20655,
                ;
            }
            let px = scaled.pixel(x, y);
            set_color_full_brightness(px, args, &mut out);
            if gx * gx + gy * gy < 1000000 {
                let c = char_from_color(px, args);
                out.push(c);
            } else {
                let c = edge_char(gx, gy);
                out.push(c);
            }
            proof {
                assert(out@ =~= row_base + edges_row_to(sd, w, h, *args, y as int, x as int + 1));
            }
            x = x + 1;
        }
        reset_color(&mut out);
        out.push('\n');
        proof {
            assert(out@ =~= edges_rows_to(sd, w, h, *args, y as int + 1));
        }
        y = y + 1;
    }
    chars_to_string(&out)
}

// ---------------------------------------------------------------------------
// Laws
// ---------------------------------------------------------------------------

/// On an image whose pixels are all equal, both gradients vanish at every
/// cell, so every cell of the edge rendering takes the flat-region
/// branch: its glyph is the luminance glyph, never a directional one.
pub proof fn lemma_uniform_image_is_flat(
    d: Seq<u8>,
    w: int,
    h: int,
    args: Args,
    x: int,
    y: int,
)
    requires
        d.len() == 4 * w * h,
        0 <= x < w,
        0 <= y < h,
        forall|x2: int, y2: int|
            0 <= x2 < w && 0 <= y2 < h ==> #[trigger] pixel_at(d, w, x2, y2) == pixel_at(d, w, 0, 0),
    ensures
        conv_at(d, w, h, x, y, true) == 0,
        conv_at(d, w, h, x, y, false) == 0,
        edges_cell(d, w, h, args, x, y) == set_color_full_brightness_seq(pixel_at(d, w, x, y), args)
            + seq![spec_char_from_color(pixel_at(d, w, x, y), args)],
{
    lemma_uniform_conv(d, w, h, x, y, true);
    lemma_uniform_conv(d, w, h, x, y, false);
}

proof fn lemma_uniform_row(d: Seq<u8>, w: int, h: int, args: Args, y: int, x: int)
    requires
        d.len() == 4 * w * h,
        0 <= w,
        0 <= x <= w,
        0 <= y < h,
        forall|x2: int, y2: int|
            0 <= x2 < w && 0 <= y2 < h ==> #[trigger] pixel_at(d, w, x2, y2) == pixel_at(d, w, 0, 0),
    ensures
        edges_row_to(d, w, h, args, y, x) == crate::luminance_printer::lum_row_to(d, w, args, y, x),
    decreases x,
{
    if x > 0 {
        lemma_uniform_row(d, w, h, args, y, x - 1);
        lemma_uniform_image_is_flat(d, w, h, args, x - 1, y);
    }
}

proof fn lemma_uniform_rows(d: Seq<u8>, w: int, h: int, args: Args, y: int)
    requires
        d.len() == 4 * w * h,
        0 <= w,
        0 <= y <= h,
        forall|x2: int, y2: int|
            0 <= x2 < w && 0 <= y2 < h ==> #[trigger] pixel_at(d, w, x2, y2) == pixel_at(d, w, 0, 0),
    ensures
        edges_rows_to(d, w, h, args, y) == crate::luminance_printer::lum_rows_to(d, w, args, y),
    decreases y,
{
    if y > 0 {
        lemma_uniform_rows(d, w, h, args, y - 1);
        lemma_uniform_row(d, w, h, args, y - 1, w);
    }
}

/// On a uniform pixel grid the whole edge rendering coincides with the
/// luminance rendering of the same grid: every cell takes the
/// flat-region branch, whatever the grid size, so no directional glyph
/// ever appears.
pub proof fn lemma_uniform_edges_render_as_luminance(d: Seq<u8>, w: int, h: int, args: Args)
    requires
        d.len() == 4 * w * h,
        0 <= w,
        0 <= h,
        forall|x2: int, y2: int|
            0 <= x2 < w && 0 <= y2 < h ==> #[trigger] pixel_at(d, w, x2, y2) == pixel_at(d, w, 0, 0),
    ensures
        edges_rows_to(d, w, h, args, h) == crate::luminance_printer::lum_rows_to(d, w, args, h),
{
    lemma_uniform_rows(d, w, h, args, h);
}

proof fn lemma_uniform_conv(d: Seq<u8>, w: int, h: int, x: int, y: int, horizontal: bool)
    requires
        d.len() == 4 * w * h,
        0 <= x < w,
        0 <= y < h,
        forall|x2: int, y2: int|
            0 <= x2 < w && 0 <= y2 < h ==> #[trigger] pixel_at(d, w, x2, y2) == pixel_at(d, w, 0, 0),
    ensures
        conv_at(d, w, h, x, y, horizontal) == 0,
{
    let s = rgb_sum(d, w, 0, 0);
    assert forall|k: int| 0 <= k < 9 implies #[trigger] conv_term(d, w, h, x, y, horizontal, k)
        == (if horizontal {
        gx_weight(k / 3 - 1, k % 3 - 1)
    } else {
        gy_weight(k / 3 - 1, k % 3 - 1)
    }) * s by {
        let dx = k / 3 - 1;
        let dy = k % 3 - 1;
        let sx = clamp_coord(x + dx, w);
        let sy = clamp_coord(y + dy, h);
        assert(0 <= sx < w);
        assert(0 <= sy < h);
        assert(pixel_at(d, w, sx, sy) == pixel_at(d, w, 0, 0));
    }
    assert(conv_at(d, w, h, x, y, horizontal) == (gx_weight(-1, -1) + gx_weight(-1, 0) + gx_weight(
        -1,
        1,
    ) + gx_weight(0, -1) + gx_weight(0, 0) + gx_weight(0, 1) + gx_weight(1, -1) + gx_weight(1, 0)
        + gx_weight(1, 1)) * s || conv_at(d, w, h, x, y, horizontal) == (gy_weight(-1, -1)
        + gy_weight(-1, 0) + gy_weight(-1, 1) + gy_weight(0, -1) + gy_weight(0, 0) + gy_weight(
        0,
        1,
    ) + gy_weight(1, -1) + gy_weight(1, 0) + gy_weight(1, 1)) * s) by {
        lemma_conv_unroll(d, w, h, x, y, horizontal, s);
    }
    assert(0 * s == 0) by (nonlinear_arith);
}

proof fn lemma_conv_unroll(d: Seq<u8>, w: int, h: int, x: int, y: int, horizontal: bool, s: int)
    requires
        forall|k: int|
            0 <= k < 9 ==> #[trigger] conv_term(d, w, h, x, y, horizontal, k) == (if horizontal {
                gx_weight(k / 3 - 1, k % 3 - 1)
            } else {
                gy_weight(k / 3 - 1, k % 3 - 1)
            }) * s,
    ensures
        horizontal ==> conv_at(d, w, h, x, y, horizontal) == (gx_weight(-1, -1) + gx_weight(-1, 0)
            + gx_weight(-1, 1) + gx_weight(0, -1) + gx_weight(0, 0) + gx_weight(0, 1) + gx_weight(
            1,
            -1,
        ) + gx_weight(1, 0) + gx_weight(1, 1)) * s,
        !horizontal ==> conv_at(d, w, h, x, y, horizontal) == (gy_weight(-1, -1) + gy_weight(-1, 0)
            + gy_weight(-1, 1) + gy_weight(0, -1) + gy_weight(0, 0) + gy_weight(0, 1) + gy_weight(
            1,
            -1,
        ) + gy_weight(1, 0) + gy_weight(1, 1)) * s,
{
    assert(conv_partial(d, w, h, x, y, horizontal, 0) == 0);
    assert(conv_partial(d, w, h, x, y, horizontal, 1) == conv_partial(d, w, h, x, y,
        horizontal, 0) + conv_term(d, w, h, x, y, horizontal, 0));
    assert(conv_partial(d, w, h, x, y, horizontal, 2) == conv_partial(d, w, h, x, y,
        horizontal, 1) + conv_term(d, w, h, x, y, horizontal, 1));
    assert(conv_partial(d, w, h, x, y, horizontal, 3) == conv_partial(d, w, h, x, y,
        horizontal, 2) + conv_term(d, w, h, x, y, horizontal, 2));
    assert(conv_partial(d, w, h, x, y, horizontal, 4) == conv_partial(d, w, h, x, y,
        horizontal, 3) + conv_term(d, w, h, x, y, horizontal, 3));
    assert(conv_partial(d, w, h, x, y, horizontal, 5) == conv_partial(d, w, h, x, y,
        horizontal, 4) + conv_term(d, w, h, x, y, horizontal, 4));
    assert(conv_partial(d, w, h, x, y, horizontal, 6) == conv_partial(d, w, h, x, y,
        horizontal, 5) + conv_term(d, w, h, x, y, horizontal, 5));
    assert(conv_partial(d, w, h, x, y, horizontal, 7) == conv_partial(d, w, h, x, y,
        horizontal, 6) + conv_term(d, w, h, x, y, horizontal, 6));
    assert(conv_partial(d, w, h, x, y, horizontal, 8) == conv_partial(d, w, h, x, y,
        horizontal, 7) + conv_term(d, w, h, x, y, horizontal, 7));
    assert(conv_partial(d, w, h, x, y, horizontal, 9) == conv_partial(d, w, h, x, y,
        horizontal, 8) + conv_term(d, w, h, x, y, horizontal, 8));
    if horizontal {
        assert((gx_weight(-1, -1) + gx_weight(-1, 0) + gx_weight(-1, 1) + gx_weight(0, -1)
            + gx_weight(0, 0) + gx_weight(0, 1) + gx_weight(1, -1) + gx_weight(1, 0) + gx_weight(
            1,
            1,
        )) * s == gx_weight(-1, -1) * s + gx_weight(-1, 0) * s + gx_weight(-1, 1) * s + gx_weight(
            0,
            -1,
        ) * s + gx_weight(0, 0) * s + gx_weight(0, 1) * s + gx_weight(1, -1) * s + gx_weight(1, 0)
            * s + gx_weight(1, 1) * s) by (nonlinear_arith);
    } else {
        assert((gy_weight(-1, -1) + gy_weight(-1, 0) + gy_weight(-1, 1) + gy_weight(0, -1)
            + gy_weight(0, 0) + gy_weight(0, 1) + gy_weight(1, -1) + gy_weight(1, 0) + gy_weight(
            1,
            1,
        )) * s == gy_weight(-1, -1) * s + gy_weight(-1, 0) * s + gy_weight(-1, 1) * s + gy_weight(
            0,
            -1,
        ) * s + gy_weight(0, 0) * s + gy_weight(0, 1) * s + gy_weight(1, -1) * s + gy_weight(1, 0)
            * s + gy_weight(1, 1) * s) by (nonlinear_arith);
    }
}

} // verus!
