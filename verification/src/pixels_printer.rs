use vstd::prelude::*;

use crate::chars_to_string;
use crate::colors::{reset_color, reset_seq, set_color, set_color_bg, set_color_bg_seq,
    set_color_seq};
use crate::config::Args;
use crate::img::{pixel_at, resize, resized, Image};

verus! {

// ---------------------------------------------------------------------------
// Single sub-pixel mode
// ---------------------------------------------------------------------------

/// One cell of single-pixel output: the cell color, then a full block.
pub open spec fn pixels_cell(d: Seq<u8>, w: int, args: Args, x: int, y: int) -> Seq<char> {
    set_color_seq(pixel_at(d, w, x, y), args) + seq!['\u{2588}']
}

/// The first `x` cells of row `y`.
pub open spec fn pixels_row_to(d: Seq<u8>, w: int, args: Args, y: int, x: int) -> Seq<char>
    decreases x,
{
    if x <= 0 {
        Seq::empty()
    } else {
        pixels_row_to(d, w, args, y, x - 1) + pixels_cell(d, w, args, x - 1, y)
    }
}

/// The first `y` full rows, each ending in a color reset and a newline.
pub open spec fn pixels_rows_to(d: Seq<u8>, w: int, args: Args, y: int) -> Seq<char>
    decreases y,
{
    if y <= 0 {
        Seq::empty()
    } else {
        pixels_rows_to(d, w, args, y - 1) + pixels_row_to(d, w, args, y - 1, w) + reset_seq()
            + seq!['\n']
    }
}

/// The whole single-pixel rendering: the source resampled to one pixel
/// per cell, each cell a solid block in its own color.
pub open spec fn spec_print_pixels(d: Seq<u8>, w: int, h: int, args: Args) -> Seq<char> {
    let sd = resized(d, w, h, args.width as int, args.height as int, args.filter);
    pixels_rows_to(sd, args.width as int, args, args.height as int)
}

/// Renders every cell as a solid block glyph in the cell's color.
pub fn print_pixels(args: &Args, image: &Image) -> (out: String)
    requires
        args.wf(),
        image.wf(),
        1 <= image.width,
        1 <= image.height,
        (args.width as int) * (args.height as int) <= 0x3FFFFF,
    ensures
        out@ == spec_print_pixels(image.data@, image.width as int, image.height as int, *args),
{
    if args.width == 0 || args.height == 0 {
        // An empty grid: rows (if any) hold no cells, so no pixel is ever
        // sampled and the resample is not needed.
        let ghost sd = resized(
            image.data@,
            image.width as int,
            image.height as int,
            args.width as int,
            args.height as int,
            args.filter,
        );
        let mut out: Vec<char> = Vec::new();
        let mut y: u32 = 0;
        while y < args.height
            invariant
                args.width == 0 || args.height == 0,
                y <= args.height,
                out@ == pixels_rows_to(sd, args.width as int, *args, y as int),
            decreases args.height - y,
        {
            reset_color(&mut out);
            out.push('\n');
            proof {
                assert(out@ =~= pixels_rows_to(sd, args.width as int, *args, y as int + 1));
            }
            y = y + 1;
        }
        return chars_to_string(&out);
    }
    let scaled = resize(image, args.width, args.height, args.filter);
    let ghost sd = scaled.data@;
    let ghost w = args.width as int;
    let mut out: Vec<char> = Vec::new();
    let mut y: u32 = 0;
    while y < args.height
        invariant
            args.wf(),
            scaled.wf(),
            scaled.width == args.width,
            scaled.height == args.height,
            sd == scaled.data@,
            w == args.width as int,
            y <= args.height,
            out@ == pixels_rows_to(sd, w, *args, y as int),
        decreases args.height - y,
    {
        let mut x: u32 = 0;
        while x < args.width
            invariant
                args.wf(),
                scaled.wf(),
                scaled.width == args.width,
                scaled.height == args.height,
                sd == scaled.data@,
                w == args.width as int,
                y < args.height,
                x <= args.width,
                out@ == pixels_rows_to(sd, w, *args, y as int) + pixels_row_to(
                    sd,
                    w,
                    *args,
                    y as int,
                    x as int,
                ),
            decreases args.width - x,
        {
            let px = scaled.pixel(x, y);
            set_color(px, args, &mut out);
            out.push('\u{2588}');
            proof {
                assert(out@ =~= pixels_rows_to(sd, w, *args, y as int) + pixels_row_to(
                    sd,
                    w,
                    *args,
                    y as int,
                    x as int + 1,
                ));
            }
            x = x + 1;
        }
        reset_color(&mut out);
        out.push('\n');
        proof {
            assert(out@ =~= pixels_rows_to(sd, w, *args, y as int + 1));
        }
        y = y + 1;
    }
    chars_to_string(&out)
}

// ---------------------------------------------------------------------------
// Double sub-pixel mode
// ---------------------------------------------------------------------------

/// One cell of double-pixel output: two vertically stacked sub-pixels,
/// the upper as background, the lower as foreground of a lower half
/// block.
pub open spec fn double_cell(d: Seq<u8>, w: int, args: Args, x: int, y: int) -> Seq<char> {
    set_color_bg_seq(pixel_at(d, w, x, 2 * y + 1), pixel_at(d, w, x, 2 * y), args) + seq![
        '\u{2584}',
    ]
}

/// The first `x` cells of double-pixel row `y`.
pub open spec fn double_row_to(d: Seq<u8>, w: int, args: Args, y: int, x: int) -> Seq<char>
    decreases x,
{
    if x <= 0 {
        Seq::empty()
    } else {
        double_row_to(d, w, args, y, x - 1) + double_cell(d, w, args, x - 1, y)
    }
}

/// The first `y` full double-pixel rows.
pub open spec fn double_rows_to(d: Seq<u8>, w: int, args: Args, y: int) -> Seq<char>
    decreases y,
{
    if y <= 0 {
        Seq::empty()
    } else {
        double_rows_to(d, w, args, y - 1) + double_row_to(d, w, args, y - 1, w) + reset_seq()
            + seq!['\n']
    }
}

/// The whole double-pixel rendering: the source resampled to two
/// sub-pixels per cell, stacked vertically.
pub open spec fn spec_print_double_pixels(d: Seq<u8>, w: int, h: int, args: Args) -> Seq<char> {
    let sd = resized(d, w, h, args.width as int, 2 * (args.height as int), args.filter);
    double_rows_to(sd, args.width as int, args, args.height as int)
}

/// Renders every cell as a lower-half-block glyph holding two vertically
/// stacked sub-pixels: the lower as foreground, the upper as background.
pub fn print_double_pixels(args: &Args, image: &Image) -> (out: String)
    requires
        args.wf(),
        image.wf(),
        1 <= image.width,
        1 <= image.height,
        (args.width as int) * (args.height as int) <= 0x3FFFFF,
    ensures
        out@ == spec_print_double_pixels(
            image.data@,
            image.width as int,
            image.height as int,
            *args,
        ),
{
    if args.width == 0 || args.height == 0 {
        let ghost sd = resized(
            image.data@,
            image.width as int,
            image.height as int,
            args.width as int,
            2 * (args.height as int),
            args.filter,
        );
        let mut out: Vec<char> = Vec::new();
        let mut y: u32 = 0;
        while y < args.height
            invariant
                args.width == 0 || args.height == 0,
                y <= args.height,
                out@ == double_rows_to(sd, args.width as int, *args, y as int),
            decreases args.height - y,
        {
            reset_color(&mut out);
            out.push('\n');
            proof {
                assert(out@ =~= double_rows_to(sd, args.width as int, *args, y as int + 1));
            }
            y = y + 1;
        }
        return chars_to_string(&out);
    }
    proof {
        assert((args.width as int) * (2 * (args.height as int)) <= 2 * 0x3FFFFF)
            by (nonlinear_arith)
            requires
                (args.width as int) * (args.height as int) <= 0x3FFFFF,
                args.width >= 0,
                args.height >= 0,
        ;
    }
    let scaled = resize(image, args.width, 2 * args.height, args.filter);
    let ghost sd = scaled.data@;
    let ghost w = args.width as int;
    let mut out: Vec<char> = Vec::new();
    let mut y: u32 = 0;
    while y < args.height
        invariant
            args.wf(),
            scaled.wf(),
            scaled.width == args.width,
            scaled.height == 2 * args.height,
            sd == scaled.data@,
            w == args.width as int,
            y <= args.height,
            out@ == double_rows_to(sd, w, *args, y as int),
        decreases args.height - y,
    {
        let mut x: u32 = 0;
        while x < args.width
            invariant
                args.wf(),
                scaled.wf(),
                scaled.width == args.width,
                scaled.height == 2 * args.height,
                sd == scaled.data@,
                w == args.width as int,
                y < args.height,
                x <= args.width,
                out@ == double_rows_to(sd, w, *args, y as int) + double_row_to(
                    sd,
                    w,
                    *args,
                    y as int,
                    x as int,
                ),
            decreases args.width - x,
        {
            let upper = scaled.pixel(x, 2 * y);
            let lower = scaled.pixel(x, 2 * y + 1);
            set_color_bg(lower, upper, args, &mut out);
            out.push('\u{2584}');
            proof {
                assert(out@ =~= double_rows_to(sd, w, *args, y as int) + double_row_to(
                    sd,
                    w,
                    *args,
                    y as int,
                    x as int + 1,
                ));
            }
            x = x + 1;
        }
        reset_color(&mut out);
        out.push('\n');
        proof {
            assert(out@ =~= double_rows_to(sd, w, *args, y as int + 1));
        }
        y = y + 1;
    }
    chars_to_string(&out)
}

} // verus!
