use vstd::prelude::*;

use crate::chars_to_string;
use crate::colors::{reset_color, reset_seq, set_black_background, set_black_background_seq,
    set_color_full_brightness, set_color_full_brightness_seq};
use crate::config::Args;
use crate::img::{pixel_at, resize, resized, Image};
use crate::palette::{char_from_color, spec_char_from_color};

verus! {

/// One cell of luminance output: the cell color at full brightness, then
/// the glyph matching the cell's luminance.
pub open spec fn lum_cell(d: Seq<u8>, w: int, args: Args, x: int, y: int) -> Seq<char> {
    let px = pixel_at(d, w, x, y);
    set_color_full_brightness_seq(px, args) + seq![spec_char_from_color(px, args)]
}

/// The first `x` cells of row `y`.
pub open spec fn lum_row_to(d: Seq<u8>, w: int, args: Args, y: int, x: int) -> Seq<char>
    decreases x,
{
    if x <= 0 {
        Seq::empty()
    } else {
        lum_row_to(d, w, args, y, x - 1) + lum_cell(d, w, args, x - 1, y)
    }
}

/// The first `y` full rows: each opens with the optional black
/// background, and ends in a color reset and a newline.
pub open spec fn lum_rows_to(d: Seq<u8>, w: int, args: Args, y: int) -> Seq<char>
    decreases y,
{
    if y <= 0 {
        Seq::empty()
    } else {
        lum_rows_to(d, w, args, y - 1) + set_black_background_seq(args) + lum_row_to(
            d,
            w,
            args,
            y - 1,
            w,
        ) + reset_seq() + seq!['\n']
    }
}

/// The whole luminance rendering: the source resampled to one pixel per
/// cell, each cell the palette glyph for its luminance.
pub open spec fn spec_print_luminance(d: Seq<u8>, w: int, h: int, args: Args) -> Seq<char> {
    let sd = resized(d, w, h, args.width as int, args.height as int, args.filter);
    lum_rows_to(sd, args.width as int, args, args.height as int)
}

/// Renders every cell as the palette glyph whose brightness best matches
/// the cell's luminance.
pub fn print_luminance(args: &Args, image: &Image) -> (out: String)
    requires
        args.wf(),
        image.wf(),
        1 <= image.width,
        1 <= image.height,
        (args.width as int) * (args.height as int) <= 0x3FFFFF,
    ensures
        out@ == spec_print_luminance(image.data@, image.width as int, image.height as int, *args),
{
    if args.width == 0 || args.height == 0 {
        // An empty grid: rows (if any) hold no cells, so no pixel is ever
        // sampled and the resample is not needed.
        let ghost sd = resized(
            image.data@,
            image.width as int,
            image.height as int,
            args.width as int,
            args.height as int,
            args.filter,
        );
        let mut out: Vec<char> = Vec::new();
        let mut y: u32 = 0;
        while y < args.height
            invariant
                args.width == 0 || args.height == 0,
                y <= args.height,
                out@ == lum_rows_to(sd, args.width as int, *args, y as int),
            decreases args.height - y,
        {
            set_black_background(args, &mut out);
            reset_color(&mut out);
            out.push('\n');
            proof {
                assert(out@ =~= lum_rows_to(sd, args.width as int, *args, y as int + 1));
            }
            y = y + 1;
        }
        return chars_to_string(&out);
    }
    let scaled = resize(image, args.width, args.height, args.filter);
    let ghost sd = scaled.data@;
    let ghost w = args.width as int;
    let mut out: Vec<char> = Vec::new();
    let mut y: u32 = 0;
    while y < args.height
        invariant
            args.wf(),
            scaled.wf(),
            scaled.width == args.width,
            scaled.height == args.height,
            sd == scaled.data@,
            w == args.width as int,
            y <= args.height,
            out@ == lum_rows_to(sd, w, *args, y as int),
        decreases args.height - y,
    {
        set_black_background(args, &mut out);
        let ghost row_base = out@;
        let mut x: u32 = 0;
        while x < args.width
            invariant
                args.wf(),
                scaled.wf(),
                scaled.width == args.width,
                scaled.height == args.height,
                sd == scaled.data@,
                w == args.width as int,
                y < args.height,
                x <= args.width,
                row_base == lum_rows_to(sd, w, *args, y as int) + set_black_background_seq(*args),
                out@ == row_base + lum_row_to(sd, w, *args, y as int, x as int),
            decreases args.width - x,
        {
            let px = scaled.pixel(x, y);
            let c = char_from_color(px, args);
            set_color_full_brightness(px, args, &mut out);
            out.push(c);
            proof {
                assert(out@ =~= row_base + lum_row_to(sd, w, *args, y as int, x as int + 1));
            }
            x = x + 1;
        }
        reset_color(&mut out);
        out.push('\n');
        proof {
            assert(out@ =~= lum_rows_to(sd, w, *args, y as int + 1));
        }
        y = y + 1;
    }
    chars_to_string(&out)
}

} // verus!
