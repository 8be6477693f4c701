use vstd::prelude::*;

use crate::chars_to_string;
use crate::colors::{reset_color, reset_seq, set_black_background, set_black_background_seq,
    set_color_full_brightness, set_color_full_brightness_seq};
use crate::config::Args;
use crate::img::{dither, dithered, luma_seq, pixel_at, resize, resized, to_luma, Gray, Image};

verus! {

// ---------------------------------------------------------------------------
// Dot packing
// ---------------------------------------------------------------------------

// The Braille block encodes a 2x4 dot grid in one byte. The dot at row
// `dy` (top to bottom) and column `dx` (left to right) carries the fixed
// weight below, following the Unicode Braille layout.

/// The bit weight of the dot at (dy, dx) in a 2x4 Braille block.
pub open spec fn braille_weight(dy: int, dx: int) -> int {
    if dy == 0 {
        if dx == 0 {
            1
        } else {
            8
        }
    } else if dy == 1 {
        if dx == 0 {
            2
        } else {
            16
        }
    } else if dy == 2 {
        if dx == 0 {
            4
        } else {
            32
        }
    } else {
        if dx == 0 {
            64
        } else {
            128
        }
    }
}

/// Whether the dot at (dy, dx) of cell (x, y) is set: the dithered sample
/// is above 128, flipped bit-for-bit under invert.
pub open spec fn braille_bit(
    g: Seq<u8>,
    gw: int,
    x: int,
    y: int,
    dy: int,
    dx: int,
    invert: bool,
) -> int {
    let lit = g[(4 * y + dy) * gw + (2 * x + dx)] > 128;
    if lit != invert {
        1
    } else {
        0
    }
}

/// The 8-bit Braille mask of cell (x, y) over the fine (2-wide, 4-tall
/// per cell) dithered grid of row length `gw`.
pub open spec fn braille_mask(g: Seq<u8>, gw: int, x: int, y: int, invert: bool) -> int {
    1 * braille_bit(g, gw, x, y, 0, 0, invert) + 8 * braille_bit(g, gw, x, y, 0, 1, invert) + 2
        * braille_bit(g, gw, x, y, 1, 0, invert) + 16 * braille_bit(g, gw, x, y, 1, 1, invert) + 4
        * braille_bit(g, gw, x, y, 2, 0, invert) + 32 * braille_bit(g, gw, x, y, 2, 1, invert) + 64
        * braille_bit(g, gw, x, y, 3, 0, invert) + 128 * braille_bit(g, gw, x, y, 3, 1, invert)
}

/// The Braille glyph with the given dot mask: codepoint 0x2800 + mask.
pub open spec fn braille_char_of(mask: int) -> char {
    (0x2800 + mask) as char
}

fn bit_of(v: u8, invert: bool) -> (b: u8)
    ensures
        (b == 1) == ((v > 128) != invert),
        b == 0 || b == 1,
{
    let lit: u8 = if v > 128 {
        1
    } else {
        0
    };
    if invert {
        1 - lit
    } else {
        lit
    }
}

/// Packs one 2x4 block of the dithered grid into a Braille dot mask.
pub fn braille_mask_cell(gray: &Gray, x: u32, y: u32, invert: bool) -> (mask: u8)
    requires
        gray.wf(),
        2 * (x as int) + 1 < gray.width,
        4 * (y as int) + 3 < gray.height,
    ensures
        mask as int == braille_mask(gray.data@, gray.width as int, x as int, y as int, invert),
{
    let b00 = bit_of(gray.sample(2 * x, 4 * y), invert);
    let b01 = bit_of(gray.sample(2 * x + 1, 4 * y), invert);
    let b10 = bit_of(gray.sample(2 * x, 4 * y + 1), invert);
    let b11 = bit_of(gray.sample(2 * x + 1, 4 * y + 1), invert);
    let b20 = bit_of(gray.sample(2 * x, 4 * y + 2), invert);
    let b21 = bit_of(gray.sample(2 * x + 1, 4 * y + 2), invert);
    let b30 = bit_of(gray.sample(2 * x, 4 * y + 3), invert);
    let b31 = bit_of(gray.sample(2 * x + 1, 4 * y + 3), invert);
    1 * b00 + 8 * b01 + 2 * b10 + 16 * b11 + 4 * b20 + 32 * b21 + 64 * b30 + 128 * b31
}

/// Relies on char::from_u32: every codepoint 0x2800 + mask with mask
/// below 256 is a valid Unicode scalar value (the Braille patterns
/// block), so the conversion returns exactly that character.
#[verifier::external_body]
fn braille_glyph(mask: u8) -> (c: char)
    ensures
        c == braille_char_of(mask as int),
{
    match char::from_u32(0x2800 + mask as u32) {
        Some(c) => c,
        None => ' ',
    }
}

// ---------------------------------------------------------------------------
// Rendering
// ---------------------------------------------------------------------------

/// One cell of Braille output: the cell color at full brightness, then
/// the Braille glyph packing the cell's 2x4 dithered dots.
pub open spec fn braille_cell(
    cd: Seq<u8>,
    gd: Seq<u8>,
    w: int,
    args: Args,
    x: int,
    y: int,
) -> Seq<char> {
    set_color_full_brightness_seq(pixel_at(cd, w, x, y), args) + seq![
        braille_char_of(braille_mask(gd, 2 * w, x, y, args.invert)),
    ]
}

/// The first `x` cells of row `y`.
pub open spec fn braille_row_to(
    cd: Seq<u8>,
    gd: Seq<u8>,
    w: int,
    args: Args,
    y: int,
    x: int,
) -> Seq<char>
    decreases x,
{
    if x <= 0 {
        Seq::empty()
    } else {
        braille_row_to(cd, gd, w, args, y, x - 1) + braille_cell(cd, gd, w, args, x - 1, y)
    }
}

/// The first `y` full rows.
pub open spec fn braille_rows_to(cd: Seq<u8>, gd: Seq<u8>, w: int, args: Args, y: int) -> Seq<char>
    decreases y,
{
    if y <= 0 {
        Seq::empty()
    } else {
        braille_rows_to(cd, gd, w, args, y - 1) + set_black_background_seq(args) + braille_row_to(
            cd,
            gd,
            w,
            args,
            y - 1,
            w,
        ) + reset_seq() + seq!['\n']
    }
}

/// The whole Braille rendering: colors from a one-pixel-per-cell
/// resample, shapes from a 2x4-per-cell resample turned grayscale and
/// dithered to two levels.
pub open spec fn spec_print_braille(d: Seq<u8>, w: int, h: int, args: Args) -> Seq<char> {
    let cd = resized(d, w, h, args.width as int, args.height as int, args.filter);
    let fine = resized(d, w, h, 2 * (args.width as int), 4 * (args.height as int), args.filter);
    let gd = dithered(luma_seq(fine), 2 * (args.width as int), 4 * (args.height as int));
    braille_rows_to(cd, gd, args.width as int, args, args.height as int)
}

/// Renders every cell as a Braille glyph whose eight dots follow the
/// dithered fine grid, colored from the coarse grid.
pub fn print_braille(args: &Args, image: &Image) -> (out: String)
    requires
        args.wf(),
        image.wf(),
        1 <= image.width,
        1 <= image.height,
        (args.width as int) * (args.height as int) <= 0x3FFFFF,
    ensures
        out@ == spec_print_braille(image.data@, image.width as int, image.height as int, *args),
{
    if args.width == 0 || args.height == 0 {
        // An empty grid: rows (if any) hold no cells, so neither resample
        // nor the dithering is needed.
        let ghost cd = resized(
            image.data@,
            image.width as int,
            image.height as int,
            args.width as int,
            args.height as int,
            args.filter,
        );
        let ghost fine = resized(
            image.data@,
            image.width as int,
            image.height as int,
            2 * (args.width as int),
            4 * (args.height as int),
            args.filter,
        );
        let ghost gd = dithered(luma_seq(fine), 2 * (args.width as int), 4 * (args.height as int));
        let mut out: Vec<char> = Vec::new();
        let mut y: u32 = 0;
        while y < args.height
            invariant
                args.width == 0 || args.height == 0,
                y <= args.height,
                out@ == braille_rows_to(cd, gd, args.width as int, *args, y as int),
            decreases args.height - y,
        {
            set_black_background(args, &mut out);
            reset_color(&mut out);
            out.push('\n');
            proof {
                assert(out@ =~= braille_rows_to(cd, gd, args.width as int, *args, y as int + 1));
            }
            y = y + 1;
        }
        return chars_to_string(&out);
    }
    proof {
        assert((2 * (args.width as int)) * (4 * (args.height as int)) <= 8 * 0x3FFFFF)
            by (nonlinear_arith)
            requires
                (args.width as int) * (args.height as int) <= 0x3FFFFF,
                args.width >= 0,
                args.height >= 0,
        ;
        assert((2 * (args.width as int)) * (4 * (args.height as int)) >= 0) by (nonlinear_arith)
            requires
                args.width >= 0,
                args.height >= 0,
        ;
    }
    let colors = resize(image, args.width, args.height, args.filter);
    let fine = resize(image, 2 * args.width, 4 * args.height, args.filter);
    let gray = to_luma(&fine);
    proof {
        assert((2 * (args.width as int)) * (4 * (args.height as int)) == gray.data@.len());
    }
    let dith = dither(gray);
    let ghost cd = colors.data@;
    let ghost gd = dith.data@;
    let ghost w = args.width as int;
    let mut out: Vec<char> = Vec::new();
    let mut y: u32 = 0;
    while y < args.height
        invariant
            args.wf(),
            colors.wf(),
            colors.width == args.width,
            colors.height == args.height,
            dith.wf(),
            dith.width == 2 * args.width,
            dith.height == 4 * args.height,
            cd == colors.data@,
            gd == dith.data@,
            w == args.width as int,
            y <= args.height,
            out@ == braille_rows_to(cd, gd, w, *args, y as int),
        decreases args.height - y,
    {
        set_black_background(args, &mut out);
        let ghost row_base = out@;
        let mut x: u32 = 0;
        while x < args.width
            invariant
                args.wf(),
                colors.wf(),
                colors.width == args.width,
                colors.height == args.height,
                dith.wf(),
                dith.width == 2 * args.width,
                dith.height == 4 * args.height,
                cd == colors.data@,
                gd == dith.data@,
                w == args.width as int,
                y < args.height,
                x <= args.width,
                row_base == braille_rows_to(cd, gd, w, *args, y as int)
                    + set_black_background_seq(*args),
                out@ == row_base + braille_row_to(cd, gd, w, *args, y as int, x as int),
            decreases args.width - x,
        {
            let mask = braille_mask_cell(&dith, x, y, args.invert);
            let px = colors.pixel(x, y);
            set_color_full_brightness(px, args, &mut out);
            let c = braille_glyph(mask);
            out.push(c);
            proof {
                assert(out@ =~= row_base + braille_row_to(cd, gd, w, *args, y as int, x as int + 1));
            }
            x = x + 1;
        }
        reset_color(&mut out);
        out.push('\n');
        proof {
            assert(out@ =~= braille_rows_to(cd, gd, w, *args, y as int + 1));
        }
        y = y + 1;
    }
    chars_to_string(&out)
}

// ---------------------------------------------------------------------------
// Laws
// ---------------------------------------------------------------------------

/// A 2x4 sub-block entirely above the dither threshold packs, with
/// invert off, to the full mask 0xFF: its glyph is codepoint
/// 0x2800 + 0xFF.
pub proof fn lemma_full_block_mask(g: Seq<u8>, gw: int, x: int, y: int)
    requires
        forall|dy: int, dx: int|
            0 <= dy < 4 && 0 <= dx < 2 ==> #[trigger] g[(4 * y + dy) * gw + (2 * x + dx)] > 128,
    ensures
        braille_mask(g, gw, x, y, false) == 0xFF,
        braille_char_of(braille_mask(g, gw, x, y, false)) == (0x28FF as char),
{
    assert(g[(4 * y + 0) * gw + (2 * x + 0)] > 128);
    assert(g[(4 * y + 0) * gw + (2 * x + 1)] > 128);
    assert(g[(4 * y + 1) * gw + (2 * x + 0)] > 128);
    assert(g[(4 * y + 1) * gw + (2 * x + 1)] > 128);
    assert(g[(4 * y + 2) * gw + (2 * x + 0)] > 128);
    assert(g[(4 * y + 2) * gw + (2 * x + 1)] > 128);
    assert(g[(4 * y + 3) * gw + (2 * x + 0)] > 128);
    assert(g[(4 * y + 3) * gw + (2 * x + 1)] > 128);
}

} // verus!
