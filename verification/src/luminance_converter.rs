use vstd::prelude::*;

use crate::chars_to_string;
use crate::img::{luma_seq, resize, resized, to_luma, Image};
use crate::palette::{char_from_luminance, spec_char_from_luminance};

verus! {

// A luminance byte `px` stands for the real `px / 255`, which is
// `px * 255000` over the fixed luminance denominator `LUM_ONE`, so the
// glyph lookup of the luminance encoder (contrast stretch and dense
// lower-bound search) applies unchanged.

/// The dense-palette glyph for a raw luminance byte: the contrast
/// stretch is applied, then the entry with the smallest brightness at
/// least the stretched value is chosen (the brightest entry when none
/// reaches it).
pub open spec fn conv_char(px: u8) -> char {
    spec_char_from_luminance(px * 255000, true)
}

/// The glyphs for the first `n` samples of a grayscale grid, row-major,
/// without line breaks.
pub open spec fn conv_chars_to(g: Seq<u8>, n: int) -> Seq<char>
    decreases n,
{
    if n <= 0 {
        Seq::empty()
    } else {
        conv_chars_to(g, n - 1) + seq![conv_char(g[n - 1])]
    }
}

/// The height that keeps the image shape at the requested width, under
/// the font aspect ratio `aspect_num / aspect_den`; the exact floor,
/// which a very wide image can bring to zero.
pub open spec fn spec_fit_height(
    img_w: int,
    img_h: int,
    width: int,
    aspect_num: int,
    aspect_den: int,
) -> int {
    img_h * width * aspect_den / (img_w * aspect_num)
}

/// Converts an image to one flat string of dense-palette glyphs, one
/// glyph per cell and no line breaks, using nearest-neighbour sampling.
/// The cell height follows from the image shape and the aspect ratio; a
/// derived height of zero yields the empty string. Returns the string
/// with the grid dimensions; `None` only when the derived grid is too
/// large to lay out.
pub fn convert_luminance(image: &Image, width: u32, aspect_num: u32, aspect_den: u32) -> (r: Option<
    (String, u32, u32),
>)
    requires
        image.wf(),
        1 <= image.width,
        1 <= image.height,
        1 <= width <= 0xFFFF,
        1 <= aspect_num <= 10000,
        1 <= aspect_den <= 10000,
    ensures
        ({
            let fh = spec_fit_height(
                image.width as int,
                image.height as int,
                width as int,
                aspect_num as int,
                aspect_den as int,
            );
            match r {
                Some((s, w, h)) => {
                    &&& fh <= 0xFFFF
                    &&& (width as int) * fh <= 0x3FFFFF
                    &&& w == width
                    &&& h as int == fh
                    &&& s@ == conv_chars_to(
                        luma_seq(
                            resized(
                                image.data@,
                                image.width as int,
                                image.height as int,
                                width as int,
                                fh,
                                false,
                            ),
                        ),
                        (width as int) * fh,
                    )
                },
                None => !(fh <= 0xFFFF && (width as int) * fh <= 0x3FFFFF),
            }
        }),
{
    proof {
        assert((image.height as int) * (width as int) * (aspect_den as int) <= 0xFFFFFFFFu64
            * 0xFFFF * 10000 && 0 <= (image.height as int) * (width as int) && (image.height
            as int) * (width as int) <= 0xFFFFFFFFu64 * 0xFFFF && 1 <= (image.width as int) * (
        aspect_num as int) <= 0xFFFFFFFFu64 * 10000) by (nonlinear_arith)
            requires
                1 <= image.height as int <= 0xFFFFFFFFu64,
                1 <= image.width as int <= 0xFFFFFFFFu64,
                1 <= width as int <= 0xFFFF,
                1 <= aspect_num as int <= 10000,
                1 <= aspect_den as int <= 10000,
        ;
    }
    let num: u64 = (image.height as u64) * (width as u64) * (aspect_den as u64);
    let den: u64 = (image.width as u64) * (aspect_num as u64);
    let fh: u64 = num / den;
    if fh > 0xFFFF {
        return None;
    }
    proof {
        assert((width as int) * (fh as int) <= 0xFFFF * 0xFFFF && 0 <= (width as int) * (fh as int))
            by (nonlinear_arith)
            requires
                1 <= width as int <= 0xFFFF,
                0 <= fh as int <= 0xFFFF,
        ;
    }
    let cells: u64 = (width as u64) * fh;
    if cells > 0x3FFFFF {
        return None;
    }
    let ghost fhi = fh as int;
    if fh == 0 {
        // The derived grid is empty: the rendering is the empty string.
        let out: Vec<char> = Vec::new();
        return Some((chars_to_string(&out), width, 0));
    }
    let height: u32 = fh as u32;
    let scaled = resize(image, width, height, false);
    let gray = to_luma(&scaled);
    let ghost g = gray.data@;
    proof {
        assert(g.len() == (width as int) * (height as int));
    }
    let n: usize = cells as usize;
    let mut out: Vec<char> = Vec::new();
    let mut i: usize = 0;
    while i < n
        invariant
            gray.wf(),
            g == gray.data@,
            g.len() == n as int,
            i <= n,
            out@ == conv_chars_to(g, i as int),
        decreases n - i,
    {
        let px = gray.data[i];
        let c = char_from_luminance(255000 * (px as u32), true);
        out.push(c);
        proof {
            assert(out@ =~= conv_chars_to(g, i as int + 1));
        }
        i = i + 1;
    }
    Some((chars_to_string(&out), width, height))
}

} // verus!
