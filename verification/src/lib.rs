pub mod animator;
pub mod braille_printer;
pub mod colors;
pub mod config;
pub mod edges_printer;
pub mod img;
pub mod luminance_converter;
pub mod luminance_printer;
pub mod palette;
pub mod pixels_printer;
pub mod shape_printer;

use vstd::prelude::*;

use crate::config::{Args, Mode};
use crate::img::Image;
use crate::shape_printer::Atlas;

verus! {

/// One RGBA pixel, eight bits per channel.
#[derive(Clone, Copy, PartialEq, Eq, Structural, Debug)]
pub struct Rgba {
    pub r: u8,
    pub g: u8,
    pub b: u8,
    pub a: u8,
}

/// Relies on Iterator::collect for String: the collected string holds
/// exactly the characters of the vector, in order.
#[verifier::external_body]
pub(crate) fn chars_to_string(v: &Vec<char>) -> (s: String)
    ensures
        s@ == v@,
{
    v.iter().collect()
}

/// The rendering entry point: turns one image into its terminal text
/// under the configured mode. The atlas and the candidate set serve the
/// shape mode only; every mode produces exactly the output its own
/// renderer specifies.
pub fn render(args: &Args, image: &Image, atlas: &Atlas, palette: &Vec<u8>) -> (out: String)
    requires
        args.wf(),
        image.wf(),
        1 <= image.width,
        1 <= image.height,
        atlas.wf(),
        (args.width as int) * (args.height as int) <= 0x3FFFF,
        forall|i: int|
            0 <= i < palette@.len() ==> 32 <= #[trigger] palette@[i] && (palette@[i] as int) < 32
                + atlas.count,
    ensures
        ({
            let d = image.data@;
            let w = image.width as int;
            let h = image.height as int;
            match args.mode {
                Mode::Luminance => out@ == crate::luminance_printer::spec_print_luminance(
                    d,
                    w,
                    h,
                    *args,
                ),
                Mode::Pixels => out@ == crate::pixels_printer::spec_print_pixels(d, w, h, *args),
                Mode::DoublePixels => out@ == crate::pixels_printer::spec_print_double_pixels(
                    d,
                    w,
                    h,
                    *args,
                ),
                Mode::Braille => out@ == crate::braille_printer::spec_print_braille(d, w, h, *args),
                Mode::Edges => out@ == crate::edges_printer::spec_print_edges(d, w, h, *args),
                Mode::Shapes => out@ == crate::shape_printer::spec_print_shapes(
                    d,
                    w,
                    h,
                    *args,
                    *atlas,
                    palette@,
                ),
            }
        }),
{
    match args.mode {
        Mode::Luminance => crate::luminance_printer::print_luminance(args, image),
        Mode::Pixels => crate::pixels_printer::print_pixels(args, image),
        Mode::DoublePixels => crate::pixels_printer::print_double_pixels(args, image),
        Mode::Braille => crate::braille_printer::print_braille(args, image),
        Mode::Edges => crate::edges_printer::print_edges(args, image),
        Mode::Shapes => crate::shape_printer::print_shapes(args, image, atlas, palette),
    }
}

} // verus!
