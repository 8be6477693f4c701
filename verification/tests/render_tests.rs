use termpix::Rgba;
use termpix::colors::color_to_code;
use termpix::braille_printer::print_braille;
use termpix::config::{Args, Mode};
use termpix::edges_printer::{convolve, print_edges};
use termpix::img::Image;
use termpix::luminance_converter::convert_luminance;
use termpix::luminance_printer::print_luminance;
use termpix::pixels_printer::{print_double_pixels, print_pixels};
use termpix::render;
use termpix::shape_printer::{full_printable_palette, print_shapes, Atlas};

fn solid_image(width: u32, height: u32, px: [u8; 4]) -> Image {
    let mut data: Vec<u8> = Vec::new();
    for _ in 0..(width * height) {
        data.extend_from_slice(&px);
    }
    Image::from_raw(width, height, data).unwrap()
}

fn plain_args(mode: Mode, width: u32, height: u32) -> Args {
    Args {
        mode,
        width,
        height,
        colors: false,
        truecolor: false,
        background: false,
        invert: false,
        quality: false,
        filter: false,
    }
}

/// A tiny atlas of two 2x2 glyphs: space (all dark) and '!' (all lit).
fn tiny_atlas() -> Atlas {
    // Strip layout: row-major over the whole strip, two glyphs side by
    // side, so each row holds glyph 0's row then glyph 1's row.
    let data = vec![
        0, 0, 255, 255, //
        0, 0, 255, 255,
    ];
    Atlas::new(2, 2, 2, data).unwrap()
}

const RESET: &str = "\u{1b}[0m";

#[test]
fn pixels_render_single_red_cell_with_indexed_color() {
    let mut args = plain_args(Mode::Pixels, 1, 1);
    args.colors = true;
    let img = solid_image(1, 1, [255, 0, 0, 255]);
    let out = print_pixels(&args, &img);
    assert_eq!(out, format!("\u{1b}[38;5;196m\u{2588}{RESET}\n"));
}

#[test]
fn pixels_render_truecolor_escape() {
    let mut args = plain_args(Mode::Pixels, 1, 1);
    args.colors = true;
    args.truecolor = true;
    let img = solid_image(1, 1, [1, 22, 133, 255]);
    let out = print_pixels(&args, &img);
    assert_eq!(out, format!("\u{1b}[38;2;1;22;133m\u{2588}{RESET}\n"));
}

#[test]
fn double_pixels_render_stacks_two_subpixels() {
    let mut args = plain_args(Mode::DoublePixels, 1, 1);
    args.colors = true;
    // Top half white, bottom half black.
    let mut data: Vec<u8> = Vec::new();
    data.extend_from_slice(&[255, 255, 255, 255]);
    data.extend_from_slice(&[0, 0, 0, 255]);
    let img = Image::from_raw(1, 2, data).unwrap();
    let out = print_double_pixels(&args, &img);
    let fg = color_to_code(Rgba { r: 0, g: 0, b: 0, a: 255 });
    let bg = color_to_code(Rgba { r: 255, g: 255, b: 255, a: 255 });
    assert_eq!(
        out,
        format!("\u{1b}[38;5;{fg}m\u{1b}[48;5;{bg}m\u{2584}{RESET}\n")
    );
}

#[test]
fn braille_full_block_packs_mask_ff() {
    let args = plain_args(Mode::Braille, 1, 1);
    let img = solid_image(1, 1, [255, 255, 255, 255]);
    let out = print_braille(&args, &img);
    assert_eq!(out, format!("\u{28ff}{RESET}\n"));
}

#[test]
fn braille_empty_block_packs_mask_zero() {
    let args = plain_args(Mode::Braille, 1, 1);
    let img = solid_image(1, 1, [0, 0, 0, 255]);
    let out = print_braille(&args, &img);
    assert_eq!(out, format!("\u{2800}{RESET}\n"));
}

#[test]
fn braille_inverted_block_flips_all_dots() {
    let mut args = plain_args(Mode::Braille, 1, 1);
    args.invert = true;
    let img = solid_image(1, 1, [255, 255, 255, 255]);
    let out = print_braille(&args, &img);
    assert_eq!(out, format!("\u{2800}{RESET}\n"));
}

#[test]
fn edges_of_uniform_image_use_only_the_luminance_glyph() {
    let args = plain_args(Mode::Edges, 4, 4);
    let img = solid_image(4, 4, [0, 0, 0, 255]);
    let out = print_edges(&args, &img);
    let mut expected = String::new();
    for _ in 0..4 {
        expected.push_str("    ");
        expected.push_str(RESET);
        expected.push('\n');
    }
    assert_eq!(out, expected);
    assert!(!out.contains('|'));
    assert!(!out.contains('/'));
    assert!(!out.contains('-'));
    assert!(!out.contains('\\'));
}

fn image_from_cells(width: u32, height: u32, cells: &[[u8; 4]]) -> Image {
    let mut data: Vec<u8> = Vec::new();
    for c in cells {
        data.extend_from_slice(c);
    }
    Image::from_raw(width, height, data).unwrap()
}

const B: [u8; 4] = [0, 0, 0, 255];
const W: [u8; 4] = [255, 255, 255, 255];

#[test]
fn edges_mark_a_vertical_boundary_with_vertical_glyphs() {
    let args = plain_args(Mode::Edges, 2, 3);
    let img = image_from_cells(2, 3, &[B, W, B, W, B, W]);
    let out = print_edges(&args, &img);
    assert_eq!(out, format!("||{RESET}\n||{RESET}\n||{RESET}\n"));
}

#[test]
fn edges_mark_a_horizontal_boundary_with_horizontal_glyphs() {
    let args = plain_args(Mode::Edges, 3, 2);
    let img = image_from_cells(3, 2, &[B, B, B, W, W, W]);
    let out = print_edges(&args, &img);
    assert_eq!(out, format!("---{RESET}\n---{RESET}\n"));
}

#[test]
fn edges_mark_diagonal_boundaries_with_diagonal_glyphs() {
    let args = plain_args(Mode::Edges, 2, 2);
    let img = image_from_cells(2, 2, &[B, B, B, W]);
    let out = print_edges(&args, &img);
    assert_eq!(out, format!("/-{RESET}\n|/{RESET}\n"));
    let img2 = image_from_cells(2, 2, &[B, B, W, B]);
    let out2 = print_edges(&args, &img2);
    assert_eq!(out2, format!("-\\{RESET}\n\\|{RESET}\n"));
}

#[test]
fn convolve_of_uniform_image_is_all_zero() {
    let img = solid_image(5, 3, [90, 14, 200, 255]);
    for &horizontal in [true, false].iter() {
        let g = convolve(&img, horizontal);
        assert_eq!(g.len(), 15);
        assert!(g.iter().all(|&v| v == 0));
    }
}

#[test]
fn convolve_detects_a_vertical_step() {
    // Left column black, right column white: a strong horizontal
    // gradient somewhere in the middle.
    let mut data: Vec<u8> = Vec::new();
    for _ in 0..3 {
        data.extend_from_slice(&[0, 0, 0, 255]);
        data.extend_from_slice(&[255, 255, 255, 255]);
    }
    let img = Image::from_raw(2, 3, data).unwrap();
    let gx = convolve(&img, true);
    assert!(gx.iter().any(|&v| v != 0));
}

#[test]
fn shapes_select_the_exactly_matching_glyph() {
    let args = plain_args(Mode::Shapes, 1, 1);
    let atlas = tiny_atlas();
    let palette = vec![32u8, 33u8];
    let white = solid_image(2, 2, [255, 255, 255, 255]);
    let out = print_shapes(&args, &white, &atlas, &palette);
    assert_eq!(out, format!("!{RESET}\n"));
    let black = solid_image(2, 2, [0, 0, 0, 255]);
    let out2 = print_shapes(&args, &black, &atlas, &palette);
    assert_eq!(out2, format!(" {RESET}\n"));
}

#[test]
fn shapes_break_ties_by_earliest_candidate() {
    // Two identical glyphs: both cost the same on any cell, so the
    // earliest candidate must win.
    let data = vec![
        0, 0, 0, 0, //
        0, 0, 0, 0,
    ];
    let atlas = Atlas::new(2, 2, 2, data).unwrap();
    let args = plain_args(Mode::Shapes, 1, 1);
    let palette = vec![33u8, 32u8];
    let img = solid_image(2, 2, [0, 0, 0, 255]);
    let out = print_shapes(&args, &img, &atlas, &palette);
    assert_eq!(out, format!("!{RESET}\n"));
}

#[test]
fn full_printable_palette_covers_ascii() {
    let p = full_printable_palette();
    assert_eq!(p.len(), 95);
    assert_eq!(p[0], 32);
    assert_eq!(p[94], 126);
}

#[test]
fn every_mode_renders_one_nonempty_line_for_degenerate_input() {
    let img = solid_image(1, 1, [200, 100, 50, 255]);
    let atlas = tiny_atlas();
    let palette = vec![32u8, 33u8];
    let modes = [
        Mode::Luminance,
        Mode::Pixels,
        Mode::DoublePixels,
        Mode::Braille,
        Mode::Edges,
        Mode::Shapes,
    ];
    for &mode in modes.iter() {
        let args = plain_args(mode, 1, 1);
        let out = render(&args, &img, &atlas, &palette);
        let lines: Vec<&str> = out.split('\n').filter(|l| !l.is_empty()).collect();
        assert_eq!(lines.len(), 1);
        assert!(!lines[0].is_empty());
    }
}

#[test]
fn black_background_escape_opens_each_row() {
    let mut args = plain_args(Mode::Luminance, 2, 1);
    args.background = true;
    let img = solid_image(2, 1, [0, 0, 0, 255]);
    let out = print_luminance(&args, &img);
    assert_eq!(out, format!("\u{1b}[48;5;0m  {RESET}\n"));
}

#[test]
fn luminance_render_uses_dense_palette_under_quality() {
    let mut args = plain_args(Mode::Luminance, 1, 1);
    args.quality = true;
    let img = solid_image(1, 1, [255, 255, 255, 255]);
    let out = print_luminance(&args, &img);
    assert_eq!(out, format!("@{RESET}\n"));
}

#[test]
fn luminance_render_inverts_brightness() {
    let mut args = plain_args(Mode::Luminance, 1, 1);
    args.invert = true;
    let img = solid_image(1, 1, [255, 255, 255, 255]);
    let out = print_luminance(&args, &img);
    // Inverted white is darkest: the first sparse glyph, a space.
    assert_eq!(out, format!(" {RESET}\n"));
}

#[test]
fn convert_luminance_returns_flat_glyph_string() {
    let img = solid_image(1, 1, [0, 0, 0, 255]);
    let r = convert_luminance(&img, 1, 1, 1).unwrap();
    assert_eq!(r, (String::from(" "), 1, 1));
    let white = solid_image(1, 1, [255, 255, 255, 255]);
    let r2 = convert_luminance(&white, 1, 1, 1).unwrap();
    assert_eq!(r2, (String::from("@"), 1, 1));
}

#[test]
fn convert_luminance_returns_empty_for_degenerate_grid() {
    // A very wide, very short image at width 1 derives height 0: the
    // rendering is the empty string, not an error.
    let img = solid_image(100, 1, [0, 0, 0, 255]);
    let r = convert_luminance(&img, 1, 2, 1).unwrap();
    assert_eq!(r, (String::new(), 1, 0));
}

#[test]
fn convert_luminance_applies_the_contrast_stretch() {
    let img = solid_image(1, 1, [128, 128, 128, 255]);
    let r = convert_luminance(&img, 1, 1, 1).unwrap();
    assert_eq!(r, (String::from("e"), 1, 1));
    let dark = solid_image(1, 1, [60, 60, 60, 255]);
    let r2 = convert_luminance(&dark, 1, 1, 1).unwrap();
    assert_eq!(r2, (String::from(","), 1, 1));
}

#[test]
fn zero_height_grid_renders_nothing() {
    let img = solid_image(4, 4, [9, 9, 9, 255]);
    let args = plain_args(Mode::Luminance, 4, 0);
    assert_eq!(print_luminance(&args, &img), "");
    let args2 = plain_args(Mode::Pixels, 4, 0);
    assert_eq!(print_pixels(&args2, &img), "");
}

#[test]
fn zero_width_grid_renders_empty_rows() {
    let img = solid_image(4, 4, [9, 9, 9, 255]);
    let args = plain_args(Mode::Luminance, 0, 2);
    assert_eq!(print_luminance(&args, &img), format!("{RESET}\n{RESET}\n"));
    let mut bg = plain_args(Mode::Edges, 0, 1);
    bg.background = true;
    assert_eq!(
        print_edges(&bg, &img),
        format!("\u{1b}[48;5;0m{RESET}\n")
    );
}

#[test]
fn atlas_rejects_wrong_strip_length() {
    assert!(Atlas::new(2, 2, 2, vec![0u8; 7]).is_none());
    assert!(Atlas::new(2, 2, 2, vec![0u8; 8]).is_some());
    assert!(Atlas::new(0, 2, 2, vec![0u8; 0]).is_none());
}
