use termpix::Rgba;
use termpix::animator::{composite, Animator, GifFrame, ImageFile};
use termpix::colors::{color_to_code, normalize_brightness};
use termpix::config::{fit_dimensions, parse_mode, Args, Mode};
use termpix::img::{dither, resize, to_luma, Gray, Image};
use termpix::palette::{char_from_luminance, luminance, LUM_ONE};

fn solid_image(width: u32, height: u32, px: [u8; 4]) -> Image {
    let mut data: Vec<u8> = Vec::new();
    for _ in 0..(width * height) {
        data.extend_from_slice(&px);
    }
    Image::from_raw(width, height, data).unwrap()
}

#[test]
fn indexed_code_of_pure_red_is_196() {
    let code = color_to_code(Rgba { r: 255, g: 0, b: 0, a: 255 });
    assert_eq!(code, 196);
}

#[test]
fn indexed_code_of_transparent_color_is_16() {
    let code = color_to_code(Rgba { r: 10, g: 200, b: 77, a: 0 });
    assert_eq!(code, 16);
    let code2 = color_to_code(Rgba { r: 255, g: 255, b: 255, a: 0 });
    assert_eq!(code2, 16);
}

#[test]
fn normalize_brightness_scales_max_channel_to_255() {
    let r = normalize_brightness(Rgba { r: 100, g: 50, b: 25, a: 255 });
    assert_eq!(r, Rgba { r: 255, g: 127, b: 63, a: 255 });
}

#[test]
fn normalize_brightness_keeps_black_unchanged() {
    let black = Rgba { r: 0, g: 0, b: 0, a: 128 };
    assert_eq!(normalize_brightness(black), black);
}

const SPARSE_CHARS: &str = " .-':,^=+T|IoxOXH80";
const SPARSE_B: [u64; 19] = [
    0, 1170, 1197, 1731, 1980, 2611, 3080, 3411, 4119, 5287, 5750, 6058, 6463, 6612, 8427, 9123,
    9258, 9357, 9999,
];

fn reference_sparse_char(lum: u64) -> char {
    let scaled = 11 * lum;
    let n = if scaled >= 65025000 { scaled - 65025000 } else { 0 };
    let mut idx = SPARSE_B.len() - 1;
    for (i, b) in SPARSE_B.iter().enumerate() {
        if b * 65025 >= n {
            idx = i;
            break;
        }
    }
    SPARSE_CHARS.chars().nth(idx).unwrap()
}

#[test]
fn luminance_glyph_is_smallest_entry_at_least_stretched_value() {
    let samples: [u32; 9] = [
        0,
        1,
        5911363,  // stretched exactly to 0
        10000000,
        LUM_ONE / 4,
        LUM_ONE / 2,
        LUM_ONE - 1,
        LUM_ONE,
        40000000,
    ];
    for &l in samples.iter() {
        let c = char_from_luminance(l, false);
        assert_eq!(c, reference_sparse_char(l as u64));
    }
}

#[test]
fn luminance_glyph_index_is_monotone() {
    let chars: Vec<char> = SPARSE_CHARS.chars().collect();
    let mut prev_index = 0usize;
    let mut l: u32 = 0;
    while l <= LUM_ONE {
        let c = char_from_luminance(l, false);
        let idx = chars.iter().position(|&x| x == c).unwrap();
        assert!(idx >= prev_index);
        prev_index = idx;
        l = l.saturating_add(LUM_ONE / 97);
        if l == u32::MAX {
            break;
        }
    }
}

#[test]
fn equal_brightness_entries_resolve_to_the_earlier_glyph() {
    // The dense palette holds two adjacent entries of equal brightness
    // ('6' and 'h'); a luminance landing on them must pick the earlier.
    let c = char_from_luminance(39026822, true);
    assert_eq!(c, '6');
}

#[test]
fn luminance_of_white_is_full_scale() {
    assert_eq!(luminance(Rgba { r: 255, g: 255, b: 255, a: 255 }), LUM_ONE);
}

#[test]
fn luminance_weights_channels_and_alpha() {
    assert_eq!(luminance(Rgba { r: 100, g: 50, b: 25, a: 255 }), 15835500);
    assert_eq!(luminance(Rgba { r: 100, g: 50, b: 25, a: 0 }), 0);
}

#[test]
fn parse_mode_accepts_names_and_prefixes() {
    let to_chars = |s: &str| -> Vec<char> { s.chars().collect() };
    assert_eq!(parse_mode(&to_chars("luminance")), Some(Mode::Luminance));
    assert_eq!(parse_mode(&to_chars("l")), Some(Mode::Luminance));
    assert_eq!(parse_mode(&to_chars("pixels")), Some(Mode::Pixels));
    assert_eq!(parse_mode(&to_chars("p")), Some(Mode::Pixels));
    assert_eq!(parse_mode(&to_chars("double-pixels")), Some(Mode::DoublePixels));
    assert_eq!(parse_mode(&to_chars("d")), Some(Mode::DoublePixels));
    assert_eq!(parse_mode(&to_chars("braille")), Some(Mode::Braille));
    assert_eq!(parse_mode(&to_chars("edges")), Some(Mode::Edges));
    assert_eq!(parse_mode(&to_chars("shapes")), Some(Mode::Shapes));
    assert_eq!(parse_mode(&to_chars("sh")), Some(Mode::Shapes));
}

#[test]
fn parse_mode_rejects_unknown_strings() {
    let to_chars = |s: &str| -> Vec<char> { s.chars().collect() };
    assert_eq!(parse_mode(&to_chars("xyz")), None);
    assert_eq!(parse_mode(&to_chars("luminancex")), None);
    assert_eq!(parse_mode(&to_chars("pixelss")), None);
}

#[test]
fn fit_dimensions_with_fixed_width() {
    let r = fit_dimensions(100, 50, 10, 2, 1, None);
    assert_eq!(r, (10, 2));
}

#[test]
fn fit_dimensions_reports_a_degenerate_height_exactly() {
    // A very wide image at a small width derives height 0: the exact
    // floor is reported, not a substitute.
    let r = fit_dimensions(1000, 1, 10, 2, 1, None);
    assert_eq!(r, (10, 0));
}

#[test]
fn fit_dimensions_autofits_to_default_terminal() {
    let r = fit_dimensions(100, 50, 0, 2, 1, None);
    assert_eq!(r, (100, 25));
}

#[test]
fn fit_dimensions_autofits_to_narrow_terminal_by_height() {
    // A tall image in a wide terminal: the height wins, minus the two
    // prompt rows.
    let r = fit_dimensions(10, 100, 0, 2, 1, Some((200, 20)));
    assert_eq!(r.1, 18);
    assert_eq!(r.0, (10 * 18 * 2) / 100);
}

#[test]
fn normalize_builds_configuration_and_forces_colors_for_pixel_modes() {
    let to_chars = |s: &str| -> Vec<char> { s.chars().collect() };
    let args = Args::normalize(
        &to_chars("p"),
        10,
        2,
        1,
        false,
        false,
        false,
        false,
        false,
        false,
        100,
        50,
        None,
    )
    .unwrap();
    assert_eq!(args.mode, Mode::Pixels);
    assert!(args.colors);
    assert_eq!((args.width, args.height), (10, 2));
    let none = Args::normalize(
        &to_chars("nope"),
        10,
        2,
        1,
        false,
        false,
        false,
        false,
        false,
        false,
        100,
        50,
        None,
    );
    assert!(none.is_none());
}

#[test]
fn image_from_raw_rejects_wrong_byte_count() {
    assert!(Image::from_raw(2, 2, vec![0u8; 15]).is_none());
    assert!(Image::from_raw(2, 2, vec![0u8; 16]).is_some());
}

#[test]
fn resize_nearest_replicates_single_pixel() {
    let img = solid_image(1, 1, [10, 20, 30, 255]);
    let r = resize(&img, 2, 2, false);
    assert_eq!(r.width, 2);
    assert_eq!(r.height, 2);
    assert_eq!(
        r.data,
        vec![10, 20, 30, 255, 10, 20, 30, 255, 10, 20, 30, 255, 10, 20, 30, 255]
    );
}

#[test]
fn to_luma_uses_srgb_weights() {
    let img = solid_image(1, 1, [100, 50, 25, 255]);
    let g = to_luma(&img);
    // (2126*100 + 7152*50 + 722*25) / 10000 = 588450 / 10000 = 58
    assert_eq!(g.data, vec![58]);
}

#[test]
fn dither_pushes_bright_samples_to_full_white() {
    let g = Gray { width: 2, height: 1, data: vec![200, 200] };
    let d = dither(g);
    assert_eq!(d.data, vec![255, 255]);
}

#[test]
fn dither_keeps_extremes() {
    let g = Gray { width: 2, height: 2, data: vec![0, 0, 255, 255] };
    let d = dither(g);
    assert_eq!(d.data, vec![0, 0, 255, 255]);
}

#[test]
fn composite_overlays_frame_at_offset() {
    let canvas = solid_image(2, 2, [0, 0, 0, 255]);
    let frame = solid_image(1, 1, [255, 255, 255, 255]);
    let out = composite(&canvas, &frame, 1, 0);
    assert_eq!(out.width, 2);
    assert_eq!(out.height, 2);
    assert_eq!(
        out.data,
        vec![
            0, 0, 0, 255, 255, 255, 255, 255, //
            0, 0, 0, 255, 0, 0, 0, 255,
        ]
    );
}

#[test]
fn frame_delay_divides_numerator_by_denominator() {
    let frame = GifFrame {
        image: solid_image(1, 1, [0, 0, 0, 255]),
        delay_num: 100,
        delay_den: 10,
        left: 0,
        top: 0,
    };
    assert_eq!(frame.dalay_as_duration(), 10);
}

#[test]
fn image_file_dimensions() {
    let f = ImageFile::Image(solid_image(3, 5, [1, 2, 3, 255]));
    assert_eq!(f.dimensions(), (3, 5));
    let g = ImageFile::Gif(Vec::new(), (7, 9));
    assert_eq!(g.dimensions(), (7, 9));
}

#[test]
fn scheduler_needs_at_least_one_frame() {
    assert!(Animator::new(0).is_none());
    assert!(Animator::new(1).is_some());
}

#[test]
fn scheduler_shows_two_frames_in_cyclic_order_with_residual_sleeps() {
    let delays: [u64; 2] = [100, 50];
    let elapsed: [u64; 4] = [30, 70, 120, 0];
    let mut a = Animator::new(2).unwrap();
    let mut frames: Vec<usize> = Vec::new();
    let mut sleeps: Vec<u64> = Vec::new();
    for k in 0..4 {
        let cmd = a.step(false, delays[k % 2], elapsed[k]).unwrap();
        frames.push(cmd.frame);
        sleeps.push(cmd.sleep_ms);
    }
    assert_eq!(frames, vec![0, 1, 0, 1]);
    assert_eq!(sleeps, vec![70, 0, 0, 50]);
    for k in 0..4 {
        let declared = delays[k % 2] as i64;
        let gap = sleeps[k] as i64;
        assert!(gap >= declared - elapsed[k] as i64);
        assert!(gap >= 0);
    }
}

#[test]
fn scheduler_stops_on_cancellation() {
    let mut a = Animator::new(2).unwrap();
    assert!(a.step(true, 100, 0).is_none());
    // The schedule is unchanged: the next uncancelled step still shows
    // frame 0.
    let cmd = a.step(false, 100, 0).unwrap();
    assert_eq!(cmd.frame, 0);
}
