use vstd::prelude::*;

use crate::Rgba;
use crate::config::Args;

verus! {

// ---------------------------------------------------------------------------
// Decimal text
// ---------------------------------------------------------------------------

/// The decimal digit character for `n` in `0..=9`.
pub open spec fn dec_digit(n: int) -> char {
    seq!['0', '1', '2', '3', '4', '5', '6', '7', '8', '9'][n]
}

/// The usual decimal representation of `n >= 0`, most significant digit first,
/// without leading zeroes.
pub open spec fn dec_rep(n: int) -> Seq<char>
    decreases n,
{
    if n < 10 {
        seq![dec_digit(n)]
    } else {
        dec_rep(n / 10).push(dec_digit(n % 10))
    }
}

fn digit_char(d: u8) -> (c: char)
    requires
        d < 10,
    ensures
        c == dec_digit(d as int),
{
    let c = match d {
        0 => '0',
        1 => '1',
        2 => '2',
        3 => '3',
        4 => '4',
        5 => '5',
        6 => '6',
        7 => '7',
        8 => '8',
        _ => '9',
    };
    c
}

/// Appends the decimal representation of `n` to `out`.
pub fn push_dec_u8(out: &mut Vec<char>, n: u8)
    ensures
        final(out)@ == old(out)@ + dec_rep(n as int),
{
    if n >= 100 {
        let d2 = n / 100;
        let d1 = (n / 10) % 10;
        let d0 = n % 10;
        out.push(digit_char(d2));
        out.push(digit_char(d1));
        out.push(digit_char(d0));
        proof {
            let m = n as int;
            assert(m / 10 / 10 == m / 100);
            assert(dec_rep(m / 100) =~= seq![dec_digit(m / 100)]);
            assert(dec_rep(m / 10) =~= seq![dec_digit(m / 100), dec_digit((m / 10) % 10)]);
            assert(dec_rep(m) =~= seq![
                dec_digit(m / 100),
                dec_digit((m / 10) % 10),
                dec_digit(m % 10),
            ]);
            assert(out@ =~= old(out)@ + dec_rep(n as int));
        }
    } else if n >= 10 {
        let d1 = n / 10;
        let d0 = n % 10;
        out.push(digit_char(d1));
        out.push(digit_char(d0));
        proof {
            let m = n as int;
            assert(dec_rep(m / 10) =~= seq![dec_digit(m / 10)]);
            assert(dec_rep(m) =~= seq![dec_digit(m / 10), dec_digit(m % 10)]);
            assert(out@ =~= old(out)@ + dec_rep(n as int));
        }
    } else {
        out.push(digit_char(n));
        proof {
            assert(dec_rep(n as int) =~= seq![dec_digit(n as int)]);
            assert(out@ =~= old(out)@ + dec_rep(n as int));
        }
    }
}

// ---------------------------------------------------------------------------
// Color quantization
// ---------------------------------------------------------------------------

/// The 6-level cube coordinate of one channel, after premultiplying by
/// alpha: the nearest integer to `c * (a/255) * 5 / 255`. The rounding is
/// written as a floor; the two agree because ties cannot occur (the
/// halfway point would need `10*c*a` to be an odd multiple of `65025`).
pub open spec fn channel_level(c: int, a: int) -> int {
    (10 * c * a + 65025) / 130050
}

/// The 256-color terminal code of a color: `16 + 36r + 6g + b` over the
/// 6x6x6 cube coordinates of the premultiplied channels.
pub open spec fn spec_color_code(col: Rgba) -> int {
    16 + 36 * channel_level(col.r as int, col.a as int) + 6 * channel_level(
        col.g as int,
        col.a as int,
    ) + channel_level(col.b as int, col.a as int)
}

proof fn lemma_channel_level_bounds(c: int, a: int)
    requires
        0 <= c <= 255,
        0 <= a <= 255,
    ensures
        0 <= channel_level(c, a) <= 5,
{
    assert(0 <= 10 * c * a <= 650250) by (nonlinear_arith)
        requires
            0 <= c <= 255,
            0 <= a <= 255,
    ;
}

fn level_of(c: u8, a: u8) -> (l: u8)
    ensures
        l as int == channel_level(c as int, a as int),
        l <= 5,
{
    proof {
        lemma_channel_level_bounds(c as int, a as int);
        assert((c as u32) * (a as u32) <= 65025) by (nonlinear_arith)
            requires
                c <= 255,
                a <= 255,
        ;
    }
    ((10 * (c as u32) * (a as u32) + 65025) / 130050) as u8
}

/// Converts an RGBA color to a 256-color terminal code.
pub fn color_to_code(color: Rgba) -> (code: u8)
    ensures
        code as int == spec_color_code(color),
{
    let r = level_of(color.r, color.a);
    let g = level_of(color.g, color.a);
    let b = level_of(color.b, color.a);
    16 + 36 * r + 6 * g + b
}

// ---------------------------------------------------------------------------
// Brightness normalization
// ---------------------------------------------------------------------------

/// The largest of the three color channels.
pub open spec fn max_channel(col: Rgba) -> int {
    let r = col.r as int;
    let g = col.g as int;
    let b = col.b as int;
    if r >= g && r >= b {
        r
    } else if g >= b {
        g
    } else {
        b
    }
}

/// Rescales the channels so the largest becomes 255, preserving hue and
/// alpha; an all-black color is kept unchanged.
pub open spec fn spec_normalize_brightness(col: Rgba) -> Rgba {
    let m = max_channel(col);
    if m == 0 {
        col
    } else {
        Rgba {
            r: (col.r as int * 255 / m) as u8,
            g: (col.g as int * 255 / m) as u8,
            b: (col.b as int * 255 / m) as u8,
            a: col.a,
        }
    }
}

proof fn lemma_scale_le_255(c: int, m: int)
    requires
        0 <= c <= m,
        1 <= m,
    ensures
        0 <= c * 255 / m <= 255,
{
    assert(c * 255 <= m * 255) by (nonlinear_arith)
        requires
            c <= m,
    ;
    assert(c * 255 / m <= m * 255 / m) by (nonlinear_arith)
        requires
            c * 255 <= m * 255,
            1 <= m,
    ;
    assert(m * 255 / m == 255) by (nonlinear_arith)
        requires
            1 <= m,
    ;
    assert(c * 255 >= 0) by (nonlinear_arith)
        requires
            c >= 0,
    ;
}

/// Scales r, g and b as much as possible without clipping: the maximum
/// channel maps to 255 and the others keep their ratio to it.
pub fn normalize_brightness(col: Rgba) -> (r: Rgba)
    ensures
        r == spec_normalize_brightness(col),
{
    let m: u8 = if col.r >= col.g && col.r >= col.b {
        col.r
    } else if col.g >= col.b {
        col.g
    } else {
        col.b
    };
    if m == 0 {
        col
    } else {
        proof {
            lemma_scale_le_255(col.r as int, m as int);
            lemma_scale_le_255(col.g as int, m as int);
            lemma_scale_le_255(col.b as int, m as int);
        }
        Rgba {
            r: ((col.r as u32) * 255 / (m as u32)) as u8,
            g: ((col.g as u32) * 255 / (m as u32)) as u8,
            b: ((col.b as u32) * 255 / (m as u32)) as u8,
            a: col.a,
        }
    }
}

// ---------------------------------------------------------------------------
// Escape sequences
// ---------------------------------------------------------------------------

/// The escape sequence that resets all terminal attributes.
pub open spec fn reset_seq() -> Seq<char> {
    seq!['\u{1b}', '[', '0', 'm']
}

/// The escape sequence selecting an indexed foreground color.
pub open spec fn fg_indexed_seq(code: int) -> Seq<char> {
    seq!['\u{1b}', '[', '3', '8', ';', '5', ';'] + dec_rep(code) + seq!['m']
}

/// The escape sequence selecting an indexed background color.
pub open spec fn bg_indexed_seq(code: int) -> Seq<char> {
    seq!['\u{1b}', '[', '4', '8', ';', '5', ';'] + dec_rep(code) + seq!['m']
}

/// The escape sequence selecting a truecolor foreground.
pub open spec fn fg_true_seq(r: int, g: int, b: int) -> Seq<char> {
    seq!['\u{1b}', '[', '3', '8', ';', '2', ';'] + dec_rep(r) + seq![';'] + dec_rep(g) + seq![';']
        + dec_rep(b) + seq!['m']
}

/// The escape sequence selecting a truecolor background.
pub open spec fn bg_true_seq(r: int, g: int, b: int) -> Seq<char> {
    seq!['\u{1b}', '[', '4', '8', ';', '2', ';'] + dec_rep(r) + seq![';'] + dec_rep(g) + seq![';']
        + dec_rep(b) + seq!['m']
}

/// What `set_color` appends: a truecolor foreground when truecolor is on,
/// an indexed foreground when only indexed color is on, nothing otherwise.
pub open spec fn set_color_seq(col: Rgba, args: Args) -> Seq<char> {
    if args.truecolor {
        fg_true_seq(col.r as int, col.g as int, col.b as int)
    } else if args.colors {
        fg_indexed_seq(spec_color_code(col))
    } else {
        Seq::empty()
    }
}

/// What `set_color_full_brightness` appends: under invert the raw color
/// (brightness recompensation assumes a dark background), otherwise the
/// brightness-normalized color; nothing when color output is off.
pub open spec fn set_color_full_brightness_seq(col: Rgba, args: Args) -> Seq<char> {
    if !args.colors && !args.truecolor {
        Seq::empty()
    } else if args.invert {
        set_color_seq(col, args)
    } else {
        set_color_seq(spec_normalize_brightness(col), args)
    }
}

/// What `set_color_bg` appends: both a foreground and a background color,
/// or nothing when color output is off.
pub open spec fn set_color_bg_seq(fg: Rgba, bg: Rgba, args: Args) -> Seq<char> {
    if !args.colors && !args.truecolor {
        Seq::empty()
    } else if args.truecolor {
        bg_true_seq(bg.r as int, bg.g as int, bg.b as int) + fg_true_seq(
            fg.r as int,
            fg.g as int,
            fg.b as int,
        )
    } else {
        fg_indexed_seq(spec_color_code(fg)) + bg_indexed_seq(spec_color_code(bg))
    }
}

/// What `set_black_background` appends.
pub open spec fn set_black_background_seq(args: Args) -> Seq<char> {
    if args.background {
        bg_indexed_seq(0)
    } else {
        Seq::empty()
    }
}

/// Appends the attribute-reset escape sequence.
pub fn reset_color(out: &mut Vec<char>)
    ensures
        final(out)@ == old(out)@ + reset_seq(),
{
    out.push('\u{1b}');
    out.push('[');
    out.push('0');
    out.push('m');
    proof {
        assert(out@ =~= old(out)@ + reset_seq());
    }
}

fn push_fg_indexed(out: &mut Vec<char>, code: u8)
    ensures
        final(out)@ == old(out)@ + fg_indexed_seq(code as int),
{
    out.push('\u{1b}');
    out.push('[');
    out.push('3');
    out.push('8');
    out.push(';');
    out.push('5');
    out.push(';');
    push_dec_u8(out, code);
    out.push('m');
    proof {
        assert(out@ =~= old(out)@ + fg_indexed_seq(code as int));
    }
}

fn push_bg_indexed(out: &mut Vec<char>, code: u8)
    ensures
        final(out)@ == old(out)@ + bg_indexed_seq(code as int),
{
    out.push('\u{1b}');
    out.push('[');
    out.push('4');
    out.push('8');
    out.push(';');
    out.push('5');
    out.push(';');
    push_dec_u8(out, code);
    out.push('m');
    proof {
        assert(out@ =~= old(out)@ + bg_indexed_seq(code as int));
    }
}

fn push_fg_true(out: &mut Vec<char>, r: u8, g: u8, b: u8)
    ensures
        final(out)@ == old(out)@ + fg_true_seq(r as int, g as int, b as int),
{
    out.push('\u{1b}');
    out.push('[');
    out.push('3');
    out.push('8');
    out.push(';');
    out.push('2');
    out.push(';');
    push_dec_u8(out, r);
    out.push(';');
    push_dec_u8(out, g);
    out.push(';');
    push_dec_u8(out, b);
    out.push('m');
    proof {
        assert(out@ =~= old(out)@ + fg_true_seq(r as int, g as int, b as int));
    }
}

fn push_bg_true(out: &mut Vec<char>, r: u8, g: u8, b: u8)
    ensures
        final(out)@ == old(out)@ + bg_true_seq(r as int, g as int, b as int),
{
    out.push('\u{1b}');
    out.push('[');
    out.push('4');
    out.push('8');
    out.push(';');
    out.push('2');
    out.push(';');
    push_dec_u8(out, r);
    out.push(';');
    push_dec_u8(out, g);
    out.push(';');
    push_dec_u8(out, b);
    out.push('m');
    proof {
        assert(out@ =~= old(out)@ + bg_true_seq(r as int, g as int, b as int));
    }
}

/// Appends the foreground escape for a color, honoring the color mode.
pub fn set_color(col: Rgba, args: &Args, out: &mut Vec<char>)
    ensures
        final(out)@ == old(out)@ + set_color_seq(col, *args),
{
    if args.truecolor {
        push_fg_true(out, col.r, col.g, col.b);
    } else if args.colors {
        let code = color_to_code(col);
        push_fg_indexed(out, code);
    }
}

/// Appends the foreground escape for a color scaled to full brightness;
/// under invert the color is used as it is.
pub fn set_color_full_brightness(col: Rgba, args: &Args, out: &mut Vec<char>)
    ensures
        final(out)@ == old(out)@ + set_color_full_brightness_seq(col, *args),
{
    if !args.colors && !args.truecolor {
        return ;
    }
    if args.invert {
        set_color(col, args, out);
        return ;
    }
    let scaled = normalize_brightness(col);
    set_color(scaled, args, out);
}

/// Appends the escapes for a foreground and a background color.
pub fn set_color_bg(fg: Rgba, bg: Rgba, args: &Args, out: &mut Vec<char>)
    ensures
        final(out)@ == old(out)@ + set_color_bg_seq(fg, bg, *args),
{
    if !args.colors && !args.truecolor {
        return ;
    }
    if args.truecolor {
        push_bg_true(out, bg.r, bg.g, bg.b);
        push_fg_true(out, fg.r, fg.g, fg.b);
        proof {
            assert(out@ =~= old(out)@ + set_color_bg_seq(fg, bg, *args));
        }
    } else {
        let fg_code = color_to_code(fg);
        let bg_code = color_to_code(bg);
        push_fg_indexed(out, fg_code);
        push_bg_indexed(out, bg_code);
        proof {
            assert(out@ =~= old(out)@ + set_color_bg_seq(fg, bg, *args));
        }
    }
}

/// Appends the black-background escape when the background flag is set.
pub fn set_black_background(args: &Args, out: &mut Vec<char>)
    ensures
        final(out)@ == old(out)@ + set_black_background_seq(*args),
{
    if args.background {
        push_bg_indexed(out, 0);
    }
}

} // verus!
