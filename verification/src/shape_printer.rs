use vstd::prelude::*;

use crate::chars_to_string;
use crate::colors::{reset_color, reset_seq, set_black_background, set_black_background_seq,
    set_color, set_color_seq};
use crate::config::Args;
use crate::img::{luma_seq, pixel_at, resize, resized, to_luma, Gray, Image};

verus! {

// The printable ASCII range the matcher draws candidates from.
pub const ASCII_START: u32 = 32;
pub const ASCII_END: u32 = 127;

// ---------------------------------------------------------------------------
// Glyph atlas
// ---------------------------------------------------------------------------

/// A luminance sample bitmap for each candidate glyph: one horizontal
/// strip, `count` glyphs wide, each glyph `sym_w` x `sym_h` samples.
pub struct Atlas {
    pub sym_w: u32,
    pub sym_h: u32,
    pub count: u32,
    pub data: Vec<u8>,
}

impl Atlas {
    pub open spec fn wf(&self) -> bool {
        &&& 1 <= self.sym_w <= 32
        &&& 1 <= self.sym_h <= 32
        &&& 1 <= self.count <= 95
        &&& self.data@.len() == ((self.count as int) * (self.sym_w as int)) * (self.sym_h as int)
    }

    /// The sample at (u, v) of glyph `sym`: the strip is row-major with
    /// row length `count * sym_w`.
    pub open spec fn spec_sample(&self, sym: int, u: int, v: int) -> u8 {
        self.data@[v * ((self.count as int) * (self.sym_w as int)) + sym * (self.sym_w as int) + u]
    }

    /// Builds an atlas from a sample strip; refused unless the strip
    /// holds exactly `count` glyphs of `sym_w` x `sym_h` samples and the
    /// dimensions are within the supported range.
    pub fn new(sym_w: u32, sym_h: u32, count: u32, data: Vec<u8>) -> (r: Option<Atlas>)
        ensures
            match r {
                Some(a) => {
                    &&& a.wf()
                    &&& a.sym_w == sym_w
                    &&& a.sym_h == sym_h
                    &&& a.count == count
                    &&& a.data@ == data@
                },
                None => !(Atlas { sym_w, sym_h, count, data }).wf(),
            },
    {
        if 1 <= sym_w && sym_w <= 32 && 1 <= sym_h && sym_h <= 32 && 1 <= count && count <= 95 {
            proof {
                assert(0 <= (count as int) * (sym_w as int) && (count as int) * (sym_w as int)
                    <= 3040 && 0 <= ((count as int) * (sym_w as int)) * (sym_h as int) && ((count
                    as int) * (sym_w as int)) * (sym_h as int) <= 97280) by (nonlinear_arith)
                    requires
                        1 <= count <= 95,
                        1 <= sym_w <= 32,
                        1 <= sym_h <= 32,
                ;
            }
            let cw: usize = (count as usize) * (sym_w as usize);
            let total: usize = cw * (sym_h as usize);
            if data.len() == total {
                Some(Atlas { sym_w, sym_h, count, data })
            } else {
                None
            }
        } else {
            None
        }
    }

    /// Reads the sample at (u, v) of glyph `sym`.
    pub fn sample(&self, sym: u32, u: u32, v: u32) -> (s: u8)
        requires
            self.wf(),
            sym < self.count,
            u < self.sym_w,
            v < self.sym_h,
        ensures
            s == self.spec_sample(sym as int, u as int, v as int),
    {
        let ghost cw = (self.count as int) * (self.sym_w as int);
        proof {
            assert(0 <= (sym as int) * (self.sym_w as int) && (sym as int) * (self.sym_w as int)
                + (u as int) < cw) by (nonlinear_arith)
                requires
                    0 <= (sym as int) && (sym as int) < (self.count as int),
                    0 <= (u as int) && (u as int) < (self.sym_w as int),
                    cw == (self.count as int) * (self.sym_w as int),
            ;
            crate::img::lemma_grid_index(
                (sym as int) * (self.sym_w as int) + (u as int),
                v as int,
                cw,
                self.sym_h as int,
            );
            assert(cw <= 3040 && (v as int) * cw <= 31 * 3040 && 0 <= (v as int) * cw && 0 <= (
            sym as int) * (self.sym_w as int) && (sym as int) * (self.sym_w as int) <= 94 * 32)
                by (nonlinear_arith)
                requires
                    cw == (self.count as int) * (self.sym_w as int),
                    1 <= self.count <= 95,
                    1 <= self.sym_w <= 32,
                    0 <= (v as int) && (v as int) < (self.sym_h as int),
                    self.sym_h <= 32,
                    0 <= (sym as int) && (sym as int) < (self.count as int),
            ;
        }
        let i: usize = (v as usize) * ((self.count as usize) * (self.sym_w as usize)) + (sym
            as usize) * (self.sym_w as usize) + (u as usize);
        self.data[i]
    }
}

// ---------------------------------------------------------------------------
// Template cost
// ---------------------------------------------------------------------------

/// The image luminance sample the matcher compares against, inverted
/// first when the invert flag is set.
pub open spec fn img_sample(gd: Seq<u8>, gw: int, x: int, y: int, invert: bool) -> int {
    let s = gd[y * gw + x] as int;
    if invert {
        255 - s
    } else {
        s
    }
}

/// The absolute difference of two sample values.
pub open spec fn diff(a: int, b: int) -> int {
    if a >= b {
        a - b
    } else {
        b - a
    }
}

/// The cost contribution of the first `u` samples of row `v`: glyph
/// sample (u, v) against image sample (x0 + u, y0 + v).
pub open spec fn cost_row(
    a: Atlas,
    gd: Seq<u8>,
    gw: int,
    x0: int,
    y0: int,
    sym: int,
    invert: bool,
    v: int,
    u: int,
) -> int
    decreases u,
{
    if u <= 0 {
        0
    } else {
        cost_row(a, gd, gw, x0, y0, sym, invert, v, u - 1) + diff(
            a.spec_sample(sym, u - 1, v) as int,
            img_sample(gd, gw, x0 + (u - 1), y0 + v, invert),
        )
    }
}

/// The cost contribution of the first `v` full rows.
pub open spec fn cost_rows(
    a: Atlas,
    gd: Seq<u8>,
    gw: int,
    x0: int,
    y0: int,
    sym: int,
    invert: bool,
    v: int,
) -> int
    decreases v,
{
    if v <= 0 {
        0
    } else {
        cost_rows(a, gd, gw, x0, y0, sym, invert, v - 1) + cost_row(
            a,
            gd,
            gw,
            x0,
            y0,
            sym,
            invert,
            v - 1,
            a.sym_w as int,
        )
    }
}

/// The template cost of glyph `sym` at the cell whose fine-grid origin is
/// (x0, y0): the sum of absolute sample differences over the glyph.
pub open spec fn sym_cost(
    a: Atlas,
    gd: Seq<u8>,
    gw: int,
    x0: int,
    y0: int,
    sym: int,
    invert: bool,
) -> int {
    cost_rows(a, gd, gw, x0, y0, sym, invert, a.sym_h as int)
}

proof fn lemma_cost_row_bounds(
    a: Atlas,
    gd: Seq<u8>,
    gw: int,
    x0: int,
    y0: int,
    sym: int,
    invert: bool,
    v: int,
    u: int,
)
    requires
        u >= 0,
    ensures
        0 <= cost_row(a, gd, gw, x0, y0, sym, invert, v, u) <= 255 * u,
    decreases u,
{
    if u > 0 {
        lemma_cost_row_bounds(a, gd, gw, x0, y0, sym, invert, v, u - 1);
    }
}

proof fn lemma_cost_rows_bounds(
    a: Atlas,
    gd: Seq<u8>,
    gw: int,
    x0: int,
    y0: int,
    sym: int,
    invert: bool,
    v: int,
)
    requires
        v >= 0,
        a.sym_w <= 32,
    ensures
        0 <= cost_rows(a, gd, gw, x0, y0, sym, invert, v) <= 255 * 32 * v,
    decreases v,
{
    if v > 0 {
        lemma_cost_rows_bounds(a, gd, gw, x0, y0, sym, invert, v - 1);
        lemma_cost_row_bounds(a, gd, gw, x0, y0, sym, invert, v - 1, a.sym_w as int);
        assert(cost_rows(a, gd, gw, x0, y0, sym, invert, v) == cost_rows(
            a,
            gd,
            gw,
            x0,
            y0,
            sym,
            invert,
            v - 1,
        ) + cost_row(a, gd, gw, x0, y0, sym, invert, v - 1, a.sym_w as int));
        assert(255 * (a.sym_w as int) <= 255 * 32);
        assert(cost_rows(a, gd, gw, x0, y0, sym, invert, v - 1) <= 255 * 32 * (v - 1));
        assert(cost_row(a, gd, gw, x0, y0, sym, invert, v - 1, a.sym_w as int) <= 255 * 32);
        assert(cost_rows(a, gd, gw, x0, y0, sym, invert, v) <= 255 * 32 * (v - 1) + 255 * 32);
        assert(255 * 32 * (v - 1) + 255 * 32 == 255 * 32 * v) by (nonlinear_arith);
        assert(cost_rows(a, gd, gw, x0, y0, sym, invert, v) <= 255 * 32 * v);
    } else {
        assert(cost_rows(a, gd, gw, x0, y0, sym, invert, v) == 0);
    }
}

proof fn lemma_cost_rows_nonneg(
    a: Atlas,
    gd: Seq<u8>,
    gw: int,
    x0: int,
    y0: int,
    sym: int,
    invert: bool,
    v: int,
)
    requires
        v >= 0,
    ensures
        0 <= cost_rows(a, gd, gw, x0, y0, sym, invert, v),
    decreases v,
{
    if v > 0 {
        lemma_cost_rows_nonneg(a, gd, gw, x0, y0, sym, invert, v - 1);
        lemma_cost_row_bounds(a, gd, gw, x0, y0, sym, invert, v - 1, a.sym_w as int);
    }
}

/// Computes the template cost of glyph `sym` at fine-grid origin
/// (x0, y0).
fn sym_cost_cell(a: &Atlas, gray: &Gray, x0: u32, y0: u32, sym: u32, invert: bool) -> (c: u32)
    requires
        a.wf(),
        gray.wf(),
        sym < a.count,
        x0 as int + a.sym_w as int <= gray.width as int,
        y0 as int + a.sym_h as int <= gray.height as int,
    ensures
        c as int == sym_cost(*a, gray.data@, gray.width as int, x0 as int, y0 as int, sym as int, invert),
        c <= 255 * 32 * 32,
{
    let ghost gd = gray.data@;
    let ghost gw = gray.width as int;
    let mut cost: u32 = 0;
    let mut v: u32 = 0;
    while v < a.sym_h
        invariant
            a.wf(),
            gray.wf(),
            sym < a.count,
            x0 as int + a.sym_w as int <= gray.width as int,
            y0 as int + a.sym_h as int <= gray.height as int,
            gd == gray.data@,
            gw == gray.width as int,
            v <= a.sym_h,
            cost as int == cost_rows(*a, gd, gw, x0 as int, y0 as int, sym as int, invert, v as int),
            cost as int <= 8160 * (v as int),
        decreases a.sym_h - v,
    {
        let mut u: u32 = 0;
        let mut row_cost: u32 = 0;
        while u < a.sym_w
            invariant
                a.wf(),
                gray.wf(),
                sym < a.count,
                x0 as int + a.sym_w as int <= gray.width as int,
                y0 as int + a.sym_h as int <= gray.height as int,
                gd == gray.data@,
                gw == gray.width as int,
                v < a.sym_h,
                u <= a.sym_w,
                row_cost as int == cost_row(
                    *a,
                    gd,
                    gw,
                    x0 as int,
                    y0 as int,
                    sym as int,
                    invert,
                    v as int,
                    u as int,
                ),
                row_cost as int <= 255 * (u as int),
            decreases a.sym_w - u,
        {
            let s = a.sample(sym, u, v);
            let raw = gray.sample(x0 + u, y0 + v);
            let img: u32 = if invert {
                255 - (raw as u32)
            } else {
                raw as u32
            };
            let d: u32 = if s as u32 >= img {
                s as u32 - img
            } else {
                img - s as u32
            };
            row_cost = row_cost + d;
            u = u + 1;
        }
        proof {
            assert(row_cost as int <= 8160);
            assert(cost_rows(*a, gd, gw, x0 as int, y0 as int, sym as int, invert, v as int + 1)
                == cost_rows(*a, gd, gw, x0 as int, y0 as int, sym as int, invert, v as int)
                + cost_row(
                *a,
                gd,
                gw,
                x0 as int,
                y0 as int,
                sym as int,
                invert,
                v as int,
                a.sym_w as int,
            ));
        }
        cost = cost + row_cost;
        v = v + 1;
    }
    cost
}

// ---------------------------------------------------------------------------
// Best-glyph selection
// ---------------------------------------------------------------------------

/// The exact minimization the matcher performs: walking the candidate
/// codes from `i` with current best glyph `bs` at cost `bc`, a candidate
/// replaces the best only when its cost is strictly smaller, so the
/// earliest candidate of minimal cost wins.
pub open spec fn best_from(
    a: Atlas,
    gd: Seq<u8>,
    gw: int,
    x0: int,
    y0: int,
    invert: bool,
    cs: Seq<u8>,
    i: int,
    bs: int,
    bc: int,
) -> int
    decreases cs.len() - i,
{
    if i < 0 || i >= cs.len() {
        bs
    } else {
        let c = sym_cost(a, gd, gw, x0, y0, cs[i] - 32, invert);
        if c < bc {
            best_from(a, gd, gw, x0, y0, invert, cs, i + 1, cs[i] - 32, c)
        } else {
            best_from(a, gd, gw, x0, y0, invert, cs, i + 1, bs, bc)
        }
    }
}

/// The glyph index the matcher selects at fine-grid origin (x0, y0):
/// glyph 0 when the candidate list is empty.
pub open spec fn spec_best_symbol(
    a: Atlas,
    gd: Seq<u8>,
    gw: int,
    x0: int,
    y0: int,
    invert: bool,
    cs: Seq<u8>,
) -> int {
    best_from(a, gd, gw, x0, y0, invert, cs, 0, 0, 0xFFFFFFFF)
}

/// The printable character with glyph index `sym`.
pub open spec fn shape_char_of(sym: int) -> char {
    (32 + sym) as char
}

/// Selects the candidate glyph of minimal template cost at fine-grid
/// origin (x0, y0), earliest candidate winning ties.
fn best_symbol(a: &Atlas, gray: &Gray, x0: u32, y0: u32, invert: bool, cs: &Vec<u8>) -> (best: u32)
    requires
        a.wf(),
        gray.wf(),
        x0 as int + a.sym_w as int <= gray.width as int,
        y0 as int + a.sym_h as int <= gray.height as int,
        forall|i: int| 0 <= i < cs@.len() ==> 32 <= #[trigger] cs@[i] && (cs@[i] as int) < 32 + a.count,
    ensures
        best as int == spec_best_symbol(
            *a,
            gray.data@,
            gray.width as int,
            x0 as int,
            y0 as int,
            invert,
            cs@,
        ),
        best < a.count || best == 0,
{
    let ghost gd = gray.data@;
    let ghost gw = gray.width as int;
    let mut best_sym: u32 = 0;
    let mut best_cost: u32 = u32::MAX;
    let mut i: usize = 0;
    while i < cs.len()
        invariant
            a.wf(),
            gray.wf(),
            x0 as int + a.sym_w as int <= gray.width as int,
            y0 as int + a.sym_h as int <= gray.height as int,
            gd == gray.data@,
            gw == gray.width as int,
            forall|j: int|
                0 <= j < cs@.len() ==> 32 <= #[trigger] cs@[j] && (cs@[j] as int) < 32 + a.count,
            i <= cs@.len(),
            best_sym < a.count || best_sym == 0,
            spec_best_symbol(*a, gd, gw, x0 as int, y0 as int, invert, cs@) == best_from(
                *a,
                gd,
                gw,
                x0 as int,
                y0 as int,
                invert,
                cs@,
                i as int,
                best_sym as int,
                best_cost as int,
            ),
        decreases cs@.len() - i,
    {
        let code = cs[i];
        let sym: u32 = code as u32 - 32;
        let c = sym_cost_cell(a, gray, x0, y0, sym, invert);
        if c < best_cost {
            best_cost = c;
            best_sym = sym;
        }
        i = i + 1;
    }
    best_sym
}

// ---------------------------------------------------------------------------
// Rendering
// ---------------------------------------------------------------------------

/// One cell of shape output: the raw cell color (shape already conveys
/// contrast, so no brightness normalization), then the best-fitting
/// printable glyph.
pub open spec fn shapes_cell(
    cd: Seq<u8>,
    gd: Seq<u8>,
    w: int,
    args: Args,
    a: Atlas,
    cs: Seq<u8>,
    x: int,
    y: int,
) -> Seq<char> {
    let gw = w * (a.sym_w as int);
    let sym = spec_best_symbol(
        a,
        gd,
        gw,
        x * (a.sym_w as int),
        y * (a.sym_h as int),
        args.invert,
        cs,
    );
    set_color_seq(pixel_at(cd, w, x, y), args) + seq![shape_char_of(sym)]
}

/// The first `x` cells of row `y`.
pub open spec fn shapes_row_to(
    cd: Seq<u8>,
    gd: Seq<u8>,
    w: int,
    args: Args,
    a: Atlas,
    cs: Seq<u8>,
    y: int,
    x: int,
) -> Seq<char>
    decreases x,
{
    if x <= 0 {
        Seq::empty()
    } else {
        shapes_row_to(cd, gd, w, args, a, cs, y, x - 1) + shapes_cell(cd, gd, w, args, a, cs, x - 1, y)
    }
}

/// The first `y` full rows.
pub open spec fn shapes_rows_to(
    cd: Seq<u8>,
    gd: Seq<u8>,
    w: int,
    args: Args,
    a: Atlas,
    cs: Seq<u8>,
    y: int,
) -> Seq<char>
    decreases y,
{
    if y <= 0 {
        Seq::empty()
    } else {
        shapes_rows_to(cd, gd, w, args, a, cs, y - 1) + set_black_background_seq(args)
            + shapes_row_to(cd, gd, w, args, a, cs, y - 1, w) + reset_seq() + seq!['\n']
    }
}

/// The whole shape rendering: colors from a one-pixel-per-cell resample,
/// shapes matched on a `sym_w` x `sym_h` per-cell grayscale resample.
pub open spec fn spec_print_shapes(
    d: Seq<u8>,
    w: int,
    h: int,
    args: Args,
    a: Atlas,
    cs: Seq<u8>,
) -> Seq<char> {
    let cd = resized(d, w, h, args.width as int, args.height as int, args.filter);
    let fine = resized(
        d,
        w,
        h,
        (args.width as int) * (a.sym_w as int),
        (args.height as int) * (a.sym_h as int),
        args.filter,
    );
    let gd = luma_seq(fine);
    shapes_rows_to(cd, gd, args.width as int, args, a, cs, args.height as int)
}

/// Renders every cell as the candidate glyph whose atlas bitmap is
/// closest to the cell's fine grayscale samples.
pub fn print_shapes(args: &Args, image: &Image, atlas: &Atlas, palette: &Vec<u8>) -> (out: String)
    requires
        args.wf(),
        image.wf(),
        1 <= image.width,
        1 <= image.height,
        atlas.wf(),
        (args.width as int) * (args.height as int) <= 0x3FFFF,
        forall|i: int|
            0 <= i < palette@.len() ==> 32 <= #[trigger] palette@[i] && (palette@[i] as int) < 32
                + atlas.count,
    ensures
        out@ == spec_print_shapes(
            image.data@,
            image.width as int,
            image.height as int,
            *args,
            *atlas,
            palette@,
        ),
{
    if args.width == 0 || args.height == 0 {
        // An empty grid: rows (if any) hold no cells, so no sample is
        // ever matched and the resamples are not needed.
        let ghost cd = resized(
            image.data@,
            image.width as int,
            image.height as int,
            args.width as int,
            args.height as int,
            args.filter,
        );
        let ghost gd = luma_seq(
            resized(
                image.data@,
                image.width as int,
                image.height as int,
                (args.width as int) * (atlas.sym_w as int),
                (args.height as int) * (atlas.sym_h as int),
                args.filter,
            ),
        );
        let mut out: Vec<char> = Vec::new();
        let mut y: u32 = 0;
        while y < args.height
            invariant
                args.width == 0 || args.height == 0,
                y <= args.height,
                out@ == shapes_rows_to(cd, gd, args.width as int, *args, *atlas, palette@, y as int),
            decreases args.height - y,
        {
            set_black_background(args, &mut out);
            reset_color(&mut out);
            out.push('\n');
            proof {
                assert(out@ =~= shapes_rows_to(
                    cd,
                    gd,
                    args.width as int,
                    *args,
                    *atlas,
                    palette@,
                    y as int + 1,
                ));
            }
            y = y + 1;
        }
        return chars_to_string(&out);
    }
    proof {
        assert(((args.width as int) * (atlas.sym_w as int)) * ((args.height as int) * (atlas.sym_h
            as int)) <= 0x3FFFF * 1024 && 1 <= (args.width as int) * (atlas.sym_w as int)
            <= 0xFFFF * 32 && 1 <= (args.height as int) * (atlas.sym_h as int) <= 0xFFFF * 32)
            by (nonlinear_arith)
            requires
                (args.width as int) * (args.height as int) <= 0x3FFFF,
                1 <= args.width <= 0xFFFF,
                1 <= args.height <= 0xFFFF,
                1 <= atlas.sym_w <= 32,
                1 <= atlas.sym_h <= 32,
        ;
    }
    let colors = resize(image, args.width, args.height, args.filter);
    let fine = resize(
        image,
        args.width * atlas.sym_w,
        args.height * atlas.sym_h,
        args.filter,
    );
    let gray = to_luma(&fine);
    let ghost cd = colors.data@;
    let ghost gd = gray.data@;
    let ghost w = args.width as int;
    let mut out: Vec<char> = Vec::new();
    let mut y: u32 = 0;
    while y < args.height
        invariant
            args.wf(),
            atlas.wf(),
            colors.wf(),
            colors.width == args.width,
            colors.height == args.height,
            gray.wf(),
            gray.width == args.width * atlas.sym_w,
            gray.height == args.height * atlas.sym_h,
            args.width as int * (atlas.sym_w as int) <= 0xFFFF * 32,
            args.height as int * (atlas.sym_h as int) <= 0xFFFF * 32,
            cd == colors.data@,
            gd == gray.data@,
            w == args.width as int,
            forall|i: int|
                0 <= i < palette@.len() ==> 32 <= #[trigger] palette@[i] && (palette@[i] as int)
                    < 32 + atlas.count,
            y <= args.height,
            out@ == shapes_rows_to(cd, gd, w, *args, *atlas, palette@, y as int),
        decreases args.height - y,
    {
        set_black_background(args, &mut out);
        let ghost row_base = out@;
        let mut x: u32 = 0;
        while x < args.width
            invariant
                args.wf(),
                atlas.wf(),
                colors.wf(),
                colors.width == args.width,
                colors.height == args.height,
                gray.wf(),
                gray.width == args.width * atlas.sym_w,
                gray.height == args.height * atlas.sym_h,
                args.width as int * (atlas.sym_w as int) <= 0xFFFF * 32,
                args.height as int * (atlas.sym_h as int) <= 0xFFFF * 32,
                cd == colors.data@,
                gd == gray.data@,
                w == args.width as int,
                forall|i: int|
                    0 <= i < palette@.len() ==> 32 <= #[trigger] palette@[i] && (palette@[i] as int)
                        < 32 + atlas.count,
                y < args.height,
                x <= args.width,
                row_base == shapes_rows_to(cd, gd, w, *args, *atlas, palette@, y as int)
                    + set_black_background_seq(*args),
                out@ == row_base + shapes_row_to(cd, gd, w, *args, *atlas, palette@, y as int, x as int),
            decreases args.width - x,
        {
            proof {
                assert((x as int) * (atlas.sym_w as int) + atlas.sym_w as int <= (args.width as int)
                    * (atlas.sym_w as int) && 0 <= (x as int) * (atlas.sym_w as int) && (y as int)
                    * (atlas.sym_h as int) + atlas.sym_h as int <= (args.height as int) * (
                atlas.sym_h as int) && 0 <= (y as int) * (atlas.sym_h as int)) by (nonlinear_arith)
                    requires
                        0 <= (x as int) && (x as int) < (args.width as int),
                        0 <= (y as int) && (y as int) < (args.height as int),
                        1 <= atlas.sym_w as int,
                        1 <= atlas.sym_h as int,
                ;
            }
            let x0 = x * atlas.sym_w;
            let y0 = y * atlas.sym_h;
            let sym = best_symbol(atlas, &gray, x0, y0, args.invert, palette);
            let code: u8 = (32 + sym) as u8;
            let px = colors.pixel(x, y);
            set_color(px, args, &mut out);
            out.push(code as char);
            proof {
                assert(out@ =~= row_base + shapes_row_to(
                    cd,
                    gd,
                    w,
                    *args,
                    *atlas,
                    palette@,
                    y as int,
                    x as int + 1,
                ));
            }
            x = x + 1;
        }
        reset_color(&mut out);
        out.push('\n');
        proof {
            assert(out@ =~= shapes_rows_to(cd, gd, w, *args, *atlas, palette@, y as int + 1));
        }
        y = y + 1;
    }
    chars_to_string(&out)
}

/// Builds the default candidate set: the full printable ASCII range.
pub fn full_printable_palette() -> (r: Vec<u8>)
    ensures
        r@.len() == 95,
        forall|i: int| 0 <= i < 95 ==> r@[i] as int == 32 + i,
{
    let mut r: Vec<u8> = Vec::new();
    let mut c: u32 = ASCII_START;
    while c < ASCII_END
        invariant
            32 <= c <= 127,
            r@.len() == c - 32,
            forall|i: int| 0 <= i < c - 32 ==> r@[i] as int == 32 + i,
        decreases 127 - c,
    {
        r.push(c as u8);
        c = c + 1;
    }
    r
}

// ---------------------------------------------------------------------------
// Laws
// ---------------------------------------------------------------------------

proof fn lemma_cost_row_zero_on_match(
    a: Atlas,
    gd: Seq<u8>,
    gw: int,
    x0: int,
    y0: int,
    sym: int,
    invert: bool,
    v: int,
    u: int,
)
    requires
        0 <= u <= a.sym_w as int,
        forall|u2: int, v2: int|
            0 <= u2 < a.sym_w as int && 0 <= v2 < a.sym_h as int ==> img_sample(
                gd,
                gw,
                x0 + u2,
                y0 + v2,
                invert,
            ) == #[trigger] a.spec_sample(sym, u2, v2) as int,
        0 <= v < a.sym_h as int,
    ensures
        cost_row(a, gd, gw, x0, y0, sym, invert, v, u) == 0,
    decreases u,
{
    if u > 0 {
        lemma_cost_row_zero_on_match(a, gd, gw, x0, y0, sym, invert, v, u - 1);
    }
}

proof fn lemma_cost_rows_zero_on_match(
    a: Atlas,
    gd: Seq<u8>,
    gw: int,
    x0: int,
    y0: int,
    sym: int,
    invert: bool,
    v: int,
)
    requires
        0 <= v <= a.sym_h as int,
        forall|u2: int, v2: int|
            0 <= u2 < a.sym_w as int && 0 <= v2 < a.sym_h as int ==> img_sample(
                gd,
                gw,
                x0 + u2,
                y0 + v2,
                invert,
            ) == #[trigger] a.spec_sample(sym, u2, v2) as int,
    ensures
        cost_rows(a, gd, gw, x0, y0, sym, invert, v) == 0,
    decreases v,
{
    if v > 0 {
        lemma_cost_rows_zero_on_match(a, gd, gw, x0, y0, sym, invert, v - 1);
        lemma_cost_row_zero_on_match(a, gd, gw, x0, y0, sym, invert, v - 1, a.sym_w as int);
    }
}

/// A cell whose fine samples equal glyph `sym`'s atlas bitmap exactly has
/// template cost zero for that glyph.
pub proof fn lemma_exact_match_costs_zero(
    a: Atlas,
    gd: Seq<u8>,
    gw: int,
    x0: int,
    y0: int,
    sym: int,
    invert: bool,
)
    requires
        forall|u2: int, v2: int|
            0 <= u2 < a.sym_w as int && 0 <= v2 < a.sym_h as int ==> img_sample(
                gd,
                gw,
                x0 + u2,
                y0 + v2,
                invert,
            ) == #[trigger] a.spec_sample(sym, u2, v2) as int,
    ensures
        sym_cost(a, gd, gw, x0, y0, sym, invert) == 0,
{
    lemma_cost_rows_zero_on_match(a, gd, gw, x0, y0, sym, invert, a.sym_h as int);
}

proof fn lemma_best_keeps_zero(
    a: Atlas,
    gd: Seq<u8>,
    gw: int,
    x0: int,
    y0: int,
    invert: bool,
    cs: Seq<u8>,
    i: int,
    bs: int,
)
    requires
        0 <= i,
    ensures
        best_from(a, gd, gw, x0, y0, invert, cs, i, bs, 0) == bs,
    decreases cs.len() - i,
{
    if i < cs.len() {
        lemma_cost_rows_nonneg(a, gd, gw, x0, y0, cs[i] - 32, invert, a.sym_h as int);
        lemma_best_keeps_zero(a, gd, gw, x0, y0, invert, cs, i + 1, bs);
    }
}

proof fn lemma_best_finds_unique_zero(
    a: Atlas,
    gd: Seq<u8>,
    gw: int,
    x0: int,
    y0: int,
    invert: bool,
    cs: Seq<u8>,
    sym: int,
    i: int,
    bs: int,
    bc: int,
)
    requires
        sym_cost(a, gd, gw, x0, y0, sym, invert) == 0,
        forall|j: int|
            0 <= j < cs.len() && #[trigger] cs[j] as int - 32 != sym ==> sym_cost(
                a,
                gd,
                gw,
                x0,
                y0,
                cs[j] - 32,
                invert,
            ) > 0,
        exists|k: int| i <= k < cs.len() && #[trigger] cs[k] as int - 32 == sym,
        bc > 0,
        0 <= i,
    ensures
        best_from(a, gd, gw, x0, y0, invert, cs, i, bs, bc) == sym,
    decreases cs.len() - i,
{
    let c = sym_cost(a, gd, gw, x0, y0, cs[i] - 32, invert);
    if cs[i] as int - 32 == sym {
        assert(c == 0);
        lemma_best_keeps_zero(a, gd, gw, x0, y0, invert, cs, i + 1, sym);
    } else {
        assert(c > 0);
        let k = choose|k: int| i <= k < cs.len() && #[trigger] cs[k] as int - 32 == sym;
        assert(i + 1 <= k < cs.len() && cs[k] as int - 32 == sym);
        if c < bc {
            lemma_best_finds_unique_zero(
                a,
                gd,
                gw,
                x0,
                y0,
                invert,
                cs,
                sym,
                i + 1,
                cs[i] - 32,
                c,
            );
        } else {
            lemma_best_finds_unique_zero(a, gd, gw, x0, y0, invert, cs, sym, i + 1, bs, bc);
        }
    }
}

/// When glyph `sym` is a candidate with template cost zero and every
/// candidate other than it has strictly positive cost, the matcher
/// selects `sym`.
pub proof fn lemma_unique_zero_cost_selected(
    a: Atlas,
    gd: Seq<u8>,
    gw: int,
    x0: int,
    y0: int,
    invert: bool,
    cs: Seq<u8>,
    sym: int,
)
    requires
        sym_cost(a, gd, gw, x0, y0, sym, invert) == 0,
        forall|j: int|
            0 <= j < cs.len() && #[trigger] cs[j] as int - 32 != sym ==> sym_cost(
                a,
                gd,
                gw,
                x0,
                y0,
                cs[j] - 32,
                invert,
            ) > 0,
        exists|k: int| 0 <= k < cs.len() && #[trigger] cs[k] as int - 32 == sym,
    ensures
        spec_best_symbol(a, gd, gw, x0, y0, invert, cs) == sym,
{
    lemma_best_finds_unique_zero(a, gd, gw, x0, y0, invert, cs, sym, 0, 0, 0xFFFFFFFF);
}

} // verus!
