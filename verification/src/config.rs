use vstd::prelude::*;

verus! {

/// The rendering strategies the library offers.
#[derive(Clone, Copy, PartialEq, Eq, Structural, Debug)]
pub enum Mode {
    Luminance,
    Pixels,
    DoublePixels,
    Braille,
    Edges,
    Shapes,
}

/// The render configuration: built once, immutable afterwards.
///
/// `width` and `height` are the cell grid dimensions. `quality` is
/// mode-dependent: a denser glyph palette for luminance and edges, a
/// smaller and faster atlas for shapes. `filter` selects triangular
/// instead of nearest-neighbour resampling.
#[derive(Clone, Copy, PartialEq, Eq, Structural, Debug)]
pub struct Args {
    pub mode: Mode,
    pub width: u32,
    pub height: u32,
    pub colors: bool,
    pub truecolor: bool,
    pub background: bool,
    pub invert: bool,
    pub quality: bool,
    pub filter: bool,
}

impl Args {
    /// A representable cell grid: small enough that every pixel count the
    /// renderers derive from it fits comfortably in a `u32`. A zero
    /// width or height is allowed and renders an empty grid.
    pub open spec fn wf(&self) -> bool {
        &&& self.width <= 0xFFFF
        &&& self.height <= 0xFFFF
    }
}

// ---------------------------------------------------------------------------
// Mode selection
// ---------------------------------------------------------------------------

/// The name of a mode, as the user writes it.
pub open spec fn mode_name(m: Mode) -> Seq<char> {
    match m {
        Mode::Luminance => seq!['l', 'u', 'm', 'i', 'n', 'a', 'n', 'c', 'e'],
        Mode::Pixels => seq!['p', 'i', 'x', 'e', 'l', 's'],
        Mode::DoublePixels => seq!['d', 'o', 'u', 'b', 'l', 'e', '-', 'p', 'i', 'x', 'e', 'l', 's'],
        Mode::Braille => seq!['b', 'r', 'a', 'i', 'l', 'l', 'e'],
        Mode::Edges => seq!['e', 'd', 'g', 'e', 's'],
        Mode::Shapes => seq!['s', 'h', 'a', 'p', 'e', 's'],
    }
}

/// The modes in the order prefixes are tried.
pub open spec fn mode_order() -> Seq<Mode> {
    seq![
        Mode::Luminance,
        Mode::Pixels,
        Mode::DoublePixels,
        Mode::Braille,
        Mode::Edges,
        Mode::Shapes,
    ]
}

/// Whether `p` is a prefix of `s`.
pub open spec fn is_prefix_of(p: Seq<char>, s: Seq<char>) -> bool {
    p.len() <= s.len() && forall|i: int| 0 <= i < p.len() ==> p[i] == s[i]
}

/// The first mode, in listed order, whose name the given string is a
/// prefix of, starting the scan at position `i`.
pub open spec fn first_mode_match(s: Seq<char>, i: int) -> Option<Mode>
    decreases mode_order().len() - i,
{
    if i < 0 || i >= mode_order().len() {
        None
    } else if is_prefix_of(s, mode_name(mode_order()[i])) {
        Some(mode_order()[i])
    } else {
        first_mode_match(s, i + 1)
    }
}

/// The mode a user string selects: the first mode the string is a prefix
/// of (an exact name matches itself), or none, which is the
/// configuration error.
pub open spec fn spec_parse_mode(s: Seq<char>) -> Option<Mode> {
    first_mode_match(s, 0)
}

fn is_prefix(p: &Vec<char>, s: &Vec<char>) -> (r: bool)
    ensures
        r == is_prefix_of(p@, s@),
{
    if p.len() > s.len() {
        return false;
    }
    let mut i: usize = 0;
    while i < p.len()
        invariant
            p@.len() <= s@.len(),
            i <= p@.len(),
            forall|j: int| 0 <= j < i ==> p@[j] == s@[j],
        decreases p@.len() - i,
    {
        if p[i] != s[i] {
            return false;
        }
        i = i + 1;
    }
    true
}

/// Parses a mode string: an exact mode name, or any prefix of one (the
/// first match in listed order wins). `None` is the configuration error:
/// the string selects no mode at all.
pub fn parse_mode(s: &Vec<char>) -> (r: Option<Mode>)
    ensures
        r == spec_parse_mode(s@),
{
    let luminance: Vec<char> = vec!['l', 'u', 'm', 'i', 'n', 'a', 'n', 'c', 'e'];
    let pixels: Vec<char> = vec!['p', 'i', 'x', 'e', 'l', 's'];
    let double_pixels: Vec<char> = vec![
        'd', 'o', 'u', 'b', 'l', 'e', '-', 'p', 'i', 'x', 'e', 'l', 's',
    ];
    let braille: Vec<char> = vec!['b', 'r', 'a', 'i', 'l', 'l', 'e'];
    let edges: Vec<char> = vec!['e', 'd', 'g', 'e', 's'];
    let shapes: Vec<char> = vec!['s', 'h', 'a', 'p', 'e', 's'];
    proof {
        assert(luminance@ =~= mode_name(Mode::Luminance));
        assert(pixels@ =~= mode_name(Mode::Pixels));
        assert(double_pixels@ =~= mode_name(Mode::DoublePixels));
        assert(braille@ =~= mode_name(Mode::Braille));
        assert(edges@ =~= mode_name(Mode::Edges));
        assert(shapes@ =~= mode_name(Mode::Shapes));
    }
    proof {
        assert(first_mode_match(s@, 6) is None);
        assert(first_mode_match(s@, 5) == (if is_prefix_of(s@, mode_name(Mode::Shapes)) {
            Some(Mode::Shapes)
        } else {
            first_mode_match(s@, 6)
        }));
        assert(first_mode_match(s@, 4) == (if is_prefix_of(s@, mode_name(Mode::Edges)) {
            Some(Mode::Edges)
        } else {
            first_mode_match(s@, 5)
        }));
        assert(first_mode_match(s@, 3) == (if is_prefix_of(s@, mode_name(Mode::Braille)) {
            Some(Mode::Braille)
        } else {
            first_mode_match(s@, 4)
        }));
        assert(first_mode_match(s@, 2) == (if is_prefix_of(s@, mode_name(Mode::DoublePixels)) {
            Some(Mode::DoublePixels)
        } else {
            first_mode_match(s@, 3)
        }));
        assert(first_mode_match(s@, 1) == (if is_prefix_of(s@, mode_name(Mode::Pixels)) {
            Some(Mode::Pixels)
        } else {
            first_mode_match(s@, 2)
        }));
        assert(first_mode_match(s@, 0) == (if is_prefix_of(s@, mode_name(Mode::Luminance)) {
            Some(Mode::Luminance)
        } else {
            first_mode_match(s@, 1)
        }));
    }
    if is_prefix(s, &luminance) {
        Some(Mode::Luminance)
    } else if is_prefix(s, &pixels) {
        Some(Mode::Pixels)
    } else if is_prefix(s, &double_pixels) {
        Some(Mode::DoublePixels)
    } else if is_prefix(s, &braille) {
        Some(Mode::Braille)
    } else if is_prefix(s, &edges) {
        Some(Mode::Edges)
    } else if is_prefix(s, &shapes) {
        Some(Mode::Shapes)
    } else {
        None
    }
}

// ---------------------------------------------------------------------------
// Grid fitting
// ---------------------------------------------------------------------------

/// Caps a derived grid dimension at the representable maximum; the cap
/// is a machine limit (it keeps the resample buffers addressable). A
/// derived zero is kept as zero: the grid is then empty and the
/// renderers produce empty rows for it.
pub open spec fn cap_dim(v: int) -> int {
    if v > 0xFFFF {
        0xFFFF
    } else {
        v
    }
}

/// The cell grid a configuration resolves to. A requested width above
/// zero fixes the width and derives the height from the image shape
/// under the font aspect ratio `anum / aden` (the exact floor; a very
/// wide image can derive height zero). Width zero autofits to the
/// terminal (the 100 x 100 default when its size is unknown): whichever
/// of filling the terminal's width or its height (less the two prompt
/// rows, which leave nothing on a shorter terminal) keeps the whole
/// image visible wins. Results above the representable maximum are
/// capped.
pub open spec fn spec_fit_dimensions(
    img_w: int,
    img_h: int,
    width: int,
    anum: int,
    aden: int,
    term: Option<(u16, u16)>,
) -> (int, int) {
    if width > 0 {
        (width, cap_dim(img_h * width * aden / (img_w * anum)))
    } else {
        let tw = match term {
            Some(t) => t.0 as int,
            None => 100,
        };
        let th = match term {
            Some(t) => t.1 as int,
            None => 100,
        };
        if tw * img_h * aden > img_w * th * anum {
            let hh = if th >= 2 {
                th - 2
            } else {
                0
            };
            (cap_dim(img_w * hh * anum / (img_h * aden)), hh)
        } else {
            (tw, cap_dim(img_h * tw * aden / (img_w * anum)))
        }
    }
}

fn cap_dim_exec(v: u64) -> (r: u32)
    ensures
        r as int == cap_dim(v as int),
{
    if v > 0xFFFF {
        0xFFFF
    } else {
        v as u32
    }
}

/// Resolves the cell grid size from the image shape, the requested
/// width, the font aspect ratio and the terminal size (if known).
pub fn fit_dimensions(
    img_w: u32,
    img_h: u32,
    width: u32,
    aspect_num: u32,
    aspect_den: u32,
    term: Option<(u16, u16)>,
) -> (r: (u32, u32))
    requires
        1 <= img_w,
        1 <= img_h,
        width <= 0xFFFF,
        1 <= aspect_num <= 10000,
        1 <= aspect_den <= 10000,
    ensures
        (r.0 as int, r.1 as int) == spec_fit_dimensions(
            img_w as int,
            img_h as int,
            width as int,
            aspect_num as int,
            aspect_den as int,
            term,
        ),
{
    proof {
        lemma_fit_products(img_w as int, img_h as int, aspect_num as int, aspect_den as int);
    }
    if width > 0 {
        let den: u64 = (img_w as u64) * (aspect_num as u64);
        let num: u64 = (img_h as u64) * (width as u64) * (aspect_den as u64);
        (width, cap_dim_exec(num / den))
    } else {
        let (tw16, th16): (u16, u16) = match term {
            Some(t) => t,
            None => (100, 100),
        };
        let tw: u64 = tw16 as u64;
        let th: u64 = th16 as u64;
        let lhs: u64 = tw * (img_h as u64) * (aspect_den as u64);
        let rhs: u64 = (img_w as u64) * th * (aspect_num as u64);
        if lhs > rhs {
            let hh: u64 = if th >= 2 {
                th - 2
            } else {
                0
            };
            let num: u64 = (img_w as u64) * hh * (aspect_num as u64);
            let den: u64 = (img_h as u64) * (aspect_den as u64);
            (cap_dim_exec(num / den), hh as u32)
        } else {
            let num: u64 = (img_h as u64) * tw * (aspect_den as u64);
            let den: u64 = (img_w as u64) * (aspect_num as u64);
            (tw as u32, cap_dim_exec(num / den))
        }
    }
}

proof fn lemma_fit_products(img_w: int, img_h: int, anum: int, aden: int)
    requires
        1 <= img_w <= 0xFFFFFFFFu64,
        1 <= img_h <= 0xFFFFFFFFu64,
        1 <= anum <= 10000,
        1 <= aden <= 10000,
    ensures
        forall|k: int| 0 <= k <= 0xFFFF ==> 0 <= #[trigger] (img_h * k) <= 0xFFFFFFFFu64 * 0xFFFF,
        forall|k: int| 0 <= k <= 0xFFFF ==> 0 <= #[trigger] (img_w * k) <= 0xFFFFFFFFu64 * 0xFFFF,
        forall|k: int| 0 <= k <= 0xFFFF ==> 0 <= #[trigger] (k * img_h) <= 0xFFFFFFFFu64 * 0xFFFF,
        forall|k: int|
            0 <= k <= 0xFFFF ==> 0 <= #[trigger] ((img_h * k) * aden) <= 0xFFFFFFFFu64 * 0xFFFF
                * 10000,
        forall|k: int|
            0 <= k <= 0xFFFF ==> 0 <= #[trigger] ((img_w * k) * anum) <= 0xFFFFFFFFu64 * 0xFFFF
                * 10000,
        forall|k: int|
            0 <= k <= 0xFFFF ==> 0 <= #[trigger] ((k * img_h) * aden) <= 0xFFFFFFFFu64 * 0xFFFF
                * 10000,
        1 <= img_w * anum <= 0xFFFFFFFFu64 * 10000,
        1 <= img_h * aden <= 0xFFFFFFFFu64 * 10000,
{
    assert forall|k: int| 0 <= k <= 0xFFFF implies 0 <= #[trigger] (img_h * k) <= 0xFFFFFFFFu64
        * 0xFFFF && 0 <= (img_h * k) * aden <= 0xFFFFFFFFu64 * 0xFFFF * 10000 by {
        assert(0 <= img_h * k <= 0xFFFFFFFFu64 * 0xFFFF && 0 <= (img_h * k) * aden
            <= 0xFFFFFFFFu64 * 0xFFFF * 10000) by (nonlinear_arith)
            requires
                1 <= img_h <= 0xFFFFFFFFu64,
                0 <= k <= 0xFFFF,
                1 <= aden <= 10000,
        ;
    }
    assert forall|k: int| 0 <= k <= 0xFFFF implies 0 <= #[trigger] (img_w * k) <= 0xFFFFFFFFu64
        * 0xFFFF && 0 <= (img_w * k) * anum <= 0xFFFFFFFFu64 * 0xFFFF * 10000 by {
        assert(0 <= img_w * k <= 0xFFFFFFFFu64 * 0xFFFF && 0 <= (img_w * k) * anum
            <= 0xFFFFFFFFu64 * 0xFFFF * 10000) by (nonlinear_arith)
            requires
                1 <= img_w <= 0xFFFFFFFFu64,
                0 <= k <= 0xFFFF,
                1 <= anum <= 10000,
        ;
    }
    assert forall|k: int| 0 <= k <= 0xFFFF implies 0 <= #[trigger] (k * img_h) <= 0xFFFFFFFFu64
        * 0xFFFF && 0 <= (k * img_h) * aden <= 0xFFFFFFFFu64 * 0xFFFF * 10000 by {
        assert(0 <= k * img_h <= 0xFFFFFFFFu64 * 0xFFFF && 0 <= (k * img_h) * aden
            <= 0xFFFFFFFFu64 * 0xFFFF * 10000) by (nonlinear_arith)
            requires
                1 <= img_h <= 0xFFFFFFFFu64,
                0 <= k <= 0xFFFF,
                1 <= aden <= 10000,
        ;
    }
    assert(1 <= img_w * anum <= 0xFFFFFFFFu64 * 10000 && 1 <= img_h * aden <= 0xFFFFFFFFu64
        * 10000) by (nonlinear_arith)
        requires
            1 <= img_w <= 0xFFFFFFFFu64,
            1 <= img_h <= 0xFFFFFFFFu64,
            1 <= anum <= 10000,
            1 <= aden <= 10000,
    ;
}

// ---------------------------------------------------------------------------
// Normalization
// ---------------------------------------------------------------------------

impl Args {
    /// Builds the immutable render configuration from the raw options.
    /// Fails exactly when the mode string selects no mode (the
    /// configuration error). Truecolor output implies color output, and
    /// the pixel-block modes force it; the cell grid is resolved from
    /// the image shape, the requested width, the aspect ratio and the
    /// terminal size.
    pub fn normalize(
        mode_str: &Vec<char>,
        width: u32,
        aspect_num: u32,
        aspect_den: u32,
        colors: bool,
        truecolor: bool,
        background: bool,
        invert: bool,
        quality: bool,
        filter: bool,
        img_w: u32,
        img_h: u32,
        term: Option<(u16, u16)>,
    ) -> (r: Option<Args>)
        requires
            1 <= img_w,
            1 <= img_h,
            width <= 0xFFFF,
            1 <= aspect_num <= 10000,
            1 <= aspect_den <= 10000,
        ensures
            match r {
                Some(a) => {
                    &&& Some(a.mode) == spec_parse_mode(mode_str@)
                    &&& a.colors == (colors || truecolor || a.mode == Mode::Pixels || a.mode
                        == Mode::DoublePixels)
                    &&& a.truecolor == truecolor
                    &&& a.background == background
                    &&& a.invert == invert
                    &&& a.quality == quality
                    &&& a.filter == filter
                    &&& (a.width as int, a.height as int) == spec_fit_dimensions(
                        img_w as int,
                        img_h as int,
                        width as int,
                        aspect_num as int,
                        aspect_den as int,
                        term,
                    )
                    &&& a.wf()
                },
                None => spec_parse_mode(mode_str@) is None,
            },
    {
        let mode = match parse_mode(mode_str) {
            Some(m) => m,
            None => {
                return None;
            },
        };
        let colors = colors || truecolor || mode == Mode::Pixels || mode == Mode::DoublePixels;
        let (w, h) = fit_dimensions(img_w, img_h, width, aspect_num, aspect_den, term);
        Some(
            Args {
                mode,
                width: w,
                height: h,
                colors,
                truecolor,
                background,
                invert,
                quality,
                filter,
            },
        )
    }
}

} // verus!
