use vstd::prelude::*;

use crate::Rgba;
use crate::config::Args;

verus! {

// A cell luminance is carried as an exact fraction with the fixed
// denominator `LUM_ONE`: the value `l` stands for the real `l / LUM_ONE`
// in [0, 1]. `LUM_ONE` is 255000 * 255, so the BT.601 weighted sum of the
// channels times alpha needs no rounding at all.
pub const LUM_ONE: u32 = 65025000;

// Palette brightness entries are carried in ten-thousandths: an entry `b`
// stands for the real `b / 10000`.

/// The glyphs of the dense palette, darkest first.
pub open spec fn dense_chars() -> Seq<char> {
    seq![
        ' ', '`', '.', '-', '\'', ':', '_', ',', '^', '=', ';', '>', '<', '+', '!', 'r',
        'c', '*', '/', 'z', '?', 's', 'L', 'T', 'v', ')', 'J', '7', '(', '|', 'F', 'i',
        '{', 'C', '}', 'f', 'I', '3', '1', 't', 'l', 'u', '[', 'n', 'e', 'o', 'Z', '5',
        'Y', 'x', 'j', 'y', 'a', ']', '2', 'E', 'S', 'w', 'q', 'k', 'P', '6', 'h', '9',
        'd', '4', 'V', 'p', 'O', 'G', 'b', 'U', 'A', 'K', 'X', 'H', 'm', '8', 'R', 'D',
        '#', '$', 'B', 'g', '0', 'M', 'N', 'W', 'Q', '%', '&', '@',
    ]
}

/// The brightness of each dense-palette glyph, in ten-thousandths.
pub open spec fn dense_brightness() -> Seq<u32> {
    seq![
        0u32, 751, 829, 848, 1227, 1403, 1559, 1850, 2183, 2417, 2571, 2852,
        2902, 2919, 3099, 3192, 3232, 3294, 3384, 3609, 3619, 3667, 3737, 3747,
        3838, 3921, 3960, 3984, 3993, 4075, 4091, 4101, 4200, 4230, 4247, 4274,
        4293, 4328, 4382, 4385, 4420, 4473, 4477, 4503, 4562, 4580, 4610, 4638,
        4667, 4686, 4693, 4703, 4833, 4881, 4944, 4953, 4992, 5509, 5567, 5569,
        5591, 5602, 5602, 5650, 5776, 5777, 5818, 5870, 5972, 5999, 6043, 6049,
        6093, 6099, 6465, 6561, 6595, 6631, 6714, 6759, 6809, 6816, 6925, 7039,
        7086, 7235, 7302, 7332, 7602, 7834, 8037, 9999,
    ]
}

/// The glyphs of the sparse palette (symmetric characters only), darkest
/// first.
pub open spec fn sparse_chars() -> Seq<char> {
    seq![
        ' ', '.', '-', '\'', ':', ',', '^', '=', '+', 'T', '|', 'I', 'o', 'x', 'O', 'X',
        'H', '8', '0',
    ]
}

/// The brightness of each sparse-palette glyph, in ten-thousandths.
pub open spec fn sparse_brightness() -> Seq<u32> {
    seq![
        0u32, 1170, 1197, 1731, 1980, 2611, 3080, 3411, 4119, 5287, 5750, 6058,
        6463, 6612, 8427, 9123, 9258, 9357, 9999,
    ]
}

pub open spec fn palette_chars(dense: bool) -> Seq<char> {
    if dense {
        dense_chars()
    } else {
        sparse_chars()
    }
}

pub open spec fn palette_brightness(dense: bool) -> Seq<u32> {
    if dense {
        dense_brightness()
    } else {
        sparse_brightness()
    }
}

/// An ordered glyph-to-brightness table: as many glyphs as brightness
/// entries, at least one entry, brightness non-decreasing.
pub struct Palette {
    pub chars: Vec<char>,
    pub brightness: Vec<u32>,
}

impl Palette {
    pub open spec fn wf(&self) -> bool {
        &&& self.chars@.len() == self.brightness@.len()
        &&& self.brightness@.len() >= 1
        &&& forall|i: int, j: int|
            0 <= i <= j < self.brightness@.len() ==> self.brightness@[i] <= self.brightness@[j]
    }
}

proof fn lemma_adjacent_sorted(s: Seq<u32>, i: int, j: int)
    requires
        forall|k: int| 0 <= k < s.len() - 1 ==> #[trigger] s[k] <= s[k + 1],
        0 <= i <= j < s.len(),
    ensures
        s[i] <= s[j],
    decreases j - i,
{
    if i < j {
        lemma_adjacent_sorted(s, i + 1, j);
    }
}

/// Builds the sparse palette.
pub fn sparse() -> (p: Palette)
    ensures
        p.wf(),
        p.chars@ == sparse_chars(),
        p.brightness@ == sparse_brightness(),
{
    let chars: Vec<char> = vec![
        ' ', '.', '-', '\'', ':', ',', '^', '=', '+', 'T', '|', 'I', 'o', 'x', 'O', 'X',
        'H', '8', '0',
    ];
    let brightness: Vec<u32> = vec![
        0u32, 1170, 1197, 1731, 1980, 2611, 3080, 3411, 4119, 5287, 5750, 6058,
        6463, 6612, 8427, 9123, 9258, 9357, 9999,
    ];
    proof {
        assert(chars@ =~= sparse_chars());
        assert(brightness@ =~= sparse_brightness());
        let s = sparse_brightness();
        assert(forall|k: int| 0 <= k < s.len() - 1 ==> #[trigger] s[k] <= s[k + 1]);
        assert forall|i: int, j: int| 0 <= i <= j < s.len() implies s[i] <= s[j] by {
            lemma_adjacent_sorted(s, i, j);
        }
    }
    Palette { chars, brightness }
}

/// Builds the dense palette.
pub fn dense() -> (p: Palette)
    ensures
        p.wf(),
        p.chars@ == dense_chars(),
        p.brightness@ == dense_brightness(),
{
    let chars: Vec<char> = vec![
        ' ', '`', '.', '-', '\'', ':', '_', ',', '^', '=', ';', '>', '<', '+', '!', 'r',
        'c', '*', '/', 'z', '?', 's', 'L', 'T', 'v', ')', 'J', '7', '(', '|', 'F', 'i',
        '{', 'C', '}', 'f', 'I', '3', '1', 't', 'l', 'u', '[', 'n', 'e', 'o', 'Z', '5',
        'Y', 'x', 'j', 'y', 'a', ']', '2', 'E', 'S', 'w', 'q', 'k', 'P', '6', 'h', '9',
        'd', '4', 'V', 'p', 'O', 'G', 'b', 'U', 'A', 'K', 'X', 'H', 'm', '8', 'R', 'D',
        '#', '$', 'B', 'g', '0', 'M', 'N', 'W', 'Q', '%', '&', '@',
    ];
    let brightness: Vec<u32> = vec![
        0u32, 751, 829, 848, 1227, 1403, 1559, 1850, 2183, 2417, 2571, 2852,
        2902, 2919, 3099, 3192, 3232, 3294, 3384, 3609, 3619, 3667, 3737, 3747,
        3838, 3921, 3960, 3984, 3993, 4075, 4091, 4101, 4200, 4230, 4247, 4274,
        4293, 4328, 4382, 4385, 4420, 4473, 4477, 4503, 4562, 4580, 4610, 4638,
        4667, 4686, 4693, 4703, 4833, 4881, 4944, 4953, 4992, 5509, 5567, 5569,
        5591, 5602, 5602, 5650, 5776, 5777, 5818, 5870, 5972, 5999, 6043, 6049,
        6093, 6099, 6465, 6561, 6595, 6631, 6714, 6759, 6809, 6816, 6925, 7039,
        7086, 7235, 7302, 7332, 7602, 7834, 8037, 9999,
    ];
    proof {
        assert(chars@ =~= dense_chars());
        assert(brightness@ =~= dense_brightness());
        let s = dense_brightness();
        assert(forall|k: int| 0 <= k < s.len() - 1 ==> #[trigger] s[k] <= s[k + 1]);
        assert forall|i: int, j: int| 0 <= i <= j < s.len() implies s[i] <= s[j] by {
            lemma_adjacent_sorted(s, i, j);
        }
    }
    Palette { chars, brightness }
}

// ---------------------------------------------------------------------------
// Luminance
// ---------------------------------------------------------------------------

/// The luminance of a color, scaled by `LUM_ONE`: the BT.601 weighted sum
/// of the channels, premultiplied by alpha.
pub open spec fn spec_luminance(col: Rgba) -> int {
    (299 * col.r + 587 * col.g + 114 * col.b) * col.a
}

/// Returns the luminance of a color, scaled by `LUM_ONE`.
pub fn luminance(col: Rgba) -> (l: u32)
    ensures
        l as int == spec_luminance(col),
        l <= LUM_ONE,
{
    let w: u32 = 299 * (col.r as u32) + 587 * (col.g as u32) + 114 * (col.b as u32);
    proof {
        assert(w as int * col.a as int <= 255000 * 255) by (nonlinear_arith)
            requires
                0 <= w as int <= 255000,
                0 <= col.a as int <= 255,
        ;
        assert(w as int * col.a as int >= 0) by (nonlinear_arith)
            requires
                0 <= w as int,
                0 <= col.a as int,
        ;
    }
    w * (col.a as u32)
}

/// The contrast-stretched luminance `max(0, 1.1*l - 0.1)`, returned as a
/// numerator over the denominator `10 * LUM_ONE`.
pub open spec fn stretched(l: int) -> int {
    if 11 * l >= 65025000 {
        11 * l - 65025000
    } else {
        0
    }
}

// ---------------------------------------------------------------------------
// Palette lookup
// ---------------------------------------------------------------------------

// A brightness entry `b` (in ten-thousandths) is at least the stretched
// luminance numerator `n` (over 10 * LUM_ONE) exactly when
// `b * 65025 >= n`, since 10 * LUM_ONE == 10000 * 65025.

/// The first index at or after `i` whose brightness reaches `n`, or the
/// last index when none does.
pub open spec fn lb_from(b: Seq<u32>, n: int, i: int) -> int
    decreases b.len() - i,
{
    if i >= b.len() - 1 {
        b.len() - 1
    } else if b[i] * 65025 >= n {
        i
    } else {
        lb_from(b, n, i + 1)
    }
}

/// The palette index chosen for a stretched luminance numerator `n`: the
/// lowest index whose brightness is at least `n`, or the last index when
/// the palette tops out below `n`.
pub open spec fn glyph_index(b: Seq<u32>, n: int) -> int {
    lb_from(b, n, 0)
}

proof fn lemma_lb_from_ge(b: Seq<u32>, n: int, i: int)
    requires
        0 <= i < b.len(),
    ensures
        i <= lb_from(b, n, i) < b.len(),
    decreases b.len() - i,
{
    if i < b.len() - 1 && b[i] * 65025 < n {
        lemma_lb_from_ge(b, n, i + 1);
    }
}

proof fn lemma_lb_from_skip(b: Seq<u32>, n: int, i: int, k: int)
    requires
        0 <= i <= k < b.len(),
        forall|j: int| i <= j < k ==> #[trigger] (b[j] * 65025) < n,
        b[k] * 65025 >= n || k == b.len() - 1,
    ensures
        lb_from(b, n, i) == k,
    decreases k - i,
{
    if i < k {
        lemma_lb_from_skip(b, n, i + 1, k);
    }
}

/// Lower-bound binary search: the lowest index whose brightness reaches
/// `n`, or the last index when none does.
pub fn search_brightness(brightness: &Vec<u32>, n: u64) -> (idx: usize)
    requires
        brightness@.len() >= 1,
        forall|i: int, j: int|
            0 <= i <= j < brightness@.len() ==> brightness@[i] <= brightness@[j],
    ensures
        idx < brightness@.len(),
        idx as int == glyph_index(brightness@, n as int),
{
    let mut low: usize = 0;
    let mut high: usize = brightness.len() - 1;
    while low < high
        invariant
            0 <= low <= high < brightness@.len(),
            forall|i: int, j: int|
                0 <= i <= j < brightness@.len() ==> brightness@[i] <= brightness@[j],
            forall|i: int| 0 <= i < low ==> #[trigger] (brightness@[i] * 65025) < n,
            high == brightness@.len() - 1 || brightness@[high as int] * 65025 >= n,
        decreases high - low,
    {
        let mid = low + (high - low) / 2;
        if (brightness[mid] as u64) * 65025 < n {
            low = mid + 1;
        } else {
            high = mid;
        }
    }
    proof {
        lemma_lb_from_skip(brightness@, n as int, 0, low as int);
    }
    low
}

/// The glyph for a luminance `l` over `LUM_ONE`: the contrast stretch is
/// applied, and the palette entry with the smallest brightness at least
/// the stretched value is chosen (the brightest entry when the stretched
/// value is above the whole palette).
pub open spec fn spec_char_from_luminance(l: int, dense: bool) -> char {
    palette_chars(dense)[glyph_index(palette_brightness(dense), stretched(l))]
}

/// Returns the character that best represents the given luminance
/// (scaled by `LUM_ONE`), by lower-bound binary search over the palette
/// selected by `dense`.
pub fn char_from_luminance(luminance: u32, dense: bool) -> (c: char)
    ensures
        c == spec_char_from_luminance(luminance as int, dense),
{
    let p = if dense {
        crate::palette::dense()
    } else {
        crate::palette::sparse()
    };
    let scaled: u64 = 11 * (luminance as u64);
    let n: u64 = if scaled >= 65025000 {
        scaled - 65025000
    } else {
        0
    };
    let idx = search_brightness(&p.brightness, n);
    p.chars[idx]
}

/// The glyph for a color under a configuration: its luminance, inverted
/// when the invert flag is set, then the palette lookup (dense palette
/// exactly when the quality flag is set).
pub open spec fn spec_char_from_color(col: Rgba, args: Args) -> char {
    let l = spec_luminance(col);
    let l2 = if args.invert {
        LUM_ONE - l
    } else {
        l
    };
    spec_char_from_luminance(l2, args.quality)
}

/// Returns the character that best represents the given color's
/// luminance.
pub fn char_from_color(col: Rgba, args: &Args) -> (c: char)
    ensures
        c == spec_char_from_color(col, *args),
{
    let mut l = luminance(col);
    if args.invert {
        l = LUM_ONE - l;
    }
    char_from_luminance(l, args.quality)
}

// ---------------------------------------------------------------------------
// Laws
// ---------------------------------------------------------------------------

/// The chosen palette entry is the one with the smallest brightness at
/// least as bright as the stretched luminance, whenever some entry
/// reaches it: every earlier entry falls short of `n`, and the chosen one
/// does not.
pub proof fn lemma_glyph_is_smallest_at_least(b: Seq<u32>, n: int)
    requires
        b.len() >= 1,
        exists|i: int| 0 <= i < b.len() && #[trigger] (b[i] * 65025) >= n,
        forall|i: int, j: int| 0 <= i <= j < b.len() ==> b[i] <= b[j],
    ensures
        b[glyph_index(b, n)] * 65025 >= n,
        forall|i: int| 0 <= i < glyph_index(b, n) ==> #[trigger] (b[i] * 65025) < n,
{
    lemma_glyph_at_least_from(b, n, 0);
}

proof fn lemma_glyph_at_least_from(b: Seq<u32>, n: int, i: int)
    requires
        0 <= i < b.len(),
        exists|k: int| i <= k < b.len() && #[trigger] (b[k] * 65025) >= n,
    ensures
        b[lb_from(b, n, i)] * 65025 >= n,
        forall|k: int| i <= k < lb_from(b, n, i) ==> #[trigger] (b[k] * 65025) < n,
    decreases b.len() - i,
{
    if i >= b.len() - 1 {
    } else if b[i] * 65025 >= n {
    } else {
        lemma_glyph_at_least_from(b, n, i + 1);
    }
}

proof fn lemma_lb_from_monotone(b: Seq<u32>, n1: int, n2: int, i: int)
    requires
        0 <= i < b.len(),
        n1 <= n2,
    ensures
        lb_from(b, n1, i) <= lb_from(b, n2, i),
    decreases b.len() - i,
{
    if i >= b.len() - 1 {
    } else if b[i] * 65025 >= n2 {
        lemma_lb_from_ge(b, n1, i);
    } else if b[i] * 65025 >= n1 {
        lemma_lb_from_ge(b, n2, i + 1);
    } else {
        lemma_lb_from_monotone(b, n1, n2, i + 1);
    }
}

/// For a luminance whose stretched value the palette can reach, the
/// chosen glyph is the one with the smallest brightness at least the
/// contrast-stretched luminance: every earlier palette entry falls short
/// of it. (At the top of the range, where the stretch exceeds even the
/// brightest entry, the brightest entry is chosen instead.)
pub proof fn lemma_luminance_glyph_minimal(l: int, dense: bool)
    requires
        stretched(l) <= 9999 * 65025,
    ensures
        ({
            let b = palette_brightness(dense);
            let k = glyph_index(b, stretched(l));
            &&& b[k] * 65025 >= stretched(l)
            &&& forall|i: int| 0 <= i < k ==> #[trigger] (b[i] * 65025) < stretched(l)
        }),
{
    let b = palette_brightness(dense);
    if dense {
        assert(b[91] == 9999);
        assert(b[91] * 65025 >= stretched(l));
    } else {
        assert(b[18] == 9999);
        assert(b[18] * 65025 >= stretched(l));
    }
    lemma_glyph_is_smallest_at_least(b, stretched(l));
}

/// The glyph index is monotone in the luminance: a brighter cell never
/// selects an earlier (darker) palette entry.
pub proof fn lemma_glyph_monotone(l1: int, l2: int, dense: bool)
    requires
        l1 <= l2,
    ensures
        glyph_index(palette_brightness(dense), stretched(l1)) <= glyph_index(
            palette_brightness(dense),
            stretched(l2),
        ),
{
    let b = palette_brightness(dense);
    assert(b.len() >= 1);
    lemma_lb_from_monotone(b, stretched(l1), stretched(l2), 0);
}

} // verus!
