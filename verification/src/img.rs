use vstd::prelude::*;

use crate::Rgba;

verus! {

// ---------------------------------------------------------------------------
// Pixel grids
// ---------------------------------------------------------------------------

/// The RGBA pixel stored at cell (x, y) of a row-major byte grid of row
/// length `w`: four bytes per pixel, in r, g, b, a order.
pub open spec fn pixel_at(d: Seq<u8>, w: int, x: int, y: int) -> Rgba {
    let i = 4 * (y * w + x);
    Rgba { r: d[i], g: d[i + 1], b: d[i + 2], a: d[i + 3] }
}

/// An immutable 2D grid of RGBA pixels, four bytes per pixel, row-major.
pub struct Image {
    pub width: u32,
    pub height: u32,
    pub data: Vec<u8>,
}

/// A 2D grid of single-byte luminance samples, row-major.
pub struct Gray {
    pub width: u32,
    pub height: u32,
    pub data: Vec<u8>,
}

pub proof fn lemma_grid_index(x: int, y: int, w: int, h: int)
    requires
        0 <= x < w,
        0 <= y < h,
    ensures
        0 <= y * w + x < w * h,
{
    assert(y * w + x < w * h) by (nonlinear_arith)
        requires
            0 <= x < w,
            0 <= y < h,
    ;
    assert(y * w + x >= 0) by (nonlinear_arith)
        requires
            0 <= x,
            0 <= y,
            0 <= w,
    ;
}

impl Image {
    pub open spec fn wf(&self) -> bool {
        self.data@.len() == 4 * (self.width as int) * (self.height as int)
    }

    pub open spec fn spec_pixel(&self, x: int, y: int) -> Rgba {
        pixel_at(self.data@, self.width as int, x, y)
    }

    /// Builds an image from raw RGBA bytes; refused unless the byte count
    /// matches the dimensions exactly.
    pub fn from_raw(width: u32, height: u32, data: Vec<u8>) -> (r: Option<Image>)
        ensures
            match r {
                Some(img) => {
                    &&& img.wf()
                    &&& img.width == width
                    &&& img.height == height
                    &&& img.data@ == data@
                    &&& data@.len() == 4 * (width as int) * (height as int)
                },
                None => data@.len() != 4 * (width as int) * (height as int),
            },
    {
        proof {
            assert(0 <= (width as int) * (height as int) <= 0xFFFFFFFFu64 * 0xFFFFFFFFu64)
                by (nonlinear_arith)
                requires
                    0 <= width as int <= 0xFFFFFFFFu64,
                    0 <= height as int <= 0xFFFFFFFFu64,
            ;
            assert(4 * ((width as int) * (height as int)) == 4 * (width as int) * (height as int))
                by (nonlinear_arith);
        }
        let wh: u64 = (width as u64) * (height as u64);
        let len = data.len();
        if wh <= u64::MAX / 4 {
            if len as u64 == 4 * wh {
                Some(Image { width, height, data })
            } else {
                None
            }
        } else {
            // Four bytes per pixel would overflow even a u64, so no byte
            // vector this process can hold has the matching length.
            None
        }
    }

    /// Reads the pixel at (x, y).
    pub fn pixel(&self, x: u32, y: u32) -> (p: Rgba)
        requires
            self.wf(),
            x < self.width,
            y < self.height,
        ensures
            p == self.spec_pixel(x as int, y as int),
    {
        let len = self.data.len();
        proof {
            lemma_grid_index(x as int, y as int, self.width as int, self.height as int);
            assert(4 * ((y as int) * (self.width as int) + (x as int)) + 3 < len as int)
                by (nonlinear_arith)
                requires
                    (y as int) * (self.width as int) + (x as int) < (self.width as int) * (
                    self.height as int),
                    len as int == 4 * (self.width as int) * (self.height as int),
            ;
            assert(0 <= (y as int) * (self.width as int)) by (nonlinear_arith)
                requires
                    0 <= y as int,
                    0 <= self.width as int,
            ;
        }
        let i: usize = 4 * ((y as usize) * (self.width as usize) + (x as usize));
        Rgba { r: self.data[i], g: self.data[i + 1], b: self.data[i + 2], a: self.data[i + 3] }
    }
}

impl Gray {
    pub open spec fn wf(&self) -> bool {
        self.data@.len() == (self.width as int) * (self.height as int)
    }

    pub open spec fn spec_sample(&self, x: int, y: int) -> u8 {
        self.data@[y * (self.width as int) + x]
    }

    /// Reads the luminance sample at (x, y).
    pub fn sample(&self, x: u32, y: u32) -> (v: u8)
        requires
            self.wf(),
            x < self.width,
            y < self.height,
        ensures
            v == self.spec_sample(x as int, y as int),
    {
        let len = self.data.len();
        proof {
            lemma_grid_index(x as int, y as int, self.width as int, self.height as int);
            assert(0 <= (y as int) * (self.width as int)) by (nonlinear_arith)
                requires
                    0 <= y as int,
                    0 <= self.width as int,
            ;
        }
        let i: usize = (y as usize) * (self.width as usize) + (x as usize);
        self.data[i]
    }
}

// ---------------------------------------------------------------------------
// Grayscale conversion
// ---------------------------------------------------------------------------

/// The luminance byte of one RGBA pixel: the CIE-weighted channel sum in
/// ten-thousandths, divided down to 0..=255. Alpha is ignored.
pub open spec fn luma_px(r: u8, g: u8, b: u8) -> int {
    (2126 * r + 7152 * g + 722 * b) / 10000
}

/// The grayscale translation of a whole RGBA byte grid: one luminance
/// byte per four-byte pixel.
pub open spec fn luma_seq(d: Seq<u8>) -> Seq<u8> {
    Seq::new((d.len() / 4) as nat, |i: int| luma_px(d[4 * i], d[4 * i + 1], d[4 * i + 2]) as u8)
}

/// Converts an image to grayscale, one luminance byte per pixel.
pub fn to_luma(img: &Image) -> (g: Gray)
    requires
        img.wf(),
    ensures
        g.wf(),
        g.width == img.width,
        g.height == img.height,
        g.data@.len() == (img.width as int) * (img.height as int),
        g.data@ == luma_seq(img.data@),
        forall|i: int|
            0 <= i < g.data@.len() ==> g.data@[i] as int == luma_px(
                img.data@[4 * i],
                img.data@[4 * i + 1],
                img.data@[4 * i + 2],
            ),
{
    let len: usize = img.data.len();
    let n: usize = len / 4;
    proof {
        assert(0 <= (img.width as int) * (img.height as int)) by (nonlinear_arith)
            requires
                0 <= img.width as int,
                0 <= img.height as int,
        ;
        assert((4 * ((img.width as int) * (img.height as int))) / 4 == (img.width as int) * (
        img.height as int));
        assert(4 * (img.width as int) * (img.height as int) == 4 * ((img.width as int) * (
        img.height as int))) by (nonlinear_arith);
    }
    let mut out: Vec<u8> = Vec::new();
    let mut i: usize = 0;
    while i < n
        invariant
            n as int == (img.width as int) * (img.height as int),
            img.data@.len() == 4 * (n as int),
            img.data@.len() == len,
            i <= n,
            out@.len() == i,
            forall|k: int|
                0 <= k < i ==> out@[k] as int == luma_px(
                    img.data@[4 * k],
                    img.data@[4 * k + 1],
                    img.data@[4 * k + 2],
                ),
        decreases n - i,
    {
        let r = img.data[4 * i];
        let g = img.data[4 * i + 1];
        let b = img.data[4 * i + 2];
        let v: u32 = (2126 * (r as u32) + 7152 * (g as u32) + 722 * (b as u32)) / 10000;
        out.push(v as u8);
        i = i + 1;
    }
    proof {
        assert(out@ =~= luma_seq(img.data@));
    }
    Gray { width: img.width, height: img.height, data: out }
}

// ---------------------------------------------------------------------------
// Resampling (trusted)
// ---------------------------------------------------------------------------

/// The RGBA bytes of the resampled image: what `image::imageops::resize`
/// returns for a `w` x `h` source scaled to `nw` x `nh`, with the
/// triangular filter when `triangle` is set and nearest-neighbour
/// otherwise. The result depends on the arguments alone.
pub uninterp spec fn resized(data: Seq<u8>, w: int, h: int, nw: int, nh: int, triangle: bool) -> Seq<u8>;

/// Relies on image::imageops::resize: the returned buffer has exactly the
/// requested dimensions (four bytes per pixel), the resampling is a
/// deterministic function of the source pixels, the dimensions and the
/// filter, and a resample to the source's own dimensions is a plain copy.
#[verifier::external_body]
fn resize_raw(data: &Vec<u8>, w: u32, h: u32, nw: u32, nh: u32, triangle: bool) -> (r: Vec<u8>)
    requires
        data@.len() == 4 * (w as int) * (h as int),
        1 <= w,
        1 <= h,
        1 <= nw,
        1 <= nh,
        (nw as int) * (nh as int) <= 0x1FFFFFFF,
    ensures
        r@ == resized(data@, w as int, h as int, nw as int, nh as int, triangle),
        r@.len() == 4 * (nw as int) * (nh as int),
        nw == w && nh == h ==> r@ == data@,
{
    let buf = image::RgbaImage::from_raw(w, h, data.clone()).unwrap();
    let filter = if triangle {
        image::imageops::FilterType::Triangle
    } else {
        image::imageops::FilterType::Nearest
    };
    image::imageops::resize(&buf, nw, nh, filter).into_raw()
}

/// Resamples an image to exactly `nw` x `nh` cells, with the triangular
/// filter when `triangle` is set and nearest-neighbour otherwise.
pub fn resize(img: &Image, nw: u32, nh: u32, triangle: bool) -> (r: Image)
    requires
        img.wf(),
        1 <= img.width,
        1 <= img.height,
        1 <= nw,
        1 <= nh,
        (nw as int) * (nh as int) <= 0x1FFFFFFF,
    ensures
        r.wf(),
        r.width == nw,
        r.height == nh,
        r.data@ == resized(
            img.data@,
            img.width as int,
            img.height as int,
            nw as int,
            nh as int,
            triangle,
        ),
        nw == img.width && nh == img.height ==> r.data@ == img.data@,
{
    let data = resize_raw(&img.data, img.width, img.height, nw, nh, triangle);
    Image { width: nw, height: nh, data }
}

// ---------------------------------------------------------------------------
// Dithering (trusted)
// ---------------------------------------------------------------------------

/// The grayscale grid after two-level error-diffusion dithering: what
/// `image::imageops::dither` with the `BiLevel` map leaves in a `w` x `h`
/// luminance buffer. The result depends on the arguments alone.
pub uninterp spec fn dithered(data: Seq<u8>, w: int, h: int) -> Seq<u8>;

/// Relies on image::imageops::dither with image::imageops::BiLevel: the
/// buffer keeps its dimensions, every sample ends up mapped through the
/// two-color map (0 or 255), and the diffusion is a deterministic
/// function of the buffer and its dimensions. The width must be at least
/// two: the diffusion addresses the right-hand neighbour of the first
/// column unconditionally.
#[verifier::external_body]
fn dither_raw(data: Vec<u8>, w: u32, h: u32) -> (r: Vec<u8>)
    requires
        data@.len() == (w as int) * (h as int),
        2 <= w,
        1 <= h,
    ensures
        r@ == dithered(data@, w as int, h as int),
        r@.len() == (w as int) * (h as int),
        forall|i: int| 0 <= i < r@.len() ==> r@[i] == 0 || r@[i] == 255,
{
    let mut buf = image::GrayImage::from_raw(w, h, data).unwrap();
    image::imageops::dither(&mut buf, &image::imageops::colorops::BiLevel);
    buf.into_raw()
}

/// Dithers a grayscale grid down to the two levels 0 and 255.
pub fn dither(gray: Gray) -> (r: Gray)
    requires
        gray.wf(),
        2 <= gray.width,
        1 <= gray.height,
    ensures
        r.wf(),
        r.width == gray.width,
        r.height == gray.height,
        r.data@ == dithered(gray.data@, gray.width as int, gray.height as int),
        forall|i: int| 0 <= i < r.data@.len() ==> r.data@[i] == 0 || r.data@[i] == 255,
{
    let w = gray.width;
    let h = gray.height;
    let data = dither_raw(gray.data, w, h);
    Gray { width: w, height: h, data }
}

} // verus!
