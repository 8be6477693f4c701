use vstd::prelude::*;

use crate::img::{pixel_at, Image};

verus! {

// ---------------------------------------------------------------------------
// Frames
// ---------------------------------------------------------------------------

/// One frame of an animated source: its image, its display delay as the
/// fraction `delay_num / delay_den` milliseconds, and its compositing
/// offset on the shared canvas.
pub struct GifFrame {
    pub image: Image,
    pub delay_num: u32,
    pub delay_den: u32,
    pub left: u32,
    pub top: u32,
}

impl GifFrame {
    /// The frame delay in whole milliseconds.
    pub fn dalay_as_duration(&self) -> (ms: u64)
        requires
            self.delay_den > 0,
        ensures
            ms as int == self.delay_num as int / self.delay_den as int,
    {
        (self.delay_num / self.delay_den) as u64
    }
}

/// A decoded source: one still image, or a cyclic frame sequence with its
/// overall canvas dimensions.
pub enum ImageFile {
    Image(Image),
    Gif(Vec<GifFrame>, (u32, u32)),
}

impl ImageFile {
    /// The pixel dimensions of the source: the image's own, or the frame
    /// sequence's overall canvas.
    pub fn dimensions(&self) -> (r: (u32, u32))
        ensures
            match self {
                ImageFile::Image(img) => r.0 == img.width && r.1 == img.height,
                ImageFile::Gif(_, dims) => r == *dims,
            },
    {
        match self {
            ImageFile::Image(image) => (image.width, image.height),
            ImageFile::Gif(_, dims) => *dims,
        }
    }
}

// ---------------------------------------------------------------------------
// Compositing
// ---------------------------------------------------------------------------

/// Overlays a frame onto the persistent canvas: inside the frame's
/// rectangle at (left, top) the frame's pixels replace the canvas's,
/// outside it the canvas keeps its pixels.
pub fn composite(canvas: &Image, frame: &Image, left: u32, top: u32) -> (r: Image)
    requires
        canvas.wf(),
        frame.wf(),
        left as int + frame.width as int <= canvas.width as int,
        top as int + frame.height as int <= canvas.height as int,
    ensures
        r.wf(),
        r.width == canvas.width,
        r.height == canvas.height,
        forall|x: int, y: int|
            0 <= x < canvas.width as int && 0 <= y < canvas.height as int
                ==> #[trigger] r.spec_pixel(x, y) == (if left <= x < left + frame.width && top <= y
                < top + frame.height {
                frame.spec_pixel(x - left, y - top)
            } else {
                canvas.spec_pixel(x, y)
            }),
{
    let w = canvas.width;
    let h = canvas.height;
    let ghost wi = w as int;
    let mut data: Vec<u8> = Vec::new();
    let mut y: u32 = 0;
    while y < h
        invariant
            canvas.wf(),
            frame.wf(),
            left as int + frame.width as int <= canvas.width as int,
            top as int + frame.height as int <= canvas.height as int,
            w == canvas.width,
            h == canvas.height,
            wi == w as int,
            y <= h,
            data@.len() == 4 * ((y as int) * wi),
            forall|x2: int, y2: int|
                0 <= x2 < wi && 0 <= y2 < y ==> #[trigger] pixel_at(data@, wi, x2, y2) == (if left
                    <= x2 < left + frame.width && top <= y2 < top + frame.height {
                    frame.spec_pixel(x2 - left, y2 - top)
                } else {
                    canvas.spec_pixel(x2, y2)
                }),
        decreases h - y,
    {
        let mut x: u32 = 0;
        while x < w
            invariant
                canvas.wf(),
                frame.wf(),
                left as int + frame.width as int <= canvas.width as int,
                top as int + frame.height as int <= canvas.height as int,
                w == canvas.width,
                h == canvas.height,
                wi == w as int,
                y < h,
                x <= w,
                data@.len() == 4 * ((y as int) * wi + x as int),
                forall|x2: int, y2: int|
                    0 <= x2 < wi && 0 <= y2 < y ==> #[trigger] pixel_at(data@, wi, x2, y2) == (if
                        left <= x2 < left + frame.width && top <= y2 < top + frame.height {
                        frame.spec_pixel(x2 - left, y2 - top)
                    } else {
                        canvas.spec_pixel(x2, y2)
                    }),
                forall|x2: int|
                    0 <= x2 < x ==> #[trigger] pixel_at(data@, wi, x2, y as int) == (if left <= x2
                        < left + frame.width && top <= y as int && (y as int) < top + frame.height {
                        frame.spec_pixel(x2 - left, y as int - top)
                    } else {
                        canvas.spec_pixel(x2, y as int)
                    }),
            decreases w - x,
        {
            let px = if left <= x && x < left + frame.width && top <= y && y < top + frame.height {
                frame.pixel(x - left, y - top)
            } else {
                canvas.pixel(x, y)
            };
            let ghost prev = data@;
            data.push(px.r);
            data.push(px.g);
            data.push(px.b);
            data.push(px.a);
            proof {
                assert forall|x2: int, y2: int|
                    0 <= x2 < wi && 0 <= y2 < y implies #[trigger] pixel_at(data@, wi, x2, y2)
                    == pixel_at(prev, wi, x2, y2) by {
                    assert(4 * (y2 * wi + x2) + 3 < 4 * ((y as int) * wi)) by (nonlinear_arith)
                        requires
                            0 <= x2 < wi,
                            0 <= y2 <= (y as int) - 1,
                    ;
                }
                assert forall|x2: int|
                    0 <= x2 < x as int + 1 implies #[trigger] pixel_at(data@, wi, x2, y as int)
                    == (if left <= x2 < left + frame.width && top <= y as int && (y as int) < top + frame.height {
                    frame.spec_pixel(x2 - left, y as int - top)
                } else {
                    canvas.spec_pixel(x2, y as int)
                }) by {
                    if x2 < x as int {
                        assert(pixel_at(data@, wi, x2, y as int) == pixel_at(prev, wi, x2, y as int));
                    } else {
                        assert(pixel_at(data@, wi, x2, y as int) == px);
                    }
                }
            }
            x = x + 1;
        }
        proof {
            assert(4 * ((y as int) * wi + wi) == 4 * ((y as int + 1) * wi)) by (nonlinear_arith);
        }
        y = y + 1;
    }
    proof {
        assert(4 * ((h as int) * wi) == 4 * wi * (h as int)) by (nonlinear_arith);
    }
    Image { width: w, height: h, data }
}

// ---------------------------------------------------------------------------
// Pacing
// ---------------------------------------------------------------------------

/// The frame index shown after one more iteration.
pub open spec fn next_index(i: int, n: int) -> int {
    (i + 1) % n
}

/// The residual sleep before a frame is rendered: the declared delay
/// less the time already spent, and never negative.
pub open spec fn residual_sleep(delay: int, elapsed: int) -> int {
    if elapsed < delay {
        delay - elapsed
    } else {
        0
    }
}

/// The frame index shown at iteration `k` of a cyclic sequence of `n`
/// frames, starting from frame 0.
pub open spec fn index_after(k: int, n: int) -> int
    decreases k,
{
    if k <= 0 {
        0
    } else {
        next_index(index_after(k - 1, n), n)
    }
}

/// One render command of the scheduler: sleep `sleep_ms`, then render
/// frame `frame`.
#[derive(Clone, Copy, PartialEq, Eq, Structural, Debug)]
pub struct FrameCommand {
    pub frame: usize,
    pub sleep_ms: u64,
}

/// The decision state of the frame scheduler: the pacing loop feeds it
/// the observed cancellation flag and the elapsed render time, and it
/// answers with the next command. The outside work (sleeping, drawing,
/// observing the flag) stays with the caller.
pub struct Animator {
    pub frame_count: usize,
    pub index: usize,
}

impl Animator {
    pub open spec fn wf(&self) -> bool {
        &&& self.frame_count >= 1
        &&& self.index < self.frame_count
    }

    /// Starts a schedule over `frame_count` frames; refused when there
    /// are none.
    pub fn new(frame_count: usize) -> (r: Option<Animator>)
        ensures
            match r {
                Some(a) => a.wf() && a.frame_count == frame_count && a.index == 0,
                None => frame_count == 0,
            },
    {
        if frame_count == 0 {
            None
        } else {
            Some(Animator { frame_count, index: 0 })
        }
    }

    /// One scheduling decision. A cancellation observed at the iteration
    /// boundary stops the schedule and leaves it unchanged; otherwise the
    /// current frame is rendered after the residual sleep, and the index
    /// advances cyclically.
    pub fn step(&mut self, cancelled: bool, delay_ms: u64, elapsed_ms: u64) -> (r: Option<
        FrameCommand,
    >)
        requires
            old(self).wf(),
        ensures
            final(self).wf(),
            final(self).frame_count == old(self).frame_count,
            cancelled ==> r is None && final(self).index == old(self).index,
            !cancelled ==> match r {
                Some(cmd) => {
                    &&& cmd.frame == old(self).index
                    &&& cmd.sleep_ms as int == residual_sleep(delay_ms as int, elapsed_ms as int)
                    &&& final(self).index as int == next_index(
                        old(self).index as int,
                        old(self).frame_count as int,
                    )
                },
                None => false,
            },
    {
        if cancelled {
            return None;
        }
        let sleep_ms: u64 = if elapsed_ms < delay_ms {
            delay_ms - elapsed_ms
        } else {
            0
        };
        let frame = self.index;
        self.index = (self.index + 1) % self.frame_count;
        Some(FrameCommand { frame, sleep_ms })
    }
}

// ---------------------------------------------------------------------------
// Laws
// ---------------------------------------------------------------------------

/// Frames are shown strictly in cyclic order: iteration `k` of an
/// uncancelled schedule over `n` frames shows frame `k mod n`.
pub proof fn lemma_cyclic_order(k: int, n: int)
    requires
        0 <= k,
        1 <= n,
    ensures
        index_after(k, n) == k % n,
    decreases k,
{
    if k == 0 {
        assert(0int % n == 0) by (nonlinear_arith)
            requires
                1 <= n,
        ;
    } else {
        lemma_cyclic_order(k - 1, n);
        assert((k % n + 1) % n == k % n + 1 || (k % n + 1) % n == 0) by (nonlinear_arith)
            requires
                1 <= n,
        ;
        assert(((k - 1) % n + 1) % n == k % n) by (nonlinear_arith)
            requires
                1 <= n,
                0 <= k - 1,
        ;
    }
}

/// The residual sleep is never negative and never shorter than the
/// declared delay less the measured render time.
pub proof fn lemma_residual_sleep_bounds(delay: int, elapsed: int)
    ensures
        residual_sleep(delay, elapsed) >= 0,
        residual_sleep(delay, elapsed) >= delay - elapsed,
{
}

/// A two-frame sequence with delays 100 and 50 and no cancellation shows
/// frames in the order 0, 1, 0, 1 over two cycles, and each inter-render
/// sleep is at least the declared delay less the render time, never
/// negative.
pub proof fn lemma_two_frame_schedule(e0: int, e1: int, e2: int, e3: int)
    ensures
        index_after(0, 2) == 0,
        index_after(1, 2) == 1,
        index_after(2, 2) == 0,
        index_after(3, 2) == 1,
        residual_sleep(100, e0) >= 100 - e0 && residual_sleep(100, e0) >= 0,
        residual_sleep(50, e1) >= 50 - e1 && residual_sleep(50, e1) >= 0,
        residual_sleep(100, e2) >= 100 - e2 && residual_sleep(100, e2) >= 0,
        residual_sleep(50, e3) >= 50 - e3 && residual_sleep(50, e3) >= 0,
{
    lemma_cyclic_order(0, 2);
    lemma_cyclic_order(1, 2);
    lemma_cyclic_order(2, 2);
    lemma_cyclic_order(3, 2);
    assert(0int % 2 == 0 && 1int % 2 == 1 && 2int % 2 == 0 && 3int % 2 == 1) by (nonlinear_arith);
}

} // verus!
