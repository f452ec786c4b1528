//! The render engine: a frame owns the viewport and the colour buffer, maps
//! every pixel to a plane point, classifies it, and writes white for points
//! that escape and black for points that stay bounded. The per-pixel work is
//! independent, so the buffer may be filled in parallel; sequential and
//! parallel fills are pinned to the same per-pixel specification.
use vstd::prelude::*;
use vstd::arithmetic::div_mod::lemma_multiply_divide_lt;
use rayon::iter::{IndexedParallelIterator, IntoParallelRefMutIterator, ParallelIterator};
use crate::colour::{HdrColour, colour_wf, white, black, display_colour_spec, hdr_to_display_colour, CHANNEL_ONE};
use crate::escape::{EscapeResult, escape_time_spec, compute_escape_time};
use crate::fixed::SCALE;
use crate::mapping::{point_re, point_im, pixel_to_point, DIM_LIMIT};
use crate::viewport::{Point, Viewport, default_viewport, COORD_LIMIT};

verus! {

/// The colour a render writes at buffer index `idx`: white where the mapped
/// plane point escapes, black where it stays bounded.
pub open spec fn pixel_colour_spec(v: Viewport, w: u32, h: u32, idx: int) -> HdrColour {
    let x = idx % (w as int);
    let y = idx / (w as int);
    let re = point_re(x * (SCALE as int), w, h, v);
    let im = point_im(y * (SCALE as int), w, h, v);
    if escape_time_spec(re, im) is Escaped {
        white()
    } else {
        black()
    }
}

/// Both classification colours lie in the nominal channel range.
pub proof fn lemma_pixel_colour_wf(v: Viewport, w: u32, h: u32, idx: int)
    ensures
        colour_wf(pixel_colour_spec(v, w, h, idx)),
{
}

/// The render state: the viewport, the buffer dimensions, and one colour per
/// pixel in row-major order.
pub struct Frame {
    pub viewport: Viewport,
    pub width: u32,
    pub height: u32,
    pub buffer: Vec<HdrColour>,
}

/// Colour of the pixel at row-major index `index` for the given viewport and
/// buffer dimensions.
fn pixel_colour(index: usize, width: u32, height: u32, viewport: &Viewport) -> (c: HdrColour)
    requires
        viewport.wf(),
        viewport.bounded(),
        0 < width <= DIM_LIMIT,
        0 < height <= DIM_LIMIT,
        index < (width as int) * (height as int),
    ensures
        c == pixel_colour_spec(*viewport, width, height, index as int),
{
    let w: usize = width as usize;
    proof {
        lemma_multiply_divide_lt(index as int, w as int, height as int);
    }
    let x: u32 = (index % w) as u32;
    let y: u32 = (index / w) as u32;
    let xf: i64 = (x as i64) * SCALE;
    let yf: i64 = (y as i64) * SCALE;
    let p: Point = pixel_to_point(xf, yf, width, height, viewport);
    match compute_escape_time(p) {
        EscapeResult::Escaped(_) => HdrColour {
            red: CHANNEL_ONE,
            green: CHANNEL_ONE,
            blue: CHANNEL_ONE,
        },
        EscapeResult::Bounded => HdrColour { red: 0, green: 0, blue: 0 },
    }
}

/// A buffer of `width * height` black pixels.
fn black_buffer(width: u32, height: u32) -> (b: Vec<HdrColour>)
    requires
        width <= DIM_LIMIT,
        height <= DIM_LIMIT,
    ensures
        b@.len() == (width as int) * (height as int),
        forall|i: int| 0 <= i < b@.len() ==> b@[i] == black(),
{
    proof {
        assert((width as int) * (height as int) <= 0xffff_ffff) by (nonlinear_arith)
            requires
                width <= DIM_LIMIT,
                height <= DIM_LIMIT,
                DIM_LIMIT == 65_535u32,
        ;
    }
    let n: usize = (width as usize) * (height as usize);
    let mut b: Vec<HdrColour> = Vec::new();
    while b.len() < n
        invariant
            b@.len() <= n,
            forall|i: int| 0 <= i < b@.len() ==> b@[i] == black(),
        decreases n - b@.len(),
    {
        b.push(HdrColour { red: 0, green: 0, blue: 0 });
    }
    b
}

/// Fill every slot of the buffer with its render colour, in parallel.
///
/// Relies on rayon's `par_iter_mut`, `enumerate` and `for_each`: together
/// they run the closure exactly once for each slot of the buffer, handing it
/// the slot's index, with each task the exclusive owner of its slot; the
/// closure stores the verified per-pixel colour and nothing else.
#[verifier::external_body]
fn fill_parallel(buffer: &mut Vec<HdrColour>, viewport: &Viewport, width: u32, height: u32)
    requires
        viewport.wf(),
        viewport.bounded(),
        0 < width <= DIM_LIMIT,
        0 < height <= DIM_LIMIT,
        old(buffer)@.len() == (width as int) * (height as int),
    ensures
        final(buffer)@.len() == old(buffer)@.len(),
        forall|i: int|
            0 <= i < final(buffer)@.len() ==> final(buffer)@[i] == pixel_colour_spec(
                *viewport,
                width,
                height,
                i,
            ),
{
    let v: Viewport = *viewport;
    buffer.par_iter_mut().enumerate().for_each(|(index, slot)| {
        *slot = pixel_colour(index, width, height, &v);
    });
}

impl Frame {
    /// The structural invariant: positive bounded dimensions, a buffer of
    /// exactly one colour per pixel, every colour within range, and a
    /// viewport whose coordinates the transforms accept.
    pub open spec fn wf(self) -> bool {
        &&& self.viewport.wf()
        &&& self.viewport.bounded()
        &&& 0 < self.width <= DIM_LIMIT
        &&& 0 < self.height <= DIM_LIMIT
        &&& self.buffer@.len() == (self.width as int) * (self.height as int)
        &&& forall|i: int| 0 <= i < self.buffer@.len() ==> colour_wf(#[trigger] self.buffer@[i])
    }

    /// A frame is born with the default viewport and an all-black buffer.
    pub fn new(width: u32, height: u32) -> (f: Frame)
        requires
            0 < width <= DIM_LIMIT,
            0 < height <= DIM_LIMIT,
        ensures
            f.wf(),
            f.viewport == default_viewport(),
            f.width == width,
            f.height == height,
            forall|i: int| 0 <= i < f.buffer@.len() ==> f.buffer@[i] == black(),
    {
        Frame { viewport: Viewport::default(), width, height, buffer: black_buffer(width, height) }
    }

    /// The default frame: the default viewport over a 1600 by 900 buffer.
    pub fn default() -> (f: Frame)
        ensures
            f.wf(),
            f.viewport == default_viewport(),
            f.width == 1600,
            f.height == 900,
            forall|i: int| 0 <= i < f.buffer@.len() ==> f.buffer@[i] == black(),
    {
        Frame::new(1600, 900)
    }

    /// Reallocate the buffer for the new dimensions. Prior contents are
    /// discarded, never resampled: the new buffer is entirely black.
    pub fn change_window_size(&mut self, width: u32, height: u32)
        requires
            old(self).viewport.wf(),
            old(self).viewport.bounded(),
            0 < width <= DIM_LIMIT,
            0 < height <= DIM_LIMIT,
        ensures
            final(self).wf(),
            final(self).viewport == old(self).viewport,
            final(self).width == width,
            final(self).height == height,
            forall|i: int|
                0 <= i < final(self).buffer@.len() ==> final(self).buffer@[i] == black(),
    {
        self.width = width;
        self.height = height;
        self.buffer = black_buffer(width, height);
    }

    /// Replace the viewport with the default one; dimensions and buffer stay.
    pub fn reset_viewport(&mut self)
        ensures
            final(self).viewport == default_viewport(),
            final(self).width == old(self).width,
            final(self).height == old(self).height,
            final(self).buffer == old(self).buffer,
    {
        self.viewport = Viewport::default();
    }

    /// Translate a raw cursor position in (fixed-point) buffer-pixel
    /// coordinates to the plane point it hovers over.
    pub fn point_from_pixel(&self, x: i64, y: i64) -> (p: Point)
        requires
            self.wf(),
            -COORD_LIMIT <= x <= COORD_LIMIT,
            -COORD_LIMIT <= y <= COORD_LIMIT,
        ensures
            p.re == point_re(x as int, self.width, self.height, self.viewport),
            p.im == point_im(y as int, self.width, self.height, self.viewport),
    {
        pixel_to_point(x, y, self.width, self.height, &self.viewport)
    }

    /// Recompute every pixel of the buffer for the current viewport and
    /// dimensions, fanning the independent per-pixel work out across cores.
    pub fn render(&mut self)
        requires
            old(self).wf(),
        ensures
            final(self).wf(),
            final(self).viewport == old(self).viewport,
            final(self).width == old(self).width,
            final(self).height == old(self).height,
            forall|i: int|
                0 <= i < final(self).buffer@.len() ==> final(self).buffer@[i]
                    == pixel_colour_spec(
                    old(self).viewport,
                    old(self).width,
                    old(self).height,
                    i,
                ),
    {
        let width: u32 = self.width;
        let height: u32 = self.height;
        fill_parallel(&mut self.buffer, &self.viewport, width, height);
        proof {
            assert forall|i: int| 0 <= i < self.buffer@.len() implies colour_wf(
                #[trigger] self.buffer@[i],
            ) by {
                lemma_pixel_colour_wf(self.viewport, width, height, i);
            }
        }
    }

    /// Recompute every pixel of the buffer, one after the other. The result
    /// is pinned to the same per-pixel specification as `render`, so the two
    /// fills are interchangeable.
    pub fn render_sequential(&mut self)
        requires
            old(self).wf(),
        ensures
            final(self).wf(),
            final(self).viewport == old(self).viewport,
            final(self).width == old(self).width,
            final(self).height == old(self).height,
            forall|i: int|
                0 <= i < final(self).buffer@.len() ==> final(self).buffer@[i]
                    == pixel_colour_spec(
                    old(self).viewport,
                    old(self).width,
                    old(self).height,
                    i,
                ),
    {
        let n: usize = self.buffer.len();
        let mut fresh: Vec<HdrColour> = Vec::new();
        while fresh.len() < n
            invariant
                self == old(self),
                old(self).wf(),
                n == self.buffer@.len(),
                fresh@.len() <= n,
                forall|i: int|
                    0 <= i < fresh@.len() ==> fresh@[i] == pixel_colour_spec(
                        self.viewport,
                        self.width,
                        self.height,
                        i,
                    ),
            decreases n - fresh@.len(),
        {
            fresh.push(pixel_colour(fresh.len(), self.width, self.height, &self.viewport));
        }
        self.buffer = fresh;
        proof {
            assert forall|i: int| 0 <= i < self.buffer@.len() implies colour_wf(
                #[trigger] self.buffer@[i],
            ) by {
                lemma_pixel_colour_wf(self.viewport, self.width, self.height, i);
            }
        }
    }

    /// The colour at pixel column `x`, row `y`.
    pub fn get_pixel(&self, x: u32, y: u32) -> (c: HdrColour)
        requires
            self.wf(),
            x < self.width,
            y < self.height,
        ensures
            c == self.buffer@[(y as int) * (self.width as int) + (x as int)],
    {
        proof {
            assert((y as int) * (self.width as int) + (x as int) < (self.width as int) * (
            self.height as int) && 0 <= (y as int) * (self.width as int) && (y as int) * (
            self.width as int) <= 4_294_770_690) by (nonlinear_arith)
                requires
                    0 <= (y as int) && (y as int) < (self.height as int),
                    0 <= (x as int) && (x as int) < (self.width as int),
                    0 < (self.width as int),
                    self.width <= 65_535u32,
                    self.height <= 65_535u32,
            ;
        }
        let index: usize = (y as usize) * (self.width as usize) + (x as usize);
        self.buffer[index]
    }

    /// The packed display form of the whole buffer, row-major, ready for the
    /// display surface.
    pub fn display_buffer(&self) -> (out: Vec<u32>)
        requires
            self.wf(),
        ensures
            out@.len() == self.buffer@.len(),
            forall|i: int|
                0 <= i < out@.len() ==> out@[i] as int == display_colour_spec(self.buffer@[i]),
    {
        let n: usize = self.buffer.len();
        let mut out: Vec<u32> = Vec::new();
        while out.len() < n
            invariant
                self.wf(),
                n == self.buffer@.len(),
                out@.len() <= n,
                forall|i: int|
                    0 <= i < out@.len() ==> out@[i] as int == display_colour_spec(
                        self.buffer@[i],
                    ),
            decreases n - out@.len(),
        {
            out.push(hdr_to_display_colour(&self.buffer[out.len()]));
        }
        out
    }
}

/// Render determinism: any two buffers that satisfy the render
/// postcondition for the same viewport and dimensions are equal, element for
/// element — so a sequential fill and a parallel fill of the same view
/// produce identical buffers.
pub proof fn lemma_render_deterministic(
    a: Seq<HdrColour>,
    b: Seq<HdrColour>,
    v: Viewport,
    w: u32,
    h: u32,
)
    requires
        a.len() == (w as int) * (h as int),
        b.len() == (w as int) * (h as int),
        forall|i: int| 0 <= i < a.len() ==> a[i] == pixel_colour_spec(v, w, h, i),
        forall|i: int| 0 <= i < b.len() ==> b[i] == pixel_colour_spec(v, w, h, i),
    ensures
        a == b,
{
    assert(a =~= b);
}

} // verus!
