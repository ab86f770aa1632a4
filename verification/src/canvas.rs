//! The shared pixel grid: a fixed `width x height` raster of 24-bit RGB
//! colors in row-major order, with bounds-checked reads and writes.

use vstd::prelude::*;

verus! {

/// Width of the canvas used by the server.
pub const CANVAS_WIDTH: usize = 1024;
/// Height of the canvas used by the server.
pub const CANVAS_HEIGHT: usize = 1024;
/// Color every pixel starts with (white).
pub const STARTING_COLOR: u32 = 0xFFFFFF;
/// Mask selecting the 24 color bits of a stored pixel.
pub const COLOR_MASK: u32 = 0x00FFFFFF;

/// The pixel grid. Pixel `(x, y)` lives at index `y * width + x`;
/// every stored color fits in 24 bits.
pub struct Canvas {
    pub width: usize,
    pub height: usize,
    pub pixels: Vec<u32>,
}

impl Canvas {
    /// The structural invariant: the flat vector holds exactly one entry
    /// per grid cell and every entry is a 24-bit color.
    pub open spec fn wf(self) -> bool {
        &&& self.width * self.height <= usize::MAX
        &&& self.pixels@.len() == self.width * self.height
        &&& forall|i: int| 0 <= i < self.pixels@.len() ==> self.pixels@[i] <= COLOR_MASK
    }

    /// Flat index of the pixel at `(x, y)`.
    pub open spec fn index_of(self, x: usize, y: usize) -> int {
        y * self.width + x
    }

    /// Whether `(x, y)` lies on the grid.
    pub open spec fn in_bounds(self, x: usize, y: usize) -> bool {
        x < self.width && y < self.height
    }

    /// Creates a canvas with every pixel set to the starting color.
    pub fn new(width: usize, height: usize) -> (c: Canvas)
        requires
            width * height <= usize::MAX,
        ensures
            c.wf(),
            c.width == width,
            c.height == height,
            c.pixels@.len() == width * height,
            forall|i: int| 0 <= i < c.pixels@.len() ==> c.pixels@[i] == STARTING_COLOR,
    {
        let n = width * height;
        let mut pixels: Vec<u32> = Vec::new();
        let mut k: usize = 0;
        while k < n
            invariant
                k <= n,
                pixels@.len() == k,
                forall|i: int| 0 <= i < k ==> pixels@[i] == STARTING_COLOR,
            decreases n - k,
        {
            pixels.push(STARTING_COLOR);
            k = k + 1;
        }
        Canvas { width, height, pixels }
    }

    /// Writes `color`, masked to 24 bits, at `(x, y)`; a write outside the
    /// grid is a silent no-op.
    pub fn set_pixel(&mut self, x: usize, y: usize, color: u32)
        requires
            old(self).wf(),
        ensures
            final(self).wf(),
            final(self).width == old(self).width,
            final(self).height == old(self).height,
            old(self).in_bounds(x, y) ==> final(self).pixels@
                == old(self).pixels@.update(old(self).index_of(x, y), color & COLOR_MASK),
            !old(self).in_bounds(x, y) ==> final(self).pixels@ == old(self).pixels@,
    {
        if x < self.width && y < self.height {
            proof {
                lemma_index_in_range(x, y, self.width, self.height);
                assert(color & COLOR_MASK <= COLOR_MASK) by (bit_vector);
            }
            let index = y * self.width + x;
            let masked = color & COLOR_MASK;
            self.pixels.set(index, masked);
        }
    }

    /// Reads the color at `(x, y)`, or `None` outside the grid.
    pub fn get_pixel(&self, x: usize, y: usize) -> (r: Option<u32>)
        requires
            self.wf(),
        ensures
            self.in_bounds(x, y) ==> r == Some(self.pixels@[self.index_of(x, y)]),
            !self.in_bounds(x, y) ==> r is None,
    {
        if x < self.width && y < self.height {
            proof {
                lemma_index_in_range(x, y, self.width, self.height);
            }
            Some(self.pixels[y * self.width + x])
        } else {
            None
        }
    }

    /// Returns a consistent copy of every pixel, row-major.
    pub fn snapshot(&self) -> (r: Vec<u32>)
        ensures
            r@ == self.pixels@,
    {
        let mut out: Vec<u32> = Vec::new();
        let n = self.pixels.len();
        let mut k: usize = 0;
        while k < n
            invariant
                k <= n,
                n == self.pixels@.len(),
                out@.len() == k,
                forall|i: int| 0 <= i < k ==> out@[i] == self.pixels@[i],
            decreases n - k,
        {
            out.push(self.pixels[k]);
            k = k + 1;
        }
        proof {
            assert(out@ =~= self.pixels@);
        }
        out
    }
}

/// Distinct in-bounds coordinate pairs map to distinct flat indices.
pub proof fn lemma_index_injective(c: Canvas, x1: usize, y1: usize, x2: usize, y2: usize)
    by (nonlinear_arith)
    requires
        c.in_bounds(x1, y1),
        c.in_bounds(x2, y2),
        (x1, y1) != (x2, y2),
    ensures
        c.index_of(x1, y1) != c.index_of(x2, y2),
{
}

/// The write-isolation law: a write touches only its own cell, writes to
/// distinct pixels commute, and of two writes to the same pixel only the
/// later one remains. Under the store's write-exclusivity each pixel write
/// is atomic, so any pair of concurrent writes resolves to one of these
/// two orders.
pub proof fn lemma_write_isolation(
    c: Canvas,
    x1: usize,
    y1: usize,
    c1: u32,
    x2: usize,
    y2: usize,
    c2: u32,
)
    requires
        c.wf(),
        c.in_bounds(x1, y1),
        c.in_bounds(x2, y2),
    ensures
        forall|k: int|
            0 <= k < c.pixels@.len() && k != c.index_of(x1, y1)
                ==> c.pixels@.update(c.index_of(x1, y1), c1 & COLOR_MASK)[k] == c.pixels@[k],
        (x1, y1) != (x2, y2) ==> c.pixels@.update(c.index_of(x1, y1), c1 & COLOR_MASK).update(
            c.index_of(x2, y2),
            c2 & COLOR_MASK,
        ) == c.pixels@.update(c.index_of(x2, y2), c2 & COLOR_MASK).update(
            c.index_of(x1, y1),
            c1 & COLOR_MASK,
        ),
        (x1, y1) == (x2, y2) ==> c.pixels@.update(c.index_of(x1, y1), c1 & COLOR_MASK).update(
            c.index_of(x2, y2),
            c2 & COLOR_MASK,
        ) == c.pixels@.update(c.index_of(x2, y2), c2 & COLOR_MASK),
{
    lemma_index_in_range(x1, y1, c.width, c.height);
    lemma_index_in_range(x2, y2, c.width, c.height);
    let i = c.index_of(x1, y1);
    let j = c.index_of(x2, y2);
    if (x1, y1) != (x2, y2) {
        lemma_index_injective(c, x1, y1, x2, y2);
        assert(c.pixels@.update(i, c1 & COLOR_MASK).update(j, c2 & COLOR_MASK) =~= c.pixels@.update(
            j,
            c2 & COLOR_MASK,
        ).update(i, c1 & COLOR_MASK));
    } else {
        assert(c.pixels@.update(i, c1 & COLOR_MASK).update(j, c2 & COLOR_MASK) =~= c.pixels@.update(
            j,
            c2 & COLOR_MASK,
        ));
    }
}

/// A fresh canvas answers a bulk read with `width * height` entries, all
/// the starting color: `Canvas::new` guarantees the premises here, and the
/// dispatcher's GetAllPixels clause guarantees the reply equals the grid.
pub proof fn lemma_fresh_canvas_reply(c: Canvas, v: Seq<u32>, width: usize, height: usize)
    requires
        c.width == width,
        c.height == height,
        c.pixels@.len() == width * height,
        forall|i: int| 0 <= i < c.pixels@.len() ==> c.pixels@[i] == STARTING_COLOR,
        v == c.pixels@,
    ensures
        v.len() == width * height,
        forall|i: int| 0 <= i < v.len() ==> v[i] == STARTING_COLOR,
{
}

/// An in-bounds coordinate pair maps to an in-range flat index.
pub proof fn lemma_index_in_range(x: usize, y: usize, width: usize, height: usize)
    by (nonlinear_arith)
    requires
        x < width,
        y < height,
        width * height <= usize::MAX,
    ensures
        0 <= y * width + x < width * height,
        y * width + x <= usize::MAX,
{
}

} // verus!
