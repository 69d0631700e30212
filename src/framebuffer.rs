use vstd::prelude::*;
use crate::color::Color;

verus! {

/// Byte offset of pixel `(x, y)` in a buffer of rows `width` pixels wide, four bytes a pixel.
pub open spec fn pixel_offset(width: int, x: int, y: int) -> int {
    (x + y * width) * 4
}

proof fn lemma_offset_in_row(w: int, x: int, y: int)
    ensures
        pixel_offset(w, x, y) == pixel_offset(w, 0, y) + 4 * x,
{
}

proof fn lemma_offset_in_buffer(w: int, h: int, x: int, y: int)
    requires
        0 <= x < w,
        0 <= y < h,
    ensures
        0 <= pixel_offset(w, x, y),
        pixel_offset(w, x, y) + 4 <= w * h * 4,
{
    assert((x + y * w) * 4 + 4 <= w * h * 4 && 0 <= y * w) by (nonlinear_arith)
        requires
            0 <= x < w,
            0 <= y < h,
    ;
}

/// A `width` by `height` image kept row by row, four bytes a pixel in
/// blue, green, red, alpha order.
pub struct PixelData {
    pub width: usize,
    pub height: usize,
    pub pixels: Vec<u8>,
}

impl PixelData {
    /// The buffer holds exactly four bytes for each pixel.
    pub open spec fn wf(&self) -> bool {
        self.pixels@.len() == self.width * self.height * 4
    }

    /// A buffer of the given size with every byte zero.
    pub fn new(width: usize, height: usize) -> (p: PixelData)
        requires
            width * height * 4 <= usize::MAX,
        ensures
            p.wf(),
            p.width == width,
            p.height == height,
            forall|i: int| 0 <= i < p.pixels@.len() ==> p.pixels@[i] == 0,
    {
        assert(width * height <= width * height * 4) by (nonlinear_arith);
        let len: usize = width * height * 4;
        PixelData { width, height, pixels: vec![0u8; len] }
    }

    /// Writes `color` at pixel `(x, y)`; every other byte stays as it was.
    pub fn set_pixel(&mut self, x: usize, y: usize, color: Color)
        requires
            old(self).wf(),
            x < old(self).width,
            y < old(self).height,
        ensures
            final(self).wf(),
            final(self).width == old(self).width,
            final(self).height == old(self).height,
            ({
                let i = pixel_offset(old(self).width as int, x as int, y as int);
                final(self).pixels@ == old(self).pixels@.update(i, color.b).update(
                    i + 1,
                    color.g,
                ).update(i + 2, color.r).update(i + 3, color.a)
            }),
    {
        // the buffer's length, a usize, bounds every offset into it
        let _len: usize = self.pixels.len();
        proof {
            lemma_offset_in_buffer(self.width as int, self.height as int, x as int, y as int);
        }
        let idx: usize = (x + y * self.width) * 4;
        self.pixels.set(idx, color.b);
        self.pixels.set(idx + 1, color.g);
        self.pixels.set(idx + 2, color.r);
        self.pixels.set(idx + 3, color.a);
    }
}

/// The frame that a render writes into: its size and its pixels.
pub struct Surface {
    pub width: usize,
    pub height: usize,
    pub pixels: PixelData,
}

impl Surface {
    /// The pixel buffer has the surface's size and is well formed.
    pub open spec fn wf(&self) -> bool {
        &&& self.pixels.wf()
        &&& self.pixels.width == self.width
        &&& self.pixels.height == self.height
    }

    /// A surface of the given size, all bytes zero.
    pub fn new(width: usize, height: usize) -> (s: Surface)
        requires
            width * height * 4 <= usize::MAX,
        ensures
            s.wf(),
            s.width == width,
            s.height == height,
            forall|i: int| 0 <= i < s.pixels.pixels@.len() ==> s.pixels.pixels@[i] == 0,
    {
        Surface { width, height, pixels: PixelData::new(width, height) }
    }

    /// Writes one color for each pixel of row `y`; every byte outside that row stays
    /// as it was.
    pub fn write_row(&mut self, y: usize, colors: &Vec<Color>)
        requires
            old(self).wf(),
            y < old(self).height,
            colors@.len() == old(self).width,
        ensures
            final(self).wf(),
            final(self).width == old(self).width,
            final(self).height == old(self).height,
            forall|x: int|
                #![trigger colors@[x]]
                0 <= x < old(self).width ==> {
                    let i = pixel_offset(old(self).width as int, x, y as int);
                    &&& final(self).pixels.pixels@[i] == colors@[x].b
                    &&& final(self).pixels.pixels@[i + 1] == colors@[x].g
                    &&& final(self).pixels.pixels@[i + 2] == colors@[x].r
                    &&& final(self).pixels.pixels@[i + 3] == colors@[x].a
                },
            forall|k: int|
                0 <= k < old(self).pixels.pixels@.len() && !(pixel_offset(
                    old(self).width as int,
                    0,
                    y as int,
                ) <= k < pixel_offset(old(self).width as int, old(self).width as int, y as int))
                    ==> final(self).pixels.pixels@[k] == old(self).pixels.pixels@[k],
    {
        let ghost w = self.width as int;
        let ghost start = pixel_offset(w, 0, y as int);
        let ghost before = self.pixels.pixels@;
        let mut x: usize = 0;
        while x < self.width
            invariant
                self.wf(),
                self.width == w,
                self.height == old(self).height,
                y < self.height,
                colors@.len() == w,
                x <= w,
                start == pixel_offset(w, 0, y as int),
                before == old(self).pixels.pixels@,
                self.pixels.pixels@.len() == before.len(),
                forall|x2: int|
                    #![trigger colors@[x2]]
                    0 <= x2 < x ==> {
                        let i = pixel_offset(w, x2, y as int);
                        &&& self.pixels.pixels@[i] == colors@[x2].b
                        &&& self.pixels.pixels@[i + 1] == colors@[x2].g
                        &&& self.pixels.pixels@[i + 2] == colors@[x2].r
                        &&& self.pixels.pixels@[i + 3] == colors@[x2].a
                    },
                forall|k: int|
                    0 <= k < before.len() && !(start <= k < start + 4 * x)
                        ==> self.pixels.pixels@[k] == before[k],
            decreases w - x,
        {
            let ghost pre = self.pixels.pixels@;
            self.pixels.set_pixel(x, y, colors[x]);
            proof {
                let i = pixel_offset(w, x as int, y as int);
                assert(i == start + 4 * x) by {
                    lemma_offset_in_row(w, x as int, y as int);
                }
                lemma_offset_in_buffer(w, self.height as int, x as int, y as int);
                assert forall|x2: int|
                    #![trigger colors@[x2]]
                    0 <= x2 < x + 1 implies {
                        let j = pixel_offset(w, x2, y as int);
                        &&& self.pixels.pixels@[j] == colors@[x2].b
                        &&& self.pixels.pixels@[j + 1] == colors@[x2].g
                        &&& self.pixels.pixels@[j + 2] == colors@[x2].r
                        &&& self.pixels.pixels@[j + 3] == colors@[x2].a
                    } by {
                    lemma_offset_in_row(w, x2, y as int);
                    lemma_offset_in_buffer(w, self.height as int, x2, y as int);
                }
                assert forall|k: int|
                    0 <= k < before.len() && !(start <= k < start + 4 * (x + 1)) implies
                    self.pixels.pixels@[k] == before[k] by {
                    assert(!(i <= k < i + 4));
                    assert(pre[k] == before[k]);
                }
            }
            x = x + 1;
        }
    }
}

} // verus!
