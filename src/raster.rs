use vstd::prelude::*;
use crate::color::{black, color_from_result, pack_rgb, packed, result_color, Color};
use crate::escape::CalcResult;
use image::{Rgb, RgbImage};

verus! {

/// An RGB raster image, held in an `image::RgbImage` that was made by
/// `RgbImage::new`.
#[verifier::external_body]
pub struct Raster {
    img: RgbImage,
}

/// The pixels of a raster, row by row from the top, each row from the left.
pub uninterp spec fn raster_pixels(raster: Raster) -> Seq<Color>;

/// The width of a raster, in pixels.
pub uninterp spec fn raster_width(raster: Raster) -> nat;

/// The height of a raster, in pixels.
pub uninterp spec fn raster_height(raster: Raster) -> nat;

/// Position of pixel `(x, y)` in a row-major layout `width` pixels wide.
pub open spec fn pixel_index(width: int, x: int, y: int) -> int {
    y * width + x
}

impl Raster {
    /// The colour at column `x`, row `y`.
    pub open spec fn pixel_at(self, x: int, y: int) -> Color {
        raster_pixels(self)[pixel_index(raster_width(self) as int, x, y)]
    }

    /// Relies on `ImageBuffer::new`: a `width` by `height` image whose samples
    /// are all zero. It panics where the sample count, three per pixel,
    /// overflows; a `Vec` of bytes holds at most `isize::MAX` of them.
    #[verifier::external_body]
    fn blank(width: u32, height: u32) -> (r: Raster)
        requires
            3 * width * height <= isize::MAX,
        ensures
            raster_width(r) == width,
            raster_height(r) == height,
            raster_pixels(r) == Seq::new((width * height) as nat, |i: int| black()),
    {
        Raster { img: RgbImage::new(width, height) }
    }

    /// Relies on `ImageBuffer::dimensions`: the width and height the image was
    /// made with, whose samples `ImageBuffer::new` allocated.
    #[verifier::external_body]
    fn image_dimensions(&self) -> (r: (u32, u32))
        ensures
            r.0 == raster_width(*self),
            r.1 == raster_height(*self),
            3 * r.0 * r.1 <= isize::MAX,
            raster_pixels(*self).len() == r.0 * r.1,
    {
        self.img.dimensions()
    }

    /// Relies on `ImageBuffer::get_pixel`: the three samples of pixel
    /// `(x, y)`. It panics outside the image.
    #[verifier::external_body]
    fn image_pixel(&self, x: u32, y: u32) -> (c: Color)
        requires
            x < raster_width(*self),
            y < raster_height(*self),
        ensures
            c == self.pixel_at(x as int, y as int),
    {
        let p = self.img.get_pixel(x, y);
        Color { red: p.0[0], green: p.0[1], blue: p.0[2] }
    }

    /// Relies on `ImageBuffer::put_pixel`: pixel `(x, y)` takes colour `c`,
    /// every other pixel is kept. It panics outside the image.
    #[verifier::external_body]
    fn put_image_pixel(&mut self, x: u32, y: u32, c: Color)
        requires
            x < raster_width(*old(self)),
            y < raster_height(*old(self)),
        ensures
            raster_width(*final(self)) == raster_width(*old(self)),
            raster_height(*final(self)) == raster_height(*old(self)),
            raster_pixels(*final(self)) == raster_pixels(*old(self)).update(
                pixel_index(raster_width(*old(self)) as int, x as int, y as int),
                c,
            ),
    {
        self.img.put_pixel(x, y, Rgb([c.red, c.green, c.blue]))
    }

    /// Relies on `ImageBuffer::as_raw`: the samples in pixel order, red,
    /// green and blue for each; `ImageBuffer::new` allocated exactly three
    /// samples a pixel.
    #[verifier::external_body]
    fn raw_samples(&self) -> (s: Vec<u8>)
        ensures
            s@.len() == 3 * raster_pixels(*self).len(),
            forall|i: int|
                0 <= i < raster_pixels(*self).len() ==> {
                    &&& #[trigger] s@[3 * i] == raster_pixels(*self)[i].red
                    &&& s@[3 * i + 1] == raster_pixels(*self)[i].green
                    &&& s@[3 * i + 2] == raster_pixels(*self)[i].blue
                },
    {
        self.img.as_raw().clone()
    }
}

/// The colours of a row-major grid of classifications under the banded map.
pub open spec fn painted(results: Seq<CalcResult>, max_iterations: int) -> Seq<Color> {
    results.map_values(|r: CalcResult| result_color(r, max_iterations))
}

/// Every cell of a `width` by `height` grid lies inside its row-major layout,
/// and a full row advances the layout by `width`.
proof fn lemma_index_in_grid(width: int, height: int, x: int, y: int)
    requires
        0 <= x < width,
        0 <= y < height,
    ensures
        0 <= y * width <= y * width + x < width * height,
        (y + 1) * width == y * width + width,
        (y + 1) * width <= width * height,
        width * height <= 3 * width * height,
{
    assert(width * height <= 3 * width * height) by (nonlinear_arith)
        requires
            0 <= x < width,
            0 <= y < height,
    ;
    assert(0 <= y * width <= y * width + x < width * height) by (nonlinear_arith)
        requires
            0 <= x < width,
            0 <= y < height,
    ;
    assert((y + 1) * width <= width * height) by (nonlinear_arith)
        requires
            0 <= x < width,
            0 <= y < height,
    ;
    assert((y + 1) * width == y * width + width) by (nonlinear_arith);
}

/// A cell before `(x, y)` in row-major order, in an earlier row or earlier
/// in the same row, lies before it in the layout.
proof fn lemma_earlier_cell(width: int, xx: int, yy: int, x: int, y: int)
    requires
        0 <= xx < width,
        0 <= yy,
        0 <= x <= width,
        yy < y || (yy == y && xx < x),
    ensures
        0 <= yy * width + xx < y * width + x,
{
    assert(0 <= yy * width + xx < y * width + x) by (nonlinear_arith)
        requires
            0 <= xx < width,
            0 <= yy,
            0 <= x <= width,
            yy < y || (yy == y && xx < x),
    ;
}

/// Computes one cell for each pixel of a `width` by `height` grid by calling
/// `pixel(x, y)`, and lays the cells out row by row from the top, each row
/// from the left.
pub fn render_grid<T, F: Fn(u32, u32) -> T>(width: u32, height: u32, pixel: F) -> (cells: Vec<T>)
    requires
        width * height <= usize::MAX,
        forall|x: u32, y: u32| x < width && y < height ==> #[trigger] pixel.requires((x, y)),
    ensures
        cells@.len() == width * height,
        forall|x: u32, y: u32|
            x < width && y < height ==> #[trigger] pixel.ensures(
                (x, y),
                cells@[pixel_index(width as int, x as int, y as int)],
            ),
{
    let mut cells: Vec<T> = Vec::new();
    let mut y: u32 = 0;
    while y < height
        invariant
            y <= height,
            width * height <= usize::MAX,
            forall|x: u32, y: u32| x < width && y < height ==> #[trigger] pixel.requires((x, y)),
            cells@.len() == y * width,
            forall|xx: u32, yy: u32|
                xx < width && yy < y ==> #[trigger] pixel.ensures(
                    (xx, yy),
                    cells@[pixel_index(width as int, xx as int, yy as int)],
                ),
        decreases height - y,
    {
        let mut x: u32 = 0;
        while x < width
            invariant
                x <= width,
                y < height,
                width * height <= usize::MAX,
                forall|x: u32, y: u32| x < width && y < height ==> #[trigger] pixel.requires((x, y)),
                cells@.len() == y * width + x,
                forall|xx: u32, yy: u32|
                    xx < width && (yy < y || (yy == y && xx < x)) ==> #[trigger] pixel.ensures(
                        (xx, yy),
                        cells@[pixel_index(width as int, xx as int, yy as int)],
                    ),
            decreases width - x,
        {
            proof {
                lemma_index_in_grid(width as int, height as int, x as int, y as int);
            }
            let c = pixel(x, y);
            let ghost before = cells@;
            cells.push(c);
            proof {
                assert forall|xx: u32, yy: u32|
                    xx < width && (yy < y || (yy == y && xx < x + 1)) implies #[trigger] pixel.ensures(
                    (xx, yy),
                    cells@[pixel_index(width as int, xx as int, yy as int)],
                ) by {
                    if yy < y || xx < x {
                        lemma_earlier_cell(width as int, xx as int, yy as int, x as int, y as int);
                        assert(cells@[pixel_index(width as int, xx as int, yy as int)]
                            == before[pixel_index(width as int, xx as int, yy as int)]);
                    }
                }
            }
            x = x + 1;
        }
        proof {
            if width > 0 {
                lemma_index_in_grid(width as int, height as int, 0, y as int);
            } else {
                assert(y * width == 0 && (y + 1) * width == 0) by (nonlinear_arith) requires width == 0;
            }
        }
        y = y + 1;
    }
    proof {
        assert(y * width == width * height) by (nonlinear_arith) requires y == height;
    }
    cells
}

/// Paints a `width` by `height` grid of classifications, given row by row
/// from the top, into a new raster under the banded colour map.
pub fn render_results(width: u32, height: u32, results: &Vec<CalcResult>, max_iters: u16) -> (raster: Raster)
    requires
        results@.len() == width * height,
        3 * width * height <= isize::MAX,
        forall|i: int| 0 <= i < results@.len() ==> (#[trigger] results@[i]).within_budget(max_iters),
    ensures
        raster_width(raster) == width,
        raster_height(raster) == height,
        raster_pixels(raster) == painted(results@, max_iters as int),
{
    let mut raster = Raster::blank(width, height);
    let mut y: u32 = 0;
    while y < height
        invariant
            y <= height,
            raster_width(raster) == width,
            raster_height(raster) == height,
            raster_pixels(raster).len() == width * height,
            results@.len() == width * height,
            3 * width * height <= isize::MAX,
            forall|i: int| 0 <= i < results@.len() ==> (#[trigger] results@[i]).within_budget(max_iters),
            y * width <= width * height,
            forall|i: int|
                0 <= i < y * width ==> #[trigger] raster_pixels(raster)[i] == result_color(
                    results@[i],
                    max_iters as int,
                ),
        decreases height - y,
    {
        let mut x: u32 = 0;
        while x < width
            invariant
                x <= width,
                y < height,
                raster_width(raster) == width,
                raster_height(raster) == height,
                raster_pixels(raster).len() == width * height,
                results@.len() == width * height,
                3 * width * height <= isize::MAX,
                forall|i: int| 0 <= i < results@.len() ==> (#[trigger] results@[i]).within_budget(max_iters),
                forall|i: int|
                    0 <= i < y * width + x ==> #[trigger] raster_pixels(raster)[i] == result_color(
                        results@[i],
                        max_iters as int,
                    ),
            decreases width - x,
        {
            proof {
                lemma_index_in_grid(width as int, height as int, x as int, y as int);
            }
            let i: usize = y as usize * width as usize + x as usize;
            let c = color_from_result(results[i], max_iters);
            raster.put_image_pixel(x, y, c);
            x = x + 1;
        }
        proof {
            if width > 0 {
                lemma_index_in_grid(width as int, height as int, 0, y as int);
            } else {
                assert(y * width == 0 && (y + 1) * width == 0) by (nonlinear_arith) requires width == 0;
            }
        }
        y = y + 1;
    }
    proof {
        assert(y * width == width * height) by (nonlinear_arith) requires y == height;
        assert(raster_pixels(raster) =~= painted(results@, max_iters as int));
    }
    raster
}

impl Raster {
    /// The width and height of the raster, in pixels.
    pub fn dimensions(&self) -> (r: (u32, u32))
        ensures
            r.0 == raster_width(*self),
            r.1 == raster_height(*self),
            raster_pixels(*self).len() == r.0 * r.1,
    {
        self.image_dimensions()
    }

    /// The colour at column `x`, row `y`; row 0 is the top.
    pub fn color_at(&self, x: u32, y: u32) -> (c: Color)
        requires
            x < raster_width(*self),
            y < raster_height(*self),
        ensures
            c == self.pixel_at(x as int, y as int),
    {
        self.image_pixel(x, y)
    }

    /// The raster's samples in pixel order: red, green and blue for each.
    pub fn samples(&self) -> (s: Vec<u8>)
        ensures
            s@.len() == 3 * raster_pixels(*self).len(),
            forall|i: int|
                0 <= i < raster_pixels(*self).len() ==> {
                    &&& #[trigger] s@[3 * i] == raster_pixels(*self)[i].red
                    &&& s@[3 * i + 1] == raster_pixels(*self)[i].green
                    &&& s@[3 * i + 2] == raster_pixels(*self)[i].blue
                },
    {
        self.raw_samples()
    }

    /// The raster as a display frame buffer: one packed `0RGB` word per
    /// pixel, row by row from the top.
    pub fn frame_buffer(&self) -> (buf: Vec<u32>)
        ensures
            buf@.len() == raster_pixels(*self).len(),
            forall|i: int| 0 <= i < buf@.len() ==> buf@[i] == packed(#[trigger] raster_pixels(*self)[i]),
    {
        let (width, height) = self.image_dimensions();
        let mut buf: Vec<u32> = Vec::new();
        let mut y: u32 = 0;
        while y < height
            invariant
                y <= height,
                width == raster_width(*self),
                height == raster_height(*self),
                raster_pixels(*self).len() == width * height,
                buf@.len() == y * width,
                y * width <= width * height,
                forall|i: int| 0 <= i < buf@.len() ==> buf@[i] == packed(#[trigger] raster_pixels(*self)[i]),
            decreases height - y,
        {
            let mut x: u32 = 0;
            while x < width
                invariant
                    x <= width,
                    y < height,
                    width == raster_width(*self),
                    height == raster_height(*self),
                    raster_pixels(*self).len() == width * height,
                    buf@.len() == y * width + x,
                    forall|i: int| 0 <= i < buf@.len() ==> buf@[i] == packed(#[trigger] raster_pixels(*self)[i]),
                decreases width - x,
            {
                proof {
                    lemma_index_in_grid(width as int, height as int, x as int, y as int);
                }
                let c = self.image_pixel(x, y);
                buf.push(pack_rgb(c));
                x = x + 1;
            }
            proof {
                if width > 0 {
                    lemma_index_in_grid(width as int, height as int, 0, y as int);
                } else {
                    assert(y * width == 0 && (y + 1) * width == 0) by (nonlinear_arith) requires width == 0;
                }
            }
            y = y + 1;
        }
        proof {
            assert(y * width == width * height) by (nonlinear_arith) requires y == height;
        }
        buf
    }
}

} // verus!
