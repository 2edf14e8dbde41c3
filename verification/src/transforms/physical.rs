//! Transformations that move pixels without changing them: crop, flips,
//! quarter turns and translation.

use crate::image_utils::{grid_width, pixel_grid, rectangular, PixelMatrix};
use crate::F32Bits;
use vstd::prelude::*;

verus! {

/// A way of moving pixels: every pixel of the result is a pixel of the
/// source, or black.
#[derive(Clone, Copy, Debug, PartialEq, Eq, Structural)]
pub enum Remap {
    /// The rectangle of the given size whose top left corner is `(x, y)`,
    /// as far as it lies inside the image.
    Crop { x: usize, y: usize, width: usize, height: usize },
    /// Mirrored left to right.
    FlipHorizontal,
    /// Mirrored top to bottom.
    FlipVertical,
    /// Turned clockwise by a quarter.
    Rotate90,
    /// Turned by a half.
    Rotate180,
    /// Turned clockwise by three quarters.
    Rotate270,
    /// Moved by `dx` to the right and `dy` down; what moves in is black.
    Translate { dx: i32, dy: i32 },
}

/// The smaller of two numbers.
pub open spec fn least(a: int, b: int) -> int {
    if a <= b {
        a
    } else {
        b
    }
}

/// The width of the result for a source of `width` x `height` pixels.
pub open spec fn remap_width(op: Remap, width: int, height: int) -> int {
    match op {
        Remap::Crop { x, y, width: w, height: h } => least(w as int, width - least(x as int, width)),
        Remap::Rotate90 | Remap::Rotate270 => height,
        _ => width,
    }
}

/// The height of the result for a source of `width` x `height` pixels.
pub open spec fn remap_height(op: Remap, width: int, height: int) -> int {
    match op {
        Remap::Crop { x, y, width: w, height: h } => least(
            h as int,
            height - least(y as int, height),
        ),
        Remap::Rotate90 | Remap::Rotate270 => width,
        _ => height,
    }
}

/// The column and row in the source from which the pixel in column `x` of
/// row `y` of the result is taken, if it is taken from the source.
pub open spec fn remap_source(op: Remap, width: int, height: int, x: int, y: int) -> Option<
    (int, int),
> {
    match op {
        Remap::Crop { x: x0, y: y0, .. } => Some((x0 + x, y0 + y)),
        Remap::FlipHorizontal => Some((width - 1 - x, y)),
        Remap::FlipVertical => Some((x, height - 1 - y)),
        Remap::Rotate90 => Some((y, height - 1 - x)),
        Remap::Rotate180 => Some((width - 1 - x, height - 1 - y)),
        Remap::Rotate270 => Some((width - 1 - y, x)),
        Remap::Translate { dx, dy } => if 0 <= x - dx < width && 0 <= y - dy < height {
            Some((x - dx, y - dy))
        } else {
            None
        },
    }
}

/// The result of moving the pixels of a grid.
pub open spec fn remapped(pixels: Seq<Seq<Seq<u8>>>, op: Remap) -> Seq<Seq<Seq<u8>>> {
    let width = grid_width(pixels) as int;
    let height = pixels.len() as int;
    Seq::new(
        remap_height(op, width, height) as nat,
        |y: int|
            Seq::new(
                remap_width(op, width, height) as nat,
                |x: int|
                    match remap_source(op, width, height, x, y) {
                        Some((sx, sy)) => pixels[sy][sx],
                        None => seq![0u8, 0u8, 0u8],
                    },
            ),
    )
}

/// Moves the pixels of an image.
pub fn remap(image: &PixelMatrix, op: Remap) -> (out: PixelMatrix)
    ensures
        out@ == remapped(image@, op),
        out.wf(),
{
    proof {
        use_type_invariant(image);
    }
    let width = image.width();
    let height = image.height();
    let (out_width, out_height): (usize, usize) = match op {
        Remap::Crop { x, y, width: w, height: h } => {
            let x0: usize = if x <= width {
                x
            } else {
                width
            };
            let y0: usize = if y <= height {
                y
            } else {
                height
            };
            (
                if w <= width - x0 {
                    w
                } else {
                    width - x0
                },
                if h <= height - y0 {
                    h
                } else {
                    height - y0
                },
            )
        },
        Remap::Rotate90 | Remap::Rotate270 => (height, width),
        _ => (width, height),
    };
    let ghost want = remapped(image@, op);
    let mut rows: Vec<Vec<[u8; 3]>> = Vec::new();
    let mut y: usize = 0;
    while y < out_height
        invariant
            image.wf(),
            width == image.spec_width(),
            height == image.spec_height(),
            out_width == remap_width(op, width as int, height as int),
            out_height == remap_height(op, width as int, height as int),
            want == remapped(image@, op),
            y <= out_height,
            rows@.len() == y,
            forall|k: int|
                0 <= k < y ==> (#[trigger] rows@[k])@.len() == out_width && forall|i: int|
                    0 <= i < out_width ==> (#[trigger] rows@[k]@[i])@ == want[k][i],
        decreases out_height - y,
    {
        let mut row: Vec<[u8; 3]> = Vec::new();
        let mut x: usize = 0;
        while x < out_width
            invariant
                image.wf(),
                width == image.spec_width(),
                height == image.spec_height(),
                out_width == remap_width(op, width as int, height as int),
                out_height == remap_height(op, width as int, height as int),
                want == remapped(image@, op),
                y < out_height,
                x <= out_width,
                row@.len() == x,
                forall|i: int| 0 <= i < x ==> (#[trigger] row@[i])@ == want[y as int][i],
            decreases out_width - x,
        {
            let source: Option<(usize, usize)> = match op {
                Remap::Crop { x: x0, y: y0, .. } => Some((x0 + x, y0 + y)),
                Remap::FlipHorizontal => Some((width - 1 - x, y)),
                Remap::FlipVertical => Some((x, height - 1 - y)),
                Remap::Rotate90 => Some((y, height - 1 - x)),
                Remap::Rotate180 => Some((width - 1 - x, height - 1 - y)),
                Remap::Rotate270 => Some((width - 1 - y, x)),
                Remap::Translate { dx, dy } => {
                    let sx: i128 = x as i128 - dx as i128;
                    let sy: i128 = y as i128 - dy as i128;
                    if 0 <= sx && sx < width as i128 && 0 <= sy && sy < height as i128 {
                        Some((sx as usize, sy as usize))
                    } else {
                        None
                    }
                },
            };
            let rgb: [u8; 3] = match source {
                Some((sx, sy)) => image.get_pixel(sx, sy),
                None => [0u8, 0u8, 0u8],
            };
            proof {
                assert(rgb@ =~= want[y as int][x as int]);
            }
            row.push(rgb);
            x = x + 1;
        }
        rows.push(row);
        y = y + 1;
    }
    proof {
        let grid = pixel_grid(rows@);
        assert(grid =~= want) by {
            assert forall|k: int| 0 <= k < out_height implies #[trigger] grid[k] == want[k] by {
                assert(grid[k] =~= want[k]);
            }
        }
        assert(rectangular(want));
    }
    PixelMatrix::from_equal_rows(rows)
}

/// The part of an image inside the rectangle of the given size whose top
/// left corner is `(x, y)`. What lies outside the image is left out.
pub fn crop(image: &PixelMatrix, x: u32, y: u32, width: u32, height: u32) -> (out: PixelMatrix)
    ensures
        out@ == remapped(
            image@,
            Remap::Crop {
                x: x as usize,
                y: y as usize,
                width: width as usize,
                height: height as usize,
            },
        ),
{
    remap(
        image,
        Remap::Crop { x: x as usize, y: y as usize, width: width as usize, height: height as usize },
    )
}

/// The image mirrored left to right.
pub fn flip_horizontal(image: &PixelMatrix) -> (out: PixelMatrix)
    ensures
        out@ == remapped(image@, Remap::FlipHorizontal),
{
    remap(image, Remap::FlipHorizontal)
}

/// The image mirrored top to bottom.
pub fn flip_vertical(image: &PixelMatrix) -> (out: PixelMatrix)
    ensures
        out@ == remapped(image@, Remap::FlipVertical),
{
    remap(image, Remap::FlipVertical)
}

/// The image moved by `dx` to the right and `dy` down. The size stays;
/// what moves in from outside is black.
pub fn translate(image: &PixelMatrix, dx: i32, dy: i32) -> (out: PixelMatrix)
    ensures
        out@ == remapped(image@, Remap::Translate { dx, dy }),
{
    remap(image, Remap::Translate { dx, dy })
}

/// The number of clockwise quarter turns that an angle in degrees stands
/// for, the angle given by the bit pattern of a 32-bit float: one for an
/// angle from 90 up to 91, two from 180 up to 181, three from 270 up to
/// 271, and none for any other angle. Among positive floats the bit
/// patterns are ordered as the numbers are.
pub open spec fn quarter_turns(degrees: F32Bits) -> nat {
    if 0x42B4_0000 <= degrees.bits < 0x42B6_0000 {
        1
    } else if 0x4334_0000 <= degrees.bits < 0x4335_0000 {
        2
    } else if 0x4387_0000 <= degrees.bits < 0x4387_8000 {
        3
    } else {
        0
    }
}

/// A grid turned clockwise by the quarter turns that `degrees` stands for;
/// any other angle leaves the grid as it is.
pub open spec fn rotated(pixels: Seq<Seq<Seq<u8>>>, degrees: F32Bits) -> Seq<Seq<Seq<u8>>> {
    if quarter_turns(degrees) == 1 {
        remapped(pixels, Remap::Rotate90)
    } else if quarter_turns(degrees) == 2 {
        remapped(pixels, Remap::Rotate180)
    } else if quarter_turns(degrees) == 3 {
        remapped(pixels, Remap::Rotate270)
    } else {
        pixels
    }
}

/// The image turned clockwise by the quarter turns that `degrees` stands
/// for; any other angle leaves the image as it is.
pub fn rotate(image: &PixelMatrix, degrees: F32Bits) -> (out: PixelMatrix)
    ensures
        out@ == rotated(image@, degrees),
{
    let bits = degrees.to_bits();
    if 0x42B4_0000 <= bits && bits < 0x42B6_0000 {
        remap(image, Remap::Rotate90)
    } else if 0x4334_0000 <= bits && bits < 0x4335_0000 {
        remap(image, Remap::Rotate180)
    } else if 0x4387_0000 <= bits && bits < 0x4387_8000 {
        remap(image, Remap::Rotate270)
    } else {
        image.clone()
    }
}

} // verus!
