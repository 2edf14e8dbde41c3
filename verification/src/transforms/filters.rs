//! Filters that are exact integer operations: the conversion to gray,
//! convolution with a 3x3 kernel, and the two filters built on it.

use crate::image_utils::{grid_width, pixel_grid, rectangular, PixelMatrix};
use vstd::prelude::*;

verus! {

/// A number cut off to the range of a channel.
pub open spec fn clamp_channel(v: int) -> u8 {
    if v < 0 {
        0u8
    } else if v > 255 {
        255u8
    } else {
        v as u8
    }
}

/// The weighted sum of channel `c` over the 3x3 neighbourhood of the pixel
/// in column `x` of row `y`.
pub open spec fn weighted_sum(
    pixels: Seq<Seq<Seq<u8>>>,
    kernel: Seq<Seq<i32>>,
    x: int,
    y: int,
    c: int,
) -> int {
    kernel[0][0] * pixels[y - 1][x - 1][c] + kernel[0][1] * pixels[y - 1][x][c] + kernel[0][2]
        * pixels[y - 1][x + 1][c] + kernel[1][0] * pixels[y][x - 1][c] + kernel[1][1]
        * pixels[y][x][c] + kernel[1][2] * pixels[y][x + 1][c] + kernel[2][0] * pixels[y + 1][x
        - 1][c] + kernel[2][1] * pixels[y + 1][x][c] + kernel[2][2] * pixels[y + 1][x + 1][c]
}

/// The convolution of a grid with a 3x3 kernel: inside, each channel is the
/// weighted sum over the neighbourhood, cut off to the range of a channel;
/// the outermost rows and columns are black.
pub open spec fn convolved(pixels: Seq<Seq<Seq<u8>>>, kernel: Seq<Seq<i32>>) -> Seq<Seq<Seq<u8>>> {
    let width = grid_width(pixels) as int;
    let height = pixels.len() as int;
    Seq::new(
        height as nat,
        |y: int|
            Seq::new(
                width as nat,
                |x: int|
                    Seq::new(
                        3,
                        |c: int|
                            if 1 <= x < width - 1 && 1 <= y < height - 1 {
                                clamp_channel(weighted_sum(pixels, kernel, x, y, c))
                            } else {
                                0u8
                            },
                    ),
            ),
    )
}

/// What a 3x3 kernel holds, row by row.
pub open spec fn kernel_grid(kernel: [[i32; 3]; 3]) -> Seq<Seq<i32>> {
    Seq::new(3, |i: int| kernel@[i]@)
}

/// The kernel that sharpens.
pub open spec fn sharpen_kernel() -> Seq<Seq<i32>> {
    seq![seq![0i32, -1i32, 0i32], seq![-1i32, 5i32, -1i32], seq![0i32, -1i32, 0i32]]
}

/// The kernel that blurs. Its weights add up to 16 and are not divided
/// out, so all but dark neighbourhoods come out white.
pub open spec fn blur_kernel() -> Seq<Seq<i32>> {
    seq![seq![1i32, 2i32, 1i32], seq![2i32, 4i32, 2i32], seq![1i32, 2i32, 1i32]]
}

/// One term of a weighted sum.
fn term(weight: i32, channel: u8) -> (t: i64)
    ensures
        t == weight * channel,
        -0x80_0000_0000 <= t <= 0x80_0000_0000,
{
    proof {
        assert(-0x8000_0000 * 255 <= weight * channel <= 0x7fff_ffff * 255) by (nonlinear_arith)
            requires
                -0x8000_0000 <= weight <= 0x7fff_ffff,
                0 <= channel <= 255,
        ;
    }
    weight as i64 * channel as i64
}

/// One channel of the convolution at an inner pixel.
fn convolve_channel(image: &PixelMatrix, kernel: &[[i32; 3]; 3], x: usize, y: usize, c: usize) -> (v:
    u8)
    requires
        1 <= x,
        x + 1 < image.spec_width(),
        1 <= y,
        y + 1 < image.spec_height(),
        c < 3,
    ensures
        v == clamp_channel(weighted_sum(image@, kernel_grid(*kernel), x as int, y as int, c as int)),
{
    proof {
        use_type_invariant(image);
    }
    let ghost k = kernel_grid(*kernel);
    let width = image.width();
    let height = image.height();
    let above = y - 1;
    let below = y + 1;
    let left = x - 1;
    let right = x + 1;
    let s00 = term(kernel[0][0], image.get_pixel(left, above)[c]);
    let s01 = term(kernel[0][1], image.get_pixel(x, above)[c]);
    let s02 = term(kernel[0][2], image.get_pixel(right, above)[c]);
    let s10 = term(kernel[1][0], image.get_pixel(left, y)[c]);
    let s11 = term(kernel[1][1], image.get_pixel(x, y)[c]);
    let s12 = term(kernel[1][2], image.get_pixel(right, y)[c]);
    let s20 = term(kernel[2][0], image.get_pixel(left, below)[c]);
    let s21 = term(kernel[2][1], image.get_pixel(x, below)[c]);
    let s22 = term(kernel[2][2], image.get_pixel(right, below)[c]);
    proof {
        assert(k[0] == kernel@[0]@);
        assert(k[1] == kernel@[1]@);
        assert(k[2] == kernel@[2]@);
    }
    let sum: i64 = s00 + s01 + s02 + s10 + s11 + s12 + s20 + s21 + s22;
    if sum < 0 {
        0
    } else if sum > 255 {
        255
    } else {
        sum as u8
    }
}

/// The convolution of an image with a 3x3 kernel.
pub fn apply_convolution(image: &PixelMatrix, kernel: &[[i32; 3]; 3]) -> (out: PixelMatrix)
    ensures
        out@ == convolved(image@, kernel_grid(*kernel)),
        out.wf(),
{
    proof {
        use_type_invariant(image);
    }
    let width = image.width();
    let height = image.height();
    let ghost want = convolved(image@, kernel_grid(*kernel));
    let mut rows: Vec<Vec<[u8; 3]>> = Vec::new();
    let mut y: usize = 0;
    while y < height
        invariant
            image.wf(),
            width == image.spec_width(),
            height == image.spec_height(),
            want == convolved(image@, kernel_grid(*kernel)),
            y <= height,
            rows@.len() == y,
            forall|k: int|
                0 <= k < y ==> (#[trigger] rows@[k])@.len() == width && forall|i: int|
                    0 <= i < width ==> (#[trigger] rows@[k]@[i])@ == want[k][i],
        decreases height - y,
    {
        let mut row: Vec<[u8; 3]> = Vec::new();
        let mut x: usize = 0;
        while x < width
            invariant
                image.wf(),
                width == image.spec_width(),
                height == image.spec_height(),
                want == convolved(image@, kernel_grid(*kernel)),
                y < height,
                x <= width,
                row@.len() == x,
                forall|i: int| 0 <= i < x ==> (#[trigger] row@[i])@ == want[y as int][i],
            decreases width - x,
        {
            let inner = 1 <= x && x < width - 1 && 1 <= y && y < height - 1;
            let rgb: [u8; 3] = if inner {
                [
                    convolve_channel(image, kernel, x, y, 0),
                    convolve_channel(image, kernel, x, y, 1),
                    convolve_channel(image, kernel, x, y, 2),
                ]
            } else {
                [0u8, 0u8, 0u8]
            };
            proof {
                assert(rgb@ =~= want[y as int][x as int]);
            }
            row.push(rgb);
            x = x + 1;
        }
        rows.push(row);
        y = y + 1;
    }
    proof {
        let grid = pixel_grid(rows@);
        assert(grid =~= want) by {
            assert forall|k: int| 0 <= k < height implies #[trigger] grid[k] == want[k] by {
                assert(grid[k] =~= want[k]);
            }
        }
        assert(rectangular(want));
    }
    PixelMatrix::from_equal_rows(rows)
}

/// The image sharpened.
pub fn sharpen(image: &PixelMatrix) -> (out: PixelMatrix)
    ensures
        out@ == convolved(image@, sharpen_kernel()),
{
    let kernel: [[i32; 3]; 3] = [[0, -1, 0], [-1, 5, -1], [0, -1, 0]];
    proof {
        assert(kernel_grid(kernel) =~~= sharpen_kernel());
    }
    apply_convolution(image, &kernel)
}

/// The image blurred.
pub fn blur(image: &PixelMatrix) -> (out: PixelMatrix)
    ensures
        out@ == convolved(image@, blur_kernel()),
{
    let kernel: [[i32; 3]; 3] = [[1, 2, 1], [2, 4, 2], [1, 2, 1]];
    proof {
        assert(kernel_grid(kernel) =~~= blur_kernel());
    }
    apply_convolution(image, &kernel)
}

/// The luminance of a pixel: the weighted mean of its channels with the
/// weights 2126, 7152 and 722 out of 10000, rounded down.
pub open spec fn luma(pixel: Seq<u8>) -> u8 {
    ((2126 * pixel[0] + 7152 * pixel[1] + 722 * pixel[2]) / 10000) as u8
}

/// A grid with every pixel turned gray: all three channels hold the
/// pixel's luminance.
pub open spec fn grayed(pixels: Seq<Seq<Seq<u8>>>) -> Seq<Seq<Seq<u8>>> {
    Seq::new(
        pixels.len(),
        |y: int|
            Seq::new(
                pixels[y].len(),
                |x: int| seq![luma(pixels[y][x]), luma(pixels[y][x]), luma(pixels[y][x])],
            ),
    )
}

/// The luminance of a pixel.
pub fn pixel_luma(rgb: &[u8; 3]) -> (l: u8)
    ensures
        l == luma(rgb@),
{
    let sum: u32 = 2126 * (rgb[0] as u32) + 7152 * (rgb[1] as u32) + 722 * (rgb[2] as u32);
    (sum / 10000) as u8
}

/// The image turned gray.
pub fn grayscale(image: &PixelMatrix) -> (out: PixelMatrix)
    ensures
        out@ == grayed(image@),
        out.wf(),
{
    proof {
        use_type_invariant(image);
    }
    let width = image.width();
    let height = image.height();
    let ghost want = grayed(image@);
    let mut rows: Vec<Vec<[u8; 3]>> = Vec::new();
    let mut y: usize = 0;
    while y < height
        invariant
            image.wf(),
            width == image.spec_width(),
            height == image.spec_height(),
            want == grayed(image@),
            y <= height,
            rows@.len() == y,
            forall|k: int|
                0 <= k < y ==> (#[trigger] rows@[k])@.len() == width && forall|i: int|
                    0 <= i < width ==> (#[trigger] rows@[k]@[i])@ == want[k][i],
        decreases height - y,
    {
        let mut row: Vec<[u8; 3]> = Vec::new();
        let mut x: usize = 0;
        proof {
            assert(image@[y as int].len() == image@[0].len());
        }
        while x < width
            invariant
                image.wf(),
                width == image.spec_width(),
                height == image.spec_height(),
                want == grayed(image@),
                y < height,
                image@[y as int].len() == width,
                x <= width,
                row@.len() == x,
                forall|i: int| 0 <= i < x ==> (#[trigger] row@[i])@ == want[y as int][i],
            decreases width - x,
        {
            let rgb = image.get_pixel(x, y);
            let l = pixel_luma(&rgb);
            let gray: [u8; 3] = [l, l, l];
            proof {
                assert(gray@ =~= want[y as int][x as int]);
            }
            row.push(gray);
            x = x + 1;
        }
        rows.push(row);
        y = y + 1;
    }
    proof {
        let grid = pixel_grid(rows@);
        assert(grid =~= want) by {
            assert forall|k: int| 0 <= k < height implies #[trigger] grid[k] == want[k] by {
                assert(image@[k].len() == image@[0].len());
                assert(grid[k] =~= want[k]);
            }
        }
        assert(rectangular(want)) by {
            assert forall|k: int| 0 <= k < want.len() implies (#[trigger] want[k]).len()
                == want[0].len() by {
                assert(image@[k].len() == image@[0].len());
            }
        }
    }
    PixelMatrix::from_equal_rows(rows)
}

} // verus!
