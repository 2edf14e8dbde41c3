//! Transformations of images in the pixel domain, as far as they are exact
//! integer operations, and the encoding of images for the circuit.

pub mod filters;
pub mod physical;

use crate::errors::ZKIMGError;
use crate::field::FieldElement;
use crate::F32Bits;
use crate::transforms::filters::{
    blur, blur_kernel, convolved, grayed, grayscale, sharpen, sharpen_kernel,
};
use crate::transforms::physical::{
    crop, flip_horizontal, flip_vertical, remapped, rotate, rotated, translate, Remap,
};
use crate::Transformation;
use crate::hashing::values_of;
use crate::image_utils::{
    decode_grid, encode_grid, field_to_channel, grid_width, pixel_grid, rectangular, PixelMatrix,
};
use vstd::prelude::*;

verus! {

/// What rows of encoded pixels hold, each pixel a vector of field
/// elements: for each row and column the numbers they stand for.
pub open spec fn channel_grid(rows: Seq<Vec<Vec<FieldElement>>>) -> Seq<Seq<Seq<nat>>> {
    Seq::new(
        rows.len(),
        |y: int| Seq::new(rows[y]@.len(), |x: int| values_of(rows[y]@[x]@)),
    )
}

/// Encodes an image for the circuit: per row and pixel the three channels
/// as field elements.
pub fn image_to_field_elements(image: &PixelMatrix) -> (field_image: Vec<Vec<Vec<FieldElement>>>)
    ensures
        channel_grid(field_image@) == encode_grid(image@),
{
    proof {
        use_type_invariant(image);
    }
    let height = image.height();
    let width = image.width();
    let ghost want = encode_grid(image@);
    let mut field_image: Vec<Vec<Vec<FieldElement>>> = Vec::new();
    let mut y: usize = 0;
    while y < height
        invariant
            image.wf(),
            height == image.spec_height(),
            width == image.spec_width(),
            want == encode_grid(image@),
            y <= height,
            field_image@.len() == y,
            forall|k: int|
                0 <= k < y ==> (#[trigger] field_image@[k])@.len() == width && forall|i: int|
                    0 <= i < width ==> values_of((#[trigger] field_image@[k]@[i])@) == want[k][i],
        decreases height - y,
    {
        let mut row: Vec<Vec<FieldElement>> = Vec::new();
        let mut x: usize = 0;
        proof {
            assert(image@[y as int].len() == image@[0].len());
        }
        while x < width
            invariant
                image.wf(),
                height == image.spec_height(),
                width == image.spec_width(),
                want == encode_grid(image@),
                y < height,
                image@[y as int].len() == width,
                x <= width,
                row@.len() == x,
                forall|i: int| 0 <= i < x ==> values_of((#[trigger] row@[i])@) == want[y as int][i],
            decreases width - x,
        {
            let rgb = image.get_pixel(x, y);
            let mut pixel: Vec<FieldElement> = Vec::new();
            pixel.push(FieldElement::from_u64(rgb[0] as u64));
            pixel.push(FieldElement::from_u64(rgb[1] as u64));
            pixel.push(FieldElement::from_u64(rgb[2] as u64));
            proof {
                assert(image@[y as int][x as int].len() == 3);
                assert(values_of(pixel@) =~= want[y as int][x as int]);
            }
            row.push(pixel);
            x = x + 1;
        }
        field_image.push(row);
        y = y + 1;
    }
    proof {
        let grid = channel_grid(field_image@);
        assert(grid =~= want) by {
            assert forall|k: int| 0 <= k < height implies #[trigger] grid[k] == want[k] by {
                assert(image@[k].len() == image@[0].len());
                assert(grid[k] =~= want[k]);
            }
        }
    }
    field_image
}

/// Decodes rows of encoded pixels into an image as wide as the first row:
/// each channel is the low byte of its field element, and a row shorter
/// than the first is filled up with black. Every pixel must hold at least
/// three elements, and no row may be longer than the first.
pub fn field_elements_to_image(field_image: &[Vec<Vec<FieldElement>>]) -> (image: PixelMatrix)
    requires
        forall|y: int|
            0 <= y < field_image@.len() ==> (#[trigger] field_image@[y])@.len()
                <= field_image@[0]@.len(),
        forall|y: int, x: int|
            0 <= y < field_image@.len() && 0 <= x < field_image@[y]@.len() ==> (
            #[trigger] field_image@[y]@[x])@.len() >= 3,
    ensures
        image@ == decode_grid(channel_grid(field_image@)),
        image.wf(),
{
    let height = field_image.len();
    let width: usize = if height == 0 {
        0
    } else {
        field_image[0].len()
    };
    let ghost want = decode_grid(channel_grid(field_image@));
    let mut rows: Vec<Vec<[u8; 3]>> = Vec::new();
    let mut y: usize = 0;
    while y < height
        invariant
            height == field_image@.len(),
            width == grid_width(channel_grid(field_image@)),
            want == decode_grid(channel_grid(field_image@)),
            y <= height,
            rows@.len() == y,
            forall|k: int|
                0 <= k < y ==> (#[trigger] rows@[k])@.len() == width && forall|i: int|
                    0 <= i < width ==> (#[trigger] rows@[k]@[i])@ == want[k][i],
            forall|k: int|
                0 <= k < field_image@.len() ==> (#[trigger] field_image@[k])@.len() <= width,
            forall|k: int, i: int|
                0 <= k < field_image@.len() && 0 <= i < field_image@[k]@.len() ==> (
                #[trigger] field_image@[k]@[i])@.len() >= 3,
        decreases height - y,
    {
        let mut row: Vec<[u8; 3]> = Vec::new();
        let mut x: usize = 0;
        let filled = field_image[y].len();
        while x < width
            invariant
                height == field_image@.len(),
                y < height,
                filled == field_image@[y as int]@.len(),
                filled <= width,
                x <= width,
                row@.len() == x,
                want == decode_grid(channel_grid(field_image@)),
                width == grid_width(channel_grid(field_image@)),
                forall|i: int| 0 <= i < x ==> (#[trigger] row@[i])@ == want[y as int][i],
                forall|i: int|
                    0 <= i < field_image@[y as int]@.len() ==> (
                    #[trigger] field_image@[y as int]@[i])@.len() >= 3,
            decreases width - x,
        {
            let rgb: [u8; 3] = if x < filled {
                let pixel = &field_image[y][x];
                proof {
                    assert(field_image@[y as int]@[x as int]@.len() >= 3);
                }
                [
                    field_to_channel(&pixel[0]),
                    field_to_channel(&pixel[1]),
                    field_to_channel(&pixel[2]),
                ]
            } else {
                [0u8, 0u8, 0u8]
            };
            proof {
                assert(rgb@ =~= want[y as int][x as int]);
            }
            row.push(rgb);
            x = x + 1;
        }
        rows.push(row);
        y = y + 1;
    }
    proof {
        let grid = pixel_grid(rows@);
        assert(grid =~= want) by {
            assert forall|k: int| 0 <= k < height implies #[trigger] grid[k] == want[k] by {
                assert(grid[k] =~= want[k]);
            }
        }
        assert(rectangular(want));
    }
    PixelMatrix::from_equal_rows(rows)
}

/// What a transformation makes of a grid of pixels, for the
/// transformations that are exact integer operations: crop, the flips,
/// translation, rotation by quarter turns, the conversion to gray, sharpen
/// and blur. The others are computed outside this library.
pub open spec fn exact_result(pixels: Seq<Seq<Seq<u8>>>, transformation: Transformation) -> Option<
    Seq<Seq<Seq<u8>>>,
> {
    match transformation {
        Transformation::Crop { x, y, width, height } => Some(
            remapped(
                pixels,
                Remap::Crop {
                    x: x as usize,
                    y: y as usize,
                    width: width as usize,
                    height: height as usize,
                },
            ),
        ),
        Transformation::FlipHorizontal => Some(remapped(pixels, Remap::FlipHorizontal)),
        Transformation::FlipVertical => Some(remapped(pixels, Remap::FlipVertical)),
        Transformation::Translate { dx, dy } => Some(remapped(pixels, Remap::Translate { dx, dy })),
        Transformation::Rotate { degrees } => Some(rotated(pixels, degrees)),
        Transformation::Grayscale => Some(grayed(pixels)),
        Transformation::Sharpen => Some(convolved(pixels, sharpen_kernel())),
        Transformation::Blur => Some(convolved(pixels, blur_kernel())),
        _ => None,
    }
}

/// Applies a transformation to an image where the transformation is an
/// exact integer operation; for any other it returns nothing.
pub fn apply(image: &PixelMatrix, transformation: &Transformation) -> (r: Option<PixelMatrix>)
    ensures
        match r {
            Some(out) => exact_result(image@, *transformation) == Some(out@),
            None => exact_result(image@, *transformation) is None,
        },
{
    match transformation {
        Transformation::Crop { x, y, width, height } => Some(crop(image, *x, *y, *width, *height)),
        Transformation::FlipHorizontal => Some(flip_horizontal(image)),
        Transformation::FlipVertical => Some(flip_vertical(image)),
        Transformation::Translate { dx, dy } => Some(translate(image, *dx, *dy)),
        Transformation::Rotate { degrees } => Some(rotate(image, *degrees)),
        Transformation::Grayscale => Some(grayscale(image)),
        Transformation::Sharpen => Some(sharpen(image)),
        Transformation::Blur => Some(blur(image)),
        _ => None,
    }
}

/// Whether a number given by the bit pattern of a 32-bit float is finite:
/// its eight exponent bits are not all set.
pub open spec fn finite(value: F32Bits) -> bool {
    (value.bits / 0x80_0000) % 0x100 != 0xff
}

/// Whether a rectangle of the given size at `(x, y)` is not empty and lies
/// inside an image of `image_width` x `image_height` pixels.
pub open spec fn rectangle_fits(
    x: u32,
    y: u32,
    width: u32,
    height: u32,
    image_width: int,
    image_height: int,
) -> bool {
    &&& width > 0
    &&& height > 0
    &&& x + width <= image_width
    &&& y + height <= image_height
}

/// Whether the parameters of a transformation fit an image of
/// `image_width` x `image_height` pixels: a crop cuts out a rectangle that
/// is not empty and lies inside the image, a resize asks for a size that
/// is not empty, and an angle or a factor is a finite number.
pub open spec fn parameters_valid(
    transformation: Transformation,
    image_width: int,
    image_height: int,
) -> bool {
    match transformation {
        Transformation::Crop { x, y, width, height } => rectangle_fits(
            x,
            y,
            width,
            height,
            image_width,
            image_height,
        ),
        Transformation::Resize { width, height } => width > 0 && height > 0,
        Transformation::Rotate { degrees } => finite(degrees),
        Transformation::Contrast(factor) => finite(factor),
        Transformation::Brightness(factor) => finite(factor),
        Transformation::CropResize {
            crop_x,
            crop_y,
            crop_width,
            crop_height,
            resize_width,
            resize_height,
        } => rectangle_fits(crop_x, crop_y, crop_width, crop_height, image_width, image_height)
            && resize_width > 0 && resize_height > 0,
        Transformation::GrayscaleContrast { contrast } => finite(contrast),
        _ => true,
    }
}

/// Whether a number given by its bit pattern is finite.
pub fn is_finite(value: F32Bits) -> (r: bool)
    ensures
        r == finite(value),
{
    (value.to_bits() / 0x80_0000) % 0x100 != 0xff
}

/// Whether a rectangle is not empty and lies inside an image.
fn fits(x: u32, y: u32, width: u32, height: u32, image_width: usize, image_height: usize) -> (r:
    bool)
    ensures
        r == rectangle_fits(x, y, width, height, image_width as int, image_height as int),
{
    width > 0 && height > 0 && x as u64 + width as u64 <= image_width as u64 && y as u64
        + height as u64 <= image_height as u64
}

impl Transformation {
    /// Checks the parameters of this transformation against the size of
    /// the image it is to be applied to.
    pub fn validate(&self, image_width: usize, image_height: usize) -> (r: Result<(), ZKIMGError>)
        ensures
            parameters_valid(*self, image_width as int, image_height as int) ==> r is Ok,
            !parameters_valid(*self, image_width as int, image_height as int) ==> r == Err::<
                (),
                ZKIMGError,
            >(ZKIMGError::InvalidTransformation),
    {
        let valid = match self {
            Transformation::Crop { x, y, width, height } => fits(
                *x,
                *y,
                *width,
                *height,
                image_width,
                image_height,
            ),
            Transformation::Resize { width, height } => *width > 0 && *height > 0,
            Transformation::Rotate { degrees } => is_finite(*degrees),
            Transformation::Contrast(factor) => is_finite(*factor),
            Transformation::Brightness(factor) => is_finite(*factor),
            Transformation::CropResize {
                crop_x,
                crop_y,
                crop_width,
                crop_height,
                resize_width,
                resize_height,
            } => fits(*crop_x, *crop_y, *crop_width, *crop_height, image_width, image_height)
                && *resize_width > 0 && *resize_height > 0,
            Transformation::GrayscaleContrast { contrast } => is_finite(*contrast),
            _ => true,
        };
        if valid {
            Ok(())
        } else {
            Err(ZKIMGError::InvalidTransformation)
        }
    }
}

} // verus!
