use image::{DynamicImage, GenericImage, GenericImageView, Pixel, Rgb};
use zk_img::field::FieldElement;
use zk_img::image_utils::PixelMatrix;
use zk_img::transforms::filters::{apply_convolution, blur, grayscale, pixel_luma, sharpen};
use zk_img::transforms::physical::{
    crop, flip_horizontal, flip_vertical, remap, rotate, translate, Remap,
};
use zk_img::errors::{ErrorKind, ZKIMGError};
use zk_img::transforms::{apply, field_elements_to_image, image_to_field_elements, is_finite};
use zk_img::{F32Bits, Transformation};

fn gradient(width: usize, height: usize) -> PixelMatrix {
    let rows = (0..height)
        .map(|y| {
            (0..width)
                .map(|x| [(x * 7 + y) as u8, (y * 5 + 3 * x) as u8, (x + y * 11 + 1) as u8])
                .collect()
        })
        .collect();
    PixelMatrix::from_rows(rows).unwrap()
}

fn rows_of(image: &PixelMatrix) -> Vec<Vec<[u8; 3]>> {
    (0..image.height())
        .map(|y| (0..image.width()).map(|x| image.get_pixel(x, y)).collect())
        .collect()
}

fn to_dynamic(image: &PixelMatrix) -> DynamicImage {
    let mut out = DynamicImage::new_rgb8(image.width() as u32, image.height() as u32);
    for y in 0..image.height() {
        for x in 0..image.width() {
            out.put_pixel(x as u32, y as u32, Rgb(image.get_pixel(x, y)).to_rgba());
        }
    }
    out
}

fn from_dynamic(image: &DynamicImage) -> PixelMatrix {
    let (width, height) = image.dimensions();
    let rows = (0..height)
        .map(|y| (0..width).map(|x| image.get_pixel(x, y).to_rgb().0).collect())
        .collect();
    PixelMatrix::from_rows(rows).unwrap()
}

fn degrees(d: f32) -> F32Bits {
    F32Bits::from_bits(d.to_bits())
}

#[test]
fn crop_agrees_with_the_image_library() {
    let image = gradient(9, 7);
    let dynamic = to_dynamic(&image);
    for (x, y, w, h) in [(0, 0, 9, 7), (2, 1, 4, 3), (5, 5, 10, 10), (8, 6, 1, 1), (0, 0, 1, 7)] {
        assert_eq!(crop(&image, x, y, w, h), from_dynamic(&dynamic.crop_imm(x, y, w, h)));
    }
    assert_eq!(rows_of(&crop(&image, 2, 1, 2, 2)), vec![
        vec![image.get_pixel(2, 1), image.get_pixel(3, 1)],
        vec![image.get_pixel(2, 2), image.get_pixel(3, 2)],
    ]);
}

#[test]
fn crop_outside_the_image_is_empty() {
    let image = gradient(4, 4);
    assert_eq!(crop(&image, 4, 0, 2, 2).width(), 0);
    assert_eq!(crop(&image, 9, 9, 2, 2).height(), 0);
    assert_eq!(crop(&image, 0, 0, 0, 3).width(), 0);
    assert_eq!(crop(&image, 1, 1, u32::MAX, u32::MAX), crop(&image, 1, 1, 3, 3));
}

#[test]
fn flips_agree_with_the_image_library() {
    let image = gradient(6, 4);
    let dynamic = to_dynamic(&image);
    assert_eq!(flip_horizontal(&image), from_dynamic(&dynamic.fliph()));
    assert_eq!(flip_vertical(&image), from_dynamic(&dynamic.flipv()));
    assert_eq!(flip_horizontal(&image).get_pixel(0, 0), image.get_pixel(5, 0));
    assert_eq!(flip_vertical(&image).get_pixel(0, 0), image.get_pixel(0, 3));
    assert_eq!(flip_horizontal(&flip_horizontal(&image)), image);
    assert_eq!(flip_vertical(&flip_vertical(&image)), image);
}

#[test]
fn quarter_turns_agree_with_the_image_library() {
    let image = gradient(5, 3);
    let dynamic = to_dynamic(&image);
    assert_eq!(rotate(&image, degrees(90.0)), from_dynamic(&dynamic.rotate90()));
    assert_eq!(rotate(&image, degrees(180.0)), from_dynamic(&dynamic.rotate180()));
    assert_eq!(rotate(&image, degrees(270.0)), from_dynamic(&dynamic.rotate270()));
    assert_eq!(remap(&image, Remap::Rotate90).width(), 3);
    assert_eq!(remap(&image, Remap::Rotate90).height(), 5);
    assert_eq!(remap(&image, Remap::Rotate90).get_pixel(2, 0), image.get_pixel(0, 0));
}

#[test]
fn rotation_by_other_angles_leaves_the_image() {
    let image = gradient(5, 3);
    for d in [0.0f32, 45.0, 89.99, 91.0, 179.5, 181.0, 269.9, 271.0, 360.0, -90.0, f32::NAN, f32::INFINITY] {
        assert_eq!(rotate(&image, degrees(d)), image, "angle {}", d);
    }
}

#[test]
fn rotation_goes_by_the_whole_degrees_of_the_angle() {
    let image = gradient(5, 3);
    for d in [90.0f32, 90.25, 90.999, 180.0, 180.5, 270.0, 270.75, 89.0, 91.5, 181.25, 271.5, 1.0, 1e9] {
        let expected = match d as i32 {
            90 => remap(&image, Remap::Rotate90),
            180 => remap(&image, Remap::Rotate180),
            270 => remap(&image, Remap::Rotate270),
            _ => image.clone(),
        };
        assert_eq!(rotate(&image, degrees(d)), expected, "angle {}", d);
    }
}

#[test]
fn translation_moves_pixels_and_fills_with_black() {
    let image = gradient(4, 3);
    let moved = translate(&image, 1, 2);
    assert_eq!(moved.width(), 4);
    assert_eq!(moved.height(), 3);
    assert_eq!(rows_of(&moved), vec![
        vec![[0, 0, 0]; 4],
        vec![[0, 0, 0]; 4],
        vec![[0, 0, 0], image.get_pixel(0, 0), image.get_pixel(1, 0), image.get_pixel(2, 0)],
    ]);
    let back = translate(&image, -1, -1);
    assert_eq!(back.get_pixel(0, 0), image.get_pixel(1, 1));
    assert_eq!(back.get_pixel(3, 0), [0, 0, 0]);
    assert_eq!(back.get_pixel(0, 2), [0, 0, 0]);
    assert_eq!(translate(&image, 0, 0), image);
    assert_eq!(translate(&image, i32::MIN, i32::MAX), PixelMatrix::new(4, 3));
}

#[test]
fn sharpen_weighs_the_neighbourhood() {
    let rows = vec![
        vec![[10, 20, 30], [40, 50, 60], [70, 80, 90]],
        vec![[15, 25, 35], [100, 110, 120], [75, 85, 95]],
        vec![[12, 22, 32], [42, 52, 62], [72, 82, 92]],
    ];
    let image = PixelMatrix::from_rows(rows).unwrap();
    let out = sharpen(&image);
    // 5 * 100 - 40 - 15 - 75 - 42 = 328, cut off at 255; the same for the others
    assert_eq!(out.get_pixel(1, 1), [255, 255, 255]);
    for (x, y) in [(0, 0), (1, 0), (2, 0), (0, 1), (2, 1), (0, 2), (1, 2), (2, 2)] {
        assert_eq!(out.get_pixel(x, y), [0, 0, 0]);
    }
    let flat = PixelMatrix::from_rows(vec![vec![[50, 60, 70]; 4]; 4]).unwrap();
    assert_eq!(sharpen(&flat).get_pixel(1, 1), [50, 60, 70]);
    assert_eq!(sharpen(&flat).get_pixel(2, 2), [50, 60, 70]);
    let dark = PixelMatrix::from_rows(vec![
        vec![[0, 0, 0], [200, 0, 0], [0, 0, 0]],
        vec![[200, 0, 0], [10, 3, 1], [200, 0, 0]],
        vec![[0, 0, 0], [200, 0, 0], [0, 0, 0]],
    ])
    .unwrap();
    assert_eq!(sharpen(&dark).get_pixel(1, 1), [0, 15, 5]);
}

#[test]
fn blur_adds_up_sixteen_weights() {
    let flat = PixelMatrix::from_rows(vec![vec![[1, 10, 20]; 3]; 3]).unwrap();
    assert_eq!(blur(&flat).get_pixel(1, 1), [16, 160, 255]);
    assert_eq!(blur(&flat).get_pixel(0, 1), [0, 0, 0]);
    let spot = PixelMatrix::from_rows(vec![
        vec![[1, 0, 0], [2, 0, 0], [3, 0, 0]],
        vec![[4, 0, 0], [5, 0, 0], [6, 0, 0]],
        vec![[7, 0, 0], [8, 0, 0], [9, 0, 0]],
    ])
    .unwrap();
    // 1 + 4 + 3 + 8 + 20 + 12 + 7 + 16 + 9
    assert_eq!(blur(&spot).get_pixel(1, 1), [80, 0, 0]);
}

#[test]
fn convolution_of_small_images_is_black() {
    let kernel = [[1, 1, 1], [1, 1, 1], [1, 1, 1]];
    assert_eq!(apply_convolution(&gradient(2, 5), &kernel), PixelMatrix::new(2, 5));
    assert_eq!(apply_convolution(&gradient(5, 2), &kernel), PixelMatrix::new(5, 2));
    assert_eq!(apply_convolution(&PixelMatrix::new(0, 0), &kernel), PixelMatrix::new(0, 0));
    let big = [[i32::MAX; 3]; 3];
    assert_eq!(apply_convolution(&gradient(3, 3), &big).get_pixel(1, 1), [255, 255, 255]);
    let small = [[i32::MIN; 3]; 3];
    assert_eq!(apply_convolution(&gradient(3, 3), &small).get_pixel(1, 1), [0, 0, 0]);
}

#[test]
fn exact_transformations_are_applied_and_the_others_left_out() {
    let image = gradient(6, 5);
    let crop_of = Transformation::Crop { x: 1, y: 1, width: 3, height: 2 };
    assert_eq!(apply(&image, &crop_of), Some(crop(&image, 1, 1, 3, 2)));
    assert_eq!(apply(&image, &Transformation::FlipHorizontal), Some(flip_horizontal(&image)));
    assert_eq!(apply(&image, &Transformation::FlipVertical), Some(flip_vertical(&image)));
    assert_eq!(
        apply(&image, &Transformation::Translate { dx: 2, dy: -1 }),
        Some(translate(&image, 2, -1))
    );
    assert_eq!(
        apply(&image, &Transformation::Rotate { degrees: degrees(90.0) }),
        Some(rotate(&image, degrees(90.0)))
    );
    assert_eq!(apply(&image, &Transformation::Grayscale), Some(grayscale(&image)));
    assert_eq!(apply(&image, &Transformation::Sharpen), Some(sharpen(&image)));
    assert_eq!(apply(&image, &Transformation::Blur), Some(blur(&image)));
    for other in [
        Transformation::Resize { width: 3, height: 3 },
        Transformation::ToYCbCr,
        Transformation::ToRGB,
        Transformation::Contrast(degrees(1.2)),
        Transformation::Brightness(degrees(0.1)),
        Transformation::WhiteBalance,
        Transformation::CropResize {
            crop_x: 0,
            crop_y: 0,
            crop_width: 2,
            crop_height: 2,
            resize_width: 1,
            resize_height: 1,
        },
        Transformation::GrayscaleContrast { contrast: degrees(1.2) },
    ] {
        assert_eq!(apply(&image, &other), None);
    }
}

#[test]
fn field_elements_round_trip() {
    let image = gradient(7, 4);
    let encoded = image_to_field_elements(&image);
    assert_eq!(encoded.len(), 4);
    assert!(encoded.iter().all(|row| row.len() == 7 && row.iter().all(|p| p.len() == 3)));
    assert_eq!(encoded[3][6][1], FieldElement::from_u64(image.get_pixel(6, 3)[1] as u64));
    assert_eq!(field_elements_to_image(&encoded), image);
    assert_eq!(field_elements_to_image(&[]), PixelMatrix::new(0, 0));
}

#[test]
fn field_elements_decode_by_the_low_byte_and_fill_short_rows() {
    let e = |v: u64| FieldElement::from_u64(v);
    let encoded = vec![
        vec![vec![e(256 + 1), e(2), e(3), e(99)], vec![e(4), e(5), e(6)]],
        vec![vec![e(7), e(8), e(0x1ff)]],
    ];
    assert_eq!(rows_of(&field_elements_to_image(&encoded)), vec![
        vec![[1, 2, 3], [4, 5, 6]],
        vec![[7, 8, 255], [0, 0, 0]],
    ]);
}

#[test]
fn gray_agrees_with_the_image_library() {
    let image = gradient(16, 16);
    assert_eq!(grayscale(&image), from_dynamic(&to_dynamic(&image).grayscale()));
    let mut rows = Vec::new();
    for r in [0u8, 1, 127, 128, 254, 255] {
        let mut row = Vec::new();
        for g in [0u8, 1, 127, 128, 254, 255] {
            for b in [0u8, 1, 127, 128, 254, 255] {
                row.push([r, g, b]);
            }
        }
        rows.push(row);
    }
    let corners = PixelMatrix::from_rows(rows).unwrap();
    assert_eq!(grayscale(&corners), from_dynamic(&to_dynamic(&corners).grayscale()));
}

#[test]
fn luminance_is_the_weighted_mean_rounded_down() {
    assert_eq!(pixel_luma(&[0, 0, 0]), 0);
    assert_eq!(pixel_luma(&[255, 255, 255]), 255);
    assert_eq!(pixel_luma(&[255, 0, 0]), 54);
    assert_eq!(pixel_luma(&[0, 255, 0]), 182);
    assert_eq!(pixel_luma(&[0, 0, 255]), 18);
    assert_eq!(pixel_luma(&[10, 20, 30]), 18);
    let gray = grayscale(&PixelMatrix::from_rows(vec![vec![[10, 20, 30], [255, 0, 0]]]).unwrap());
    assert_eq!(rows_of(&gray), vec![vec![[18, 18, 18], [54, 54, 54]]]);
}

#[test]
fn crop_must_lie_inside_the_image_and_not_be_empty() {
    let ok = |x, y, width, height| Transformation::Crop { x, y, width, height }.validate(640, 480);
    assert_eq!(ok(0, 0, 640, 480), Ok(()));
    assert_eq!(ok(639, 479, 1, 1), Ok(()));
    assert_eq!(ok(0, 0, 100, 100), Ok(()));
    assert_eq!(ok(0, 0, 641, 480), Err(ZKIMGError::InvalidTransformation));
    assert_eq!(ok(1, 0, 640, 480), Err(ZKIMGError::InvalidTransformation));
    assert_eq!(ok(0, 1, 640, 480), Err(ZKIMGError::InvalidTransformation));
    assert_eq!(ok(0, 0, 0, 10), Err(ZKIMGError::InvalidTransformation));
    assert_eq!(ok(0, 0, 10, 0), Err(ZKIMGError::InvalidTransformation));
    assert_eq!(ok(u32::MAX, 0, u32::MAX, 1), Err(ZKIMGError::InvalidTransformation));
    assert_eq!(ZKIMGError::InvalidTransformation.kind(), ErrorKind::Configuration);
    assert_eq!(
        Transformation::Crop { x: 0, y: 0, width: 1, height: 1 }.validate(0, 0),
        Err(ZKIMGError::InvalidTransformation)
    );
}

#[test]
fn resize_must_ask_for_a_size_that_is_not_empty() {
    assert_eq!(Transformation::Resize { width: 50, height: 50 }.validate(1, 1), Ok(()));
    assert_eq!(
        Transformation::Resize { width: 0, height: 50 }.validate(10, 10),
        Err(ZKIMGError::InvalidTransformation)
    );
    assert_eq!(
        Transformation::Resize { width: 50, height: 0 }.validate(10, 10),
        Err(ZKIMGError::InvalidTransformation)
    );
    let fused = |crop_width, resize_width| Transformation::CropResize {
        crop_x: 0,
        crop_y: 0,
        crop_width,
        crop_height: 100,
        resize_width,
        resize_height: 50,
    };
    assert_eq!(fused(100, 50).validate(100, 100), Ok(()));
    assert_eq!(fused(101, 50).validate(100, 100), Err(ZKIMGError::InvalidTransformation));
    assert_eq!(fused(100, 0).validate(100, 100), Err(ZKIMGError::InvalidTransformation));
}

#[test]
fn angles_and_factors_must_be_finite() {
    for f in [0.0f32, -0.0, 1.2, -90.0, 270.5, f32::MAX, f32::MIN, f32::MIN_POSITIVE, 1e-45] {
        assert_eq!(is_finite(degrees(f)), f.is_finite(), "{}", f);
        assert_eq!(Transformation::Rotate { degrees: degrees(f) }.validate(1, 1), Ok(()));
        assert_eq!(Transformation::Contrast(degrees(f)).validate(1, 1), Ok(()));
        assert_eq!(Transformation::Brightness(degrees(f)).validate(1, 1), Ok(()));
        assert_eq!(Transformation::GrayscaleContrast { contrast: degrees(f) }.validate(1, 1), Ok(()));
    }
    for f in [f32::NAN, f32::INFINITY, f32::NEG_INFINITY, -f32::NAN] {
        assert_eq!(is_finite(degrees(f)), f.is_finite());
        let refused = Err(ZKIMGError::InvalidTransformation);
        assert_eq!(Transformation::Rotate { degrees: degrees(f) }.validate(1, 1), refused);
        assert_eq!(Transformation::Contrast(degrees(f)).validate(1, 1), refused);
        assert_eq!(Transformation::Brightness(degrees(f)).validate(1, 1), refused);
        assert_eq!(Transformation::GrayscaleContrast { contrast: degrees(f) }.validate(1, 1), refused);
    }
}

#[test]
fn transformations_without_parameters_fit_every_image() {
    for t in [
        Transformation::FlipHorizontal,
        Transformation::FlipVertical,
        Transformation::Translate { dx: i32::MIN, dy: i32::MAX },
        Transformation::ToYCbCr,
        Transformation::ToRGB,
        Transformation::Grayscale,
        Transformation::Sharpen,
        Transformation::Blur,
        Transformation::WhiteBalance,
    ] {
        assert_eq!(t.validate(0, 0), Ok(()));
        assert_eq!(t.validate(640, 480), Ok(()));
    }
}
