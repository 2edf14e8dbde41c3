use zk_img::{F32Bits, Transformation, ZKIMGConfig, ZKIMGSystem};

fn system() -> ZKIMGSystem {
    ZKIMGSystem::new(ZKIMGConfig::default())
}

#[test]
fn crop_then_resize_fuses_to_one_operation() {
    let chain = vec![
        Transformation::Crop { x: 3, y: 4, width: 30, height: 40 },
        Transformation::Resize { width: 15, height: 20 },
    ];
    let fused = system().fuse_operations(&chain).unwrap();
    assert_eq!(
        fused,
        vec![Transformation::CropResize {
            crop_x: 3,
            crop_y: 4,
            crop_width: 30,
            crop_height: 40,
            resize_width: 15,
            resize_height: 20,
        }]
    );
}

#[test]
fn crop_resize_grayscale_contrast_fuses_to_two_operations() {
    let factor = F32Bits::from_bits(1.2f32.to_bits());
    let chain = vec![
        Transformation::Crop { x: 0, y: 0, width: 100, height: 100 },
        Transformation::Resize { width: 50, height: 50 },
        Transformation::Grayscale,
        Transformation::Contrast(factor),
    ];
    let fused = system().fuse_operations(&chain).unwrap();
    assert_eq!(
        fused,
        vec![
            Transformation::CropResize {
                crop_x: 0,
                crop_y: 0,
                crop_width: 100,
                crop_height: 100,
                resize_width: 50,
                resize_height: 50,
            },
            Transformation::GrayscaleContrast { contrast: factor },
        ]
    );
    match fused[1] {
        Transformation::GrayscaleContrast { contrast } => {
            assert_eq!(f32::from_bits(contrast.to_bits()), 1.2f32)
        }
        _ => panic!("the second operation is not the fused filter"),
    }
}

#[test]
fn unfusable_pair_is_left_unchanged_and_in_order() {
    let chain = vec![
        Transformation::Resize { width: 15, height: 20 },
        Transformation::Crop { x: 3, y: 4, width: 30, height: 40 },
    ];
    assert_eq!(system().fuse_operations(&chain), Ok(chain));
    let filters = vec![
        Transformation::Contrast(F32Bits::from_bits(0.5f32.to_bits())),
        Transformation::Grayscale,
    ];
    assert_eq!(system().fuse_operations(&filters), Ok(filters));
}

#[test]
fn fused_output_is_not_scanned_again() {
    let chain = vec![
        Transformation::Grayscale,
        Transformation::Crop { x: 0, y: 0, width: 8, height: 8 },
        Transformation::Resize { width: 4, height: 4 },
        Transformation::Resize { width: 2, height: 2 },
    ];
    let fused = system().fuse_operations(&chain).unwrap();
    assert_eq!(
        fused,
        vec![
            Transformation::Grayscale,
            Transformation::CropResize {
                crop_x: 0,
                crop_y: 0,
                crop_width: 8,
                crop_height: 8,
                resize_width: 4,
                resize_height: 4,
            },
            Transformation::Resize { width: 2, height: 2 },
        ]
    );
}

#[test]
fn empty_and_single_chains_pass_through() {
    assert_eq!(system().fuse_operations(&[]), Ok(vec![]));
    assert_eq!(
        system().fuse_operations(&[Transformation::Blur]),
        Ok(vec![Transformation::Blur])
    );
}
