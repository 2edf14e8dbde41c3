use sha2::{Digest, Sha256};
use zk_img::errors::{ErrorKind, ZKIMGError};
use zk_img::field::FieldElement;
use zk_img::image_utils::{
    calculate_poseidon_image_hash, chunk_image, field_matrix_to_image, field_to_channel,
    field_to_rgb, image_to_field_matrix, rgb_to_field, sample_hash_input, validate_image_for_zk,
    ImageMetrics, PixelMatrix,
};

fn gradient(width: usize, height: usize) -> PixelMatrix {
    let rows = (0..height)
        .map(|y| {
            (0..width)
                .map(|x| [(x * 7 + y) as u8, (y * 5 + 3 * x) as u8, (x + y * 11 + 1) as u8])
                .collect()
        })
        .collect();
    PixelMatrix::from_rows(rows).unwrap()
}

fn rows_of(image: &PixelMatrix) -> Vec<Vec<[u8; 3]>> {
    (0..image.height())
        .map(|y| (0..image.width()).map(|x| image.get_pixel(x, y)).collect())
        .collect()
}

fn channel(v: u8) -> Vec<u8> {
    let mut bytes = vec![0u8; 32];
    bytes[0] = v;
    bytes
}

#[test]
fn pixel_to_fields_and_back() {
    let fields = rgb_to_field(0, 128, 255);
    assert_eq!(fields[0], FieldElement::from_u64(0));
    assert_eq!(fields[1], FieldElement::from_u64(128));
    assert_eq!(fields[2], FieldElement::from_u64(255));
    assert_eq!(field_to_rgb(&fields), [0, 128, 255]);
}

#[test]
fn decoding_takes_the_low_byte() {
    assert_eq!(field_to_channel(&FieldElement::from_u64(0x1234)), 0x34);
    assert_eq!(field_to_channel(&FieldElement::from_u64(256)), 0);
    let big = FieldElement::from_limbs([0xffff_ffff_ffff_ff07, 9, 9, 9]).unwrap();
    assert_eq!(field_to_channel(&big), 7);
    let fields = [FieldElement::from_u64(257), FieldElement::from_u64(511), big];
    assert_eq!(field_to_rgb(&fields), [1, 255, 7]);
}

#[test]
fn encode_then_decode_gives_the_image_back() {
    for (w, h) in [(1, 1), (3, 2), (17, 9), (40, 33)] {
        let image = gradient(w, h);
        let matrix = image_to_field_matrix(&image);
        assert_eq!(matrix.len(), h);
        assert!(matrix.iter().all(|row| row.len() == w));
        assert_eq!(matrix[h - 1][w - 1][2], FieldElement::from_u64(image.get_pixel(w - 1, h - 1)[2] as u64));
        assert_eq!(field_matrix_to_image(&matrix), image);
    }
}

#[test]
fn encode_then_decode_keeps_every_channel_value() {
    let rows: Vec<Vec<[u8; 3]>> = (0..4)
        .map(|y| {
            (0..64)
                .map(|x| {
                    let v = (y * 64 + x) as u8;
                    [v, 255 - v, v ^ 0x55]
                })
                .collect()
        })
        .collect();
    let image = PixelMatrix::from_rows(rows.clone()).unwrap();
    let back = field_matrix_to_image(&image_to_field_matrix(&image));
    assert_eq!(rows_of(&back), rows);
}

#[test]
fn encode_then_decode_of_images_without_pixels() {
    let none = PixelMatrix::new(0, 0);
    assert_eq!(field_matrix_to_image(&image_to_field_matrix(&none)), none);
    let thin = PixelMatrix::new(0, 3);
    assert_eq!(thin.height(), 3);
    assert_eq!(thin.width(), 0);
    assert_eq!(field_matrix_to_image(&image_to_field_matrix(&thin)), thin);
    assert_eq!(PixelMatrix::new(5, 0), none);
}

#[test]
fn decoding_fills_short_rows_with_black() {
    let matrix = vec![
        vec![rgb_to_field(1, 2, 3), rgb_to_field(4, 5, 6)],
        vec![rgb_to_field(7, 8, 9)],
    ];
    let image = field_matrix_to_image(&matrix);
    assert_eq!(rows_of(&image), vec![vec![[1, 2, 3], [4, 5, 6]], vec![[7, 8, 9], [0, 0, 0]]]);
}

#[test]
fn rows_must_be_equally_long() {
    let ragged = vec![vec![[0u8; 3]; 2], vec![[0u8; 3]; 2], vec![[0u8; 3]; 3]];
    assert_eq!(PixelMatrix::from_rows(ragged), Err(ZKIMGError::RaggedImage { row: 2 }));
    assert!(PixelMatrix::from_rows(vec![]).is_ok());
    let black = PixelMatrix::new(2, 2);
    assert_eq!(rows_of(&black), vec![vec![[0u8; 3]; 2]; 2]);
    assert_eq!(black.clone(), black);
}

#[test]
fn images_are_validated_before_proving() {
    let image = gradient(4, 3);
    assert_eq!(validate_image_for_zk(&image, 12), Ok(()));
    assert_eq!(validate_image_for_zk(&image, 1000), Ok(()));
    let too_large = validate_image_for_zk(&image, 11);
    assert_eq!(too_large, Err(ZKIMGError::ImageTooLarge { width: 4, height: 3, max: 11 }));
    assert_eq!(too_large.unwrap_err().kind(), ErrorKind::Configuration);
    let empty = validate_image_for_zk(&PixelMatrix::new(0, 0), 12);
    assert_eq!(empty, Err(ZKIMGError::ImageEmpty));
    assert_eq!(empty.unwrap_err().kind(), ErrorKind::Configuration);
    assert_eq!(validate_image_for_zk(&PixelMatrix::new(0, 5), 12), Err(ZKIMGError::ImageEmpty));
    assert_eq!(validate_image_for_zk(&PixelMatrix::new(0, 0), 0), Err(ZKIMGError::ImageEmpty));
    assert_eq!(
        validate_image_for_zk(&gradient(1, 1), 0),
        Err(ZKIMGError::ImageTooLarge { width: 1, height: 1, max: 0 })
    );
}

#[test]
fn metrics_count_three_constraints_per_pixel() {
    let m = ImageMetrics::from_image(&gradient(40, 30));
    assert_eq!(m.width, 40);
    assert_eq!(m.height, 30);
    assert_eq!(m.total_pixels, 1200);
    assert_eq!(m.estimated_constraints, 3600);
}

#[test]
fn chunks_follow_the_tiling() {
    let image = gradient(5, 3);
    let chunks = chunk_image(&image, 2);
    assert_eq!(chunks.len(), 3 * 2);
    let sizes: Vec<(usize, usize)> = chunks.iter().map(|c| (c[0].len(), c.len())).collect();
    assert_eq!(sizes, vec![(2, 2), (2, 2), (1, 2), (2, 1), (2, 1), (1, 1)]);
    let p = image.get_pixel(4, 2);
    assert_eq!(chunks[5][0][0], rgb_to_field(p[0], p[1], p[2]));
    let q = image.get_pixel(3, 1);
    assert_eq!(chunks[1][1][1], rgb_to_field(q[0], q[1], q[2]));
    for (i, chunk) in chunks.iter().enumerate() {
        let (cx, cy) = ((i % 3) * 2, (i / 3) * 2);
        for (dy, row) in chunk.iter().enumerate() {
            for (dx, fields) in row.iter().enumerate() {
                assert_eq!(field_to_rgb(fields), image.get_pixel(cx + dx, cy + dy));
            }
        }
    }
}

#[test]
fn chunks_of_edge_cases() {
    assert_eq!(chunk_image(&PixelMatrix::new(0, 0), 4).len(), 0);
    assert_eq!(chunk_image(&PixelMatrix::new(0, 3), 4).len(), 0);
    let whole = chunk_image(&gradient(3, 2), 100);
    assert_eq!(whole.len(), 1);
    assert_eq!(whole[0], image_to_field_matrix(&gradient(3, 2)));
    assert_eq!(chunk_image(&gradient(4, 4), 1).len(), 16);
}

#[test]
fn sampled_input_strides_over_the_image() {
    let image = gradient(10, 6);
    // steps: max(1, 6 / 3) = 2 down, max(1, 10 / 3) = 3 across
    let input = sample_hash_input(&image, 3);
    let mut expected = Vec::new();
    for y in [0usize, 2, 4] {
        for x in [0usize, 3, 6, 9] {
            for c in image.get_pixel(x, y) {
                expected.extend_from_slice(&channel(c));
            }
        }
    }
    assert_eq!(input.len(), 12 * 96);
    assert_eq!(input, expected);
}

#[test]
fn sampled_input_takes_every_pixel_of_a_small_image() {
    let image = gradient(2, 2);
    let input = sample_hash_input(&image, 8);
    let mut expected = Vec::new();
    for y in 0..2 {
        for x in 0..2 {
            for c in image.get_pixel(x, y) {
                expected.extend_from_slice(&FieldElement::from_u64(c as u64).to_bytes());
            }
        }
    }
    assert_eq!(input, expected);
    assert_eq!(sample_hash_input(&PixelMatrix::new(0, 2), 1), Vec::<u8>::new());
}

#[test]
fn sampled_digest_is_the_sha256_of_the_sampled_input() {
    let image = gradient(10, 6);
    let digest = calculate_poseidon_image_hash(&image, 3);
    assert_eq!(digest.len(), 32);
    assert_eq!(digest, Sha256::digest(sample_hash_input(&image, 3)).to_vec());
    assert_ne!(digest, sample_hash_input(&image, 3));
}

#[test]
fn sampled_digest_sees_sampled_pixels_only() {
    let base = gradient(10, 6);
    let mut rows = rows_of(&base);
    rows[1][1] = [9, 9, 9];
    let unsampled = PixelMatrix::from_rows(rows.clone()).unwrap();
    assert_eq!(calculate_poseidon_image_hash(&unsampled, 3), calculate_poseidon_image_hash(&base, 3));
    rows[2][3] = [9, 9, 9];
    let sampled = PixelMatrix::from_rows(rows).unwrap();
    assert_ne!(calculate_poseidon_image_hash(&sampled, 3), calculate_poseidon_image_hash(&base, 3));
}
