use sha2::{Digest, Sha256};
use zk_img::errors::{ErrorKind, ZKIMGError};
use zk_img::keys::{
    frame_key, unframe_key, CircuitKey, KeyCache, KeyRole, TransformationKind, KEY_FORMAT_VERSION,
    KEY_HEADER_LEN,
};
use zk_img::{F32Bits, Transformation};

fn all_kinds() -> Vec<TransformationKind> {
    vec![
        TransformationKind::Crop,
        TransformationKind::Resize,
        TransformationKind::Rotate,
        TransformationKind::FlipHorizontal,
        TransformationKind::FlipVertical,
        TransformationKind::Translate,
        TransformationKind::ToYCbCr,
        TransformationKind::ToRGB,
        TransformationKind::Grayscale,
        TransformationKind::Sharpen,
        TransformationKind::Blur,
        TransformationKind::Contrast,
        TransformationKind::Brightness,
        TransformationKind::WhiteBalance,
        TransformationKind::CropResize,
        TransformationKind::GrayscaleContrast,
    ]
}

fn key(kind: TransformationKind, k: u32, fused: bool) -> CircuitKey {
    CircuitKey { kind, k, fused }
}

#[test]
fn kinds_are_numbered_in_order() {
    for (i, kind) in all_kinds().into_iter().enumerate() {
        assert_eq!(kind.index(), i as u64);
        assert_eq!(TransformationKind::from_index(i as u64), Some(kind));
    }
    assert_eq!(TransformationKind::from_index(16), None);
    assert_eq!(TransformationKind::from_index(u64::MAX), None);
}

#[test]
fn transformations_have_their_kind() {
    let f = F32Bits::from_bits(1.5f32.to_bits());
    assert_eq!(Transformation::Crop { x: 1, y: 2, width: 3, height: 4 }.kind(), TransformationKind::Crop);
    assert_eq!(Transformation::Resize { width: 3, height: 4 }.kind(), TransformationKind::Resize);
    assert_eq!(Transformation::Rotate { degrees: f }.kind(), TransformationKind::Rotate);
    assert_eq!(Transformation::FlipHorizontal.kind(), TransformationKind::FlipHorizontal);
    assert_eq!(Transformation::FlipVertical.kind(), TransformationKind::FlipVertical);
    assert_eq!(Transformation::Translate { dx: -1, dy: 1 }.kind(), TransformationKind::Translate);
    assert_eq!(Transformation::ToYCbCr.kind(), TransformationKind::ToYCbCr);
    assert_eq!(Transformation::ToRGB.kind(), TransformationKind::ToRGB);
    assert_eq!(Transformation::Grayscale.kind(), TransformationKind::Grayscale);
    assert_eq!(Transformation::Sharpen.kind(), TransformationKind::Sharpen);
    assert_eq!(Transformation::Blur.kind(), TransformationKind::Blur);
    assert_eq!(Transformation::Contrast(f).kind(), TransformationKind::Contrast);
    assert_eq!(Transformation::Brightness(f).kind(), TransformationKind::Brightness);
    assert_eq!(Transformation::WhiteBalance.kind(), TransformationKind::WhiteBalance);
    assert_eq!(
        Transformation::GrayscaleContrast { contrast: f }.kind(),
        TransformationKind::GrayscaleContrast
    );
    let fused = Transformation::CropResize {
        crop_x: 0,
        crop_y: 0,
        crop_width: 1,
        crop_height: 1,
        resize_width: 1,
        resize_height: 1,
    };
    assert_eq!(fused.kind(), TransformationKind::CropResize);
    assert_eq!(CircuitKey::new(&fused, 17, true), key(TransformationKind::CropResize, 17, true));
}

#[test]
fn circuit_key_numbers() {
    assert_eq!(key(TransformationKind::Crop, 0, false).encode(), 0);
    assert_eq!(key(TransformationKind::Crop, 0, true).encode(), 1);
    assert_eq!(key(TransformationKind::Crop, 17, false).encode(), 34);
    assert_eq!(key(TransformationKind::Resize, 0, false).encode(), 1 << 33);
    assert_eq!(
        key(TransformationKind::GrayscaleContrast, u32::MAX, true).encode(),
        (15u64 << 33) + ((u32::MAX as u64) << 1) + 1
    );
}

#[test]
fn circuit_key_numbers_never_collide() {
    let mut seen = std::collections::HashSet::new();
    for kind in all_kinds() {
        for k in [0u32, 1, 2, 17, 31, 32, 0x8000_0000, u32::MAX - 1, u32::MAX] {
            for fused in [false, true] {
                let code = key(kind, k, fused).encode();
                assert!(seen.insert(code), "{:?} {} {}", kind, k, fused);
                assert_eq!(CircuitKey::decode(code), Some(key(kind, k, fused)));
            }
        }
    }
    assert_eq!(CircuitKey::decode(16u64 << 33), None);
    assert_eq!(CircuitKey::decode(u64::MAX), None);
}

#[test]
fn cache_keeps_one_blob_per_circuit_key() {
    let mut cache = KeyCache::new();
    let a = key(TransformationKind::Crop, 17, true);
    let b = key(TransformationKind::Crop, 17, false);
    let c = key(TransformationKind::Blur, 17, true);
    assert_eq!(cache.get(&a), None);
    assert!(!cache.contains(&a));
    cache.insert(&a, vec![1, 2, 3]);
    assert_eq!(cache.get(&a), Some(&vec![1, 2, 3]));
    assert!(cache.contains(&a));
    assert_eq!(cache.get(&b), None);
    assert_eq!(cache.get(&c), None);
    cache.insert(&b, vec![4]);
    cache.insert(&c, vec![]);
    assert_eq!(cache.get(&a), Some(&vec![1, 2, 3]));
    assert_eq!(cache.get(&b), Some(&vec![4]));
    assert_eq!(cache.get(&c), Some(&vec![]));
    cache.insert(&a, vec![9, 9]);
    assert_eq!(cache.get(&a), Some(&vec![9, 9]));
    assert_eq!(cache.get(&b), Some(&vec![4]));
}

#[test]
fn stored_key_has_header_payload_and_digest() {
    let k = key(TransformationKind::Resize, 17, true);
    let payload = vec![0xAAu8, 0xBB, 0xCC];
    let bytes = frame_key(KeyRole::Verifying, &k, &payload);
    assert_eq!(KEY_HEADER_LEN, 22);
    assert_eq!(KEY_FORMAT_VERSION, 1);
    assert_eq!(bytes.len(), 22 + 3 + 32);
    assert_eq!(&bytes[..4], b"ZKIM");
    assert_eq!(bytes[4], 1);
    assert_eq!(bytes[5], 1);
    assert_eq!(&bytes[6..14], &k.encode().to_le_bytes());
    assert_eq!(&bytes[14..22], &3u64.to_le_bytes());
    assert_eq!(&bytes[22..25], &payload[..]);
    assert_eq!(&bytes[25..], &Sha256::digest(&bytes[..25])[..]);
    assert_eq!(frame_key(KeyRole::Proving, &k, &payload)[5], 0);
}

#[test]
fn stored_key_loads_for_its_own_role_and_circuit() {
    let k = key(TransformationKind::Sharpen, 12, false);
    for payload in [vec![], vec![7u8], vec![1u8; 1000]] {
        for role in [KeyRole::Proving, KeyRole::Verifying] {
            let bytes = frame_key(role, &k, &payload);
            assert_eq!(unframe_key(&bytes, role, &k), Ok(payload.clone()));
        }
    }
}

#[test]
fn stored_key_is_refused_for_another_role_or_circuit() {
    let k = key(TransformationKind::Sharpen, 12, false);
    let bytes = frame_key(KeyRole::Proving, &k, &[1, 2, 3]);
    let r = unframe_key(&bytes, KeyRole::Verifying, &k);
    assert_eq!(r, Err(ZKIMGError::KeyMismatch));
    assert_eq!(r.unwrap_err().kind(), ErrorKind::Malformed);
    for other in [
        key(TransformationKind::Blur, 12, false),
        key(TransformationKind::Sharpen, 13, false),
        key(TransformationKind::Sharpen, 12, true),
    ] {
        assert_eq!(unframe_key(&bytes, KeyRole::Proving, &other), Err(ZKIMGError::KeyMismatch));
    }
}

#[test]
fn stored_key_is_refused_when_its_bytes_were_changed() {
    let k = key(TransformationKind::Crop, 17, true);
    let bytes = frame_key(KeyRole::Proving, &k, &[1, 2, 3, 4]);
    for i in 0..bytes.len() {
        let mut changed = bytes.clone();
        changed[i] ^= 0x01;
        assert_eq!(
            unframe_key(&changed, KeyRole::Proving, &k),
            Err(ZKIMGError::KeyMismatch),
            "byte {}",
            i
        );
    }
    let mut version = bytes.clone();
    version[4] = 2;
    assert_eq!(unframe_key(&version, KeyRole::Proving, &k), Err(ZKIMGError::KeyMismatch));
    for len in [0, 1, 21, 53, bytes.len() - 1] {
        assert_eq!(
            unframe_key(&bytes[..len], KeyRole::Proving, &k),
            Err(ZKIMGError::KeyMismatch)
        );
    }
    let mut longer = bytes.clone();
    longer.push(0);
    assert_eq!(unframe_key(&longer, KeyRole::Proving, &k), Err(ZKIMGError::KeyMismatch));
}
