//! Keys of circuits: what distinguishes one circuit shape from another, the
//! cache of generated keys, and the framing of keys for storage.

use crate::errors::ZKIMGError;
use crate::field::{lemma_limb_bytes_round_trip, limb_byte};
use crate::hashing::{sha256, sha256_digest, DIGEST_LEN};
use crate::recursive_circuit::bytes_equal;
use crate::Transformation;
use std::collections::HashMap;
use vstd::prelude::*;

verus! {

broadcast use vstd::std_specs::hash::group_hash_axioms;

/// The kind of a transformation, without its parameters.
#[derive(Clone, Copy, Debug, PartialEq, Eq, Structural)]
pub enum TransformationKind {
    Crop,
    Resize,
    Rotate,
    FlipHorizontal,
    FlipVertical,
    Translate,
    ToYCbCr,
    ToRGB,
    Grayscale,
    Sharpen,
    Blur,
    Contrast,
    Brightness,
    WhiteBalance,
    CropResize,
    GrayscaleContrast,
}

/// The kind of a transformation.
pub open spec fn kind_of(transformation: Transformation) -> TransformationKind {
    match transformation {
        Transformation::Crop { .. } => TransformationKind::Crop,
        Transformation::Resize { .. } => TransformationKind::Resize,
        Transformation::Rotate { .. } => TransformationKind::Rotate,
        Transformation::FlipHorizontal => TransformationKind::FlipHorizontal,
        Transformation::FlipVertical => TransformationKind::FlipVertical,
        Transformation::Translate { .. } => TransformationKind::Translate,
        Transformation::ToYCbCr => TransformationKind::ToYCbCr,
        Transformation::ToRGB => TransformationKind::ToRGB,
        Transformation::Grayscale => TransformationKind::Grayscale,
        Transformation::Sharpen => TransformationKind::Sharpen,
        Transformation::Blur => TransformationKind::Blur,
        Transformation::Contrast(_) => TransformationKind::Contrast,
        Transformation::Brightness(_) => TransformationKind::Brightness,
        Transformation::WhiteBalance => TransformationKind::WhiteBalance,
        Transformation::CropResize { .. } => TransformationKind::CropResize,
        Transformation::GrayscaleContrast { .. } => TransformationKind::GrayscaleContrast,
    }
}

/// The number of a kind, in the order the kinds are declared.
pub open spec fn kind_index(kind: TransformationKind) -> nat {
    match kind {
        TransformationKind::Crop => 0,
        TransformationKind::Resize => 1,
        TransformationKind::Rotate => 2,
        TransformationKind::FlipHorizontal => 3,
        TransformationKind::FlipVertical => 4,
        TransformationKind::Translate => 5,
        TransformationKind::ToYCbCr => 6,
        TransformationKind::ToRGB => 7,
        TransformationKind::Grayscale => 8,
        TransformationKind::Sharpen => 9,
        TransformationKind::Blur => 10,
        TransformationKind::Contrast => 11,
        TransformationKind::Brightness => 12,
        TransformationKind::WhiteBalance => 13,
        TransformationKind::CropResize => 14,
        TransformationKind::GrayscaleContrast => 15,
    }
}

impl Transformation {
    /// The kind of this transformation.
    pub fn kind(&self) -> (kind: TransformationKind)
        ensures
            kind == kind_of(*self),
    {
        match self {
            Transformation::Crop { .. } => TransformationKind::Crop,
            Transformation::Resize { .. } => TransformationKind::Resize,
            Transformation::Rotate { .. } => TransformationKind::Rotate,
            Transformation::FlipHorizontal => TransformationKind::FlipHorizontal,
            Transformation::FlipVertical => TransformationKind::FlipVertical,
            Transformation::Translate { .. } => TransformationKind::Translate,
            Transformation::ToYCbCr => TransformationKind::ToYCbCr,
            Transformation::ToRGB => TransformationKind::ToRGB,
            Transformation::Grayscale => TransformationKind::Grayscale,
            Transformation::Sharpen => TransformationKind::Sharpen,
            Transformation::Blur => TransformationKind::Blur,
            Transformation::Contrast(_) => TransformationKind::Contrast,
            Transformation::Brightness(_) => TransformationKind::Brightness,
            Transformation::WhiteBalance => TransformationKind::WhiteBalance,
            Transformation::CropResize { .. } => TransformationKind::CropResize,
            Transformation::GrayscaleContrast { .. } => TransformationKind::GrayscaleContrast,
        }
    }
}

impl TransformationKind {
    /// The number of this kind.
    pub fn index(&self) -> (i: u64)
        ensures
            i == kind_index(*self),
            i < 16,
    {
        match self {
            TransformationKind::Crop => 0,
            TransformationKind::Resize => 1,
            TransformationKind::Rotate => 2,
            TransformationKind::FlipHorizontal => 3,
            TransformationKind::FlipVertical => 4,
            TransformationKind::Translate => 5,
            TransformationKind::ToYCbCr => 6,
            TransformationKind::ToRGB => 7,
            TransformationKind::Grayscale => 8,
            TransformationKind::Sharpen => 9,
            TransformationKind::Blur => 10,
            TransformationKind::Contrast => 11,
            TransformationKind::Brightness => 12,
            TransformationKind::WhiteBalance => 13,
            TransformationKind::CropResize => 14,
            TransformationKind::GrayscaleContrast => 15,
        }
    }

    /// The kind with the given number, if there is one.
    pub fn from_index(i: u64) -> (kind: Option<TransformationKind>)
        ensures
            i < 16 <==> kind is Some,
            kind matches Some(found) ==> kind_index(found) == i,
    {
        match i {
            0 => Some(TransformationKind::Crop),
            1 => Some(TransformationKind::Resize),
            2 => Some(TransformationKind::Rotate),
            3 => Some(TransformationKind::FlipHorizontal),
            4 => Some(TransformationKind::FlipVertical),
            5 => Some(TransformationKind::Translate),
            6 => Some(TransformationKind::ToYCbCr),
            7 => Some(TransformationKind::ToRGB),
            8 => Some(TransformationKind::Grayscale),
            9 => Some(TransformationKind::Sharpen),
            10 => Some(TransformationKind::Blur),
            11 => Some(TransformationKind::Contrast),
            12 => Some(TransformationKind::Brightness),
            13 => Some(TransformationKind::WhiteBalance),
            14 => Some(TransformationKind::CropResize),
            15 => Some(TransformationKind::GrayscaleContrast),
            _ => None,
        }
    }
}

/// What distinguishes one circuit shape from another: the kind of the
/// transformation, the size exponent, and whether operations are fused.
#[derive(Clone, Copy, Debug, PartialEq, Eq, Structural)]
pub struct CircuitKey {
    pub kind: TransformationKind,
    pub k: u32,
    pub fused: bool,
}

/// The number that stands for a circuit key: the kind's number in the bits
/// from 33 up, the size exponent in bits 1 to 32, the fusion flag in bit 0.
pub open spec fn encoding_of(key: CircuitKey) -> nat {
    kind_index(key.kind) * 0x2_0000_0000 + (key.k as nat) * 2 + (if key.fused {
        1nat
    } else {
        0nat
    })
}

/// Two circuit keys with the same number are the same key.
pub proof fn lemma_encoding_injective(a: CircuitKey, b: CircuitKey)
    requires
        encoding_of(a) == encoding_of(b),
    ensures
        a == b,
{
    let fa: nat = if a.fused {
        1
    } else {
        0
    };
    let fb: nat = if b.fused {
        1
    } else {
        0
    };
    let ra = (a.k as nat) * 2 + fa;
    let rb = (b.k as nat) * 2 + fb;
    assert(ra < 0x2_0000_0000 && rb < 0x2_0000_0000);
    assert(kind_index(a.kind) == kind_index(b.kind) && ra == rb) by {
        vstd::arithmetic::div_mod::lemma_fundamental_div_mod_converse(
            encoding_of(a) as int,
            0x2_0000_0000,
            kind_index(a.kind) as int,
            ra as int,
        );
        vstd::arithmetic::div_mod::lemma_fundamental_div_mod_converse(
            encoding_of(b) as int,
            0x2_0000_0000,
            kind_index(b.kind) as int,
            rb as int,
        );
    }
}

impl CircuitKey {
    /// The key of the circuit for one transformation.
    pub fn new(transformation: &Transformation, k: u32, fused: bool) -> (key: CircuitKey)
        ensures
            key == (CircuitKey { kind: kind_of(*transformation), k, fused }),
    {
        CircuitKey { kind: transformation.kind(), k, fused }
    }

    /// The number that stands for this key.
    pub fn encode(&self) -> (code: u64)
        ensures
            code == encoding_of(*self),
    {
        let flag: u64 = if self.fused {
            1
        } else {
            0
        };
        self.kind.index() * 0x2_0000_0000 + (self.k as u64) * 2 + flag
    }

    /// The key that a number stands for, if it stands for one.
    pub fn decode(code: u64) -> (r: Option<CircuitKey>)
        ensures
            r matches Some(key) ==> encoding_of(key) == code,
            r is None ==> forall|key: CircuitKey| encoding_of(key) != code,
    {
        let index: u64 = code / 0x2_0000_0000;
        let rest: u64 = code % 0x2_0000_0000;
        match TransformationKind::from_index(index) {
            Some(kind) => {
                let key = CircuitKey { kind, k: (rest / 2) as u32, fused: rest % 2 == 1 };
                Some(key)
            },
            None => {
                proof {
                    assert forall|key: CircuitKey| encoding_of(key) != code by {
                        let f: nat = if key.fused {
                            1
                        } else {
                            0
                        };
                        if encoding_of(key) == code {
                            vstd::arithmetic::div_mod::lemma_fundamental_div_mod_converse(
                                code as int,
                                0x2_0000_0000,
                                kind_index(key.kind) as int,
                                ((key.k as nat) * 2 + f) as int,
                            );
                        }
                    }
                }
                None
            },
        }
    }
}

/// The keys generated so far, one blob per circuit key. A circuit whose
/// key is in the cache needs no key generation.
pub struct KeyCache {
    entries: HashMap<u64, Vec<u8>>,
}

impl View for KeyCache {
    type V = Map<CircuitKey, Seq<u8>>;

    /// The blob stored for each circuit key.
    closed spec fn view(&self) -> Map<CircuitKey, Seq<u8>> {
        Map::new(
            |key: CircuitKey| self.entries@.contains_key(encoding_of(key) as u64),
            |key: CircuitKey| self.entries@[encoding_of(key) as u64]@,
        )
    }
}

impl KeyCache {
    /// An empty cache.
    pub fn new() -> (cache: KeyCache)
        ensures
            cache@ == Map::<CircuitKey, Seq<u8>>::empty(),
    {
        let cache = KeyCache { entries: HashMap::new() };
        proof {
            assert(cache@ =~= Map::<CircuitKey, Seq<u8>>::empty());
        }
        cache
    }

    /// Stores the blob for a circuit key, in place of any stored before.
    /// No other key is touched.
    pub fn insert(&mut self, key: &CircuitKey, blob: Vec<u8>)
        ensures
            final(self)@ == old(self)@.insert(*key, blob@),
    {
        let code = key.encode();
        self.entries.insert(code, blob);
        proof {
            assert forall|other: CircuitKey| other != *key implies encoding_of(other)
                != encoding_of(*key) by {
                if encoding_of(other) == encoding_of(*key) {
                    lemma_encoding_injective(other, *key);
                }
            }
            assert(self@ =~= old(self)@.insert(*key, blob@));
        }
    }

    /// The blob stored for a circuit key, if there is one.
    pub fn get(&self, key: &CircuitKey) -> (r: Option<&Vec<u8>>)
        ensures
            match r {
                Some(blob) => self@.contains_key(*key) && blob@ == self@[*key],
                None => !self@.contains_key(*key),
            },
    {
        let code = key.encode();
        self.entries.get(&code)
    }

    /// Whether a blob is stored for a circuit key.
    pub fn contains(&self, key: &CircuitKey) -> (r: bool)
        ensures
            r == self@.contains_key(*key),
    {
        let code = key.encode();
        self.entries.contains_key(&code)
    }
}

/// What a stored key is for.
#[derive(Clone, Copy, Debug, PartialEq, Eq, Structural)]
pub enum KeyRole {
    Proving,
    Verifying,
}

/// The byte that stands for a role.
pub open spec fn role_byte(role: KeyRole) -> u8 {
    match role {
        KeyRole::Proving => 0u8,
        KeyRole::Verifying => 1u8,
    }
}

/// The version of the format in which keys are stored.
pub const KEY_FORMAT_VERSION: u8 = 1;

/// The length of the header of a stored key.
pub const KEY_HEADER_LEN: usize = 22;

/// The four bytes that start a stored key.
pub open spec fn key_magic() -> Seq<u8> {
    seq![0x5Au8, 0x4Bu8, 0x49u8, 0x4Du8]
}

/// The eight bytes of a number, least significant first.
pub open spec fn u64_bytes(v: u64) -> Seq<u8> {
    Seq::new(8, |j: int| limb_byte(v, j))
}

/// The header of a stored key: the magic bytes, the format version, the
/// role, the number of the circuit key and the length of the payload.
pub open spec fn key_header(role: KeyRole, code: u64, payload_len: u64) -> Seq<u8> {
    key_magic() + seq![KEY_FORMAT_VERSION] + seq![role_byte(role)] + u64_bytes(code) + u64_bytes(
        payload_len,
    )
}

/// A key as it is stored: the header, the payload, and the SHA-256 digest
/// of the two.
pub open spec fn framed(role: KeyRole, code: u64, payload: Seq<u8>) -> Seq<u8> {
    let body = key_header(role, code, payload.len() as u64) + payload;
    body + sha256(body)
}

/// The payload of a stored key, if the bytes are a key stored for the
/// given role and circuit key: they must be long enough, start with the
/// header that belongs to the role, the circuit key and their own length,
/// and end with the digest of all that stands before it.
pub open spec fn unframed(bytes: Seq<u8>, role: KeyRole, code: u64) -> Option<Seq<u8>> {
    let payload_len = bytes.len() - KEY_HEADER_LEN - DIGEST_LEN;
    if payload_len < 0 || payload_len > u64::MAX {
        None
    } else {
        let body = bytes.take(KEY_HEADER_LEN + payload_len);
        if body.take(KEY_HEADER_LEN as int) == key_header(role, code, payload_len as u64)
            && bytes.skip(KEY_HEADER_LEN + payload_len) == sha256(body) {
            Some(body.skip(KEY_HEADER_LEN as int))
        } else {
            None
        }
    }
}

/// Two numbers with the same eight bytes are the same.
pub proof fn lemma_u64_bytes_injective(a: u64, b: u64)
    requires
        u64_bytes(a) == u64_bytes(b),
    ensures
        a == b,
{
    lemma_limb_bytes_round_trip(a);
    lemma_limb_bytes_round_trip(b);
}

/// Two headers are the same only for the same role, circuit key and
/// payload length.
pub proof fn lemma_key_header_injective(
    role: KeyRole,
    code: u64,
    len: u64,
    role2: KeyRole,
    code2: u64,
    len2: u64,
)
    requires
        key_header(role, code, len) == key_header(role2, code2, len2),
    ensures
        role == role2,
        code == code2,
        len == len2,
{
    let h = key_header(role, code, len);
    let h2 = key_header(role2, code2, len2);
    assert(h[5] == role_byte(role));
    assert(h2[5] == role_byte(role2));
    assert(u64_bytes(code) =~= h.subrange(6, 14));
    assert(u64_bytes(code2) =~= h2.subrange(6, 14));
    assert(u64_bytes(len) =~= h.subrange(14, 22));
    assert(u64_bytes(len2) =~= h2.subrange(14, 22));
    lemma_u64_bytes_injective(code, code2);
    lemma_u64_bytes_injective(len, len2);
}

/// Appends the eight bytes of a number, least significant first.
fn push_u64(out: &mut Vec<u8>, v: u64)
    ensures
        final(out)@ == old(out)@ + u64_bytes(v),
{
    let mut j: u64 = 0;
    while j < 8
        invariant
            j <= 8,
            out@ == old(out)@ + u64_bytes(v).take(j as int),
        decreases 8 - j,
    {
        let shift: u64 = 8 * j;
        let byte: u8 = ((v >> shift) & 0xff) as u8;
        out.push(byte);
        proof {
            assert(out@ =~= old(out)@ + u64_bytes(v).take(j + 1));
        }
        j = j + 1;
    }
    proof {
        assert(u64_bytes(v).take(8) =~= u64_bytes(v));
    }
}

/// The header of a stored key.
fn make_header(role: KeyRole, code: u64, payload_len: u64) -> (header: Vec<u8>)
    ensures
        header@ == key_header(role, code, payload_len),
        header@.len() == KEY_HEADER_LEN,
{
    let mut header: Vec<u8> = Vec::new();
    header.push(0x5A);
    header.push(0x4B);
    header.push(0x49);
    header.push(0x4D);
    header.push(KEY_FORMAT_VERSION);
    header.push(
        match role {
            KeyRole::Proving => 0,
            KeyRole::Verifying => 1,
        },
    );
    proof {
        assert(header@ =~= key_magic() + seq![KEY_FORMAT_VERSION] + seq![role_byte(role)]);
    }
    push_u64(&mut header, code);
    push_u64(&mut header, payload_len);
    header
}

/// Frames a key for storage under its role and circuit key. Loading the
/// result for the same role and circuit key gives the payload back;
/// loading it for any other role or circuit key fails.
pub fn frame_key(role: KeyRole, key: &CircuitKey, payload: &[u8]) -> (bytes: Vec<u8>)
    ensures
        bytes@ == framed(role, encoding_of(*key) as u64, payload@),
        unframed(bytes@, role, encoding_of(*key) as u64) == Some(payload@),
        forall|other_role: KeyRole, other: CircuitKey|
            other_role != role || other != *key ==> #[trigger] unframed(
                bytes@,
                other_role,
                encoding_of(other) as u64,
            ) is None,
{
    let code = key.encode();
    let mut bytes = make_header(role, code, payload.len() as u64);
    let ghost header = bytes@;
    let mut i: usize = 0;
    while i < payload.len()
        invariant
            i <= payload@.len(),
            bytes@ == header + payload@.take(i as int),
        decreases payload@.len() - i,
    {
        bytes.push(payload[i]);
        proof {
            assert(bytes@ =~= header + payload@.take(i + 1));
        }
        i = i + 1;
    }
    proof {
        assert(payload@.take(i as int) =~= payload@);
    }
    let ghost body = bytes@;
    let mut digest = sha256_digest(bytes.as_slice());
    bytes.append(&mut digest);
    proof {
        let all = bytes@;
        assert(all.take(KEY_HEADER_LEN + payload@.len()) =~= body);
        assert(all.skip(KEY_HEADER_LEN + payload@.len()) =~= sha256(body));
        assert(body.take(KEY_HEADER_LEN as int) =~= header);
        assert(body.skip(KEY_HEADER_LEN as int) =~= payload@);
        assert forall|other_role: KeyRole, other: CircuitKey|
            other_role != role || other != *key implies #[trigger] unframed(
            all,
            other_role,
            encoding_of(other) as u64,
        ) is None by {
            if unframed(all, other_role, encoding_of(other) as u64) is Some {
                lemma_key_header_injective(
                    role,
                    code,
                    payload@.len() as u64,
                    other_role,
                    encoding_of(other) as u64,
                    payload@.len() as u64,
                );
                lemma_encoding_injective(other, *key);
            }
        }
    }
    bytes
}

/// Loads a stored key for the given role and circuit key. Fails rather
/// than hand out a key that was stored for another role, another circuit
/// or in another format, or whose bytes were changed.
pub fn unframe_key(bytes: &[u8], role: KeyRole, key: &CircuitKey) -> (r: Result<Vec<u8>, ZKIMGError>)
    ensures
        match r {
            Ok(payload) => unframed(bytes@, role, encoding_of(*key) as u64) == Some(payload@),
            Err(e) => e == ZKIMGError::KeyMismatch && unframed(
                bytes@,
                role,
                encoding_of(*key) as u64,
            ) is None,
        },
{
    if bytes.len() < KEY_HEADER_LEN + DIGEST_LEN {
        return Err(ZKIMGError::KeyMismatch);
    }
    let payload_len: usize = bytes.len() - KEY_HEADER_LEN - DIGEST_LEN;
    let body_len: usize = KEY_HEADER_LEN + payload_len;
    let header = make_header(role, key.encode(), payload_len as u64);
    let ghost body = bytes@.take(body_len as int);
    let mut i: usize = 0;
    while i < KEY_HEADER_LEN
        invariant
            i <= KEY_HEADER_LEN,
            header@.len() == KEY_HEADER_LEN,
            header@ == key_header(role, encoding_of(*key) as u64, payload_len as u64),
            bytes@.len() == KEY_HEADER_LEN + payload_len + DIGEST_LEN,
            body_len == KEY_HEADER_LEN + payload_len,
            body == bytes@.take(body_len as int),
            forall|j: int| 0 <= j < i ==> bytes@[j] == header@[j],
        decreases KEY_HEADER_LEN - i,
    {
        if bytes[i] != header[i] {
            proof {
                assert(body.take(KEY_HEADER_LEN as int)[i as int] != header@[i as int]);
            }
            return Err(ZKIMGError::KeyMismatch);
        }
        i = i + 1;
    }
    proof {
        assert(body.take(KEY_HEADER_LEN as int) =~= header@);
    }
    let mut covered: Vec<u8> = Vec::new();
    let mut payload: Vec<u8> = Vec::new();
    let mut j: usize = 0;
    while j < body_len
        invariant
            j <= body_len,
            body_len == KEY_HEADER_LEN + payload_len,
            body_len + DIGEST_LEN == bytes@.len(),
            covered@ == bytes@.take(j as int),
            j <= KEY_HEADER_LEN ==> payload@.len() == 0,
            j >= KEY_HEADER_LEN ==> payload@ == bytes@.subrange(KEY_HEADER_LEN as int, j as int),
        decreases body_len - j,
    {
        covered.push(bytes[j]);
        if j >= KEY_HEADER_LEN {
            payload.push(bytes[j]);
        }
        proof {
            assert(covered@ =~= bytes@.take(j + 1));
            if j >= KEY_HEADER_LEN {
                assert(payload@ =~= bytes@.subrange(KEY_HEADER_LEN as int, j + 1));
            }
        }
        j = j + 1;
    }
    let digest = sha256_digest(covered.as_slice());
    let mut stored: Vec<u8> = Vec::new();
    let mut t: usize = body_len;
    while t < bytes.len()
        invariant
            body_len <= t <= bytes@.len(),
            stored@ == bytes@.subrange(body_len as int, t as int),
        decreases bytes@.len() - t,
    {
        stored.push(bytes[t]);
        proof {
            assert(stored@ =~= bytes@.subrange(body_len as int, t + 1));
        }
        t = t + 1;
    }
    proof {
        assert(stored@ =~= bytes@.skip(body_len as int));
        assert(payload@ =~= body.skip(KEY_HEADER_LEN as int));
    }
    if bytes_equal(stored.as_slice(), digest.as_slice()) {
        Ok(payload)
    } else {
        Err(ZKIMGError::KeyMismatch)
    }
}

} // verus!
