//! Zero-knowledge attestation of image edits: the data model, the codec
//! between pixels and field elements, the fusion of transformation chains,
//! tiling and aggregation of tile proofs, and the rules that decide whether
//! a chain of proofs is accepted.

pub mod circuits;
pub mod errors;
pub mod field;
pub mod hashing;
pub mod image_utils;
pub mod keys;
pub mod merkle;
pub mod proof_system;
pub mod recursive_circuit;
pub mod tiling;
pub mod transforms;

pub use crate::circuits::{
    FusedOperation, FusedOperationCircuit, HDImageCircuit, OptimizedZKIMGCircuit, ZKIMGCircuit,
};
pub use crate::errors::{BackendError, ErrorKind, ZKIMGError};
pub use crate::field::FieldElement;
pub use crate::image_utils::{
    calculate_poseidon_image_hash, chunk_image, field_matrix_to_image, field_to_rgb,
    image_to_field_matrix, rgb_to_field, validate_image_for_zk, ImageMetrics, PixelMatrix,
};
pub use crate::proof_system::{ChainLink, HDProcessor, RecursiveProofSystem, ZKIMGProofSystem};
pub use crate::recursive_circuit::{ProofAggregator, RecursiveZKIMGCircuit};
pub use crate::transforms::{field_elements_to_image, image_to_field_elements};

use crate::circuits::{hash_window, window_digest};
use crate::image_utils::{encode_grid, validation_of};
use crate::keys::{CircuitKey, KeyCache};
use crate::proof_system::MAX_K;
use crate::transforms::channel_grid;
use vstd::prelude::*;

verus! {

/// Settings of the proof system.
#[derive(Clone, Copy, Debug, PartialEq, Eq)]
pub struct ZKIMGConfig {
    /// The largest number of pixels an image may have.
    pub max_image_size: usize,
    /// The size exponent: circuits have `2^k` rows.
    pub k: u32,
    /// Whether adjacent operations are fused before proving.
    pub enable_operation_fusion: bool,
    /// Whether digests inside the circuit use the algebraic hash.
    pub use_poseidon: bool,
}

impl Default for ZKIMGConfig {
    /// A 1280x720 image at `k = 17`, with fusion and the algebraic hash.
    fn default() -> (r: ZKIMGConfig)
        ensures
            r.max_image_size == 921600,
            r.k == 17,
            r.enable_operation_fusion,
            r.use_poseidon,
    {
        ZKIMGConfig {
            max_image_size: 921600,
            k: 17,
            enable_operation_fusion: true,
            use_poseidon: true,
        }
    }
}

/// A 32-bit IEEE-754 number, carried by its bit pattern. The library moves
/// such numbers around and never computes with them.
#[derive(Clone, Copy, Debug, PartialEq, Eq, Structural)]
pub struct F32Bits {
    pub bits: u32,
}

impl F32Bits {
    /// The number with the given bit pattern.
    pub fn from_bits(bits: u32) -> (r: F32Bits)
        ensures
            r.bits == bits,
    {
        F32Bits { bits }
    }

    /// The bit pattern.
    pub fn to_bits(&self) -> (r: u32)
        ensures
            r == self.bits,
    {
        self.bits
    }
}

/// The supported image transformations.
#[derive(Clone, Copy, Debug, PartialEq, Eq, Structural)]
pub enum Transformation {
    Crop { x: u32, y: u32, width: u32, height: u32 },
    Resize { width: u32, height: u32 },
    Rotate { degrees: F32Bits },
    FlipHorizontal,
    FlipVertical,
    Translate { dx: i32, dy: i32 },
    ToYCbCr,
    ToRGB,
    Grayscale,
    Sharpen,
    Blur,
    Contrast(F32Bits),
    Brightness(F32Bits),
    WhiteBalance,
    /// A crop followed by a resize, as one operation.
    CropResize {
        crop_x: u32,
        crop_y: u32,
        crop_width: u32,
        crop_height: u32,
        resize_width: u32,
        resize_height: u32,
    },
    /// A grayscale conversion followed by a contrast change, as one operation.
    GrayscaleContrast { contrast: F32Bits },
}

/// The operation that stands for `first` followed by `second`, where the
/// two can be fused.
pub open spec fn fuse_pair(first: Transformation, second: Transformation) -> Option<
    Transformation,
> {
    match (first, second) {
        (
            Transformation::Crop { x, y, width, height },
            Transformation::Resize { width: resize_width, height: resize_height },
        ) => Some(
            Transformation::CropResize {
                crop_x: x,
                crop_y: y,
                crop_width: width,
                crop_height: height,
                resize_width,
                resize_height,
            },
        ),
        (Transformation::Grayscale, Transformation::Contrast(contrast)) => Some(
            Transformation::GrayscaleContrast { contrast },
        ),
        _ => None,
    }
}

/// One pass over a chain from the left: a fusable pair becomes its fused
/// operation and both are consumed, anything else passes through. What has
/// been emitted is not looked at again.
pub open spec fn fuse_chain(chain: Seq<Transformation>) -> Seq<Transformation>
    decreases chain.len(),
{
    if chain.len() == 0 {
        Seq::empty()
    } else if chain.len() >= 2 && fuse_pair(chain[0], chain[1]).is_some() {
        seq![fuse_pair(chain[0], chain[1]).unwrap()] + fuse_chain(chain.skip(2))
    } else {
        seq![chain[0]] + fuse_chain(chain.skip(1))
    }
}

/// The exec counterpart of [`fuse_pair`].
pub fn try_fuse(first: Transformation, second: Transformation) -> (r: Option<Transformation>)
    ensures
        r == fuse_pair(first, second),
{
    match (first, second) {
        (
            Transformation::Crop { x, y, width, height },
            Transformation::Resize { width: resize_width, height: resize_height },
        ) => Some(
            Transformation::CropResize {
                crop_x: x,
                crop_y: y,
                crop_width: width,
                crop_height: height,
                resize_width,
                resize_height,
            },
        ),
        (Transformation::Grayscale, Transformation::Contrast(contrast)) => Some(
            Transformation::GrayscaleContrast { contrast },
        ),
        _ => None,
    }
}

/// A crop followed by a resize fuses to exactly one crop-and-resize that
/// carries the same six parameters.
pub proof fn lemma_fuse_crop_then_resize(
    x: u32,
    y: u32,
    width: u32,
    height: u32,
    resize_width: u32,
    resize_height: u32,
)
    ensures
        fuse_chain(
            seq![
                Transformation::Crop { x, y, width, height },
                Transformation::Resize { width: resize_width, height: resize_height },
            ],
        ) == seq![
            Transformation::CropResize {
                crop_x: x,
                crop_y: y,
                crop_width: width,
                crop_height: height,
                resize_width,
                resize_height,
            },
        ],
{
    let chain = seq![
        Transformation::Crop { x, y, width, height },
        Transformation::Resize { width: resize_width, height: resize_height },
    ];
    reveal_with_fuel(fuse_chain, 2);
    assert(chain.skip(2) =~= Seq::<Transformation>::empty());
    assert(fuse_chain(chain) =~= seq![fuse_pair(chain[0], chain[1]).unwrap()]);
}

/// Grayscale followed by a contrast change fuses to exactly one operation
/// that carries the same factor.
pub proof fn lemma_fuse_grayscale_then_contrast(contrast: F32Bits)
    ensures
        fuse_chain(seq![Transformation::Grayscale, Transformation::Contrast(contrast)])
            == seq![Transformation::GrayscaleContrast { contrast }],
{
    let chain = seq![Transformation::Grayscale, Transformation::Contrast(contrast)];
    reveal_with_fuel(fuse_chain, 2);
    assert(chain.skip(2) =~= Seq::<Transformation>::empty());
    assert(fuse_chain(chain) =~= seq![fuse_pair(chain[0], chain[1]).unwrap()]);
}

/// Two adjacent operations that cannot be fused are left unchanged and in
/// order.
pub proof fn lemma_fuse_keeps_unfusable_pair(first: Transformation, second: Transformation)
    requires
        fuse_pair(first, second) is None,
    ensures
        fuse_chain(seq![first, second]) == seq![first, second],
{
    let chain = seq![first, second];
    reveal_with_fuel(fuse_chain, 3);
    assert(chain.skip(1) =~= seq![second]);
    assert(chain.skip(1).skip(1) =~= Seq::<Transformation>::empty());
    assert(fuse_chain(chain) =~= chain);
}

/// A chain in which no two neighbours can be fused passes through unchanged.
pub proof fn lemma_fuse_without_pairs_is_identity(chain: Seq<Transformation>)
    requires
        forall|i: int| 0 <= i < chain.len() - 1 ==> fuse_pair(#[trigger] chain[i], chain[i + 1]) is None,
    ensures
        fuse_chain(chain) == chain,
    decreases chain.len(),
{
    if chain.len() > 0 {
        let rest = chain.skip(1);
        assert forall|i: int| 0 <= i < rest.len() - 1 implies fuse_pair(
            #[trigger] rest[i],
            rest[i + 1],
        ) is None by {
            assert(rest[i] == chain[i + 1]);
            assert(rest[i + 1] == chain[i + 1 + 1]);
        }
        lemma_fuse_without_pairs_is_identity(rest);
        if chain.len() >= 2 {
            assert(fuse_pair(chain[0int], chain[0int + 1]) is None);
        }
        assert(seq![chain[0]] + rest =~= chain);
    } else {
        assert(chain =~= Seq::<Transformation>::empty());
    }
}

/// Fusion never lengthens a chain, and shortens it by at most half.
pub proof fn lemma_fuse_length(chain: Seq<Transformation>)
    ensures
        fuse_chain(chain).len() <= chain.len(),
        chain.len() <= 2 * fuse_chain(chain).len(),
    decreases chain.len(),
{
    if chain.len() == 0 {
    } else if chain.len() >= 2 && fuse_pair(chain[0], chain[1]).is_some() {
        lemma_fuse_length(chain.skip(2));
    } else {
        lemma_fuse_length(chain.skip(1));
    }
}

/// The entry point of the library: holds the settings and the keys
/// generated so far, one per circuit shape.
pub struct ZKIMGSystem {
    config: ZKIMGConfig,
    circuit_cache: KeyCache,
}

impl ZKIMGSystem {
    /// The settings this system was made with.
    pub closed spec fn spec_config(&self) -> ZKIMGConfig {
        self.config
    }

    /// The keys generated so far.
    pub closed spec fn spec_cache(&self) -> Map<CircuitKey, Seq<u8>> {
        self.circuit_cache@
    }

    /// A system with the given settings and no keys.
    pub fn new(config: ZKIMGConfig) -> (r: ZKIMGSystem)
        ensures
            r.spec_config() == config,
            r.spec_cache() == Map::<CircuitKey, Seq<u8>>::empty(),
    {
        ZKIMGSystem { config, circuit_cache: KeyCache::new() }
    }

    /// The keys generated for a circuit shape, if they were generated
    /// before. A shape found here needs no setup.
    pub fn cached_keys(&self, key: &CircuitKey) -> (r: Option<&Vec<u8>>)
        ensures
            match r {
                Some(blob) => self.spec_cache().contains_key(*key) && blob@ == self.spec_cache()[*key],
                None => !self.spec_cache().contains_key(*key),
            },
    {
        self.circuit_cache.get(key)
    }

    /// Keeps the keys generated for a circuit shape. The settings and the
    /// keys of other shapes stay as they are.
    pub fn store_keys(&mut self, key: &CircuitKey, blob: Vec<u8>)
        ensures
            final(self).spec_config() == old(self).spec_config(),
            final(self).spec_cache() == old(self).spec_cache().insert(*key, blob@),
    {
        self.circuit_cache.insert(key, blob);
    }

    /// The settings this system was made with.
    pub fn config(&self) -> (r: ZKIMGConfig)
        ensures
            r == self.spec_config(),
    {
        self.config
    }

    /// Fuses a chain in one pass from the left. Every chain can be fused:
    /// the result is never an error.
    pub fn fuse_operations(&self, transformations: &[Transformation]) -> (r: Result<
        Vec<Transformation>,
        ZKIMGError,
    >)
        ensures
            r is Ok,
            r->Ok_0@ == fuse_chain(transformations@),
    {
        let mut fused: Vec<Transformation> = Vec::new();
        let mut i: usize = 0;
        let n = transformations.len();
        proof {
            assert(transformations@.skip(0) =~= transformations@);
        }
        while i < n
            invariant
                n == transformations@.len(),
                i <= n,
                fuse_chain(transformations@) == fused@ + fuse_chain(
                    transformations@.skip(i as int),
                ),
            decreases n - i,
        {
            let ghost rest = transformations@.skip(i as int);
            let ghost before = fused@;
            let mut step: usize = 1;
            let mut emitted = transformations[i];
            if i + 1 < n {
                if let Some(both) = try_fuse(transformations[i], transformations[i + 1]) {
                    emitted = both;
                    step = 2;
                }
            }
            fused.push(emitted);
            proof {
                assert(rest[0] == transformations@[i as int]);
                if rest.len() >= 2 {
                    assert(rest[1] == transformations@[i + 1]);
                }
                assert(rest.skip(step as int) =~= transformations@.skip(i + step));
                assert(fuse_chain(rest) == seq![emitted] + fuse_chain(rest.skip(step as int)));
                assert(before + (seq![emitted] + fuse_chain(rest.skip(step as int)))
                    =~= before.push(emitted) + fuse_chain(rest.skip(step as int)));
            }
            i = i + step;
        }
        proof {
            assert(transformations@.skip(n as int) =~= Seq::<Transformation>::empty());
            assert(fused@ + Seq::<Transformation>::empty() =~= fused@);
        }
        Ok(fused)
    }

    /// The key under which the keys of a chain's circuit are cached: the
    /// kind of the chain's first transformation, the size exponent and the
    /// fusion flag of the settings. An empty chain has no key.
    pub fn circuit_key(&self, chain: &[Transformation]) -> (r: Option<CircuitKey>)
        ensures
            chain@.len() == 0 ==> r is None,
            chain@.len() > 0 ==> r == Some(
                CircuitKey {
                    kind: crate::keys::kind_of(chain@[0]),
                    k: self.spec_config().k,
                    fused: self.spec_config().enable_operation_fusion,
                },
            ),
    {
        if chain.len() == 0 {
            None
        } else {
            Some(CircuitKey::new(&chain[0], self.config.k, self.config.enable_operation_fusion))
        }
    }

    /// The chain as it is proved: fused where fusion is switched on, else
    /// as it was given.
    pub open spec fn chain_to_prove(&self, transformations: Seq<Transformation>) -> Seq<
        Transformation,
    > {
        if self.spec_config().enable_operation_fusion {
            fuse_chain(transformations)
        } else {
            transformations
        }
    }

    /// Why a request to prove is refused, if it is: the size exponent is
    /// checked first, then the image.
    pub open spec fn refusal_of(&self, width: nat, height: nat) -> Option<ZKIMGError> {
        if self.spec_config().k > MAX_K {
            Some(ZKIMGError::InvalidSizeParameter { k: self.spec_config().k })
        } else {
            match validation_of(width, height, self.spec_config().max_image_size) {
                Err(e) => Some(e),
                Ok(()) => None,
            }
        }
    }

    /// Prepares the proof of a chain of transformations on an image: checks
    /// the settings and the image, fuses the chain where fusion is
    /// switched on, encodes the pixels and commits to them. What comes
    /// back is what the prover needs; nothing has been proved yet.
    pub fn prepare_proof(&self, original_image: &PixelMatrix, transformations: &[Transformation]) -> (r:
        Result<ProofRequest, ZKIMGError>)
        ensures
            match r {
                Ok(request) => {
                    &&& self.refusal_of(original_image.spec_width(), original_image.spec_height())
                        is None
                    &&& request.chain@ == self.chain_to_prove(transformations@)
                    &&& request.k == self.spec_config().k
                    &&& channel_grid(request.circuit.image_pixels@) == encode_grid(original_image@)
                    &&& request.circuit.input_hash@ == window_digest(encode_grid(original_image@))
                    &&& request.circuit.output_hash@ == window_digest(encode_grid(original_image@))
                    &&& request.circuit.transformation_params@.len() == 0
                    &&& request.circuit.wf()
                    &&& request.circuit.satisfied()
                },
                Err(e) => self.refusal_of(original_image.spec_width(), original_image.spec_height())
                    == Some(e),
            },
    {
        if self.config.k > MAX_K {
            return Err(ZKIMGError::InvalidSizeParameter { k: self.config.k });
        }
        match validate_image_for_zk(original_image, self.config.max_image_size) {
            Err(e) => {
                return Err(e);
            },
            Ok(()) => {},
        }
        let chain = if self.config.enable_operation_fusion {
            match self.fuse_operations(transformations) {
                Ok(fused) => fused,
                Err(e) => {
                    return Err(e);
                },
            }
        } else {
            copy_chain(transformations)
        };
        let image_pixels = image_to_field_elements(original_image);
        let digest = hash_window(image_pixels.as_slice());
        let circuit = ZKIMGCircuit {
            image_pixels,
            transformation_params: Vec::new(),
            input_hash: digest,
            output_hash: digest,
        };
        Ok(ProofRequest { chain, k: self.config.k, circuit })
    }

    /// What [`ZKIMGSystem::complete_proof`] makes of the prover's outcome:
    /// the bytes of a proof, or the error that the failure stands for.
    pub open spec fn completion_of(outcome: Result<Vec<u8>, BackendError>) -> Result<
        Seq<u8>,
        ZKIMGError,
    > {
        match outcome {
            Ok(bytes) => Ok(bytes@),
            Err(e) => Err(ZKIMGProofSystem::proving_error_of(e)),
        }
    }

    /// Puts the proof together once the prover is done with a request:
    /// the prover's bytes, the two digests of the request as public
    /// inputs, the chain of the request, and the verifying key. Where the
    /// prover failed, its failure is handed on in the library's terms.
    pub fn complete_proof(
        &self,
        request: ProofRequest,
        outcome: Result<Vec<u8>, BackendError>,
        verification_key: Vec<u8>,
    ) -> (r: Result<ZKIMGProof, ZKIMGError>)
        ensures
            match r {
                Ok(proof) => {
                    &&& Self::completion_of(outcome) == Ok::<Seq<u8>, ZKIMGError>(
                        proof.spec_proof_bytes(),
                    )
                    &&& proof.spec_public_inputs() == seq![
                        request.circuit.input_hash,
                        request.circuit.output_hash,
                    ]
                    &&& proof.spec_transformation_chain() == request.chain@
                    &&& proof.spec_verification_key() == verification_key@
                    &&& proof.wf()
                },
                Err(e) => Self::completion_of(outcome) == Err::<Seq<u8>, ZKIMGError>(e),
            },
    {
        let bytes = match ZKIMGProofSystem::proving_result(outcome) {
            Ok(bytes) => bytes,
            Err(e) => {
                return Err(e);
            },
        };
        let public_inputs = request.circuit.public_inputs();
        ZKIMGProof::new(bytes, public_inputs, request.chain, verification_key)
    }

    /// What [`ZKIMGSystem::verify_proof`] returns: `false` where the
    /// public inputs are not those the proof was made for, else what the
    /// backend's outcome means.
    pub open spec fn verdict_of(
        proof: &ZKIMGProof,
        public_inputs: Seq<FieldElement>,
        outcome: Result<(), BackendError>,
    ) -> Result<bool, ZKIMGError> {
        if crate::hashing::values_of(public_inputs) != crate::hashing::values_of(
            proof.spec_public_inputs(),
        ) {
            Ok(false)
        } else {
            ZKIMGProofSystem::verification_of(outcome)
        }
    }

    /// Decides on a proof, given the public inputs that the verifier holds
    /// and the outcome of the backend's check of the proof bytes.
    pub fn verify_proof(
        &self,
        proof: &ZKIMGProof,
        public_inputs: &[FieldElement],
        outcome: Result<(), BackendError>,
    ) -> (r: Result<bool, ZKIMGError>)
        ensures
            r == Self::verdict_of(proof, public_inputs@, outcome),
    {
        if !same_elements(public_inputs, proof.public_inputs()) {
            return Ok(false);
        }
        ZKIMGProofSystem::verification_result(outcome)
    }
}

/// A proof is never accepted for public inputs other than those it was
/// made for, whatever the backend says of its bytes.
pub proof fn lemma_altered_inputs_are_rejected(
    proof: &ZKIMGProof,
    public_inputs: Seq<FieldElement>,
    outcome: Result<(), BackendError>,
)
    requires
        crate::hashing::values_of(public_inputs) != crate::hashing::values_of(
            proof.spec_public_inputs(),
        ),
    ensures
        ZKIMGSystem::verdict_of(proof, public_inputs, outcome) == Ok::<bool, ZKIMGError>(false),
{
}

/// A proof is accepted only if the backend accepts its bytes: any failure
/// of the backend gives `false` or an error, never `true`.
pub proof fn lemma_accepted_only_with_the_backend(
    proof: &ZKIMGProof,
    public_inputs: Seq<FieldElement>,
    outcome: Result<(), BackendError>,
)
    requires
        ZKIMGSystem::verdict_of(proof, public_inputs, outcome) == Ok::<bool, ZKIMGError>(true),
    ensures
        outcome is Ok,
        crate::hashing::values_of(public_inputs) == crate::hashing::values_of(
            proof.spec_public_inputs(),
        ),
{
}

/// What the prover is handed: the chain to prove, the size exponent, and
/// the circuit with its witness and its two digests.
#[derive(Debug, PartialEq, Eq)]
pub struct ProofRequest {
    pub chain: Vec<Transformation>,
    pub k: u32,
    pub circuit: ZKIMGCircuit,
}

/// A copy of a chain.
pub fn copy_chain(transformations: &[Transformation]) -> (copy: Vec<Transformation>)
    ensures
        copy@ == transformations@,
{
    let mut copy: Vec<Transformation> = Vec::new();
    let mut i: usize = 0;
    while i < transformations.len()
        invariant
            i <= transformations@.len(),
            copy@ == transformations@.take(i as int),
        decreases transformations@.len() - i,
    {
        copy.push(transformations[i]);
        proof {
            assert(copy@ =~= transformations@.take(i + 1));
        }
        i = i + 1;
    }
    proof {
        assert(copy@ =~= transformations@);
    }
    copy
}

/// Whether two lists of field elements stand for the same numbers.
pub fn same_elements(a: &[FieldElement], b: &[FieldElement]) -> (same: bool)
    ensures
        same == (crate::hashing::values_of(a@) == crate::hashing::values_of(b@)),
{
    if a.len() != b.len() {
        proof {
            assert(crate::hashing::values_of(a@).len() != crate::hashing::values_of(b@).len());
        }
        return false;
    }
    let mut i: usize = 0;
    while i < a.len()
        invariant
            a@.len() == b@.len(),
            i <= a@.len(),
            forall|k: int| 0 <= k < i ==> a@[k]@ == b@[k]@,
        decreases a@.len() - i,
    {
        if !a[i].equals(&b[i]) {
            proof {
                assert(crate::hashing::values_of(a@)[i as int] != crate::hashing::values_of(b@)[i as int]);
            }
            return false;
        }
        i = i + 1;
    }
    proof {
        assert(crate::hashing::values_of(a@) =~= crate::hashing::values_of(b@));
    }
    true
}

/// A proof as it is handed around: the proof bytes, the public inputs, the
/// chain it is about, the two digests and the verifying key. The first two
/// public inputs are the input digest and the output digest, and the two
/// digest fields hold their canonical bytes. A proof is made once and not
/// changed.
#[derive(Debug, PartialEq, Eq)]
pub struct ZKIMGProof {
    proof_bytes: Vec<u8>,
    public_inputs: Vec<FieldElement>,
    transformation_chain: Vec<Transformation>,
    input_hash: Vec<u8>,
    output_hash: Vec<u8>,
    verification_key: Vec<u8>,
}

impl ZKIMGProof {
    pub closed spec fn spec_proof_bytes(&self) -> Seq<u8> {
        self.proof_bytes@
    }

    pub closed spec fn spec_public_inputs(&self) -> Seq<FieldElement> {
        self.public_inputs@
    }

    pub closed spec fn spec_transformation_chain(&self) -> Seq<Transformation> {
        self.transformation_chain@
    }

    pub closed spec fn spec_input_hash(&self) -> Seq<u8> {
        self.input_hash@
    }

    pub closed spec fn spec_output_hash(&self) -> Seq<u8> {
        self.output_hash@
    }

    pub closed spec fn spec_verification_key(&self) -> Seq<u8> {
        self.verification_key@
    }

    /// The first two public inputs are the two digests.
    #[verifier::type_invariant]
    pub open spec fn wf(&self) -> bool {
        &&& self.spec_public_inputs().len() >= 2
        &&& self.spec_input_hash() == self.spec_public_inputs()[0].spec_to_bytes()
        &&& self.spec_output_hash() == self.spec_public_inputs()[1].spec_to_bytes()
    }

    /// Puts a proof together. The public inputs must start with the input
    /// digest and the output digest; fewer than two are refused.
    pub fn new(
        proof_bytes: Vec<u8>,
        public_inputs: Vec<FieldElement>,
        transformation_chain: Vec<Transformation>,
        verification_key: Vec<u8>,
    ) -> (r: Result<ZKIMGProof, ZKIMGError>)
        ensures
            public_inputs@.len() < 2 ==> r == Err::<ZKIMGProof, ZKIMGError>(
                ZKIMGError::InstanceMismatch { expected: 2, found: public_inputs@.len() as usize },
            ),
            public_inputs@.len() >= 2 ==> r is Ok && {
                let proof = r->Ok_0;
                &&& proof.spec_proof_bytes() == proof_bytes@
                &&& proof.spec_public_inputs() == public_inputs@
                &&& proof.spec_transformation_chain() == transformation_chain@
                &&& proof.spec_verification_key() == verification_key@
                &&& proof.wf()
            },
    {
        if public_inputs.len() < 2 {
            return Err(ZKIMGError::InstanceMismatch { expected: 2, found: public_inputs.len() });
        }
        let input_hash = public_inputs[0].to_bytes();
        let output_hash = public_inputs[1].to_bytes();
        Ok(
            ZKIMGProof {
                proof_bytes,
                public_inputs,
                transformation_chain,
                input_hash,
                output_hash,
                verification_key,
            },
        )
    }

    /// The proof bytes.
    pub fn proof_bytes(&self) -> (r: &[u8])
        ensures
            r@ == self.spec_proof_bytes(),
    {
        self.proof_bytes.as_slice()
    }

    /// The public inputs, the two digests first.
    pub fn public_inputs(&self) -> (r: &[FieldElement])
        ensures
            r@ == self.spec_public_inputs(),
            r@.len() >= 2,
    {
        proof {
            use_type_invariant(self);
        }
        self.public_inputs.as_slice()
    }

    /// The chain the proof is about.
    pub fn transformation_chain(&self) -> (r: &[Transformation])
        ensures
            r@ == self.spec_transformation_chain(),
    {
        self.transformation_chain.as_slice()
    }

    /// The canonical bytes of the input digest.
    pub fn input_hash(&self) -> (r: &[u8])
        ensures
            r@ == self.spec_input_hash(),
            r@ == self.spec_public_inputs()[0].spec_to_bytes(),
    {
        proof {
            use_type_invariant(self);
        }
        self.input_hash.as_slice()
    }

    /// The canonical bytes of the output digest.
    pub fn output_hash(&self) -> (r: &[u8])
        ensures
            r@ == self.spec_output_hash(),
            r@ == self.spec_public_inputs()[1].spec_to_bytes(),
    {
        proof {
            use_type_invariant(self);
        }
        self.output_hash.as_slice()
    }

    /// The verifying key, as the bytes it was handed in.
    pub fn verification_key(&self) -> (r: &[u8])
        ensures
            r@ == self.spec_verification_key(),
    {
        self.verification_key.as_slice()
    }

    /// What a verifier of a chain reads off this proof.
    pub fn to_link(&self) -> (link: ChainLink)
        ensures
            link.input_hash@ == self.spec_input_hash(),
            link.output_hash@ == self.spec_output_hash(),
    {
        ChainLink {
            input_hash: copy_bytes(self.input_hash.as_slice()),
            output_hash: copy_bytes(self.output_hash.as_slice()),
        }
    }
}

/// A copy of a byte string.
pub fn copy_bytes(bytes: &[u8]) -> (copy: Vec<u8>)
    ensures
        copy@ == bytes@,
{
    let mut copy: Vec<u8> = Vec::new();
    let mut i: usize = 0;
    while i < bytes.len()
        invariant
            i <= bytes@.len(),
            copy@ == bytes@.take(i as int),
        decreases bytes@.len() - i,
    {
        copy.push(bytes[i]);
        proof {
            assert(copy@ =~= bytes@.take(i + 1));
        }
        i = i + 1;
    }
    proof {
        assert(copy@ =~= bytes@);
    }
    copy
}

} // verus!
