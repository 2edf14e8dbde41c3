//! The proof system's bookkeeping: tiling of large images, aggregation of
//! tile proofs, and the acceptance rule for chains of proofs.

use crate::circuits::ZKIMGCircuit;
use crate::errors::{BackendError, ZKIMGError};
use crate::field::{lemma_bytes_limbs_round_trip, FieldElement};
use crate::hashing::{values_of, DIGEST_LEN};
use crate::merkle::{byte_strings, compute_merkle_root, merkle_root};
use crate::recursive_circuit::{bytes_equal, instance_count_of, RecursiveZKIMGCircuit};
use crate::tiling::{cell_count, grid_cells, lemma_cell, lemma_tiles_across, tiles_across, tiling};
use crate::{copy_bytes, Transformation, ZKIMGProof};
use vstd::prelude::*;

verus! {

/// Splits large images into tiles and combines the proofs of the tiles.
#[derive(Clone, Copy, Debug, PartialEq, Eq)]
pub struct HDProcessor {
    /// The side of a full tile, in pixels.
    pub tile_size: usize,
    /// The largest number of tiles handed out.
    pub max_tiles: usize,
}

impl HDProcessor {
    /// Tiles of 256 pixels, at most 20 of them.
    pub fn new() -> (r: HDProcessor)
        ensures
            r.tile_size == 256,
            r.max_tiles == 20,
    {
        HDProcessor { tile_size: 256, max_tiles: 20 }
    }

    /// The tiles of a `width` x `height` image in row-major order, cut off
    /// after `max_tiles` of them. Tiles at the right and bottom edge are
    /// clipped to the image.
    pub fn tile_hd_image(&self, width: u32, height: u32) -> (tiles: Vec<(u32, u32, u32, u32)>)
        requires
            self.tile_size > 0,
        ensures
            tiles@ == tiling(width as int, height as int, self.tile_size as int).take(
                vstd::math::min(
                    tiling(width as int, height as int, self.tile_size as int).len() as int,
                    self.max_tiles as int,
                ),
            ),
    {
        let tile = self.tile_size;
        let cells = grid_cells(width as usize, height as usize, tile, tile, Some(self.max_tiles));
        let ghost w = width as int;
        let ghost h = height as int;
        let ghost t = tile as int;
        let ghost cols = tiles_across(w, t);
        let ghost all = tiling(w, h, t);
        let mut tiles: Vec<(u32, u32, u32, u32)> = Vec::new();
        let mut i: usize = 0;
        proof {
            lemma_tiles_across(w, t, 0);
            lemma_tiles_across(h, t, 0);
            assert(0 <= cell_count(w, h, t, t)) by (nonlinear_arith)
                requires
                    cell_count(w, h, t, t) == tiles_across(h, t) * tiles_across(w, t),
                    0 <= tiles_across(h, t),
                    0 <= tiles_across(w, t),
            ;
        }
        while i < cells.len()
            invariant
                w == width as int,
                h == height as int,
                t == tile as int,
                t > 0,
                cols == tiles_across(w, t),
                all == tiling(w, h, t),
                all.len() == cell_count(w, h, t, t),
                cells@.len() <= cell_count(w, h, t, t),
                forall|k: int|
                    0 <= k < cells@.len() ==> (#[trigger] cells@[k]).0 == (k % cols) * t
                        && cells@[k].1 == (k / cols) * t,
                i <= cells@.len(),
                tiles@.len() == i,
                forall|k: int| 0 <= k < i ==> #[trigger] tiles@[k] == all[k],
            decreases cells@.len() - i,
        {
            proof {
                lemma_cell(w, h, t, t, i as int);
            }
            let (x, y) = cells[i];
            let rest_w: usize = width as usize - x;
            let rest_h: usize = height as usize - y;
            let tile_w: usize = if tile >= rest_w {
                rest_w
            } else {
                tile
            };
            let tile_h: usize = if tile >= rest_h {
                rest_h
            } else {
                tile
            };
            tiles.push((x as u32, y as u32, tile_w as u32, tile_h as u32));
            i = i + 1;
        }
        proof {
            assert(tiles@ =~= all.take(cells@.len() as int));
        }
        tiles
    }

    /// The number of tiles the whole image takes, whatever the cap. Where
    /// it is above `max_tiles`, [`HDProcessor::tile_hd_image`] leaves tiles
    /// out, and what lies in them is not proved.
    pub fn tile_count(&self, width: u32, height: u32) -> (count: u64)
        requires
            self.tile_size > 0,
        ensures
            count == tiling(width as int, height as int, self.tile_size as int).len(),
    {
        let tile: u128 = self.tile_size as u128;
        let cols: u128 = (width as u128 + tile - 1) / tile;
        let rows: u128 = (height as u128 + tile - 1) / tile;
        proof {
            lemma_tiles_across(width as int, tile as int, 0);
            lemma_tiles_across(height as int, tile as int, 0);
            assert(rows * cols <= 0xffff_ffff * 0xffff_ffff) by (nonlinear_arith)
                requires
                    0 <= rows <= 0xffff_ffff,
                    0 <= cols <= 0xffff_ffff,
            ;
        }
        (rows * cols) as u64
    }

    /// What [`HDProcessor::aggregate_tile_proofs`] returns for the given
    /// tile proofs under the given cap.
    pub open spec fn aggregation_of(tile_proofs: Seq<Seq<u8>>, max_tiles: usize) -> Result<
        Seq<u8>,
        ZKIMGError,
    > {
        if tile_proofs.len() == 0 {
            Err(ZKIMGError::NoTileProofs)
        } else if tile_proofs.len() > max_tiles {
            Err(ZKIMGError::TooManyTiles { count: tile_proofs.len() as usize, max: max_tiles })
        } else {
            Ok(merkle_root(tile_proofs))
        }
    }

    /// Commits to the proofs of the tiles, in tile order, by the root of a
    /// Merkle tree over their digests. The tile proofs stay with the
    /// caller; each can be checked against the root by its path in the
    /// tree. Fails where there is nothing to combine, and where there are
    /// more proofs than the cap allows.
    pub fn aggregate_tile_proofs(&self, tile_proofs: Vec<Vec<u8>>) -> (r: Result<
        Vec<u8>,
        ZKIMGError,
    >)
        ensures
            match r {
                Ok(root) => Self::aggregation_of(byte_strings(tile_proofs@), self.max_tiles) == Ok::<
                    Seq<u8>,
                    ZKIMGError,
                >(root@) && root@.len() == DIGEST_LEN,
                Err(e) => Self::aggregation_of(byte_strings(tile_proofs@), self.max_tiles) == Err::<
                    Seq<u8>,
                    ZKIMGError,
                >(e),
            },
    {
        if tile_proofs.len() == 0 {
            return Err(ZKIMGError::NoTileProofs);
        }
        if tile_proofs.len() > self.max_tiles {
            return Err(
                ZKIMGError::TooManyTiles { count: tile_proofs.len(), max: self.max_tiles },
            );
        }
        Ok(compute_merkle_root(&tile_proofs))
    }
}

/// What a verifier reads off one proof of a chain: the digest of the
/// image that went in and the digest of the image that came out.
#[derive(Clone, Debug, PartialEq, Eq)]
pub struct ChainLink {
    pub input_hash: Vec<u8>,
    pub output_hash: Vec<u8>,
}

/// Whether every link's output digest is the next link's input digest.
pub open spec fn links_continuous(links: Seq<ChainLink>) -> bool {
    forall|i: int|
        0 <= i < links.len() - 1 ==> (#[trigger] links[i]).output_hash@ == links[i + 1].input_hash@
}

/// Whether a chain is intact: its digests are continuous and it has no
/// more links than `max_chain_length`.
pub open spec fn chain_intact(links: Seq<ChainLink>, max_chain_length: usize) -> bool {
    links_continuous(links) && links.len() <= max_chain_length
}

/// Whether a verifier trusts a chain: it is intact, and its last link
/// comes out at the published digest.
pub open spec fn chain_accepted(
    links: Seq<ChainLink>,
    max_chain_length: usize,
    published: Seq<u8>,
) -> bool {
    &&& chain_intact(links, max_chain_length)
    &&& links.len() > 0
    &&& links.last().output_hash@ == published
}

/// Whether a verifier trusts a chain of checked proofs: the chain is
/// accepted, each link has the outcome of the backend's check of its proof,
/// and every outcome is an accepted proof.
pub open spec fn chain_verified(
    links: Seq<ChainLink>,
    outcomes: Seq<Result<(), BackendError>>,
    max_chain_length: usize,
    published: Seq<u8>,
) -> bool {
    &&& chain_accepted(links, max_chain_length, published)
    &&& outcomes.len() == links.len()
    &&& forall|i: int|
        0 <= i < outcomes.len() ==> ZKIMGProofSystem::verification_of(#[trigger] outcomes[i])
            == Ok::<bool, ZKIMGError>(true)
}

/// The links a chain of transformations is proved by: one per
/// transformation, the depth rising by one from 0.
pub open spec fn chain_plan(transformations: Seq<Transformation>) -> Seq<(u32, Transformation)> {
    Seq::new(transformations.len(), |i: int| (i as u32, transformations[i]))
}

/// In the plan of a chain the depth starts at 0 and rises by exactly one
/// from each link to the next, and each link applies the transformation
/// at its place.
pub proof fn lemma_plan_depths_rise_by_one(transformations: Seq<Transformation>, i: int)
    requires
        transformations.len() <= u32::MAX,
        0 <= i < transformations.len(),
    ensures
        chain_plan(transformations).len() == transformations.len(),
        chain_plan(transformations)[i].0 == i,
        chain_plan(transformations)[i].1 == transformations[i],
        i + 1 < transformations.len() ==> chain_plan(transformations)[i + 1].0 == chain_plan(
            transformations,
        )[i].0 + 1,
{
}

/// Changing the output digest of any link but the last breaks an intact
/// chain.
pub proof fn lemma_mutated_output_breaks_chain(
    links: Seq<ChainLink>,
    max_chain_length: usize,
    i: int,
    mutated: ChainLink,
)
    requires
        chain_intact(links, max_chain_length),
        0 <= i < links.len() - 1,
        mutated.input_hash@ == links[i].input_hash@,
        mutated.output_hash@ != links[i].output_hash@,
    ensures
        !chain_intact(links.update(i, mutated), max_chain_length),
{
    let changed = links.update(i, mutated);
    assert(links[i].output_hash@ == links[i + 1].input_hash@);
    assert(changed[i].output_hash@ != changed[i + 1].input_hash@);
}

/// Changing the input digest of any link but the first breaks an intact
/// chain.
pub proof fn lemma_mutated_input_breaks_chain(
    links: Seq<ChainLink>,
    max_chain_length: usize,
    i: int,
    mutated: ChainLink,
)
    requires
        chain_intact(links, max_chain_length),
        0 < i < links.len(),
        mutated.output_hash@ == links[i].output_hash@,
        mutated.input_hash@ != links[i].input_hash@,
    ensures
        !chain_intact(links.update(i, mutated), max_chain_length),
{
    let changed = links.update(i, mutated);
    assert(links[i - 1].output_hash@ == links[i - 1 + 1].input_hash@);
    assert(changed[i - 1].output_hash@ != changed[i - 1 + 1].input_hash@);
}

/// Plans and checks chains of proofs, each link proving one more
/// transformation on top of the link before.
#[derive(Clone, Copy, Debug, PartialEq, Eq)]
pub struct RecursiveProofSystem {
    /// The largest number of links a chain may have.
    pub max_chain_length: usize,
}

impl RecursiveProofSystem {
    /// Chains of up to 100 links.
    pub fn new() -> (r: RecursiveProofSystem)
        ensures
            r.max_chain_length == 100,
    {
        RecursiveProofSystem { max_chain_length: 100 }
    }

    /// What [`RecursiveProofSystem::plan_chain`] returns for the given
    /// transformations under the given maximum.
    pub open spec fn plan_of(transformations: Seq<Transformation>, max_chain_length: usize) -> Result<
        Seq<(u32, Transformation)>,
        ZKIMGError,
    > {
        if transformations.len() > max_chain_length || transformations.len() > u32::MAX {
            Err(
                ZKIMGError::ChainTooLong {
                    length: transformations.len() as usize,
                    max: max_chain_length,
                },
            )
        } else {
            Ok(chain_plan(transformations))
        }
    }

    /// The links by which a chain of transformations is to be proved, each
    /// with its depth. Fails where the chain is longer than the maximum.
    pub fn plan_chain(&self, transformations: &[Transformation]) -> (r: Result<
        Vec<(u32, Transformation)>,
        ZKIMGError,
    >)
        ensures
            match r {
                Ok(plan) => Self::plan_of(transformations@, self.max_chain_length) == Ok::<
                    Seq<(u32, Transformation)>,
                    ZKIMGError,
                >(plan@),
                Err(e) => Self::plan_of(transformations@, self.max_chain_length) == Err::<
                    Seq<(u32, Transformation)>,
                    ZKIMGError,
                >(e),
            },
    {
        let n = transformations.len();
        if n > self.max_chain_length || n > 0xffff_ffff {
            return Err(ZKIMGError::ChainTooLong { length: n, max: self.max_chain_length });
        }
        let mut plan: Vec<(u32, Transformation)> = Vec::new();
        let mut i: usize = 0;
        while i < n
            invariant
                n == transformations@.len(),
                n <= 0xffff_ffff,
                i <= n,
                plan@.len() == i,
                forall|k: int| 0 <= k < i ==> #[trigger] plan@[k] == (k as u32, transformations@[k]),
            decreases n - i,
        {
            plan.push((i as u32, transformations[i]));
            i = i + 1;
        }
        proof {
            assert(plan@ =~= chain_plan(transformations@));
        }
        Ok(plan)
    }

    /// Why a link at `depth` is refused, if it is, given what the backend
    /// said of the proof of the link before. The base link has no link
    /// before it. Every other link has one, and is built only on a proof
    /// that the backend accepted: a proof that was found wrong, or could
    /// not be read, carries no link.
    pub open spec fn link_refusal_of(depth: u32, outcome: Option<Result<(), BackendError>>) -> Option<
        ZKIMGError,
    > {
        match outcome {
            None => if depth == 0 {
                None
            } else {
                Some(ZKIMGError::WitnessInconsistent)
            },
            Some(said) => if depth == 0 {
                Some(ZKIMGError::WitnessInconsistent)
            } else {
                match ZKIMGProofSystem::verification_of(said) {
                    Ok(true) => None,
                    Ok(false) => Some(ZKIMGError::PreviousProofRejected),
                    Err(e) => Some(e),
                }
            },
        }
    }

    /// The link at `depth` of a chain: it carries the proof and the output
    /// digest of the link before, the image it is about and the
    /// transformation it applies. The link before comes with the outcome
    /// of the backend's check of its proof.
    pub fn next_link(
        previous: Option<(&ZKIMGProof, Result<(), BackendError>)>,
        image_data: Vec<Vec<u8>>,
        transformation: Transformation,
        depth: u32,
    ) -> (r: Result<RecursiveZKIMGCircuit, ZKIMGError>)
        ensures
            match r {
                Ok(link) => {
                    &&& Self::link_refusal_of(
                        depth,
                        match previous {
                            Some(pair) => Some(pair.1),
                            None => None,
                        },
                    ) is None
                    &&& link.recursion_depth == depth
                    &&& link.transformation == transformation
                    &&& link.image_data == image_data
                    &&& link.witness_fits_depth()
                    &&& previous matches Some(pair) ==> {
                        &&& link.previous_proof->Some_0@ == pair.0.spec_proof_bytes()
                        &&& link.previous_hash->Some_0@ == pair.0.spec_output_hash()
                    }
                },
                Err(e) => Self::link_refusal_of(
                    depth,
                    match previous {
                        Some(pair) => Some(pair.1),
                        None => None,
                    },
                ) == Some(e),
            },
    {
        match previous {
            None => {
                if depth != 0 {
                    return Err(ZKIMGError::WitnessInconsistent);
                }
                Ok(RecursiveZKIMGCircuit::new(None, None, image_data, transformation, depth))
            },
            Some((before, said)) => {
                if depth == 0 {
                    return Err(ZKIMGError::WitnessInconsistent);
                }
                match ZKIMGProofSystem::verification_result(said) {
                    Ok(true) => {},
                    Ok(false) => {
                        return Err(ZKIMGError::PreviousProofRejected);
                    },
                    Err(e) => {
                        return Err(e);
                    },
                }
                let digest = before.output_hash();
                let mut hash: [u8; 32] = [0u8; 32];
                let mut i: usize = 0;
                while i < 32
                    invariant
                        i <= 32,
                        digest@.len() == 32,
                        forall|j: int| 0 <= j < i ==> hash@[j] == digest@[j],
                    decreases 32 - i,
                {
                    hash[i] = digest[i];
                    i = i + 1;
                }
                proof {
                    assert(hash@ =~= digest@);
                }
                Ok(
                    RecursiveZKIMGCircuit::new(
                        Some(copy_bytes(before.proof_bytes())),
                        Some(hash),
                        image_data,
                        transformation,
                        depth,
                    ),
                )
            },
        }
    }

    /// Puts the proof of a link together once the prover is done with it.
    /// The public inputs are those of the link: its input digest and its
    /// output digest, both the digest of the link's image, and from depth 1
    /// on its depth. From depth 1 on the input digest is also the output
    /// digest of the link before. Fails where the link cannot be proved,
    /// and where the prover failed.
    pub fn complete_link(
        link: &RecursiveZKIMGCircuit,
        outcome: Result<Vec<u8>, BackendError>,
        verification_key: Vec<u8>,
    ) -> (r: Result<ZKIMGProof, ZKIMGError>)
        ensures
            !link.provable() ==> r == Err::<ZKIMGProof, ZKIMGError>(ZKIMGError::WitnessInconsistent),
            link.provable() ==> match outcome {
                Err(e) => r == Err::<ZKIMGProof, ZKIMGError>(ZKIMGProofSystem::proving_error_of(e)),
                Ok(bytes) => r is Ok && {
                    let proof = r->Ok_0;
                    &&& proof.spec_proof_bytes() == bytes@
                    &&& proof.spec_verification_key() == verification_key@
                    &&& proof.spec_transformation_chain() == seq![link.transformation]
                    &&& proof.spec_public_inputs().len() == instance_count_of(link.recursion_depth)
                    &&& proof.spec_public_inputs()[0]@ == link.spec_image_digest()
                    &&& proof.spec_public_inputs()[1]@ == link.spec_image_digest()
                    &&& link.recursion_depth > 0 ==> proof.spec_input_hash()
                        == link.previous_hash->Some_0@
                    &&& link.recursion_depth > 0 ==> proof.spec_public_inputs()[2]@
                        == link.recursion_depth
                    &&& proof.wf()
                },
            },
    {
        let (input, output) = match link.digests() {
            Ok(pair) => pair,
            Err(e) => {
                return Err(e);
            },
        };
        let bytes = match ZKIMGProofSystem::proving_result(outcome) {
            Ok(bytes) => bytes,
            Err(e) => {
                return Err(e);
            },
        };
        let public_inputs = link.public_inputs(input, output);
        let mut chain: Vec<Transformation> = Vec::new();
        chain.push(link.transformation);
        proof {
            assert(chain@ =~= seq![link.transformation]);
            if link.recursion_depth > 0 {
                lemma_bytes_limbs_round_trip(link.previous_hash->Some_0@);
            }
        }
        ZKIMGProof::new(bytes, public_inputs, chain, verification_key)
    }

    /// Whether a chain is intact: every link's output digest is the next
    /// link's input digest, and the chain is no longer than the maximum.
    /// Whether each proof is sound in itself is for the caller to check.
    pub fn verify_chain(&self, links: &[ChainLink]) -> (intact: bool)
        ensures
            intact == chain_intact(links@, self.max_chain_length),
    {
        let n = links.len();
        if n > self.max_chain_length {
            return false;
        }
        let mut i: usize = 1;
        while i < n
            invariant
                n == links@.len(),
                1 <= i,
                forall|k: int|
                    0 <= k < i - 1 ==> (#[trigger] links@[k]).output_hash@ == links@[k
                        + 1].input_hash@,
            decreases n - i,
        {
            if !bytes_equal(links[i - 1].output_hash.as_slice(), links[i].input_hash.as_slice()) {
                proof {
                    assert(links@[i - 1].output_hash@ != links@[i - 1 + 1].input_hash@);
                }
                return false;
            }
            i = i + 1;
        }
        true
    }

    /// Whether a verifier trusts a chain: it is intact, it has a last
    /// link, and that link comes out at the published digest.
    pub fn accepts(&self, links: &[ChainLink], published: &[u8]) -> (trusted: bool)
        ensures
            trusted == chain_accepted(links@, self.max_chain_length, published@),
    {
        if links.len() == 0 {
            return false;
        }
        if !self.verify_chain(links) {
            return false;
        }
        bytes_equal(links[links.len() - 1].output_hash.as_slice(), published)
    }

    /// Whether a verifier trusts a chain whose proofs the backend has
    /// checked, one outcome per link: the chain is accepted as by
    /// [`RecursiveProofSystem::accepts`], and the backend accepted the
    /// proof of every link. One proof that was found wrong or could not be
    /// read, or one link without an outcome, and the chain is not trusted.
    pub fn accepts_verified(
        &self,
        links: &[ChainLink],
        outcomes: &[Result<(), BackendError>],
        published: &[u8],
    ) -> (trusted: bool)
        ensures
            trusted == chain_verified(links@, outcomes@, self.max_chain_length, published@),
    {
        if outcomes.len() != links.len() {
            return false;
        }
        let mut i: usize = 0;
        while i < outcomes.len()
            invariant
                i <= outcomes@.len(),
                forall|j: int| 0 <= j < i ==> (#[trigger] outcomes@[j]) is Ok,
            decreases outcomes@.len() - i,
        {
            match outcomes[i] {
                Ok(()) => {},
                Err(_) => {
                    return false;
                },
            }
            i = i + 1;
        }
        self.accepts(links, published)
    }
}

/// The largest size exponent the backend takes.
pub const MAX_K: u32 = 31;

/// `2^k`.
pub open spec fn pow2(k: nat) -> nat
    decreases k,
{
    if k == 0 {
        1
    } else {
        2 * pow2((k - 1) as nat)
    }
}

/// The proof system's view of its global parameters: the size exponent
/// `k`, which gives every circuit a budget of `2^k` rows.
#[derive(Clone, Copy, Debug, PartialEq, Eq)]
pub struct ZKIMGProofSystem {
    k: u32,
}

impl ZKIMGProofSystem {
    /// Every proof system has a size exponent the backend takes.
    #[verifier::type_invariant]
    pub open spec fn wf(&self) -> bool {
        self.spec_k() <= MAX_K
    }

    /// The size exponent.
    pub closed spec fn spec_k(&self) -> u32 {
        self.k
    }

    /// A proof system of size exponent `k`, which must not be above 31.
    pub fn new(k: u32) -> (r: Result<ZKIMGProofSystem, ZKIMGError>)
        ensures
            k <= MAX_K ==> r is Ok && r->Ok_0.spec_k() == k,
            k > MAX_K ==> r == Err::<ZKIMGProofSystem, ZKIMGError>(
                ZKIMGError::InvalidSizeParameter { k },
            ),
    {
        if k > MAX_K {
            Err(ZKIMGError::InvalidSizeParameter { k })
        } else {
            Ok(ZKIMGProofSystem { k })
        }
    }

    /// The size exponent.
    pub fn k(&self) -> (k: u32)
        ensures
            k == self.spec_k(),
            k <= MAX_K,
    {
        proof {
            use_type_invariant(self);
        }
        self.k
    }

    /// The number of rows a circuit may use: `2^k`.
    pub fn row_budget(&self) -> (rows: u64)
        ensures
            rows == pow2(self.spec_k() as nat),
    {
        proof {
            use_type_invariant(self);
        }
        let mut rows: u64 = 1;
        let mut i: u32 = 0;
        while i < self.k
            invariant
                i <= self.k,
                self.k <= MAX_K,
                rows == pow2(i as nat),
                rows <= 0x8000_0000,
                i < 31 ==> rows <= 0x4000_0000,
            decreases self.k - i,
        {
            proof {
                lemma_pow2_bound(i as nat);
                lemma_pow2_bound((i + 1) as nat);
            }
            rows = 2 * rows;
            i = i + 1;
        }
        rows
    }

    /// Rejects a circuit that needs more rows than the budget.
    pub fn check_rows(&self, rows_needed: u64) -> (r: Result<(), ZKIMGError>)
        ensures
            rows_needed <= pow2(self.spec_k() as nat) ==> r is Ok,
            rows_needed > pow2(self.spec_k() as nat) ==> r == Err::<(), ZKIMGError>(
                ZKIMGError::NotEnoughRows { k: self.spec_k() },
            ),
    {
        if rows_needed <= self.row_budget() {
            Ok(())
        } else {
            Err(ZKIMGError::NotEnoughRows { k: self.k })
        }
    }

    /// Rejects public inputs whose number is not the number of public
    /// values the circuit declares.
    pub fn check_instances(&self, declared: usize, public_inputs: &[FieldElement]) -> (r: Result<
        (),
        ZKIMGError,
    >)
        ensures
            public_inputs@.len() == declared ==> r is Ok,
            public_inputs@.len() != declared ==> r == Err::<(), ZKIMGError>(
                ZKIMGError::InstanceMismatch { expected: declared, found: public_inputs@.len() as usize },
            ),
    {
        if public_inputs.len() == declared {
            Ok(())
        } else {
            Err(ZKIMGError::InstanceMismatch { expected: declared, found: public_inputs.len() })
        }
    }

    /// Rejects public inputs that are not the declared values in the
    /// declared order: a wrong number of them, or else the first place at
    /// which a value differs.
    pub fn check_public_inputs(&self, declared: &[FieldElement], public_inputs: &[FieldElement]) -> (r:
        Result<(), ZKIMGError>)
        ensures
            r is Ok <==> values_of(public_inputs@) == values_of(declared@),
            public_inputs@.len() != declared@.len() ==> r == Err::<(), ZKIMGError>(
                ZKIMGError::InstanceMismatch {
                    expected: declared@.len() as usize,
                    found: public_inputs@.len() as usize,
                },
            ),
            public_inputs@.len() == declared@.len() && r is Err ==> {
                &&& r->Err_0 matches ZKIMGError::PublicInputMismatch { index }
                &&& index < declared@.len()
                &&& public_inputs@[index as int]@ != declared@[index as int]@
                &&& forall|j: int| 0 <= j < index ==> public_inputs@[j]@ == declared@[j]@
            },
    {
        if public_inputs.len() != declared.len() {
            proof {
                assert(values_of(public_inputs@).len() != values_of(declared@).len());
            }
            return Err(
                ZKIMGError::InstanceMismatch {
                    expected: declared.len(),
                    found: public_inputs.len(),
                },
            );
        }
        let mut i: usize = 0;
        while i < declared.len()
            invariant
                public_inputs@.len() == declared@.len(),
                i <= declared@.len(),
                forall|j: int| 0 <= j < i ==> public_inputs@[j]@ == declared@[j]@,
            decreases declared@.len() - i,
        {
            if !public_inputs[i].equals(&declared[i]) {
                proof {
                    assert(values_of(public_inputs@)[i as int] != values_of(declared@)[i as int]);
                }
                return Err(ZKIMGError::PublicInputMismatch { index: i });
            }
            i = i + 1;
        }
        proof {
            assert(values_of(public_inputs@) =~= values_of(declared@));
        }
        Ok(())
    }

    /// Whether a circuit may be proved for the given public inputs: they
    /// are the circuit's input digest and output digest, in this order, and
    /// the witness satisfies the circuit.
    pub open spec fn statement_holds(circuit: &ZKIMGCircuit, public_inputs: Seq<FieldElement>) -> bool {
        &&& values_of(public_inputs) == seq![circuit.input_hash@, circuit.output_hash@]
        &&& circuit.satisfied()
    }

    /// Checks a circuit and its public inputs before the prover is run, so
    /// that no proof is made for a statement that does not hold. The
    /// public inputs are checked first: their number, then their order and
    /// values; then the witness.
    pub fn check_statement(&self, circuit: &ZKIMGCircuit, public_inputs: &[FieldElement]) -> (r:
        Result<(), ZKIMGError>)
        requires
            circuit.wf(),
        ensures
            r is Ok <==> Self::statement_holds(circuit, public_inputs@),
            public_inputs@.len() != 2 ==> r == Err::<(), ZKIMGError>(
                ZKIMGError::InstanceMismatch { expected: 2, found: public_inputs@.len() as usize },
            ),
            public_inputs@.len() == 2 && public_inputs@[0]@ != circuit.input_hash@ ==> r == Err::<
                (),
                ZKIMGError,
            >(ZKIMGError::PublicInputMismatch { index: 0 }),
            public_inputs@.len() == 2 && public_inputs@[0]@ == circuit.input_hash@
                && public_inputs@[1]@ != circuit.output_hash@ ==> r == Err::<(), ZKIMGError>(
                ZKIMGError::PublicInputMismatch { index: 1 },
            ),
            values_of(public_inputs@) == seq![circuit.input_hash@, circuit.output_hash@]
                && !circuit.satisfied() ==> r == Err::<(), ZKIMGError>(
                ZKIMGError::WitnessInconsistent,
            ),
    {
        let declared = circuit.public_inputs();
        proof {
            assert(values_of(declared@) =~= seq![circuit.input_hash@, circuit.output_hash@]);
            if public_inputs@.len() == 2 {
                assert(values_of(public_inputs@)[0] == public_inputs@[0]@);
                assert(values_of(public_inputs@)[1] == public_inputs@[1]@);
            }
        }
        match self.check_public_inputs(declared.as_slice(), public_inputs) {
            Err(e) => {
                return Err(e);
            },
            Ok(()) => {},
        }
        circuit.check_witness()
    }

    /// The error that a failure of the backend during key generation or
    /// proving stands for.
    pub open spec fn proving_error_of(e: BackendError) -> ZKIMGError {
        match e {
            BackendError::Synthesis => ZKIMGError::WitnessInconsistent,
            BackendError::ConstraintSystemFailure => ZKIMGError::WitnessInconsistent,
            BackendError::NotEnoughRowsAvailable { current_k } => ZKIMGError::NotEnoughRows {
                k: current_k,
            },
            BackendError::Transcript => ZKIMGError::MalformedProof,
            _ => ZKIMGError::CircuitMisconfigured,
        }
    }

    /// Turns the outcome of key generation or proving into the library's
    /// terms: a witness that does not satisfy the circuit is a witness
    /// error, too few rows and wrong instances are configuration errors.
    pub fn proving_result(outcome: Result<Vec<u8>, BackendError>) -> (r: Result<Vec<u8>, ZKIMGError>)
        ensures
            match outcome {
                Ok(bytes) => r == Ok::<Vec<u8>, ZKIMGError>(bytes),
                Err(e) => r == Err::<Vec<u8>, ZKIMGError>(Self::proving_error_of(e)),
            },
    {
        match outcome {
            Ok(bytes) => Ok(bytes),
            Err(BackendError::Synthesis) => Err(ZKIMGError::WitnessInconsistent),
            Err(BackendError::ConstraintSystemFailure) => Err(ZKIMGError::WitnessInconsistent),
            Err(BackendError::NotEnoughRowsAvailable { current_k }) => Err(
                ZKIMGError::NotEnoughRows { k: current_k },
            ),
            Err(BackendError::Transcript) => Err(ZKIMGError::MalformedProof),
            Err(_) => Err(ZKIMGError::CircuitMisconfigured),
        }
    }

    /// What the outcome of the backend's verification means: a proof that
    /// was read and found wrong is `false` and no error; only a byte
    /// stream that could not be read as a proof is an error.
    pub open spec fn verification_of(outcome: Result<(), BackendError>) -> Result<bool, ZKIMGError> {
        match outcome {
            Ok(()) => Ok(true),
            Err(BackendError::Transcript) => Err(ZKIMGError::MalformedProof),
            Err(_) => Ok(false),
        }
    }

    /// Turns the outcome of the backend's verification into the library's
    /// terms.
    pub fn verification_result(outcome: Result<(), BackendError>) -> (r: Result<bool, ZKIMGError>)
        ensures
            r == Self::verification_of(outcome),
    {
        match outcome {
            Ok(()) => Ok(true),
            Err(BackendError::Transcript) => Err(ZKIMGError::MalformedProof),
            Err(_) => Ok(false),
        }
    }
}

/// `2^k` grows with `k`, and `2^31` is what it is.
pub proof fn lemma_pow2_bound(k: nat)
    ensures
        k <= 31 ==> pow2(k) <= 0x8000_0000,
        k <= 30 ==> pow2(k) <= 0x4000_0000,
        pow2(k) >= 1,
    decreases k,
{
    if k > 0 {
        lemma_pow2_bound((k - 1) as nat);
    }
    if k <= 31 {
        reveal_with_fuel(pow2, 32);
    }
}

} // verus!
