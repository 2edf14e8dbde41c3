//! One link of a chain of proofs, seen as data: what the link holds, the
//! steps its circuit is built from, and the aggregator of proofs.

use crate::circuits::{window_span, WINDOW};
use crate::errors::ZKIMGError;
use crate::field::{bytes_limbs, limbs_reduced, limbs_value, FieldElement};
use crate::hashing::{field_digest, hash_field_elements, values_of, DIGEST_LEN};
use crate::merkle::{byte_strings, compute_merkle_root, merkle_root};
use crate::Transformation;
use vstd::prelude::*;

verus! {

/// A step in building the circuit of one link. The steps depend on the
/// link's depth and transformation alone, never on the witness.
#[derive(Clone, Copy, Debug, PartialEq, Eq, Structural)]
pub enum SynthesisStep {
    /// Check the proof of the link before this one.
    VerifyPreviousProof,
    /// Constrain the previous link's output digest to equal this link's
    /// input digest, which is the digest of this link's pixels.
    ConstrainHashContinuity,
    /// Commit to the input pixels; the digest is public value 0.
    CommitInputHash,
    /// Apply the link's transformation.
    ApplyTransformation(Transformation),
    /// Commit to the output pixels; the digest is public value 1.
    CommitOutputHash,
    /// Expose the depth as public value 2.
    ExposeDepth(u32),
}

/// The steps of a link at the given depth. The base link commits, applies
/// and commits; every later link first checks the previous proof and the
/// continuity of digests, and exposes its depth at the end.
pub open spec fn steps_of(depth: u32, transformation: Transformation) -> Seq<SynthesisStep> {
    if depth == 0 {
        seq![
            SynthesisStep::CommitInputHash,
            SynthesisStep::ApplyTransformation(transformation),
            SynthesisStep::CommitOutputHash,
        ]
    } else {
        seq![
            SynthesisStep::VerifyPreviousProof,
            SynthesisStep::ConstrainHashContinuity,
            SynthesisStep::CommitInputHash,
            SynthesisStep::ApplyTransformation(transformation),
            SynthesisStep::CommitOutputHash,
            SynthesisStep::ExposeDepth(depth),
        ]
    }
}

/// The number of public values of a link at the given depth: the two
/// digests, and from depth 1 on the depth.
pub open spec fn instance_count_of(depth: u32) -> nat {
    if depth == 0 {
        2
    } else {
        3
    }
}

/// The bytes of one row that fall into the window: the first 96, which
/// are the channels of 32 pixels.
pub open spec fn data_row_values(row: Seq<u8>) -> Seq<nat> {
    Seq::new(
        (if row.len() < 3 * WINDOW {
            row.len() as int
        } else {
            3 * WINDOW
        }) as nat,
        |i: int| row[i] as nat,
    )
}

/// The bytes of the given rows that fall into the window, row by row.
pub open spec fn data_rows_values(rows: Seq<Seq<u8>>) -> Seq<nat>
    decreases rows.len(),
{
    if rows.len() == 0 {
        Seq::empty()
    } else {
        data_rows_values(rows.drop_last()) + data_row_values(rows.last())
    }
}

/// The bytes of image rows that fall into the window: those of the first
/// 32 rows.
pub open spec fn data_window_values(rows: Seq<Seq<u8>>) -> Seq<nat> {
    data_rows_values(rows.take(window_span(rows.len() as int)))
}

/// A link of a chain: the previous proof and its output digest, the image
/// rows, the transformation this link applies, and the link's depth.
#[derive(Clone, Debug, PartialEq, Eq)]
pub struct RecursiveZKIMGCircuit {
    /// The proof of the link before, absent at depth 0.
    pub previous_proof: Option<Vec<u8>>,
    /// The output digest of the link before, absent at depth 0.
    pub previous_hash: Option<[u8; 32]>,
    /// The rows of the image this link transforms.
    pub image_data: Vec<Vec<u8>>,
    /// The transformation this link applies.
    pub transformation: Transformation,
    /// The number of links before this one.
    pub recursion_depth: u32,
}

impl RecursiveZKIMGCircuit {
    pub fn new(
        previous_proof: Option<Vec<u8>>,
        previous_hash: Option<[u8; 32]>,
        image_data: Vec<Vec<u8>>,
        transformation: Transformation,
        recursion_depth: u32,
    ) -> (circuit: RecursiveZKIMGCircuit)
        ensures
            circuit.previous_proof == previous_proof,
            circuit.previous_hash == previous_hash,
            circuit.image_data == image_data,
            circuit.transformation == transformation,
            circuit.recursion_depth == recursion_depth,
    {
        RecursiveZKIMGCircuit {
            previous_proof,
            previous_hash,
            image_data,
            transformation,
            recursion_depth,
        }
    }

    /// The same circuit with every witness taken out: the shape is all
    /// that is left.
    pub fn without_witnesses(&self) -> (bare: RecursiveZKIMGCircuit)
        ensures
            bare.previous_proof is None,
            bare.previous_hash is None,
            bare.image_data@.len() == 0,
            bare.transformation == self.transformation,
            bare.recursion_depth == self.recursion_depth,
    {
        RecursiveZKIMGCircuit {
            previous_proof: None,
            previous_hash: None,
            image_data: Vec::new(),
            transformation: self.transformation,
            recursion_depth: self.recursion_depth,
        }
    }

    /// Whether the witness fits the depth: a base link carries no previous
    /// proof and no previous digest, every other link carries both.
    pub open spec fn witness_fits_depth(&self) -> bool {
        if self.recursion_depth == 0 {
            self.previous_proof is None && self.previous_hash is None
        } else {
            self.previous_proof is Some && self.previous_hash is Some
        }
    }

    /// Rejects a link whose witness does not fit its depth.
    pub fn check_witness(&self) -> (r: Result<(), ZKIMGError>)
        ensures
            self.witness_fits_depth() ==> r is Ok,
            !self.witness_fits_depth() ==> r == Err::<(), ZKIMGError>(
                ZKIMGError::WitnessInconsistent,
            ),
    {
        let fits = if self.recursion_depth == 0 {
            self.previous_proof.is_none() && self.previous_hash.is_none()
        } else {
            self.previous_proof.is_some() && self.previous_hash.is_some()
        };
        if fits {
            Ok(())
        } else {
            Err(ZKIMGError::WitnessInconsistent)
        }
    }

    /// The bytes of the image inside the window as field elements, in the
    /// order in which the digest absorbs them.
    pub fn window_elements(&self) -> (elements: Vec<FieldElement>)
        ensures
            values_of(elements@) == data_window_values(byte_strings(self.image_data@)),
    {
        let ghost grid = byte_strings(self.image_data@);
        let rows: usize = if self.image_data.len() < WINDOW {
            self.image_data.len()
        } else {
            WINDOW
        };
        let mut elements: Vec<FieldElement> = Vec::new();
        let mut y: usize = 0;
        proof {
            assert(grid.take(rows as int).take(0) =~= Seq::<Seq<u8>>::empty());
        }
        while y < rows
            invariant
                grid == byte_strings(self.image_data@),
                rows == window_span(self.image_data@.len() as int),
                y <= rows,
                values_of(elements@) == data_rows_values(grid.take(y as int)),
            decreases rows - y,
        {
            let row = &self.image_data[y];
            let cols: usize = if row.len() < 3 * WINDOW {
                row.len()
            } else {
                3 * WINDOW
            };
            let ghost before = values_of(elements@);
            let mut x: usize = 0;
            while x < cols
                invariant
                    grid == byte_strings(self.image_data@),
                    y < self.image_data@.len(),
                    row == self.image_data@[y as int],
                    cols == data_row_values(grid[y as int]).len(),
                    x <= cols,
                    values_of(elements@) == before + data_row_values(grid[y as int]).take(x as int),
                decreases cols - x,
            {
                let ghost so_far = values_of(elements@);
                elements.push(FieldElement::from_u64(row[x] as u64));
                proof {
                    let line = data_row_values(grid[y as int]);
                    assert(line[x as int] == row@[x as int]);
                    assert(values_of(elements@) =~= so_far.push(row@[x as int] as nat));
                    assert(values_of(elements@) =~= before + line.take(x + 1));
                }
                x = x + 1;
            }
            proof {
                let line = data_row_values(grid[y as int]);
                assert(line.take(cols as int) =~= line);
                assert(grid.take(y + 1).drop_last() =~= grid.take(y as int));
                assert(grid.take(y + 1).last() == grid[y as int]);
            }
            y = y + 1;
        }
        elements
    }

    /// The digest of the window of this link's image.
    pub fn image_digest(&self) -> (digest: FieldElement)
        ensures
            digest@ == self.spec_image_digest(),
    {
        let elements = self.window_elements();
        hash_field_elements(elements.as_slice())
    }

    /// The output digest of the link before as a field element, if this
    /// link carries one and its 32 bytes are the canonical form of a field
    /// element.
    pub open spec fn previous_digest(&self) -> Option<Seq<u64>> {
        match self.previous_hash {
            Some(bytes) => if limbs_reduced(bytes_limbs(bytes@)) {
                Some(bytes_limbs(bytes@))
            } else {
                None
            },
            None => None,
        }
    }

    /// The digest of the window of this link's image, as a number.
    pub open spec fn spec_image_digest(&self) -> nat {
        field_digest(data_window_values(byte_strings(self.image_data@)))
    }

    /// Whether this link can be proved: its witness fits its depth, and
    /// from depth 1 on the output digest of the link before is the digest
    /// of this link's image. A link whose image is not what the link
    /// before came out at breaks the chain and cannot be proved.
    pub open spec fn provable(&self) -> bool {
        &&& self.witness_fits_depth()
        &&& self.recursion_depth > 0 ==> {
            &&& self.previous_digest() is Some
            &&& limbs_value(self.previous_digest()->Some_0) == self.spec_image_digest()
        }
    }

    /// The two digests this link makes public. Both are the digest of the
    /// link's image, as the transformation step passes the pixels through.
    /// From depth 1 on the input digest must also be the output digest of
    /// the link before, which keeps the chain continuous. Fails where the
    /// witness does not fit the depth, where the previous digest is no
    /// field element, and where it is not the digest of this link's image.
    pub fn digests(&self) -> (r: Result<(FieldElement, FieldElement), ZKIMGError>)
        ensures
            match r {
                Ok((input, output)) => {
                    &&& self.provable()
                    &&& input@ == self.spec_image_digest()
                    &&& output@ == self.spec_image_digest()
                    &&& self.recursion_depth > 0 ==> self.previous_digest() == Some(
                        input.spec_limbs(),
                    )
                },
                Err(e) => e == ZKIMGError::WitnessInconsistent && !self.provable(),
            },
    {
        match self.check_witness() {
            Err(e) => {
                return Err(e);
            },
            Ok(()) => {},
        }
        let output = self.image_digest();
        if self.recursion_depth == 0 {
            return Ok((output, output));
        }
        match &self.previous_hash {
            Some(bytes) => match FieldElement::from_bytes(bytes.as_slice()) {
                Some(input) => {
                    if input.equals(&output) {
                        Ok((input, output))
                    } else {
                        Err(ZKIMGError::WitnessInconsistent)
                    }
                },
                None => Err(ZKIMGError::WitnessInconsistent),
            },
            None => Err(ZKIMGError::WitnessInconsistent),
        }
    }

    /// The steps from which this link's circuit is built, in order.
    pub fn synthesis_steps(&self) -> (steps: Vec<SynthesisStep>)
        ensures
            steps@ == steps_of(self.recursion_depth, self.transformation),
    {
        let mut steps: Vec<SynthesisStep> = Vec::new();
        if self.recursion_depth > 0 {
            steps.push(SynthesisStep::VerifyPreviousProof);
            steps.push(SynthesisStep::ConstrainHashContinuity);
        }
        steps.push(SynthesisStep::CommitInputHash);
        steps.push(SynthesisStep::ApplyTransformation(self.transformation));
        steps.push(SynthesisStep::CommitOutputHash);
        if self.recursion_depth > 0 {
            steps.push(SynthesisStep::ExposeDepth(self.recursion_depth));
        }
        proof {
            assert(steps@ =~= steps_of(self.recursion_depth, self.transformation));
        }
        steps
    }

    /// The number of public values this link's circuit declares.
    pub fn instance_count(&self) -> (n: usize)
        ensures
            n == instance_count_of(self.recursion_depth),
    {
        if self.recursion_depth == 0 {
            2
        } else {
            3
        }
    }

    /// The public values of this link, in the order the circuit declares
    /// them: the input digest, the output digest, and from depth 1 on the
    /// depth.
    pub fn public_inputs(&self, input_hash: FieldElement, output_hash: FieldElement) -> (inputs:
        Vec<FieldElement>)
        ensures
            inputs@.len() == instance_count_of(self.recursion_depth),
            inputs@[0] == input_hash,
            inputs@[1] == output_hash,
            self.recursion_depth > 0 ==> inputs@[2]@ == self.recursion_depth,
    {
        let mut inputs: Vec<FieldElement> = Vec::new();
        inputs.push(input_hash);
        inputs.push(output_hash);
        if self.recursion_depth > 0 {
            inputs.push(FieldElement::from_u64(self.recursion_depth as u64));
        }
        inputs
    }
}

/// Collects proofs and commits to them by one Merkle root.
#[derive(Debug, PartialEq, Eq)]
pub struct ProofAggregator {
    proofs: Vec<Vec<u8>>,
}

impl View for ProofAggregator {
    type V = Seq<Seq<u8>>;

    /// The proofs added so far, in the order they were added.
    closed spec fn view(&self) -> Seq<Seq<u8>> {
        byte_strings(self.proofs@)
    }
}

impl ProofAggregator {
    /// An aggregator without proofs.
    pub fn new() -> (aggregator: ProofAggregator)
        ensures
            aggregator@ == Seq::<Seq<u8>>::empty(),
    {
        let aggregator = ProofAggregator { proofs: Vec::new() };
        proof {
            assert(aggregator@ =~= Seq::<Seq<u8>>::empty());
        }
        aggregator
    }

    /// Adds a proof behind those added before.
    pub fn add_proof(&mut self, proof: Vec<u8>)
        ensures
            final(self)@ == old(self)@.push(proof@),
    {
        self.proofs.push(proof);
        proof {
            assert(self@ =~= old(self)@.push(proof@));
        }
    }

    /// The number of proofs added so far.
    pub fn len(&self) -> (n: usize)
        ensures
            n == self@.len(),
    {
        self.proofs.len()
    }

    /// The Merkle root that commits to the proofs added so far and to
    /// their order. Fails where no proof was added.
    pub fn aggregate(&self) -> (r: Result<Vec<u8>, ZKIMGError>)
        ensures
            self@.len() == 0 ==> r == Err::<Vec<u8>, ZKIMGError>(ZKIMGError::NoTileProofs),
            self@.len() > 0 ==> r is Ok && r->Ok_0@ == merkle_root(self@) && r->Ok_0@.len()
                == DIGEST_LEN,
    {
        if self.proofs.len() == 0 {
            return Err(ZKIMGError::NoTileProofs);
        }
        Ok(compute_merkle_root(&self.proofs))
    }

    /// Whether `aggregated_proof` is the commitment to the proofs added so
    /// far. The public inputs take no part in the commitment. Fails where
    /// no proof was added.
    pub fn verify_aggregated(&self, aggregated_proof: &[u8], public_inputs: &[FieldElement]) -> (r:
        Result<bool, ZKIMGError>)
        ensures
            self@.len() == 0 ==> r == Err::<bool, ZKIMGError>(ZKIMGError::NoTileProofs),
            self@.len() > 0 ==> r == Ok::<bool, ZKIMGError>(aggregated_proof@ == merkle_root(self@)),
    {
        if self.proofs.len() == 0 {
            return Err(ZKIMGError::NoTileProofs);
        }
        let root = compute_merkle_root(&self.proofs);
        Ok(bytes_equal(aggregated_proof, root.as_slice()))
    }
}

/// Whether two byte strings are the same.
pub fn bytes_equal(a: &[u8], b: &[u8]) -> (same: bool)
    ensures
        same == (a@ == b@),
{
    if a.len() != b.len() {
        return false;
    }
    let mut i: usize = 0;
    while i < a.len()
        invariant
            a@.len() == b@.len(),
            i <= a@.len(),
            forall|k: int| 0 <= k < i ==> a@[k] == b@[k],
        decreases a@.len() - i,
    {
        if a[i] != b[i] {
            return false;
        }
        i = i + 1;
    }
    proof {
        assert(a@ =~= b@);
    }
    true
}

} // verus!
