use zk_img::errors::ZKIMGError;
use zk_img::field::FieldElement;
use zk_img::hashing::hash_field_elements;
use zk_img::merkle::compute_merkle_root;
use zk_img::recursive_circuit::{
    bytes_equal, ProofAggregator, RecursiveZKIMGCircuit, SynthesisStep,
};
use zk_img::Transformation;

fn base() -> RecursiveZKIMGCircuit {
    RecursiveZKIMGCircuit::new(None, None, vec![vec![1, 2, 3], vec![4, 5, 6]], Transformation::Blur, 0)
}

fn later(depth: u32) -> RecursiveZKIMGCircuit {
    RecursiveZKIMGCircuit::new(
        Some(vec![9u8; 64]),
        Some([7u8; 32]),
        vec![vec![1, 2, 3]],
        Transformation::FlipVertical,
        depth,
    )
}

#[test]
fn new_keeps_what_it_is_given() {
    let c = later(3);
    assert_eq!(c.previous_proof, Some(vec![9u8; 64]));
    assert_eq!(c.previous_hash, Some([7u8; 32]));
    assert_eq!(c.image_data, vec![vec![1, 2, 3]]);
    assert_eq!(c.transformation, Transformation::FlipVertical);
    assert_eq!(c.recursion_depth, 3);
}

#[test]
fn without_witnesses_keeps_the_shape_only() {
    let bare = later(3).without_witnesses();
    assert_eq!(bare.previous_proof, None);
    assert_eq!(bare.previous_hash, None);
    assert!(bare.image_data.is_empty());
    assert_eq!(bare.transformation, Transformation::FlipVertical);
    assert_eq!(bare.recursion_depth, 3);
    assert_eq!(bare.synthesis_steps(), later(3).synthesis_steps());
    assert_eq!(bare.instance_count(), later(3).instance_count());
}

#[test]
fn base_link_commits_applies_and_commits() {
    assert_eq!(
        base().synthesis_steps(),
        vec![
            SynthesisStep::CommitInputHash,
            SynthesisStep::ApplyTransformation(Transformation::Blur),
            SynthesisStep::CommitOutputHash,
        ]
    );
    assert_eq!(base().instance_count(), 2);
}

#[test]
fn later_links_check_the_link_before_and_expose_their_depth() {
    assert_eq!(
        later(5).synthesis_steps(),
        vec![
            SynthesisStep::VerifyPreviousProof,
            SynthesisStep::ConstrainHashContinuity,
            SynthesisStep::CommitInputHash,
            SynthesisStep::ApplyTransformation(Transformation::FlipVertical),
            SynthesisStep::CommitOutputHash,
            SynthesisStep::ExposeDepth(5),
        ]
    );
    assert_eq!(later(5).instance_count(), 3);
    assert_eq!(later(1).synthesis_steps()[5], SynthesisStep::ExposeDepth(1));
}

#[test]
fn witness_must_fit_the_depth() {
    assert_eq!(base().check_witness(), Ok(()));
    assert_eq!(later(1).check_witness(), Ok(()));
    let mut orphan = later(2);
    orphan.previous_proof = None;
    assert_eq!(orphan.check_witness(), Err(ZKIMGError::WitnessInconsistent));
    let mut unhashed = later(2);
    unhashed.previous_hash = None;
    assert_eq!(unhashed.check_witness(), Err(ZKIMGError::WitnessInconsistent));
    let mut early = base();
    early.previous_proof = Some(vec![1]);
    assert_eq!(early.check_witness(), Err(ZKIMGError::WitnessInconsistent));
    let mut hashed = base();
    hashed.previous_hash = Some([0u8; 32]);
    assert_eq!(hashed.check_witness(), Err(ZKIMGError::WitnessInconsistent));
    assert_eq!(later(4).without_witnesses().check_witness(), Err(ZKIMGError::WitnessInconsistent));
}

#[test]
fn public_inputs_start_with_the_two_digests() {
    let input = FieldElement::from_u64(11);
    let output = FieldElement::from_u64(22);
    assert_eq!(base().public_inputs(input, output), vec![input, output]);
    assert_eq!(
        later(7).public_inputs(input, output),
        vec![input, output, FieldElement::from_u64(7)]
    );
    assert_eq!(
        later(u32::MAX).public_inputs(input, output)[2],
        FieldElement::from_u64(u32::MAX as u64)
    );
}

#[test]
fn aggregator_commits_to_what_was_added() {
    let mut aggregator = ProofAggregator::new();
    assert_eq!(aggregator.len(), 0);
    assert_eq!(aggregator.aggregate(), Err(ZKIMGError::NoTileProofs));
    aggregator.add_proof(vec![1, 2, 3]);
    assert_eq!(aggregator.len(), 1);
    let one = aggregator.aggregate().unwrap();
    assert_eq!(one, compute_merkle_root(&vec![vec![1, 2, 3]]));
    aggregator.add_proof(vec![4, 5]);
    aggregator.add_proof(vec![]);
    assert_eq!(aggregator.len(), 3);
    let three = aggregator.aggregate().unwrap();
    assert_eq!(three, compute_merkle_root(&vec![vec![1, 2, 3], vec![4, 5], vec![]]));
    assert_ne!(three, one);
    assert_eq!(three.len(), 32);
    assert_ne!(three, vec![0u8; 192]);
}

#[test]
fn aggregated_proof_is_checked_against_the_commitment() {
    let mut aggregator = ProofAggregator::new();
    assert_eq!(aggregator.verify_aggregated(&[], &[]), Err(ZKIMGError::NoTileProofs));
    aggregator.add_proof(vec![1, 2, 3]);
    aggregator.add_proof(vec![4, 5]);
    let root = aggregator.aggregate().unwrap();
    let inputs = vec![FieldElement::from_u64(1)];
    assert_eq!(aggregator.verify_aggregated(&root, &inputs), Ok(true));
    assert_eq!(aggregator.verify_aggregated(&root, &[]), Ok(true));
    let mut wrong = root.clone();
    wrong[0] ^= 1;
    assert_eq!(aggregator.verify_aggregated(&wrong, &inputs), Ok(false));
    assert_eq!(aggregator.verify_aggregated(&root[..31], &inputs), Ok(false));
    assert_eq!(aggregator.verify_aggregated(&[0u8; 192], &inputs), Ok(false));
    aggregator.add_proof(vec![6]);
    assert_eq!(aggregator.verify_aggregated(&root, &inputs), Ok(false));
}

#[test]
fn byte_strings_are_compared_in_full() {
    assert!(bytes_equal(&[], &[]));
    assert!(bytes_equal(&[1, 2, 3], &[1, 2, 3]));
    assert!(!bytes_equal(&[1, 2, 3], &[1, 2, 4]));
    assert!(!bytes_equal(&[1, 2, 3], &[1, 2]));
    assert!(!bytes_equal(&[], &[0]));
}

#[test]
fn window_of_a_link_holds_the_first_bytes_of_the_first_rows() {
    let e = |v: u8| FieldElement::from_u64(v as u64);
    assert_eq!(base().window_elements(), vec![e(1), e(2), e(3), e(4), e(5), e(6)]);
    let wide: Vec<Vec<u8>> = (0..40u8).map(|y| (0..120u8).map(|x| x ^ y).collect()).collect();
    let link = RecursiveZKIMGCircuit::new(None, None, wide.clone(), Transformation::Blur, 0);
    let elements = link.window_elements();
    assert_eq!(elements.len(), 32 * 96);
    assert_eq!(elements[0], e(wide[0][0]));
    assert_eq!(elements[95], e(wide[0][95]));
    assert_eq!(elements[96], e(wide[1][0]));
    assert_eq!(elements[32 * 96 - 1], e(wide[31][95]));
    let ragged = RecursiveZKIMGCircuit::new(None, None, vec![vec![], vec![9], vec![]], Transformation::Blur, 0);
    assert_eq!(ragged.window_elements(), vec![e(9)]);
    assert_eq!(link.image_digest(), hash_field_elements(&elements));
}

#[test]
fn digests_of_a_base_link_are_the_digest_of_its_image() {
    let link = base();
    let (input, output) = link.digests().unwrap();
    assert_eq!(output, link.image_digest());
    assert_eq!(input, output);
    assert_eq!(link.public_inputs(input, output), vec![output, output]);
}

#[test]
fn digests_of_a_later_link_continue_the_chain() {
    let first = base();
    let (_, out) = first.digests().unwrap();
    let hash: [u8; 32] = out.to_bytes().try_into().unwrap();
    let second = RecursiveZKIMGCircuit::new(
        Some(vec![1, 2, 3]),
        Some(hash),
        first.image_data.clone(),
        Transformation::FlipVertical,
        1,
    );
    let (input, output) = second.digests().unwrap();
    assert_eq!(input, out);
    assert_eq!(output, second.image_digest());
    assert_eq!(output, input);
    assert_eq!(
        second.public_inputs(input, output),
        vec![out, out, FieldElement::from_u64(1)]
    );
}

#[test]
fn a_link_whose_image_is_not_what_came_before_is_refused() {
    let first = base();
    let (_, out) = first.digests().unwrap();
    let hash: [u8; 32] = out.to_bytes().try_into().unwrap();
    let other = RecursiveZKIMGCircuit::new(
        Some(vec![1, 2, 3]),
        Some(hash),
        vec![vec![6, 5, 4], vec![3, 2, 1]],
        Transformation::FlipVertical,
        1,
    );
    assert_ne!(other.image_digest(), out);
    assert_eq!(other.check_witness(), Ok(()));
    assert_eq!(other.digests(), Err(ZKIMGError::WitnessInconsistent));
    let zero = RecursiveZKIMGCircuit::new(
        Some(vec![]),
        Some([0u8; 32]),
        first.image_data.clone(),
        Transformation::FlipVertical,
        1,
    );
    assert_eq!(zero.digests(), Err(ZKIMGError::WitnessInconsistent));
}

#[test]
fn digests_fail_on_a_witness_that_does_not_fit() {
    assert_eq!(later(2).without_witnesses().digests(), Err(ZKIMGError::WitnessInconsistent));
    let mut early = base();
    early.previous_hash = Some([0u8; 32]);
    assert_eq!(early.digests(), Err(ZKIMGError::WitnessInconsistent));
    let mut not_reduced = later(1);
    not_reduced.previous_hash = Some([0xff; 32]);
    assert_eq!(not_reduced.digests(), Err(ZKIMGError::WitnessInconsistent));
    assert_eq!(later(1).digests(), Err(ZKIMGError::WitnessInconsistent));
    let mut fitting = later(1);
    fitting.previous_hash = Some(fitting.image_digest().to_bytes().try_into().unwrap());
    assert!(fitting.digests().is_ok());
}
