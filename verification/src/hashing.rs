//! The two hash functions of the library, SHA-256 and Poseidon, the tagged
//! digests of the Merkle commitment, and the digest of a list of field
//! elements.

use crate::field::{bytes_limbs, limbs_reduced, limbs_value, FieldElement};
use halo2_gadgets::poseidon::primitives;
use pasta_curves::group::ff::PrimeField;
use pasta_curves::Fp;
use sha2::Digest;
use vstd::prelude::*;

verus! {

/// The SHA-256 digest of a byte string.
pub uninterp spec fn sha256(data: Seq<u8>) -> Seq<u8>;

/// The length of a digest in bytes.
pub const DIGEST_LEN: usize = 32;

/// Calls `sha2::Sha256::digest`. Trusted: the result is the SHA-256 digest
/// of `data`, a function of the bytes alone, and is 32 bytes long.
#[verifier::external_body]
pub(crate) fn sha256_digest(data: &[u8]) -> (digest: Vec<u8>)
    ensures
        digest@ == sha256(data@),
        digest@.len() == DIGEST_LEN,
{
    sha2::Sha256::digest(data).to_vec()
}

/// The byte that starts the input of a leaf digest.
pub const LEAF_TAG: u8 = 0;

/// The byte that starts the input of an inner node's digest.
pub const NODE_TAG: u8 = 1;

/// The digest that stands for one item at the bottom of the tree.
pub open spec fn leaf_digest(item: Seq<u8>) -> Seq<u8> {
    sha256(seq![LEAF_TAG] + item)
}

/// The digest of an inner node with the given children.
pub open spec fn node_digest(left: Seq<u8>, right: Seq<u8>) -> Seq<u8> {
    sha256(seq![NODE_TAG] + left + right)
}

/// The digest of one item at the bottom of the tree.
pub fn hash_leaf(item: &[u8]) -> (digest: Vec<u8>)
    ensures
        digest@ == leaf_digest(item@),
        digest@.len() == DIGEST_LEN,
{
    let mut input: Vec<u8> = Vec::new();
    input.push(LEAF_TAG);
    let mut i: usize = 0;
    while i < item.len()
        invariant
            i <= item@.len(),
            input@ == seq![LEAF_TAG] + item@.take(i as int),
        decreases item@.len() - i,
    {
        input.push(item[i]);
        proof {
            assert(item@.take(i + 1) =~= item@.take(i as int).push(item@[i as int]));
            assert(input@ =~= seq![LEAF_TAG] + item@.take(i + 1));
        }
        i = i + 1;
    }
    proof {
        assert(item@.take(i as int) =~= item@);
    }
    sha256_digest(input.as_slice())
}

/// The digest of an inner node.
pub fn hash_node(left: &[u8], right: &[u8]) -> (digest: Vec<u8>)
    ensures
        digest@ == node_digest(left@, right@),
        digest@.len() == DIGEST_LEN,
{
    let mut input: Vec<u8> = Vec::new();
    input.push(NODE_TAG);
    let mut i: usize = 0;
    while i < left.len()
        invariant
            i <= left@.len(),
            input@ == seq![NODE_TAG] + left@.take(i as int),
        decreases left@.len() - i,
    {
        input.push(left[i]);
        proof {
            assert(left@.take(i + 1) =~= left@.take(i as int).push(left@[i as int]));
            assert(input@ =~= seq![NODE_TAG] + left@.take(i + 1));
        }
        i = i + 1;
    }
    proof {
        assert(left@.take(i as int) =~= left@);
    }
    let mut j: usize = 0;
    while j < right.len()
        invariant
            j <= right@.len(),
            input@ == seq![NODE_TAG] + left@ + right@.take(j as int),
        decreases right@.len() - j,
    {
        input.push(right[j]);
        proof {
            assert(right@.take(j + 1) =~= right@.take(j as int).push(right@[j as int]));
            assert(input@ =~= seq![NODE_TAG] + left@ + right@.take(j + 1));
        }
        j = j + 1;
    }
    proof {
        assert(right@.take(j as int) =~= right@);
    }
    sha256_digest(input.as_slice())
}

/// The Poseidon hash of two elements of the Pallas base field, each given
/// as the number it stands for: the permutation of width 3 and rate 2 with
/// the fifth power as S-box, 8 full and 56 partial rounds, used at the
/// constant input length 2.
pub uninterp spec fn poseidon_pair(left: nat, right: nat) -> nat;

/// Calls `halo2_gadgets::poseidon::primitives::Hash::hash` with the
/// parameters `P128Pow5T3` and `ConstantLength<2>` on the two elements that
/// the limbs stand for, and hands back the hash in its canonical 32 bytes.
/// Trusted: the bytes are the canonical form, least significant first, of
/// the Poseidon hash of the pair, a function of the two numbers alone.
#[verifier::external_body]
fn poseidon_pair_bytes(left: [u64; 4], right: [u64; 4]) -> (bytes: Vec<u8>)
    requires
        limbs_reduced(left@),
        limbs_reduced(right@),
    ensures
        bytes@.len() == 32,
        limbs_reduced(bytes_limbs(bytes@)),
        limbs_value(bytes_limbs(bytes@)) == poseidon_pair(limbs_value(left@), limbs_value(right@)),
{
    let message = [Fp::from_raw(left), Fp::from_raw(right)];
    let hash = primitives::Hash::<
        Fp,
        primitives::P128Pow5T3,
        primitives::ConstantLength<2>,
        3,
        2,
    >::init().hash(message);
    hash.to_repr().to_vec()
}

/// The Poseidon hash of two field elements.
pub(crate) fn poseidon_hash_pair(left: &FieldElement, right: &FieldElement) -> (digest:
    FieldElement)
    ensures
        digest@ == poseidon_pair(left@, right@),
        digest.wf(),
{
    proof {
        use_type_invariant(left);
        use_type_invariant(right);
    }
    let bytes = poseidon_pair_bytes(left.limbs(), right.limbs());
    match FieldElement::from_bytes(bytes.as_slice()) {
        Some(digest) => digest,
        None => vstd::pervasive::unreached(),
    }
}

/// The numbers that a list of field elements stands for.
pub open spec fn values_of(elements: Seq<FieldElement>) -> Seq<nat> {
    Seq::new(elements.len(), |i: int| elements[i]@)
}

/// The state after absorbing a list of numbers one by one, starting at 0:
/// each number is hashed together with the state before it.
pub open spec fn absorb_all(values: Seq<nat>) -> nat
    decreases values.len(),
{
    if values.len() == 0 {
        0
    } else {
        poseidon_pair(absorb_all(values.drop_last()), values.last())
    }
}

/// The digest of a list of numbers: the state after absorbing them all,
/// hashed together with their count.
pub open spec fn field_digest(values: Seq<nat>) -> nat {
    poseidon_pair(absorb_all(values), values.len())
}

/// The digest of a list of field elements.
pub fn hash_field_elements(elements: &[FieldElement]) -> (digest: FieldElement)
    ensures
        digest@ == field_digest(values_of(elements@)),
        digest.wf(),
{
    let ghost values = values_of(elements@);
    let mut state = FieldElement::zero();
    let mut i: usize = 0;
    proof {
        assert(values.take(0) =~= Seq::<nat>::empty());
    }
    while i < elements.len()
        invariant
            i <= elements@.len(),
            values == values_of(elements@),
            state@ == absorb_all(values.take(i as int)),
        decreases elements@.len() - i,
    {
        proof {
            assert(values.take(i + 1).drop_last() =~= values.take(i as int));
            assert(values.take(i + 1).last() == elements@[i as int]@);
        }
        state = poseidon_hash_pair(&state, &elements[i]);
        i = i + 1;
    }
    proof {
        assert(values.take(i as int) =~= values);
    }
    let count = FieldElement::from_u64(elements.len() as u64);
    poseidon_hash_pair(&state, &count)
}

} // verus!
