//! The Merkle commitment to a list of items: its root, the path that
//! leads from one item to the root, and the check of such a path.

use crate::hashing::{hash_leaf, hash_node, leaf_digest, node_digest, DIGEST_LEN};
use crate::recursive_circuit::bytes_equal;
use vstd::prelude::*;

verus! {

/// The level above `level`: neighbours are paired from the left, and a
/// last node without a neighbour moves up unchanged.
pub open spec fn level_above(level: Seq<Seq<u8>>) -> Seq<Seq<u8>> {
    Seq::new(
        ((level.len() + 1) / 2) as nat,
        |i: int|
            if 2 * i + 1 < level.len() {
                node_digest(level[2 * i], level[2 * i + 1])
            } else {
                level[2 * i]
            },
    )
}

/// The root above a level of digests. A single digest is its own root.
pub open spec fn root_of_level(level: Seq<Seq<u8>>) -> Seq<u8>
    decreases level.len(),
{
    if level.len() == 0 {
        Seq::empty()
    } else if level.len() == 1 {
        level[0]
    } else {
        root_of_level(level_above(level))
    }
}

/// The leaf digests of a list of items, in order.
pub open spec fn leaves_of(items: Seq<Seq<u8>>) -> Seq<Seq<u8>> {
    Seq::new(items.len(), |i: int| leaf_digest(items[i]))
}

/// The Merkle root that commits to a list of items and their order.
pub open spec fn merkle_root(items: Seq<Seq<u8>>) -> Seq<u8> {
    root_of_level(leaves_of(items))
}

/// What a vector of byte vectors holds.
pub open spec fn byte_strings(items: Seq<Vec<u8>>) -> Seq<Seq<u8>> {
    Seq::new(items.len(), |i: int| items[i]@)
}

/// One step on the way from a node to the root.
#[derive(Clone, Debug, PartialEq, Eq)]
pub enum PathStep {
    /// The node is a right child; its sibling on the left has this digest.
    Left(Vec<u8>),
    /// The node is a left child; its sibling on the right has this digest.
    Right(Vec<u8>),
    /// The node has no sibling and moves up unchanged.
    Alone,
}

/// A step with its digest as a byte string.
pub enum StepView {
    Left(Seq<u8>),
    Right(Seq<u8>),
    Alone,
}

impl View for PathStep {
    type V = StepView;

    open spec fn view(&self) -> StepView {
        match self {
            PathStep::Left(sibling) => StepView::Left(sibling@),
            PathStep::Right(sibling) => StepView::Right(sibling@),
            PathStep::Alone => StepView::Alone,
        }
    }
}

/// What a list of steps holds.
pub open spec fn steps_view(path: Seq<PathStep>) -> Seq<StepView> {
    Seq::new(path.len(), |i: int| path[i]@)
}

/// The digest one step above a node.
pub open spec fn step_up(current: Seq<u8>, step: StepView) -> Seq<u8> {
    match step {
        StepView::Left(sibling) => node_digest(sibling, current),
        StepView::Right(sibling) => node_digest(current, sibling),
        StepView::Alone => current,
    }
}

/// The digest at the end of a path that starts at `current`.
pub open spec fn climb(current: Seq<u8>, path: Seq<StepView>) -> Seq<u8>
    decreases path.len(),
{
    if path.len() == 0 {
        current
    } else {
        climb(step_up(current, path[0]), path.skip(1))
    }
}

/// The step that leads from the node at `index` of a level to its parent.
pub open spec fn step_at(level: Seq<Seq<u8>>, index: int) -> StepView {
    if index % 2 == 1 {
        StepView::Left(level[index - 1])
    } else if index + 1 < level.len() {
        StepView::Right(level[index + 1])
    } else {
        StepView::Alone
    }
}

/// The path from the node at `index` of a level to the root above the
/// level.
pub open spec fn path_in_level(level: Seq<Seq<u8>>, index: int) -> Seq<StepView>
    decreases level.len(),
{
    if level.len() <= 1 {
        Seq::empty()
    } else {
        seq![step_at(level, index)] + path_in_level(level_above(level), index / 2)
    }
}

/// The path from the item at `index` to the Merkle root of the items.
pub open spec fn inclusion_path(items: Seq<Seq<u8>>, index: int) -> Seq<StepView> {
    path_in_level(leaves_of(items), index)
}

/// The path of a node leads from the node to the root above its level.
pub proof fn lemma_path_leads_to_root(level: Seq<Seq<u8>>, index: int)
    requires
        0 <= index < level.len(),
    ensures
        climb(level[index], path_in_level(level, index)) == root_of_level(level),
    decreases level.len(),
{
    if level.len() > 1 {
        let above = level_above(level);
        let path = path_in_level(level, index);
        assert(above[index / 2] == step_up(level[index], step_at(level, index)));
        assert(path.skip(1) =~= path_in_level(above, index / 2));
        assert(path[0] == step_at(level, index));
        lemma_path_leads_to_root(above, index / 2);
    }
}

/// Every item is tied to the Merkle root of its list: the path of the
/// item leads from the item's digest to the root.
pub proof fn lemma_inclusion_path_leads_to_root(items: Seq<Seq<u8>>, index: int)
    requires
        0 <= index < items.len(),
    ensures
        climb(leaf_digest(items[index]), inclusion_path(items, index)) == merkle_root(items),
{
    lemma_path_leads_to_root(leaves_of(items), index);
}

/// The digests of the items, in order.
fn hash_leaves(items: &Vec<Vec<u8>>) -> (level: Vec<Vec<u8>>)
    ensures
        byte_strings(level@) == leaves_of(byte_strings(items@)),
        level@.len() == items@.len(),
        forall|k: int| 0 <= k < level@.len() ==> (#[trigger] level@[k])@.len() == DIGEST_LEN,
{
    let mut level: Vec<Vec<u8>> = Vec::new();
    let mut i: usize = 0;
    while i < items.len()
        invariant
            i <= items@.len(),
            level@.len() == i,
            forall|k: int|
                0 <= k < i ==> (#[trigger] level@[k])@ == leaf_digest(items@[k]@),
            forall|k: int| 0 <= k < i ==> (#[trigger] level@[k])@.len() == DIGEST_LEN,
        decreases items@.len() - i,
    {
        let leaf = hash_leaf(items[i].as_slice());
        level.push(leaf);
        i = i + 1;
    }
    proof {
        assert(byte_strings(level@) =~= leaves_of(byte_strings(items@)));
    }
    level
}

/// The level above a level of digests.
fn hash_level(level: &Vec<Vec<u8>>) -> (above: Vec<Vec<u8>>)
    requires
        level@.len() > 1,
        forall|k: int| 0 <= k < level@.len() ==> (#[trigger] level@[k])@.len() == DIGEST_LEN,
    ensures
        byte_strings(above@) == level_above(byte_strings(level@)),
        above@.len() == (level@.len() + 1) / 2,
        forall|k: int| 0 <= k < above@.len() ==> (#[trigger] above@[k])@.len() == DIGEST_LEN,
{
    let ghost below = byte_strings(level@);
    let mut above: Vec<Vec<u8>> = Vec::new();
    let n = level.len();
    let count: usize = n / 2 + n % 2;
    let mut p: usize = 0;
    while p < count
        invariant
            n == level@.len(),
            n > 1,
            count == (n + 1) / 2,
            p <= count,
            below == byte_strings(level@),
            above@.len() == p,
            forall|k: int|
                0 <= k < above@.len() ==> (#[trigger] above@[k])@ == level_above(below)[k],
            forall|k: int| 0 <= k < level@.len() ==> (#[trigger] level@[k])@.len() == DIGEST_LEN,
            forall|k: int| 0 <= k < above@.len() ==> (#[trigger] above@[k])@.len() == DIGEST_LEN,
        decreases count - p,
    {
        let j: usize = 2 * p;
        if j + 1 < n {
            let parent = hash_node(level[j].as_slice(), level[j + 1].as_slice());
            proof {
                assert(below[j as int] == level@[j as int]@);
                assert(below[j + 1] == level@[j + 1]@);
            }
            above.push(parent);
        } else {
            let lone = level[j].clone();
            proof {
                assert(below[j as int] == level@[j as int]@);
                assert(lone@ =~= level@[j as int]@);
            }
            above.push(lone);
        }
        p = p + 1;
    }
    proof {
        assert(byte_strings(above@) =~= level_above(below));
    }
    above
}

/// The Merkle root over the items, in their order.
pub fn compute_merkle_root(items: &Vec<Vec<u8>>) -> (root: Vec<u8>)
    requires
        items@.len() > 0,
    ensures
        root@ == merkle_root(byte_strings(items@)),
        root@.len() == DIGEST_LEN,
{
    let mut level = hash_leaves(items);
    while level.len() > 1
        invariant
            level@.len() > 0,
            root_of_level(byte_strings(level@)) == merkle_root(byte_strings(items@)),
            forall|k: int| 0 <= k < level@.len() ==> (#[trigger] level@[k])@.len() == DIGEST_LEN,
        decreases level@.len(),
    {
        level = hash_level(&level);
    }
    let root = level[0].clone();
    proof {
        assert(byte_strings(level@)[0] == level@[0]@);
        assert(root@ =~= level@[0]@);
    }
    root
}

/// The path from the item at `index` to the Merkle root of the items:
/// with it, the item alone can be checked against the root.
pub fn merkle_path(items: &Vec<Vec<u8>>, index: usize) -> (path: Vec<PathStep>)
    requires
        index < items@.len(),
    ensures
        steps_view(path@) == inclusion_path(byte_strings(items@), index as int),
        climb(leaf_digest(items@[index as int]@), steps_view(path@)) == merkle_root(
            byte_strings(items@),
        ),
{
    let ghost want = inclusion_path(byte_strings(items@), index as int);
    proof {
        lemma_inclusion_path_leads_to_root(byte_strings(items@), index as int);
    }
    let mut level = hash_leaves(items);
    let mut at: usize = index;
    let mut path: Vec<PathStep> = Vec::new();
    proof {
        assert(steps_view(path@) =~= Seq::<StepView>::empty());
    }
    while level.len() > 1
        invariant
            level@.len() > 0,
            at < level@.len(),
            forall|k: int| 0 <= k < level@.len() ==> (#[trigger] level@[k])@.len() == DIGEST_LEN,
            want == steps_view(path@) + path_in_level(byte_strings(level@), at as int),
        decreases level@.len(),
    {
        let ghost below = byte_strings(level@);
        let ghost before = steps_view(path@);
        let step = if at % 2 == 1 {
            PathStep::Left(level[at - 1].clone())
        } else if at + 1 < level.len() {
            PathStep::Right(level[at + 1].clone())
        } else {
            PathStep::Alone
        };
        proof {
            if at % 2 == 1 {
                assert(below[at - 1] == level@[at - 1]@);
            } else if at + 1 < level@.len() {
                assert(below[at + 1] == level@[at + 1]@);
            }
            assert(step@ == step_at(below, at as int));
        }
        path.push(step);
        let above = hash_level(&level);
        proof {
            assert(steps_view(path@) =~= before + seq![step_at(below, at as int)]);
            assert(before + (seq![step_at(below, at as int)] + path_in_level(
                level_above(below),
                at as int / 2,
            )) =~= steps_view(path@) + path_in_level(byte_strings(above@), at as int / 2));
        }
        level = above;
        at = at / 2;
    }
    proof {
        assert(path_in_level(byte_strings(level@), at as int) =~= Seq::<StepView>::empty());
        assert(steps_view(path@) + Seq::<StepView>::empty() =~= steps_view(path@));
    }
    path
}

/// The digest at the end of a path that starts at `start`.
pub fn climb_path(start: Vec<u8>, path: &[PathStep]) -> (end: Vec<u8>)
    ensures
        end@ == climb(start@, steps_view(path@)),
{
    let ghost steps = steps_view(path@);
    let ghost origin = start@;
    let mut current = start;
    let mut i: usize = 0;
    proof {
        assert(steps.skip(0) =~= steps);
    }
    while i < path.len()
        invariant
            i <= path@.len(),
            steps == steps_view(path@),
            climb(origin, steps) == climb(current@, steps.skip(i as int)),
        decreases path@.len() - i,
    {
        proof {
            assert(steps.skip(i as int)[0] == path@[i as int]@);
            assert(steps.skip(i as int).skip(1) =~= steps.skip(i + 1));
        }
        match &path[i] {
            PathStep::Left(sibling) => {
                current = hash_node(sibling.as_slice(), current.as_slice());
            },
            PathStep::Right(sibling) => {
                current = hash_node(current.as_slice(), sibling.as_slice());
            },
            PathStep::Alone => {},
        }
        i = i + 1;
    }
    current
}

/// Whether a path leads from an item to a root: whether the item is the
/// one the root commits to at the place the path describes.
pub fn verify_inclusion(root: &[u8], item: &[u8], path: &[PathStep]) -> (included: bool)
    ensures
        included == (climb(leaf_digest(item@), steps_view(path@)) == root@),
{
    let end = climb_path(hash_leaf(item), path);
    bytes_equal(end.as_slice(), root)
}

} // verus!
