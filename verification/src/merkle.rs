//! The binary Merkle tree behind authenticated RAM: every level of a
//! power-of-two leaf vector, authentication paths, in-place leaf updates,
//! and the root recomputed from a leaf and its path. The two-to-one node
//! hash is the caller's function; the tree holds 32-byte field storage
//! words.

use vstd::prelude::*;

use crate::math::{is_pow2, two_to};

verus! {

/// A node hash that can be called on every pair of children.
pub open spec fn node_total<F: Fn([u8; 32], [u8; 32]) -> [u8; 32]>(node: F) -> bool {
    forall|a: [u8; 32], b: [u8; 32]| #[trigger] node.requires((a, b))
}

/// A node hash that returns one value per pair of children.
pub open spec fn node_deterministic<F: Fn([u8; 32], [u8; 32]) -> [u8; 32]>(node: F) -> bool {
    forall|a: [u8; 32], b: [u8; 32], r1: [u8; 32], r2: [u8; 32]|
        #[trigger] node.ensures((a, b), r1) && #[trigger] node.ensures((a, b), r2) ==> r1 == r2
}

/// The value a deterministic node hash returns for a pair of children.
pub open spec fn node_value<F: Fn([u8; 32], [u8; 32]) -> [u8; 32]>(
    node: F,
    a: [u8; 32],
    b: [u8; 32],
) -> [u8; 32] {
    choose|r: [u8; 32]| node.ensures((a, b), r)
}

/// A node hash as a mathematical function.
pub open spec fn node_fn<F: Fn([u8; 32], [u8; 32]) -> [u8; 32]>(node: F) -> spec_fn(
    [u8; 32],
    [u8; 32],
) -> [u8; 32] {
    |a: [u8; 32], b: [u8; 32]| node_value(node, a, b)
}

proof fn lemma_node_value<F: Fn([u8; 32], [u8; 32]) -> [u8; 32]>(
    node: F,
    a: [u8; 32],
    b: [u8; 32],
    r: [u8; 32],
)
    requires
        node_deterministic(node),
        node.ensures((a, b), r),
    ensures
        node_fn(node)(a, b) == r,
{
    let c = choose|c: [u8; 32]| node.ensures((a, b), c);
    assert(node.ensures((a, b), c));
}

/// The level above `level`: the hash of each adjacent pair.
pub open spec fn parent_level(level: Seq<[u8; 32]>, h: spec_fn([u8; 32], [u8; 32]) -> [u8; 32]) -> Seq<
    [u8; 32],
> {
    Seq::new(level.len() / 2, |j: int| h(level[2 * j], level[2 * j + 1]))
}

/// Level `k` of the tree over `leaves`: the leaves for `k == 0`.
pub open spec fn merkle_level(
    leaves: Seq<[u8; 32]>,
    h: spec_fn([u8; 32], [u8; 32]) -> [u8; 32],
    k: nat,
) -> Seq<[u8; 32]>
    decreases k,
{
    if k == 0 {
        leaves
    } else {
        parent_level(merkle_level(leaves, h, (k - 1) as nat), h)
    }
}

/// The other child of the same parent.
pub open spec fn sibling(i: nat) -> nat {
    if i % 2 == 0 {
        i + 1
    } else {
        (i - 1) as nat
    }
}

/// Position at level `k` of the node above leaf `i`.
pub open spec fn position(i: nat, k: nat) -> nat
    decreases k,
{
    if k == 0 {
        i
    } else {
        position(i, (k - 1) as nat) / 2
    }
}

/// The authentication path of the node at position `i` of level `k`: the
/// siblings from level `k` up to, not including, level `depth`.
pub open spec fn auth_path(
    leaves: Seq<[u8; 32]>,
    h: spec_fn([u8; 32], [u8; 32]) -> [u8; 32],
    i: nat,
    k: nat,
    depth: nat,
) -> Seq<[u8; 32]>
    decreases depth - k,
{
    if k >= depth {
        Seq::empty()
    } else {
        seq![merkle_level(leaves, h, k)[sibling(i) as int]] + auth_path(
            leaves,
            h,
            i / 2,
            k + 1,
            depth,
        )
    }
}

/// The root reached from `leaf` at position `index` by hashing it with
/// each sibling of `path` in turn, on the side its position gives.
pub open spec fn root_from_path(
    leaf: [u8; 32],
    index: nat,
    path: Seq<[u8; 32]>,
    h: spec_fn([u8; 32], [u8; 32]) -> [u8; 32],
) -> [u8; 32]
    decreases path.len(),
{
    if path.len() == 0 {
        leaf
    } else {
        let next = if index % 2 == 0 {
            h(leaf, path[0])
        } else {
            h(path[0], leaf)
        };
        root_from_path(next, index / 2, path.drop_first(), h)
    }
}

/// The root of the tree over `2^depth` leaves.
pub open spec fn merkle_root(
    leaves: Seq<[u8; 32]>,
    h: spec_fn([u8; 32], [u8; 32]) -> [u8; 32],
    depth: nat,
) -> [u8; 32] {
    merkle_level(leaves, h, depth)[0]
}

pub proof fn lemma_level_len(
    leaves: Seq<[u8; 32]>,
    h: spec_fn([u8; 32], [u8; 32]) -> [u8; 32],
    depth: nat,
    k: nat,
)
    requires
        leaves.len() == two_to(depth),
        k <= depth,
    ensures
        merkle_level(leaves, h, k).len() == two_to((depth - k) as nat),
    decreases k,
{
    if k > 0 {
        lemma_level_len(leaves, h, depth, (k - 1) as nat);
        assert(two_to((depth - (k - 1)) as nat) == 2 * two_to((depth - k) as nat));
    }
}

proof fn lemma_two_to_pos(k: nat)
    ensures
        two_to(k) >= 1,
    decreases k,
{
    if k > 0 {
        lemma_two_to_pos((k - 1) as nat);
    }
}

proof fn lemma_path_reaches_root(
    leaves: Seq<[u8; 32]>,
    h: spec_fn([u8; 32], [u8; 32]) -> [u8; 32],
    depth: nat,
    k: nat,
    i: nat,
)
    requires
        leaves.len() == two_to(depth),
        k <= depth,
        i < two_to((depth - k) as nat),
    ensures
        root_from_path(merkle_level(leaves, h, k)[i as int], i, auth_path(leaves, h, i, k, depth), h)
            == merkle_root(leaves, h, depth),
    decreases depth - k,
{
    lemma_level_len(leaves, h, depth, k);
    if k == depth {
        assert(two_to(0) == 1);
    } else {
        lemma_level_len(leaves, h, depth, k + 1);
        assert(two_to((depth - k) as nat) == 2 * two_to((depth - (k + 1)) as nat));
        let level = merkle_level(leaves, h, k);
        let path = auth_path(leaves, h, i, k, depth);
        assert(path[0] == level[sibling(i) as int]);
        assert(path.drop_first() =~= auth_path(leaves, h, i / 2, k + 1, depth));
        let p = i / 2;
        assert(merkle_level(leaves, h, k + 1)[p as int] == h(level[2 * p as int], level[2 * p + 1 as int]));
        lemma_path_reaches_root(leaves, h, depth, k + 1, p);
    }
}

/// Every leaf and its authentication path recompute the root.
pub proof fn law_path_recomputes_root(
    leaves: Seq<[u8; 32]>,
    h: spec_fn([u8; 32], [u8; 32]) -> [u8; 32],
    depth: nat,
    i: nat,
)
    requires
        leaves.len() == two_to(depth),
        i < leaves.len(),
    ensures
        root_from_path(leaves[i as int], i, auth_path(leaves, h, i, 0, depth), h) == merkle_root(
            leaves,
            h,
            depth,
        ),
{
    lemma_path_reaches_root(leaves, h, depth, 0, i);
}

proof fn lemma_update_levels(
    leaves: Seq<[u8; 32]>,
    h: spec_fn([u8; 32], [u8; 32]) -> [u8; 32],
    depth: nat,
    i: nat,
    x: [u8; 32],
    k: nat,
)
    requires
        leaves.len() == two_to(depth),
        i < leaves.len(),
        k <= depth,
    ensures
        merkle_level(leaves.update(i as int, x), h, k).len() == merkle_level(leaves, h, k).len(),
        position(i, k) < merkle_level(leaves, h, k).len(),
        forall|j: int|
            0 <= j < merkle_level(leaves, h, k).len() && j != position(i, k) ==> #[trigger] merkle_level(
                leaves.update(i as int, x),
                h,
                k,
            )[j] == merkle_level(leaves, h, k)[j],
    decreases k,
{
    lemma_level_len(leaves, h, depth, k);
    lemma_level_len(leaves.update(i as int, x), h, depth, k);
    if k == 0 {
        lemma_two_to_pos(depth);
    } else {
        lemma_update_levels(leaves, h, depth, i, x, (k - 1) as nat);
        lemma_level_len(leaves, h, depth, (k - 1) as nat);
        assert(two_to((depth - (k - 1)) as nat) == 2 * two_to((depth - k) as nat));
    }
}

/// Updating one leaf leaves its authentication path unchanged, and the new
/// root is the root recomputed from the new leaf and that path.
pub proof fn law_update_follows_path(
    leaves: Seq<[u8; 32]>,
    h: spec_fn([u8; 32], [u8; 32]) -> [u8; 32],
    depth: nat,
    i: nat,
    x: [u8; 32],
)
    requires
        leaves.len() == two_to(depth),
        i < leaves.len(),
    ensures
        auth_path(leaves.update(i as int, x), h, i, 0, depth) == auth_path(leaves, h, i, 0, depth),
        merkle_root(leaves.update(i as int, x), h, depth) == root_from_path(
            x,
            i,
            auth_path(leaves, h, i, 0, depth),
            h,
        ),
{
    lemma_same_path(leaves, h, depth, i, x, 0);
    law_path_recomputes_root(leaves.update(i as int, x), h, depth, i);
}

proof fn lemma_same_path(
    leaves: Seq<[u8; 32]>,
    h: spec_fn([u8; 32], [u8; 32]) -> [u8; 32],
    depth: nat,
    i: nat,
    x: [u8; 32],
    k: nat,
)
    requires
        leaves.len() == two_to(depth),
        i < leaves.len(),
        k <= depth,
    ensures
        auth_path(leaves.update(i as int, x), h, position(i, k), k, depth) == auth_path(
            leaves,
            h,
            position(i, k),
            k,
            depth,
        ),
    decreases depth - k,
{
    if k < depth {
        lemma_update_levels(leaves, h, depth, i, x, k);
        lemma_level_len(leaves, h, depth, k);
        lemma_level_len(leaves, h, depth, k + 1);
        assert(two_to((depth - k) as nat) == 2 * two_to((depth - (k + 1)) as nat));
        let s = sibling(position(i, k));
        assert(merkle_level(leaves.update(i as int, x), h, k)[s as int] == merkle_level(
            leaves,
            h,
            k,
        )[s as int]);
        lemma_same_path(leaves, h, depth, i, x, k + 1);
        assert(position(i, k + 1) == position(i, k) / 2);
    }
}


/// The root reached from `leaf` at position `index` through the siblings of
/// `path`, with the node hash `node`.
pub fn merkle_root_from_path<F: Fn([u8; 32], [u8; 32]) -> [u8; 32]>(
    leaf: [u8; 32],
    index: usize,
    path: &[[u8; 32]],
    node: &F,
) -> (r: [u8; 32])
    requires
        node_total(*node),
        node_deterministic(*node),
    ensures
        r == root_from_path(leaf, index as nat, path@, node_fn(*node)),
{
    let ghost h = node_fn(*node);
    let mut current = leaf;
    let mut position = index;
    let mut k: usize = 0;
    assert(path@.skip(0) =~= path@);
    while k < path.len()
        invariant
            0 <= k <= path@.len(),
            h == node_fn(*node),
            node_total(*node),
            node_deterministic(*node),
            root_from_path(current, position as nat, path@.skip(k as int), h) == root_from_path(
                leaf,
                index as nat,
                path@,
                h,
            ),
        decreases path@.len() - k,
    {
        let sibling_node = path[k];
        let next = if position % 2 == 0 {
            node(current, sibling_node)
        } else {
            node(sibling_node, current)
        };
        proof {
            if position % 2 == 0 {
                lemma_node_value(*node, current, sibling_node, next);
            } else {
                lemma_node_value(*node, sibling_node, current, next);
            }
            assert(path@.skip(k as int)[0] == sibling_node);
            assert(path@.skip(k as int).drop_first() =~= path@.skip(k + 1));
        }
        current = next;
        position = position / 2;
        k = k + 1;
    }
    assert(path@.skip(path@.len() as int) =~= Seq::<[u8; 32]>::empty());
    current
}

/// Every level of a Merkle tree, leaves first and the root level last.
#[derive(Clone, Debug)]
pub struct RamMerkleTree {
    pub levels: Vec<Vec<[u8; 32]>>,
}

/// The levels of a tree as sequences.
pub open spec fn tree_levels(t: RamMerkleTree) -> Seq<Seq<[u8; 32]>> {
    t.levels@.map_values(|level: Vec<[u8; 32]>| level@)
}

/// The number of levels above the leaves.
pub open spec fn tree_depth(t: RamMerkleTree) -> nat {
    (t.levels@.len() - 1) as nat
}

/// The leaves of a tree.
pub open spec fn tree_leaves(t: RamMerkleTree) -> Seq<[u8; 32]> {
    t.levels@[0]@
}

/// Level `k` holds `2^(depth - k)` nodes.
pub open spec fn tree_shape(t: RamMerkleTree) -> bool {
    &&& t.levels@.len() >= 1
    &&& forall|k: int|
        0 <= k <= tree_depth(t) ==> (#[trigger] t.levels@[k])@.len() == two_to(
            (tree_depth(t) - k) as nat,
        )
}

/// Every stored level is the level that `h` computes from the leaves.
pub open spec fn tree_wf(t: RamMerkleTree, h: spec_fn([u8; 32], [u8; 32]) -> [u8; 32]) -> bool {
    &&& t.levels@.len() >= 1
    &&& tree_leaves(t).len() == two_to(tree_depth(t))
    &&& forall|k: int|
        0 <= k <= tree_depth(t) ==> (#[trigger] t.levels@[k])@ == merkle_level(
            tree_leaves(t),
            h,
            k as nat,
        )
}

proof fn lemma_wf_shape(t: RamMerkleTree, h: spec_fn([u8; 32], [u8; 32]) -> [u8; 32])
    requires
        tree_wf(t, h),
    ensures
        tree_shape(t),
{
    assert forall|k: int| 0 <= k <= tree_depth(t) implies (#[trigger] t.levels@[k])@.len()
        == two_to((tree_depth(t) - k) as nat) by {
        lemma_level_len(tree_leaves(t), h, tree_depth(t), k as nat);
    }
}

/// The siblings that the stored levels hold along the way up from position
/// `i` of level `k`.
pub open spec fn stored_path(levels: Seq<Seq<[u8; 32]>>, i: nat, k: nat, depth: nat) -> Seq<
    [u8; 32],
>
    decreases depth - k,
{
    if k >= depth {
        Seq::empty()
    } else {
        seq![levels[k as int][sibling(i) as int]] + stored_path(levels, i / 2, k + 1, depth)
    }
}

proof fn lemma_stored_path(
    t: RamMerkleTree,
    h: spec_fn([u8; 32], [u8; 32]) -> [u8; 32],
    i: nat,
    k: nat,
)
    requires
        tree_wf(t, h),
        k <= tree_depth(t),
    ensures
        stored_path(tree_levels(t), i, k, tree_depth(t)) == auth_path(
            tree_leaves(t),
            h,
            i,
            k,
            tree_depth(t),
        ),
    decreases tree_depth(t) - k,
{
    if k < tree_depth(t) {
        assert(tree_levels(t)[k as int] == t.levels@[k as int]@);
        lemma_stored_path(t, h, i / 2, k + 1);
    }
}

impl RamMerkleTree {
    /// Builds every level over a power-of-two number of leaves.
    pub fn new<F: Fn([u8; 32], [u8; 32]) -> [u8; 32]>(leaves: Vec<[u8; 32]>, node: &F) -> (t: Self)
        requires
            is_pow2(leaves@.len()),
            node_total(*node),
            node_deterministic(*node),
        ensures
            tree_wf(t, node_fn(*node)),
            tree_shape(t),
            tree_leaves(t) == leaves@,
    {
        let ghost h = node_fn(*node);
        let ghost lv = leaves@;
        let mut levels: Vec<Vec<[u8; 32]>> = Vec::new();
        levels.push(leaves);
        assert(two_to(0) == 1);
        assert(lv.len() == two_to(0) * lv.len()) by (nonlinear_arith)
            requires
                two_to(0) == 1,
        ;
        while levels[levels.len() - 1].len() > 1
            invariant
                levels@.len() >= 1,
                h == node_fn(*node),
                node_total(*node),
                node_deterministic(*node),
                levels@[0]@ == lv,
                is_pow2(levels@[levels@.len() - 1]@.len()),
                lv.len() == two_to((levels@.len() - 1) as nat) * levels@[levels@.len() - 1]@.len(),
                forall|k: int|
                    0 <= k < levels@.len() ==> (#[trigger] levels@[k])@ == merkle_level(
                        lv,
                        h,
                        k as nat,
                    ),
            decreases levels@[levels@.len() - 1]@.len(),
        {
            let top = levels.len() - 1;
            let half = levels[top].len() / 2;
            let ghost below = levels@[top as int]@;
            let mut next: Vec<[u8; 32]> = Vec::new();
            let mut j: usize = 0;
            while j < half
                invariant
                    0 <= j <= half,
                    half == below.len() / 2,
                    below.len() <= usize::MAX,
                    top == levels@.len() - 1,
                    levels@[top as int]@ == below,
                    h == node_fn(*node),
                    node_total(*node),
                    node_deterministic(*node),
                    next@ == parent_level(below, h).take(j as int),
                decreases half - j,
            {
                let a = levels[top][2 * j];
                let b = levels[top][2 * j + 1];
                let r = node(a, b);
                proof {
                    lemma_node_value(*node, a, b, r);
                    assert(parent_level(below, h).take(j + 1) =~= parent_level(below, h).take(
                        j as int,
                    ).push(r));
                }
                next.push(r);
                j = j + 1;
            }
            assert(next@ =~= parent_level(below, h));
            proof {
                assert(levels@[top as int]@ == merkle_level(lv, h, top as nat));
                assert(merkle_level(lv, h, (top + 1) as nat) == parent_level(
                    merkle_level(lv, h, top as nat),
                    h,
                ));
                assert(two_to((top + 1) as nat) == 2 * two_to(top as nat));
                assert(below.len() % 2 == 0 && is_pow2(below.len() / 2));
                let t1 = two_to(top as nat);
                let n = below.len();
                assert(t1 * n == (2 * t1) * (n / 2)) by (nonlinear_arith)
                    requires
                        n % 2 == 0,
                ;
            }
            levels.push(next);
        }
        let t = RamMerkleTree { levels };
        proof {
            let last = t.levels@[t.levels@.len() - 1]@.len();
            assert(last == 1);
            let full = two_to(tree_depth(t));
            assert(lv.len() == full) by (nonlinear_arith)
                requires
                    lv.len() == full * last,
                    last == 1,
            ;
            lemma_wf_shape(t, h);
        }
        t
    }

    /// The root: the single node of the top level.
    pub fn root(&self) -> (r: [u8; 32])
        requires
            tree_shape(*self),
        ensures
            r == self.levels@[tree_depth(*self) as int]@[0],
            forall|h: spec_fn([u8; 32], [u8; 32]) -> [u8; 32]|
                #[trigger] tree_wf(*self, h) ==> r == merkle_root(
                    tree_leaves(*self),
                    h,
                    tree_depth(*self),
                ),
    {
        proof {
            assert(self.levels@[tree_depth(*self) as int]@.len() == two_to(0));
        }
        self.levels[self.levels.len() - 1][0]
    }

    /// The number of levels above the leaves.
    pub fn depth(&self) -> (r: usize)
        requires
            self.levels@.len() >= 1,
        ensures
            r == tree_depth(*self),
    {
        self.levels.len() - 1
    }

    /// The siblings on the way from leaf `index` up to the root.
    pub fn authentication_path(&self, index: usize) -> (path: Vec<[u8; 32]>)
        requires
            tree_shape(*self),
            index < tree_leaves(*self).len(),
        ensures
            path@ == stored_path(tree_levels(*self), index as nat, 0, tree_depth(*self)),
            forall|h: spec_fn([u8; 32], [u8; 32]) -> [u8; 32]|
                #[trigger] tree_wf(*self, h) ==> path@ == auth_path(
                    tree_leaves(*self),
                    h,
                    index as nat,
                    0,
                    tree_depth(*self),
                ),
    {
        let depth = self.levels.len() - 1;
        let mut path: Vec<[u8; 32]> = Vec::new();
        let mut position = index;
        let mut k: usize = 0;
        while k < depth
            invariant
                0 <= k <= depth,
                depth == tree_depth(*self),
                tree_shape(*self),
                position < two_to((depth - k) as nat),
                path@ + stored_path(tree_levels(*self), position as nat, k as nat, depth as nat)
                    == stored_path(tree_levels(*self), index as nat, 0, depth as nat),
            decreases depth - k,
        {
            proof {
                assert(two_to((depth - k) as nat) == 2 * two_to((depth - k - 1) as nat));
                assert(self.levels@[k as int]@.len() == two_to((depth - k) as nat));
                assert(tree_levels(*self)[k as int] == self.levels@[k as int]@);
            }
            let s = if position % 2 == 0 {
                position + 1
            } else {
                position - 1
            };
            let value = self.levels[k][s];
            proof {
                let rest = stored_path(tree_levels(*self), position as nat, k as nat, depth as nat);
                assert(rest == seq![value] + stored_path(
                    tree_levels(*self),
                    (position / 2) as nat,
                    (k + 1) as nat,
                    depth as nat,
                ));
                assert(path@.push(value) + stored_path(
                    tree_levels(*self),
                    (position / 2) as nat,
                    (k + 1) as nat,
                    depth as nat,
                ) =~= path@ + rest);
            }
            path.push(value);
            position = position / 2;
            k = k + 1;
        }
        proof {
            assert(path@ + Seq::<[u8; 32]>::empty() =~= path@);
            assert forall|h: spec_fn([u8; 32], [u8; 32]) -> [u8; 32]|
                #[trigger] tree_wf(*self, h) implies path@ == auth_path(
                    tree_leaves(*self),
                    h,
                    index as nat,
                    0,
                    tree_depth(*self),
                ) by {
                lemma_stored_path(*self, h, index as nat, 0);
            }
        }
        path
    }

    /// Replaces leaf `index` and recomputes the nodes above it.
    pub fn update<F: Fn([u8; 32], [u8; 32]) -> [u8; 32]>(
        &mut self,
        index: usize,
        leaf: [u8; 32],
        node: &F,
    )
        requires
            tree_wf(*old(self), node_fn(*node)),
            node_total(*node),
            node_deterministic(*node),
            index < tree_leaves(*old(self)).len(),
        ensures
            tree_wf(*final(self), node_fn(*node)),
            tree_shape(*final(self)),
            tree_depth(*final(self)) == tree_depth(*old(self)),
            tree_leaves(*final(self)) == tree_leaves(*old(self)).update(index as int, leaf),
    {
        let ghost h = node_fn(*node);
        let ghost old_leaves = tree_leaves(*self);
        let ghost new_leaves = old_leaves.update(index as int, leaf);
        let ghost d = tree_depth(*self);
        let depth = self.levels.len() - 1;
        proof {
            lemma_update_levels(old_leaves, h, d, index as nat, leaf, 0);
        }
        {
            let leaves = &mut self.levels[0];
            leaves.set(index, leaf);
        }
        assert(self.levels@[0]@ =~= new_leaves);
        let mut at = index;
        let mut level: usize = 0;
        while level < depth
            invariant
                0 <= level <= depth,
                depth == d,
                h == node_fn(*node),
                node_total(*node),
                node_deterministic(*node),
                old_leaves.len() == two_to(d),
                index < old_leaves.len(),
                new_leaves == old_leaves.update(index as int, leaf),
                self.levels@.len() == d + 1,
                at == position(index as nat, level as nat),
                forall|k: int|
                    0 <= k <= level ==> (#[trigger] self.levels@[k])@ == merkle_level(
                        new_leaves,
                        h,
                        k as nat,
                    ),
                forall|k: int|
                    level < k <= d ==> (#[trigger] self.levels@[k])@ == merkle_level(
                        old_leaves,
                        h,
                        k as nat,
                    ),
            decreases depth - level,
        {
            let ghost below = merkle_level(new_leaves, h, level as nat);
            proof {
                lemma_update_levels(old_leaves, h, d, index as nat, leaf, (level + 1) as nat);
                lemma_update_levels(old_leaves, h, d, index as nat, leaf, level as nat);
                lemma_level_len(new_leaves, h, d, level as nat);
                lemma_level_len(new_leaves, h, d, (level + 1) as nat);
                assert(two_to((d - level) as nat) == 2 * two_to((d - level - 1) as nat));
                assert(self.levels@[level as int]@ == below);
            }
            let parent = at / 2;
            let a = self.levels[level][2 * parent];
            let b = self.levels[level][2 * parent + 1];
            let r = node(a, b);
            proof {
                lemma_node_value(*node, a, b, r);
                assert(r == merkle_level(new_leaves, h, (level + 1) as nat)[parent as int]);
            }
            {
                let above = &mut self.levels[level + 1];
                above.set(parent, r);
            }
            proof {
                let updated = merkle_level(new_leaves, h, (level + 1) as nat);
                let previous = merkle_level(old_leaves, h, (level + 1) as nat);
                assert(parent == position(index as nat, (level + 1) as nat));
                assert(self.levels@[level + 1]@ =~= updated);
            }
            at = parent;
            level = level + 1;
        }
        proof {
            lemma_wf_shape(*self, h);
        }
    }
}

} // verus!
