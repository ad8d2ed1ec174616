//! The top authentication tree: a binary hash tree over the public keys of
//! the first layer's subtrees.
//!
//! The nodes are kept level by level, leaves first and the root last. Node
//! `GRAVITY_CCC + m` is the parent of the nodes `2 * m` and `2 * m + 1`, so
//! two siblings are always neighbours, the left one at an even place.

use vstd::prelude::*;
use vstd::arithmetic::power2::{lemma2_to64, lemma_pow2_pos, lemma_pow2_unfold, pow2};
use crate::config::{GRAVITY_C, GRAVITY_CCC, GRAVITY_NODES};
use crate::hash;

verus! {

/// The place of the parent of the node at place `n`.
pub open spec fn parent(n: int) -> int {
    GRAVITY_CCC + n / 2
}

/// The place of the other child of the parent of the node at place `n`.
pub open spec fn sibling(n: int) -> int {
    if n % 2 == 0 {
        n + 1
    } else {
        n - 1
    }
}

/// The place of the node that lies `level` levels above the leaf `leaf`,
/// on the way to the root.
pub open spec fn path_node(leaf: int, level: nat) -> int
    decreases level,
{
    if level == 0 {
        leaf
    } else {
        parent(path_node(leaf, (level - 1) as nat))
    }
}

/// `index` halved `level` times, rounding down.
pub open spec fn halved(index: nat, level: nat) -> nat
    decreases level,
{
    if level == 0 {
        index
    } else {
        halved(index, (level - 1) as nat) / 2
    }
}

/// The authentication path of the leaf `leaf`, bottom to top: at each level
/// below the root, the sibling of the node on the way to the root.
pub open spec fn auth_path<T>(nodes: Seq<T>, leaf: int) -> Seq<T> {
    Seq::new(GRAVITY_C as nat, |level: int| nodes[sibling(path_node(leaf, level as nat))])
}

/// The root of a tree, which is its last node.
pub open spec fn root_of<T>(nodes: Seq<T>) -> T {
    nodes[GRAVITY_NODES - 1]
}

/// Every node above the leaves is `compress` of its two children.
pub open spec fn built_by<T>(nodes: Seq<T>, compress: spec_fn(T, T) -> T) -> bool {
    &&& nodes.len() == GRAVITY_NODES
    &&& forall|m: int|
        0 <= m < GRAVITY_CCC - 1 ==> #[trigger] nodes[GRAVITY_CCC + m] == compress(
            nodes[2 * m],
            nodes[2 * m + 1],
        )
}

/// One level up from the node `h` beside its sibling `other`: `h` is the
/// left child when `index` is even, the right child when it is odd.
pub open spec fn join<T>(compress: spec_fn(T, T) -> T, h: T, other: T, index: nat) -> T {
    if index % 2 == 0 {
        compress(h, other)
    } else {
        compress(other, h)
    }
}

/// The root that an authentication path leads to: starting from `h` at the
/// leaf `index`, each sibling of `path` is joined in turn, on the side that
/// the lowest bit of the index names, and the index is halved.
pub open spec fn climb<T>(compress: spec_fn(T, T) -> T, h: T, path: Seq<T>, index: nat) -> T
    decreases path.len(),
{
    if path.len() == 0 {
        h
    } else {
        climb(compress, join(compress, h, path[0], index), path.drop_first(), index / 2)
    }
}

/// Where the way from a leaf to the root passes: at `level`, the node with
/// the number `halved(leaf, level)` among the nodes of that level, which
/// are two to the power `GRAVITY_C - level` many and start behind all the
/// levels below.
pub proof fn lemma_path_node(leaf: int, level: nat)
    requires
        0 <= leaf < GRAVITY_CCC,
        level <= GRAVITY_C,
    ensures
        halved(leaf as nat, level) < pow2((GRAVITY_C - level) as nat),
        path_node(leaf, level) == 2 * GRAVITY_CCC - 2 * pow2((GRAVITY_C - level) as nat) + halved(
            leaf as nat,
            level,
        ),
    decreases level,
{
    lemma2_to64();
    if level > 0 {
        let below = (level - 1) as nat;
        lemma_path_node(leaf, below);
        lemma_pow2_unfold((GRAVITY_C - below) as nat);
    }
}

/// On the way from a leaf to the root, every node below the root has its
/// sibling in the tree, lies on the side that its number within the level
/// names, and has its parent next on the way; after `GRAVITY_C` levels the
/// way is at the root.
pub proof fn lemma_path_step(leaf: int, level: nat)
    requires
        0 <= leaf < GRAVITY_CCC,
        level <= GRAVITY_C,
    ensures
        0 <= path_node(leaf, level) < GRAVITY_NODES,
        level == GRAVITY_C ==> path_node(leaf, level) == GRAVITY_NODES - 1,
        level < GRAVITY_C ==> {
            &&& 0 <= sibling(path_node(leaf, level)) < GRAVITY_NODES - 1
            &&& path_node(leaf, level) < GRAVITY_NODES - 1
            &&& path_node(leaf, level) % 2 == halved(leaf as nat, level) % 2
            &&& path_node(leaf, level + 1) == parent(path_node(leaf, level))
            &&& halved(leaf as nat, level + 1) == halved(leaf as nat, level) / 2
        },
{
    lemma2_to64();
    lemma_path_node(leaf, level);
    lemma_pow2_pos((GRAVITY_C - level) as nat);
    if level < GRAVITY_C {
        lemma_pow2_unfold((GRAVITY_C - level) as nat);
        lemma_pow2_pos((GRAVITY_C - level - 1) as nat);
    }
}

proof fn lemma_climb_from<T>(nodes: Seq<T>, compress: spec_fn(T, T) -> T, leaf: int, level: nat)
    requires
        built_by(nodes, compress),
        0 <= leaf < GRAVITY_CCC,
        level <= GRAVITY_C,
    ensures
        climb(
            compress,
            nodes[path_node(leaf, level)],
            auth_path(nodes, leaf).skip(level as int),
            halved(leaf as nat, level),
        ) == root_of(nodes),
    decreases GRAVITY_C - level,
{
    let path = auth_path(nodes, leaf).skip(level as int);
    let n = path_node(leaf, level);
    lemma_path_step(leaf, level);
    if level < GRAVITY_C {
        lemma_climb_from(nodes, compress, leaf, level + 1);
        let m = n / 2;
        assert(nodes[GRAVITY_CCC + m] == compress(nodes[2 * m], nodes[2 * m + 1]));
        assert(path[0] == nodes[sibling(n)]);
        assert(path.drop_first() =~= auth_path(nodes, leaf).skip((level + 1) as int));
    }
}

/// The authentication path of a leaf leads from that leaf to the root, in
/// every tree whose inner nodes are `compress` of their children.
pub proof fn lemma_auth_path_leads_to_root<T>(
    nodes: Seq<T>,
    compress: spec_fn(T, T) -> T,
    leaf: int,
)
    requires
        built_by(nodes, compress),
        0 <= leaf < GRAVITY_CCC,
    ensures
        climb(compress, nodes[leaf], auth_path(nodes, leaf), leaf as nat) == root_of(nodes),
{
    lemma_climb_from(nodes, compress, leaf, 0);
    assert(auth_path(nodes, leaf).skip(0) =~= auth_path(nodes, leaf));
}

/// The digests of an authentication path are the authentication path over
/// the digests of the nodes.
pub proof fn lemma_digests_of_auth_path(nodes: Seq<hash::Hash>, leaf: int)
    requires
        nodes.len() == GRAVITY_NODES,
        0 <= leaf < GRAVITY_CCC,
    ensures
        hash::digests(auth_path(nodes, leaf)) == auth_path(hash::digests(nodes), leaf),
{
    assert forall|level: int| 0 <= level < GRAVITY_C implies #[trigger] hash::digests(
        auth_path(nodes, leaf),
    )[level] == auth_path(hash::digests(nodes), leaf)[level] by {
        lemma_path_step(leaf, level as nat);
    }
    assert(hash::digests(auth_path(nodes, leaf)) =~= auth_path(hash::digests(nodes), leaf));
}

/// A top authentication tree with all its nodes in place.
#[derive(Debug)]
pub struct MerkleTree {
    pub(crate) nodes: Vec<hash::Hash>,
}

impl View for MerkleTree {
    type V = Seq<hash::Hash>;

    open(crate) spec fn view(&self) -> Seq<hash::Hash> {
        self.nodes@
    }
}

impl MerkleTree {
    /// The tree holds every node of every level.
    #[verifier::type_invariant]
    pub open spec fn wf(self) -> bool {
        self@.len() == GRAVITY_NODES
    }

    /// The tree with the given nodes, leaves first and root last, if they
    /// are as many as a tree has.
    pub fn from_nodes(nodes: Vec<hash::Hash>) -> (r: Option<MerkleTree>)
        ensures
            r is Some <==> nodes@.len() == GRAVITY_NODES,
            r matches Some(tree) ==> tree@ == nodes@,
    {
        if nodes.len() == GRAVITY_NODES {
            Some(MerkleTree { nodes })
        } else {
            None
        }
    }

    /// The root of the tree.
    pub fn root(&self) -> (r: hash::Hash)
        ensures
            r == root_of(self@),
    {
        proof {
            use_type_invariant(self);
        }
        self.nodes[GRAVITY_NODES - 1]
    }

    /// The authentication path of the leaf `index`, bottom to top.
    pub fn gen_auth(&self, index: usize) -> (auth: Vec<hash::Hash>)
        requires
            index < GRAVITY_CCC,
        ensures
            auth@ == auth_path(self@, index as int),
    {
        proof {
            use_type_invariant(self);
        }
        let mut auth: Vec<hash::Hash> = Vec::new();
        let mut n: usize = index;
        let mut level: usize = 0;
        while level < GRAVITY_C
            invariant
                level <= GRAVITY_C,
                index < GRAVITY_CCC,
                self@.len() == GRAVITY_NODES,
                n == path_node(index as int, level as nat),
                auth@.len() == level,
                forall|l: int|
                    0 <= l < level ==> auth@[l] == self@[sibling(
                        path_node(index as int, l as nat),
                    )],
            decreases GRAVITY_C - level,
        {
            proof {
                lemma_path_step(index as int, level as nat);
            }
            let other: usize = if n % 2 == 0 {
                n + 1
            } else {
                n - 1
            };
            auth.push(self.nodes[other]);
            n = GRAVITY_CCC + n / 2;
            level += 1;
        }
        proof {
            assert(auth@ =~= auth_path(self@, index as int));
        }
        auth
    }
}

} // verus!
