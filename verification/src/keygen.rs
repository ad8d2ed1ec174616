//! Key generation: the public key of every first-layer subtree becomes a
//! leaf of the top authentication tree, and the tree is compressed to its
//! root level by level.

use vstd::prelude::*;
use crate::address::Address;
use crate::config::{GRAVITY_CCC, GRAVITY_NODES, MERKLE_HHH};
use crate::gravity::{SecKey, SecKeyView};
use crate::hash;
use crate::merkle;
use crate::primitives::{
    answers,
    Primitives,
    Request,
    RequestView,
    Response,
    ResponseView,
    Step,
};

verus! {

/// A key generation under way: seed and salt, and the nodes of the top
/// authentication tree that are known so far, leaves first.
#[derive(Debug)]
pub struct KeyGeneration {
    pub(crate) seed: hash::Hash,
    pub(crate) salt: hash::Hash,
    pub(crate) nodes: Vec<hash::Hash>,
}

/// A key generation under way, as a plain value.
pub struct KeyGenerationView {
    pub seed: Seq<u8>,
    pub salt: Seq<u8>,
    pub nodes: Seq<Seq<u8>>,
}

impl View for KeyGeneration {
    type V = KeyGenerationView;

    open(crate) spec fn view(&self) -> KeyGenerationView {
        KeyGenerationView { seed: self.seed@, salt: self.salt@, nodes: hash::digests(self.nodes@) }
    }
}

/// The address of the first-layer subtree whose public key is the leaf
/// `leaf` of the top authentication tree.
pub open spec fn leaf_address(leaf: nat) -> Address {
    Address { layer: 0, instance: (MERKLE_HHH * leaf) as u64 }
}

/// The node at place `n` of the top authentication tree of the key with the
/// given seed: below `GRAVITY_CCC` the public key of a first-layer subtree,
/// above that the parent of two nodes of the level below.
pub open spec fn tree_node(p: Primitives, seed: Seq<u8>, n: nat) -> Seq<u8>
    decreases n,
{
    if n < GRAVITY_CCC {
        (p.subtree_genpk)(seed, leaf_address(n))
    } else if n < GRAVITY_NODES {
        let m = (n - GRAVITY_CCC) as nat;
        (p.compress)(tree_node(p, seed, 2 * m), tree_node(p, seed, 2 * m + 1))
    } else {
        Seq::empty()
    }
}

/// The secret key that the 64 bytes `random` stand for: the first half is
/// the seed, the second the salt, and the tree is the one over the
/// first-layer subtrees derived from the seed.
pub open spec fn generated(p: Primitives, random: Seq<u8>) -> SecKeyView {
    SecKeyView {
        seed: random.take(32),
        salt: random.skip(32),
        cache: Seq::new(GRAVITY_NODES as nat, |n: int| tree_node(p, random.take(32), n as nat)),
    }
}

impl KeyGenerationView {
    /// At least one node is still missing.
    pub open spec fn wf(self) -> bool {
        self.nodes.len() < GRAVITY_NODES
    }

    /// The state in which key generation starts.
    pub open spec fn start(random: Seq<u8>) -> KeyGenerationView {
        KeyGenerationView { seed: random.take(32), salt: random.skip(32), nodes: Seq::empty() }
    }

    /// What key generation needs next: the public key of the subtree under
    /// the next leaf while leaves are missing, the parent of the next two
    /// nodes after that.
    pub open spec fn request(self) -> RequestView {
        let n = self.nodes.len();
        if n < GRAVITY_CCC {
            RequestView::SubtreeGenpk { seed: self.seed, address: leaf_address(n) }
        } else {
            let m = n - GRAVITY_CCC;
            RequestView::Compress { left: self.nodes[2 * m], right: self.nodes[2 * m + 1] }
        }
    }

    /// The state after an answer. A digest is the next node; with the last
    /// node the key is complete. Any other answer changes nothing.
    pub open spec fn step(self, response: ResponseView) -> Step<KeyGenerationView, SecKeyView> {
        match response {
            ResponseView::Digest(h) => {
                let nodes = self.nodes.push(h);
                if nodes.len() == GRAVITY_NODES {
                    Step::Done(SecKeyView { seed: self.seed, salt: self.salt, cache: nodes })
                } else {
                    Step::Ask(KeyGenerationView { seed: self.seed, salt: self.salt, nodes })
                }
            },
            _ => Step::Ask(self),
        }
    }

    /// The number of answers that key generation still needs.
    pub open spec fn remaining(self) -> nat {
        (GRAVITY_NODES - self.nodes.len()) as nat
    }

    /// The key that comes out when every request from here on is answered
    /// by the primitives `p`. A state that is not well formed has all its
    /// nodes and gives them as they are.
    pub open spec fn run(self, p: Primitives) -> SecKeyView
        decreases GRAVITY_NODES - self.nodes.len(),
    {
        if self.nodes.len() >= GRAVITY_NODES {
            SecKeyView { seed: self.seed, salt: self.salt, cache: self.nodes }
        } else {
            match self.step(p.answer(self.request())) {
                Step::Ask(next) => next.run(p),
                Step::Done(key) => key,
            }
        }
    }
}

/// Every answer of the right kind brings a key generation one step on,
/// and no other answer moves it.
pub proof fn lemma_keygen_progress(state: KeyGenerationView, response: ResponseView)
    requires
        state.wf(),
    ensures
        !answers(state.request(), response) ==> state.step(response) == Step::<
            KeyGenerationView,
            SecKeyView,
        >::Ask(state),
        answers(state.request(), response) ==> match state.step(response) {
            Step::Ask(next) => next.wf() && next.remaining() + 1 == state.remaining(),
            Step::Done(key) => state.remaining() == 1 && key.cache.len() == GRAVITY_NODES,
        },
{
}

proof fn lemma_run_from(state: KeyGenerationView, p: Primitives)
    requires
        state.wf(),
        forall|n: int|
            0 <= n < state.nodes.len() ==> state.nodes[n] == tree_node(p, state.seed, n as nat),
    ensures
        state.run(p) == (SecKeyView {
            seed: state.seed,
            salt: state.salt,
            cache: Seq::new(GRAVITY_NODES as nat, |n: int| tree_node(p, state.seed, n as nat)),
        }),
    decreases GRAVITY_NODES - state.nodes.len(),
{
    let k = state.nodes.len();
    let node = match p.answer(state.request()) {
        ResponseView::Digest(h) => h,
        _ => Seq::empty(),
    };
    assert(node == tree_node(p, state.seed, k));
    let nodes = state.nodes.push(node);
    if nodes.len() == GRAVITY_NODES {
        assert(nodes =~= Seq::new(
            GRAVITY_NODES as nat,
            |n: int| tree_node(p, state.seed, n as nat),
        ));
    } else {
        lemma_run_from(KeyGenerationView { seed: state.seed, salt: state.salt, nodes }, p);
    }
}

/// Key generation, driven by the primitives `p`, ends with the key that
/// `generated` describes.
pub proof fn lemma_keygen_run(p: Primitives, random: Seq<u8>)
    ensures
        KeyGenerationView::start(random).run(p) == generated(p, random),
{
    lemma_run_from(KeyGenerationView::start(random), p);
}

/// In a key that `generated` describes, every node above the leaves is
/// `compress` of its two children, and every leaf is the public key of its
/// first-layer subtree.
pub proof fn lemma_generated_tree(p: Primitives, random: Seq<u8>)
    ensures
        merkle::built_by(generated(p, random).cache, p.compress),
        forall|leaf: int|
            0 <= leaf < GRAVITY_CCC ==> #[trigger] generated(p, random).cache[leaf] == (
            p.subtree_genpk)(random.take(32), leaf_address(leaf as nat)),
{
    let cache = generated(p, random).cache;
    assert forall|m: int| 0 <= m < GRAVITY_CCC - 1 implies #[trigger] cache[GRAVITY_CCC + m] == (
    p.compress)(cache[2 * m], cache[2 * m + 1]) by {
        assert(cache[GRAVITY_CCC + m] == tree_node(p, random.take(32), (GRAVITY_CCC + m) as nat));
    }
}

impl KeyGeneration {
    /// At least one node is still missing.
    #[verifier::type_invariant]
    pub open spec fn wf(self) -> bool {
        self@.wf()
    }

    /// Starts the generation of the secret key that the 64 bytes `random`
    /// stand for: the first 32 are the seed, the last 32 the salt.
    pub fn start(random: &[u8; 64]) -> (r: KeyGeneration)
        ensures
            r@ == KeyGenerationView::start(random@),
    {
        let mut seed: [u8; 32] = [0u8; 32];
        let mut salt: [u8; 32] = [0u8; 32];
        let mut i: usize = 0;
        while i < 32
            invariant
                i <= 32,
                forall|j: int| 0 <= j < i ==> seed@[j] == random@[j],
                forall|j: int| 0 <= j < i ==> salt@[j] == random@[32 + j],
            decreases 32 - i,
        {
            seed[i] = random[i];
            salt[i] = random[i + 32];
            i += 1;
        }
        let nodes: Vec<hash::Hash> = Vec::new();
        proof {
            assert(seed@ =~= random@.take(32));
            assert(salt@ =~= random@.skip(32));
            assert(hash::digests(nodes@) =~= Seq::empty());
        }
        KeyGeneration { seed: hash::Hash { h: seed }, salt: hash::Hash { h: salt }, nodes }
    }

    /// What key generation needs next.
    pub fn request(&self) -> (request: Request)
        ensures
            request@ == self@.request(),
    {
        proof {
            use_type_invariant(self);
        }
        let n: usize = self.nodes.len();
        if n < GRAVITY_CCC {
            Request::SubtreeGenpk {
                seed: self.seed,
                address: Address::new(0, (MERKLE_HHH * n) as u64),
            }
        } else {
            let m: usize = n - GRAVITY_CCC;
            Request::Compress { left: self.nodes[2 * m], right: self.nodes[2 * m + 1] }
        }
    }

    /// Takes the answer to the pending request.
    ///
    /// A digest becomes the next node of the tree; with the last node the
    /// secret key is complete. Any other answer leaves the request pending.
    pub fn step(self, response: Response) -> (r: Step<KeyGeneration, SecKey>)
        ensures
            r@ == self@.step(response@),
            r matches Step::Done(key) ==> key@.wf(),
    {
        proof {
            use_type_invariant(&self);
        }
        match response {
            Response::Digest(h) => {
                let ghost had = hash::digests(self.nodes@);
                let seed = self.seed;
                let salt = self.salt;
                let mut nodes = self.nodes;
                nodes.push(h);
                proof {
                    assert(hash::digests(nodes@) =~= had.push(h@));
                }
                if nodes.len() == GRAVITY_NODES {
                    Step::Done(SecKey { seed, salt, cache: merkle::MerkleTree { nodes } })
                } else {
                    Step::Ask(KeyGeneration { seed, salt, nodes })
                }
            },
            _ => Step::Ask(self),
        }
    }
}

} // verus!
