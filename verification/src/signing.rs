//! Signing: a few-time signature of the message at the bottom, and above it
//! a chain of subtree signatures, each signing the public key of the
//! subtree below, up to a leaf of the top authentication tree.

use vstd::prelude::*;
use vstd::arithmetic::power2::{lemma2_to64, lemma_pow2_adds, pow2};
use vstd::slice::slice_to_vec;
use crate::address::Address;
use crate::config::{
    lemma_parameters,
    GRAVITY_C,
    GRAVITY_CCC,
    GRAVITY_D,
    MERKLE_H,
    MERKLE_HHH,
    PORS_SIGN_BYTES,
    SUBTREE_SIGN_BYTES,
};
use crate::gravity::{all_of_width, encodings, SecKey, SecKeyView, Signature, SignatureView};
use crate::hash;
use crate::merkle;
use crate::pors;
use crate::primitives::{
    answers,
    Primitives,
    Request,
    RequestView,
    Response,
    ResponseView,
    Step,
};
use crate::subtree;

verus! {

/// How far a signing has come.
#[derive(Debug)]
#[allow(inconsistent_fields)]
pub(crate) enum SigningStage {
    Digest { msg: Vec<u8> },
    Pors { msg: hash::Hash },
    Layer {
        pors_sign: pors::Signature,
        subtrees: Vec<subtree::Signature>,
        address: Address,
        h: hash::Hash,
    },
}

/// A signing under way, with the key that signs.
#[derive(Debug)]
pub struct Signing<'a> {
    pub(crate) key: &'a SecKey,
    pub(crate) stage: SigningStage,
}

/// A signing under way, as a plain value.
#[allow(inconsistent_fields)]
pub enum SigningView {
    /// The message is to be digested.
    Digest { key: SecKeyView, msg: Seq<u8> },
    /// The digest `msg` is to get its few-time signature.
    Pors { key: SecKeyView, msg: Seq<u8> },
    /// The layers below have signed; the subtree at `address` is to sign
    /// the digest `h`.
    Layer {
        key: SecKeyView,
        pors_sign: Seq<u8>,
        subtrees: Seq<Seq<u8>>,
        address: Address,
        h: Seq<u8>,
    },
}

impl View for Signing<'_> {
    type V = SigningView;

    open(crate) spec fn view(&self) -> SigningView {
        match self.stage {
            SigningStage::Digest { msg } => SigningView::Digest { key: self.key@, msg: msg@ },
            SigningStage::Pors { msg } => SigningView::Pors { key: self.key@, msg: msg@ },
            SigningStage::Layer { pors_sign, subtrees, address, h } => SigningView::Layer {
                key: self.key@,
                pors_sign: pors_sign@,
                subtrees: encodings(subtrees@),
                address,
                h: h@,
            },
        }
    }
}

/// The address at which the subtree of the given layer signs, counted from
/// the lowest layer: one layer above the few-time key at `start` for the
/// lowest, and for each further layer the place within the subtree dropped
/// from the instance and the layer moved on by one.
pub open spec fn layer_address(start: Address, layer: nat) -> Address
    decreases layer,
{
    if layer == 0 {
        start.advanced()
    } else {
        layer_address(start, (layer - 1) as nat).shifted(MERKLE_H as nat).advanced()
    }
}

/// The leaf of the top authentication tree under which the few-time key at
/// `start` lies: the instance that is left when the place within the
/// subtree of every layer is dropped.
pub open spec fn leaf_index(start: Address) -> int {
    layer_address(start, (GRAVITY_D - 1) as nat).shifted(MERKLE_H as nat).instance as int
}

/// The digest that the subtree of the given layer signs: the digest `h0`
/// that the few-time signature hands up for the lowest layer, and for each
/// further layer the public key of the subtree that signed below.
pub open spec fn layer_hash(
    p: Primitives,
    seed: Seq<u8>,
    start: Address,
    h0: Seq<u8>,
    layer: nat,
) -> Seq<u8>
    decreases layer,
{
    if layer == 0 {
        h0
    } else {
        let below = (layer - 1) as nat;
        (p.subtree_sign)(seed, layer_address(start, below), layer_hash(p, seed, start, h0, below)).0
    }
}

/// The subtree signatures of the first `count` layers above the few-time
/// key at `start`.
pub open spec fn layer_signs(
    p: Primitives,
    seed: Seq<u8>,
    start: Address,
    h0: Seq<u8>,
    count: nat,
) -> Seq<Seq<u8>> {
    Seq::new(
        count,
        |i: int|
            (p.subtree_sign)(
                seed,
                layer_address(start, i as nat),
                layer_hash(p, seed, start, h0, i as nat),
            ).1,
    )
}

/// The signature of the digest `msg` under `key`: the few-time signature
/// of `msg`, the subtree signature of every layer over the digest handed up
/// from below, and the authentication path of the leaf under which the
/// few-time key lies.
pub open spec fn signed(p: Primitives, key: SecKeyView, msg: Seq<u8>) -> SignatureView {
    let (start, h0, pors_sign) = (p.pors_sign)(key.seed, key.salt, msg);
    SignatureView {
        pors_sign,
        subtrees: layer_signs(p, key.seed, start, h0, GRAVITY_D as nat),
        auth_c: merkle::auth_path(key.cache, leaf_index(start)),
    }
}

/// The signature of a message of any length: that of its digest.
pub open spec fn signed_bytes(p: Primitives, key: SecKeyView, msg: Seq<u8>) -> SignatureView {
    signed(p, key, (p.long_hash)(msg))
}

impl SigningView {
    /// The key is whole; the parts gathered so far have their widths; a
    /// layer is still to sign, and what is left of the instance fits the
    /// layers and the top tree that are still above.
    pub open spec fn wf(self) -> bool {
        match self {
            SigningView::Digest { key, msg } => key.wf(),
            SigningView::Pors { key, msg } => key.wf(),
            SigningView::Layer { key, pors_sign, subtrees, address, h } => {
                &&& key.wf()
                &&& pors_sign.len() == PORS_SIGN_BYTES
                &&& subtrees.len() < GRAVITY_D
                &&& all_of_width(subtrees, SUBTREE_SIGN_BYTES as int)
                &&& address.instance < pow2((64 - MERKLE_H * subtrees.len()) as nat)
            },
        }
    }

    /// What signing needs next.
    pub open spec fn request(self) -> RequestView {
        match self {
            SigningView::Digest { key, msg } => RequestView::LongHash { msg },
            SigningView::Pors { key, msg } => RequestView::PorsSign {
                seed: key.seed,
                salt: key.salt,
                msg,
            },
            SigningView::Layer { key, pors_sign, subtrees, address, h } => {
                RequestView::SubtreeSign { seed: key.seed, address, msg: h }
            },
        }
    }

    /// The state after an answer.
    ///
    /// The digest of the message goes to the few-time scheme. The few-time
    /// signature is kept, and the lowest subtree layer, one layer above the
    /// few-time key, signs the digest that came with it. Each subtree
    /// signature is kept; the place within the subtree is dropped from the
    /// instance; the next layer signs the public key of the subtree that
    /// just signed. After the last layer the instance is the leaf of the
    /// top tree, and its authentication path completes the signature. An
    /// answer to another request than the pending one changes nothing.
    pub open spec fn step(self, response: ResponseView) -> Step<SigningView, SignatureView> {
        match (self, response) {
            (SigningView::Digest { key, msg }, ResponseView::Digest(h)) => Step::Ask(
                SigningView::Pors { key, msg: h },
            ),
            (
                SigningView::Pors { key, msg },
                ResponseView::PorsSigned { address, hash, sign },
            ) => Step::Ask(
                SigningView::Layer {
                    key,
                    pors_sign: sign,
                    subtrees: Seq::empty(),
                    address: address.advanced(),
                    h: hash,
                },
            ),
            (
                SigningView::Layer { key, pors_sign, subtrees, address, h },
                ResponseView::SubtreeSigned { root, sign },
            ) => {
                let above = address.shifted(MERKLE_H as nat);
                if subtrees.len() + 1 == GRAVITY_D {
                    Step::Done(
                        SignatureView {
                            pors_sign,
                            subtrees: subtrees.push(sign),
                            auth_c: merkle::auth_path(key.cache, above.instance as int),
                        },
                    )
                } else {
                    Step::Ask(
                        SigningView::Layer {
                            key,
                            pors_sign,
                            subtrees: subtrees.push(sign),
                            address: above.advanced(),
                            h: root,
                        },
                    )
                }
            },
            _ => Step::Ask(self),
        }
    }

    /// The number of answers that signing still needs.
    pub open spec fn remaining(self) -> nat {
        match self {
            SigningView::Digest { key, msg } => (GRAVITY_D + 2) as nat,
            SigningView::Pors { key, msg } => (GRAVITY_D + 1) as nat,
            SigningView::Layer { key, pors_sign, subtrees, address, h } => (GRAVITY_D
                - subtrees.len()) as nat,
        }
    }

    /// The signature that comes out when every request from here on is
    /// answered by the primitives `p`. Of a state that is not well formed
    /// nothing is said.
    pub open spec fn run(self, p: Primitives) -> SignatureView
        decreases self.remaining(),
    {
        match self.step(p.answer(self.request())) {
            Step::Ask(next) => if next.remaining() < self.remaining() {
                next.run(p)
            } else {
                arbitrary()
            },
            Step::Done(sign) => sign,
        }
    }
}

/// Dropping the place within one subtree from an instance that fits the
/// layers still above leaves an instance that fits the layers above the
/// next one; after the last layer it is a leaf of the top tree.
pub proof fn lemma_shift_bound(instance: u64, done: nat)
    requires
        done < GRAVITY_D,
        instance < pow2((64 - MERKLE_H * done) as nat),
    ensures
        instance as nat / pow2(MERKLE_H as nat) < pow2((64 - MERKLE_H * (done + 1)) as nat),
        done + 1 == GRAVITY_D ==> instance as nat / pow2(MERKLE_H as nat) < GRAVITY_CCC,
{
    lemma_parameters();
    let here = MERKLE_H as nat;
    let above = (64 - MERKLE_H * (done + 1)) as nat;
    lemma_pow2_adds(here, above);
    assert(here + above == (64 - MERKLE_H * done) as nat);
    assert(pow2(here + above) == MERKLE_HHH * pow2(above));
    let width = MERKLE_HHH as nat;
    let rest = pow2(above);
    assert(instance as nat / width < rest) by (nonlinear_arith)
        requires
            instance < width * rest,
            width > 0,
    ;
    if done + 1 == GRAVITY_D {
        assert(above == GRAVITY_C);
    }
}

/// Every answer of the right kind brings a signing one step on, and no
/// other answer moves it. The signature that comes out at the end has a
/// subtree signature for every layer and a digest for every level of the
/// top tree.
pub proof fn lemma_signing_progress(state: SigningView, response: ResponseView)
    requires
        state.wf(),
    ensures
        !answers(state.request(), response) ==> state.step(response) == Step::<
            SigningView,
            SignatureView,
        >::Ask(state),
        answers(state.request(), response) ==> match state.step(response) {
            Step::Ask(next) => next.remaining() + 1 == state.remaining(),
            Step::Done(sign) => {
                &&& state.remaining() == 1
                &&& sign.subtrees.len() == GRAVITY_D
                &&& sign.auth_c.len() == GRAVITY_C
            },
        },
{
}

proof fn lemma_run_from(
    p: Primitives,
    key: SecKeyView,
    msg: Seq<u8>,
    done: nat,
)
    requires
        done < GRAVITY_D,
    ensures
        ({
            let (start, h0, pors_sign) = (p.pors_sign)(key.seed, key.salt, msg);
            (SigningView::Layer {
                key,
                pors_sign,
                subtrees: layer_signs(p, key.seed, start, h0, done),
                address: layer_address(start, done),
                h: layer_hash(p, key.seed, start, h0, done),
            }).run(p) == signed(p, key, msg)
        }),
    decreases GRAVITY_D - done,
{
    let (start, h0, pors_sign) = (p.pors_sign)(key.seed, key.salt, msg);
    let had = layer_signs(p, key.seed, start, h0, done);
    let address = layer_address(start, done);
    let h = layer_hash(p, key.seed, start, h0, done);
    let (root, sign) = (p.subtree_sign)(key.seed, address, h);
    assert(had.push(sign) =~= layer_signs(p, key.seed, start, h0, done + 1));
    if done + 1 < GRAVITY_D {
        lemma_run_from(p, key, msg, done + 1);
    }
}

/// Signing a digest, driven by the primitives `p`, ends with the signature
/// that `signed` describes.
pub proof fn lemma_sign_hash_run(p: Primitives, key: SecKeyView, msg: Seq<u8>)
    ensures
        (SigningView::Pors { key, msg }).run(p) == signed(p, key, msg),
{
    let (start, h0, pors_sign) = (p.pors_sign)(key.seed, key.salt, msg);
    assert(layer_signs(p, key.seed, start, h0, 0) =~= Seq::empty());
    lemma_run_from(p, key, msg, 0);
}

/// Signing a message of any length, driven by the primitives `p`, ends
/// with the signature of its digest.
pub proof fn lemma_sign_bytes_run(p: Primitives, key: SecKeyView, msg: Seq<u8>)
    ensures
        (SigningView::Digest { key, msg }).run(p) == signed_bytes(p, key, msg),
{
    lemma_sign_hash_run(p, key, (p.long_hash)(msg));
}

impl<'a> Signing<'a> {
    /// See [`SigningView::wf`].
    #[verifier::type_invariant]
    pub open spec fn wf(self) -> bool {
        self@.wf()
    }

    /// Starts the signing of the digest `msg` under `key`.
    pub fn start(key: &'a SecKey, msg: &hash::Hash) -> (r: Signing<'a>)
        ensures
            r@ == (SigningView::Pors { key: key@, msg: msg@ }),
    {
        proof {
            use_type_invariant(key);
        }
        Signing { key, stage: SigningStage::Pors { msg: *msg } }
    }

    /// Starts the signing of a message of any length under `key`: its
    /// digest is signed.
    pub fn start_bytes(key: &'a SecKey, msg: &[u8]) -> (r: Signing<'a>)
        ensures
            r@ == (SigningView::Digest { key: key@, msg: msg@ }),
    {
        proof {
            use_type_invariant(key);
        }
        Signing { key, stage: SigningStage::Digest { msg: slice_to_vec(msg) } }
    }

    /// What signing needs next.
    pub fn request(&self) -> (request: Request)
        ensures
            request@ == self@.request(),
    {
        match &self.stage {
            SigningStage::Digest { msg } => Request::LongHash { msg: slice_to_vec(msg.as_slice()) },
            SigningStage::Pors { msg } => Request::PorsSign {
                seed: self.key.seed,
                salt: self.key.salt,
                msg: *msg,
            },
            SigningStage::Layer { pors_sign, subtrees, address, h } => Request::SubtreeSign {
                seed: self.key.seed,
                address: *address,
                msg: *h,
            },
        }
    }

    /// Takes the answer to the pending request; see [`SigningView::step`].
    pub fn step(self, response: Response) -> (r: Step<Signing<'a>, Signature>)
        ensures
            r@ == self@.step(response@),
            r matches Step::Done(sign) ==> sign@.wf(),
    {
        proof {
            use_type_invariant(&self);
        }
        let key = self.key;
        match (self.stage, response) {
            (SigningStage::Digest { msg }, Response::Digest(h)) => Step::Ask(
                Signing { key, stage: SigningStage::Pors { msg: h } },
            ),
            (
                SigningStage::Pors { msg },
                Response::PorsSigned { address, hash, sign },
            ) => {
                proof {
                    use_type_invariant(&sign);
                    lemma2_to64();
                }
                let mut address = address;
                address.next_layer();
                let subtrees: Vec<subtree::Signature> = Vec::new();
                proof {
                    assert(encodings(subtrees@) =~= Seq::empty());
                }
                Step::Ask(
                    Signing {
                        key,
                        stage: SigningStage::Layer { pors_sign: sign, subtrees, address, h: hash },
                    },
                )
            },
            (
                SigningStage::Layer { pors_sign, subtrees, address, h },
                Response::SubtreeSigned { root, sign },
            ) => {
                let ghost had = encodings(subtrees@);
                proof {
                    use_type_invariant(&sign);
                    use_type_invariant(key);
                    use_type_invariant(&key.cache);
                    lemma_shift_bound(address.instance, had.len());
                    address.lemma_shifted(MERKLE_H as nat);
                }
                let mut subtrees = subtrees;
                let mut address = address;
                subtrees.push(sign);
                address.shift(MERKLE_H);
                proof {
                    assert(encodings(subtrees@) =~= had.push(sign@));
                }
                if subtrees.len() == GRAVITY_D {
                    let index: usize = address.get_instance() as usize;
                    let auth_c = key.cache.gen_auth(index);
                    proof {
                        merkle::lemma_digests_of_auth_path(key.cache@, index as int);
                    }
                    Step::Done(Signature { pors_sign, subtrees, auth_c })
                } else {
                    address.next_layer();
                    Step::Ask(
                        Signing {
                            key,
                            stage: SigningStage::Layer { pors_sign, subtrees, address, h: root },
                        },
                    )
                }
            },
            (stage, _) => Step::Ask(Signing { key, stage }),
        }
    }
}

} // verus!
