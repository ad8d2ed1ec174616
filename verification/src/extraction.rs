//! Extraction: from a signature and a message, the root of the top
//! authentication tree that the signature leads to.

use vstd::prelude::*;
use crate::address::Address;
use crate::config::{GRAVITY_C, GRAVITY_D, MERKLE_H};
use crate::gravity::{Signature, SignatureView};
use crate::hash;
use crate::merkle;
use crate::primitives::{
    answers,
    Primitives,
    Request,
    RequestView,
    Response,
    ResponseView,
    Step,
};
use crate::signing::{layer_address, leaf_index};

verus! {

/// How far an extraction has come.
#[derive(Debug)]
#[allow(inconsistent_fields)]
pub(crate) enum ExtractionStage {
    Pors { msg: hash::Hash },
    Layer { layer: usize, address: Address, h: hash::Hash },
    Climb { level: usize, index: u64, h: hash::Hash },
}

/// An extraction under way, with the signature that it reads.
#[derive(Debug)]
pub struct Extraction<'a> {
    pub(crate) sign: &'a Signature,
    pub(crate) stage: ExtractionStage,
}

/// An extraction under way, as a plain value.
#[allow(inconsistent_fields)]
pub enum ExtractionView {
    /// The few-time signature is to yield the address and the digest for
    /// the message digest `msg`.
    Pors { sign: SignatureView, msg: Seq<u8> },
    /// The layers below `layer` have been read; the subtree signature of
    /// `layer` is to yield the public key of its subtree for the digest `h`
    /// at `address`.
    Layer { sign: SignatureView, layer: nat, address: Address, h: Seq<u8> },
    /// All layers have been read; `h` is a node `level` levels above the
    /// leaves of the top tree, with the number `index` within its level.
    Climb { sign: SignatureView, level: nat, index: nat, h: Seq<u8> },
}

impl View for Extraction<'_> {
    type V = ExtractionView;

    open(crate) spec fn view(&self) -> ExtractionView {
        match self.stage {
            ExtractionStage::Pors { msg } => ExtractionView::Pors { sign: self.sign@, msg: msg@ },
            ExtractionStage::Layer { layer, address, h } => ExtractionView::Layer {
                sign: self.sign@,
                layer: layer as nat,
                address,
                h: h@,
            },
            ExtractionStage::Climb { level, index, h } => ExtractionView::Climb {
                sign: self.sign@,
                level: level as nat,
                index: index as nat,
                h: h@,
            },
        }
    }
}

/// The digests of a candidate root.
pub open spec fn candidate(found: Option<hash::Hash>) -> Option<Seq<u8>> {
    match found {
        Some(h) => Some(h@),
        None => None,
    }
}

/// The digest that the first `layers` subtree signatures of `sign` lead to
/// from the digest `h0` of the few-time key at `start`: each signature
/// yields, for the digest from below, the public key of its subtree.
pub open spec fn extract_layers(
    p: Primitives,
    sign: SignatureView,
    start: Address,
    h0: Seq<u8>,
    layers: nat,
) -> Seq<u8>
    decreases layers,
{
    if layers == 0 {
        h0
    } else {
        let below = (layers - 1) as nat;
        (p.subtree_extract)(
            sign.subtrees[below as int],
            layer_address(start, below),
            extract_layers(p, sign, start, h0, below),
        )
    }
}

/// The root that `sign` leads to for the message digest `msg`: nothing
/// where the few-time signature does not fit the message; else the root
/// that the authentication path leads to from the public key of the last
/// layer's subtree, at the leaf under which the few-time key lies.
pub open spec fn extracted(p: Primitives, sign: SignatureView, msg: Seq<u8>) -> Option<Seq<u8>> {
    match (p.pors_extract)(sign.pors_sign, msg) {
        None => None,
        Some((start, h0)) => Some(
            merkle::climb(
                p.compress,
                extract_layers(p, sign, start, h0, GRAVITY_D as nat),
                sign.auth_c,
                leaf_index(start) as nat,
            ),
        ),
    }
}

impl ExtractionView {
    /// The signature that is read.
    pub open spec fn sign(self) -> SignatureView {
        match self {
            ExtractionView::Pors { sign, msg } => sign,
            ExtractionView::Layer { sign, layer, address, h } => sign,
            ExtractionView::Climb { sign, level, index, h } => sign,
        }
    }

    /// The signature has a part for every layer and every level, and a
    /// layer or a level is still to be read.
    pub open spec fn wf(self) -> bool {
        &&& self.sign().subtrees.len() == GRAVITY_D
        &&& self.sign().auth_c.len() == GRAVITY_C
        &&& match self {
            ExtractionView::Pors { sign, msg } => true,
            ExtractionView::Layer { sign, layer, address, h } => layer < GRAVITY_D,
            ExtractionView::Climb { sign, level, index, h } => level < GRAVITY_C,
        }
    }

    /// What extraction needs next.
    pub open spec fn request(self) -> RequestView {
        match self {
            ExtractionView::Pors { sign, msg } => RequestView::PorsExtract {
                sign: sign.pors_sign,
                msg,
            },
            ExtractionView::Layer { sign, layer, address, h } => RequestView::SubtreeExtract {
                sign: sign.subtrees[layer as int],
                address,
                msg: h,
            },
            ExtractionView::Climb { sign, level, index, h } => if index % 2 == 0 {
                RequestView::Compress { left: h, right: sign.auth_c[level as int] }
            } else {
                RequestView::Compress { left: sign.auth_c[level as int], right: h }
            },
        }
    }

    /// The state after an answer.
    ///
    /// Where the few-time signature yields nothing, extraction ends with
    /// nothing. Else the lowest subtree signature is read one layer above
    /// the few-time key, for the digest that came with it. Each layer
    /// yields the public key of its subtree; the place within the subtree
    /// is dropped from the instance; the next layer is read for that key.
    /// After the last layer the instance is the leaf of the top tree, and
    /// the key is joined with each digest of the authentication path in
    /// turn, on the side that the lowest bit of the index names, the index
    /// being halved each time. The last parent is the root. An answer to
    /// another request than the pending one changes nothing.
    pub open spec fn step(self, response: ResponseView) -> Step<ExtractionView, Option<Seq<u8>>> {
        match (self, response) {
            (ExtractionView::Pors { sign, msg }, ResponseView::PorsExtracted(None)) => Step::Done(
                None,
            ),
            (
                ExtractionView::Pors { sign, msg },
                ResponseView::PorsExtracted(Some((address, h))),
            ) => Step::Ask(
                ExtractionView::Layer { sign, layer: 0, address: address.advanced(), h },
            ),
            (
                ExtractionView::Layer { sign, layer, address, h },
                ResponseView::Digest(root),
            ) => {
                let above = address.shifted(MERKLE_H as nat);
                if layer + 1 == GRAVITY_D {
                    Step::Ask(
                        ExtractionView::Climb {
                            sign,
                            level: 0,
                            index: above.instance as nat,
                            h: root,
                        },
                    )
                } else {
                    Step::Ask(
                        ExtractionView::Layer {
                            sign,
                            layer: layer + 1,
                            address: above.advanced(),
                            h: root,
                        },
                    )
                }
            },
            (
                ExtractionView::Climb { sign, level, index, h },
                ResponseView::Digest(parent),
            ) => {
                if level + 1 == GRAVITY_C {
                    Step::Done(Some(parent))
                } else {
                    Step::Ask(
                        ExtractionView::Climb { sign, level: level + 1, index: index / 2, h: parent },
                    )
                }
            },
            _ => Step::Ask(self),
        }
    }

    /// The number of answers that extraction still needs, at most.
    pub open spec fn remaining(self) -> nat {
        match self {
            ExtractionView::Pors { sign, msg } => (GRAVITY_D + GRAVITY_C + 1) as nat,
            ExtractionView::Layer { sign, layer, address, h } => (GRAVITY_D + GRAVITY_C
                - layer) as nat,
            ExtractionView::Climb { sign, level, index, h } => (GRAVITY_C - level) as nat,
        }
    }

    /// The root that comes out when every request from here on is answered
    /// by the primitives `p`. Of a state that is not well formed nothing is
    /// said.
    pub open spec fn run(self, p: Primitives) -> Option<Seq<u8>>
        decreases self.remaining(),
    {
        match self.step(p.answer(self.request())) {
            Step::Ask(next) => if next.remaining() < self.remaining() {
                next.run(p)
            } else {
                arbitrary()
            },
            Step::Done(found) => found,
        }
    }
}

/// Every answer of the right kind brings an extraction one step on, and no
/// other answer moves it.
pub proof fn lemma_extraction_progress(state: ExtractionView, response: ResponseView)
    requires
        state.wf(),
    ensures
        !answers(state.request(), response) ==> state.step(response) == Step::<
            ExtractionView,
            Option<Seq<u8>>,
        >::Ask(state),
        answers(state.request(), response) ==> match state.step(response) {
            Step::Ask(next) => next.wf() && next.sign() == state.sign() && next.remaining()
                < state.remaining(),
            Step::Done(found) => true,
        },
{
}

proof fn lemma_run_from_level(
    p: Primitives,
    sign: SignatureView,
    level: nat,
    index: nat,
    h: Seq<u8>,
)
    requires
        sign.auth_c.len() == GRAVITY_C,
        level < GRAVITY_C,
    ensures
        (ExtractionView::Climb { sign, level, index, h }).run(p) == Some(
            merkle::climb(p.compress, h, sign.auth_c.skip(level as int), index),
        ),
    decreases GRAVITY_C - level,
{
    let path = sign.auth_c.skip(level as int);
    let parent = merkle::join(p.compress, h, path[0], index);
    assert(path.drop_first() =~= sign.auth_c.skip((level + 1) as int));
    if level + 1 < GRAVITY_C {
        lemma_run_from_level(p, sign, level + 1, index / 2, parent);
    } else {
        assert(merkle::climb(p.compress, parent, path.drop_first(), index / 2) == parent);
    }
}

proof fn lemma_run_from_layer(
    p: Primitives,
    sign: SignatureView,
    start: Address,
    h0: Seq<u8>,
    layer: nat,
)
    requires
        sign.auth_c.len() == GRAVITY_C,
        layer < GRAVITY_D,
    ensures
        (ExtractionView::Layer {
            sign,
            layer,
            address: layer_address(start, layer),
            h: extract_layers(p, sign, start, h0, layer),
        }).run(p) == Some(
            merkle::climb(
                p.compress,
                extract_layers(p, sign, start, h0, GRAVITY_D as nat),
                sign.auth_c,
                leaf_index(start) as nat,
            ),
        ),
    decreases GRAVITY_D - layer,
{
    let address = layer_address(start, layer);
    let root = extract_layers(p, sign, start, h0, layer + 1);
    if layer + 1 < GRAVITY_D {
        lemma_run_from_layer(p, sign, start, h0, layer + 1);
    } else {
        lemma_run_from_level(p, sign, 0, leaf_index(start) as nat, root);
        assert(sign.auth_c.skip(0) =~= sign.auth_c);
    }
}

/// Extraction, driven by the primitives `p`, ends with the root that
/// `extracted` describes.
pub proof fn lemma_extract_run(p: Primitives, sign: SignatureView, msg: Seq<u8>)
    requires
        sign.auth_c.len() == GRAVITY_C,
    ensures
        (ExtractionView::Pors { sign, msg }).run(p) == extracted(p, sign, msg),
{
    match (p.pors_extract)(sign.pors_sign, msg) {
        None => {},
        Some((start, h0)) => {
            lemma_run_from_layer(p, sign, start, h0, 0);
        },
    }
}

impl<'a> Extraction<'a> {
    /// See [`ExtractionView::wf`].
    #[verifier::type_invariant]
    pub open spec fn wf(self) -> bool {
        self@.wf()
    }

    /// Starts the extraction of the root that `sign` leads to for the
    /// digest `msg`.
    pub fn start(sign: &'a Signature, msg: &hash::Hash) -> (r: Extraction<'a>)
        ensures
            r@ == (ExtractionView::Pors { sign: sign@, msg: msg@ }),
    {
        proof {
            use_type_invariant(sign);
        }
        Extraction { sign, stage: ExtractionStage::Pors { msg: *msg } }
    }

    /// What extraction needs next.
    pub fn request(&self) -> (request: Request)
        ensures
            request@ == self@.request(),
    {
        proof {
            use_type_invariant(self);
            use_type_invariant(self.sign);
        }
        match &self.stage {
            ExtractionStage::Pors { msg } => Request::PorsExtract {
                sign: self.sign.pors_sign.duplicate(),
                msg: *msg,
            },
            ExtractionStage::Layer { layer, address, h } => Request::SubtreeExtract {
                sign: self.sign.subtrees[*layer].duplicate(),
                address: *address,
                msg: *h,
            },
            ExtractionStage::Climb { level, index, h } => {
                let other: hash::Hash = self.sign.auth_c[*level];
                if *index % 2 == 0 {
                    Request::Compress { left: *h, right: other }
                } else {
                    Request::Compress { left: other, right: *h }
                }
            },
        }
    }

    /// Takes the answer to the pending request; see
    /// [`ExtractionView::step`].
    pub fn step(self, response: Response) -> (r: Step<Extraction<'a>, Option<hash::Hash>>)
        ensures
            match r {
                Step::Ask(next) => self@.step(response@) == Step::<
                    ExtractionView,
                    Option<Seq<u8>>,
                >::Ask(next@),
                Step::Done(found) => self@.step(response@) == Step::<
                    ExtractionView,
                    Option<Seq<u8>>,
                >::Done(candidate(found)),
            },
    {
        proof {
            use_type_invariant(&self);
        }
        let sign = self.sign;
        match (self.stage, response) {
            (ExtractionStage::Pors { msg }, Response::PorsExtracted(None)) => Step::Done(None),
            (ExtractionStage::Pors { msg }, Response::PorsExtracted(Some((address, h)))) => {
                let mut address = address;
                address.next_layer();
                Step::Ask(
                    Extraction { sign, stage: ExtractionStage::Layer { layer: 0, address, h } },
                )
            },
            (ExtractionStage::Layer { layer, address, h }, Response::Digest(root)) => {
                proof {
                    address.lemma_shifted(MERKLE_H as nat);
                }
                let mut address = address;
                address.shift(MERKLE_H);
                if layer + 1 == GRAVITY_D {
                    Step::Ask(
                        Extraction {
                            sign,
                            stage: ExtractionStage::Climb {
                                level: 0,
                                index: address.get_instance(),
                                h: root,
                            },
                        },
                    )
                } else {
                    address.next_layer();
                    Step::Ask(
                        Extraction {
                            sign,
                            stage: ExtractionStage::Layer { layer: layer + 1, address, h: root },
                        },
                    )
                }
            },
            (ExtractionStage::Climb { level, index, h }, Response::Digest(parent)) => {
                if level + 1 == GRAVITY_C {
                    Step::Done(Some(parent))
                } else {
                    Step::Ask(
                        Extraction {
                            sign,
                            stage: ExtractionStage::Climb {
                                level: level + 1,
                                index: index / 2,
                                h: parent,
                            },
                        },
                    )
                }
            },
            (stage, _) => Step::Ask(Extraction { sign, stage }),
        }
    }
}

} // verus!
