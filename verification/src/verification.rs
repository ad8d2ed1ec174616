//! Verification: a signature is valid for a message under a public key
//! when the root that it leads to is that key.

use vstd::prelude::*;
use vstd::slice::slice_to_vec;
use crate::config::{GRAVITY_C, GRAVITY_D};
use crate::extraction::{
    extracted,
    lemma_extract_run,
    lemma_extraction_progress,
    Extraction,
    ExtractionStage,
    ExtractionView,
};
use crate::gravity::{PubKey, Signature, SignatureView};
use crate::hash;
use crate::primitives::{
    answers,
    Primitives,
    Request,
    RequestView,
    Response,
    ResponseView,
    Step,
};

verus! {

/// How far a verification has come.
#[derive(Debug)]
pub(crate) enum VerificationStage<'a> {
    Digest { sign: &'a Signature, msg: Vec<u8> },
    Extract { extraction: Extraction<'a> },
}

/// A verification under way, with the public key that it checks against.
#[derive(Debug)]
pub struct Verification<'a> {
    pub(crate) key: hash::Hash,
    pub(crate) stage: VerificationStage<'a>,
}

/// A verification under way, as a plain value.
pub enum VerificationView {
    /// The message is to be digested.
    Digest { key: Seq<u8>, sign: SignatureView, msg: Seq<u8> },
    /// The root that the signature leads to is being extracted.
    Extract { key: Seq<u8>, extraction: ExtractionView },
}

impl View for Verification<'_> {
    type V = VerificationView;

    open(crate) spec fn view(&self) -> VerificationView {
        match self.stage {
            VerificationStage::Digest { sign, msg } => VerificationView::Digest {
                key: self.key@,
                sign: sign@,
                msg: msg@,
            },
            VerificationStage::Extract { extraction } => VerificationView::Extract {
                key: self.key@,
                extraction: extraction@,
            },
        }
    }
}

/// Whether `sign` is valid for the message digest `msg` under the public
/// key `key`: it leads to a root, and the root is the key.
pub open spec fn verified(p: Primitives, key: Seq<u8>, sign: SignatureView, msg: Seq<u8>) -> bool {
    extracted(p, sign, msg) == Some(key)
}

/// Whether `sign` is valid for a message of any length: whether it is for
/// the digest of the message.
pub open spec fn verified_bytes(
    p: Primitives,
    key: Seq<u8>,
    sign: SignatureView,
    msg: Seq<u8>,
) -> bool {
    verified(p, key, sign, (p.long_hash)(msg))
}

impl VerificationView {
    /// The signature has a part for every layer and every level, and the
    /// extraction, once begun, is well formed.
    pub open spec fn wf(self) -> bool {
        match self {
            VerificationView::Digest { key, sign, msg } => {
                &&& sign.subtrees.len() == GRAVITY_D
                &&& sign.auth_c.len() == GRAVITY_C
            },
            VerificationView::Extract { key, extraction } => extraction.wf(),
        }
    }

    /// What verification needs next.
    pub open spec fn request(self) -> RequestView {
        match self {
            VerificationView::Digest { key, sign, msg } => RequestView::LongHash { msg },
            VerificationView::Extract { key, extraction } => extraction.request(),
        }
    }

    /// The state after an answer.
    ///
    /// The digest of the message starts the extraction. Each further
    /// answer goes to the extraction; when that ends, the signature is
    /// valid if a root came out and is the public key, and invalid in
    /// every other case. An answer to another request than the pending one
    /// changes nothing.
    pub open spec fn step(self, response: ResponseView) -> Step<VerificationView, bool> {
        match self {
            VerificationView::Digest { key, sign, msg } => match response {
                ResponseView::Digest(h) => Step::Ask(
                    VerificationView::Extract {
                        key,
                        extraction: ExtractionView::Pors { sign, msg: h },
                    },
                ),
                _ => Step::Ask(self),
            },
            VerificationView::Extract { key, extraction } => match extraction.step(response) {
                Step::Ask(next) => Step::Ask(VerificationView::Extract { key, extraction: next }),
                Step::Done(found) => Step::Done(found == Some(key)),
            },
        }
    }

    /// The number of answers that verification still needs, at most.
    pub open spec fn remaining(self) -> nat {
        match self {
            VerificationView::Digest { key, sign, msg } => (GRAVITY_D + GRAVITY_C + 2) as nat,
            VerificationView::Extract { key, extraction } => extraction.remaining(),
        }
    }

    /// Whether the signature comes out valid when every request from here
    /// on is answered by the primitives `p`. Of a state that is not well
    /// formed nothing is said.
    pub open spec fn run(self, p: Primitives) -> bool
        decreases self.remaining(),
    {
        match self.step(p.answer(self.request())) {
            Step::Ask(next) => if next.remaining() < self.remaining() {
                next.run(p)
            } else {
                arbitrary()
            },
            Step::Done(valid) => valid,
        }
    }
}

/// Every answer of the right kind brings a verification one step on, and
/// no other answer moves it.
pub proof fn lemma_verification_progress(state: VerificationView, response: ResponseView)
    requires
        state.wf(),
    ensures
        !answers(state.request(), response) ==> state.step(response) == Step::<
            VerificationView,
            bool,
        >::Ask(state),
        answers(state.request(), response) ==> match state.step(response) {
            Step::Ask(next) => next.wf() && next.remaining() < state.remaining(),
            Step::Done(valid) => true,
        },
{
    match state {
        VerificationView::Digest { key, sign, msg } => {},
        VerificationView::Extract { key, extraction } => {
            lemma_extraction_progress(extraction, response);
        },
    }
}

proof fn lemma_run_with(p: Primitives, key: Seq<u8>, extraction: ExtractionView)
    requires
        extraction.wf(),
    ensures
        (VerificationView::Extract { key, extraction }).run(p) == (extraction.run(p) == Some(key)),
    decreases extraction.remaining(),
{
    let response = p.answer(extraction.request());
    lemma_extraction_progress(extraction, response);
    assert(answers(extraction.request(), response));
    match extraction.step(response) {
        Step::Ask(next) => {
            lemma_run_with(p, key, next);
        },
        Step::Done(found) => {},
    }
}

/// Verification of a digest, driven by the primitives `p`, ends with what
/// `verified` says.
pub proof fn lemma_verify_hash_run(p: Primitives, key: Seq<u8>, sign: SignatureView, msg: Seq<u8>)
    requires
        sign.subtrees.len() == GRAVITY_D,
        sign.auth_c.len() == GRAVITY_C,
    ensures
        (VerificationView::Extract { key, extraction: ExtractionView::Pors { sign, msg } }).run(p)
            == verified(p, key, sign, msg),
{
    lemma_run_with(p, key, ExtractionView::Pors { sign, msg });
    lemma_extract_run(p, sign, msg);
}

/// Verification of a message of any length, driven by the primitives `p`,
/// ends with what `verified_bytes` says.
pub proof fn lemma_verify_bytes_run(
    p: Primitives,
    key: Seq<u8>,
    sign: SignatureView,
    msg: Seq<u8>,
)
    requires
        sign.subtrees.len() == GRAVITY_D,
        sign.auth_c.len() == GRAVITY_C,
    ensures
        (VerificationView::Digest { key, sign, msg }).run(p) == verified_bytes(p, key, sign, msg),
{
    lemma_verify_hash_run(p, key, sign, (p.long_hash)(msg));
}

impl<'a> Verification<'a> {
    /// See [`VerificationView::wf`].
    #[verifier::type_invariant]
    pub open spec fn wf(self) -> bool {
        self@.wf()
    }

    /// Starts the verification of `sign` for the digest `msg` under the
    /// public key `key`.
    pub fn start(key: &PubKey, sign: &'a Signature, msg: &hash::Hash) -> (r: Verification<'a>)
        ensures
            r@ == (VerificationView::Extract {
                key: key.h@,
                extraction: ExtractionView::Pors { sign: sign@, msg: msg@ },
            }),
    {
        proof {
            use_type_invariant(sign);
        }
        Verification {
            key: key.h,
            stage: VerificationStage::Extract { extraction: Extraction::start(sign, msg) },
        }
    }

    /// Starts the verification of `sign` for a message of any length under
    /// the public key `key`: the signature is checked against the digest of
    /// the message.
    pub fn start_bytes(key: &PubKey, sign: &'a Signature, msg: &[u8]) -> (r: Verification<'a>)
        ensures
            r@ == (VerificationView::Digest { key: key.h@, sign: sign@, msg: msg@ }),
    {
        proof {
            use_type_invariant(sign);
        }
        Verification {
            key: key.h,
            stage: VerificationStage::Digest { sign, msg: slice_to_vec(msg) },
        }
    }

    /// What verification needs next.
    pub fn request(&self) -> (request: Request)
        ensures
            request@ == self@.request(),
    {
        match &self.stage {
            VerificationStage::Digest { sign, msg } => Request::LongHash {
                msg: slice_to_vec(msg.as_slice()),
            },
            VerificationStage::Extract { extraction } => extraction.request(),
        }
    }

    /// Takes the answer to the pending request; see
    /// [`VerificationView::step`].
    pub fn step(self, response: Response) -> (r: Step<Verification<'a>, bool>)
        ensures
            r@ == self@.step(response@),
    {
        proof {
            use_type_invariant(&self);
        }
        let key = self.key;
        match self.stage {
            VerificationStage::Digest { sign, msg } => match response {
                Response::Digest(h) => {
                    proof {
                        use_type_invariant(sign);
                    }
                    Step::Ask(
                        Verification {
                            key,
                            stage: VerificationStage::Extract {
                                extraction: Extraction {
                                    sign,
                                    stage: ExtractionStage::Pors { msg: h },
                                },
                            },
                        },
                    )
                },
                other => Step::Ask(
                    Verification { key, stage: VerificationStage::Digest { sign, msg } },
                ),
            },
            VerificationStage::Extract { extraction } => match extraction.step(response) {
                Step::Ask(next) => {
                    proof {
                        use_type_invariant(&next);
                    }
                    Step::Ask(
                        Verification { key, stage: VerificationStage::Extract { extraction: next } },
                    )
                },
                Step::Done(found) => {
                    let valid = match found {
                        Some(root) => {
                            proof {
                                if root@ == key@ {
                                    hash::lemma_hash_by_bytes(root, key);
                                }
                            }
                            root == key
                        },
                        None => false,
                    };
                    Step::Done(valid)
                },
            },
        }
    }
}

} // verus!
