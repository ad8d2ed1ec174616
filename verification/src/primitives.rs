//! The questions that the hypertree puts to the primitives under it, and
//! their answers.
//!
//! The hypertree computes no digest and no one-time or few-time signature
//! itself. Each operation of this crate is a machine: it names the next
//! thing it needs from the primitives as a [`Request`], takes the answer as
//! a [`Response`], and goes on from there until it is done. Whoever drives
//! a machine owns the primitives and answers each request as it comes.
//!
//! What a run yields is stated over [`Primitives`], the primitives as
//! mathematical functions. The operations that take the primitives as
//! functions say the same of every `Primitives` that these functions give
//! the values of (`gives_long_hash` and its like).

use vstd::prelude::*;
use crate::address::Address;
use crate::hash;
use crate::pors;
use crate::subtree;

verus! {

/// One question to the primitives.
#[derive(Debug)]
#[allow(inconsistent_fields)]
pub enum Request {
    /// The digest of a message of any length.
    LongHash { msg: Vec<u8> },
    /// The few-time signature of `msg` under the keys derived from `seed`,
    /// randomized by `salt`.
    PorsSign { seed: hash::Hash, salt: hash::Hash, msg: hash::Hash },
    /// The address and the digest that a few-time signature yields for `msg`.
    PorsExtract { sign: pors::Signature, msg: hash::Hash },
    /// The public key of the subtree at `address`, derived from `seed`.
    SubtreeGenpk { seed: hash::Hash, address: Address },
    /// The one-time signature of `msg` at `address`, derived from `seed`.
    SubtreeSign { seed: hash::Hash, address: Address, msg: hash::Hash },
    /// The subtree public key that a one-time signature yields for `msg`
    /// at `address`.
    SubtreeExtract { sign: subtree::Signature, address: Address, msg: hash::Hash },
    /// The parent of two nodes of a hash tree.
    Compress { left: hash::Hash, right: hash::Hash },
}

/// A [`Request`] as a plain value.
#[allow(inconsistent_fields)]
pub enum RequestView {
    LongHash { msg: Seq<u8> },
    PorsSign { seed: Seq<u8>, salt: Seq<u8>, msg: Seq<u8> },
    PorsExtract { sign: Seq<u8>, msg: Seq<u8> },
    SubtreeGenpk { seed: Seq<u8>, address: Address },
    SubtreeSign { seed: Seq<u8>, address: Address, msg: Seq<u8> },
    SubtreeExtract { sign: Seq<u8>, address: Address, msg: Seq<u8> },
    Compress { left: Seq<u8>, right: Seq<u8> },
}

impl View for Request {
    type V = RequestView;

    open spec fn view(&self) -> RequestView {
        match *self {
            Request::LongHash { msg } => RequestView::LongHash { msg: msg@ },
            Request::PorsSign { seed, salt, msg } => RequestView::PorsSign {
                seed: seed@,
                salt: salt@,
                msg: msg@,
            },
            Request::PorsExtract { sign, msg } => RequestView::PorsExtract {
                sign: sign@,
                msg: msg@,
            },
            Request::SubtreeGenpk { seed, address } => RequestView::SubtreeGenpk {
                seed: seed@,
                address,
            },
            Request::SubtreeSign { seed, address, msg } => RequestView::SubtreeSign {
                seed: seed@,
                address,
                msg: msg@,
            },
            Request::SubtreeExtract { sign, address, msg } => RequestView::SubtreeExtract {
                sign: sign@,
                address,
                msg: msg@,
            },
            Request::Compress { left, right } => RequestView::Compress {
                left: left@,
                right: right@,
            },
        }
    }
}

/// One answer of the primitives.
#[derive(Debug)]
#[allow(inconsistent_fields)]
pub enum Response {
    /// A digest: the answer to `LongHash`, `SubtreeGenpk`, `SubtreeExtract`
    /// and `Compress`.
    Digest(hash::Hash),
    /// The answer to `PorsSign`: the address of the few-time key that
    /// signed, the digest that the layers above are to sign, and the
    /// signature.
    PorsSigned { address: Address, hash: hash::Hash, sign: pors::Signature },
    /// The answer to `PorsExtract`: the address and the digest, or nothing
    /// where the signature does not fit the message.
    PorsExtracted(Option<(Address, hash::Hash)>),
    /// The answer to `SubtreeSign`: the public key of the subtree that
    /// signed, and the signature.
    SubtreeSigned { root: hash::Hash, sign: subtree::Signature },
}

/// A [`Response`] as a plain value.
#[allow(inconsistent_fields)]
pub enum ResponseView {
    Digest(Seq<u8>),
    PorsSigned { address: Address, hash: Seq<u8>, sign: Seq<u8> },
    PorsExtracted(Option<(Address, Seq<u8>)>),
    SubtreeSigned { root: Seq<u8>, sign: Seq<u8> },
}

impl View for Response {
    type V = ResponseView;

    open spec fn view(&self) -> ResponseView {
        match *self {
            Response::Digest(h) => ResponseView::Digest(h@),
            Response::PorsSigned { address, hash, sign } => ResponseView::PorsSigned {
                address,
                hash: hash@,
                sign: sign@,
            },
            Response::PorsExtracted(found) => ResponseView::PorsExtracted(
                match found {
                    Some((address, hash)) => Some((address, hash@)),
                    None => None,
                },
            ),
            Response::SubtreeSigned { root, sign } => ResponseView::SubtreeSigned {
                root: root@,
                sign: sign@,
            },
        }
    }
}

/// Whether a response is of the kind that answers a request.
pub open spec fn answers(request: RequestView, response: ResponseView) -> bool {
    match request {
        RequestView::PorsSign { seed, salt, msg } => response is PorsSigned,
        RequestView::PorsExtract { sign, msg } => response is PorsExtracted,
        RequestView::SubtreeSign { seed, address, msg } => response is SubtreeSigned,
        _ => response is Digest,
    }
}

/// Where a machine stands after an answer: it has another request, or it
/// is done and gives its result.
#[derive(Debug)]
pub enum Step<M, T> {
    Ask(M),
    Done(T),
}

impl<M: View, T: View> View for Step<M, T> {
    type V = Step<M::V, T::V>;

    open spec fn view(&self) -> Step<M::V, T::V> {
        match *self {
            Step::Ask(machine) => Step::Ask(machine@),
            Step::Done(result) => Step::Done(result@),
        }
    }
}

/// The primitives as mathematical functions: what each would answer to
/// each request. Nothing in this crate computes them, and nothing is taken
/// for granted of them: they stand for the primitives that the caller
/// brings, so that what an operation yields can be stated.
pub struct Primitives {
    pub long_hash: spec_fn(Seq<u8>) -> Seq<u8>,
    pub pors_sign: spec_fn(Seq<u8>, Seq<u8>, Seq<u8>) -> (Address, Seq<u8>, Seq<u8>),
    pub pors_extract: spec_fn(Seq<u8>, Seq<u8>) -> Option<(Address, Seq<u8>)>,
    pub subtree_genpk: spec_fn(Seq<u8>, Address) -> Seq<u8>,
    pub subtree_sign: spec_fn(Seq<u8>, Address, Seq<u8>) -> (Seq<u8>, Seq<u8>),
    pub subtree_extract: spec_fn(Seq<u8>, Address, Seq<u8>) -> Seq<u8>,
    pub compress: spec_fn(Seq<u8>, Seq<u8>) -> Seq<u8>,
}

impl Primitives {
    /// The answer of these primitives to a request.
    pub open spec fn answer(self, request: RequestView) -> ResponseView {
        match request {
            RequestView::LongHash { msg } => ResponseView::Digest((self.long_hash)(msg)),
            RequestView::PorsSign { seed, salt, msg } => {
                let (address, hash, sign) = (self.pors_sign)(seed, salt, msg);
                ResponseView::PorsSigned { address, hash, sign }
            },
            RequestView::PorsExtract { sign, msg } => ResponseView::PorsExtracted(
                (self.pors_extract)(sign, msg),
            ),
            RequestView::SubtreeGenpk { seed, address } => ResponseView::Digest(
                (self.subtree_genpk)(seed, address),
            ),
            RequestView::SubtreeSign { seed, address, msg } => {
                let (root, sign) = (self.subtree_sign)(seed, address, msg);
                ResponseView::SubtreeSigned { root, sign }
            },
            RequestView::SubtreeExtract { sign, address, msg } => ResponseView::Digest(
                (self.subtree_extract)(sign, address, msg),
            ),
            RequestView::Compress { left, right } => ResponseView::Digest(
                (self.compress)(left, right),
            ),
        }
    }
}

/// Whether every digest that the function `f` gives for a message is the
/// one that the primitives `p` give.
pub open spec fn gives_long_hash<F: Fn(&[u8]) -> hash::Hash>(f: F, p: Primitives) -> bool {
    forall|msg: &[u8], h: hash::Hash| call_ensures(f, (msg,), h) ==> h@ == (p.long_hash)(msg@)
}

/// Whether every few-time signature that the function `f` gives is the one
/// that the primitives `p` give.
pub open spec fn gives_pors_sign<
    F: Fn(hash::Hash, hash::Hash, hash::Hash) -> (Address, hash::Hash, pors::Signature),
>(f: F, p: Primitives) -> bool {
    forall|
        seed: hash::Hash,
        salt: hash::Hash,
        msg: hash::Hash,
        r: (Address, hash::Hash, pors::Signature),
    |
        call_ensures(f, (seed, salt, msg), r) ==> (r.0, r.1@, r.2@) == (p.pors_sign)(
            seed@,
            salt@,
            msg@,
        )
}

/// Whether what the function `f` reads out of a few-time signature is what
/// the primitives `p` read out of it.
pub open spec fn gives_pors_extract<
    F: Fn(&pors::Signature, hash::Hash) -> Option<(Address, hash::Hash)>,
>(f: F, p: Primitives) -> bool {
    forall|sign: &pors::Signature, msg: hash::Hash, r: Option<(Address, hash::Hash)>|
        call_ensures(f, (sign, msg), r) ==> (Response::PorsExtracted(r))@ == p.answer(
            RequestView::PorsExtract { sign: sign@, msg: msg@ },
        )
}

/// Whether every subtree public key that the function `f` gives is the one
/// that the primitives `p` give.
pub open spec fn gives_subtree_genpk<F: Fn(hash::Hash, Address) -> hash::Hash>(
    f: F,
    p: Primitives,
) -> bool {
    forall|seed: hash::Hash, address: Address, h: hash::Hash|
        call_ensures(f, (seed, address), h) ==> h@ == (p.subtree_genpk)(seed@, address)
}

/// Whether every subtree signature that the function `f` gives is the one
/// that the primitives `p` give.
pub open spec fn gives_subtree_sign<
    F: Fn(hash::Hash, Address, hash::Hash) -> (hash::Hash, subtree::Signature),
>(f: F, p: Primitives) -> bool {
    forall|seed: hash::Hash, address: Address, msg: hash::Hash, r: (hash::Hash, subtree::Signature)|
        call_ensures(f, (seed, address, msg), r) ==> (r.0@, r.1@) == (p.subtree_sign)(
            seed@,
            address,
            msg@,
        )
}

/// Whether what the function `f` reads out of a subtree signature is what
/// the primitives `p` read out of it.
pub open spec fn gives_subtree_extract<
    F: Fn(&subtree::Signature, Address, hash::Hash) -> hash::Hash,
>(f: F, p: Primitives) -> bool {
    forall|sign: &subtree::Signature, address: Address, msg: hash::Hash, h: hash::Hash|
        call_ensures(f, (sign, address, msg), h) ==> h@ == (p.subtree_extract)(
            sign@,
            address,
            msg@,
        )
}

/// Whether every parent that the function `f` gives for two nodes is the
/// one that the primitives `p` give.
pub open spec fn gives_compress<F: Fn(hash::Hash, hash::Hash) -> hash::Hash>(
    f: F,
    p: Primitives,
) -> bool {
    forall|left: hash::Hash, right: hash::Hash, h: hash::Hash|
        call_ensures(f, (left, right), h) ==> h@ == (p.compress)(left@, right@)
}

} // verus!
