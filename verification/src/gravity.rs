//! Keys and signatures of the hypertree, and the layout of a signature in
//! bytes.

use vstd::prelude::*;
use vstd::pervasive::unreached;
use vstd::std_specs::iter::IteratorSpec;
use crate::config::{
    GRAVITY_C,
    GRAVITY_D,
    GRAVITY_NODES,
    GRAVITY_SIGN_BYTES,
    HASH_SIZE,
    PORS_SIGN_BYTES,
    SUBTREE_SIGN_BYTES,
};
use crate::address::Address;
use crate::extraction::{
    candidate,
    extracted,
    lemma_extract_run,
    lemma_extraction_progress,
    Extraction,
};
use crate::hash;
use crate::keygen::{generated, lemma_keygen_progress, lemma_keygen_run, KeyGeneration};
use crate::merkle;
use crate::pors;
use crate::primitives::{
    gives_compress,
    gives_long_hash,
    gives_pors_extract,
    gives_pors_sign,
    gives_subtree_extract,
    gives_subtree_genpk,
    gives_subtree_sign,
    Primitives,
    Request,
    Response,
    Step,
};
use crate::signing::{lemma_sign_hash_run, lemma_signing_progress, signed, signed_bytes, Signing};
use crate::subtree;
use crate::verification::{verified, verified_bytes};

verus! {

/// A secret key: the seed from which every one-time and few-time key is
/// derived, the salt that randomizes few-time signatures, and the top
/// authentication tree over the public keys of the first layer's subtrees.
#[derive(Debug)]
pub struct SecKey {
    pub(crate) seed: hash::Hash,
    pub(crate) salt: hash::Hash,
    pub(crate) cache: merkle::MerkleTree,
}

/// A secret key as a plain value.
pub struct SecKeyView {
    pub seed: Seq<u8>,
    pub salt: Seq<u8>,
    pub cache: Seq<Seq<u8>>,
}

impl View for SecKey {
    type V = SecKeyView;

    open(crate) spec fn view(&self) -> SecKeyView {
        SecKeyView { seed: self.seed@, salt: self.salt@, cache: hash::digests(self.cache@) }
    }
}

impl SecKeyView {
    /// Seed, salt and every node are digests, and the tree holds every
    /// node of every level.
    pub open spec fn wf(self) -> bool {
        &&& self.seed.len() == HASH_SIZE
        &&& self.salt.len() == HASH_SIZE
        &&& self.cache.len() == GRAVITY_NODES
        &&& all_of_width(self.cache, HASH_SIZE as int)
    }

    /// The public key: the root of the top authentication tree.
    pub open spec fn genpk(self) -> Seq<u8> {
        merkle::root_of(self.cache)
    }
}

/// A public key: the root of the signer's top authentication tree.
#[derive(Clone, Copy, Debug)]
pub struct PubKey {
    pub h: hash::Hash,
}

/// A signature: a few-time signature of the message, one subtree signature
/// for each of the `GRAVITY_D` layers, lowest layer first, and the
/// authentication path of `GRAVITY_C` digests, bottom to top, that ties the
/// last subtree to the public key.
#[derive(Debug)]
pub struct Signature {
    pub(crate) pors_sign: pors::Signature,
    pub(crate) subtrees: Vec<subtree::Signature>,
    pub(crate) auth_c: Vec<hash::Hash>,
}

/// A signature as a plain value: each part as the bytes of its encoding.
pub struct SignatureView {
    pub pors_sign: Seq<u8>,
    pub subtrees: Seq<Seq<u8>>,
    pub auth_c: Seq<Seq<u8>>,
}

/// The encodings of a sequence of subtree signatures.
pub open spec fn encodings(signs: Seq<subtree::Signature>) -> Seq<Seq<u8>> {
    Seq::new(signs.len(), |i: int| signs[i]@)
}

/// The parts laid end to end.
pub open spec fn concat(parts: Seq<Seq<u8>>) -> Seq<u8>
    decreases parts.len(),
{
    if parts.len() == 0 {
        Seq::empty()
    } else {
        concat(parts.drop_last()) + parts.last()
    }
}

/// Every part has the given width.
pub open spec fn all_of_width(parts: Seq<Seq<u8>>, width: int) -> bool {
    forall|i: int| 0 <= i < parts.len() ==> (#[trigger] parts[i]).len() == width
}

/// The `count` fields of `width` bytes each that start at `start`.
pub open spec fn fields(bytes: Seq<u8>, start: int, width: int, count: nat) -> Seq<Seq<u8>> {
    Seq::new(count, |i: int| bytes.subrange(start + i * width, start + (i + 1) * width))
}

impl View for Signature {
    type V = SignatureView;

    open(crate) spec fn view(&self) -> SignatureView {
        SignatureView {
            pors_sign: self.pors_sign@,
            subtrees: encodings(self.subtrees@),
            auth_c: hash::digests(self.auth_c@),
        }
    }
}

impl SignatureView {
    /// The parts are as many and as wide as the parameter set says.
    pub open spec fn wf(self) -> bool {
        &&& self.pors_sign.len() == PORS_SIGN_BYTES
        &&& self.subtrees.len() == GRAVITY_D
        &&& all_of_width(self.subtrees, SUBTREE_SIGN_BYTES as int)
        &&& self.auth_c.len() == GRAVITY_C
        &&& all_of_width(self.auth_c, HASH_SIZE as int)
    }

    /// The signature in bytes: the few-time signature, the subtree
    /// signatures in the order of their layers, and the digests of the
    /// authentication path in their order, with nothing between them.
    pub open spec fn encoding(self) -> Seq<u8> {
        self.pors_sign + concat(self.subtrees) + concat(self.auth_c)
    }

    /// The signature that the first `GRAVITY_SIGN_BYTES` bytes of `bytes`
    /// encode, if there are that many.
    pub open spec fn decode(bytes: Seq<u8>) -> Option<SignatureView> {
        if bytes.len() < GRAVITY_SIGN_BYTES {
            None
        } else {
            Some(
                SignatureView {
                    pors_sign: bytes.subrange(0, PORS_SIGN_BYTES as int),
                    subtrees: fields(
                        bytes,
                        PORS_SIGN_BYTES as int,
                        SUBTREE_SIGN_BYTES as int,
                        GRAVITY_D as nat,
                    ),
                    auth_c: fields(
                        bytes,
                        PORS_SIGN_BYTES + GRAVITY_D * SUBTREE_SIGN_BYTES,
                        HASH_SIZE as int,
                        GRAVITY_C as nat,
                    ),
                },
            )
        }
    }
}

/// Parts of one width, laid end to end, are as long as their number times
/// the width, and each part lies at its number times the width.
pub proof fn lemma_concat_fields(parts: Seq<Seq<u8>>, width: int)
    requires
        all_of_width(parts, width),
        0 <= width,
    ensures
        concat(parts).len() == parts.len() * width,
        fields(concat(parts), 0, width, parts.len()) == parts,
    decreases parts.len(),
{
    if parts.len() == 0 {
        assert(fields(concat(parts), 0, width, parts.len()) =~= parts);
    } else {
        let front = parts.drop_last();
        lemma_concat_fields(front, width);
        assert(parts.len() * width == front.len() * width + width) by (nonlinear_arith)
            requires
                parts.len() == front.len() + 1,
        ;
        assert forall|i: int| 0 <= i < parts.len() implies #[trigger] fields(
            concat(parts),
            0,
            width,
            parts.len(),
        )[i] == parts[i] by {
            assert(0 <= i * width && (i + 1) * width <= parts.len() * width
                && (i + 1) * width == i * width + width) by (nonlinear_arith)
                requires
                    0 <= i < parts.len(),
                    0 <= width,
            ;
            if i < front.len() {
                assert((i + 1) * width <= front.len() * width) by (nonlinear_arith)
                    requires
                        i < front.len(),
                        0 <= width,
                ;
                assert(fields(concat(front), 0, width, front.len())[i] == front[i]);
                assert(concat(parts).subrange(i * width, (i + 1) * width) =~= concat(
                    front,
                ).subrange(i * width, (i + 1) * width));
            } else {
                assert(concat(parts).subrange(i * width, (i + 1) * width) =~= parts.last());
            }
        }
        assert(fields(concat(parts), 0, width, parts.len()) =~= parts);
    }
}

/// Whatever decodes is well formed: it has a subtree signature for every
/// layer and a digest for every level of the top tree, each of its width.
pub proof fn lemma_decoded_is_well_formed(bytes: Seq<u8>)
    ensures
        SignatureView::decode(bytes) matches Some(sign) ==> sign.wf(),
{
    if bytes.len() >= GRAVITY_SIGN_BYTES {
        let sign = SignatureView::decode(bytes)->0;
        assert forall|i: int| 0 <= i < sign.subtrees.len() implies (#[trigger] sign.subtrees[i]).len()
            == SUBTREE_SIGN_BYTES by {
            assert(0 <= i * SUBTREE_SIGN_BYTES && (i + 1) * SUBTREE_SIGN_BYTES <= GRAVITY_D
                * SUBTREE_SIGN_BYTES) by (nonlinear_arith)
                requires
                    0 <= i < GRAVITY_D,
            ;
        }
        assert forall|i: int| 0 <= i < sign.auth_c.len() implies (#[trigger] sign.auth_c[i]).len()
            == HASH_SIZE by {
            assert(0 <= i * HASH_SIZE && (i + 1) * HASH_SIZE <= GRAVITY_C * HASH_SIZE)
                by (nonlinear_arith)
                requires
                    0 <= i < GRAVITY_C,
            ;
        }
    }
}

/// A well-formed signature has an encoding of `GRAVITY_SIGN_BYTES` bytes,
/// and decoding that encoding, whatever follows it, gives the signature
/// back, part for part.
pub proof fn lemma_decode_encoding(sign: SignatureView, rest: Seq<u8>)
    requires
        sign.wf(),
    ensures
        sign.encoding().len() == GRAVITY_SIGN_BYTES,
        SignatureView::decode(sign.encoding() + rest) == Some(sign),
{
    let bytes = sign.encoding() + rest;
    let p = PORS_SIGN_BYTES as int;
    let s = SUBTREE_SIGN_BYTES as int;
    let q = p + GRAVITY_D * s;
    lemma_concat_fields(sign.subtrees, s);
    lemma_concat_fields(sign.auth_c, HASH_SIZE as int);
    let decoded = SignatureView::decode(bytes)->0;
    assert(decoded.pors_sign =~= sign.pors_sign);
    assert forall|i: int| 0 <= i < GRAVITY_D implies #[trigger] decoded.subtrees[i]
        == sign.subtrees[i] by {
        assert(fields(concat(sign.subtrees), 0, s, sign.subtrees.len())[i] == sign.subtrees[i]);
        assert(0 <= i * s && (i + 1) * s <= GRAVITY_D * s) by (nonlinear_arith)
            requires
                0 <= i < GRAVITY_D,
                0 <= s,
        ;
        assert(bytes.subrange(p + i * s, p + (i + 1) * s) =~= concat(sign.subtrees).subrange(
            0 + i * s,
            0 + (i + 1) * s,
        ));
    }
    assert(decoded.subtrees =~= sign.subtrees);
    assert forall|i: int| 0 <= i < GRAVITY_C implies #[trigger] decoded.auth_c[i]
        == sign.auth_c[i] by {
        assert(fields(concat(sign.auth_c), 0, HASH_SIZE as int, sign.auth_c.len())[i]
            == sign.auth_c[i]);
        assert(bytes.subrange(q + i * HASH_SIZE, q + (i + 1) * HASH_SIZE) =~= concat(
            sign.auth_c,
        ).subrange(0 + i * HASH_SIZE, 0 + (i + 1) * HASH_SIZE));
    }
    assert(decoded.auth_c =~= sign.auth_c);
}

impl SecKey {
    /// See [`SecKeyView::wf`].
    #[verifier::type_invariant]
    pub open spec fn wf(self) -> bool {
        self@.wf()
    }

    /// The secret key that the 64 bytes `random` stand for, with the
    /// subtree scheme and the tree hash handed in as functions.
    ///
    /// The first 32 bytes are the seed, the last 32 the salt. The public
    /// key of the first-layer subtree at instance `MERKLE_HHH * i` becomes
    /// leaf `i` of the top authentication tree, for each of the
    /// `GRAVITY_CCC` leaves, and the tree is compressed to its root.
    pub fn new<G, C>(random: &[u8; 64], subtree_genpk: G, compress: C) -> (key: SecKey) where
        G: Fn(hash::Hash, Address) -> hash::Hash,
        C: Fn(hash::Hash, hash::Hash) -> hash::Hash,

        requires
            forall|seed: hash::Hash, address: Address|
                call_requires(subtree_genpk, (seed, address)),
            forall|left: hash::Hash, right: hash::Hash| call_requires(compress, (left, right)),
        ensures
            key@.wf(),
            key@.seed == random@.take(32),
            key@.salt == random@.skip(32),
            forall|p: Primitives|
                gives_subtree_genpk(subtree_genpk, p) && gives_compress(compress, p) ==> key@
                    == generated(p, random@),
    {
        let mut machine = KeyGeneration::start(random);
        proof {
            assert forall|p: Primitives| machine@.run(p) == generated(p, random@) by {
                lemma_keygen_run(p, random@);
            }
        }
        loop
            invariant
                forall|seed: hash::Hash, address: Address|
                    call_requires(subtree_genpk, (seed, address)),
                forall|left: hash::Hash, right: hash::Hash| call_requires(compress, (left, right)),
                machine@.seed == random@.take(32),
                machine@.salt == random@.skip(32),
                forall|p: Primitives|
                    gives_subtree_genpk(subtree_genpk, p) && gives_compress(compress, p)
                        ==> machine@.run(p) == generated(p, random@),
            decreases machine@.remaining(),
        {
            proof {
                use_type_invariant(&machine);
            }
            let ghost before = machine@;
            let response = match machine.request() {
                Request::SubtreeGenpk { seed, address } => Response::Digest(
                    subtree_genpk(seed, address),
                ),
                Request::Compress { left, right } => Response::Digest(compress(left, right)),
                _ => unreached(),
            };
            proof {
                lemma_keygen_progress(before, response@);
            }
            match machine.step(response) {
                Step::Ask(next) => {
                    machine = next;
                },
                Step::Done(key) => {
                    return key;
                },
            }
        }
    }

    /// The public key: the root of the top authentication tree.
    pub fn genpk(&self) -> (pk: PubKey)
        ensures
            pk.h@ == self@.genpk(),
    {
        proof {
            use_type_invariant(self);
            use_type_invariant(&self.cache);
        }
        PubKey { h: self.cache.root() }
    }

    /// The signature of the digest `msg`, with the two signature schemes
    /// handed in as functions.
    ///
    /// The few-time scheme signs `msg` and names the address of its key.
    /// Layer by layer, the subtree one layer up signs the digest from
    /// below and hands up its public key, and the place within the subtree
    /// is dropped from the instance. What is left of the instance after
    /// the last layer is the leaf of the top tree whose authentication
    /// path completes the signature.
    pub fn sign_hash<PS, SS>(&self, msg: &hash::Hash, pors_sign: PS, subtree_sign: SS) -> (sign:
        Signature) where
        PS: Fn(hash::Hash, hash::Hash, hash::Hash) -> (Address, hash::Hash, pors::Signature),
        SS: Fn(hash::Hash, Address, hash::Hash) -> (hash::Hash, subtree::Signature),

        requires
            forall|seed: hash::Hash, salt: hash::Hash, m: hash::Hash|
                call_requires(pors_sign, (seed, salt, m)),
            forall|seed: hash::Hash, address: Address, m: hash::Hash|
                call_requires(subtree_sign, (seed, address, m)),
        ensures
            sign@.wf(),
            forall|p: Primitives|
                gives_pors_sign(pors_sign, p) && gives_subtree_sign(subtree_sign, p) ==> sign@
                    == signed(p, self@, msg@),
    {
        let mut machine = Signing::start(self, msg);
        proof {
            assert forall|p: Primitives| machine@.run(p) == signed(p, self@, msg@) by {
                lemma_sign_hash_run(p, self@, msg@);
            }
        }
        loop
            invariant
                forall|seed: hash::Hash, salt: hash::Hash, m: hash::Hash|
                    call_requires(pors_sign, (seed, salt, m)),
                forall|seed: hash::Hash, address: Address, m: hash::Hash|
                    call_requires(subtree_sign, (seed, address, m)),
                !(machine@ is Digest),
                forall|p: Primitives|
                    gives_pors_sign(pors_sign, p) && gives_subtree_sign(subtree_sign, p)
                        ==> machine@.run(p) == signed(p, self@, msg@),
            decreases machine@.remaining(),
        {
            proof {
                use_type_invariant(&machine);
            }
            let ghost before = machine@;
            let response = match machine.request() {
                Request::PorsSign { seed, salt, msg } => {
                    let (address, hash, sign) = pors_sign(seed, salt, msg);
                    Response::PorsSigned { address, hash, sign }
                },
                Request::SubtreeSign { seed, address, msg } => {
                    let (root, sign) = subtree_sign(seed, address, msg);
                    Response::SubtreeSigned { root, sign }
                },
                _ => unreached(),
            };
            proof {
                lemma_signing_progress(before, response@);
            }
            match machine.step(response) {
                Step::Ask(next) => {
                    machine = next;
                },
                Step::Done(sign) => {
                    return sign;
                },
            }
        }
    }

    /// The signature of a message of any length: that of its digest.
    pub fn sign_bytes<LH, PS, SS>(
        &self,
        msg: &[u8],
        long_hash: LH,
        pors_sign: PS,
        subtree_sign: SS,
    ) -> (sign: Signature) where
        LH: Fn(&[u8]) -> hash::Hash,
        PS: Fn(hash::Hash, hash::Hash, hash::Hash) -> (Address, hash::Hash, pors::Signature),
        SS: Fn(hash::Hash, Address, hash::Hash) -> (hash::Hash, subtree::Signature),

        requires
            forall|m: &[u8]| call_requires(long_hash, (m,)),
            forall|seed: hash::Hash, salt: hash::Hash, m: hash::Hash|
                call_requires(pors_sign, (seed, salt, m)),
            forall|seed: hash::Hash, address: Address, m: hash::Hash|
                call_requires(subtree_sign, (seed, address, m)),
        ensures
            sign@.wf(),
            forall|p: Primitives|
                gives_long_hash(long_hash, p) && gives_pors_sign(pors_sign, p)
                    && gives_subtree_sign(subtree_sign, p) ==> sign@ == signed_bytes(
                    p,
                    self@,
                    msg@,
                ),
    {
        let h = long_hash(msg);
        self.sign_hash(&h, pors_sign, subtree_sign)
    }
}

impl PubKey {
    /// Whether `sign` is valid for the digest `msg` under this key: it
    /// leads to a root, and the root is this key.
    pub fn verify_hash<PE, SE, C>(
        &self,
        sign: &Signature,
        msg: &hash::Hash,
        pors_extract: PE,
        subtree_extract: SE,
        compress: C,
    ) -> (valid: bool) where
        PE: Fn(&pors::Signature, hash::Hash) -> Option<(Address, hash::Hash)>,
        SE: Fn(&subtree::Signature, Address, hash::Hash) -> hash::Hash,
        C: Fn(hash::Hash, hash::Hash) -> hash::Hash,

        requires
            forall|s: &pors::Signature, m: hash::Hash| call_requires(pors_extract, (s, m)),
            forall|s: &subtree::Signature, address: Address, m: hash::Hash|
                call_requires(subtree_extract, (s, address, m)),
            forall|left: hash::Hash, right: hash::Hash| call_requires(compress, (left, right)),
        ensures
            forall|p: Primitives|
                gives_pors_extract(pors_extract, p) && gives_subtree_extract(subtree_extract, p)
                    && gives_compress(compress, p) ==> valid == verified(
                    p,
                    self.h@,
                    sign@,
                    msg@,
                ),
    {
        match sign.extract_hash(msg, pors_extract, subtree_extract, compress) {
            Some(h) => {
                proof {
                    if h@ == self.h@ {
                        hash::lemma_hash_by_bytes(h, self.h);
                    }
                }
                self.h == h
            },
            None => false,
        }
    }

    /// Whether `sign` is valid for a message of any length under this key:
    /// whether it is for the digest of the message.
    pub fn verify_bytes<LH, PE, SE, C>(
        &self,
        sign: &Signature,
        msg: &[u8],
        long_hash: LH,
        pors_extract: PE,
        subtree_extract: SE,
        compress: C,
    ) -> (valid: bool) where
        LH: Fn(&[u8]) -> hash::Hash,
        PE: Fn(&pors::Signature, hash::Hash) -> Option<(Address, hash::Hash)>,
        SE: Fn(&subtree::Signature, Address, hash::Hash) -> hash::Hash,
        C: Fn(hash::Hash, hash::Hash) -> hash::Hash,

        requires
            forall|m: &[u8]| call_requires(long_hash, (m,)),
            forall|s: &pors::Signature, m: hash::Hash| call_requires(pors_extract, (s, m)),
            forall|s: &subtree::Signature, address: Address, m: hash::Hash|
                call_requires(subtree_extract, (s, address, m)),
            forall|left: hash::Hash, right: hash::Hash| call_requires(compress, (left, right)),
        ensures
            forall|p: Primitives|
                gives_long_hash(long_hash, p) && gives_pors_extract(pors_extract, p)
                    && gives_subtree_extract(subtree_extract, p) && gives_compress(compress, p)
                    ==> valid == verified_bytes(p, self.h@, sign@, msg@),
    {
        let h = long_hash(msg);
        self.verify_hash(sign, &h, pors_extract, subtree_extract, compress)
    }
}

impl Signature {
    /// The parts are as many and as wide as the parameter set says.
    #[verifier::type_invariant]
    pub open spec fn wf(self) -> bool {
        self@.wf()
    }

    /// The root of the top authentication tree that this signature leads
    /// to for the digest `msg`, with the primitives handed in as
    /// functions.
    ///
    /// Nothing where the few-time signature does not fit the message. Else
    /// each subtree signature in turn yields the public key of its subtree
    /// for the digest from below, at the address one layer up, and the
    /// place within the subtree is dropped from the instance. The last
    /// public key is a leaf of the top tree, at the index that is left of
    /// the instance; joined with each digest of the authentication path, on
    /// the side that the lowest bit of the index names, the index being
    /// halved each time, it gives the root.
    pub fn extract_hash<PE, SE, C>(
        &self,
        msg: &hash::Hash,
        pors_extract: PE,
        subtree_extract: SE,
        compress: C,
    ) -> (found: Option<hash::Hash>) where
        PE: Fn(&pors::Signature, hash::Hash) -> Option<(Address, hash::Hash)>,
        SE: Fn(&subtree::Signature, Address, hash::Hash) -> hash::Hash,
        C: Fn(hash::Hash, hash::Hash) -> hash::Hash,

        requires
            forall|s: &pors::Signature, m: hash::Hash| call_requires(pors_extract, (s, m)),
            forall|s: &subtree::Signature, address: Address, m: hash::Hash|
                call_requires(subtree_extract, (s, address, m)),
            forall|left: hash::Hash, right: hash::Hash| call_requires(compress, (left, right)),
        ensures
            forall|p: Primitives|
                gives_pors_extract(pors_extract, p) && gives_subtree_extract(subtree_extract, p)
                    && gives_compress(compress, p) ==> candidate(found) == extracted(
                    p,
                    self@,
                    msg@,
                ),
    {
        let mut machine = Extraction::start(self, msg);
        proof {
            use_type_invariant(self);
            assert forall|p: Primitives| machine@.run(p) == extracted(p, self@, msg@) by {
                lemma_extract_run(p, self@, msg@);
            }
        }
        loop
            invariant
                forall|s: &pors::Signature, m: hash::Hash| call_requires(pors_extract, (s, m)),
                forall|s: &subtree::Signature, address: Address, m: hash::Hash|
                    call_requires(subtree_extract, (s, address, m)),
                forall|left: hash::Hash, right: hash::Hash| call_requires(compress, (left, right)),
                forall|p: Primitives|
                    gives_pors_extract(pors_extract, p) && gives_subtree_extract(
                        subtree_extract,
                        p,
                    ) && gives_compress(compress, p) ==> machine@.run(p) == extracted(
                        p,
                        self@,
                        msg@,
                    ),
            decreases machine@.remaining(),
        {
            proof {
                use_type_invariant(&machine);
            }
            let ghost before = machine@;
            let response = match machine.request() {
                Request::PorsExtract { sign, msg } => Response::PorsExtracted(
                    pors_extract(&sign, msg),
                ),
                Request::SubtreeExtract { sign, address, msg } => Response::Digest(
                    subtree_extract(&sign, address, msg),
                ),
                Request::Compress { left, right } => Response::Digest(compress(left, right)),
                _ => unreached(),
            };
            proof {
                lemma_extraction_progress(before, response@);
            }
            match machine.step(response) {
                Step::Ask(next) => {
                    machine = next;
                },
                Step::Done(found) => {
                    return found;
                },
            }
        }
    }

    /// Appends the encoding of the signature to `output`: always
    /// `GRAVITY_SIGN_BYTES` bytes.
    pub fn serialize(&self, output: &mut Vec<u8>)
        ensures
            final(output)@ == old(output)@ + self@.encoding(),
            final(output)@.len() == old(output)@.len() + GRAVITY_SIGN_BYTES,
    {
        proof {
            use_type_invariant(self);
            lemma_decode_encoding(self@, Seq::empty());
        }
        self.pors_sign.serialize(output);
        let mut i: usize = 0;
        while i < self.subtrees.len()
            invariant
                i <= self.subtrees@.len(),
                output@ == old(output)@ + self.pors_sign@ + concat(
                    encodings(self.subtrees@).take(i as int),
                ),
            decreases self.subtrees@.len() - i,
        {
            self.subtrees[i].serialize(output);
            proof {
                let parts = encodings(self.subtrees@);
                assert(parts.take(i + 1).drop_last() =~= parts.take(i as int));
                assert(output@ =~= old(output)@ + self.pors_sign@ + concat(parts.take(i + 1)));
            }
            i += 1;
        }
        proof {
            let parts = encodings(self.subtrees@);
            assert(parts.take(parts.len() as int) =~= parts);
        }
        let mut j: usize = 0;
        while j < self.auth_c.len()
            invariant
                j <= self.auth_c@.len(),
                output@ == old(output)@ + self.pors_sign@ + concat(encodings(self.subtrees@))
                    + concat(hash::digests(self.auth_c@).take(j as int)),
            decreases self.auth_c@.len() - j,
        {
            self.auth_c[j].serialize(output);
            proof {
                let parts = hash::digests(self.auth_c@);
                assert(parts.take(j + 1).drop_last() =~= parts.take(j as int));
                assert(output@ =~= old(output)@ + self.pors_sign@ + concat(
                    encodings(self.subtrees@),
                ) + concat(parts.take(j + 1)));
            }
            j += 1;
        }
        proof {
            let parts = hash::digests(self.auth_c@);
            assert(parts.take(parts.len() as int) =~= parts);
            assert(output@ =~= old(output)@ + self@.encoding());
        }
    }

    /// Reads a signature off the next `GRAVITY_SIGN_BYTES` bytes of the
    /// stream: the parts in the order in which `serialize` writes them.
    ///
    /// Fails when the stream ends before that, and only then; the stream is
    /// then used up. Whether the signature is valid for any message is not
    /// looked at.
    pub fn deserialize<'a, I: Iterator<Item = &'a u8>>(it: &mut I) -> (r: Option<Signature>)
        ensures
            r matches Some(sign) ==> sign@.wf(),
            (*final(it)).obeys_prophetic_iter_laws() == (*old(it)).obeys_prophetic_iter_laws(),
            (*old(it)).obeys_prophetic_iter_laws() ==> match r {
                Some(sign) => {
                    &&& GRAVITY_SIGN_BYTES <= (*old(it)).remaining().len()
                    &&& Some(sign@) == SignatureView::decode((*old(it)).remaining().unref())
                    &&& (*final(it)).remaining() == (*old(it)).remaining().skip(
                        GRAVITY_SIGN_BYTES as int,
                    )
                },
                None => {
                    &&& (*old(it)).remaining().len() < GRAVITY_SIGN_BYTES
                    &&& (*final(it)).remaining().len() == 0
                },
            },
    {
        let ghost obeys = (*old(it)).obeys_prophetic_iter_laws();
        let ghost rem = (*old(it)).remaining();
        let pors_sign = match pors::Signature::deserialize(it) {
            Some(s) => s,
            None => {
                return None;
            },
        };
        proof {
            use_type_invariant(&pors_sign);
        }
        let mut subtrees: Vec<subtree::Signature> = Vec::new();
        let mut i: usize = 0;
        while i < GRAVITY_D
            invariant
                i <= GRAVITY_D,
                subtrees@.len() == i,
                all_of_width(encodings(subtrees@), SUBTREE_SIGN_BYTES as int),
                obeys == (*old(it)).obeys_prophetic_iter_laws(),
                rem == (*old(it)).remaining(),
                (*it).obeys_prophetic_iter_laws() == obeys,
                obeys ==> {
                    &&& PORS_SIGN_BYTES + i * SUBTREE_SIGN_BYTES <= rem.len()
                    &&& (*it).remaining() == rem.skip(PORS_SIGN_BYTES + i * SUBTREE_SIGN_BYTES)
                    &&& encodings(subtrees@) == fields(
                        rem.unref(),
                        PORS_SIGN_BYTES as int,
                        SUBTREE_SIGN_BYTES as int,
                        i as nat,
                    )
                },
            decreases GRAVITY_D - i,
        {
            let ghost before = (*it).remaining();
            let ghost had = encodings(subtrees@);
            let sign = match subtree::Signature::deserialize(it) {
                Some(s) => s,
                None => {
                    return None;
                },
            };
            proof {
                use_type_invariant(&sign);
            }
            subtrees.push(sign);
            proof {
                assert(encodings(subtrees@) =~= had.push(sign@));
                if obeys {
                    let at = PORS_SIGN_BYTES + i * SUBTREE_SIGN_BYTES;
                    assert(before.skip(SUBTREE_SIGN_BYTES as int) =~= rem.skip(
                        at + SUBTREE_SIGN_BYTES,
                    ));
                    assert(before.unref().take(SUBTREE_SIGN_BYTES as int) =~= rem.unref().subrange(
                        at,
                        at + SUBTREE_SIGN_BYTES,
                    ));
                    assert(encodings(subtrees@) =~= fields(
                        rem.unref(),
                        PORS_SIGN_BYTES as int,
                        SUBTREE_SIGN_BYTES as int,
                        (i + 1) as nat,
                    ));
                }
            }
            i += 1;
        }
        let mut auth_c: Vec<hash::Hash> = Vec::new();
        let mut j: usize = 0;
        while j < GRAVITY_C
            invariant
                j <= GRAVITY_C,
                auth_c@.len() == j,
                obeys == (*old(it)).obeys_prophetic_iter_laws(),
                rem == (*old(it)).remaining(),
                (*it).obeys_prophetic_iter_laws() == obeys,
                obeys ==> {
                    &&& PORS_SIGN_BYTES + GRAVITY_D * SUBTREE_SIGN_BYTES + j * HASH_SIZE
                        <= rem.len()
                    &&& (*it).remaining() == rem.skip(
                        PORS_SIGN_BYTES + GRAVITY_D * SUBTREE_SIGN_BYTES + j * HASH_SIZE,
                    )
                    &&& hash::digests(auth_c@) == fields(
                        rem.unref(),
                        PORS_SIGN_BYTES + GRAVITY_D * SUBTREE_SIGN_BYTES,
                        HASH_SIZE as int,
                        j as nat,
                    )
                },
            decreases GRAVITY_C - j,
        {
            let ghost before = (*it).remaining();
            let ghost had = hash::digests(auth_c@);
            let h = match hash::Hash::deserialize(it) {
                Some(h) => h,
                None => {
                    return None;
                },
            };
            auth_c.push(h);
            proof {
                assert(hash::digests(auth_c@) =~= had.push(h@));
                if obeys {
                    let at = PORS_SIGN_BYTES + GRAVITY_D * SUBTREE_SIGN_BYTES + j * HASH_SIZE;
                    assert(before.skip(HASH_SIZE as int) =~= rem.skip(at + HASH_SIZE));
                    assert(before.unref().take(HASH_SIZE as int) =~= rem.unref().subrange(
                        at,
                        at + HASH_SIZE,
                    ));
                    assert(hash::digests(auth_c@) =~= fields(
                        rem.unref(),
                        PORS_SIGN_BYTES + GRAVITY_D * SUBTREE_SIGN_BYTES,
                        HASH_SIZE as int,
                        (j + 1) as nat,
                    ));
                }
            }
            j += 1;
        }
        proof {
            if obeys {
                assert(pors_sign@ =~= rem.unref().subrange(0, PORS_SIGN_BYTES as int));
            }
        }
        Some(Signature { pors_sign, subtrees, auth_c })
    }
}

} // verus!
