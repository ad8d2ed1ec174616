//! What holds of key generation, signing and verification together.

use vstd::prelude::*;
use vstd::arithmetic::power2::{lemma2_to64, pow2};
use crate::address::Address;
use crate::config::{
    GRAVITY_C,
    GRAVITY_CCC,
    GRAVITY_D,
    GRAVITY_SIGN_BYTES,
    HASH_SIZE,
    MERKLE_H,
    MERKLE_HHH,
    PORS_SIGN_BYTES,
    SUBTREE_SIGN_BYTES,
};
use crate::extraction::{extract_layers, ExtractionView};
use crate::gravity::{lemma_decode_encoding, SecKeyView};
use crate::keygen::{
    generated,
    leaf_address,
    lemma_generated_tree,
    lemma_keygen_run,
    KeyGenerationView,
};
use crate::merkle;
use crate::primitives::{Primitives, RequestView};
use crate::signing::{
    layer_address,
    layer_hash,
    leaf_index,
    lemma_shift_bound,
    lemma_sign_bytes_run,
    lemma_sign_hash_run,
    signed,
    signed_bytes,
    SigningView,
};
use crate::verification::{
    lemma_verify_bytes_run,
    lemma_verify_hash_run,
    verified,
    verified_bytes,
    VerificationView,
};

verus! {

/// The address of the subtree that holds `address`: the same layer, and
/// the place within the subtree cleared from the instance.
pub open spec fn subtree_of(address: Address) -> Address {
    Address {
        layer: address.layer,
        instance: (address.instance - address.instance % (MERKLE_HHH as u64)) as u64,
    }
}

/// What the few-time and the subtree scheme owe the hypertree.
///
/// - What a few-time signature yields for the message it signs are the
///   address and the digest that came with it.
/// - What a subtree signature yields for the digest it signs, at the
///   address at which it signs, is the public key that came with it.
/// - In the first layer, that public key is the one that key generation
///   derives for the subtree that holds the address.
/// - The few-time keys lie as many layers below the first layer as a
///   signature has subtree layers.
pub open spec fn sound(p: Primitives) -> bool {
    &&& forall|seed: Seq<u8>, salt: Seq<u8>, msg: Seq<u8>|
        (p.pors_extract)((#[trigger] (p.pors_sign)(seed, salt, msg)).2, msg) == Some(
            ((p.pors_sign)(seed, salt, msg).0, (p.pors_sign)(seed, salt, msg).1),
        )
    &&& forall|seed: Seq<u8>, address: Address, msg: Seq<u8>|
        (p.subtree_extract)((#[trigger] (p.subtree_sign)(seed, address, msg)).1, address, msg) == (
        p.subtree_sign)(seed, address, msg).0
    &&& forall|seed: Seq<u8>, address: Address, msg: Seq<u8>|
        address.layer == 0 ==> (#[trigger] (p.subtree_sign)(seed, address, msg)).0 == (
        p.subtree_genpk)(seed, subtree_of(address))
    &&& forall|seed: Seq<u8>, salt: Seq<u8>, msg: Seq<u8>|
        layer_address(
            (#[trigger] (p.pors_sign)(seed, salt, msg)).0,
            (GRAVITY_D - 1) as nat,
        ).layer == 0
}

/// The promises of `sound` can be kept: there are primitives that keep
/// them.
pub proof fn lemma_sound_primitives_exist()
    ensures
        exists|p: Primitives| sound(p),
{
    let bottom = (0x1_0000_0000 - GRAVITY_D) as u32;
    let p = Primitives {
        long_hash: |msg: Seq<u8>| msg,
        pors_sign: |seed: Seq<u8>, salt: Seq<u8>, msg: Seq<u8>|
            (Address { layer: bottom, instance: 0 }, msg, salt),
        pors_extract: |sign: Seq<u8>, msg: Seq<u8>|
            Some((Address { layer: bottom, instance: 0 }, msg)),
        subtree_genpk: |seed: Seq<u8>, address: Address| seed,
        subtree_sign: |seed: Seq<u8>, address: Address, msg: Seq<u8>| (seed, seed),
        subtree_extract: |sign: Seq<u8>, address: Address, msg: Seq<u8>| sign,
        compress: |left: Seq<u8>, right: Seq<u8>| left,
    };
    let start = Address { layer: bottom, instance: 0 };
    lemma_layers_count_up(start, (GRAVITY_D - 1) as nat);
    assert(sound(p));
}

/// The subtree of a layer signs that many layers and one above the
/// few-time key, counting around behind the largest layer number.
pub proof fn lemma_layers_count_up(start: Address, layer: nat)
    requires
        layer < GRAVITY_D,
    ensures
        layer_address(start, layer).layer == (start.layer + layer + 1) % 0x1_0000_0000,
    decreases layer,
{
    if layer > 0 {
        let below = layer_address(start, (layer - 1) as nat);
        lemma_layers_count_up(start, (layer - 1) as nat);
        below.lemma_shifted(MERKLE_H as nat);
    }
}

/// The address at which a layer signs has an instance that fits the layers
/// and the top tree above it.
pub proof fn lemma_layer_address(start: Address, layer: nat)
    requires
        layer < GRAVITY_D,
    ensures
        layer_address(start, layer).instance < pow2((64 - MERKLE_H * layer) as nat),
    decreases layer,
{
    lemma2_to64();
    if layer > 0 {
        let below = layer_address(start, (layer - 1) as nat);
        lemma_layer_address(start, (layer - 1) as nat);
        lemma_shift_bound(below.instance, (layer - 1) as nat);
        below.lemma_shifted(MERKLE_H as nat);
    }
}

/// The leaf under which a few-time key lies is a leaf of the top tree, and
/// the subtree that signs last is the first-layer subtree under that leaf.
pub proof fn lemma_leaf_index(start: Address)
    ensures
        0 <= leaf_index(start) < GRAVITY_CCC,
        subtree_of(layer_address(start, (GRAVITY_D - 1) as nat)).instance == MERKLE_HHH
            * leaf_index(start),
{
    let last = layer_address(start, (GRAVITY_D - 1) as nat);
    lemma2_to64();
    lemma_layer_address(start, (GRAVITY_D - 1) as nat);
    lemma_shift_bound(last.instance, (GRAVITY_D - 1) as nat);
    last.lemma_shifted(MERKLE_H as nat);
}

proof fn lemma_extract_follows_sign(p: Primitives, key: SecKeyView, msg: Seq<u8>, layers: nat)
    requires
        sound(p),
        layers <= GRAVITY_D,
    ensures
        ({
            let (start, h0, pors_sign) = (p.pors_sign)(key.seed, key.salt, msg);
            extract_layers(p, signed(p, key, msg), start, h0, layers) == layer_hash(
                p,
                key.seed,
                start,
                h0,
                layers,
            )
        }),
    decreases layers,
{
    if layers > 0 {
        lemma_extract_follows_sign(p, key, msg, (layers - 1) as nat);
    }
}

proof fn lemma_signed_is_verified(p: Primitives, random: Seq<u8>, msg: Seq<u8>)
    requires
        sound(p),
    ensures
        verified(
            p,
            generated(p, random).genpk(),
            signed(p, generated(p, random), msg),
            msg,
        ),
{
    let key = generated(p, random);
    let sign = signed(p, key, msg);
    let (start, h0, pors_sign) = (p.pors_sign)(key.seed, key.salt, msg);
    let last = layer_address(start, (GRAVITY_D - 1) as nat);
    let before = layer_hash(p, key.seed, start, h0, (GRAVITY_D - 1) as nat);
    let top = layer_hash(p, key.seed, start, h0, GRAVITY_D as nat);
    let leaf = leaf_index(start);
    lemma_extract_follows_sign(p, key, msg, GRAVITY_D as nat);
    lemma_leaf_index(start);
    lemma_generated_tree(p, random);
    assert(top == (p.subtree_sign)(key.seed, last, before).0);
    assert(subtree_of(last) == leaf_address(leaf as nat));
    assert(top == key.cache[leaf]);
    merkle::lemma_auth_path_leads_to_root(key.cache, p.compress, leaf);
}

/// Round trip: for every 64 bytes and every message, the key generated
/// from the bytes signs the message with a signature that its public key
/// accepts for that message, whenever the primitives are sound. This holds
/// of signing and verifying a digest and of signing and verifying a
/// message of any length.
pub proof fn lemma_round_trip(p: Primitives, random: Seq<u8>, msg: Seq<u8>)
    requires
        sound(p),
    ensures
        verified(
            p,
            generated(p, random).genpk(),
            signed(p, generated(p, random), msg),
            msg,
        ),
        verified_bytes(
            p,
            generated(p, random).genpk(),
            signed_bytes(p, generated(p, random), msg),
            msg,
        ),
{
    lemma_signed_is_verified(p, random, msg);
    lemma_signed_is_verified(p, random, (p.long_hash)(msg));
}

/// Round trip, request by request: a key generation, a signing and a
/// verification that are each run to the end with the answers of the same
/// sound primitives end with the signature accepted.
pub proof fn lemma_round_trip_by_steps(p: Primitives, random: Seq<u8>, msg: Seq<u8>)
    requires
        sound(p),
    ensures
        ({
            let key = KeyGenerationView::start(random).run(p);
            let sign = (SigningView::Pors { key, msg }).run(p);
            (VerificationView::Extract {
                key: key.genpk(),
                extraction: ExtractionView::Pors { sign, msg },
            }).run(p)
        }),
        ({
            let key = KeyGenerationView::start(random).run(p);
            let sign = (SigningView::Digest { key, msg }).run(p);
            (VerificationView::Digest { key: key.genpk(), sign, msg }).run(p)
        }),
{
    let key = generated(p, random);
    lemma_keygen_run(p, random);
    lemma_sign_hash_run(p, key, msg);
    lemma_sign_bytes_run(p, key, msg);
    lemma_signed_is_verified(p, random, msg);
    lemma_signed_is_verified(p, random, (p.long_hash)(msg));
    lemma_verify_hash_run(p, key.genpk(), signed(p, key, msg), msg);
    lemma_verify_bytes_run(p, key.genpk(), signed_bytes(p, key, msg), msg);
}

/// Two sets of primitives give the same answer to every request.
pub open spec fn agree(p: Primitives, q: Primitives) -> bool {
    forall|request: RequestView| #[trigger] p.answer(request) == q.answer(request)
}

/// Determinism: what key generation, signing and verification yield
/// depends on the 64 bytes, the message and the answers of the primitives,
/// and on nothing else. Two keys generated from the same bytes, with
/// primitives that answer alike, are the same key with the same public
/// key, and sign the same message with the same signature.
pub proof fn lemma_determinism(p: Primitives, q: Primitives, random: Seq<u8>, msg: Seq<u8>)
    requires
        agree(p, q),
    ensures
        generated(p, random) == generated(q, random),
        generated(p, random).genpk() == generated(q, random).genpk(),
        forall|key: SecKeyView| #[trigger] signed(p, key, msg) == signed(q, key, msg),
        forall|key: SecKeyView| #[trigger] signed_bytes(p, key, msg) == signed_bytes(q, key, msg),
        KeyGenerationView::start(random).run(p) == KeyGenerationView::start(random).run(q),
        KeyGenerationView::start(random).run(p).genpk() == KeyGenerationView::start(random).run(
            q,
        ).genpk(),
        (SigningView::Pors { key: KeyGenerationView::start(random).run(p), msg }).run(p) == (
        SigningView::Pors { key: KeyGenerationView::start(random).run(q), msg }).run(q),
        (SigningView::Digest { key: KeyGenerationView::start(random).run(p), msg }).run(p) == (
        SigningView::Digest { key: KeyGenerationView::start(random).run(q), msg }).run(q),
{
    assert forall|m: Seq<u8>| #[trigger] (p.long_hash)(m) == (q.long_hash)(m) by {
        assert(p.answer(RequestView::LongHash { msg: m }) == q.answer(
            RequestView::LongHash { msg: m },
        ));
    }
    assert forall|seed: Seq<u8>, salt: Seq<u8>, m: Seq<u8>| #[trigger]
        (p.pors_sign)(seed, salt, m) == (q.pors_sign)(seed, salt, m) by {
        assert(p.answer(RequestView::PorsSign { seed, salt, msg: m }) == q.answer(
            RequestView::PorsSign { seed, salt, msg: m },
        ));
    }
    assert forall|sign: Seq<u8>, m: Seq<u8>| #[trigger]
        (p.pors_extract)(sign, m) == (q.pors_extract)(sign, m) by {
        assert(p.answer(RequestView::PorsExtract { sign, msg: m }) == q.answer(
            RequestView::PorsExtract { sign, msg: m },
        ));
    }
    assert forall|seed: Seq<u8>, address: Address| #[trigger]
        (p.subtree_genpk)(seed, address) == (q.subtree_genpk)(seed, address) by {
        assert(p.answer(RequestView::SubtreeGenpk { seed, address }) == q.answer(
            RequestView::SubtreeGenpk { seed, address },
        ));
    }
    assert forall|seed: Seq<u8>, address: Address, m: Seq<u8>| #[trigger]
        (p.subtree_sign)(seed, address, m) == (q.subtree_sign)(seed, address, m) by {
        assert(p.answer(RequestView::SubtreeSign { seed, address, msg: m }) == q.answer(
            RequestView::SubtreeSign { seed, address, msg: m },
        ));
    }
    assert forall|sign: Seq<u8>, address: Address, m: Seq<u8>| #[trigger]
        (p.subtree_extract)(sign, address, m) == (q.subtree_extract)(sign, address, m) by {
        assert(p.answer(RequestView::SubtreeExtract { sign, address, msg: m }) == q.answer(
            RequestView::SubtreeExtract { sign, address, msg: m },
        ));
    }
    assert forall|left: Seq<u8>, right: Seq<u8>| #[trigger]
        (p.compress)(left, right) == (q.compress)(left, right) by {
        assert(p.answer(RequestView::Compress { left, right }) == q.answer(
            RequestView::Compress { left, right },
        ));
    }
    assert(p.long_hash =~= q.long_hash);
    assert(p.pors_sign =~= q.pors_sign);
    assert(p.pors_extract =~= q.pors_extract);
    assert(p.subtree_genpk =~= q.subtree_genpk);
    assert(p.subtree_sign =~= q.subtree_sign);
    assert(p.subtree_extract =~= q.subtree_extract);
    assert(p.compress =~= q.compress);
    assert(p == q);
}

/// The primitives give digests and signatures of the widths of the
/// parameter set.
pub open spec fn well_sized(p: Primitives) -> bool {
    &&& forall|seed: Seq<u8>, salt: Seq<u8>, msg: Seq<u8>|
        (#[trigger] (p.pors_sign)(seed, salt, msg)).2.len() == PORS_SIGN_BYTES
    &&& forall|seed: Seq<u8>, address: Address, msg: Seq<u8>|
        (#[trigger] (p.subtree_sign)(seed, address, msg)).1.len() == SUBTREE_SIGN_BYTES
    &&& forall|seed: Seq<u8>, address: Address|
        (#[trigger] (p.subtree_genpk)(seed, address)).len() == HASH_SIZE
    &&& forall|left: Seq<u8>, right: Seq<u8>|
        (#[trigger] (p.compress)(left, right)).len() == HASH_SIZE
}

/// Parameter consistency: with primitives of the right widths, a key
/// generated from 64 bytes is well formed, and every signature it makes
/// has one subtree signature for each of the `GRAVITY_D` layers and one
/// digest for each of the `GRAVITY_C` levels of the top tree, each of its
/// width, and an encoding of exactly `GRAVITY_SIGN_BYTES` bytes.
pub proof fn lemma_sizes(p: Primitives, random: Seq<u8>, msg: Seq<u8>)
    requires
        well_sized(p),
        random.len() == 64,
    ensures
        generated(p, random).wf(),
        signed(p, generated(p, random), msg).wf(),
        signed(p, generated(p, random), msg).encoding().len() == GRAVITY_SIGN_BYTES,
{
    let key = generated(p, random);
    let sign = signed(p, key, msg);
    let (start, h0, pors_sign) = (p.pors_sign)(key.seed, key.salt, msg);
    let leaf = leaf_index(start);
    lemma_leaf_index(start);
    assert forall|level: int| 0 <= level < GRAVITY_C implies (#[trigger] sign.auth_c[level]).len()
        == HASH_SIZE by {
        merkle::lemma_path_step(leaf, level as nat);
    }
    lemma_decode_encoding(sign, Seq::empty());
}

} // verus!
