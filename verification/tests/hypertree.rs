//! Key generation, signing and verification, driven by a small set of
//! stand-in primitives that keep the promises the hypertree relies on.

use gravity::address::Address;
use gravity::config::{
    GRAVITY_C, GRAVITY_CCC, GRAVITY_D, GRAVITY_NODES, GRAVITY_SIGN_BYTES, HASH_SIZE, MERKLE_H,
    MERKLE_HHH, PORS_SIGN_BYTES, SUBTREE_SIGN_BYTES,
};
use gravity::extraction::Extraction;
use gravity::gravity::{PubKey, SecKey, Signature};
use gravity::hash;
use gravity::keygen::KeyGeneration;
use gravity::pors;
use gravity::primitives::{Request, Response, Step};
use gravity::signing::Signing;
use gravity::subtree;
use gravity::verification::Verification;

/// A mixing function that stands in for every digest.
fn mix(parts: &[&[u8]]) -> hash::Hash {
    let mut h = [0u8; 32];
    for lane in 0..4u64 {
        let mut x: u64 = 0xcbf2_9ce4_8422_2325 ^ lane.wrapping_mul(0x9e37_79b9_7f4a_7c15);
        for part in parts {
            for &b in part.iter() {
                x ^= b as u64;
                x = x.wrapping_mul(0x0000_0100_0000_01b3);
            }
            x ^= 0xff00 | part.len() as u64;
            x = x.wrapping_mul(0x0000_0100_0000_01b3);
        }
        x ^= x >> 29;
        x = x.wrapping_mul(0xbf58_476d_1ce4_e5b9);
        x ^= x >> 32;
        let at = lane as usize * 8;
        h[at..at + 8].copy_from_slice(&x.to_le_bytes());
    }
    hash::Hash::new(h)
}

fn address_bytes(address: &Address) -> [u8; 12] {
    let mut out = [0u8; 12];
    out[..4].copy_from_slice(&address.layer.to_le_bytes());
    out[4..].copy_from_slice(&address.instance.to_le_bytes());
    out
}

/// The layer at which the stand-in few-time keys lie: `GRAVITY_D` layers
/// below layer 0.
fn bottom_layer() -> u32 {
    0u32.wrapping_sub(GRAVITY_D as u32)
}

fn long_hash(msg: &[u8]) -> hash::Hash {
    mix(&[b"long", msg])
}

/// Fills `out` with bytes that depend on `from`.
fn fill(out: &mut [u8], from: &hash::Hash) {
    let mut block = *from;
    for chunk in out.chunks_mut(32) {
        block = mix(&[b"fill", &block.h]);
        chunk.copy_from_slice(&block.h[..chunk.len()]);
    }
}

/// A stand-in few-time signature: the instance, the digest for the layers
/// above, filler, and at the end a tag over the message and all that
/// stands before it.
fn pors_sign(seed: hash::Hash, salt: hash::Hash, msg: hash::Hash) -> (Address, hash::Hash, pors::Signature) {
    let pepper = mix(&[b"pepper", &salt.h, &msg.h]);
    let mut instance = [0u8; 8];
    instance.copy_from_slice(&pepper.h[..8]);
    let address = Address::new(bottom_layer(), u64::from_le_bytes(instance));
    let root = mix(&[b"pors", &seed.h, &address_bytes(&address)]);
    let mut sign = vec![0u8; PORS_SIGN_BYTES];
    let body = PORS_SIGN_BYTES - 32;
    sign[..8].copy_from_slice(&instance);
    sign[8..40].copy_from_slice(&root.h);
    fill(&mut sign[40..body], &mix(&[b"reveal", &seed.h, &pepper.h]));
    let tag = mix(&[b"tag", &msg.h, &sign[..body]]);
    sign[body..].copy_from_slice(&tag.h);
    (address, root, pors::Signature::from_bytes(sign).unwrap())
}

fn pors_extract(sign: &pors::Signature, msg: hash::Hash) -> Option<(Address, hash::Hash)> {
    let sign = sign.as_bytes();
    let body = PORS_SIGN_BYTES - 32;
    let mut instance = [0u8; 8];
    instance.copy_from_slice(&sign[..8]);
    let address = Address::new(bottom_layer(), u64::from_le_bytes(instance));
    let mut root = [0u8; 32];
    root.copy_from_slice(&sign[8..40]);
    let tag = mix(&[b"tag", &msg.h, &sign[..body]]);
    if sign[body..] == tag.h {
        Some((address, hash::Hash::new(root)))
    } else {
        None
    }
}

fn subtree_genpk(seed: hash::Hash, address: Address) -> hash::Hash {
    let base = Address::new(address.layer, address.instance - address.instance % MERKLE_HHH as u64);
    mix(&[b"subtree", &seed.h, &address_bytes(&base)])
}

/// A stand-in subtree signature: the public key of the subtree, filler,
/// and at the end a tag over the address, the digest and all that stands
/// before it.
fn subtree_sign(seed: hash::Hash, address: Address, msg: hash::Hash) -> (hash::Hash, subtree::Signature) {
    let root = subtree_genpk(seed, address);
    let mut sign = vec![0u8; SUBTREE_SIGN_BYTES];
    let body = SUBTREE_SIGN_BYTES - 32;
    sign[..32].copy_from_slice(&root.h);
    fill(&mut sign[32..body], &mix(&[b"chains", &seed.h, &address_bytes(&address), &msg.h]));
    let tag = mix(&[b"wots", &address_bytes(&address), &msg.h, &sign[..body]]);
    sign[body..].copy_from_slice(&tag.h);
    (root, subtree::Signature::from_bytes(sign).unwrap())
}

fn subtree_extract(sign: &subtree::Signature, address: Address, msg: hash::Hash) -> hash::Hash {
    let sign = sign.as_bytes();
    let body = SUBTREE_SIGN_BYTES - 32;
    let mut root = [0u8; 32];
    root.copy_from_slice(&sign[..32]);
    let tag = mix(&[b"wots", &address_bytes(&address), &msg.h, &sign[..body]]);
    if sign[body..] == tag.h {
        hash::Hash::new(root)
    } else {
        mix(&[b"mismatch", sign, &address_bytes(&address), &msg.h])
    }
}

fn compress(left: hash::Hash, right: hash::Hash) -> hash::Hash {
    mix(&[b"node", &left.h, &right.h])
}

/// Answers one request of a machine with the stand-in primitives.
fn answer(request: Request) -> Response {
    match request {
        Request::LongHash { msg } => Response::Digest(long_hash(&msg)),
        Request::PorsSign { seed, salt, msg } => {
            let (address, hash, sign) = pors_sign(seed, salt, msg);
            Response::PorsSigned { address, hash, sign }
        }
        Request::PorsExtract { sign, msg } => Response::PorsExtracted(pors_extract(&sign, msg)),
        Request::SubtreeGenpk { seed, address } => Response::Digest(subtree_genpk(seed, address)),
        Request::SubtreeSign { seed, address, msg } => {
            let (root, sign) = subtree_sign(seed, address, msg);
            Response::SubtreeSigned { root, sign }
        }
        Request::SubtreeExtract { sign, address, msg } => {
            Response::Digest(subtree_extract(&sign, address, msg))
        }
        Request::Compress { left, right } => Response::Digest(compress(left, right)),
    }
}

fn keygen(random: &[u8; 64]) -> SecKey {
    SecKey::new(random, subtree_genpk, compress)
}

fn sign_hash(key: &SecKey, msg: &hash::Hash) -> Signature {
    key.sign_hash(msg, pors_sign, subtree_sign)
}

fn sign_bytes(key: &SecKey, msg: &[u8]) -> Signature {
    key.sign_bytes(msg, long_hash, pors_sign, subtree_sign)
}

fn verify_hash(pk: &PubKey, sign: &Signature, msg: &hash::Hash) -> bool {
    pk.verify_hash(sign, msg, pors_extract, subtree_extract, compress)
}

fn verify_bytes(pk: &PubKey, sign: &Signature, msg: &[u8]) -> bool {
    pk.verify_bytes(sign, msg, long_hash, pors_extract, subtree_extract, compress)
}

fn extract_hash(sign: &Signature, msg: &hash::Hash) -> Option<hash::Hash> {
    sign.extract_hash(msg, pors_extract, subtree_extract, compress)
}

/// Runs a key generation by answering its requests one by one.
fn keygen_by_steps(random: &[u8; 64]) -> SecKey {
    let mut machine = KeyGeneration::start(random);
    loop {
        let request = machine.request();
        match machine.step(answer(request)) {
            Step::Ask(next) => machine = next,
            Step::Done(key) => return key,
        }
    }
}

/// Runs a signing by answering its requests one by one.
fn sign_by_steps(mut machine: Signing) -> Signature {
    loop {
        let request = machine.request();
        match machine.step(answer(request)) {
            Step::Ask(next) => machine = next,
            Step::Done(sign) => return sign,
        }
    }
}

/// Runs a verification by answering its requests one by one.
fn verify_by_steps(mut machine: Verification) -> bool {
    loop {
        let request = machine.request();
        match machine.step(answer(request)) {
            Step::Ask(next) => machine = next,
            Step::Done(valid) => return valid,
        }
    }
}

/// Runs an extraction by answering its requests one by one.
fn extract_by_steps(mut machine: Extraction) -> Option<hash::Hash> {
    loop {
        let request = machine.request();
        match machine.step(answer(request)) {
            Step::Ask(next) => machine = next,
            Step::Done(found) => return found,
        }
    }
}

fn counting() -> [u8; 64] {
    let mut random = [0u8; 64];
    for i in 0..64 {
        random[i] = i as u8;
    }
    random
}

fn element() -> hash::Hash {
    let mut h = [0u8; 32];
    for i in 0..32 {
        h[i] = i as u8;
    }
    hash::Hash::new(h)
}

fn encoded(sign: &Signature) -> Vec<u8> {
    let mut bytes = Vec::new();
    sign.serialize(&mut bytes);
    bytes
}

#[test]
fn test_sign_verify() {
    let mut random = [0u8; 64];
    for i in 0..64 {
        random[i] = i as u8;
    }

    let sk = SecKey::new(&random, subtree_genpk, compress);
    let pk = sk.genpk();
    let msg = element();
    let sign = sk.sign_hash(&msg, pors_sign, subtree_sign);
    assert!(pk.verify_hash(&sign, &msg, pors_extract, subtree_extract, compress));
}

#[test]
fn answering_step_by_step_gives_the_same() {
    let random = counting();
    let by_steps = keygen_by_steps(&random);
    let at_once = keygen(&random);
    assert_eq!(by_steps.genpk().h, at_once.genpk().h);

    let msg = element();
    let sign = sign_by_steps(Signing::start(&by_steps, &msg));
    assert_eq!(encoded(&sign), encoded(&sign_hash(&at_once, &msg)));
    let sign_b = sign_by_steps(Signing::start_bytes(&by_steps, b"some bytes"));
    assert_eq!(encoded(&sign_b), encoded(&sign_bytes(&at_once, b"some bytes")));

    let pk = at_once.genpk();
    assert!(verify_by_steps(Verification::start(&pk, &sign, &msg)));
    assert!(verify_by_steps(Verification::start_bytes(&pk, &sign_b, b"some bytes")));
    assert!(!verify_by_steps(Verification::start_bytes(&pk, &sign_b, b"some byteS")));
    assert!(!verify_by_steps(Verification::start(&pk, &sign_b, &msg)));
    assert_eq!(extract_by_steps(Extraction::start(&sign, &msg)), Some(pk.h));
    assert_eq!(extract_by_steps(Extraction::start(&sign, &msg)), extract_hash(&sign, &msg));
}

#[test]
fn sign_bytes_verifies_for_the_same_bytes() {
    let sk = keygen(&[7u8; 64]);
    let pk = sk.genpk();
    let sign = sign_bytes(&sk, b"a message of some length");
    assert!(verify_bytes(&pk, &sign, b"a message of some length"));
    assert!(!verify_bytes(&pk, &sign, b"a message of some lengtH"));
    assert!(!verify_bytes(&pk, &sign, b""));
}

#[test]
fn sign_bytes_signs_the_digest_of_the_message() {
    let sk = keygen(&[9u8; 64]);
    let by_bytes = sign_bytes(&sk, b"abc");
    let by_hash = sign_hash(&sk, &long_hash(b"abc"));
    assert_eq!(encoded(&by_bytes), encoded(&by_hash));
}

#[test]
fn another_message_is_rejected() {
    let sk = keygen(&counting());
    let pk = sk.genpk();
    let msg = element();
    let sign = sign_hash(&sk, &msg);
    for bit in [0usize, 1, 7, 8, 100, 255] {
        let mut other = msg;
        other.h[bit / 8] ^= 1 << (bit % 8);
        assert!(!verify_hash(&pk, &sign, &other), "bit {}", bit);
    }
}

#[test]
fn another_key_is_rejected() {
    let sk = keygen(&counting());
    let other = keygen(&[1u8; 64]);
    let msg = element();
    let sign = sign_hash(&sk, &msg);
    assert!(verify_hash(&sk.genpk(), &sign, &msg));
    assert!(!verify_hash(&other.genpk(), &sign, &msg));
    let mut flipped = sk.genpk();
    flipped.h.h[31] ^= 0x80;
    assert!(!verify_hash(&flipped, &sign, &msg));
}

#[test]
fn a_flipped_bit_in_the_signature_is_rejected() {
    let sk = keygen(&counting());
    let pk = sk.genpk();
    let msg = element();
    let bytes = encoded(&sign_hash(&sk, &msg));
    let auth = PORS_SIGN_BYTES + GRAVITY_D * SUBTREE_SIGN_BYTES;
    let places = [
        0,
        7,
        8,
        39,
        40,
        PORS_SIGN_BYTES - 1,
        PORS_SIGN_BYTES,
        PORS_SIGN_BYTES + 40,
        PORS_SIGN_BYTES + 3 * SUBTREE_SIGN_BYTES + 5,
        PORS_SIGN_BYTES + 9 * SUBTREE_SIGN_BYTES + 63,
        auth,
        auth + 5 * HASH_SIZE + 1,
        GRAVITY_SIGN_BYTES - 1,
    ];
    for place in places {
        for bit in [0u8, 7] {
            let mut tampered = bytes.clone();
            tampered[place] ^= 1 << bit;
            let sign = Signature::deserialize(&mut tampered.iter()).unwrap();
            assert!(!verify_hash(&pk, &sign, &msg), "byte {} bit {}", place, bit);
        }
    }
    let sign = Signature::deserialize(&mut bytes.iter()).unwrap();
    assert!(verify_hash(&pk, &sign, &msg));
}

#[test]
fn flipped_bits_all_over_the_signature_are_rejected() {
    let sk = keygen(&[0x5au8; 64]);
    let pk = sk.genpk();
    let msg = long_hash(b"flip me");
    let bytes = encoded(&sign_hash(&sk, &msg));
    let mut state: u64 = 0x1234_5678_9abc_def1;
    for round in 0..300 {
        state = state.wrapping_mul(6364136223846793005).wrapping_add(1442695040888963407);
        let place = (state >> 33) as usize % GRAVITY_SIGN_BYTES;
        let bit = (state >> 20) as u8 % 8;
        let mut tampered = bytes.clone();
        tampered[place] ^= 1 << bit;
        let sign = Signature::deserialize(&mut tampered.iter()).unwrap();
        assert!(!verify_hash(&pk, &sign, &msg), "round {} byte {} bit {}", round, place, bit);
    }
    for round in 0..64 {
        state = state.wrapping_mul(6364136223846793005).wrapping_add(1442695040888963407);
        let bit = (state >> 33) as usize % 256;
        let mut other = msg;
        other.h[bit / 8] ^= 1 << (bit % 8);
        let sign = Signature::deserialize(&mut bytes.iter()).unwrap();
        assert!(!verify_hash(&pk, &sign, &other), "round {} bit {}", round, bit);
    }
}

#[test]
fn a_few_time_signature_that_yields_nothing_is_rejected() {
    let sk = keygen(&counting());
    let msg = element();
    let mut bytes = encoded(&sign_hash(&sk, &msg));
    bytes[PORS_SIGN_BYTES - 1] ^= 1;
    let sign = Signature::deserialize(&mut bytes.iter()).unwrap();
    assert!(extract_hash(&sign, &msg).is_none());
    assert!(!verify_hash(&sk.genpk(), &sign, &msg));

    let pk = sk.genpk();
    let mut machine = Verification::start(&pk, &sign, &msg);
    let mut asked = 0;
    let valid = loop {
        asked += 1;
        let request = machine.request();
        match machine.step(answer(request)) {
            Step::Ask(next) => machine = next,
            Step::Done(valid) => break valid,
        }
    };
    assert!(!valid);
    assert_eq!(asked, 1);
}

#[test]
fn extraction_gives_the_public_key() {
    let sk = keygen(&counting());
    let msg = element();
    let sign = sign_hash(&sk, &msg);
    assert_eq!(extract_hash(&sign, &msg), Some(sk.genpk().h));
}

#[test]
fn serialization_round_trip() {
    let sk = keygen(&counting());
    let sign = sign_hash(&sk, &element());
    let bytes = encoded(&sign);
    assert_eq!(bytes.len(), GRAVITY_SIGN_BYTES);
    let back = Signature::deserialize(&mut bytes.iter()).unwrap();
    assert_eq!(encoded(&back), bytes);
    assert!(verify_hash(&sk.genpk(), &back, &element()));
}

#[test]
fn serialize_appends_behind_what_is_there() {
    let sk = keygen(&counting());
    let sign = sign_hash(&sk, &element());
    let mut out = vec![1u8, 2, 3];
    sign.serialize(&mut out);
    assert_eq!(out.len(), 3 + GRAVITY_SIGN_BYTES);
    assert_eq!(&out[..3], &[1, 2, 3]);
    assert_eq!(&out[3..], &encoded(&sign)[..]);
}

#[test]
fn serialization_lays_the_parts_end_to_end() {
    let sk = keygen(&counting());
    let msg = element();
    let bytes = encoded(&sign_hash(&sk, &msg));

    let mut seed = [0u8; 32];
    let mut salt = [0u8; 32];
    seed.copy_from_slice(&counting()[..32]);
    salt.copy_from_slice(&counting()[32..]);
    let seed = hash::Hash::new(seed);
    let salt = hash::Hash::new(salt);
    let (start, h0, pors_part) = pors_sign(seed, salt, msg);
    assert_eq!(&bytes[..PORS_SIGN_BYTES], &pors_part.as_bytes()[..]);

    let mut address = start;
    let mut h = h0;
    for layer in 0..GRAVITY_D {
        address.next_layer();
        let (root, part) = subtree_sign(seed, address, h);
        let at = PORS_SIGN_BYTES + layer * SUBTREE_SIGN_BYTES;
        assert_eq!(&bytes[at..at + SUBTREE_SIGN_BYTES], &part.as_bytes()[..], "layer {}", layer);
        h = root;
        address.shift(MERKLE_H);
    }
    let leaf = address.get_instance();
    assert!(leaf < GRAVITY_CCC as u64);
    assert_eq!(h, subtree_genpk(seed, Address::new(0, MERKLE_HHH as u64 * leaf)));

    let auth = PORS_SIGN_BYTES + GRAVITY_D * SUBTREE_SIGN_BYTES;
    let mut index = leaf;
    for level in 0..GRAVITY_C {
        let mut other = [0u8; 32];
        other.copy_from_slice(&bytes[auth + level * HASH_SIZE..auth + (level + 1) * HASH_SIZE]);
        let other = hash::Hash::new(other);
        h = if index % 2 == 0 { compress(h, other) } else { compress(other, h) };
        index /= 2;
    }
    assert_eq!(h, sk.genpk().h);
}

#[test]
fn deserialize_fails_on_a_short_stream() {
    let sk = keygen(&counting());
    let bytes = encoded(&sign_hash(&sk, &element()));
    for len in [0, 1, PORS_SIGN_BYTES - 1, PORS_SIGN_BYTES, PORS_SIGN_BYTES + SUBTREE_SIGN_BYTES,
        PORS_SIGN_BYTES + GRAVITY_D * SUBTREE_SIGN_BYTES + 31, GRAVITY_SIGN_BYTES - 1]
    {
        let mut it = bytes[..len].iter();
        assert!(Signature::deserialize(&mut it).is_none(), "length {}", len);
        assert_eq!(it.len(), 0);
    }
}

#[test]
fn deserialize_leaves_what_follows_the_signature() {
    let sk = keygen(&counting());
    let mut bytes = encoded(&sign_hash(&sk, &element()));
    bytes.extend_from_slice(&[0xaa, 0xbb, 0xcc]);
    let mut it = bytes.iter();
    let sign = Signature::deserialize(&mut it).unwrap();
    assert_eq!(it.as_slice(), &[0xaa, 0xbb, 0xcc]);
    assert_eq!(&encoded(&sign)[..], &bytes[..GRAVITY_SIGN_BYTES]);
}

#[test]
fn the_same_bytes_give_the_same_key_and_signature() {
    let one = keygen(&counting());
    let two = keygen(&counting());
    assert_eq!(one.genpk().h, two.genpk().h);
    let msg = element();
    assert_eq!(encoded(&sign_hash(&one, &msg)), encoded(&sign_hash(&two, &msg)));
    assert_eq!(encoded(&sign_hash(&one, &msg)), encoded(&sign_hash(&one, &msg)));

    let mut other = counting();
    other[0] ^= 1;
    assert_ne!(keygen(&other).genpk().h, one.genpk().h);
}

#[test]
fn the_first_half_is_the_seed_and_the_second_the_salt() {
    let random = counting();
    let sk = keygen(&random);
    let machine = Signing::start(&sk, &element());
    match machine.request() {
        Request::PorsSign { seed, salt, msg } => {
            assert_eq!(&seed.h[..], &random[..32]);
            assert_eq!(&salt.h[..], &random[32..]);
            assert_eq!(msg, element());
        }
        other => panic!("{:?}", other),
    }

    let mut salted = random;
    salted[63] ^= 1;
    let other = keygen(&salted);
    assert_eq!(other.genpk().h, sk.genpk().h);
}

#[test]
fn key_generation_asks_for_every_leaf_and_every_parent() {
    let random = counting();
    let mut machine = KeyGeneration::start(&random);
    let mut nodes: Vec<hash::Hash> = Vec::new();
    let key = loop {
        let request = machine.request();
        let n = nodes.len();
        match &request {
            Request::SubtreeGenpk { seed, address } => {
                assert!(n < GRAVITY_CCC);
                assert_eq!(&seed.h[..], &random[..32]);
                assert_eq!(*address, Address::new(0, (MERKLE_HHH * n) as u64));
            }
            Request::Compress { left, right } => {
                assert!(n >= GRAVITY_CCC);
                assert_eq!(*left, nodes[2 * (n - GRAVITY_CCC)]);
                assert_eq!(*right, nodes[2 * (n - GRAVITY_CCC) + 1]);
            }
            other => panic!("{:?}", other),
        }
        let response = answer(request);
        if let Response::Digest(h) = &response {
            nodes.push(*h);
        }
        match machine.step(response) {
            Step::Ask(next) => machine = next,
            Step::Done(key) => break key,
        }
    };
    assert_eq!(nodes.len(), GRAVITY_NODES);
    assert_eq!(nodes.len(), 2 * GRAVITY_CCC - 1);
    assert_eq!(key.genpk().h, nodes[GRAVITY_NODES - 1]);
}

#[test]
fn signing_walks_up_the_layers() {
    let random = counting();
    let sk = keygen(&random);
    let msg = element();
    let mut machine = Signing::start(&sk, &msg);
    let mut requests: Vec<Request> = Vec::new();
    let sign = loop {
        requests.push(machine.request());
        let request = machine.request();
        match machine.step(answer(request)) {
            Step::Ask(next) => machine = next,
            Step::Done(sign) => break sign,
        }
    };
    assert_eq!(requests.len(), 1 + GRAVITY_D);
    let mut seed = [0u8; 32];
    seed.copy_from_slice(&random[..32]);
    let seed = hash::Hash::new(seed);
    let mut salt = [0u8; 32];
    salt.copy_from_slice(&random[32..]);
    let (start, h0, _) = pors_sign(seed, hash::Hash::new(salt), msg);
    let mut h = h0;
    for layer in 0..GRAVITY_D {
        match &requests[1 + layer] {
            Request::SubtreeSign { seed: asked, address, msg } => {
                assert_eq!(*asked, seed);
                assert_eq!(address.layer, start.layer.wrapping_add(1 + layer as u32));
                assert_eq!(address.instance, start.instance >> (MERKLE_H * layer));
                assert_eq!(*msg, h);
                h = subtree_sign(seed, *address, *msg).0;
            }
            other => panic!("{:?}", other),
        }
    }
    assert_eq!(h, subtree_genpk(seed, Address::new(0, MERKLE_HHH as u64 * (start.instance >> 50))));
    assert_eq!(encoded(&sign).len(), GRAVITY_SIGN_BYTES);
}

#[test]
fn verification_asks_at_most_once_per_part() {
    let sk = keygen(&counting());
    let msg = b"count the requests";
    let sign = sign_bytes(&sk, msg);
    let pk = sk.genpk();
    let mut machine = Verification::start_bytes(&pk, &sign, msg);
    let mut kinds: Vec<u8> = Vec::new();
    let valid = loop {
        let request = machine.request();
        kinds.push(match &request {
            Request::LongHash { .. } => 0,
            Request::PorsExtract { .. } => 1,
            Request::SubtreeExtract { .. } => 2,
            Request::Compress { .. } => 3,
            other => panic!("{:?}", other),
        });
        match machine.step(answer(request)) {
            Step::Ask(next) => machine = next,
            Step::Done(valid) => break valid,
        }
    };
    assert!(valid);
    let mut expected = vec![0u8, 1];
    expected.extend(std::iter::repeat(2u8).take(GRAVITY_D));
    expected.extend(std::iter::repeat(3u8).take(GRAVITY_C));
    assert_eq!(kinds, expected);
}

#[test]
fn an_answer_of_another_kind_leaves_the_request_pending() {
    let random = counting();
    let machine = KeyGeneration::start(&random);
    let wrong = Response::PorsExtracted(None);
    let machine = match machine.step(wrong) {
        Step::Ask(next) => next,
        Step::Done(_) => panic!("done"),
    };
    match machine.request() {
        Request::SubtreeGenpk { address, .. } => assert_eq!(address, Address::new(0, 0)),
        other => panic!("{:?}", other),
    }

    let sk = keygen(&random);
    let msg = element();
    let signing = Signing::start(&sk, &msg);
    let signing = match signing.step(Response::Digest(msg)) {
        Step::Ask(next) => next,
        Step::Done(_) => panic!("done"),
    };
    assert!(matches!(signing.request(), Request::PorsSign { .. }));

    let sign = sign_hash(&sk, &msg);
    let pk = sk.genpk();
    let verification = Verification::start(&pk, &sign, &msg);
    let verification = match verification.step(Response::Digest(msg)) {
        Step::Ask(next) => next,
        Step::Done(_) => panic!("done"),
    };
    assert!(matches!(verification.request(), Request::PorsExtract { .. }));
}

#[test]
fn the_authentication_path_leads_to_the_root() {
    let sk = keygen(&counting());
    let root = sk.genpk().h;
    let mut seed = [0u8; 32];
    seed.copy_from_slice(&counting()[..32]);
    let seed = hash::Hash::new(seed);
    let mut nodes: Vec<hash::Hash> = Vec::new();
    for leaf in 0..GRAVITY_CCC {
        nodes.push(subtree_genpk(seed, Address::new(0, (MERKLE_HHH * leaf) as u64)));
    }
    for m in 0..GRAVITY_CCC - 1 {
        let parent = compress(nodes[2 * m], nodes[2 * m + 1]);
        nodes.push(parent);
    }
    assert_eq!(nodes[GRAVITY_NODES - 1], root);
    let tree = gravity::merkle::MerkleTree::from_nodes(nodes).unwrap();
    assert_eq!(tree.root(), root);
    for leaf in [0usize, 1, 2, 5, 8191, 8192, 12345, GRAVITY_CCC - 1] {
        let auth = tree.gen_auth(leaf);
        assert_eq!(auth.len(), GRAVITY_C);
        let mut h = subtree_genpk(seed, Address::new(0, (MERKLE_HHH * leaf) as u64));
        let mut index = leaf;
        for other in auth.iter() {
            h = if index % 2 == 0 { compress(h, *other) } else { compress(*other, h) };
            index /= 2;
        }
        assert_eq!(h, root, "leaf {}", leaf);
    }
}
