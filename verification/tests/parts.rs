//! The small parts: parameters, digests, addresses, the held encodings and
//! the tree.

use gravity::address::Address;
use gravity::config::{
    GRAVITY_C, GRAVITY_CCC, GRAVITY_D, GRAVITY_NODES, GRAVITY_SIGN_BYTES, HASH_SIZE, MERKLE_H,
    MERKLE_HHH, PORS_SIGN_BYTES, SUBTREE_SIGN_BYTES,
};
use gravity::hash;
use gravity::merkle::MerkleTree;
use gravity::pors;
use gravity::subtree;
use gravity::wire::{copy_bytes, put_bytes, take_bytes};

fn counting_hash(from: u8) -> hash::Hash {
    let mut h = [0u8; 32];
    for i in 0..32 {
        h[i] = from.wrapping_add(i as u8);
    }
    hash::Hash::new(h)
}

#[test]
fn the_parameters_fit_together() {
    assert_eq!(MERKLE_HHH, 1 << MERKLE_H);
    assert_eq!(GRAVITY_CCC, 1 << GRAVITY_C);
    assert_eq!(GRAVITY_NODES, 2 * GRAVITY_CCC - 1);
    assert_eq!(GRAVITY_C + GRAVITY_D * MERKLE_H, 64);
    assert_eq!(
        GRAVITY_SIGN_BYTES,
        PORS_SIGN_BYTES + GRAVITY_D * SUBTREE_SIGN_BYTES + GRAVITY_C * HASH_SIZE
    );
    assert_eq!(GRAVITY_SIGN_BYTES, 35168);
    assert_eq!(HASH_SIZE, 32);
}

#[test]
fn hash_serializes_as_its_bytes() {
    let hash = counting_hash(0);
    let mut out: Vec<u8> = vec![0xff];
    hash.serialize(&mut out);
    assert_eq!(out.len(), 33);
    assert_eq!(out[0], 0xff);
    assert_eq!(&out[1..], &hash.h[..]);
}

#[test]
fn hash_deserializes_from_32_bytes() {
    let bytes: Vec<u8> = (0u8..40).collect();
    let mut it = bytes.iter();
    let hash = hash::Hash::deserialize(&mut it).unwrap();
    assert_eq!(hash, counting_hash(0));
    assert_eq!(it.as_slice(), &[32, 33, 34, 35, 36, 37, 38, 39]);
    assert!(hash::Hash::deserialize(&mut it).is_none());
    assert_eq!(it.len(), 0);
    let mut short = bytes[..31].iter();
    assert!(hash::Hash::deserialize(&mut short).is_none());
    let mut exact = bytes[..32].iter();
    assert_eq!(hash::Hash::deserialize(&mut exact), Some(counting_hash(0)));
}

#[test]
fn hashes_are_equal_when_their_bytes_are() {
    assert!(counting_hash(3) == counting_hash(3));
    assert!(counting_hash(3) != counting_hash(4));
    let mut last = counting_hash(3);
    last.h[31] ^= 1;
    assert!(last != counting_hash(3));
    let bytes: Vec<u8> = (5u8..37).collect();
    assert_eq!(hash::Hash::from_bytes(&bytes), counting_hash(5));
}

#[test]
fn next_layer_counts_up_and_wraps() {
    let mut address = Address::new(0, 77);
    address.next_layer();
    assert_eq!(address, Address::new(1, 77));
    let mut address = Address::new(u32::MAX - 1, 5);
    address.next_layer();
    assert_eq!(address, Address::new(u32::MAX, 5));
    address.next_layer();
    assert_eq!(address, Address::new(0, 5));
}

#[test]
fn shift_drops_the_place_within_the_subtree() {
    let mut address = Address::new(3, 0xffff_ffff_ffff_ffff);
    address.shift(MERKLE_H);
    assert_eq!(address, Address::new(3, 0x07ff_ffff_ffff_ffff));
    let mut address = Address::new(3, 1000);
    address.shift(MERKLE_H);
    assert_eq!(address.get_instance(), 31);
    address.shift(0);
    assert_eq!(address.get_instance(), 31);
    address.shift(63);
    assert_eq!(address.get_instance(), 0);
    let mut address = Address::new(9, u64::MAX);
    for _ in 0..GRAVITY_D {
        address.shift(MERKLE_H);
    }
    assert_eq!(address.get_instance(), GRAVITY_CCC as u64 - 1);
    assert_eq!(address.layer, 9);
}

#[test]
fn a_held_signature_has_its_width() {
    assert!(pors::Signature::from_bytes(vec![1u8; PORS_SIGN_BYTES - 1]).is_none());
    assert!(pors::Signature::from_bytes(vec![1u8; PORS_SIGN_BYTES + 1]).is_none());
    assert!(pors::Signature::from_bytes(Vec::new()).is_none());
    let sign = pors::Signature::from_bytes(vec![1u8; PORS_SIGN_BYTES]).unwrap();
    assert_eq!(sign.as_bytes(), &vec![1u8; PORS_SIGN_BYTES]);
    assert_eq!(sign.duplicate().as_bytes(), sign.as_bytes());

    assert!(subtree::Signature::from_bytes(vec![2u8; SUBTREE_SIGN_BYTES - 1]).is_none());
    assert!(subtree::Signature::from_bytes(vec![2u8; PORS_SIGN_BYTES]).is_none());
    let sign = subtree::Signature::from_bytes(vec![2u8; SUBTREE_SIGN_BYTES]).unwrap();
    assert_eq!(sign.as_bytes().len(), SUBTREE_SIGN_BYTES);
    assert_eq!(sign.duplicate().as_bytes(), sign.as_bytes());
}

#[test]
fn a_held_signature_serializes_as_its_bytes() {
    let bytes: Vec<u8> = (0..SUBTREE_SIGN_BYTES).map(|i| (i % 251) as u8).collect();
    let sign = subtree::Signature::from_bytes(bytes.clone()).unwrap();
    let mut out = vec![9u8];
    sign.serialize(&mut out);
    assert_eq!(out[0], 9);
    assert_eq!(&out[1..], &bytes[..]);
    let mut it = out[1..].iter();
    let back = subtree::Signature::deserialize(&mut it).unwrap();
    assert_eq!(back.as_bytes(), &bytes);
    assert_eq!(it.len(), 0);
    let mut short = bytes[..SUBTREE_SIGN_BYTES - 1].iter();
    assert!(subtree::Signature::deserialize(&mut short).is_none());

    let bytes: Vec<u8> = (0..PORS_SIGN_BYTES + 2).map(|i| (i % 241) as u8).collect();
    let mut it = bytes.iter();
    let sign = pors::Signature::deserialize(&mut it).unwrap();
    assert_eq!(&sign.as_bytes()[..], &bytes[..PORS_SIGN_BYTES]);
    assert_eq!(it.len(), 2);
    let mut out = Vec::new();
    sign.serialize(&mut out);
    assert_eq!(&out[..], &bytes[..PORS_SIGN_BYTES]);
    assert!(pors::Signature::deserialize(&mut it).is_none());
    assert_eq!(it.len(), 0);
}

#[test]
fn bytes_are_taken_in_order() {
    let bytes = [1u8, 2, 3, 4, 5];
    let mut it = bytes.iter();
    assert_eq!(take_bytes(&mut it, 2), Some(vec![1, 2]));
    assert_eq!(take_bytes(&mut it, 0), Some(vec![]));
    assert_eq!(take_bytes(&mut it, 3), Some(vec![3, 4, 5]));
    assert_eq!(take_bytes(&mut it, 1), None);
    let mut it = bytes.iter();
    assert_eq!(take_bytes(&mut it, 6), None);
    assert_eq!(it.len(), 0);

    let mut out = vec![7u8];
    put_bytes(&mut out, &vec![8, 9]);
    assert_eq!(out, vec![7, 8, 9]);
    assert_eq!(copy_bytes(&out), out);
}

#[test]
fn a_tree_has_all_its_nodes() {
    assert!(MerkleTree::from_nodes(Vec::new()).is_none());
    assert!(MerkleTree::from_nodes(vec![counting_hash(0); GRAVITY_NODES - 1]).is_none());
    assert!(MerkleTree::from_nodes(vec![counting_hash(0); GRAVITY_NODES + 1]).is_none());
    let mut nodes = vec![counting_hash(0); GRAVITY_NODES];
    nodes[GRAVITY_NODES - 1] = counting_hash(9);
    let tree = MerkleTree::from_nodes(nodes).unwrap();
    assert_eq!(tree.root(), counting_hash(9));
}

#[test]
fn the_authentication_path_holds_the_siblings() {
    let mut nodes = vec![counting_hash(0); GRAVITY_NODES];
    for (n, node) in nodes.iter_mut().enumerate() {
        node.h[0] = (n % 256) as u8;
        node.h[1] = (n / 256) as u8;
        node.h[2] = 0x55;
    }
    let place = |h: &hash::Hash| h.h[0] as usize + 256 * h.h[1] as usize;
    let tree = MerkleTree::from_nodes(nodes).unwrap();

    let auth = tree.gen_auth(0);
    let places: Vec<usize> = auth.iter().map(place).collect();
    assert_eq!(
        places,
        vec![1, 16385, 24577, 28673, 30721, 31745, 32257, 32513, 32641, 32705, 32737, 32753,
            32761, 32765]
    );

    let auth = tree.gen_auth(GRAVITY_CCC - 1);
    let places: Vec<usize> = auth.iter().map(place).collect();
    assert_eq!(
        places,
        vec![16382, 24574, 28670, 30718, 31742, 32254, 32510, 32638, 32702, 32734, 32750,
            32758, 32762, 32764]
    );

    let auth = tree.gen_auth(5);
    let places: Vec<usize> = auth.iter().map(place).collect();
    assert_eq!(places[0], 4);
    assert_eq!(places[1], 16384 + 3);
    assert_eq!(places[2], 16384 + 8192 + 0);
    assert_eq!(places[3], 16384 + 8192 + 4096 + 1);
    assert_eq!(places.len(), GRAVITY_C);
}
