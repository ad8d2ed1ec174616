//! Stateless hash-based signatures over a hypertree: a few-time signature at
//! the bottom, a chain of one-time subtree signatures above it, and a Merkle
//! tree over the first layer's subtree keys at the top.
//!
//! This crate is the hypertree alone. It decides which key signs what, at
//! which address, in which order, and how a signature is laid out in bytes.
//! The digests and the two signature schemes under it belong to the caller,
//! and reach the hypertree in one of two ways.
//!
//! Handed in as functions: [`gravity::SecKey::new`],
//! [`gravity::SecKey::sign_hash`], [`gravity::PubKey::verify_bytes`] and
//! their like take each primitive they need as a function and return the
//! key, the signature or the verdict.
//!
//! ```text
//! let sk = SecKey::new(&random, subtree_genpk, compress);
//! let pk = sk.genpk();
//! let sign = sk.sign_bytes(msg, long_hash, pors_sign, subtree_sign);
//! assert!(pk.verify_bytes(&sign, msg, long_hash, pors_extract, subtree_extract, compress));
//! ```
//!
//! Asked for one at a time: every operation is also a machine
//! ([`keygen::KeyGeneration`], [`signing::Signing`],
//! [`extraction::Extraction`], [`verification::Verification`]) that names
//! what it needs next as a [`primitives::Request`] and goes on with the
//! [`primitives::Response`], for callers whose primitives are no plain
//! functions.
//!
//! ```text
//! let mut machine = KeyGeneration::start(&random);
//! let sk = loop {
//!     let request = machine.request();
//!     match machine.step(answer(request)) {
//!         Step::Ask(next) => machine = next,
//!         Step::Done(key) => break key,
//!     }
//! };
//! ```
//!
//! What each operation yields is stated over the primitives seen as
//! mathematical functions ([`primitives::Primitives`]): `generated`,
//! `signed`, `extracted`, `verified`. [`laws`] holds what is true of the
//! operations together.

pub mod config;
pub mod wire;
pub mod hash;
pub mod address;
pub mod pors;
pub mod subtree;
pub mod merkle;
pub mod primitives;
pub mod gravity;
pub mod keygen;
pub mod signing;
pub mod extraction;
pub mod verification;
pub mod laws;
