//! Core of a signing daemon for a payment-channel node: it loads the master
//! key record, derives per-channel keysets, signs PSBTs and decides how each
//! control request is answered.
//!
//! - `keyfile`: the master key record and its binary layout.
//! - `xpriv`: extended private keys in their BIP32 serialization.
//! - `provider`: the signing accounts and the signing of transactions.
//! - `derivation`: from a channel identifier to the keyset of the channel.
//! - `runtime`: the handler of control requests.
//! - `bytes`: integers in byte strings.
//!
//! Key derivation, signing and the keeping of accounts are the work of the
//! `bitcoin`, `descriptor-wallet` and `lnp-core` crates. What is taken from
//! them without proof is marked "Trusted" where it is declared.

pub mod bytes;
pub mod derivation;
pub mod keyfile;
pub mod provider;
pub mod runtime;
pub mod xpriv;
