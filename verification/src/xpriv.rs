//! Extended private keys, held as their 78-byte BIP32 serialization.

use bitcoin::util::bip32::ExtendedPrivKey;
use strict_encoding::StrictDecode;
use vstd::prelude::*;

verus! {

/// Length of a serialized extended key.
pub const KEY_LEN: usize = 78;

/// The value of a byte string read as a big-endian integer.
pub open spec fn be_nat(s: Seq<u8>) -> nat
    decreases s.len(),
{
    if s.len() == 0 {
        0
    } else {
        be_nat(s.drop_last()) * 256 + s.last() as nat
    }
}

/// Order of the secp256k1 group.
pub open spec fn curve_order() -> nat {
    0xFFFFFFFF_FFFFFFFF_FFFFFFFF_FFFFFFFE_BAAEDCE6_AF48A03B_BFD25E8C_D0364141nat
}

/// A secret key is 32 bytes whose big-endian value is neither zero nor
/// reaches the group order.
pub open spec fn valid_secret_key(s: Seq<u8>) -> bool {
    s.len() == 32 && 0 < be_nat(s) < curve_order()
}

/// The version bytes of a private key on the main network.
pub open spec fn mainnet_version() -> Seq<u8> {
    seq![0x04u8, 0x88u8, 0xADu8, 0xE4u8]
}

/// The version bytes of a private key on a test network.
pub open spec fn testnet_version() -> Seq<u8> {
    seq![0x04u8, 0x35u8, 0x83u8, 0x94u8]
}

/// What a decoder accepts: 78 bytes that open with a known version and close
/// with a valid secret key. Depth, parent fingerprint, child number, chain
/// code and the pad byte at offset 45 are free.
pub open spec fn valid_key_encoding(s: Seq<u8>) -> bool {
    &&& s.len() == 78
    &&& (s.subrange(0, 4) == mainnet_version() || s.subrange(0, 4) == testnet_version())
    &&& valid_secret_key(s.subrange(46, 78))
}

/// The serialization that an encoder writes for the key that `s` holds: the
/// same bytes with the pad byte cleared.
pub open spec fn canonical(s: Seq<u8>) -> Seq<u8> {
    s.update(45, 0u8)
}

/// A valid encoding in the form an encoder writes it.
pub open spec fn canonical_key(s: Seq<u8>) -> bool {
    valid_key_encoding(s) && s[45] == 0
}

/// The derivation depth recorded in a serialized key.
pub open spec fn key_depth(s: Seq<u8>) -> int {
    s[4] as int
}

/// Calls `ExtendedPrivKey::strict_decode` of `strict_encoding` on the 78
/// bytes and `ExtendedPrivKey::encode` of `bitcoin` on the key it gives.
///
/// Trusted: the decoder (through `ExtendedPrivKey::decode`) accepts exactly
/// the encodings with a known version whose last 32 bytes pass
/// `SecretKey::from_slice`, which libsecp256k1 documents as a non-zero
/// big-endian value below the group order; the encoder writes back every
/// field as it was read and a zero at offset 45.
#[verifier::external_body]
fn strict_decode_key(bytes: &[u8]) -> (r: Option<[u8; 78]>)
    requires
        bytes@.len() == 78,
    ensures
        r is Some <==> valid_key_encoding(bytes@),
        r matches Some(b) ==> b@ == canonical(bytes@),
{
    match ExtendedPrivKey::strict_decode(bytes) {
        Ok(key) => Some(key.encode()),
        Err(_) => None,
    }
}

/// An extended private key that a BIP32 decoder accepts, in canonical
/// serialization.
#[derive(Clone, Copy, Debug, PartialEq, Eq)]
pub struct ExtendedKey {
    bytes: [u8; 78],
}

impl View for ExtendedKey {
    type V = Seq<u8>;

    closed spec fn view(&self) -> Seq<u8> {
        self.bytes@
    }
}

impl ExtendedKey {
    #[verifier::type_invariant]
    closed spec fn inv(self) -> bool {
        canonical_key(self.bytes@)
    }

    /// Reads a serialized key. It is accepted exactly when the encoding is
    /// valid, and then held in canonical form.
    pub fn decode(bytes: &[u8]) -> (r: Option<ExtendedKey>)
        ensures
            r is Some <==> valid_key_encoding(bytes@),
            r matches Some(key) ==> key@ == canonical(bytes@),
    {
        if bytes.len() != KEY_LEN {
            return None;
        }
        match strict_decode_key(bytes) {
            Some(b) => {
                assert(canonical(bytes@).subrange(0, 4) =~= bytes@.subrange(0, 4));
                assert(canonical(bytes@).subrange(46, 78) =~= bytes@.subrange(46, 78));
                Some(ExtendedKey { bytes: b })
            },
            None => None,
        }
    }

    /// Takes bytes that are known to be a canonical serialization.
    pub(crate) fn from_canonical(bytes: [u8; 78]) -> (key: ExtendedKey)
        requires
            canonical_key(bytes@),
        ensures
            key@ == bytes@,
    {
        ExtendedKey { bytes }
    }

    /// The canonical serialization of the key.
    pub fn encode(&self) -> (r: [u8; 78])
        ensures
            r@ == self@,
            canonical_key(r@),
    {
        proof {
            use_type_invariant(self);
        }
        self.bytes
    }

    /// How many derivation steps lie between the master key and this key.
    pub fn depth(&self) -> (d: u8)
        ensures
            d == key_depth(self@),
    {
        proof {
            use_type_invariant(self);
        }
        self.bytes[4]
    }
}

} // verus!
