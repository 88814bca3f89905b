//! The derivation engine: from a channel identifier and the network to the
//! keyset of the channel, below the key of a signing account.

use crate::bytes::{be_u32_at, read_be_u32};
use crate::keyfile::ChildNumber;
use crate::provider::SigningAccount;
use crate::xpriv::{canonical_key, key_depth, ExtendedKey};
use bitcoin::secp256k1::SECP256K1;
use bitcoin::util::bip32;
use lnp::channel::bolt::LocalKeyset;
use vstd::prelude::*;

verus! {

/// The deepest account key below which a channel keyset can be derived: the
/// channel key lies four steps below the account key, the keys of the
/// channel one step further, and a depth is a single byte.
pub const MAX_ACCOUNT_DEPTH: u8 = 250;

/// The keys of a channel as the channel service takes them.
#[verifier::external_type_specification]
#[verifier::external_body]
pub struct ExLocalKeyset(LocalKeyset);

/// Why no keyset was derived.
#[derive(Clone, Copy, Debug, PartialEq, Eq, Structural)]
pub enum DeriveError {
    /// The account key lies deeper than `MAX_ACCOUNT_DEPTH`.
    DepthExceeded,
    /// The key derivation itself reported a failure.
    Bip32,
}

/// The keyset of one channel.
#[derive(Clone, Debug, PartialEq, Eq)]
pub struct ChannelKeyset {
    /// Fingerprint of the account key that the keyset was derived from.
    pub fingerprint: [u8; 4],
    /// The four hardened steps from the account key to the channel key.
    pub path: Vec<ChildNumber>,
    /// The extended private key of the channel.
    pub xpriv: ExtendedKey,
    /// Key of a funding wallet that the channel is to close to. The
    /// derivation leaves it unset.
    pub funding_key: Option<Vec<u8>>,
}

/// What a channel keyset holds.
pub struct KeysetView {
    pub fingerprint: Seq<u8>,
    pub path: Seq<ChildNumber>,
    pub xpriv: Seq<u8>,
    pub funding_key: Option<Seq<u8>>,
}

impl View for ChannelKeyset {
    type V = KeysetView;

    open spec fn view(&self) -> KeysetView {
        KeysetView {
            fingerprint: self.fingerprint@,
            path: self.path@,
            xpriv: self.xpriv@,
            funding_key: match self.funding_key {
                Some(key) => Some(key@),
                None => None,
            },
        }
    }
}

/// The key that BIP32 private derivation reaches from the serialized key
/// `key` along `path`, serialized; `None` where the derivation reports a
/// failure.
pub uninterp spec fn derived_key(key: Seq<u8>, path: Seq<ChildNumber>) -> Option<Seq<u8>>;

/// The index of a channel: the first four bytes of its identifier as a
/// big-endian integer, without the top bit.
pub open spec fn channel_index_of(channel_id: Seq<u8>) -> int {
    be_u32_at(channel_id, 0) % 0x8000_0000
}

/// The path from an account key to the key of a channel: the network (1 on
/// a test network, else 0), 1, 0 and the index of the channel, each as a
/// hardened step.
pub open spec fn channel_path(channel_id: Seq<u8>, testnet: bool) -> Seq<ChildNumber> {
    seq![
        ChildNumber::Hardened { index: if testnet { 1u32 } else { 0u32 } },
        ChildNumber::Hardened { index: 1u32 },
        ChildNumber::Hardened { index: 0u32 },
        ChildNumber::Hardened { index: channel_index_of(channel_id) as u32 },
    ]
}

/// The keyset of the channel `channel_id` below an account with key `key`
/// and fingerprint `fingerprint`.
pub open spec fn derived_keyset(
    key: Seq<u8>,
    fingerprint: Seq<u8>,
    channel_id: Seq<u8>,
    testnet: bool,
) -> Result<KeysetView, DeriveError> {
    if key_depth(key) > 250 {
        Err(DeriveError::DepthExceeded)
    } else {
        match derived_key(key, channel_path(channel_id, testnet)) {
            Some(child) => Ok(
                KeysetView {
                    fingerprint,
                    path: channel_path(channel_id, testnet),
                    xpriv: child,
                    funding_key: None,
                },
            ),
            None => Err(DeriveError::Bip32),
        }
    }
}

/// Whether the outcome `r` of a derivation is the one that `expected`
/// describes.
pub open spec fn derive_outcome(
    r: Result<ChannelKeyset, DeriveError>,
    expected: Result<KeysetView, DeriveError>,
) -> bool {
    match expected {
        Ok(v) => r matches Ok(keyset) && keyset@ == v,
        Err(e) => r matches Err(fault) && fault == e,
    }
}

/// Calls `ExtendedPrivKey::derive_priv` of `bitcoin` with the process-wide
/// context, on the key that `ExtendedPrivKey::decode` reads from `key`, and
/// `ExtendedPrivKey::encode` on the key it gives.
///
/// Trusted: the outcome depends on the key and the path alone, so it has a
/// name; a derived key is a valid one, each step adds one to the depth, and
/// the encoder writes the canonical form. The `requires` keeps the depth
/// within its byte. Where BIP32 calls a child invalid (a chance of about
/// 2^-127 for a step) this version of `bitcoin` does not return: no input is
/// known on which that happens, and none can be named here.
#[verifier::external_body]
fn derive_priv(key: &[u8; 78], path: &Vec<ChildNumber>) -> (child: Option<[u8; 78]>)
    requires
        canonical_key(key@),
        key_depth(key@) + path@.len() <= 255,
    ensures
        match derived_key(key@, path@) {
            Some(bytes) => child matches Some(c) && c@ == bytes,
            None => child is None,
        },
        child matches Some(c) ==> canonical_key(c@) && key_depth(c@) == key_depth(key@)
            + path@.len(),
{
    let steps: Vec<bip32::ChildNumber> = path.iter().map(|step| match step {
        ChildNumber::Normal { index } => bip32::ChildNumber::Normal { index: *index },
        ChildNumber::Hardened { index } => bip32::ChildNumber::Hardened { index: *index },
    }).collect();
    let xpriv = bip32::ExtendedPrivKey::decode(key).expect("the key is valid");
    match xpriv.derive_priv(SECP256K1, &steps) {
        Ok(child) => Some(child.encode()),
        Err(_) => None,
    }
}

/// Calls `LocalKeyset::with` of `lnp` with the process-wide context, the
/// fingerprint and path as the source of the channel key, the key that
/// `ExtendedPrivKey::decode` reads from `key`, and no shutdown script.
///
/// Trusted: nothing is claimed of the keyset. It is made of the public keys
/// of seven hardened children of the channel key, so the `requires` keeps
/// their depth within its byte; each of those derivations can fail to return
/// as `derive_priv` can.
#[verifier::external_body]
fn local_keyset_with(
    fingerprint: &[u8; 4],
    path: &Vec<ChildNumber>,
    key: &[u8; 78],
) -> (keyset: LocalKeyset)
    requires
        canonical_key(key@),
        key_depth(key@) < 255,
{
    let steps: Vec<bip32::ChildNumber> = path.iter().map(|step| match step {
        ChildNumber::Normal { index } => bip32::ChildNumber::Normal { index: *index },
        ChildNumber::Hardened { index } => bip32::ChildNumber::Hardened { index: *index },
    }).collect();
    let xpriv = bip32::ExtendedPrivKey::decode(key).expect("the key is valid");
    let source = (bip32::Fingerprint::from(&fingerprint[..]), bip32::DerivationPath::from(steps));
    LocalKeyset::with(SECP256K1, source, xpriv, None)
}

/// The index of the channel below the account: always a hardened index can
/// be made of it.
pub fn channel_index(channel_id: &[u8; 32]) -> (index: u32)
    ensures
        index == channel_index_of(channel_id@),
        0 <= index < 0x8000_0000,
{
    let word: u32 = read_be_u32(channel_id.as_slice(), 0);
    assert(word & 0x7FFF_FFFF == word % 0x8000_0000) by (bit_vector);
    word & 0x7FFF_FFFF
}

/// The path from the account key to the key of the channel.
pub fn derivation_path(channel_id: &[u8; 32], testnet: bool) -> (path: Vec<ChildNumber>)
    ensures
        path@ == channel_path(channel_id@, testnet),
{
    let mut path: Vec<ChildNumber> = Vec::new();
    path.push(ChildNumber::Hardened { index: if testnet { 1 } else { 0 } });
    path.push(ChildNumber::Hardened { index: 1 });
    path.push(ChildNumber::Hardened { index: 0 });
    path.push(ChildNumber::Hardened { index: channel_index(channel_id) });
    assert(path@ =~= channel_path(channel_id@, testnet));
    path
}

/// Derives the keyset of a channel below a signing account. The same
/// account, identifier and network give the same keyset every time; nothing
/// is kept between calls.
pub fn derive_keyset(
    account: &SigningAccount,
    channel_id: &[u8; 32],
    testnet: bool,
) -> (r: Result<ChannelKeyset, DeriveError>)
    ensures
        derive_outcome(
            r,
            derived_keyset(account.xpriv@, account.fingerprint@, channel_id@, testnet),
        ),
        r matches Ok(keyset) ==> key_depth(keyset.xpriv@) < 255,
{
    if account.xpriv.depth() > MAX_ACCOUNT_DEPTH {
        return Err(DeriveError::DepthExceeded);
    }
    let path = derivation_path(channel_id, testnet);
    let key = account.xpriv.encode();
    match derive_priv(&key, &path) {
        Some(child) => Ok(
            ChannelKeyset {
                fingerprint: account.fingerprint,
                path,
                xpriv: ExtendedKey::from_canonical(child),
                funding_key: None,
            },
        ),
        None => Err(DeriveError::Bip32),
    }
}

impl ChannelKeyset {
    /// The keys of the channel in the form the channel service takes them.
    /// There are none for a channel key at the greatest depth, which has no
    /// children.
    pub fn to_local(&self) -> (r: Option<LocalKeyset>)
        ensures
            r is Some <==> key_depth(self.xpriv@) < 255,
    {
        if self.xpriv.depth() == 255 {
            return None;
        }
        let key = self.xpriv.encode();
        Some(local_keyset_with(&self.fingerprint, &self.path, &key))
    }
}

/// Two derivations for the same account key, fingerprint, channel
/// identifier and network end alike: with the same fingerprint, path and
/// channel key, or with the same fault.
pub proof fn lemma_derivation_is_deterministic(
    key: Seq<u8>,
    fingerprint: Seq<u8>,
    channel_id: Seq<u8>,
    testnet: bool,
    first: Result<ChannelKeyset, DeriveError>,
    second: Result<ChannelKeyset, DeriveError>,
)
    requires
        derive_outcome(first, derived_keyset(key, fingerprint, channel_id, testnet)),
        derive_outcome(second, derived_keyset(key, fingerprint, channel_id, testnet)),
    ensures
        first is Ok <==> second is Ok,
        first is Ok ==> first->Ok_0@ == second->Ok_0@,
        first is Err ==> first->Err_0 == second->Err_0,
{
}

/// The index of every channel is at least 0 and less than 2^31.
pub proof fn lemma_channel_index_in_range(channel_id: Seq<u8>)
    ensures
        0 <= channel_index_of(channel_id) < 0x8000_0000,
{
}

/// Every step of the path of a channel is hardened, whatever the channel
/// and the network.
pub proof fn lemma_channel_path_is_hardened(channel_id: Seq<u8>, testnet: bool)
    ensures
        channel_path(channel_id, testnet).len() == 4,
        forall|i: int| 0 <= i < 4 ==> channel_path(channel_id, testnet)[i] is Hardened,
{
}

} // verus!
