use bitcoin::secp256k1::Secp256k1;
use bitcoin::util::bip32::{ChildNumber as Bip32Step, DerivationPath, ExtendedPrivKey};
use bitcoin::Network;
use lnp::channel::bolt::LocalKeyset;
use signd::derivation::{channel_index, derivation_path, derive_keyset, DeriveError};
use signd::keyfile::ChildNumber;
use signd::provider::SigningAccount;
use signd::xpriv::ExtendedKey;

fn channel(first: [u8; 4]) -> [u8; 32] {
    let mut id = [0x5Au8; 32];
    id[..4].copy_from_slice(&first);
    id
}

fn account_key(network: Network) -> ExtendedPrivKey {
    let secp = Secp256k1::new();
    let master = ExtendedPrivKey::new_master(network, &[0x21u8; 32]).expect("a seed");
    let path = vec![Bip32Step::Hardened { index: 9735 }, Bip32Step::Hardened { index: 0 }];
    master.derive_priv(&secp, &path).expect("a derivation")
}

fn account_of(key: &ExtendedPrivKey) -> SigningAccount {
    let secp = Secp256k1::new();
    SigningAccount {
        xpriv: ExtendedKey::decode(&key.encode()).expect("a valid key"),
        fingerprint: key.fingerprint(&secp).to_bytes(),
    }
}

fn account_at_depth(depth: u8) -> SigningAccount {
    let mut bytes = account_key(Network::Bitcoin).encode();
    bytes[4] = depth;
    SigningAccount {
        xpriv: ExtendedKey::decode(&bytes).expect("a valid key"),
        fingerprint: [1, 2, 3, 4],
    }
}

fn hardened(indexes: [u32; 4]) -> Vec<ChildNumber> {
    indexes.iter().map(|index| ChildNumber::Hardened { index: *index }).collect()
}

#[test]
fn channel_index_is_the_first_word_big_endian() {
    assert_eq!(channel_index(&channel([0, 0, 0, 5])), 5);
    assert_eq!(channel_index(&channel([0x01, 0x02, 0x03, 0x04])), 0x0102_0304);
    assert_eq!(channel_index(&channel([0x7F, 0xFF, 0xFF, 0xFF])), 0x7FFF_FFFF);
    assert_eq!(channel_index(&[0u8; 32]), 0);
}

#[test]
fn channel_index_drops_the_top_bit() {
    assert_eq!(channel_index(&channel([0x80, 0, 0, 5])), 5);
    assert_eq!(channel_index(&channel([0xFF, 0xFF, 0xFF, 0xFF])), 0x7FFF_FFFF);
    assert_eq!(channel_index(&channel([0x80, 0, 0, 0])), 0);
    assert_eq!(channel_index(&channel([0x81, 0x02, 0x03, 0x04])), 0x0102_0304);
}

#[test]
fn channel_index_reads_only_the_first_four_bytes() {
    let mut one = [0u8; 32];
    let mut other = [0xEEu8; 32];
    one[..4].copy_from_slice(&[0, 0, 1, 0]);
    other[..4].copy_from_slice(&[0, 0, 1, 0]);
    assert_eq!(channel_index(&one), 256);
    assert_eq!(channel_index(&other), 256);
}

#[test]
fn channel_index_stays_below_two_to_the_31() {
    for high in 0..=255u8 {
        for low in [0u8, 1, 0x7F, 0x80, 0xFF] {
            let index = channel_index(&channel([high, low, low, low]));
            assert!(index < 0x8000_0000);
            assert_eq!(index, u32::from_be_bytes([high & 0x7F, low, low, low]));
        }
    }
}

#[test]
fn path_of_channel_five_on_mainnet() {
    assert_eq!(derivation_path(&channel([0, 0, 0, 5]), false), hardened([0, 1, 0, 5]));
}

#[test]
fn path_of_channel_five_on_testnet() {
    assert_eq!(derivation_path(&channel([0, 0, 0, 5]), true), hardened([1, 1, 0, 5]));
}

#[test]
fn path_has_four_hardened_steps() {
    let path = derivation_path(&channel([0xFF, 0xFF, 0xFF, 0xFF]), true);
    assert_eq!(path, hardened([1, 1, 0, 0x7FFF_FFFF]));
    assert!(path.iter().all(|step| matches!(step, ChildNumber::Hardened { .. })));
}

#[test]
fn keyset_holds_fingerprint_path_and_derived_key() {
    let secp = Secp256k1::new();
    let key = account_key(Network::Bitcoin);
    let id = channel([0, 0, 0, 5]);
    let keyset = derive_keyset(&account_of(&key), &id, false).expect("a keyset");
    let steps: Vec<Bip32Step> =
        [0u32, 1, 0, 5].iter().map(|index| Bip32Step::Hardened { index: *index }).collect();
    let expected = key.derive_priv(&secp, &steps).expect("a derivation");
    assert_eq!(keyset.fingerprint, key.fingerprint(&secp).to_bytes());
    assert_eq!(keyset.path, hardened([0, 1, 0, 5]));
    assert_eq!(keyset.xpriv.encode(), expected.encode());
    assert_eq!(keyset.xpriv.depth(), 6);
    assert_eq!(keyset.funding_key, None);
}

#[test]
fn keyset_on_testnet_takes_the_testnet_branch() {
    let secp = Secp256k1::new();
    let key = account_key(Network::Testnet);
    let id = channel([0x80, 0x00, 0x01, 0x00]);
    let keyset = derive_keyset(&account_of(&key), &id, true).expect("a keyset");
    let steps: Vec<Bip32Step> =
        [1u32, 1, 0, 256].iter().map(|index| Bip32Step::Hardened { index: *index }).collect();
    let expected = key.derive_priv(&secp, &steps).expect("a derivation");
    assert_eq!(keyset.path, hardened([1, 1, 0, 256]));
    assert_eq!(keyset.xpriv.encode(), expected.encode());
}

#[test]
fn the_channel_key_is_not_the_account_key() {
    let key = account_key(Network::Bitcoin);
    let account = account_of(&key);
    let keyset = derive_keyset(&account, &channel([0, 0, 0, 1]), false).expect("a keyset");
    assert_ne!(keyset.xpriv, account.xpriv);
    let other = derive_keyset(&account, &channel([0, 0, 0, 2]), false).expect("a keyset");
    assert_ne!(keyset.xpriv, other.xpriv);
    let testnet = derive_keyset(&account, &channel([0, 0, 0, 1]), true).expect("a keyset");
    assert_ne!(keyset.xpriv, testnet.xpriv);
}

#[test]
fn derivation_is_deterministic() {
    let account = account_of(&account_key(Network::Bitcoin));
    for first in [[0u8, 0, 0, 0], [0, 0, 0, 5], [0xFF, 0xFF, 0xFF, 0xFF], [0x12, 0x34, 0x56, 0x78]] {
        for testnet in [false, true] {
            let one = derive_keyset(&account, &channel(first), testnet);
            let two = derive_keyset(&account, &channel(first), testnet);
            assert!(one.is_ok());
            assert_eq!(one, two);
        }
    }
}

#[test]
fn the_top_bit_of_the_identifier_does_not_matter() {
    let account = account_of(&account_key(Network::Bitcoin));
    let low = derive_keyset(&account, &channel([0x00, 0, 0, 9]), false);
    let high = derive_keyset(&account, &channel([0x80, 0, 0, 9]), false);
    assert_eq!(low, high);
}

#[test]
fn an_account_too_deep_has_no_keyset() {
    let id = channel([0, 0, 0, 5]);
    assert_eq!(derive_keyset(&account_at_depth(251), &id, false), Err(DeriveError::DepthExceeded));
    assert_eq!(derive_keyset(&account_at_depth(255), &id, true), Err(DeriveError::DepthExceeded));
}

#[test]
fn the_deepest_account_still_has_a_keyset() {
    let keyset =
        derive_keyset(&account_at_depth(250), &channel([0, 0, 0, 5]), false).expect("a keyset");
    assert_eq!(keyset.xpriv.depth(), 254);
    assert_eq!(keyset.fingerprint, [1, 2, 3, 4]);
    assert!(keyset.to_local().is_some());
}

#[test]
fn local_keyset_is_the_one_of_the_channel_library() {
    let secp = Secp256k1::new();
    let key = account_key(Network::Bitcoin);
    let keyset = derive_keyset(&account_of(&key), &channel([0, 0, 0, 5]), false).expect("a keyset");
    let steps: Vec<Bip32Step> =
        [0u32, 1, 0, 5].iter().map(|index| Bip32Step::Hardened { index: *index }).collect();
    let channel_key = key.derive_priv(&secp, &steps).expect("a derivation");
    let expected = LocalKeyset::with(
        &secp,
        (key.fingerprint(&secp), DerivationPath::from(steps)),
        channel_key,
        None,
    );
    let local = keyset.to_local().expect("a channel key with children");
    assert_eq!(local, expected);
    assert_eq!(local.shutdown_scriptpubkey, None);
    assert!(!local.static_remotekey);
}

#[test]
fn a_channel_key_at_the_greatest_depth_has_no_local_keyset() {
    let mut keyset =
        derive_keyset(&account_at_depth(250), &channel([0, 0, 0, 5]), false).expect("a keyset");
    let mut bytes = keyset.xpriv.encode();
    bytes[4] = 255;
    keyset.xpriv = ExtendedKey::decode(&bytes).expect("a valid key");
    assert!(keyset.to_local().is_none());
}
