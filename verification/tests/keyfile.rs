use bitcoin::util::bip32::{ChildNumber as Bip32Step, DerivationPath, ExtendedPrivKey};
use bitcoin::{Network, XpubIdentifier};
use signd::keyfile::{ChildNumber, DecodeError, MasterKeyRecord};
use signd::xpriv::ExtendedKey;
use strict_encoding::StrictEncode;

const ORDER: [u8; 32] = [
    0xFF, 0xFF, 0xFF, 0xFF, 0xFF, 0xFF, 0xFF, 0xFF, 0xFF, 0xFF, 0xFF, 0xFF, 0xFF, 0xFF, 0xFF, 0xFE,
    0xBA, 0xAE, 0xDC, 0xE6, 0xAF, 0x48, 0xA0, 0x3B, 0xBF, 0xD2, 0x5E, 0x8C, 0xD0, 0x36, 0x41, 0x41,
];

/// A serialized key written by hand: main network, depth 3, secret key 1.
fn plain_key() -> [u8; 78] {
    let mut key = [0u8; 78];
    key[0] = 0x04;
    key[1] = 0x88;
    key[2] = 0xAD;
    key[3] = 0xE4;
    key[4] = 3;
    key[5] = 0xDE;
    key[6] = 0xAD;
    key[7] = 0xBE;
    key[8] = 0xEF;
    key[9] = 0x80;
    key[12] = 0x02;
    for i in 13..45 {
        key[i] = 0xC0;
    }
    key[77] = 1;
    key
}

fn key_with_secret(secret: [u8; 32]) -> [u8; 78] {
    let mut key = plain_key();
    key[46..78].copy_from_slice(&secret);
    key
}

/// The layout of a record with identifier 0xAA.., path 84'/1 and the plain key.
fn plain_file() -> Vec<u8> {
    let mut file = vec![0xAAu8; 20];
    file.extend_from_slice(&[0x02, 0x00]);
    file.extend_from_slice(&[0x01, 84, 0, 0, 0]);
    file.extend_from_slice(&[0x00, 1, 0, 0, 0]);
    file.extend_from_slice(&plain_key());
    file
}

fn plain_record() -> MasterKeyRecord {
    MasterKeyRecord {
        master_id: [0xAA; 20],
        derivation: vec![ChildNumber::Hardened { index: 84 }, ChildNumber::Normal { index: 1 }],
        xpriv: ExtendedKey::decode(&plain_key()).expect("a valid key"),
    }
}

/// A key file as the strict encoding of the three outside values writes it.
fn strict_file(id: [u8; 20], path: Vec<Bip32Step>, key: &ExtendedPrivKey) -> Vec<u8> {
    let mut file = Vec::new();
    let id: XpubIdentifier = bitcoin::hashes::Hash::from_inner(id);
    id.strict_encode(&mut file).expect("in memory");
    DerivationPath::from(path).strict_encode(&mut file).expect("in memory");
    key.strict_encode(&mut file).expect("in memory");
    file
}

#[test]
fn decode_reads_the_three_fields() {
    let record = MasterKeyRecord::decode(&plain_file()).expect("a well-formed file");
    assert_eq!(record.master_id, [0xAA; 20]);
    assert_eq!(
        record.derivation,
        vec![ChildNumber::Hardened { index: 84 }, ChildNumber::Normal { index: 1 }]
    );
    assert_eq!(record.xpriv.encode(), plain_key());
    assert_eq!(record, plain_record());
}

#[test]
fn encode_writes_the_exact_layout() {
    assert_eq!(plain_record().encode(), Some(plain_file()));
}

#[test]
fn round_trip_gives_the_record_back() {
    let record = plain_record();
    let file = record.encode().expect("a short path");
    assert_eq!(MasterKeyRecord::decode(&file), Ok(record));
}

#[test]
fn round_trip_with_an_empty_path() {
    let record = MasterKeyRecord {
        master_id: [0; 20],
        derivation: vec![],
        xpriv: ExtendedKey::decode(&plain_key()).expect("a valid key"),
    };
    let file = record.encode().expect("an empty path");
    assert_eq!(file.len(), 20 + 2 + 78);
    assert_eq!(MasterKeyRecord::decode(&file), Ok(record));
}

#[test]
fn round_trip_with_large_indexes() {
    let record = MasterKeyRecord {
        master_id: [9; 20],
        derivation: vec![
            ChildNumber::Normal { index: 0xFFFF_FFFF },
            ChildNumber::Hardened { index: 0x7FFF_FFFF },
            ChildNumber::Hardened { index: 0x0102_0304 },
        ],
        xpriv: ExtendedKey::decode(&plain_key()).expect("a valid key"),
    };
    let file = record.encode().expect("a short path");
    assert_eq!(&file[22..27], &[0x00, 0xFF, 0xFF, 0xFF, 0xFF]);
    assert_eq!(&file[27..32], &[0x01, 0xFF, 0xFF, 0xFF, 0x7F]);
    assert_eq!(&file[32..37], &[0x01, 0x04, 0x03, 0x02, 0x01]);
    assert_eq!(MasterKeyRecord::decode(&file), Ok(record));
}

#[test]
fn decode_agrees_with_strict_encoding() {
    let master = ExtendedPrivKey::new_master(Network::Testnet, &[7u8; 32]).expect("a seed");
    let path = vec![
        Bip32Step::Hardened { index: 9735 },
        Bip32Step::Hardened { index: 0 },
        Bip32Step::Normal { index: 2 },
    ];
    let file = strict_file([0x42; 20], path, &master);
    let record = MasterKeyRecord::decode(&file).expect("what the encoder wrote");
    assert_eq!(record.master_id, [0x42; 20]);
    assert_eq!(
        record.derivation,
        vec![
            ChildNumber::Hardened { index: 9735 },
            ChildNumber::Hardened { index: 0 },
            ChildNumber::Normal { index: 2 },
        ]
    );
    assert_eq!(record.xpriv.encode(), master.encode());
}

#[test]
fn encode_agrees_with_strict_encoding() {
    let master = ExtendedPrivKey::new_master(Network::Bitcoin, &[1u8; 16]).expect("a seed");
    let record = MasterKeyRecord {
        master_id: [0x17; 20],
        derivation: vec![ChildNumber::Hardened { index: 86 }, ChildNumber::Normal { index: 300 }],
        xpriv: ExtendedKey::decode(&master.encode()).expect("a valid key"),
    };
    let path = vec![Bip32Step::Hardened { index: 86 }, Bip32Step::Normal { index: 300 }];
    assert_eq!(record.encode(), Some(strict_file([0x17; 20], path, &master)));
}

#[test]
fn every_cut_of_a_file_is_truncated() {
    let file = plain_file();
    for len in 0..file.len() {
        assert_eq!(
            MasterKeyRecord::decode(&file[..len]),
            Err(DecodeError::Truncated),
            "cut at {}",
            len
        );
    }
    assert!(MasterKeyRecord::decode(&file).is_ok());
}

#[test]
fn bytes_after_the_record_are_ignored() {
    let mut file = plain_file();
    file.extend_from_slice(&[0xFF, 0x00, 0x13]);
    assert_eq!(MasterKeyRecord::decode(&file), Ok(plain_record()));
}

#[test]
fn unknown_step_kind_is_refused() {
    let mut file = plain_file();
    file[27] = 2;
    assert_eq!(MasterKeyRecord::decode(&file), Err(DecodeError::UnknownStepKind(2)));
    file[22] = 0xFF;
    assert_eq!(MasterKeyRecord::decode(&file), Err(DecodeError::UnknownStepKind(0xFF)));
}

#[test]
fn a_cut_step_counts_before_its_kind() {
    let mut file = plain_file();
    file[27] = 7;
    assert_eq!(MasterKeyRecord::decode(&file[..30]), Err(DecodeError::Truncated));
    assert_eq!(MasterKeyRecord::decode(&file[..32]), Err(DecodeError::UnknownStepKind(7)));
}

#[test]
fn unknown_key_version_is_refused() {
    let mut file = plain_file();
    file[32] = 0x05;
    assert_eq!(MasterKeyRecord::decode(&file), Err(DecodeError::KeyIntegrity));
}

#[test]
fn public_key_version_is_refused() {
    let mut file = plain_file();
    file[32..36].copy_from_slice(&[0x04, 0x88, 0xB2, 0x1E]);
    assert_eq!(MasterKeyRecord::decode(&file), Err(DecodeError::KeyIntegrity));
}

#[test]
fn zero_secret_key_is_refused() {
    let mut file = plain_file();
    file[32 + 77] = 0;
    assert_eq!(MasterKeyRecord::decode(&file), Err(DecodeError::KeyIntegrity));
}

#[test]
fn secret_key_must_lie_below_the_order() {
    assert_eq!(ExtendedKey::decode(&key_with_secret(ORDER)), None);
    assert_eq!(ExtendedKey::decode(&key_with_secret([0xFF; 32])), None);
    let mut below = ORDER;
    below[31] = 0x40;
    let key = ExtendedKey::decode(&key_with_secret(below)).expect("the greatest secret key");
    assert_eq!(key.encode(), key_with_secret(below));
    let mut above = ORDER;
    above[31] = 0x42;
    assert_eq!(ExtendedKey::decode(&key_with_secret(above)), None);
}

#[test]
fn testnet_version_is_accepted() {
    let mut bytes = plain_key();
    bytes[0..4].copy_from_slice(&[0x04, 0x35, 0x83, 0x94]);
    let key = ExtendedKey::decode(&bytes).expect("a test network key");
    assert_eq!(key.encode(), bytes);
}

#[test]
fn key_of_another_length_is_refused() {
    let bytes = plain_key();
    assert_eq!(ExtendedKey::decode(&bytes[..77]), None);
    let mut longer = bytes.to_vec();
    longer.push(0);
    assert_eq!(ExtendedKey::decode(&longer), None);
    assert_eq!(ExtendedKey::decode(&[]), None);
}

#[test]
fn pad_byte_is_cleared() {
    let mut bytes = plain_key();
    bytes[45] = 0x5A;
    let key = ExtendedKey::decode(&bytes).expect("the pad byte is free");
    assert_eq!(key.encode(), plain_key());
    assert_eq!(key, ExtendedKey::decode(&plain_key()).expect("a valid key"));
}

#[test]
fn key_decoding_agrees_with_bip32() {
    let master = ExtendedPrivKey::new_master(Network::Bitcoin, &[3u8; 64]).expect("a seed");
    let key = ExtendedKey::decode(&master.encode()).expect("a valid key");
    assert_eq!(ExtendedPrivKey::decode(&key.encode()), Ok(master));
    assert_eq!(key.depth(), 0);
    assert_eq!(ExtendedKey::decode(&plain_key()).expect("a valid key").depth(), 3);
}

#[test]
fn a_path_too_long_for_the_count_is_not_written() {
    let mut record = plain_record();
    record.derivation = vec![ChildNumber::Normal { index: 0 }; 0x1_0000];
    assert_eq!(record.encode(), None);
    record.derivation.pop();
    let file = record.encode().expect("the longest path");
    assert_eq!(&file[20..22], &[0xFF, 0xFF]);
    assert_eq!(file.len(), 22 + 5 * 0xFFFF + 78);
    assert_eq!(MasterKeyRecord::decode(&file), Ok(record));
}
