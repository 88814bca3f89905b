//! The key provider: the signing accounts of the node, kept by the in-memory
//! provider of the wallet library, which signs with them.

use crate::keyfile::{ChildNumber, MasterKeyRecord, RecordView};
use crate::xpriv::{be_nat, canonical_key, curve_order, key_depth, ExtendedKey};
use bitcoin::secp256k1::{All, PublicKey, Scalar, SECP256K1};
use bitcoin::util::bip32;
use bitcoin::XpubIdentifier;
use vstd::prelude::*;
use vstd::slice::slice_subrange;
use wallet::psbt::sign::{MemoryKeyProvider, MemorySigningAccount, SignAll, SignError};
use wallet::psbt::{ProprietaryKey, Psbt, PSBT_IN_P2C_TWEAK, PSBT_P2C_PREFIX};

verus! {

/// The signing accounts of the node.
///
/// Trusted: the struct hides a `MemoryKeyProvider` that is bound to the
/// process-wide secp256k1 context. Verus sees none of it; what it holds is
/// named by `provider_accounts`.
#[verifier::external_body]
pub struct KeyProvider {
    inner: MemoryKeyProvider<'static, All>,
}

/// A partially signed transaction: a transaction with, for each of its
/// inputs, what is known of the keys and signatures that spend it.
#[verifier::external_type_specification]
#[verifier::external_body]
pub struct ExPsbt(Psbt);

/// Why a transaction was not signed: the input at fault and what is wrong
/// with it.
#[verifier::external_type_specification]
#[verifier::external_body]
pub struct ExSignError(SignError);

/// The accounts that a provider holds, each as the record it was added from.
pub uninterp spec fn provider_accounts(provider: KeyProvider) -> Set<RecordView>;

/// The fingerprint of an extended private key: the first four bytes of the
/// identifier of its public key.
pub uninterp spec fn key_fingerprint(key: Seq<u8>) -> Seq<u8>;

/// What the inputs of a transaction hold of the keys that sign them, input
/// by input.
pub uninterp spec fn psbt_inputs(psbt: Psbt) -> Seq<InputKeysView>;

/// The identifier of the unsigned transaction of a PSBT.
pub uninterp spec fn psbt_txid(psbt: Psbt) -> Seq<u8>;

/// How many signatures the signer adds to a transaction with the accounts
/// given, where it succeeds.
pub uninterp spec fn signing_count(psbt: Psbt, accounts: Set<RecordView>) -> nat;

/// Whether 32 bytes are the first coordinate of a point of the curve: whether
/// they make a compressed public key behind the byte 2.
pub uninterp spec fn is_point_x(x: Seq<u8>) -> bool;

/// Whether one of `accounts` has the extended key `key`.
pub open spec fn holds_key(accounts: Set<RecordView>, key: Seq<u8>) -> bool {
    exists|r: RecordView| #[trigger] accounts.contains(r) && r.xpriv == key
}

/// Whether `list` names every account of `held` once, each with its key
/// and the fingerprint of that key.
pub open spec fn lists_accounts(list: Seq<SigningAccount>, held: Set<RecordView>) -> bool {
    &&& forall|i: int|
        0 <= i < list.len() ==> {
            &&& holds_key(held, (#[trigger] list[i]).xpriv@)
            &&& list[i].fingerprint@ == key_fingerprint(list[i].xpriv@)
        }
    &&& forall|r: RecordView| #[trigger]
        held.contains(r) ==> exists|i: int|
            0 <= i < list.len() && (#[trigger] list[i]).xpriv@ == r.xpriv
    &&& forall|i: int, j: int|
        0 <= i < j < list.len() ==> (#[trigger] list[i]).xpriv@ != (#[trigger] list[j]).xpriv@
}

/// A signing account as the derivation reads it: its extended private key
/// and the fingerprint of that key.
#[derive(Clone, Copy, Debug, PartialEq, Eq)]
pub struct SigningAccount {
    pub xpriv: ExtendedKey,
    pub fingerprint: [u8; 4],
}

/// A transaction after signing, with what is reported of it.
#[derive(Debug, PartialEq, Eq)]
pub struct Signed {
    /// The transaction with the signatures of every account added.
    pub psbt: Psbt,
    /// How many signatures were added.
    pub signatures: usize,
    /// Identifier of the unsigned transaction.
    pub txid: [u8; 32],
}

/// What the signing reads of one input before it hands the transaction to
/// the signer.
#[derive(Clone, Debug, PartialEq, Eq)]
pub struct InputKeys {
    /// The lengths of the paths of the key origins of the input, those of
    /// its taproot keys after the others.
    pub origin_lengths: Vec<usize>,
    /// The pay-to-contract field of the input, where it has one: 33 bytes of
    /// a public key and the 32 bytes by which that key was tweaked.
    pub tweak_field: Option<Vec<u8>>,
    /// The taproot key signature that the input carries, where it has one.
    pub key_signature: Option<[u8; 64]>,
}

/// What an `InputKeys` holds.
pub struct InputKeysView {
    pub origin_lengths: Seq<usize>,
    pub tweak_field: Option<Seq<u8>>,
    pub key_signature: Option<Seq<u8>>,
}

impl View for InputKeys {
    type V = InputKeysView;

    open spec fn view(&self) -> InputKeysView {
        InputKeysView {
            origin_lengths: self.origin_lengths@,
            tweak_field: match self.tweak_field {
                Some(field) => Some(field@),
                None => None,
            },
            key_signature: match self.key_signature {
                Some(signature) => Some(signature@),
                None => None,
            },
        }
    }
}

/// Why an input cannot be handed to the signer.
#[derive(Clone, Copy, Debug, PartialEq, Eq, Structural)]
pub enum InputFault {
    /// A key origin has a path that, below the deepest account, leads past
    /// the depth 255 that a key can have.
    OriginTooLong,
    /// The tweak of the pay-to-contract field is no number below the order
    /// of the group.
    TweakOutOfRange,
    /// The taproot key signature is none: its first half is no point, or its
    /// second half no number below the order of the group.
    KeySignature,
}

/// Why a transaction was not signed.
#[derive(Debug)]
pub enum SignFailure {
    /// Input `index` is one that the signer cannot be given. It is the first
    /// such input, and `fault` is what is wrong with it.
    Input { index: usize, fault: InputFault },
    /// The signer gave up on the transaction.
    Signer(SignError),
}

/// Whether a path of `length` steps below any account leads to a depth that
/// a key can have.
pub open spec fn origin_fits(length: usize, accounts: Set<RecordView>) -> bool {
    forall|r: RecordView| #[trigger] accounts.contains(r) ==> key_depth(r.xpriv) + length <= 255
}

/// Whether the tweak of a pay-to-contract field is a number below the order
/// of the group. A field of another length than 65 holds no tweak.
pub open spec fn tweak_in_range(field: Option<Seq<u8>>) -> bool {
    match field {
        Some(bytes) => bytes.len() == 65 ==> be_nat(bytes.subrange(33, 65)) < curve_order(),
        None => true,
    }
}

/// Whether a taproot key signature is made of a point and a number below
/// the order of the group.
pub open spec fn key_signature_sound(signature: Option<Seq<u8>>) -> bool {
    match signature {
        Some(bytes) => is_point_x(bytes.subrange(0, 32)) && be_nat(bytes.subrange(32, 64))
            < curve_order(),
        None => true,
    }
}

/// What is wrong with an input, if anything: the key origins are looked at
/// first, then the tweak, then the key signature.
pub open spec fn input_fault(input: InputKeysView, accounts: Set<RecordView>) -> Option<InputFault> {
    if exists|k: int|
        0 <= k < input.origin_lengths.len() && !origin_fits(
            #[trigger] input.origin_lengths[k],
            accounts,
        ) {
        Some(InputFault::OriginTooLong)
    } else if !tweak_in_range(input.tweak_field) {
        Some(InputFault::TweakOutOfRange)
    } else if !key_signature_sound(input.key_signature) {
        Some(InputFault::KeySignature)
    } else {
        None
    }
}

/// The first of the first `count` inputs that has a fault, with the fault.
pub open spec fn first_fault(
    inputs: Seq<InputKeysView>,
    accounts: Set<RecordView>,
    count: nat,
) -> Option<(nat, InputFault)>
    decreases count,
{
    if count == 0 {
        None
    } else if first_fault(inputs, accounts, (count - 1) as nat) is Some {
        first_fault(inputs, accounts, (count - 1) as nat)
    } else {
        match input_fault(inputs[count - 1], accounts) {
            Some(fault) => Some(((count - 1) as nat, fault)),
            None => None,
        }
    }
}

/// Whether every input of the transaction can be handed to the signer.
pub open spec fn signable(psbt: Psbt, accounts: Set<RecordView>) -> bool {
    first_fault(psbt_inputs(psbt), accounts, psbt_inputs(psbt).len()) is None
}

/// What a signing that the signer ended well reports: the number of
/// signatures that the signer adds with these accounts, none without an
/// account, and the identifier of the transaction, which signing leaves as
/// it is. Where no signature is added the transaction is the one handed in.
pub open spec fn reports_signing(signed: Signed, psbt: Psbt, accounts: Set<RecordView>) -> bool {
    &&& signed.signatures == signing_count(psbt, accounts)
    &&& signed.txid@ == psbt_txid(psbt)
    &&& psbt_txid(signed.psbt) == psbt_txid(psbt)
    &&& signed.signatures == 0 ==> signed.psbt == psbt
    &&& accounts == Set::<RecordView>::empty() ==> signed.signatures == 0
}

/// Whether `r` is an outcome of signing `psbt` with `accounts`. A
/// transaction with a faulty input is refused with its first fault and never
/// reaches the signer. On any other the signer decides: when it ends well,
/// the outcome is the signed transaction with its report; when it gives up,
/// its error.
pub open spec fn signing_outcome(
    r: Result<Signed, SignFailure>,
    psbt: Psbt,
    accounts: Set<RecordView>,
) -> bool {
    match first_fault(psbt_inputs(psbt), accounts, psbt_inputs(psbt).len()) {
        Some((at, found)) => r matches Err(SignFailure::Input { index, fault }) && index == at
            && fault == found,
        None => match r {
            Ok(signed) => reports_signing(signed, psbt, accounts),
            Err(failure) => failure is Signer,
        },
    }
}

/// Calls `MemoryKeyProvider::with` with the process-wide context and with
/// participation in aggregated signatures switched on.
///
/// Trusted: the provider it makes holds no account.
#[verifier::external_body]
fn provider_with() -> (provider: KeyProvider)
    ensures
        provider_accounts(provider) == Set::<RecordView>::empty(),
{
    KeyProvider { inner: MemoryKeyProvider::with(SECP256K1, true) }
}

/// Calls `MemorySigningAccount::with` on the three fields of a record and
/// `MemoryKeyProvider::add_account` on the account.
///
/// Trusted: the provider keeps its accounts in a set that tells them apart
/// by their extended public keys, so by their private keys. An account whose
/// key is held already is not added and `false` comes back; else the account
/// joins the others.
#[verifier::external_body]
fn provider_add(
    provider: &mut KeyProvider,
    master_id: &[u8; 20],
    derivation: &Vec<ChildNumber>,
    key: &[u8; 78],
) -> (fresh: bool)
    requires
        canonical_key(key@),
    ensures
        fresh == !holds_key(provider_accounts(*old(provider)), key@),
        provider_accounts(*final(provider)) == if fresh {
            provider_accounts(*old(provider)).insert(
                RecordView { master_id: master_id@, derivation: derivation@, xpriv: key@ },
            )
        } else {
            provider_accounts(*old(provider))
        },
{
    let path: Vec<bip32::ChildNumber> = derivation.iter().map(|step| match step {
        ChildNumber::Normal { index } => bip32::ChildNumber::Normal { index: *index },
        ChildNumber::Hardened { index } => bip32::ChildNumber::Hardened { index: *index },
    }).collect();
    let xpriv = bip32::ExtendedPrivKey::decode(key).expect("the key is valid");
    let id: XpubIdentifier = bitcoin::hashes::Hash::from_inner(*master_id);
    provider.inner.add_account(MemorySigningAccount::with(SECP256K1, id, path, xpriv))
}

/// Iterates over a `MemoryKeyProvider` and calls `account_xpriv` (then
/// `ExtendedPrivKey::encode`) and `account_fingerprint` on every account.
///
/// Trusted: the provider hands out every account it holds once. Each comes
/// as the canonical serialization of its key with the fingerprint of that
/// key. The accounts come in the order of their extended public keys, of
/// which nothing is said here.
#[verifier::external_body]
fn provider_list(provider: &KeyProvider) -> (list: Vec<([u8; 78], [u8; 4])>)
    ensures
        forall|i: int|
            0 <= i < list@.len() ==> {
                &&& canonical_key((#[trigger] list@[i]).0@)
                &&& holds_key(provider_accounts(*provider), list@[i].0@)
                &&& list@[i].1@ == key_fingerprint(list@[i].0@)
            },
        forall|r: RecordView| #[trigger]
            provider_accounts(*provider).contains(r) ==> exists|i: int|
                0 <= i < list@.len() && (#[trigger] list@[i]).0@ == r.xpriv,
        forall|i: int, j: int|
            0 <= i < j < list@.len() ==> (#[trigger] list@[i]).0@ != (#[trigger] list@[j]).0@,
{
    (&provider.inner).into_iter().map(
        |account| (account.account_xpriv().encode(), account.account_fingerprint().to_bytes()),
    ).collect()
}

/// Reads from every input of a PSBT the lengths of the paths in
/// `bip32_derivation` and `tap_key_origins` (`DerivationPath::len`), the
/// value in `proprietary` under the pay-to-contract key of the `psbt` crate,
/// and the bytes of `tap_key_sig`.
///
/// Trusted: the inputs come in their order, each with what these fields
/// hold.
#[verifier::external_body]
fn psbt_input_keys(psbt: &Psbt) -> (list: Vec<InputKeys>)
    ensures
        list@.len() == psbt_inputs(*psbt).len(),
        forall|i: int| 0 <= i < list@.len() ==> (#[trigger] list@[i])@ == psbt_inputs(*psbt)[i],
{
    let p2c =
        ProprietaryKey { prefix: PSBT_P2C_PREFIX.to_vec(), subtype: PSBT_IN_P2C_TWEAK, key: Vec::new() };
    psbt.inputs.iter().map(|input| InputKeys {
        origin_lengths: input.bip32_derivation.values().map(|origin| origin.1.len()).chain(
            input.tap_key_origins.values().map(|origin| (origin.1).1.len()),
        ).collect(),
        tweak_field: input.proprietary.get(&p2c).cloned(),
        key_signature: input.tap_key_sig.as_ref().map(|signature| *signature.sig.as_ref()),
    }).collect()
}

/// Calls `Scalar::from_be_bytes` of `secp256k1` on the 32 bytes.
///
/// Trusted: the call succeeds exactly for a big-endian value below the
/// order of the group.
#[verifier::external_body]
fn scalar_in_range(bytes: &[u8]) -> (ok: bool)
    requires
        bytes@.len() == 32,
    ensures
        ok == (be_nat(bytes@) < curve_order()),
{
    let mut value = [0u8; 32];
    value.copy_from_slice(bytes);
    Scalar::from_be_bytes(value).is_ok()
}

/// Calls `PublicKey::from_slice` of `secp256k1` on the byte 2 followed by
/// the 32 bytes, as the signer does with the first half of a taproot key
/// signature.
///
/// Trusted: whether the call succeeds depends on the bytes alone.
#[verifier::external_body]
fn point_from_x(x: &[u8]) -> (ok: bool)
    requires
        x@.len() == 32,
    ensures
        ok == is_point_x(x@),
{
    let mut point = [2u8; 33];
    point[1..].copy_from_slice(x);
    PublicKey::from_slice(&point).is_ok()
}

/// Calls `SignAll::sign_all` on a copy of the transaction, with the
/// provider as the source of secret keys.
///
/// Trusted: where the signer succeeds, the number it returns depends on the
/// transaction and the accounts alone, so it has a name. The signer changes
/// an input only where it adds a signature to it, and counts every
/// signature it adds; so a signing that counted none gives the transaction
/// back as it was. It asks the provider for every secret key, and a provider
/// without accounts has none; so such a signing counts none. It changes
/// nothing that the unsigned transaction is made of, so the identifier
/// stays. Nothing else is claimed of the outcome, which rests on the content
/// of the transaction and, for taproot inputs, on fresh randomness. The
/// provider is not changed.
///
/// The `requires` leaves out the transactions on which the signer stops:
/// it derives along the path of a key origin below an account, adding to the
/// one byte of the depth; it takes the tweak of a pay-to-contract field for
/// a number below the order of the group; and it takes a taproot key
/// signature that is there for a point and such a number. It also stops
/// where a derivation does as `derive_priv` can (see there), or where a
/// hash is no number below the order of the group: no input is known on
/// which that happens, and none can be named here.
#[verifier::external_body]
fn sign_all(psbt: &Psbt, provider: &KeyProvider) -> (r: Result<(Psbt, usize), SignError>)
    requires
        signable(*psbt, provider_accounts(*provider)),
    ensures
        r matches Ok((signed, count)) ==> {
            &&& count == signing_count(*psbt, provider_accounts(*provider))
            &&& psbt_txid(signed) == psbt_txid(*psbt)
            &&& count == 0 ==> signed == *psbt
            &&& provider_accounts(*provider) == Set::<RecordView>::empty() ==> count == 0
        },
{
    let mut signed = psbt.clone();
    match signed.sign_all(&provider.inner) {
        Ok(count) => Ok((signed, count)),
        Err(error) => Err(error),
    }
}

/// Calls `Psbt::to_txid`.
///
/// Trusted: the identifier depends on the transaction alone, so it has a
/// name.
#[verifier::external_body]
fn unsigned_txid(psbt: &Psbt) -> (txid: [u8; 32])
    ensures
        txid@ == psbt_txid(*psbt),
{
    bitcoin::hashes::Hash::into_inner(psbt.to_txid())
}

/// Whether `account` is the account that a provider with `held` serves
/// requests with: one of its accounts, with the fingerprint of its key, or
/// none where the provider has none.
pub open spec fn is_primary(account: Option<SigningAccount>, held: Set<RecordView>) -> bool {
    match account {
        Some(first) => holds_key(held, first.xpriv@) && first.fingerprint@ == key_fingerprint(
            first.xpriv@,
        ),
        None => held == Set::<RecordView>::empty(),
    }
}

/// Whether `depth` is the depth of the deepest of the accounts listed, or
/// nothing where none is listed.
pub open spec fn is_deepest(depth: Option<u8>, list: Seq<SigningAccount>) -> bool {
    match depth {
        Some(most) => {
            &&& forall|i: int| 0 <= i < list.len() ==> key_depth((#[trigger] list[i]).xpriv@) <= most
            &&& exists|i: int| 0 <= i < list.len() && key_depth((#[trigger] list[i]).xpriv@) == most
        },
        None => list.len() == 0,
    }
}

/// A path fits below every account exactly when it fits below the deepest.
proof fn lemma_fits_below_the_deepest(
    length: usize,
    depth: Option<u8>,
    list: Seq<SigningAccount>,
    held: Set<RecordView>,
)
    requires
        lists_accounts(list, held),
        is_deepest(depth, list),
    ensures
        origin_fits(length, held) <==> (depth matches Some(most) ==> most + length <= 255),
{
    match depth {
        Some(most) => {
            let i = choose|i: int| 0 <= i < list.len() && key_depth((#[trigger] list[i]).xpriv@) == most;
            assert(holds_key(held, list[i].xpriv@));
            if most + length <= 255 {
                assert forall|r: RecordView| #[trigger] held.contains(r) implies key_depth(r.xpriv)
                    + length <= 255 by {
                    let k = choose|k: int| 0 <= k < list.len() && (#[trigger] list[k]).xpriv@ == r.xpriv;
                    assert(key_depth(list[k].xpriv@) <= most);
                }
            }
        },
        None => {
            assert forall|r: RecordView| #[trigger] held.contains(r) implies key_depth(r.xpriv)
                + length <= 255 by {
                let k = choose|k: int| 0 <= k < list.len() && (#[trigger] list[k]).xpriv@ == r.xpriv;
            }
        },
    }
}

/// Once an input is faulty, every longer run of inputs has the first fault
/// at that input.
proof fn lemma_first_fault_stays(
    inputs: Seq<InputKeysView>,
    held: Set<RecordView>,
    i: nat,
    count: nat,
)
    requires
        i < count,
        first_fault(inputs, held, i) is None,
        input_fault(inputs[i as int], held) is Some,
    ensures
        first_fault(inputs, held, count) == Some((i, input_fault(inputs[i as int], held).unwrap())),
    decreases count,
{
    if count > i + 1 {
        lemma_first_fault_stays(inputs, held, i, (count - 1) as nat);
    }
}

/// The depth of the deepest account of a list.
fn deepest(list: &Vec<SigningAccount>) -> (depth: Option<u8>)
    ensures
        is_deepest(depth, list@),
{
    if list.len() == 0 {
        return None;
    }
    let mut most: u8 = list[0].xpriv.depth();
    let mut i: usize = 1;
    while i < list.len()
        invariant
            1 <= i <= list@.len(),
            forall|k: int| 0 <= k < i ==> key_depth((#[trigger] list@[k]).xpriv@) <= most,
            exists|k: int| 0 <= k < i && key_depth((#[trigger] list@[k]).xpriv@) == most,
        decreases list@.len() - i,
    {
        let depth = list[i].xpriv.depth();
        if depth > most {
            most = depth;
        }
        i += 1;
    }
    Some(most)
}

/// Looks for what is wrong with an input before the signer gets it.
fn input_check(
    input: &InputKeys,
    depth: Option<u8>,
    Ghost(list): Ghost<Seq<SigningAccount>>,
    Ghost(held): Ghost<Set<RecordView>>,
) -> (fault: Option<InputFault>)
    requires
        lists_accounts(list, held),
        is_deepest(depth, list),
    ensures
        fault == input_fault(input@, held),
{
    let mut k: usize = 0;
    while k < input.origin_lengths.len()
        invariant
            k <= input.origin_lengths@.len(),
            lists_accounts(list, held),
            is_deepest(depth, list),
            forall|j: int| 0 <= j < k ==> origin_fits(#[trigger] input.origin_lengths@[j], held),
        decreases input.origin_lengths@.len() - k,
    {
        let length = input.origin_lengths[k];
        proof {
            lemma_fits_below_the_deepest(length, depth, list, held);
        }
        match depth {
            Some(most) => {
                if length > 255 - most as usize {
                    assert(!origin_fits(input@.origin_lengths[k as int], held));
                    return Some(InputFault::OriginTooLong);
                }
            },
            None => {},
        }
        k += 1;
    }
    match &input.tweak_field {
        Some(field) => {
            if field.len() == 65 && !scalar_in_range(slice_subrange(field.as_slice(), 33, 65)) {
                return Some(InputFault::TweakOutOfRange);
            }
        },
        None => {},
    }
    match &input.key_signature {
        Some(signature) => {
            let bytes = signature.as_slice();
            if !point_from_x(slice_subrange(bytes, 0, 32)) || !scalar_in_range(
                slice_subrange(bytes, 32, 64),
            ) {
                return Some(InputFault::KeySignature);
            }
        },
        None => {},
    }
    None
}

impl KeyProvider {
    /// A provider without accounts.
    pub fn new() -> (provider: KeyProvider)
        ensures
            provider_accounts(provider) == Set::<RecordView>::empty(),
    {
        provider_with()
    }

    /// Registers the account of a record. Accounts are told apart by their
    /// keys: where the key is held already nothing changes and `false` comes
    /// back.
    pub fn add_account(&mut self, record: &MasterKeyRecord) -> (fresh: bool)
        ensures
            fresh == !holds_key(provider_accounts(*old(self)), record@.xpriv),
            provider_accounts(*final(self)) == if fresh {
                provider_accounts(*old(self)).insert(record@)
            } else {
                provider_accounts(*old(self))
            },
    {
        let key = record.xpriv.encode();
        provider_add(self, &record.master_id, &record.derivation, &key)
    }

    /// Signs every input of the transaction that an account of the provider
    /// has a key for, and reports the number of signatures added and the
    /// identifier of the transaction. The transaction handed in is left as
    /// it is, and so is the provider. A transaction with an input that the
    /// signer cannot be given is refused with the first such input.
    pub fn sign(&self, psbt: &Psbt) -> (r: Result<Signed, SignFailure>)
        ensures
            signing_outcome(r, *psbt, provider_accounts(*self)),
    {
        let accounts = self.accounts();
        let depth = deepest(&accounts);
        let inputs = psbt_input_keys(psbt);
        let ghost held = provider_accounts(*self);
        let mut i: usize = 0;
        while i < inputs.len()
            invariant
                i <= inputs@.len() == psbt_inputs(*psbt).len(),
                forall|k: int|
                    0 <= k < inputs@.len() ==> (#[trigger] inputs@[k])@ == psbt_inputs(*psbt)[k],
                held == provider_accounts(*self),
                lists_accounts(accounts@, held),
                is_deepest(depth, accounts@),
                first_fault(psbt_inputs(*psbt), held, i as nat) is None,
            decreases inputs@.len() - i,
        {
            assert(inputs@[i as int]@ == psbt_inputs(*psbt)[i as int]);
            match input_check(&inputs[i], depth, Ghost(accounts@), Ghost(held)) {
                Some(fault) => {
                    proof {
                        lemma_first_fault_stays(
                            psbt_inputs(*psbt),
                            held,
                            i as nat,
                            inputs@.len() as nat,
                        );
                    }
                    return Err(SignFailure::Input { index: i, fault });
                },
                None => {},
            }
            i += 1;
        }
        match sign_all(psbt, self) {
            Ok((signed, signatures)) => {
                let txid = unsigned_txid(&signed);
                Ok(Signed { psbt: signed, signatures, txid })
            },
            Err(error) => Err(SignFailure::Signer(error)),
        }
    }

    /// The accounts of the provider, every one once.
    pub fn accounts(&self) -> (list: Vec<SigningAccount>)
        ensures
            lists_accounts(list@, provider_accounts(*self)),
    {
        let keys = provider_list(self);
        let mut list: Vec<SigningAccount> = Vec::new();
        let mut i: usize = 0;
        while i < keys.len()
            invariant
                i <= keys@.len(),
                list@.len() == i,
                forall|k: int| 0 <= k < keys@.len() ==> canonical_key((#[trigger] keys@[k]).0@),
                forall|k: int|
                    0 <= k < i ==> (#[trigger] list@[k]).xpriv@ == keys@[k].0@ && list@[k].fingerprint@
                        == keys@[k].1@,
            decreases keys@.len() - i,
        {
            let (key, fingerprint) = keys[i];
            list.push(SigningAccount { xpriv: ExtendedKey::from_canonical(key), fingerprint });
            i += 1;
        }
        proof {
            let held = provider_accounts(*self);
            assert forall|r: RecordView| #[trigger] held.contains(r) implies exists|i: int|
                0 <= i < list@.len() && (#[trigger] list@[i]).xpriv@ == r.xpriv by {
                let k = choose|k: int| 0 <= k < keys@.len() && (#[trigger] keys@[k]).0@ == r.xpriv;
                assert(list@[k].xpriv@ == r.xpriv);
            }
        }
        list
    }

    /// The account that requests are served with: the only one where the
    /// provider holds one, one of them where it holds several, none where it
    /// holds none.
    pub fn primary_account(&self) -> (r: Option<SigningAccount>)
        ensures
            is_primary(r, provider_accounts(*self)),
    {
        let list = self.accounts();
        if list.len() == 0 {
            assert(provider_accounts(*self) =~= Set::<RecordView>::empty());
            None
        } else {
            let first = list[0];
            assert(holds_key(provider_accounts(*self), list@[0].xpriv@));
            Some(first)
        }
    }
}

} // verus!
