//! The master key record and its binary layout: a 20-byte identifier of the
//! master key, the derivation path of the account (a 16-bit little-endian
//! count, then for every step one byte for its kind and the index as a
//! 32-bit little-endian integer), and the serialized account key.

use crate::bytes::{
    le_u16_at, le_u16_bytes, le_u32_at, le_u32_bytes, lemma_le_u32_round_trip, push_le_u16,
    push_le_u32, read_le_u16, read_le_u32,
};
use crate::xpriv::{canonical, canonical_key, valid_key_encoding, ExtendedKey, KEY_LEN};
use vstd::prelude::*;
use vstd::slice::slice_subrange;

verus! {

/// Length of the identifier of the master key.
pub const ID_LEN: usize = 20;

/// Offset of the first derivation step: after the identifier and the count.
pub const PATH_START: usize = 22;

/// Length of one derivation step in the layout.
pub const STEP_LEN: usize = 5;

/// One step of a derivation path.
#[derive(Clone, Copy, Debug, PartialEq, Eq, Structural)]
pub enum ChildNumber {
    Normal { index: u32 },
    Hardened { index: u32 },
}

/// Why a byte string is not a master key record.
#[derive(Clone, Copy, Debug, PartialEq, Eq, Structural)]
pub enum DecodeError {
    /// The bytes end before the field that is being read does.
    Truncated,
    /// A derivation step is marked with a kind other than 0 (normal) and 1
    /// (hardened).
    UnknownStepKind(u8),
    /// The account key has an unknown version or an invalid secret key.
    KeyIntegrity,
}

/// The master key material of a node.
#[derive(Clone, Debug, PartialEq, Eq)]
pub struct MasterKeyRecord {
    pub master_id: [u8; 20],
    pub derivation: Vec<ChildNumber>,
    pub xpriv: ExtendedKey,
}

/// What a master key record holds.
pub struct RecordView {
    pub master_id: Seq<u8>,
    pub derivation: Seq<ChildNumber>,
    pub xpriv: Seq<u8>,
}

impl View for MasterKeyRecord {
    type V = RecordView;

    open spec fn view(&self) -> RecordView {
        RecordView {
            master_id: self.master_id@,
            derivation: self.derivation@,
            xpriv: self.xpriv@,
        }
    }
}

/// Three fields that the layout has room for: 20 bytes of identifier, a
/// path that fits the 16-bit count, 78 bytes of key.
pub open spec fn framed(r: RecordView) -> bool {
    &&& r.master_id.len() == 20
    &&& r.derivation.len() <= 0xFFFF
    &&& r.xpriv.len() == 78
}

/// A record that the layout can hold: its fields have room and the key is a
/// valid one in canonical form.
pub open spec fn storable(r: RecordView) -> bool {
    framed(r) && canonical_key(r.xpriv)
}

/// Offset of derivation step `i`.
pub open spec fn step_offset(i: int) -> int {
    22 + 5 * i
}

/// Derivation step `i` as the layout holds it in `b`.
pub open spec fn step_at(b: Seq<u8>, i: int) -> ChildNumber {
    if b[step_offset(i)] == 1 {
        ChildNumber::Hardened { index: le_u32_at(b, step_offset(i) + 1) as u32 }
    } else {
        ChildNumber::Normal { index: le_u32_at(b, step_offset(i) + 1) as u32 }
    }
}

/// What is wrong with derivation step `i` of `b`, if anything.
pub open spec fn step_fault(b: Seq<u8>, i: int) -> Option<DecodeError> {
    if b.len() < step_offset(i) + 5 {
        Some(DecodeError::Truncated)
    } else if b[step_offset(i)] > 1 {
        Some(DecodeError::UnknownStepKind(b[step_offset(i)]))
    } else {
        None
    }
}

/// The fault of the first faulty step among the first `count` steps of `b`.
pub open spec fn path_fault(b: Seq<u8>, count: nat) -> Option<DecodeError>
    decreases count,
{
    if count == 0 {
        None
    } else if path_fault(b, (count - 1) as nat) is Some {
        path_fault(b, (count - 1) as nat)
    } else {
        step_fault(b, count - 1)
    }
}

/// The record that `b` opens with, or the first fault met on the way through
/// its three fields. Bytes after the record are not looked at.
pub open spec fn decoded(b: Seq<u8>) -> Result<RecordView, DecodeError> {
    if b.len() < 22 {
        Err(DecodeError::Truncated)
    } else {
        let count = le_u16_at(b, 20);
        let key_at = step_offset(count);
        if path_fault(b, count as nat) is Some {
            Err(path_fault(b, count as nat).unwrap())
        } else if b.len() < key_at + 78 {
            Err(DecodeError::Truncated)
        } else if !valid_key_encoding(b.subrange(key_at, key_at + 78)) {
            Err(DecodeError::KeyIntegrity)
        } else {
            Ok(
                RecordView {
                    master_id: b.subrange(0, 20),
                    derivation: Seq::new(count as nat, |i: int| step_at(b, i)),
                    xpriv: canonical(b.subrange(key_at, key_at + 78)),
                },
            )
        }
    }
}

/// The index of a derivation step.
pub open spec fn step_index(c: ChildNumber) -> u32 {
    match c {
        ChildNumber::Normal { index } => index,
        ChildNumber::Hardened { index } => index,
    }
}

/// The five bytes of one derivation step.
pub open spec fn step_bytes(c: ChildNumber) -> Seq<u8> {
    match c {
        ChildNumber::Normal { index } => seq![0u8] + le_u32_bytes(index as int),
        ChildNumber::Hardened { index } => seq![1u8] + le_u32_bytes(index as int),
    }
}

/// The bytes of the steps of a path, one after the other.
pub open spec fn path_bytes(p: Seq<ChildNumber>) -> Seq<u8>
    decreases p.len(),
{
    if p.len() == 0 {
        Seq::empty()
    } else {
        path_bytes(p.drop_last()) + step_bytes(p.last())
    }
}

/// The layout of a record.
pub open spec fn encoded(r: RecordView) -> Seq<u8> {
    r.master_id + le_u16_bytes(r.derivation.len() as int) + path_bytes(r.derivation) + r.xpriv
}

/// Whether the outcome `r` of a load is the one that `expected` describes.
pub open spec fn load_outcome(
    r: Result<MasterKeyRecord, DecodeError>,
    expected: Result<RecordView, DecodeError>,
) -> bool {
    match expected {
        Ok(v) => r matches Ok(record) && record@ == v,
        Err(e) => r matches Err(fault) && fault == e,
    }
}

/// Once a step is faulty, every longer prefix of the path has the fault of
/// its first faulty step.
proof fn lemma_first_fault_stays(b: Seq<u8>, i: nat, count: nat)
    requires
        i < count,
        path_fault(b, i) is None,
        step_fault(b, i as int) is Some,
    ensures
        path_fault(b, count) == step_fault(b, i as int),
    decreases count,
{
    if count > i + 1 {
        lemma_first_fault_stays(b, i, (count - 1) as nat);
    }
}

fn read_id(bytes: &[u8]) -> (id: [u8; 20])
    requires
        bytes@.len() >= 20,
    ensures
        id@ == bytes@.subrange(0, 20),
{
    let mut id = [0u8; 20];
    let mut i: usize = 0;
    while i < ID_LEN
        invariant
            i <= 20,
            bytes@.len() >= 20,
            forall|j: int| 0 <= j < i ==> id@[j] == bytes@[j],
        decreases 20 - i,
    {
        id[i] = bytes[i];
        i += 1;
    }
    assert(id@ =~= bytes@.subrange(0, 20));
    id
}

impl MasterKeyRecord {
    /// Loads the record that `bytes` opens with. There is no partial
    /// success: the whole record comes back, or the first fault.
    pub fn decode(bytes: &[u8]) -> (r: Result<MasterKeyRecord, DecodeError>)
        ensures
            load_outcome(r, decoded(bytes@)),
    {
        let len = bytes.len();
        if len < PATH_START {
            return Err(DecodeError::Truncated);
        }
        let master_id = read_id(bytes);
        let count = read_le_u16(bytes, ID_LEN) as usize;
        let mut derivation: Vec<ChildNumber> = Vec::new();
        let mut i: usize = 0;
        while i < count
            invariant
                i <= count <= 0xFFFF,
                len == bytes@.len(),
                len >= 22,
                count == le_u16_at(bytes@, 20),
                path_fault(bytes@, i as nat) is None,
                derivation@ =~= Seq::new(i as nat, |j: int| step_at(bytes@, j)),
            decreases count - i,
        {
            let at = PATH_START + STEP_LEN * i;
            if len < at + STEP_LEN {
                proof {
                    lemma_first_fault_stays(bytes@, i as nat, count as nat);
                }
                return Err(DecodeError::Truncated);
            }
            let kind = bytes[at];
            let index = read_le_u32(bytes, at + 1);
            if kind > 1 {
                proof {
                    lemma_first_fault_stays(bytes@, i as nat, count as nat);
                }
                return Err(DecodeError::UnknownStepKind(kind));
            }
            derivation.push(
                if kind == 1 {
                    ChildNumber::Hardened { index }
                } else {
                    ChildNumber::Normal { index }
                },
            );
            i += 1;
        }
        let key_at = PATH_START + STEP_LEN * count;
        if len < key_at + KEY_LEN {
            return Err(DecodeError::Truncated);
        }
        match ExtendedKey::decode(slice_subrange(bytes, key_at, key_at + KEY_LEN)) {
            Some(xpriv) => Ok(MasterKeyRecord { master_id, derivation, xpriv }),
            None => Err(DecodeError::KeyIntegrity),
        }
    }

    /// Writes the record in its layout. A path of more than 65535 steps has
    /// no layout.
    pub fn encode(&self) -> (r: Option<Vec<u8>>)
        ensures
            r is Some <==> self@.derivation.len() <= 0xFFFF,
            r matches Some(b) ==> b@ == encoded(self@),
    {
        let count = self.derivation.len();
        if count > 0xFFFF {
            return None;
        }
        let mut out: Vec<u8> = Vec::new();
        let mut i: usize = 0;
        while i < ID_LEN
            invariant
                i <= 20,
                out@ =~= self.master_id@.subrange(0, i as int),
            decreases 20 - i,
        {
            out.push(self.master_id[i]);
            i += 1;
        }
        assert(out@ =~= self.master_id@);
        push_le_u16(&mut out, count as u16);
        let ghost head = out@;
        let mut i: usize = 0;
        while i < count
            invariant
                i <= count == self.derivation@.len(),
                out@ =~= head + path_bytes(self.derivation@.subrange(0, i as int)),
            decreases count - i,
        {
            let step = self.derivation[i];
            let ghost before = out@;
            match step {
                ChildNumber::Normal { index } => {
                    out.push(0u8);
                    push_le_u32(&mut out, index);
                },
                ChildNumber::Hardened { index } => {
                    out.push(1u8);
                    push_le_u32(&mut out, index);
                },
            }
            proof {
                let done = self.derivation@.subrange(0, i + 1);
                assert(done.drop_last() =~= self.derivation@.subrange(0, i as int));
                assert(done.last() == step);
                assert(out@ =~= before + step_bytes(step));
            }
            i += 1;
        }
        assert(self.derivation@.subrange(0, count as int) =~= self.derivation@);
        let key = self.xpriv.encode();
        let mut i: usize = 0;
        let ghost body = out@;
        while i < KEY_LEN
            invariant
                i <= 78,
                key@.len() == 78,
                out@ =~= body + key@.subrange(0, i as int),
            decreases 78 - i,
        {
            out.push(key[i]);
            i += 1;
        }
        assert(key@.subrange(0, 78) =~= key@);
        Some(out)
    }
}

proof fn lemma_path_bytes_len(p: Seq<ChildNumber>)
    ensures
        path_bytes(p).len() == 5 * p.len(),
    decreases p.len(),
{
    if p.len() > 0 {
        lemma_path_bytes_len(p.drop_last());
    }
}

proof fn lemma_path_bytes_index(p: Seq<ChildNumber>, i: int, k: int)
    requires
        0 <= i < p.len(),
        0 <= k < 5,
    ensures
        path_bytes(p).len() == 5 * p.len(),
        path_bytes(p)[5 * i + k] == step_bytes(p[i])[k],
    decreases p.len(),
{
    lemma_path_bytes_len(p);
    lemma_path_bytes_len(p.drop_last());
    if i < p.len() - 1 {
        lemma_path_bytes_index(p.drop_last(), i, k);
    }
}

/// Five bytes that are those of step `c` read back as `c`.
proof fn lemma_step_bytes_read_back(b: Seq<u8>, at: int, c: ChildNumber)
    requires
        0 <= at,
        at + 5 <= b.len(),
        b.subrange(at, at + 5) == step_bytes(c),
    ensures
        b[at] <= 1,
        (b[at] == 1) == (c is Hardened),
        le_u32_at(b, at + 1) == step_index(c),
{
    let word = le_u32_bytes(step_index(c) as int);
    let five = b.subrange(at, at + 5);
    assert(b[at] == five[0]);
    assert(b[at + 1] == five[1] == word[0]);
    assert(b[at + 2] == five[2] == word[1]);
    assert(b[at + 3] == five[3] == word[2]);
    assert(b[at + 4] == five[4] == word[3]);
    lemma_le_u32_round_trip(step_index(c) as int);
    assert(le_u32_at(b, at + 1) == le_u32_at(word, 0));
}

/// In the layout of three fields with room, followed by anything, step `i`
/// of the path reads back as it was written and has no fault.
proof fn lemma_step_reads_back(r: RecordView, tail: Seq<u8>, i: int)
    requires
        framed(r),
        0 <= i < r.derivation.len(),
    ensures
        step_fault(encoded(r) + tail, i) is None,
        step_at(encoded(r) + tail, i) == r.derivation[i],
{
    let b = encoded(r) + tail;
    let c = r.derivation[i];
    let at = step_offset(i);
    lemma_path_bytes_len(r.derivation);
    assert forall|k: int| 0 <= k < 5 implies b[at + k] == #[trigger] step_bytes(c)[k] by {
        lemma_path_bytes_index(r.derivation, i, k);
    }
    assert(b.subrange(at, at + 5) =~= step_bytes(c));
    lemma_step_bytes_read_back(b, at, c);
}

proof fn lemma_no_path_fault(r: RecordView, tail: Seq<u8>, count: nat)
    requires
        framed(r),
        count <= r.derivation.len(),
    ensures
        path_fault(encoded(r) + tail, count) is None,
    decreases count,
{
    if count > 0 {
        lemma_no_path_fault(r, tail, (count - 1) as nat);
        lemma_step_reads_back(r, tail, count - 1);
    }
}

/// A storable record that is written in its layout and loaded again comes
/// back with the same identifier, path and key, whatever bytes follow it.
pub proof fn lemma_load_reads_what_was_written(r: RecordView, tail: Seq<u8>)
    requires
        storable(r),
    ensures
        decoded(encoded(r) + tail) == Ok::<RecordView, DecodeError>(r),
{
    let b = encoded(r) + tail;
    let count = r.derivation.len();
    let key_at = step_offset(count as int);
    lemma_path_bytes_len(r.derivation);
    assert(b[20] == le_u16_bytes(count as int)[0]);
    assert(b[21] == le_u16_bytes(count as int)[1]);
    assert(le_u16_at(b, 20) == count);
    lemma_no_path_fault(r, tail, count);
    assert(b.subrange(key_at, key_at + 78) =~= r.xpriv);
    assert(canonical(r.xpriv) =~= r.xpriv);
    assert(b.subrange(0, 20) =~= r.master_id);
    assert forall|i: int| 0 <= i < count implies step_at(b, i) == r.derivation[i] by {
        lemma_step_reads_back(r, tail, i);
    }
    assert(Seq::new(count, |i: int| step_at(b, i)) =~= r.derivation);
}

/// A key file whose identifier and path are in order and whose key a BIP32
/// decoder refuses is corrupt: it gives no record but the fault of the key.
pub proof fn lemma_invalid_key_is_refused(r: RecordView, tail: Seq<u8>)
    requires
        framed(r),
        !valid_key_encoding(r.xpriv),
    ensures
        decoded(encoded(r) + tail) == Err::<RecordView, DecodeError>(DecodeError::KeyIntegrity),
{
    let b = encoded(r) + tail;
    let count = r.derivation.len();
    let key_at = step_offset(count as int);
    lemma_path_bytes_len(r.derivation);
    assert(b[20] == le_u16_bytes(count as int)[0]);
    assert(b[21] == le_u16_bytes(count as int)[1]);
    assert(le_u16_at(b, 20) == count);
    lemma_no_path_fault(r, tail, count);
    assert(b.subrange(key_at, key_at + 78) =~= r.xpriv);
}

/// Writing a storable record and loading what was written gives the record
/// back.
pub proof fn lemma_round_trip(r: RecordView)
    requires
        storable(r),
    ensures
        decoded(encoded(r)) == Ok::<RecordView, DecodeError>(r),
{
    lemma_load_reads_what_was_written(r, Seq::empty());
    assert(encoded(r) + Seq::<u8>::empty() =~= encoded(r));
}

proof fn lemma_cut_path_is_truncated(r: RecordView, len: int, count: nat)
    requires
        framed(r),
        22 <= len <= encoded(r).len(),
        count <= r.derivation.len(),
    ensures
        path_fault(encoded(r).subrange(0, len), count) is None || path_fault(
            encoded(r).subrange(0, len),
            count,
        ) == Some(DecodeError::Truncated),
    decreases count,
{
    if count > 0 {
        let b = encoded(r).subrange(0, len);
        lemma_cut_path_is_truncated(r, len, (count - 1) as nat);
        lemma_step_reads_back(r, Seq::empty(), count - 1);
        assert(encoded(r) + Seq::<u8>::empty() =~= encoded(r));
        if step_offset(count - 1) + 5 <= len {
            assert(b[step_offset(count - 1)] == encoded(r)[step_offset(count - 1)]);
        }
    }
}

/// A key file that holds less than the whole layout of a record is
/// truncated, wherever it was cut: no record comes out of it.
pub proof fn lemma_cut_record_is_truncated(r: RecordView, len: int)
    requires
        framed(r),
        0 <= len < encoded(r).len(),
    ensures
        decoded(encoded(r).subrange(0, len)) == Err::<RecordView, DecodeError>(
            DecodeError::Truncated,
        ),
{
    let b = encoded(r).subrange(0, len);
    let count = r.derivation.len();
    lemma_path_bytes_len(r.derivation);
    if len >= 22 {
        assert(b[20] == le_u16_bytes(count as int)[0]);
        assert(b[21] == le_u16_bytes(count as int)[1]);
        assert(le_u16_at(b, 20) == count);
        lemma_cut_path_is_truncated(r, len, count);
    }
}

} // verus!
