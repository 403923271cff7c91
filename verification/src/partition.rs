//! Partition-entry codec: decode/encode of the fixed-width array of
//! partition entries. Each slot is 128 bytes; a slot whose type identifier
//! is all-zero is unused and is excluded from the logical partition list.

use vstd::prelude::*;
use vstd::bytes::{
    spec_u16_to_le_bytes, spec_u16_from_le_bytes, spec_u64_to_le_bytes, spec_u64_from_le_bytes,
    spec_u128_to_le_bytes, spec_u128_from_le_bytes, lemma_auto_spec_u16_to_from_le_bytes,
    lemma_auto_spec_u64_to_from_le_bytes, lemma_auto_spec_u128_to_from_le_bytes,
    u16_to_le_bytes, u16_from_le_bytes, u64_to_le_bytes, u64_from_le_bytes, u128_to_le_bytes,
    u128_from_le_bytes,
};
use vstd::slice::slice_subrange;
use crate::GptError;
use crate::crc32::{crc32, spec_crc32};
use crate::header::Header;

verus! {

/// One logical GPT partition entry.
#[derive(Debug, Clone, PartialEq, Eq)]
pub struct Partition {
    /// 128-bit partition-type identifier; all-zero marks an unused slot.
    pub part_type_guid: u128,
    /// 128-bit unique identifier of this partition instance.
    pub part_guid: u128,
    /// First logical block of the partition.
    pub first_lba: u64,
    /// Last logical block of the partition, inclusive.
    pub last_lba: u64,
    /// Attribute flags.
    pub flags: u64,
    /// Fixed-length UTF-16 name, null-padded to 36 code units.
    pub name: Vec<u16>,
}

/// The mathematical model of a partition entry.
#[verifier::ext_equal]
pub struct PartitionV {
    /// Model of the type identifier.
    pub part_type_guid: u128,
    /// Model of the unique identifier.
    pub part_guid: u128,
    /// Model of the first block.
    pub first_lba: u64,
    /// Model of the last block.
    pub last_lba: u64,
    /// Model of the attribute flags.
    pub flags: u64,
    /// Model of the UTF-16 name.
    pub name: Seq<u16>,
}

impl View for Partition {
    type V = PartitionV;

    open spec fn view(&self) -> PartitionV {
        PartitionV {
            part_type_guid: self.part_type_guid,
            part_guid: self.part_guid,
            first_lba: self.first_lba,
            last_lba: self.last_lba,
            flags: self.flags,
            name: self.name@,
        }
    }
}

/// Structural well-formedness of one entry: the name has its fixed length.
pub open spec fn entry_wf(p: PartitionV) -> bool {
    p.name.len() == 36
}

/// Structural well-formedness of a whole partition list.
pub open spec fn entries_wf(ps: Seq<PartitionV>) -> bool {
    forall|i: int| 0 <= i < ps.len() ==> entry_wf(#[trigger] ps[i])
}

/// The models of a vector of partitions, in order.
pub open spec fn views(ps: Seq<Partition>) -> Seq<PartitionV> {
    Seq::new(ps.len(), |i: int| ps[i]@)
}

/// The canonical unused entry: every field zero. Its 128-byte encoding is
/// all zeros, so declared slots past the partition list are zero-filled.
pub open spec fn spec_unused_entry() -> PartitionV {
    PartitionV {
        part_type_guid: 0,
        part_guid: 0,
        first_lba: 0,
        last_lba: 0,
        flags: 0,
        name: Seq::new(36, |i: int| 0u16),
    }
}

/// UTF-16 code units serialized as little-endian byte pairs, in order.
pub open spec fn spec_utf16_bytes(name: Seq<u16>) -> Seq<u8>
    decreases name.len(),
{
    if name.len() == 0 {
        Seq::empty()
    } else {
        spec_utf16_bytes(name.drop_last()) + spec_u16_to_le_bytes(name.last())
    }
}

/// UTF-16 code units read back from little-endian byte pairs.
pub open spec fn spec_utf16_from_bytes(b: Seq<u8>) -> Seq<u16> {
    Seq::new((b.len() / 2) as nat, |i: int| spec_u16_from_le_bytes(b.subrange(2 * i, 2 * i + 2)))
}

/// The 128-byte encoding of one entry: type identifier, unique identifier,
/// first and last block, flags, then the name.
pub open spec fn spec_encode_entry(p: PartitionV) -> Seq<u8> {
    spec_u128_to_le_bytes(p.part_type_guid) + spec_u128_to_le_bytes(p.part_guid)
        + spec_u64_to_le_bytes(p.first_lba) + spec_u64_to_le_bytes(p.last_lba)
        + spec_u64_to_le_bytes(p.flags) + spec_utf16_bytes(p.name)
}

/// The entry read back from one 128-byte slot.
pub open spec fn spec_decode_entry(b: Seq<u8>) -> PartitionV
    recommends
        b.len() == 128,
{
    PartitionV {
        part_type_guid: spec_u128_from_le_bytes(b.subrange(0, 16)),
        part_guid: spec_u128_from_le_bytes(b.subrange(16, 32)),
        first_lba: spec_u64_from_le_bytes(b.subrange(32, 40)),
        last_lba: spec_u64_from_le_bytes(b.subrange(40, 48)),
        flags: spec_u64_from_le_bytes(b.subrange(48, 56)),
        name: spec_utf16_from_bytes(b.subrange(56, 128)),
    }
}

/// The entry serialized into slot `i`: the `i`-th partition while the list
/// lasts, the canonical unused entry for the remaining declared slots.
pub open spec fn spec_slot_entry(ps: Seq<PartitionV>, i: int) -> PartitionV {
    if i < ps.len() {
        ps[i]
    } else {
        spec_unused_entry()
    }
}

/// The serialized array: `count` slots of 128 bytes each, the partition
/// list first and zero-filled unused slots after it.
pub open spec fn spec_encode_array(ps: Seq<PartitionV>, count: nat) -> Seq<u8>
    decreases count,
{
    if count == 0 {
        Seq::empty()
    } else {
        spec_encode_array(ps, (count - 1) as nat) + spec_encode_entry(
            spec_slot_entry(ps, count - 1),
        )
    }
}

/// All `count` entries read back from a serialized array, unused slots
/// included.
pub open spec fn spec_entries(raw: Seq<u8>, count: nat) -> Seq<PartitionV> {
    Seq::new(count, |i: int| spec_decode_entry(raw.subrange(128 * i, 128 * i + 128)))
}

/// The logical partition list of a decoded array: entries whose type
/// identifier is not all-zero, in on-disk order.
pub open spec fn spec_nonzero(es: Seq<PartitionV>) -> Seq<PartitionV> {
    es.filter(|e: PartitionV| e.part_type_guid != 0)
}

/// Round trip for the UTF-16 name region: serialized code units read back
/// unchanged, and the byte length is exactly two per unit.
pub proof fn lemma_utf16_round_trip(name: Seq<u16>)
    ensures
        spec_utf16_bytes(name).len() == 2 * name.len(),
        spec_utf16_from_bytes(spec_utf16_bytes(name)) == name,
    decreases name.len(),
{
    lemma_auto_spec_u16_to_from_le_bytes();
    if name.len() == 0 {
        assert(spec_utf16_from_bytes(spec_utf16_bytes(name)) =~= name);
    } else {
        lemma_utf16_round_trip(name.drop_last());
        let b = spec_utf16_bytes(name);
        let prefix = spec_utf16_bytes(name.drop_last());
        let lastb = spec_u16_to_le_bytes(name.last());
        assert forall|i: int| 0 <= i < name.len() implies spec_utf16_from_bytes(b)[i]
            == name[i] by {
            if i < name.len() - 1 {
                assert(b.subrange(2 * i, 2 * i + 2) =~= prefix.subrange(2 * i, 2 * i + 2));
                assert(spec_utf16_from_bytes(prefix)[i] == name.drop_last()[i]);
            } else {
                assert(b.subrange(2 * i, 2 * i + 2) =~= lastb);
            }
        }
        assert(spec_utf16_from_bytes(b) =~= name);
    }
}

/// Round trip for one entry: decoding an encoded well-formed entry gives
/// the entry back, and the slot is exactly 128 bytes.
pub proof fn lemma_entry_round_trip(p: PartitionV)
    requires
        entry_wf(p),
    ensures
        spec_encode_entry(p).len() == 128,
        spec_decode_entry(spec_encode_entry(p)) == p,
{
    lemma_auto_spec_u64_to_from_le_bytes();
    lemma_auto_spec_u128_to_from_le_bytes();
    lemma_utf16_round_trip(p.name);
    let b = spec_encode_entry(p);
    assert(b.subrange(0, 16) =~= spec_u128_to_le_bytes(p.part_type_guid));
    assert(b.subrange(16, 32) =~= spec_u128_to_le_bytes(p.part_guid));
    assert(b.subrange(32, 40) =~= spec_u64_to_le_bytes(p.first_lba));
    assert(b.subrange(40, 48) =~= spec_u64_to_le_bytes(p.last_lba));
    assert(b.subrange(48, 56) =~= spec_u64_to_le_bytes(p.flags));
    assert(b.subrange(56, 128) =~= spec_utf16_bytes(p.name));
    assert(spec_decode_entry(b) =~= p);
}

/// The serialized array is 128 bytes per declared slot.
pub proof fn lemma_encode_array_len(ps: Seq<PartitionV>, count: nat)
    requires
        entries_wf(ps),
    ensures
        spec_encode_array(ps, count).len() == 128 * count,
    decreases count,
{
    if count > 0 {
        lemma_encode_array_len(ps, (count - 1) as nat);
        lemma_entry_round_trip(spec_slot_entry(ps, count as int - 1));
    }
}

/// Slot `j` of the serialized array holds exactly the encoding of the entry
/// serialized into it.
pub proof fn lemma_encode_array_slot(ps: Seq<PartitionV>, count: nat, j: int)
    requires
        entries_wf(ps),
        0 <= j < count,
    ensures
        spec_encode_array(ps, count).subrange(128 * j, 128 * j + 128) == spec_encode_entry(
            spec_slot_entry(ps, j),
        ),
    decreases count,
{
    lemma_encode_array_len(ps, count);
    lemma_encode_array_len(ps, (count - 1) as nat);
    lemma_entry_round_trip(spec_slot_entry(ps, count as int - 1));
    if j == count - 1 {
        assert(spec_encode_array(ps, count).subrange(128 * j, 128 * j + 128)
            =~= spec_encode_entry(spec_slot_entry(ps, j)));
    } else {
        lemma_encode_array_slot(ps, (count - 1) as nat, j);
        assert(spec_encode_array(ps, count).subrange(128 * j, 128 * j + 128)
            =~= spec_encode_array(ps, (count - 1) as nat).subrange(128 * j, 128 * j + 128));
    }
}

/// The canonical unused entry is excluded from any logical partition list.
pub proof fn lemma_unused_filtered(es: Seq<PartitionV>)
    requires
        forall|i: int| 0 <= i < es.len() ==> #[trigger] es[i] == spec_unused_entry(),
    ensures
        spec_nonzero(es) == Seq::<PartitionV>::empty(),
    decreases es.len(),
{
    reveal(Seq::filter);
    if es.len() > 0 {
        lemma_unused_filtered(es.drop_last());
        assert(es.drop_last() =~= es.subrange(0, es.len() - 1));
    }
    assert(spec_nonzero(es) =~= Seq::<PartitionV>::empty());
}

/// Round trip for the whole array: decoding a serialized partition list
/// yields the list with zero-type slots removed.
pub proof fn lemma_array_round_trip(ps: Seq<PartitionV>, count: nat)
    requires
        entries_wf(ps),
        ps.len() <= count,
    ensures
        spec_nonzero(spec_entries(spec_encode_array(ps, count), count)) == spec_nonzero(ps),
{
    let raw = spec_encode_array(ps, count);
    let es = spec_entries(raw, count);
    lemma_encode_array_len(ps, count);
    assert forall|i: int| 0 <= i < count implies es[i] == spec_slot_entry(ps, i) by {
        lemma_encode_array_slot(ps, count, i);
        lemma_entry_round_trip(spec_slot_entry(ps, i));
    }
    let pad = Seq::new((count - ps.len()) as nat, |i: int| spec_unused_entry());
    assert(es =~= ps + pad);
    Seq::filter_distributes_over_add(ps, pad, |e: PartitionV| e.part_type_guid != 0);
    lemma_unused_filtered(pad);
    assert(spec_nonzero(ps + pad) == spec_nonzero(ps) + spec_nonzero(pad));
    assert(spec_nonzero(ps) + Seq::<PartitionV>::empty() =~= spec_nonzero(ps));
}

/// A vector of 36 zero UTF-16 code units: the name of the unused entry.
fn zero_name() -> (r: Vec<u16>)
    ensures
        r@ == spec_unused_entry().name,
{
    let mut v: Vec<u16> = Vec::new();
    let mut i: usize = 0;
    while i < 36
        invariant
            0 <= i <= 36,
            v@ =~= Seq::new(i as nat, |j: int| 0u16),
        decreases 36 - i,
    {
        v.push(0);
        proof {
            assert(v@ =~= Seq::new((i + 1) as nat, |j: int| 0u16));
        }
        i = i + 1;
    }
    proof {
        assert(v@ =~= spec_unused_entry().name);
    }
    v
}

/// Serializes one entry into its 128-byte slot.
pub fn encode_entry(p: &Partition) -> (r: Vec<u8>)
    requires
        entry_wf(p@),
    ensures
        r@ == spec_encode_entry(p@),
        r@.len() == 128,
{
    proof {
        lemma_entry_round_trip(p@);
    }
    let mut out: Vec<u8> = Vec::new();
    let mut tg: Vec<u8> = u128_to_le_bytes(p.part_type_guid);
    out.append(&mut tg);
    let mut ug: Vec<u8> = u128_to_le_bytes(p.part_guid);
    out.append(&mut ug);
    let mut fl: Vec<u8> = u64_to_le_bytes(p.first_lba);
    out.append(&mut fl);
    let mut ll: Vec<u8> = u64_to_le_bytes(p.last_lba);
    out.append(&mut ll);
    let mut at: Vec<u8> = u64_to_le_bytes(p.flags);
    out.append(&mut at);
    let ghost prefix = out@;
    let mut i: usize = 0;
    while i < p.name.len()
        invariant
            0 <= i <= p.name@.len(),
            out@ =~= prefix + spec_utf16_bytes(p.name@.take(i as int)),
        decreases p.name@.len() - i,
    {
        let mut nb: Vec<u8> = u16_to_le_bytes(p.name[i]);
        out.append(&mut nb);
        proof {
            assert(p.name@.take(i + 1).drop_last() =~= p.name@.take(i as int));
            assert(p.name@.take(i + 1).last() == p.name@[i as int]);
            assert(out@ =~= prefix + spec_utf16_bytes(p.name@.take(i + 1)));
        }
        i = i + 1;
    }
    proof {
        assert(p.name@.take(p.name@.len() as int) =~= p.name@);
        assert(out@ =~= spec_encode_entry(p@));
    }
    out
}

/// Reads one entry back from its 128-byte slot.
pub fn decode_entry(b: &[u8]) -> (r: Partition)
    requires
        b@.len() == 128,
    ensures
        r@ == spec_decode_entry(b@),
        entry_wf(r@),
{
    let part_type_guid: u128 = u128_from_le_bytes(slice_subrange(b, 0, 16));
    let part_guid: u128 = u128_from_le_bytes(slice_subrange(b, 16, 32));
    let first_lba: u64 = u64_from_le_bytes(slice_subrange(b, 32, 40));
    let last_lba: u64 = u64_from_le_bytes(slice_subrange(b, 40, 48));
    let flags: u64 = u64_from_le_bytes(slice_subrange(b, 48, 56));
    let mut name: Vec<u16> = Vec::new();
    let mut i: usize = 0;
    while i < 36
        invariant
            0 <= i <= 36,
            b@.len() == 128,
            name@ =~= Seq::new(i as nat, |j: int| spec_u16_from_le_bytes(
                b@.subrange(56 + 2 * j, 56 + 2 * j + 2),
            )),
        decreases 36 - i,
    {
        let u: u16 = u16_from_le_bytes(slice_subrange(b, 56 + 2 * i, 56 + 2 * i + 2));
        name.push(u);
        proof {
            assert(name@ =~= Seq::new((i + 1) as nat, |j: int| spec_u16_from_le_bytes(
                b@.subrange(56 + 2 * j, 56 + 2 * j + 2),
            )));
        }
        i = i + 1;
    }
    proof {
        let sub = b@.subrange(56, 128);
        assert forall|j: int| 0 <= j < 36 implies spec_utf16_from_bytes(sub)[j] == name@[j] by {
            assert(sub.subrange(2 * j, 2 * j + 2) =~= b@.subrange(56 + 2 * j, 56 + 2 * j + 2));
        }
        assert(name@ =~= spec_utf16_from_bytes(sub));
    }
    Partition { part_type_guid, part_guid, first_lba, last_lba, flags, name }
}

/// Serializes the logical partition list into a buffer of exactly
/// `entry_count * entry_size` bytes, zero-filling the declared slots past
/// the list. Fails with `PartitionTableCorrupt` when the declared geometry
/// cannot hold the list: an entry size other than 128, more partitions than
/// declared slots, a name of the wrong length, or a buffer too large for
/// this machine.
pub fn encode_array(partitions: &Vec<Partition>, entry_count: u32, entry_size: u32) -> (r: Result<
    Vec<u8>,
    GptError,
>)
    ensures
        match r {
            Ok(b) => {
                &&& spec_array_geometry_ok(views(partitions@), entry_count, entry_size)
                &&& b@ == spec_encode_array(views(partitions@), entry_count as nat)
                &&& b@.len() == 128 * entry_count
            },
            Err(e) => {
                &&& e == GptError::PartitionTableCorrupt
                &&& !spec_array_geometry_ok(views(partitions@), entry_count, entry_size)
            },
        },
{
    if entry_size != 128 {
        return Err(GptError::PartitionTableCorrupt);
    }
    if (entry_count as u64) * 128 > (usize::MAX as u64) {
        return Err(GptError::PartitionTableCorrupt);
    }
    if (partitions.len() as u64) > (entry_count as u64) {
        return Err(GptError::PartitionTableCorrupt);
    }
    let ghost psv = views(partitions@);
    let mut i: usize = 0;
    while i < partitions.len()
        invariant
            0 <= i <= partitions@.len(),
            psv == views(partitions@),
            forall|j: int| 0 <= j < i ==> entry_wf(#[trigger] psv[j]),
        decreases partitions@.len() - i,
    {
        if partitions[i].name.len() != 36 {
            proof {
                assert(!entry_wf(psv[i as int]));
            }
            return Err(GptError::PartitionTableCorrupt);
        }
        i = i + 1;
    }
    let unused = Partition {
        part_type_guid: 0,
        part_guid: 0,
        first_lba: 0,
        last_lba: 0,
        flags: 0,
        name: zero_name(),
    };
    proof {
        assert(unused@ =~= spec_unused_entry());
        lemma_encode_array_len(psv, entry_count as nat);
    }
    let mut out: Vec<u8> = Vec::new();
    let mut slot: usize = 0;
    while slot < entry_count as usize
        invariant
            0 <= slot <= entry_count,
            entry_count as u64 * 128 <= usize::MAX as u64,
            psv == views(partitions@),
            entries_wf(psv),
            psv.len() <= entry_count,
            unused@ == spec_unused_entry(),
            entry_wf(unused@),
            out@ =~= spec_encode_array(psv, slot as nat),
            out@.len() == 128 * slot,
        decreases entry_count - slot,
    {
        proof {
            if (slot as int) < partitions@.len() {
                assert(entry_wf(psv[slot as int]));
            }
        }
        let mut eb: Vec<u8> = if slot < partitions.len() {
            encode_entry(&partitions[slot])
        } else {
            encode_entry(&unused)
        };
        proof {
            assert(eb@ == spec_encode_entry(spec_slot_entry(psv, slot as int)));
        }
        out.append(&mut eb);
        proof {
            assert(out@ =~= spec_encode_array(psv, (slot + 1) as nat));
        }
        slot = slot + 1;
    }
    Ok(out)
}

/// Whether the declared array geometry can hold the partition list: the
/// conventional 128-byte entry size, at most `entry_count` partitions, all
/// names of the fixed length, and a buffer that fits this machine.
pub open spec fn spec_array_geometry_ok(ps: Seq<PartitionV>, entry_count: u32, entry_size: u32) -> bool {
    &&& entry_size == 128
    &&& entry_count as int * 128 <= usize::MAX as int
    &&& ps.len() <= entry_count
    &&& entries_wf(ps)
}

/// Decodes the partition-entry array read from disk against its owning
/// header: checks the declared entry size, recomputes the CRC-32 of the
/// full raw array (unused zero slots included) against the header's stored
/// partition-array checksum, and returns the entries whose type identifier
/// is not all-zero, in on-disk order.
pub fn decode_array(raw: &[u8], header: &Header) -> (r: Result<Vec<Partition>, GptError>)
    requires
        raw@.len() == header.num_parts as int * header.part_size as int,
    ensures
        match r {
            Ok(pv) => {
                &&& header.part_size == 128
                &&& spec_crc32(raw@) == header.crc32_parts
                &&& views(pv@) == spec_nonzero(spec_entries(raw@, header.num_parts as nat))
                &&& entries_wf(views(pv@))
            },
            Err(GptError::PartitionTableCorrupt) => header.part_size != 128,
            Err(GptError::ChecksumMismatch) => {
                &&& header.part_size == 128
                &&& spec_crc32(raw@) != header.crc32_parts
            },
            Err(_) => false,
        },
{
    if header.part_size != 128 {
        return Err(GptError::PartitionTableCorrupt);
    }
    if crc32(raw) != header.crc32_parts {
        return Err(GptError::ChecksumMismatch);
    }
    let count: usize = header.num_parts as usize;
    let total: usize = raw.len();
    let mut out: Vec<Partition> = Vec::new();
    let mut i: usize = 0;
    while i < count
        invariant
            0 <= i <= count,
            count == header.num_parts,
            raw@.len() == count as int * 128,
            raw@.len() == total,
            views(out@) =~= spec_nonzero(spec_entries(raw@, i as nat)),
            entries_wf(views(out@)),
        decreases count - i,
    {
        let p: Partition = decode_entry(slice_subrange(raw, i * 128, i * 128 + 128));
        let ghost prev = out@;
        if p.part_type_guid != 0 {
            out.push(p);
        }
        proof {
            reveal(Seq::filter);
            let es_i = spec_entries(raw@, i as nat);
            let es_next = spec_entries(raw@, (i + 1) as nat);
            assert(es_next.drop_last() =~= es_i);
            assert(es_next.last() == p@);
            if p@.part_type_guid != 0 {
                assert(views(out@) =~= views(prev).push(p@));
                assert(spec_nonzero(es_next) == spec_nonzero(es_i).push(p@));
            } else {
                assert(out@ == prev);
                assert(spec_nonzero(es_next) == spec_nonzero(es_i));
            }
            assert(views(out@) =~= spec_nonzero(es_next));
            assert(entries_wf(views(out@)));
        }
        i = i + 1;
    }
    Ok(out)
}

} // verus!
