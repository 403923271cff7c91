//! Header codec and reconciliation: decode/encode of the one-sector GPT
//! header, derivation of a mutually consistent primary/backup header pair
//! from a partition list, and location of the backup header from the
//! device size.

use vstd::prelude::*;
use vstd::bytes::{
    spec_u32_to_le_bytes, spec_u32_from_le_bytes, spec_u64_to_le_bytes, spec_u64_from_le_bytes,
    spec_u128_to_le_bytes, spec_u128_from_le_bytes, lemma_auto_spec_u32_to_from_le_bytes,
    lemma_auto_spec_u64_to_from_le_bytes, lemma_auto_spec_u128_to_from_le_bytes, u32_to_le_bytes,
    u32_from_le_bytes, u64_to_le_bytes, u64_from_le_bytes, u128_to_le_bytes, u128_from_le_bytes,
};
use vstd::slice::{slice_subrange, slice_to_vec};
use crate::GptError;
use crate::spec_zeros;
use crate::push_zeros;
use crate::crc32::{crc32, spec_crc32};
use crate::disk::LogicalBlockSize;
use crate::partition::{
    Partition, PartitionV, views, spec_encode_array, encode_array,
    spec_array_geometry_ok,
};

verus! {

/// The fixed 8-byte header magic, as a little-endian integer.
pub const GPT_SIGNATURE: u64 = 0x5452415020494645;

/// The fixed header revision.
pub const GPT_REVISION: u32 = 0x00010000;

/// The declared size of the fixed header structure, in bytes.
pub const HEADER_SIZE: u32 = 92;

/// The conventional number of declared partition-entry slots.
pub const NUM_PART_ENTRIES: u32 = 128;

/// The conventional width of one partition-entry slot, in bytes.
pub const PART_ENTRY_SIZE: u32 = 128;

/// The one-sector GPT header.
#[derive(Debug, Clone, Copy, PartialEq, Eq, Structural)]
pub struct Header {
    /// The 8-byte magic, read as a little-endian integer.
    pub signature: u64,
    /// Header revision.
    pub revision: u32,
    /// Declared size of the header structure in bytes.
    pub header_size: u32,
    /// CRC-32 of the first `header_size` bytes with this field zeroed.
    pub crc32: u32,
    /// Reserved field, conventionally zero.
    pub reserved: u32,
    /// The sector this header lives in.
    pub my_lba: u64,
    /// The sector of the other copy of the header.
    pub alternate_lba: u64,
    /// First sector usable for partitions.
    pub first_usable: u64,
    /// Last sector usable for partitions, inclusive.
    pub last_usable: u64,
    /// 128-bit disk identifier.
    pub disk_guid: u128,
    /// First sector of the partition-entry array.
    pub part_start: u64,
    /// Number of declared partition-entry slots.
    pub num_parts: u32,
    /// Width of one partition-entry slot in bytes.
    pub part_size: u32,
    /// CRC-32 of the serialized partition-entry array.
    pub crc32_parts: u32,
}

/// Bytes 0..16 of the header structure: magic, revision, declared size.
pub open spec fn spec_header_pre(h: Header) -> Seq<u8> {
    spec_u64_to_le_bytes(h.signature) + spec_u32_to_le_bytes(h.revision) + spec_u32_to_le_bytes(
        h.header_size,
    )
}

/// Bytes 20..92 of the header structure: every field after the checksum.
pub open spec fn spec_header_post(h: Header) -> Seq<u8> {
    spec_u32_to_le_bytes(h.reserved) + spec_u64_to_le_bytes(h.my_lba) + spec_u64_to_le_bytes(
        h.alternate_lba,
    ) + spec_u64_to_le_bytes(h.first_usable) + spec_u64_to_le_bytes(h.last_usable)
        + spec_u128_to_le_bytes(h.disk_guid) + spec_u64_to_le_bytes(h.part_start)
        + spec_u32_to_le_bytes(h.num_parts) + spec_u32_to_le_bytes(h.part_size)
        + spec_u32_to_le_bytes(h.crc32_parts)
}

/// The 92 bytes of the header structure, fields in on-disk order,
/// little-endian, with the checksum field holding `h.crc32` as given.
pub open spec fn spec_header_bytes(h: Header) -> Seq<u8> {
    spec_header_pre(h) + spec_u32_to_le_bytes(h.crc32) + spec_header_post(h)
}

/// `h` with its checksum field zeroed, the form over which the header
/// checksum is computed.
pub open spec fn zero_crc(h: Header) -> Header {
    Header { crc32: 0, ..h }
}

/// `h` with its checksum field set to the checksum of its own bytes: the
/// only form `encode` emits.
pub open spec fn with_crc(h: Header) -> Header {
    Header { crc32: spec_crc32(spec_header_bytes(zero_crc(h))), ..h }
}

/// A valid header: fixed magic and revision, the fixed structure size, and
/// a stored checksum that matches its own bytes.
pub open spec fn header_wf(h: Header) -> bool {
    &&& h.signature == GPT_SIGNATURE
    &&& h.revision == GPT_REVISION
    &&& h.header_size == HEADER_SIZE
    &&& h.crc32 == spec_crc32(spec_header_bytes(zero_crc(h)))
}

/// The encoded sector: the 92 header bytes with a freshly computed
/// checksum, zero-padded to the sector size.
pub open spec fn spec_encode_header(h: Header, bs: int) -> Seq<u8> {
    spec_header_bytes(with_crc(h)) + spec_zeros((bs - 92) as nat)
}

/// The header fields read back from a raw sector, no validation applied.
pub open spec fn spec_parse_header(raw: Seq<u8>) -> Header {
    Header {
        signature: spec_u64_from_le_bytes(raw.subrange(0, 8)),
        revision: spec_u32_from_le_bytes(raw.subrange(8, 12)),
        header_size: spec_u32_from_le_bytes(raw.subrange(12, 16)),
        crc32: spec_u32_from_le_bytes(raw.subrange(16, 20)),
        reserved: spec_u32_from_le_bytes(raw.subrange(20, 24)),
        my_lba: spec_u64_from_le_bytes(raw.subrange(24, 32)),
        alternate_lba: spec_u64_from_le_bytes(raw.subrange(32, 40)),
        first_usable: spec_u64_from_le_bytes(raw.subrange(40, 48)),
        last_usable: spec_u64_from_le_bytes(raw.subrange(48, 56)),
        disk_guid: spec_u128_from_le_bytes(raw.subrange(56, 72)),
        part_start: spec_u64_from_le_bytes(raw.subrange(72, 80)),
        num_parts: spec_u32_from_le_bytes(raw.subrange(80, 84)),
        part_size: spec_u32_from_le_bytes(raw.subrange(84, 88)),
        crc32_parts: spec_u32_from_le_bytes(raw.subrange(88, 92)),
    }
}

/// The bytes over which the header checksum is recomputed during decode:
/// the first `hs` declared bytes with the stored-checksum field replaced by
/// an encoded zero.
pub open spec fn spec_crc_input(raw: Seq<u8>, hs: int) -> Seq<u8> {
    raw.subrange(0, 16) + spec_u32_to_le_bytes(0u32) + raw.subrange(20, hs)
}

/// The decode of a raw header sector read from `expected_lba`, checks in
/// order: magic and revision, declared size within the sector, stored
/// checksum against the recomputed one, then the header's own location.
pub open spec fn spec_decode_header(raw: Seq<u8>, expected_lba: u64, bs: int) -> Result<
    Header,
    GptError,
> {
    let h = spec_parse_header(raw);
    if h.signature != GPT_SIGNATURE || h.revision != GPT_REVISION {
        Err(GptError::InvalidSignature)
    } else if h.header_size < 92 || h.header_size > bs {
        Err(GptError::PartitionTableCorrupt)
    } else if h.crc32 != spec_crc32(spec_crc_input(raw, h.header_size as int)) {
        Err(GptError::ChecksumMismatch)
    } else if h.my_lba != expected_lba {
        Err(GptError::PartitionTableCorrupt)
    } else {
        Ok(h)
    }
}

/// Serializes the 92 header bytes with the checksum field as stored in `h`.
fn header_bytes(h: &Header) -> (r: Vec<u8>)
    ensures
        r@ == spec_header_bytes(*h),
{
    let mut out: Vec<u8> = Vec::new();
    let mut b0: Vec<u8> = u64_to_le_bytes(h.signature);
    out.append(&mut b0);
    let mut b1: Vec<u8> = u32_to_le_bytes(h.revision);
    out.append(&mut b1);
    let mut b2: Vec<u8> = u32_to_le_bytes(h.header_size);
    out.append(&mut b2);
    let mut b3: Vec<u8> = u32_to_le_bytes(h.crc32);
    out.append(&mut b3);
    let mut b4: Vec<u8> = u32_to_le_bytes(h.reserved);
    out.append(&mut b4);
    let mut b5: Vec<u8> = u64_to_le_bytes(h.my_lba);
    out.append(&mut b5);
    let mut b6: Vec<u8> = u64_to_le_bytes(h.alternate_lba);
    out.append(&mut b6);
    let mut b7: Vec<u8> = u64_to_le_bytes(h.first_usable);
    out.append(&mut b7);
    let mut b8: Vec<u8> = u64_to_le_bytes(h.last_usable);
    out.append(&mut b8);
    let mut b9: Vec<u8> = u128_to_le_bytes(h.disk_guid);
    out.append(&mut b9);
    let mut b10: Vec<u8> = u64_to_le_bytes(h.part_start);
    out.append(&mut b10);
    let mut b11: Vec<u8> = u32_to_le_bytes(h.num_parts);
    out.append(&mut b11);
    let mut b12: Vec<u8> = u32_to_le_bytes(h.part_size);
    out.append(&mut b12);
    let mut b13: Vec<u8> = u32_to_le_bytes(h.crc32_parts);
    out.append(&mut b13);
    out
}

impl Header {
    /// Serializes the header as one sector: all fields in the fixed layout,
    /// the checksum recomputed and filled last so the emitted checksum
    /// always matches the emitted bytes, zero-padded to the sector size.
    pub fn encode(&self, lb_size: LogicalBlockSize) -> (r: Vec<u8>)
        ensures
            r@ == spec_encode_header(*self, lb_size.spec_bytes() as int),
            r@.len() == lb_size.spec_bytes(),
    {
        let zeroed = Header { crc32: 0, ..*self };
        let base: Vec<u8> = header_bytes(&zeroed);
        let c: u32 = crc32(base.as_slice());
        let hc = Header { crc32: c, ..*self };
        proof {
            assert(zeroed == zero_crc(*self));
            assert(hc == with_crc(*self));
        }
        let mut out: Vec<u8> = header_bytes(&hc);
        proof {
            lemma_header_bytes_len(hc);
        }
        let bs: u64 = lb_size.bytes();
        push_zeros(&mut out, (bs - 92) as usize);
        out
    }

    /// Decodes a raw header sector read from `expected_lba`, validating the
    /// magic and revision, the declared header size, the stored checksum
    /// over the declared bytes with the checksum field zeroed, and the
    /// header's own location.
    pub fn decode(raw: &[u8], expected_lba: u64, lb_size: LogicalBlockSize) -> (r: Result<
        Header,
        GptError,
    >)
        requires
            raw@.len() == lb_size.spec_bytes(),
        ensures
            r == spec_decode_header(raw@, expected_lba, lb_size.spec_bytes() as int),
    {
        let h = Header {
            signature: u64_from_le_bytes(slice_subrange(raw, 0, 8)),
            revision: u32_from_le_bytes(slice_subrange(raw, 8, 12)),
            header_size: u32_from_le_bytes(slice_subrange(raw, 12, 16)),
            crc32: u32_from_le_bytes(slice_subrange(raw, 16, 20)),
            reserved: u32_from_le_bytes(slice_subrange(raw, 20, 24)),
            my_lba: u64_from_le_bytes(slice_subrange(raw, 24, 32)),
            alternate_lba: u64_from_le_bytes(slice_subrange(raw, 32, 40)),
            first_usable: u64_from_le_bytes(slice_subrange(raw, 40, 48)),
            last_usable: u64_from_le_bytes(slice_subrange(raw, 48, 56)),
            disk_guid: u128_from_le_bytes(slice_subrange(raw, 56, 72)),
            part_start: u64_from_le_bytes(slice_subrange(raw, 72, 80)),
            num_parts: u32_from_le_bytes(slice_subrange(raw, 80, 84)),
            part_size: u32_from_le_bytes(slice_subrange(raw, 84, 88)),
            crc32_parts: u32_from_le_bytes(slice_subrange(raw, 88, 92)),
        };
        proof {
            assert(h == spec_parse_header(raw@));
        }
        if h.signature != GPT_SIGNATURE || h.revision != GPT_REVISION {
            return Err(GptError::InvalidSignature);
        }
        let bs: u64 = lb_size.bytes();
        if h.header_size < 92 || h.header_size as u64 > bs {
            return Err(GptError::PartitionTableCorrupt);
        }
        let mut buf: Vec<u8> = slice_to_vec(slice_subrange(raw, 0, 16));
        let mut z: Vec<u8> = u32_to_le_bytes(0);
        buf.append(&mut z);
        let mut rest: Vec<u8> = slice_to_vec(slice_subrange(raw, 20, h.header_size as usize));
        buf.append(&mut rest);
        proof {
            assert(buf@ =~= spec_crc_input(raw@, h.header_size as int));
        }
        let c: u32 = crc32(buf.as_slice());
        if h.crc32 != c {
            return Err(GptError::ChecksumMismatch);
        }
        if h.my_lba != expected_lba {
            return Err(GptError::PartitionTableCorrupt);
        }
        Ok(h)
    }
}

/// Sectors occupied by the declared partition-entry array: 16384 bytes at
/// the given sector size.
pub open spec fn spec_array_sectors(lb: LogicalBlockSize) -> u64 {
    match lb {
        LogicalBlockSize::Lb512 => 32,
        LogicalBlockSize::Lb4096 => 4,
    }
}

/// The header geometry derived for a new primary or backup header, before
/// its own checksum is filled in. The primary lives in sector 1 with its
/// array right behind it; the backup lives in `backup_lba` with its array
/// right before it; usable space is what lies between the two arrays.
pub open spec fn spec_new_geometry(
    primary: bool,
    disk_guid: u128,
    backup_lba: u64,
    lb_size: LogicalBlockSize,
    parts_crc: u32,
) -> Header {
    let arr = spec_array_sectors(lb_size);
    Header {
        signature: GPT_SIGNATURE,
        revision: GPT_REVISION,
        header_size: HEADER_SIZE,
        crc32: 0,
        reserved: 0,
        my_lba: if primary {
            1
        } else {
            backup_lba
        },
        alternate_lba: if primary {
            backup_lba
        } else {
            1
        },
        first_usable: (2 + arr) as u64,
        last_usable: (backup_lba - 1 - arr) as u64,
        disk_guid: disk_guid,
        part_start: if primary {
            2
        } else {
            (backup_lba - arr) as u64
        },
        num_parts: NUM_PART_ENTRIES,
        part_size: PART_ENTRY_SIZE,
        crc32_parts: parts_crc,
    }
}

/// Every partition lies within the usable range and has its blocks in
/// order.
pub open spec fn spec_partitions_fit(ps: Seq<PartitionV>, first_usable: u64, last_usable: u64) -> bool {
    forall|i: int|
        0 <= i < ps.len() ==> {
            let p = #[trigger] ps[i];
            &&& p.first_lba <= p.last_lba
            &&& first_usable <= p.first_lba
            &&& p.last_lba <= last_usable
        }
}

/// When deriving a new header pair succeeds: the list fits the declared
/// array geometry, the disk leaves room for both headers and both array
/// copies plus at least one usable sector, and every partition lies within
/// the resulting usable range.
pub open spec fn spec_compute_new_ok(ps: Seq<PartitionV>, backup_lba: u64, lb_size: LogicalBlockSize) -> bool {
    let arr = spec_array_sectors(lb_size);
    &&& spec_array_geometry_ok(ps, NUM_PART_ENTRIES, PART_ENTRY_SIZE)
    &&& backup_lba >= 3 + 2 * arr
    &&& spec_partitions_fit(ps, (2 + arr) as u64, (backup_lba - 1 - arr) as u64)
}

/// The checksum of the serialized partition list in the declared array
/// geometry.
pub open spec fn spec_parts_crc(ps: Seq<PartitionV>) -> u32 {
    spec_crc32(spec_encode_array(ps, NUM_PART_ENTRIES as nat))
}

impl Header {
    /// The single authority for header geometry: derives a new primary
    /// (`primary == true`) or backup header for the given partition list,
    /// disk identifier and backup location, with both checksums computed
    /// over the serialized forms. The two headers derived for the same
    /// inputs are always mutually consistent. Fails with
    /// `PartitionTableCorrupt` when the list does not fit the declared
    /// array geometry, the disk is too small, or a partition lies outside
    /// the usable range.
    pub fn compute_new(
        primary: bool,
        partitions: &Vec<Partition>,
        disk_guid: u128,
        backup_lba: u64,
        lb_size: LogicalBlockSize,
    ) -> (r: Result<Header, GptError>)
        ensures
            match r {
                Ok(h) => {
                    &&& spec_compute_new_ok(views(partitions@), backup_lba, lb_size)
                    &&& h == with_crc(
                        spec_new_geometry(
                            primary,
                            disk_guid,
                            backup_lba,
                            lb_size,
                            spec_parts_crc(views(partitions@)),
                        ),
                    )
                    &&& header_wf(h)
                },
                Err(e) => {
                    &&& e == GptError::PartitionTableCorrupt
                    &&& !spec_compute_new_ok(views(partitions@), backup_lba, lb_size)
                },
            },
    {
        let arr: u64 = match lb_size {
            LogicalBlockSize::Lb512 => 32,
            LogicalBlockSize::Lb4096 => 4,
        };
        if backup_lba < 3 + 2 * arr {
            return Err(GptError::PartitionTableCorrupt);
        }
        let first_usable: u64 = 2 + arr;
        let last_usable: u64 = backup_lba - 1 - arr;
        let ghost psv = views(partitions@);
        let mut i: usize = 0;
        while i < partitions.len()
            invariant
                0 <= i <= partitions@.len(),
                psv == views(partitions@),
                arr == spec_array_sectors(lb_size),
                backup_lba >= 3 + 2 * arr,
                first_usable == 2 + arr,
                last_usable == backup_lba - 1 - arr,
                forall|j: int|
                    0 <= j < i ==> {
                        let p = #[trigger] psv[j];
                        &&& p.first_lba <= p.last_lba
                        &&& first_usable <= p.first_lba
                        &&& p.last_lba <= last_usable
                    },
            decreases partitions@.len() - i,
        {
            let fits = partitions[i].first_lba <= partitions[i].last_lba && first_usable
                <= partitions[i].first_lba && partitions[i].last_lba <= last_usable;
            if !fits {
                proof {
                    let p = psv[i as int];
                    assert(p == partitions@[i as int]@);
                    assert(!(p.first_lba <= p.last_lba && first_usable <= p.first_lba
                        && p.last_lba <= last_usable));
                    assert(!spec_partitions_fit(psv, first_usable, last_usable));
                    assert(arr == spec_array_sectors(lb_size));
                    assert(first_usable == (2 + spec_array_sectors(lb_size)) as u64);
                    assert(last_usable == (backup_lba - 1 - spec_array_sectors(lb_size)) as u64);
                    assert(!spec_compute_new_ok(psv, backup_lba, lb_size));
                }
                return Err(GptError::PartitionTableCorrupt);
            }
            i = i + 1;
        }
        let parts_bytes: Vec<u8> = match encode_array(partitions, NUM_PART_ENTRIES, PART_ENTRY_SIZE) {
            Ok(b) => b,
            Err(e) => {
                return Err(e);
            },
        };
        let crc_parts: u32 = crc32(parts_bytes.as_slice());
        let g = Header {
            signature: GPT_SIGNATURE,
            revision: GPT_REVISION,
            header_size: HEADER_SIZE,
            crc32: 0,
            reserved: 0,
            my_lba: if primary {
                1
            } else {
                backup_lba
            },
            alternate_lba: if primary {
                backup_lba
            } else {
                1
            },
            first_usable: first_usable,
            last_usable: last_usable,
            disk_guid: disk_guid,
            part_start: if primary {
                2
            } else {
                backup_lba - arr
            },
            num_parts: NUM_PART_ENTRIES,
            part_size: PART_ENTRY_SIZE,
            crc32_parts: crc_parts,
        };
        proof {
            assert(g == spec_new_geometry(primary, disk_guid, backup_lba, lb_size, crc_parts));
            assert(zero_crc(g) == g);
        }
        let base: Vec<u8> = header_bytes(&g);
        let c: u32 = crc32(base.as_slice());
        let h = Header { crc32: c, ..g };
        proof {
            assert(h == with_crc(g));
            assert(zero_crc(h) == zero_crc(g));
        }
        Ok(h)
    }
}

/// The number of whole sectors the device holds.
pub open spec fn spec_total_sectors(disk_len: u64, lb_size: LogicalBlockSize) -> int {
    disk_len as int / lb_size.spec_bytes() as int
}

/// Derives the conventional backup header location: the last whole sector
/// of the device. Fails with `IoError` when the device holds fewer than
/// the minimum viable four sectors (protective record, primary header, one
/// usable sector, backup header).
pub fn find_backup_lba(disk_len: u64, lb_size: LogicalBlockSize) -> (r: Result<u64, GptError>)
    ensures
        match r {
            Ok(lba) => spec_total_sectors(disk_len, lb_size) >= 4 && lba
                == spec_total_sectors(disk_len, lb_size) - 1,
            Err(e) => e == GptError::IoError && spec_total_sectors(disk_len, lb_size) < 4,
        },
{
    let bs: u64 = lb_size.bytes();
    let sectors: u64 = disk_len / bs;
    if sectors < 4 {
        Err(GptError::IoError)
    } else {
        Ok(sectors - 1)
    }
}

/// Derives a consistent primary/backup header pair from a partition list
/// and disk identifier: locates the backup sector from the device size,
/// then derives both headers from the same inputs. Purely in-memory. The
/// two headers' alternate-location fields always point at each other's own
/// location.
pub fn rebuild(
    disk_guid: u128,
    partitions: &Vec<Partition>,
    disk_len: u64,
    lb_size: LogicalBlockSize,
) -> (r: Result<(Header, Header), GptError>)
    ensures
        match r {
            Ok(pair) => {
                let bak = (spec_total_sectors(disk_len, lb_size) - 1) as u64;
                &&& spec_total_sectors(disk_len, lb_size) >= 4
                &&& spec_compute_new_ok(views(partitions@), bak, lb_size)
                &&& pair.0 == with_crc(
                    spec_new_geometry(true, disk_guid, bak, lb_size, spec_parts_crc(views(partitions@))),
                )
                &&& pair.1 == with_crc(
                    spec_new_geometry(false, disk_guid, bak, lb_size, spec_parts_crc(views(partitions@))),
                )
                &&& header_wf(pair.0)
                &&& header_wf(pair.1)
                &&& pair.0.alternate_lba == pair.1.my_lba
                &&& pair.1.alternate_lba == pair.0.my_lba
                &&& pair.0.my_lba == 1
                &&& pair.1.my_lba == bak
                &&& pair.0.disk_guid == disk_guid
                &&& pair.1.disk_guid == disk_guid
                &&& pair.0.first_usable == pair.1.first_usable
                &&& pair.0.last_usable == pair.1.last_usable
                &&& pair.0.crc32_parts == pair.1.crc32_parts
            },
            Err(GptError::IoError) => spec_total_sectors(disk_len, lb_size) < 4,
            Err(GptError::PartitionTableCorrupt) => {
                &&& spec_total_sectors(disk_len, lb_size) >= 4
                &&& !spec_compute_new_ok(
                    views(partitions@),
                    (spec_total_sectors(disk_len, lb_size) - 1) as u64,
                    lb_size,
                )
            },
            Err(_) => false,
        },
{
    let bak: u64 = match find_backup_lba(disk_len, lb_size) {
        Ok(lba) => lba,
        Err(e) => {
            return Err(e);
        },
    };
    let h1: Header = match Header::compute_new(true, partitions, disk_guid, bak, lb_size) {
        Ok(h) => h,
        Err(e) => {
            return Err(e);
        },
    };
    let h2: Header = match Header::compute_new(false, partitions, disk_guid, bak, lb_size) {
        Ok(h) => h,
        Err(e) => {
            return Err(e);
        },
    };
    Ok((h1, h2))
}

/// The primary and backup headers derived for the same partition-array
/// checksum, disk identifier and backup location always point at each
/// other: the primary's alternate location is the backup's own location,
/// and conversely.
pub proof fn lemma_new_pair_mutual_consistency(
    disk_guid: u128,
    backup_lba: u64,
    lb_size: LogicalBlockSize,
    parts_crc: u32,
)
    ensures
        with_crc(spec_new_geometry(true, disk_guid, backup_lba, lb_size, parts_crc)).alternate_lba
            == with_crc(spec_new_geometry(false, disk_guid, backup_lba, lb_size, parts_crc)).my_lba,
        with_crc(spec_new_geometry(false, disk_guid, backup_lba, lb_size, parts_crc)).alternate_lba
            == with_crc(spec_new_geometry(true, disk_guid, backup_lba, lb_size, parts_crc)).my_lba,
{
}

/// The header structure is exactly 92 bytes.
pub proof fn lemma_header_bytes_len(h: Header)
    ensures
        spec_header_bytes(h).len() == 92,
{
    lemma_auto_spec_u32_to_from_le_bytes();
    lemma_auto_spec_u64_to_from_le_bytes();
    lemma_auto_spec_u128_to_from_le_bytes();
}

/// Parsing the serialized header bytes, whatever bytes follow them, gives
/// the fields back.
pub proof fn lemma_parse_header_bytes(h: Header, tail: Seq<u8>)
    ensures
        spec_parse_header(spec_header_bytes(h) + tail) == h,
{
    lemma_auto_spec_u32_to_from_le_bytes();
    lemma_auto_spec_u64_to_from_le_bytes();
    lemma_auto_spec_u128_to_from_le_bytes();
    lemma_header_bytes_len(h);
    let raw = spec_header_bytes(h) + tail;
    assert(raw.subrange(0, 8) =~= spec_u64_to_le_bytes(h.signature));
    assert(raw.subrange(8, 12) =~= spec_u32_to_le_bytes(h.revision));
    assert(raw.subrange(12, 16) =~= spec_u32_to_le_bytes(h.header_size));
    assert(raw.subrange(16, 20) =~= spec_u32_to_le_bytes(h.crc32));
    assert(raw.subrange(20, 24) =~= spec_u32_to_le_bytes(h.reserved));
    assert(raw.subrange(24, 32) =~= spec_u64_to_le_bytes(h.my_lba));
    assert(raw.subrange(32, 40) =~= spec_u64_to_le_bytes(h.alternate_lba));
    assert(raw.subrange(40, 48) =~= spec_u64_to_le_bytes(h.first_usable));
    assert(raw.subrange(48, 56) =~= spec_u64_to_le_bytes(h.last_usable));
    assert(raw.subrange(56, 72) =~= spec_u128_to_le_bytes(h.disk_guid));
    assert(raw.subrange(72, 80) =~= spec_u64_to_le_bytes(h.part_start));
    assert(raw.subrange(80, 84) =~= spec_u32_to_le_bytes(h.num_parts));
    assert(raw.subrange(84, 88) =~= spec_u32_to_le_bytes(h.part_size));
    assert(raw.subrange(88, 92) =~= spec_u32_to_le_bytes(h.crc32_parts));
}

/// Round trip: decoding an encoded valid header, against the location the
/// header itself declares, gives the header back.
pub proof fn lemma_header_round_trip(h: Header, bs: int)
    requires
        header_wf(h),
        bs == 512 || bs == 4096,
    ensures
        spec_decode_header(spec_encode_header(h, bs), h.my_lba, bs) == Ok::<Header, GptError>(h),
{
    lemma_auto_spec_u32_to_from_le_bytes();
    lemma_auto_spec_u64_to_from_le_bytes();
    lemma_auto_spec_u128_to_from_le_bytes();
    lemma_header_bytes_len(h);
    lemma_header_bytes_len(zero_crc(h));
    assert(with_crc(h) == h);
    let enc = spec_encode_header(h, bs);
    lemma_parse_header_bytes(h, spec_zeros((bs - 92) as nat));
    assert(spec_parse_header(enc) == h);
    assert(enc.subrange(0, 16) =~= spec_header_pre(h));
    assert(enc.subrange(20, 92) =~= spec_header_post(h));
    assert(spec_header_pre(zero_crc(h)) == spec_header_pre(h));
    assert(spec_header_post(zero_crc(h)) == spec_header_post(h));
    assert(spec_crc_input(enc, 92) == spec_header_bytes(zero_crc(h)));
}

/// Corruption detection: flipping any single bit of an encoded valid
/// header, anywhere from the checksum field to the end of the declared
/// structure (bit positions 128..736, i.e. bytes 16..92), makes `decode`
/// fail with `ChecksumMismatch`. A flip in the magic, revision or declared
/// size (bytes 0..16) is caught before the checksum is consulted and
/// reports `InvalidSignature` or `PartitionTableCorrupt` instead.
pub proof fn lemma_header_bit_flip_detected(h: Header, bs: int, bit: int)
    requires
        header_wf(h),
        bs == 512 || bs == 4096,
        128 <= bit < 736,
    ensures
        ({
            let enc = spec_encode_header(h, bs);
            let j = bit / 8;
            let corr = enc.update(j, (enc[j] ^ (1u8 << (bit % 8) as u8)) as u8);
            spec_decode_header(corr, h.my_lba, bs) == Err::<Header, GptError>(
                GptError::ChecksumMismatch,
            )
        }),
{
    lemma_auto_spec_u32_to_from_le_bytes();
    lemma_auto_spec_u64_to_from_le_bytes();
    lemma_auto_spec_u128_to_from_le_bytes();
    lemma_header_bytes_len(h);
    lemma_header_bytes_len(zero_crc(h));
    assert(with_crc(h) == h);
    let enc = spec_encode_header(h, bs);
    lemma_parse_header_bytes(h, spec_zeros((bs - 92) as nat));
    assert(spec_parse_header(enc) == h);
    let j = bit / 8;
    let kk: u8 = (bit % 8) as u8;
    let orig = enc[j];
    let flipped = (orig ^ (1u8 << kk)) as u8;
    assert(flipped != orig) by (bit_vector)
        requires
            kk < 8,
            flipped == (orig ^ (1u8 << kk)) as u8,
    ;
    let corr = enc.update(j, flipped);
    assert(16 <= j < 92);
    assert(corr.subrange(0, 8) =~= enc.subrange(0, 8));
    assert(corr.subrange(8, 12) =~= enc.subrange(8, 12));
    assert(corr.subrange(12, 16) =~= enc.subrange(12, 16));
    let hp = spec_parse_header(corr);
    assert(hp.signature == GPT_SIGNATURE);
    assert(hp.revision == GPT_REVISION);
    assert(hp.header_size == 92);
    let ci_e = spec_crc_input(enc, 92);
    let ci_c = spec_crc_input(corr, 92);
    assert(enc.subrange(0, 16) =~= spec_header_pre(h));
    assert(enc.subrange(20, 92) =~= spec_header_post(h));
    assert(spec_header_pre(zero_crc(h)) == spec_header_pre(h));
    assert(spec_header_post(zero_crc(h)) == spec_header_post(h));
    assert(ci_e == spec_header_bytes(zero_crc(h)));
    assert(spec_crc32(ci_e) == h.crc32);
    if j < 20 {
        assert(ci_c =~= ci_e);
        let se = enc.subrange(16, 20);
        let sc = corr.subrange(16, 20);
        assert(sc[j - 16] != se[j - 16]);
        if hp.crc32 == h.crc32 {
            assert(h.crc32 == spec_u32_from_le_bytes(se));
            assert(spec_u32_to_le_bytes(spec_u32_from_le_bytes(sc)) == sc);
            assert(spec_u32_to_le_bytes(spec_u32_from_le_bytes(se)) == se);
            assert(sc == se);
            assert(false);
        }
        assert(hp.crc32 != spec_crc32(ci_c));
    } else {
        assert(corr.subrange(16, 20) =~= enc.subrange(16, 20));
        assert(hp.crc32 == h.crc32);
        assert(ci_c.len() == 92);
        assert(ci_e.len() == 92);
        assert(ci_c[j] == flipped);
        assert(ci_e[j] == orig);
        assert forall|k2: int| 0 <= k2 < 92 && k2 != j implies ci_c[k2] == ci_e[k2] by {
            if k2 < 16 {
                assert(ci_c[k2] == corr[k2]);
                assert(ci_e[k2] == enc[k2]);
            } else if k2 >= 20 {
                assert(ci_c[k2] == corr[k2]);
                assert(ci_e[k2] == enc[k2]);
            }
        }
        crate::crc32::lemma_crc32_single_byte_diff(ci_c, ci_e, j);
        assert(hp.crc32 != spec_crc32(ci_c));
    }
    assert(spec_decode_header(corr, h.my_lba, bs) == Err::<Header, GptError>(
        GptError::ChecksumMismatch,
    ));
}

} // verus!
