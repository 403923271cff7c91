//! Protective-record codec: the single legacy boot sector that marks a disk
//! as GPT-formatted. Only the trailing two-byte boot signature and the
//! whole-disk placeholder partition record are semantically load-bearing.

use vstd::prelude::*;
use vstd::slice::{slice_index_get, slice_subrange, slice_to_vec};
use vstd::bytes::{spec_u32_to_le_bytes, u32_to_le_bytes};
use crate::GptError;
use crate::spec_zeros;
use crate::push_zeros;

verus! {

/// A decoded protective record: the boot code region, the four legacy
/// partition records, and (implicitly) the fixed `0x55 0xAA` boot signature,
/// which `encode` always emits.
#[derive(Debug, Clone, PartialEq, Eq)]
pub struct ProtectiveMbr {
    /// Bytes 0..446 of the sector: boot code and legacy disk-signature area.
    pub boot_code: Vec<u8>,
    /// Bytes 446..510 of the sector: four 16-byte legacy partition records.
    pub part_records: Vec<u8>,
}

/// The mathematical model of a protective record: its two byte regions.
#[verifier::ext_equal]
pub struct MbrV {
    /// Model of the boot code region.
    pub boot_code: Seq<u8>,
    /// Model of the four legacy partition records.
    pub part_records: Seq<u8>,
}

impl View for ProtectiveMbr {
    type V = MbrV;

    open spec fn view(&self) -> MbrV {
        MbrV { boot_code: self.boot_code@, part_records: self.part_records@ }
    }
}

/// Structural well-formedness: both regions have their fixed lengths.
pub open spec fn mbr_wf(m: MbrV) -> bool {
    &&& m.boot_code.len() == 446
    &&& m.part_records.len() == 64
}

/// Whether the first legacy partition record declares the GPT protective
/// type (`0xEE`), the conventional whole-disk placeholder.
pub open spec fn spec_has_protective_entry(m: MbrV) -> bool {
    m.part_records.len() == 64 && m.part_records[4] == 0xEEu8
}

/// The 16-byte whole-disk placeholder record: bootable flag clear, CHS
/// markers, protective type `0xEE`, start LBA 1, and the disk size in
/// sectors minus one (saturated to 32 bits).
pub open spec fn spec_protective_record(total_sectors: u64) -> Seq<u8> {
    seq![0x00u8, 0x00u8, 0x02u8, 0x00u8, 0xEEu8, 0xFFu8, 0xFFu8, 0xFFu8]
        + spec_u32_to_le_bytes(1u32) + spec_u32_to_le_bytes(
        if total_sectors - 1 > 0xFFFFFFFF {
            0xFFFFFFFFu32
        } else {
            (total_sectors - 1) as u32
        },
    )
}

/// The encoded form of a protective record: both regions followed by the
/// fixed boot signature.
pub open spec fn spec_encode_mbr(m: MbrV) -> Seq<u8> {
    m.boot_code + m.part_records + seq![0x55u8, 0xAAu8]
}

/// The decode of a 512-byte sector: the structured record when the boot
/// signature matches, `InvalidSignature` otherwise.
pub open spec fn spec_decode_mbr(sector: Seq<u8>) -> Result<MbrV, GptError> {
    if sector[510] == 0x55u8 && sector[511] == 0xAAu8 {
        Ok(MbrV { boot_code: sector.subrange(0, 446), part_records: sector.subrange(446, 510) })
    } else {
        Err(GptError::InvalidSignature)
    }
}

impl ProtectiveMbr {
    /// Whether the first legacy partition record declares the GPT protective
    /// type (`0xEE`).
    pub fn has_protective_entry(&self) -> (r: bool)
        requires
            mbr_wf(self@),
        ensures
            r == spec_has_protective_entry(self@),
    {
        self.part_records[4] == 0xEE
    }

    /// Builds the conventional protective record for a disk of
    /// `total_sectors` sectors: zeroed boot code, one placeholder record
    /// covering the whole disk, and the remaining three records zeroed.
    pub fn new_protective(total_sectors: u64) -> (r: ProtectiveMbr)
        requires
            total_sectors >= 2,
        ensures
            mbr_wf(r@),
            spec_has_protective_entry(r@),
            r@.boot_code == spec_zeros(446),
            r@.part_records == spec_protective_record(total_sectors) + spec_zeros(48),
    {
        let mut boot_code: Vec<u8> = Vec::new();
        push_zeros(&mut boot_code, 446);
        let mut rec: Vec<u8> = Vec::new();
        rec.push(0x00);
        rec.push(0x00);
        rec.push(0x02);
        rec.push(0x00);
        rec.push(0xEE);
        rec.push(0xFF);
        rec.push(0xFF);
        rec.push(0xFF);
        let mut start_lba: Vec<u8> = u32_to_le_bytes(1);
        rec.append(&mut start_lba);
        let size: u32 = if total_sectors - 1 > 0xFFFFFFFF {
            0xFFFFFFFF
        } else {
            (total_sectors - 1) as u32
        };
        let mut size_lba: Vec<u8> = u32_to_le_bytes(size);
        rec.append(&mut size_lba);
        push_zeros(&mut rec, 48);
        proof {
            assert(rec@ =~= spec_protective_record(total_sectors) + spec_zeros(48));
        }
        ProtectiveMbr { boot_code, part_records: rec }
    }

    /// Decodes a 512-byte legacy boot sector. Fails with `InvalidSignature`
    /// when the trailing two bytes are not `0x55, 0xAA`.
    pub fn decode(sector: &[u8]) -> (r: Result<ProtectiveMbr, GptError>)
        requires
            sector@.len() == 512,
        ensures
            match r {
                Ok(m) => spec_decode_mbr(sector@) == Ok::<MbrV, GptError>(m@) && mbr_wf(m@),
                Err(e) => spec_decode_mbr(sector@) == Err::<MbrV, GptError>(e),
            },
    {
        if *slice_index_get(sector, 510) != 0x55 || *slice_index_get(sector, 511) != 0xAA {
            return Err(GptError::InvalidSignature);
        }
        let boot_code: Vec<u8> = slice_to_vec(slice_subrange(sector, 0, 446));
        let part_records: Vec<u8> = slice_to_vec(slice_subrange(sector, 446, 510));
        Ok(ProtectiveMbr { boot_code, part_records })
    }

    /// Encodes the record as a 512-byte sector, always emitting the fixed
    /// `0x55, 0xAA` boot signature.
    pub fn encode(&self) -> (r: Vec<u8>)
        requires
            mbr_wf(self@),
        ensures
            r@ == spec_encode_mbr(self@),
            r@.len() == 512,
    {
        let mut out: Vec<u8> = Vec::new();
        let mut bc: Vec<u8> = slice_to_vec(self.boot_code.as_slice());
        out.append(&mut bc);
        let mut pr: Vec<u8> = slice_to_vec(self.part_records.as_slice());
        out.append(&mut pr);
        out.push(0x55);
        out.push(0xAA);
        proof {
            assert(out@ =~= spec_encode_mbr(self@));
        }
        out
    }
}

/// Decoding an encoded well-formed record gives the record back: the codec
/// round-trips.
pub proof fn lemma_mbr_round_trip(m: MbrV)
    requires
        mbr_wf(m),
    ensures
        spec_decode_mbr(spec_encode_mbr(m)) == Ok::<MbrV, GptError>(m),
{
    let enc = spec_encode_mbr(m);
    assert(enc[510] == 0x55u8 && enc[511] == 0xAAu8);
    let d = spec_decode_mbr(enc)->Ok_0;
    assert(d.boot_code =~= m.boot_code);
    assert(d.part_records =~= m.part_records);
    assert(d =~= m);
}

} // verus!
